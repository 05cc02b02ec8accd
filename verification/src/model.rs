use vstd::prelude::*;

use crate::field_element::FieldElement;
use crate::places::PLACEHOLDER_RAW;

verus! {

/// What one trace cell holds after materialization: the resolved value at the
/// cell's location, or the additive identity where the placement left the
/// cell unassigned. Unassigned cells are deliberately inert: they commit to
/// zero and may later be randomized for blinding by a different stage.
pub open spec fn cell_value(values: Seq<FieldElement>, loc: u64) -> FieldElement {
    if loc == PLACEHOLDER_RAW {
        FieldElement::spec_zero()
    } else if loc < values.len() {
        values[loc as int]
    } else {
        FieldElement::spec_zero()
    }
}

/// One materialized column: `cell_value` applied row by row to the column's
/// placement locations.
pub open spec fn materialized_column(values: Seq<FieldElement>, locs: Seq<u64>) -> Seq<
    FieldElement,
> {
    Seq::new(locs.len(), |i: int| cell_value(values, locs[i]))
}

/// A materialized column family: one column per placement-map column.
pub open spec fn materialized_columns(values: Seq<FieldElement>, maps: Seq<Seq<u64>>) -> Seq<
    Seq<FieldElement>,
> {
    Seq::new(maps.len(), |j: int| materialized_column(values, maps[j]))
}

/// The flattened multiplicity column: one directly embedded counter per
/// lookup-table row, the remaining rows at the additive identity.
pub open spec fn multiplicity_column(counters: Seq<u32>, trace_len: nat) -> Seq<FieldElement> {
    Seq::new(
        trace_len,
        |i: int|
            if i < counters.len() {
                FieldElement { repr: counters[i] as u64 }
            } else {
                FieldElement::spec_zero()
            },
    )
}

/// Sum of a sequence of counters, as an unbounded integer.
pub open spec fn sum_counters(s: Seq<u32>) -> int
    decreases s.len(),
{
    if s.len() == 0 {
        0
    } else {
        s[0] + sum_counters(s.drop_first())
    }
}

/// Sum of the representatives held by a column, as an unbounded integer.
pub open spec fn sum_reprs(s: Seq<FieldElement>) -> int
    decreases s.len(),
{
    if s.len() == 0 {
        0
    } else {
        s[0].repr + sum_reprs(s.drop_first())
    }
}

/// The multiplicity bank's subtables, concatenated in order.
pub open spec fn flatten_bank(bank: Seq<Seq<u32>>) -> Seq<u32>
    decreases bank.len(),
{
    if bank.len() == 0 {
        Seq::empty()
    } else {
        bank[0] + flatten_bank(bank.drop_first())
    }
}

/// Total of every counter across all of a bank's subtables.
pub open spec fn bank_total(bank: Seq<Seq<u32>>) -> int
    decreases bank.len(),
{
    if bank.len() == 0 {
        0
    } else {
        sum_counters(bank[0]) + bank_total(bank.drop_first())
    }
}

/// The counter sequences held by a bank of subtables.
pub open spec fn bank_view(bank: Seq<Vec<u32>>) -> Seq<Seq<u32>> {
    Seq::new(bank.len(), |j: int| bank[j]@)
}

/// Changing one counter changes a sequence's sum by the difference.
pub proof fn lemma_sum_counters_update(s: Seq<u32>, i: int, v: u32)
    requires
        0 <= i < s.len(),
    ensures
        sum_counters(s.update(i, v)) == sum_counters(s) - s[i] + v,
    decreases s.len(),
{
    if i == 0 {
        assert(s.update(0, v).drop_first() =~= s.drop_first());
    } else {
        assert(s.update(i, v).drop_first() =~= s.drop_first().update(i - 1, v));
        lemma_sum_counters_update(s.drop_first(), i - 1, v);
    }
}

/// Replacing one subtable changes a bank's total by the difference of the
/// subtable sums.
pub proof fn lemma_bank_total_update(bank: Seq<Seq<u32>>, j: int, col: Seq<u32>)
    requires
        0 <= j < bank.len(),
    ensures
        bank_total(bank.update(j, col)) == bank_total(bank) - sum_counters(bank[j]) + sum_counters(
            col,
        ),
    decreases bank.len(),
{
    if j == 0 {
        assert(bank.update(0, col).drop_first() =~= bank.drop_first());
    } else {
        assert(bank.update(j, col).drop_first() =~= bank.drop_first().update(j - 1, col));
        lemma_bank_total_update(bank.drop_first(), j - 1, col);
    }
}

pub proof fn lemma_sum_counters_concat(a: Seq<u32>, b: Seq<u32>)
    ensures
        sum_counters(a + b) == sum_counters(a) + sum_counters(b),
    decreases a.len(),
{
    if a.len() == 0 {
        assert(a + b =~= b);
    } else {
        assert((a + b).drop_first() =~= a.drop_first() + b);
        lemma_sum_counters_concat(a.drop_first(), b);
    }
}

/// Flattening a bank preserves its total.
pub proof fn lemma_flatten_bank_total(bank: Seq<Seq<u32>>)
    ensures
        sum_counters(flatten_bank(bank)) == bank_total(bank),
    decreases bank.len(),
{
    if bank.len() > 0 {
        lemma_sum_counters_concat(bank[0], flatten_bank(bank.drop_first()));
        lemma_flatten_bank_total(bank.drop_first());
    }
}

/// Appending one more subtable extends the flattened sequence on the right.
pub proof fn lemma_flatten_bank_take_succ(bank: Seq<Seq<u32>>, t: int)
    requires
        0 <= t < bank.len(),
    ensures
        flatten_bank(bank.take(t + 1)) == flatten_bank(bank.take(t)) + bank[t],
    decreases t,
{
    if t == 0 {
        let first = bank.take(1);
        assert(first.len() == 1);
        assert(first[0] == bank[0]);
        assert(first.drop_first() =~= Seq::<Seq<u32>>::empty());
        assert(flatten_bank(first) == first[0] + flatten_bank(first.drop_first()));
        assert(flatten_bank(Seq::<Seq<u32>>::empty()) =~= Seq::<u32>::empty());
        assert(flatten_bank(first) =~= bank[0]);
        assert(flatten_bank(bank.take(0)) + bank[0] =~= bank[0]);
    } else {
        lemma_flatten_bank_take_succ(bank.drop_first(), t - 1);
        assert(bank.take(t + 1).drop_first() =~= bank.drop_first().take(t));
        assert(bank.take(t).drop_first() =~= bank.drop_first().take(t - 1));
        assert(flatten_bank(bank.take(t + 1)) == bank[0] + flatten_bank(
            bank.drop_first().take(t),
        ));
        assert(bank.drop_first()[t - 1] == bank[t]);
        assert(bank[0] + (flatten_bank(bank.drop_first().take(t - 1)) + bank[t]) =~= (bank[0]
            + flatten_bank(bank.drop_first().take(t - 1))) + bank[t]);
        assert(flatten_bank(bank.take(t)) == bank[0] + flatten_bank(bank.drop_first().take(t - 1)));
    }
}

/// The embedded multiplicity column carries exactly the counters' total: the
/// embedding is direct and the padding rows hold zero.
pub proof fn lemma_multiplicity_column_total(counters: Seq<u32>, trace_len: nat)
    requires
        counters.len() <= trace_len,
    ensures
        sum_reprs(multiplicity_column(counters, trace_len)) == sum_counters(counters),
    decreases trace_len,
{
    let col = multiplicity_column(counters, trace_len);
    if trace_len == 0 {
    } else if counters.len() == 0 {
        assert(col[0] == FieldElement::spec_zero());
        assert(col.drop_first() =~= multiplicity_column(counters, (trace_len - 1) as nat));
        lemma_multiplicity_column_total(counters, (trace_len - 1) as nat);
        assert(sum_counters(counters) == 0);
    } else {
        assert(col.drop_first() =~= multiplicity_column(
            counters.drop_first(),
            (trace_len - 1) as nat,
        ));
        lemma_multiplicity_column_total(counters.drop_first(), (trace_len - 1) as nat);
    }
}

} // verus!
