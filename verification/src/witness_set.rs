use vstd::prelude::*;

use crate::column::Column;
use crate::field_element::FieldElement;

verus! {

/// The fully materialized, ready-to-commit witness data: public input values
/// (flat and paired with their (column, row) position), and the three dense
/// column families. Produced once per proving attempt, either directly from
/// the value store or by replay from a compact witness vector, and consumed
/// by the commitment stage. Even though it is public, it has internal
/// placement requirements and is only constructed by this layer.
#[derive(Debug)]
pub struct WitnessSet {
    pub public_inputs_values: Vec<FieldElement>,
    pub public_inputs_with_locations: Vec<(usize, usize, FieldElement)>,
    pub variables: Vec<Column>,
    pub witness: Vec<Column>,
    pub multiplicities: Vec<Column>,
}

/// Column-by-column agreement of two families over their common prefix: each
/// pair of columns at the same position holds identical rows.
pub open spec fn families_agree(a: Seq<Column>, b: Seq<Column>) -> bool {
    forall|j: int| 0 <= j < a.len() && j < b.len() ==> (#[trigger] a[j]).storage@ == b[j].storage@
}

/// Compares the common prefix of two column families element-wise.
fn compare_families(a: &Vec<Column>, b: &Vec<Column>) -> (r: bool)
    ensures
        r == families_agree(a@, b@),
{
    let n = if a.len() < b.len() {
        a.len()
    } else {
        b.len()
    };
    let mut j: usize = 0;
    while j < n
        invariant
            j <= n,
            n <= a@.len(),
            n <= b@.len(),
            n == a@.len() || n == b@.len(),
            forall|k: int| 0 <= k < j ==> (#[trigger] a@[k]).storage@ == b@[k].storage@,
        decreases n - j,
    {
        if !a[j].equals(&b[j]) {
            return false;
        }
        j = j + 1;
    }
    true
}

impl WitnessSet {
    /// Test/debug comparison of two witness sets: variables, then witnesses,
    /// then multiplicities, column by column over each family's common
    /// prefix. The public-input fields are derivable from the variable
    /// columns and are deliberately not compared. Returns whether every
    /// compared pair of columns agreed.
    pub fn pretty_compare(&self, other: &Self) -> (r: bool)
        ensures
            r == (families_agree(self.variables@, other.variables@) && families_agree(
                self.witness@,
                other.witness@,
            ) && families_agree(self.multiplicities@, other.multiplicities@)),
    {
        let variables_agree = compare_families(&self.variables, &other.variables);
        let witness_agree = compare_families(&self.witness, &other.witness);
        let multiplicities_agree = compare_families(&self.multiplicities, &other.multiplicities);
        variables_agree && witness_agree && multiplicities_agree
    }
}

} // verus!
