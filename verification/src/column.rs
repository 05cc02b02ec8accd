use vstd::prelude::*;

use crate::field_element::FieldElement;

verus! {

/// One dense array of field elements: a single wire, witness, or multiplicity
/// slot across all rows of the execution trace, in point-value form. The
/// backing allocation is lane-aligned for the vectorized field representation;
/// alignment is an allocator detail with no observable effect on the values
/// held, so only the contents are modeled here.
#[derive(Debug)]
pub struct Column {
    pub storage: Vec<FieldElement>,
}

/// The contents of a freshly allocated column: every row holds the additive
/// identity.
pub open spec fn zero_column(len: nat) -> Seq<FieldElement> {
    Seq::new(len, |i: int| FieldElement::spec_zero())
}

impl Column {
    /// Allocates one column of `len` rows filled with the additive identity,
    /// the template from which a family's columns are stamped out.
    pub fn zeroed(len: usize) -> (r: Column)
        ensures
            r.storage@ == zero_column(len as nat),
    {
        let mut storage: Vec<FieldElement> = Vec::new();
        let mut i: usize = 0;
        while i < len
            invariant
                i <= len,
                storage@ == zero_column(i as nat),
            decreases len - i,
        {
            storage.push(FieldElement::zero());
            proof {
                assert(storage@ =~= zero_column((i + 1) as nat));
            }
            i = i + 1;
        }
        Column { storage }
    }

    /// Duplicates the column's storage (not a reference to it), preserving the
    /// alignment guarantee of the original allocation.
    pub fn clone_respecting_alignment(&self) -> (r: Column)
        ensures
            r.storage@ == self.storage@,
    {
        let mut storage: Vec<FieldElement> = Vec::new();
        let mut i: usize = 0;
        while i < self.storage.len()
            invariant
                i <= self.storage.len(),
                storage@ == self.storage@.take(i as int),
            decreases self.storage.len() - i,
        {
            storage.push(self.storage[i]);
            proof {
                assert(storage@ =~= self.storage@.take((i + 1) as int));
            }
            i = i + 1;
        }
        proof {
            assert(storage@ =~= self.storage@);
        }
        Column { storage }
    }

    pub fn len(&self) -> (r: usize)
        ensures
            r == self.storage@.len(),
    {
        self.storage.len()
    }

    /// Row-by-row equality of two columns, including their lengths.
    pub fn equals(&self, other: &Column) -> (r: bool)
        ensures
            r == (self.storage@ == other.storage@),
    {
        if self.storage.len() != other.storage.len() {
            return false;
        }
        let mut i: usize = 0;
        while i < self.storage.len()
            invariant
                i <= self.storage@.len(),
                self.storage@.len() == other.storage@.len(),
                forall|k: int| 0 <= k < i ==> self.storage@[k] == other.storage@[k],
            decreases self.storage.len() - i,
        {
            if self.storage[i] != other.storage[i] {
                return false;
            }
            i = i + 1;
        }
        proof {
            assert(self.storage@ =~= other.storage@);
        }
        true
    }
}

/// The sequence of row sequences held by a family of columns.
pub open spec fn columns_view(cols: Seq<Column>) -> Seq<Seq<FieldElement>> {
    Seq::new(cols.len(), |j: int| cols[j].storage@)
}

} // verus!
