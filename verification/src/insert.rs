//! The column-to-register mapping of the row a conflicting `INSERT` was
//! about to write.
//!
//! The base insert path materializes every pending column value in a
//! register before the conflict clause runs; an [`Insertion`] records where.
//! The `EXCLUDED.col` rewrite reads this mapping and never mutates it.

use vstd::prelude::*;

use crate::names::{eq_ignore_case, eq_nocase};

verus! {

/// One column of the pending row and the register that holds its value.
#[derive(Debug, PartialEq, Eq)]
pub struct ColMapping {
    pub name: String,
    pub register: usize,
}

/// The register mapping of the pending (not yet committed) row.
#[derive(Debug, PartialEq, Eq)]
pub struct Insertion {
    pub cols: Vec<ColMapping>,
}

/// The register of the first entry of `cols` whose column name equals
/// `name` case-insensitively, if any.
pub open spec fn reg_for_seq(cols: Seq<ColMapping>, name: Seq<char>) -> Option<usize>
    decreases cols.len(),
{
    if cols.len() == 0 {
        None
    } else if eq_nocase(cols[0].name@, name) {
        Some(cols[0].register)
    } else {
        reg_for_seq(cols.drop_first(), name)
    }
}

impl Insertion {
    /// The register holding the pending value of the named column.
    pub open spec fn spec_reg_for(self, name: Seq<char>) -> Option<usize> {
        reg_for_seq(self.cols@, name)
    }

    /// Case-insensitive lookup of a column's register.
    pub fn get_col_mapping_by_name(&self, name: &str) -> (r: Option<usize>)
        ensures
            r == self.spec_reg_for(name@),
    {
        let mut i: usize = 0;
        proof {
            assert(self.cols@.skip(0) =~= self.cols@);
        }
        while i < self.cols.len()
            invariant
                i <= self.cols.len(),
                reg_for_seq(self.cols@, name@) == reg_for_seq(self.cols@.skip(i as int), name@),
            decreases self.cols.len() - i,
        {
            if eq_ignore_case(self.cols[i].name.as_str(), name) {
                assert(self.cols@.skip(i as int)[0] == self.cols@[i as int]);
                return Some(self.cols[i].register);
            }
            assert(self.cols@.skip(i as int).drop_first() =~= self.cols@.skip(i as int + 1));
            i = i + 1;
        }
        assert(self.cols@.skip(i as int).len() == 0);
        None
    }
}

} // verus!
