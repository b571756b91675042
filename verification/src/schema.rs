//! Read-only schema objects: tables, columns and secondary indexes.
//!
//! The schema catalog owns these; this crate only reads them.  Column and
//! index lookups are case-insensitive, specified with [`crate::names`].

use vstd::prelude::*;

use crate::names::{eq_ignore_case, eq_nocase};

verus! {

/// One table column.
#[derive(Debug, PartialEq, Eq)]
pub struct Column {
    pub name: String,
    /// `NOT NULL` declared on the column.
    pub notnull: bool,
    /// Declared `PRIMARY KEY`.
    pub primary_key: bool,
    /// An `INTEGER PRIMARY KEY` column that aliases the rowid.
    pub is_rowid_alias: bool,
    /// Declared collation, if any.
    pub collation: Option<String>,
}

/// One table: an ordered sequence of columns.
#[derive(Debug, PartialEq, Eq)]
pub struct Table {
    pub name: String,
    pub columns: Vec<Column>,
    /// The table enforces strict typing.
    pub is_strict: bool,
}

/// One column of an index, with its optional explicit collation.
#[derive(Debug, PartialEq, Eq)]
pub struct IndexColumn {
    pub name: String,
    pub collation: Option<String>,
}

/// One secondary index.
#[derive(Debug, PartialEq, Eq)]
pub struct Index {
    pub name: String,
    pub unique: bool,
    pub columns: Vec<IndexColumn>,
}

/// The slice of the schema catalog this crate reads: the indexes that may
/// need maintenance.
#[derive(Debug, PartialEq, Eq)]
pub struct Schema {
    pub indexes: Vec<Index>,
}

/// Index of the first column in `cols` whose name equals `name`
/// case-insensitively, if any.
pub open spec fn col_index_seq(cols: Seq<Column>, name: Seq<char>) -> Option<int>
    decreases cols.len(),
{
    if cols.len() == 0 {
        None
    } else if eq_nocase(cols[0].name@, name) {
        Some(0int)
    } else {
        match col_index_seq(cols.drop_first(), name) {
            Some(i) => Some(i + 1),
            None => None,
        }
    }
}

/// The found index is in range and names a matching column.
pub proof fn lemma_col_index_seq_valid(cols: Seq<Column>, name: Seq<char>)
    ensures
        match col_index_seq(cols, name) {
            Some(i) => 0 <= i < cols.len() && eq_nocase(cols[i].name@, name),
            None => forall|i: int| 0 <= i < cols.len() ==> !eq_nocase(cols[i].name@, name),
        },
    decreases cols.len(),
{
    if cols.len() > 0 {
        lemma_col_index_seq_valid(cols.drop_first(), name);
        match col_index_seq(cols, name) {
            Some(i) => {
                if !eq_nocase(cols[0].name@, name) {
                    assert(cols.drop_first()[i - 1] == cols[i]);
                }
            },
            None => {
                assert forall|i: int| 0 <= i < cols.len() implies !eq_nocase(
                    cols[i].name@,
                    name,
                ) by {
                    if i > 0 {
                        assert(cols.drop_first()[i - 1] == cols[i]);
                    }
                }
            },
        }
    }
}

impl Table {
    /// Index of the named column, case-insensitively, if the table has it.
    pub open spec fn spec_col_index(self, name: Seq<char>) -> Option<int> {
        col_index_seq(self.columns@, name)
    }

    /// Case-insensitive column lookup; returns the column's position.
    pub fn get_column_by_name(&self, name: &str) -> (r: Option<usize>)
        ensures
            self.spec_col_index(name@) == match r {
                Some(i) => Some(i as int),
                None => None::<int>,
            },
            r is Some ==> r->0 < self.columns@.len(),
    {
        let mut i: usize = 0;
        proof {
            assert(self.columns@.skip(0) =~= self.columns@);
        }
        while i < self.columns.len()
            invariant
                i <= self.columns.len(),
                col_index_seq(self.columns@, name@) == match col_index_seq(
                    self.columns@.skip(i as int),
                    name@,
                ) {
                    Some(k) => Some(k + i),
                    None => None::<int>,
                },
            decreases self.columns.len() - i,
        {
            if eq_ignore_case(self.columns[i].name.as_str(), name) {
                assert(self.columns@.skip(i as int)[0] == self.columns@[i as int]);
                return Some(i);
            }
            assert(self.columns@.skip(i as int)[0] == self.columns@[i as int]);
            assert(self.columns@.skip(i as int).drop_first() =~= self.columns@.skip(i as int + 1));
            i = i + 1;
        }
        assert(self.columns@.skip(i as int).len() == 0);
        None
    }
}

/// Index of the first entry in `indexes` whose name equals `name`
/// case-insensitively, if any.
pub open spec fn index_pos_seq(indexes: Seq<Index>, name: Seq<char>) -> Option<int>
    decreases indexes.len(),
{
    if indexes.len() == 0 {
        None
    } else if eq_nocase(indexes[0].name@, name) {
        Some(0int)
    } else {
        match index_pos_seq(indexes.drop_first(), name) {
            Some(i) => Some(i + 1),
            None => None,
        }
    }
}

/// The found position is in range and names a matching index.
pub proof fn lemma_index_pos_seq_valid(indexes: Seq<Index>, name: Seq<char>)
    ensures
        match index_pos_seq(indexes, name) {
            Some(i) => 0 <= i < indexes.len() && eq_nocase(indexes[i].name@, name),
            None => forall|i: int| 0 <= i < indexes.len() ==> !eq_nocase(indexes[i].name@, name),
        },
    decreases indexes.len(),
{
    if indexes.len() > 0 {
        lemma_index_pos_seq_valid(indexes.drop_first(), name);
        match index_pos_seq(indexes, name) {
            Some(i) => {
                if !eq_nocase(indexes[0].name@, name) {
                    assert(indexes.drop_first()[i - 1] == indexes[i]);
                }
            },
            None => {
                assert forall|i: int| 0 <= i < indexes.len() implies !eq_nocase(
                    indexes[i].name@,
                    name,
                ) by {
                    if i > 0 {
                        assert(indexes.drop_first()[i - 1] == indexes[i]);
                    }
                }
            },
        }
    }
}

impl Schema {
    /// Position of the named index, case-insensitively, if the schema has it.
    pub open spec fn spec_index_pos(self, name: Seq<char>) -> Option<int> {
        index_pos_seq(self.indexes@, name)
    }

    /// Case-insensitive index lookup; returns the index's position.  A plan
    /// that names an index the schema lacks is a planner bug; callers that
    /// assume consistency require `spec_index_pos(..) is Some`.
    pub fn get_index(&self, name: &str) -> (r: Option<usize>)
        ensures
            self.spec_index_pos(name@) == match r {
                Some(i) => Some(i as int),
                None => None::<int>,
            },
            r is Some ==> r->0 < self.indexes@.len(),
    {
        let mut i: usize = 0;
        proof {
            assert(self.indexes@.skip(0) =~= self.indexes@);
        }
        while i < self.indexes.len()
            invariant
                i <= self.indexes.len(),
                index_pos_seq(self.indexes@, name@) == match index_pos_seq(
                    self.indexes@.skip(i as int),
                    name@,
                ) {
                    Some(k) => Some(k + i),
                    None => None::<int>,
                },
            decreases self.indexes.len() - i,
        {
            if eq_ignore_case(self.indexes[i].name.as_str(), name) {
                assert(self.indexes@.skip(i as int)[0] == self.indexes@[i as int]);
                return Some(i);
            }
            assert(self.indexes@.skip(i as int)[0] == self.indexes@[i as int]);
            assert(self.indexes@.skip(i as int).drop_first() =~= self.indexes@.skip(i as int + 1));
            i = i + 1;
        }
        assert(self.indexes@.skip(i as int).len() == 0);
        None
    }
}

} // verus!
