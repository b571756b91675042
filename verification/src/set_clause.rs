//! The `SET`-clause normalizer.
//!
//! A `DO UPDATE` clause carries a list of assignments, each of which may
//! assign a parenthesized list of values to a parenthesized list of
//! columns.  Normalization flattens them into `(column index, expression)`
//! pairs: the `EXCLUDED` rewrite is applied to every right-hand side, names
//! are resolved case-insensitively, a later assignment to the same column
//! silently replaces the earlier one, and the output order is the order of
//! each column's first occurrence.  A length mismatch between a column list
//! and a value list, or an unknown column name, is a planning error that
//! aborts the statement's compilation.

use vstd::prelude::*;

use crate::expr::{view_expr, view_exprs, Expr, ExprS};
use crate::insert::Insertion;
use crate::rewrite::{rewrite_excluded_in_expr, rewrite_excluded_s};
use crate::schema::{col_index_seq, Table};

verus! {

/// One `SET` item: a column name list and its right-hand side.
#[derive(Debug, PartialEq, Eq)]
pub struct SetItem {
    pub col_names: Vec<String>,
    pub expr: Expr,
}

/// A planning error raised during `SET` normalization.
#[derive(Debug, PartialEq, Eq)]
pub enum PlanError {
    /// A multi-column assignment whose column and value lists differ in
    /// length.
    ColumnCountMismatch { columns: usize, values: usize },
    /// A `SET` column the table does not have.
    NoSuchColumn { name: String },
}

/// The model of a [`PlanError`].
pub enum PlanErrorS {
    ColumnCountMismatch { columns: usize, values: usize },
    NoSuchColumn { name: Seq<char> },
}

impl View for PlanError {
    type V = PlanErrorS;

    open spec fn view(&self) -> PlanErrorS {
        match self {
            PlanError::ColumnCountMismatch { columns, values } => PlanErrorS::ColumnCountMismatch {
                columns: *columns,
                values: *values,
            },
            PlanError::NoSuchColumn { name } => PlanErrorS::NoSuchColumn { name: name@ },
        }
    }
}

/// The model of a normalized assignment list.
pub open spec fn view_set_pairs(s: Seq<(usize, Expr)>) -> Seq<(usize, ExprS)> {
    Seq::new(s.len(), |i: int| (s[i].0, view_expr(s[i].1)))
}

/// The value list of one `SET` item: a parenthesized right-hand side
/// contributes its elements, any other expression contributes itself.
pub open spec fn values_of(item: SetItem) -> Seq<ExprS> {
    match item.expr {
        Expr::Parenthesized(v) => view_exprs(v@),
        e => seq![view_expr(e)],
    }
}

/// The column names of one `SET` item.
pub open spec fn names_of(item: SetItem) -> Seq<Seq<char>> {
    Seq::new(item.col_names@.len(), |i: int| item.col_names@[i]@)
}

/// First position in the accumulator already assigning this column.
pub open spec fn find_idx(acc: Seq<(usize, ExprS)>, idx: usize) -> Option<int>
    decreases acc.len(),
{
    if acc.len() == 0 {
        None
    } else if acc[0].0 == idx {
        Some(0int)
    } else {
        match find_idx(acc.drop_first(), idx) {
            Some(i) => Some(i + 1),
            None => None,
        }
    }
}

/// Record one resolved assignment: a later assignment to a column already
/// in the accumulator replaces it in place, otherwise it is appended.
pub open spec fn record_assign(acc: Seq<(usize, ExprS)>, idx: usize, v: ExprS) -> Seq<
    (usize, ExprS),
> {
    match find_idx(acc, idx) {
        Some(k) => acc.update(k, (idx, v)),
        None => acc.push((idx, v)),
    }
}

/// Apply the name/value pairs of one `SET` item, left to right: resolve
/// the name, rewrite the value's `EXCLUDED` references, record the
/// assignment; fail on an unknown name.
pub open spec fn apply_pairs_s(
    table: Table,
    ins: Insertion,
    acc: Seq<(usize, ExprS)>,
    names: Seq<Seq<char>>,
    values: Seq<ExprS>,
) -> Result<Seq<(usize, ExprS)>, PlanErrorS>
    decreases names.len(),
{
    if names.len() == 0 {
        Ok(acc)
    } else {
        match col_index_seq(table.columns@, names[0]) {
            None => Err(PlanErrorS::NoSuchColumn { name: names[0] }),
            Some(i) => {
                if values.len() == 0 {
                    Ok(acc)  // unreachable under the caller's length check
                } else {
                    apply_pairs_s(
                        table,
                        ins,
                        record_assign(acc, i as usize, rewrite_excluded_s(values[0], ins)),
                        names.drop_first(),
                        values.drop_first(),
                    )
                }
            },
        }
    }
}

/// Normalize the `SET` items in order, threading the accumulator: a later
/// item's assignment to a column overwrites an earlier item's.
pub open spec fn collect_set_s(
    table: Table,
    ins: Insertion,
    items: Seq<SetItem>,
    acc: Seq<(usize, ExprS)>,
) -> Result<Seq<(usize, ExprS)>, PlanErrorS>
    decreases items.len(),
{
    if items.len() == 0 {
        Ok(acc)
    } else {
        let vals = values_of(items[0]);
        if names_of(items[0]).len() != vals.len() {
            Err(
                PlanErrorS::ColumnCountMismatch {
                    columns: items[0].col_names@.len() as usize,
                    values: vals.len() as usize,
                },
            )
        } else {
            match apply_pairs_s(table, ins, acc, names_of(items[0]), vals) {
                Ok(acc2) => collect_set_s(table, ins, items.drop_first(), acc2),
                Err(e) => Err(e),
            }
        }
    }
}

/// First accumulator position assigning this column, by position.
fn find_idx_pos(acc: &Vec<(usize, Expr)>, idx: usize) -> (r: Option<usize>)
    ensures
        find_idx(view_set_pairs(acc@), idx) == match r {
            Some(i) => Some(i as int),
            None => None::<int>,
        },
        r is Some ==> r->0 < acc@.len(),
{
    let ghost pairs = view_set_pairs(acc@);
    let mut i: usize = 0;
    proof {
        assert(pairs.skip(0) =~= pairs);
    }
    while i < acc.len()
        invariant
            i <= acc.len(),
            pairs == view_set_pairs(acc@),
            find_idx(pairs, idx) == match find_idx(pairs.skip(i as int), idx) {
                Some(k) => Some(k + i),
                None => None::<int>,
            },
        decreases acc.len() - i,
    {
        assert(pairs.skip(i as int)[0] == pairs[i as int]);
        if acc[i].0 == idx {
            return Some(i);
        }
        assert(pairs.skip(i as int).drop_first() =~= pairs.skip(i as int + 1));
        i = i + 1;
    }
    assert(pairs.skip(i as int).len() == 0);
    None
}

/// Apply one `SET` item's pairs, consuming names and values from the
/// front.
#[verifier::loop_isolation(false)]
fn apply_pairs(
    table: &Table,
    insertion: &Insertion,
    acc: Vec<(usize, Expr)>,
    names: Vec<String>,
    values: Vec<Expr>,
) -> (r: Result<Vec<(usize, Expr)>, PlanError>)
    requires
        names@.len() == values@.len(),
    ensures
        match r {
            Ok(out) => apply_pairs_s(
                *table,
                *insertion,
                view_set_pairs(acc@),
                Seq::new(names@.len(), |i: int| names@[i]@),
                view_exprs(values@),
            ) == Ok::<_, PlanErrorS>(view_set_pairs(out@)),
            Err(e) => apply_pairs_s(
                *table,
                *insertion,
                view_set_pairs(acc@),
                Seq::new(names@.len(), |i: int| names@[i]@),
                view_exprs(values@),
            ) == Err::<Seq<(usize, ExprS)>, _>(e@),
        },
    decreases names@.len(),
{
    let ghost ns = Seq::new(names@.len(), |i: int| names@[i]@);
    let ghost vs = view_exprs(values@);
    let mut names = names;
    let mut values = values;
    if names.len() == 0 {
        proof {
            assert(ns.len() == 0);
        }
        return Ok(acc);
    }
    proof {
        crate::expr::lemma_view_exprs_len(values@);
    }
    let name = names.remove(0);
    let value = values.remove(0);
    proof {
        assert(vs[0] == view_expr(value));
        assert(vs.drop_first() =~= view_exprs(values@));
        assert(ns[0] == name@);
        assert(Seq::new(names@.len(), |i: int| names@[i]@) =~= ns.drop_first());
    }
    let idx = match table.get_column_by_name(name.as_str()) {
        None => {
            proof {
                assert(ns[0] == name@);
            }
            return Err(PlanError::NoSuchColumn { name });
        },
        Some(i) => i,
    };
    let rv = rewrite_excluded_in_expr(value, insertion);
    let mut acc = acc;
    let ghost acc0 = view_set_pairs(acc@);
    match find_idx_pos(&acc, idx) {
        Some(k) => {
            acc.remove(k);
            acc.insert(k, (idx, rv));
            proof {
                assert(view_set_pairs(acc@) =~= record_assign(
                    acc0,
                    idx,
                    rewrite_excluded_s(vs[0], *insertion),
                ));
            }
        },
        None => {
            acc.push((idx, rv));
            proof {
                assert(view_set_pairs(acc@) =~= record_assign(
                    acc0,
                    idx,
                    rewrite_excluded_s(vs[0], *insertion),
                ));
            }
        },
    }
    apply_pairs(table, insertion, acc, names, values)
}

/// Normalize a `DO UPDATE` clause's `SET` items into `(column index,
/// rewritten expression)` pairs with last-assignment-wins semantics, the
/// output ordered by first occurrence.  Fails with
/// [`PlanError::ColumnCountMismatch`] exactly when an item's column list
/// and value list differ in length, and with [`PlanError::NoSuchColumn`]
/// exactly when a column name resolves to no table column.
pub fn collect_set_clauses_for_upsert(
    table: &Table,
    set_items: Vec<SetItem>,
    insertion: &Insertion,
) -> (r: Result<Vec<(usize, Expr)>, PlanError>)
    ensures
        match r {
            Ok(out) => collect_set_s(*table, *insertion, set_items@, Seq::empty()) == Ok::<
                _,
                PlanErrorS,
            >(view_set_pairs(out@)),
            Err(e) => collect_set_s(*table, *insertion, set_items@, Seq::empty()) == Err::<
                Seq<(usize, ExprS)>,
                _,
            >(e@),
        },
{
    let acc: Vec<(usize, Expr)> = Vec::new();
    proof {
        assert(view_set_pairs(acc@) =~= Seq::<(usize, ExprS)>::empty());
    }
    collect_items(table, insertion, set_items, acc)
}

/// Normalize the items in order, threading the accumulator.
#[verifier::loop_isolation(false)]
fn collect_items(
    table: &Table,
    insertion: &Insertion,
    items: Vec<SetItem>,
    acc: Vec<(usize, Expr)>,
) -> (r: Result<Vec<(usize, Expr)>, PlanError>)
    ensures
        match r {
            Ok(out) => collect_set_s(*table, *insertion, items@, view_set_pairs(acc@)) == Ok::<
                _,
                PlanErrorS,
            >(view_set_pairs(out@)),
            Err(e) => collect_set_s(*table, *insertion, items@, view_set_pairs(acc@)) == Err::<
                Seq<(usize, ExprS)>,
                _,
            >(e@),
        },
    decreases items@.len(),
{
    let ghost items0 = items@;
    let mut items = items;
    if items.len() == 0 {
        return Ok(acc);
    }
    let item = items.remove(0);
    proof {
        assert(items0[0] == item);
        assert(items0.drop_first() =~= items@);
    }
    let ghost names_s = names_of(item);
    let ghost vals_s = values_of(item);
    let SetItem { col_names, expr } = item;
    proof {
        assert(names_s =~= Seq::new(col_names@.len(), |i: int| col_names@[i]@));
    }
    let values: Vec<Expr> = match expr {
        Expr::Parenthesized(v) => v,
        e => {
            let mut v = Vec::new();
            v.push(e);
            v
        },
    };
    proof {
        crate::expr::lemma_view_exprs_len(values@);
        assert(view_exprs(values@) =~= vals_s) by {
            if values@.len() == 1 {
                assert(view_exprs(values@) == seq![view_expr(values@[0])] + view_exprs(
                    values@.drop_first(),
                ));
                assert(values@.drop_first() =~= Seq::<Expr>::empty());
            }
        }
    }
    if col_names.len() != values.len() {
        return Err(
            PlanError::ColumnCountMismatch { columns: col_names.len(), values: values.len() },
        );
    }
    let acc2 = match apply_pairs(table, insertion, acc, col_names, values) {
        Ok(a) => a,
        Err(e) => {
            return Err(e);
        },
    };
    collect_items(table, insertion, items, acc2)
}

} // verus!
