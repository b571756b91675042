//! The two reference-rewriting passes.
//!
//! In a `DO UPDATE` clause, bare and target-table-qualified column names
//! denote the row as it stood before the failed insert, while
//! `EXCLUDED.col` denotes the row that would have been inserted.  Before an
//! expression is translated into instructions, both kinds of reference are
//! replaced by direct register references: `EXCLUDED.col` by the pending
//! row's register from the [`crate::insert::Insertion`] mapping, and
//! target-table references by the register of the snapshot of the
//! conflicting row.  Every composite expression shape is descended into;
//! every other leaf is left untouched.

use vstd::prelude::*;

use crate::expr::{view_expr, view_exprs, view_opt, view_pairs, Expr, ExprS};
use crate::insert::{reg_for_seq, Insertion};
use crate::names::{eq_ignore_case, eq_nocase};
use crate::schema::{col_index_seq, Table};

verus! {

/// The `EXCLUDED` rewrite of one expression: `EXCLUDED.col` becomes a
/// register reference when the insertion maps `col`, and is left unchanged
/// when it does not; every other qualifier is left alone for this pass.
pub open spec fn rewrite_excluded_s(e: ExprS, ins: Insertion) -> ExprS
    decreases e,
{
    match e {
        ExprS::Qualified(ns, col) => {
            if eq_nocase(ns, "excluded"@) {
                match reg_for_seq(ins.cols@, col) {
                    Some(r) => ExprS::Register(r),
                    None => ExprS::Qualified(ns, col),
                }
            } else {
                ExprS::Qualified(ns, col)
            }
        },
        ExprS::Collate(inner, c) => ExprS::Collate(
            Box::new(rewrite_excluded_s(*inner, ins)),
            c,
        ),
        ExprS::Parenthesized(v) => ExprS::Parenthesized(rewrite_excluded_seq(v, ins)),
        ExprS::Between { lhs, not, start, end } => ExprS::Between {
            lhs: Box::new(rewrite_excluded_s(*lhs, ins)),
            not,
            start: Box::new(rewrite_excluded_s(*start, ins)),
            end: Box::new(rewrite_excluded_s(*end, ins)),
        },
        ExprS::Binary(l, op, r) => ExprS::Binary(
            Box::new(rewrite_excluded_s(*l, ins)),
            op,
            Box::new(rewrite_excluded_s(*r, ins)),
        ),
        ExprS::Case { base, when_then_pairs, else_expr } => ExprS::Case {
            base: rewrite_excluded_opt_s(base, ins),
            when_then_pairs: rewrite_excluded_pairs_s(when_then_pairs, ins),
            else_expr: rewrite_excluded_opt_s(else_expr, ins),
        },
        ExprS::Cast { expr, as_type } => ExprS::Cast {
            expr: Box::new(rewrite_excluded_s(*expr, ins)),
            as_type,
        },
        ExprS::FunctionCall { name, args, order_by, filter_clause } => ExprS::FunctionCall {
            name,
            args: rewrite_excluded_seq(args, ins),
            order_by: rewrite_excluded_seq(order_by, ins),
            filter_clause: rewrite_excluded_opt_s(filter_clause, ins),
        },
        ExprS::InList { lhs, not, rhs } => ExprS::InList {
            lhs: Box::new(rewrite_excluded_s(*lhs, ins)),
            not,
            rhs: rewrite_excluded_seq(rhs, ins),
        },
        ExprS::InSelect { lhs, not } => ExprS::InSelect {
            lhs: Box::new(rewrite_excluded_s(*lhs, ins)),
            not,
        },
        ExprS::InTable { lhs, not, table } => ExprS::InTable {
            lhs: Box::new(rewrite_excluded_s(*lhs, ins)),
            not,
            table,
        },
        ExprS::IsNull(inner) => ExprS::IsNull(Box::new(rewrite_excluded_s(*inner, ins))),
        ExprS::Like { lhs, not, rhs, escape } => ExprS::Like {
            lhs: Box::new(rewrite_excluded_s(*lhs, ins)),
            not,
            rhs: Box::new(rewrite_excluded_s(*rhs, ins)),
            escape: rewrite_excluded_opt_s(escape, ins),
        },
        ExprS::NotNull(inner) => ExprS::NotNull(Box::new(rewrite_excluded_s(*inner, ins))),
        ExprS::Unary(op, inner) => ExprS::Unary(op, Box::new(rewrite_excluded_s(*inner, ins))),
        _ => e,
    }
}

/// The `EXCLUDED` rewrite of an optional sub-expression.
pub open spec fn rewrite_excluded_opt_s(o: Option<Box<ExprS>>, ins: Insertion) -> Option<
    Box<ExprS>,
>
    decreases o,
{
    match o {
        Some(b) => Some(Box::new(rewrite_excluded_s(*b, ins))),
        None => None,
    }
}

/// The `EXCLUDED` rewrite of each element of a sequence.
pub open spec fn rewrite_excluded_seq(s: Seq<ExprS>, ins: Insertion) -> Seq<ExprS>
    decreases s,
{
    if s.len() == 0 {
        Seq::empty()
    } else {
        seq![rewrite_excluded_s(s[0], ins)] + rewrite_excluded_seq(s.drop_first(), ins)
    }
}

/// The `EXCLUDED` rewrite of both sides of each `WHEN`/`THEN` pair.
pub open spec fn rewrite_excluded_pairs_s(s: Seq<(ExprS, ExprS)>, ins: Insertion) -> Seq<
    (ExprS, ExprS),
>
    decreases s,
{
    if s.len() == 0 {
        Seq::empty()
    } else {
        seq![(rewrite_excluded_s(s[0].0, ins), rewrite_excluded_s(s[0].1, ins))]
            + rewrite_excluded_pairs_s(s.drop_first(), ins)
    }
}

/// Replace every `EXCLUDED.col` reference in `e` by a direct reference to
/// the register holding the pending insert value of `col`.
pub fn rewrite_excluded_in_expr(e: Expr, insertion: &Insertion) -> (r: Expr)
    ensures
        r@ == rewrite_excluded_s(e@, *insertion),
    decreases e,
{
    match e {
        Expr::Qualified(ns, col) => {
            if eq_ignore_case(ns.as_str(), "excluded") {
                match insertion.get_col_mapping_by_name(col.as_str()) {
                    Some(reg) => Expr::Register(reg),
                    None => Expr::Qualified(ns, col),
                }
            } else {
                Expr::Qualified(ns, col)
            }
        },
        Expr::Collate(inner, c) => Expr::Collate(
            Box::new(rewrite_excluded_in_expr(*inner, insertion)),
            c,
        ),
        Expr::Parenthesized(v) => Expr::Parenthesized(rewrite_excluded_vec(v, insertion)),
        Expr::Between { lhs, not, start, end } => Expr::Between {
            lhs: Box::new(rewrite_excluded_in_expr(*lhs, insertion)),
            not,
            start: Box::new(rewrite_excluded_in_expr(*start, insertion)),
            end: Box::new(rewrite_excluded_in_expr(*end, insertion)),
        },
        Expr::Binary(l, op, r) => Expr::Binary(
            Box::new(rewrite_excluded_in_expr(*l, insertion)),
            op,
            Box::new(rewrite_excluded_in_expr(*r, insertion)),
        ),
        Expr::Case { base, when_then_pairs, else_expr } => Expr::Case {
            base: rewrite_excluded_opt(base, insertion),
            when_then_pairs: rewrite_excluded_pairs(when_then_pairs, insertion),
            else_expr: rewrite_excluded_opt(else_expr, insertion),
        },
        Expr::Cast { expr, as_type } => Expr::Cast {
            expr: Box::new(rewrite_excluded_in_expr(*expr, insertion)),
            as_type,
        },
        Expr::FunctionCall { name, args, order_by, filter_clause } => Expr::FunctionCall {
            name,
            args: rewrite_excluded_vec(args, insertion),
            order_by: rewrite_excluded_vec(order_by, insertion),
            filter_clause: rewrite_excluded_opt(filter_clause, insertion),
        },
        Expr::InList { lhs, not, rhs } => Expr::InList {
            lhs: Box::new(rewrite_excluded_in_expr(*lhs, insertion)),
            not,
            rhs: rewrite_excluded_vec(rhs, insertion),
        },
        Expr::InSelect { lhs, not } => Expr::InSelect {
            lhs: Box::new(rewrite_excluded_in_expr(*lhs, insertion)),
            not,
        },
        Expr::InTable { lhs, not, table } => Expr::InTable {
            lhs: Box::new(rewrite_excluded_in_expr(*lhs, insertion)),
            not,
            table,
        },
        Expr::IsNull(inner) => Expr::IsNull(
            Box::new(rewrite_excluded_in_expr(*inner, insertion)),
        ),
        Expr::Like { lhs, not, rhs, escape } => Expr::Like {
            lhs: Box::new(rewrite_excluded_in_expr(*lhs, insertion)),
            not,
            rhs: Box::new(rewrite_excluded_in_expr(*rhs, insertion)),
            escape: rewrite_excluded_opt(escape, insertion),
        },
        Expr::NotNull(inner) => Expr::NotNull(
            Box::new(rewrite_excluded_in_expr(*inner, insertion)),
        ),
        Expr::Unary(op, inner) => Expr::Unary(
            op,
            Box::new(rewrite_excluded_in_expr(*inner, insertion)),
        ),
        leaf => leaf,
    }
}

/// `EXCLUDED` rewrite of an optional boxed sub-expression.
fn rewrite_excluded_opt(o: Option<Box<Expr>>, insertion: &Insertion) -> (r: Option<Box<Expr>>)
    ensures
        view_opt(r) == rewrite_excluded_opt_s(view_opt(o), *insertion),
    decreases o,
{
    match o {
        Some(b) => Some(Box::new(rewrite_excluded_in_expr(*b, insertion))),
        None => None,
    }
}

/// `EXCLUDED` rewrite of every element of a vector of sub-expressions.
fn rewrite_excluded_vec(v: Vec<Expr>, insertion: &Insertion) -> (r: Vec<Expr>)
    ensures
        view_exprs(r@) == rewrite_excluded_seq(view_exprs(v@), *insertion),
    decreases v@,
{
    let ghost v0 = v@;
    let mut v = v;
    if v.len() == 0 {
        assert(view_exprs(v0) =~= Seq::<ExprS>::empty());
        v
    } else {
        let x = v.remove(0);
        let rx = rewrite_excluded_in_expr(x, insertion);
        let mut r = rewrite_excluded_vec(v, insertion);
        let ghost rt = r@;
        r.insert(0, rx);
        proof {
            let s = view_exprs(v0);
            assert(v0.drop_first() =~= v@);
            assert(s[0] == view_expr(x));
            assert(s.drop_first() =~= view_exprs(v@));
            assert(r@[0] == rx);
            assert(r@.drop_first() =~= rt);
            assert(view_exprs(r@) == seq![view_expr(r@[0])] + view_exprs(r@.drop_first()));
            assert(view_exprs(r@) == rewrite_excluded_seq(s, *insertion));
        }
        r
    }
}

/// `EXCLUDED` rewrite of both sides of every `WHEN`/`THEN` pair.
fn rewrite_excluded_pairs(v: Vec<(Expr, Expr)>, insertion: &Insertion) -> (r: Vec<(Expr, Expr)>)
    ensures
        view_pairs(r@) == rewrite_excluded_pairs_s(view_pairs(v@), *insertion),
    decreases v@,
{
    let ghost v0 = v@;
    let mut v = v;
    if v.len() == 0 {
        assert(view_pairs(v0) =~= Seq::<(ExprS, ExprS)>::empty());
        v
    } else {
        let p = v.remove(0);
        let (w, t) = p;
        let rw = rewrite_excluded_in_expr(w, insertion);
        let rz = rewrite_excluded_in_expr(t, insertion);
        let mut r = rewrite_excluded_pairs(v, insertion);
        let ghost rtail = r@;
        r.insert(0, (rw, rz));
        proof {
            let s = view_pairs(v0);
            assert(v0.drop_first() =~= v@);
            assert(s[0] == (view_expr(w), view_expr(t)));
            assert(s.drop_first() =~= view_pairs(v@));
            assert(r@[0] == (rw, rz));
            assert(r@.drop_first() =~= rtail);
            assert(view_pairs(r@) == seq![(view_expr(r@[0].0), view_expr(r@[0].1))] + view_pairs(
                r@.drop_first(),
            ));
            assert(view_pairs(r@) == rewrite_excluded_pairs_s(s, *insertion));
        }
        r
    }
}

/// The register that holds the pre-conflict value of the named column:
/// the conflict rowid register for the `rowid` pseudo-column, and
/// `current_start + index` for a real column; `None` for a name the table
/// does not have.
pub open spec fn col_reg_s(
    table: Table,
    current_start: usize,
    rowid_reg: usize,
    name: Seq<char>,
) -> Option<usize> {
    if eq_nocase(name, "rowid"@) {
        Some(rowid_reg)
    } else {
        match col_index_seq(table.columns@, name) {
            Some(i) => Some((current_start + i) as usize),
            None => None,
        }
    }
}

/// The target-row rewrite of one expression: a bare identifier, a reference
/// qualified by the target table's name (and not by `excluded`), and the
/// rowid pseudo-column become register references into the *current*
/// snapshot; names the table does not have, and every other leaf, are left
/// unchanged.
pub open spec fn rewrite_target_s(e: ExprS, table: Table, cur: usize, rowid: usize) -> ExprS
    decreases e,
{
    match e {
        ExprS::Qualified(tbl, col) => {
            if !eq_nocase(tbl, "excluded"@) && eq_nocase(tbl, table.name@) {
                match col_reg_s(table, cur, rowid, col) {
                    Some(r) => ExprS::Register(r),
                    None => ExprS::Qualified(tbl, col),
                }
            } else {
                ExprS::Qualified(tbl, col)
            }
        },
        ExprS::Id(name) => {
            match col_reg_s(table, cur, rowid, name) {
                Some(r) => ExprS::Register(r),
                None => ExprS::Id(name),
            }
        },
        ExprS::RowId => ExprS::Register(rowid),
        ExprS::Collate(inner, c) => ExprS::Collate(
            Box::new(rewrite_target_s(*inner, table, cur, rowid)),
            c,
        ),
        ExprS::Parenthesized(v) => ExprS::Parenthesized(rewrite_target_seq(v, table, cur, rowid)),
        ExprS::Between { lhs, not, start, end } => ExprS::Between {
            lhs: Box::new(rewrite_target_s(*lhs, table, cur, rowid)),
            not,
            start: Box::new(rewrite_target_s(*start, table, cur, rowid)),
            end: Box::new(rewrite_target_s(*end, table, cur, rowid)),
        },
        ExprS::Binary(l, op, r) => ExprS::Binary(
            Box::new(rewrite_target_s(*l, table, cur, rowid)),
            op,
            Box::new(rewrite_target_s(*r, table, cur, rowid)),
        ),
        ExprS::Case { base, when_then_pairs, else_expr } => ExprS::Case {
            base: rewrite_target_opt_s(base, table, cur, rowid),
            when_then_pairs: rewrite_target_pairs_s(when_then_pairs, table, cur, rowid),
            else_expr: rewrite_target_opt_s(else_expr, table, cur, rowid),
        },
        ExprS::Cast { expr, as_type } => ExprS::Cast {
            expr: Box::new(rewrite_target_s(*expr, table, cur, rowid)),
            as_type,
        },
        ExprS::FunctionCall { name, args, order_by, filter_clause } => ExprS::FunctionCall {
            name,
            args: rewrite_target_seq(args, table, cur, rowid),
            order_by: rewrite_target_seq(order_by, table, cur, rowid),
            filter_clause: rewrite_target_opt_s(filter_clause, table, cur, rowid),
        },
        ExprS::InList { lhs, not, rhs } => ExprS::InList {
            lhs: Box::new(rewrite_target_s(*lhs, table, cur, rowid)),
            not,
            rhs: rewrite_target_seq(rhs, table, cur, rowid),
        },
        ExprS::InSelect { lhs, not } => ExprS::InSelect {
            lhs: Box::new(rewrite_target_s(*lhs, table, cur, rowid)),
            not,
        },
        ExprS::InTable { lhs, not, table: t } => ExprS::InTable {
            lhs: Box::new(rewrite_target_s(*lhs, table, cur, rowid)),
            not,
            table: t,
        },
        ExprS::IsNull(inner) => ExprS::IsNull(Box::new(rewrite_target_s(*inner, table, cur, rowid))),
        ExprS::Like { lhs, not, rhs, escape } => ExprS::Like {
            lhs: Box::new(rewrite_target_s(*lhs, table, cur, rowid)),
            not,
            rhs: Box::new(rewrite_target_s(*rhs, table, cur, rowid)),
            escape: rewrite_target_opt_s(escape, table, cur, rowid),
        },
        ExprS::NotNull(inner) => ExprS::NotNull(
            Box::new(rewrite_target_s(*inner, table, cur, rowid)),
        ),
        ExprS::Unary(op, inner) => ExprS::Unary(
            op,
            Box::new(rewrite_target_s(*inner, table, cur, rowid)),
        ),
        _ => e,
    }
}

/// The target-row rewrite of an optional sub-expression.
pub open spec fn rewrite_target_opt_s(
    o: Option<Box<ExprS>>,
    table: Table,
    cur: usize,
    rowid: usize,
) -> Option<Box<ExprS>>
    decreases o,
{
    match o {
        Some(b) => Some(Box::new(rewrite_target_s(*b, table, cur, rowid))),
        None => None,
    }
}

/// The target-row rewrite of each element of a sequence.
pub open spec fn rewrite_target_seq(s: Seq<ExprS>, table: Table, cur: usize, rowid: usize) -> Seq<
    ExprS,
>
    decreases s,
{
    if s.len() == 0 {
        Seq::empty()
    } else {
        seq![rewrite_target_s(s[0], table, cur, rowid)] + rewrite_target_seq(
            s.drop_first(),
            table,
            cur,
            rowid,
        )
    }
}

/// The target-row rewrite of both sides of each `WHEN`/`THEN` pair.
pub open spec fn rewrite_target_pairs_s(
    s: Seq<(ExprS, ExprS)>,
    table: Table,
    cur: usize,
    rowid: usize,
) -> Seq<(ExprS, ExprS)>
    decreases s,
{
    if s.len() == 0 {
        Seq::empty()
    } else {
        seq![
            (
                rewrite_target_s(s[0].0, table, cur, rowid),
                rewrite_target_s(s[0].1, table, cur, rowid),
            ),
        ] + rewrite_target_pairs_s(s.drop_first(), table, cur, rowid)
    }
}

/// Map a column name to the register holding its pre-conflict value.
fn col_reg(table: &Table, current_start: usize, rowid_reg: usize, name: &str) -> (r: Option<usize>)
    requires
        current_start + table.columns@.len() <= usize::MAX,
    ensures
        r == col_reg_s(*table, current_start, rowid_reg, name@),
{
    if eq_ignore_case(name, "rowid") {
        return Some(rowid_reg);
    }
    match table.get_column_by_name(name) {
        Some(i) => Some(current_start + i),
        None => None,
    }
}

/// Replace every reference to a column of the target table in `e` — bare,
/// table-qualified, or the rowid pseudo-column — by a direct reference to
/// the register holding the column's pre-conflict value.
pub fn rewrite_target_cols_to_current_row(
    e: Expr,
    table: &Table,
    current_start: usize,
    conflict_rowid_reg: usize,
) -> (r: Expr)
    requires
        current_start + table.columns@.len() <= usize::MAX,
    ensures
        r@ == rewrite_target_s(e@, *table, current_start, conflict_rowid_reg),
    decreases e,
{
    match e {
        Expr::Qualified(tbl, col) => {
            if !eq_ignore_case(tbl.as_str(), "excluded") && eq_ignore_case(
                tbl.as_str(),
                table.name.as_str(),
            ) {
                match col_reg(table, current_start, conflict_rowid_reg, col.as_str()) {
                    Some(reg) => Expr::Register(reg),
                    None => Expr::Qualified(tbl, col),
                }
            } else {
                Expr::Qualified(tbl, col)
            }
        },
        Expr::Id(name) => {
            match col_reg(table, current_start, conflict_rowid_reg, name.as_str()) {
                Some(reg) => Expr::Register(reg),
                None => Expr::Id(name),
            }
        },
        Expr::RowId => Expr::Register(conflict_rowid_reg),
        Expr::Collate(inner, c) => Expr::Collate(
            Box::new(rewrite_target_cols_to_current_row(*inner, table, current_start, conflict_rowid_reg)),
            c,
        ),
        Expr::Parenthesized(v) => Expr::Parenthesized(
            rewrite_target_vec(v, table, current_start, conflict_rowid_reg),
        ),
        Expr::Between { lhs, not, start, end } => Expr::Between {
            lhs: Box::new(rewrite_target_cols_to_current_row(*lhs, table, current_start, conflict_rowid_reg)),
            not,
            start: Box::new(rewrite_target_cols_to_current_row(*start, table, current_start, conflict_rowid_reg)),
            end: Box::new(rewrite_target_cols_to_current_row(*end, table, current_start, conflict_rowid_reg)),
        },
        Expr::Binary(l, op, r) => Expr::Binary(
            Box::new(rewrite_target_cols_to_current_row(*l, table, current_start, conflict_rowid_reg)),
            op,
            Box::new(rewrite_target_cols_to_current_row(*r, table, current_start, conflict_rowid_reg)),
        ),
        Expr::Case { base, when_then_pairs, else_expr } => Expr::Case {
            base: rewrite_target_opt(base, table, current_start, conflict_rowid_reg),
            when_then_pairs: rewrite_target_pairs(
                when_then_pairs,
                table,
                current_start,
                conflict_rowid_reg,
            ),
            else_expr: rewrite_target_opt(else_expr, table, current_start, conflict_rowid_reg),
        },
        Expr::Cast { expr, as_type } => Expr::Cast {
            expr: Box::new(rewrite_target_cols_to_current_row(*expr, table, current_start, conflict_rowid_reg)),
            as_type,
        },
        Expr::FunctionCall { name, args, order_by, filter_clause } => Expr::FunctionCall {
            name,
            args: rewrite_target_vec(args, table, current_start, conflict_rowid_reg),
            order_by: rewrite_target_vec(order_by, table, current_start, conflict_rowid_reg),
            filter_clause: rewrite_target_opt(filter_clause, table, current_start, conflict_rowid_reg),
        },
        Expr::InList { lhs, not, rhs } => Expr::InList {
            lhs: Box::new(rewrite_target_cols_to_current_row(*lhs, table, current_start, conflict_rowid_reg)),
            not,
            rhs: rewrite_target_vec(rhs, table, current_start, conflict_rowid_reg),
        },
        Expr::InSelect { lhs, not } => Expr::InSelect {
            lhs: Box::new(rewrite_target_cols_to_current_row(*lhs, table, current_start, conflict_rowid_reg)),
            not,
        },
        Expr::InTable { lhs, not, table: t } => Expr::InTable {
            lhs: Box::new(rewrite_target_cols_to_current_row(*lhs, table, current_start, conflict_rowid_reg)),
            not,
            table: t,
        },
        Expr::IsNull(inner) => Expr::IsNull(
            Box::new(rewrite_target_cols_to_current_row(*inner, table, current_start, conflict_rowid_reg)),
        ),
        Expr::Like { lhs, not, rhs, escape } => Expr::Like {
            lhs: Box::new(rewrite_target_cols_to_current_row(*lhs, table, current_start, conflict_rowid_reg)),
            not,
            rhs: Box::new(rewrite_target_cols_to_current_row(*rhs, table, current_start, conflict_rowid_reg)),
            escape: rewrite_target_opt(escape, table, current_start, conflict_rowid_reg),
        },
        Expr::NotNull(inner) => Expr::NotNull(
            Box::new(rewrite_target_cols_to_current_row(*inner, table, current_start, conflict_rowid_reg)),
        ),
        Expr::Unary(op, inner) => Expr::Unary(
            op,
            Box::new(rewrite_target_cols_to_current_row(*inner, table, current_start, conflict_rowid_reg)),
        ),
        leaf => leaf,
    }
}

/// Target-row rewrite of an optional boxed sub-expression.
fn rewrite_target_opt(
    o: Option<Box<Expr>>,
    table: &Table,
    current_start: usize,
    conflict_rowid_reg: usize,
) -> (r: Option<Box<Expr>>)
    requires
        current_start + table.columns@.len() <= usize::MAX,
    ensures
        view_opt(r) == rewrite_target_opt_s(view_opt(o), *table, current_start, conflict_rowid_reg),
    decreases o,
{
    match o {
        Some(b) => Some(
            Box::new(rewrite_target_cols_to_current_row(*b, table, current_start, conflict_rowid_reg)),
        ),
        None => None,
    }
}

/// Target-row rewrite of every element of a vector of sub-expressions.
fn rewrite_target_vec(
    v: Vec<Expr>,
    table: &Table,
    current_start: usize,
    conflict_rowid_reg: usize,
) -> (r: Vec<Expr>)
    requires
        current_start + table.columns@.len() <= usize::MAX,
    ensures
        view_exprs(r@) == rewrite_target_seq(
            view_exprs(v@),
            *table,
            current_start,
            conflict_rowid_reg,
        ),
    decreases v@,
{
    let ghost v0 = v@;
    let mut v = v;
    if v.len() == 0 {
        assert(view_exprs(v0) =~= Seq::<ExprS>::empty());
        v
    } else {
        let x = v.remove(0);
        let rx = rewrite_target_cols_to_current_row(x, table, current_start, conflict_rowid_reg);
        let mut r = rewrite_target_vec(v, table, current_start, conflict_rowid_reg);
        let ghost rt = r@;
        r.insert(0, rx);
        proof {
            let s = view_exprs(v0);
            assert(v0.drop_first() =~= v@);
            assert(s[0] == view_expr(x));
            assert(s.drop_first() =~= view_exprs(v@));
            assert(r@[0] == rx);
            assert(r@.drop_first() =~= rt);
            assert(view_exprs(r@) == seq![view_expr(r@[0])] + view_exprs(r@.drop_first()));
            assert(view_exprs(r@) == rewrite_target_seq(
                s,
                *table,
                current_start,
                conflict_rowid_reg,
            ));
        }
        r
    }
}

/// Target-row rewrite of both sides of every `WHEN`/`THEN` pair.
fn rewrite_target_pairs(
    v: Vec<(Expr, Expr)>,
    table: &Table,
    current_start: usize,
    conflict_rowid_reg: usize,
) -> (r: Vec<(Expr, Expr)>)
    requires
        current_start + table.columns@.len() <= usize::MAX,
    ensures
        view_pairs(r@) == rewrite_target_pairs_s(
            view_pairs(v@),
            *table,
            current_start,
            conflict_rowid_reg,
        ),
    decreases v@,
{
    let ghost v0 = v@;
    let mut v = v;
    if v.len() == 0 {
        assert(view_pairs(v0) =~= Seq::<(ExprS, ExprS)>::empty());
        v
    } else {
        let p = v.remove(0);
        let (w, t) = p;
        let rw = rewrite_target_cols_to_current_row(w, table, current_start, conflict_rowid_reg);
        let rz = rewrite_target_cols_to_current_row(t, table, current_start, conflict_rowid_reg);
        let mut r = rewrite_target_pairs(v, table, current_start, conflict_rowid_reg);
        let ghost rtail = r@;
        r.insert(0, (rw, rz));
        proof {
            let s = view_pairs(v0);
            assert(v0.drop_first() =~= v@);
            assert(s[0] == (view_expr(w), view_expr(t)));
            assert(s.drop_first() =~= view_pairs(v@));
            assert(r@[0] == (rw, rz));
            assert(r@.drop_first() =~= rtail);
            assert(view_pairs(r@) == seq![(view_expr(r@[0].0), view_expr(r@[0].1))] + view_pairs(
                r@.drop_first(),
            ));
            assert(view_pairs(r@) == rewrite_target_pairs_s(
                s,
                *table,
                current_start,
                conflict_rowid_reg,
            ));
        }
        r
    }
}

/// The target-row rewrite is idempotent: a second pass over an already
/// rewritten expression changes nothing, because register references are
/// not identifiers and a name the first pass left alone is a name the
/// table does not have, which the second pass leaves alone too.
pub proof fn lemma_target_rewrite_idempotent(e: ExprS, table: Table, cur: usize, rowid: usize)
    ensures
        rewrite_target_s(rewrite_target_s(e, table, cur, rowid), table, cur, rowid)
            == rewrite_target_s(e, table, cur, rowid),
    decreases e,
{
    match e {
        ExprS::Between { lhs, not, start, end } => {
            lemma_target_rewrite_idempotent(*lhs, table, cur, rowid);
            lemma_target_rewrite_idempotent(*start, table, cur, rowid);
            lemma_target_rewrite_idempotent(*end, table, cur, rowid);
        },
        ExprS::Binary(l, _op, r) => {
            lemma_target_rewrite_idempotent(*l, table, cur, rowid);
            lemma_target_rewrite_idempotent(*r, table, cur, rowid);
        },
        ExprS::Case { base, when_then_pairs, else_expr } => {
            lemma_target_rewrite_opt_idempotent(base, table, cur, rowid);
            lemma_target_rewrite_pairs_idempotent(when_then_pairs, table, cur, rowid);
            lemma_target_rewrite_opt_idempotent(else_expr, table, cur, rowid);
        },
        ExprS::Cast { expr, as_type } => {
            lemma_target_rewrite_idempotent(*expr, table, cur, rowid);
        },
        ExprS::Collate(inner, _c) => {
            lemma_target_rewrite_idempotent(*inner, table, cur, rowid);
        },
        ExprS::FunctionCall { name, args, order_by, filter_clause } => {
            lemma_target_rewrite_seq_idempotent(args, table, cur, rowid);
            lemma_target_rewrite_seq_idempotent(order_by, table, cur, rowid);
            lemma_target_rewrite_opt_idempotent(filter_clause, table, cur, rowid);
        },
        ExprS::InList { lhs, not, rhs } => {
            lemma_target_rewrite_idempotent(*lhs, table, cur, rowid);
            lemma_target_rewrite_seq_idempotent(rhs, table, cur, rowid);
        },
        ExprS::InSelect { lhs, not } => {
            lemma_target_rewrite_idempotent(*lhs, table, cur, rowid);
        },
        ExprS::InTable { lhs, not, table: _t } => {
            lemma_target_rewrite_idempotent(*lhs, table, cur, rowid);
        },
        ExprS::IsNull(inner) => {
            lemma_target_rewrite_idempotent(*inner, table, cur, rowid);
        },
        ExprS::Like { lhs, not, rhs, escape } => {
            lemma_target_rewrite_idempotent(*lhs, table, cur, rowid);
            lemma_target_rewrite_idempotent(*rhs, table, cur, rowid);
            lemma_target_rewrite_opt_idempotent(escape, table, cur, rowid);
        },
        ExprS::NotNull(inner) => {
            lemma_target_rewrite_idempotent(*inner, table, cur, rowid);
        },
        ExprS::Parenthesized(v) => {
            lemma_target_rewrite_seq_idempotent(v, table, cur, rowid);
        },
        ExprS::Unary(_op, inner) => {
            lemma_target_rewrite_idempotent(*inner, table, cur, rowid);
        },
        _ => {},
    }
}

/// Idempotence of the target-row rewrite on an optional sub-expression.
pub proof fn lemma_target_rewrite_opt_idempotent(
    o: Option<Box<ExprS>>,
    table: Table,
    cur: usize,
    rowid: usize,
)
    ensures
        rewrite_target_opt_s(rewrite_target_opt_s(o, table, cur, rowid), table, cur, rowid)
            == rewrite_target_opt_s(o, table, cur, rowid),
    decreases o,
{
    match o {
        Some(b) => {
            lemma_target_rewrite_idempotent(*b, table, cur, rowid);
        },
        None => {},
    }
}

/// Idempotence of the target-row rewrite on each element of a sequence.
pub proof fn lemma_target_rewrite_seq_idempotent(
    s: Seq<ExprS>,
    table: Table,
    cur: usize,
    rowid: usize,
)
    ensures
        rewrite_target_seq(rewrite_target_seq(s, table, cur, rowid), table, cur, rowid)
            == rewrite_target_seq(s, table, cur, rowid),
    decreases s,
{
    if s.len() > 0 {
        lemma_target_rewrite_idempotent(s[0], table, cur, rowid);
        lemma_target_rewrite_seq_idempotent(s.drop_first(), table, cur, rowid);
        let once = rewrite_target_seq(s, table, cur, rowid);
        assert(once[0] == rewrite_target_s(s[0], table, cur, rowid));
        assert(once.drop_first() =~= rewrite_target_seq(s.drop_first(), table, cur, rowid));
        assert(once.len() > 0);
        assert(rewrite_target_seq(once, table, cur, rowid) =~= once);
    }
}

/// Idempotence of the target-row rewrite on `WHEN`/`THEN` pairs.
pub proof fn lemma_target_rewrite_pairs_idempotent(
    s: Seq<(ExprS, ExprS)>,
    table: Table,
    cur: usize,
    rowid: usize,
)
    ensures
        rewrite_target_pairs_s(rewrite_target_pairs_s(s, table, cur, rowid), table, cur, rowid)
            == rewrite_target_pairs_s(s, table, cur, rowid),
    decreases s,
{
    if s.len() > 0 {
        lemma_target_rewrite_idempotent(s[0].0, table, cur, rowid);
        lemma_target_rewrite_idempotent(s[0].1, table, cur, rowid);
        lemma_target_rewrite_pairs_idempotent(s.drop_first(), table, cur, rowid);
        let once = rewrite_target_pairs_s(s, table, cur, rowid);
        assert(once[0] == (
            rewrite_target_s(s[0].0, table, cur, rowid),
            rewrite_target_s(s[0].1, table, cur, rowid),
        ));
        assert(once.drop_first() =~= rewrite_target_pairs_s(s.drop_first(), table, cur, rowid));
        assert(once.len() > 0);
        assert(rewrite_target_pairs_s(once, table, cur, rowid) =~= once);
    }
}

} // verus!
