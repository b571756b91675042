//! The reference-rewriting passes and the `SET` normalizer.

use upsert_compile::expr::{Expr, Literal, Operator};
use upsert_compile::insert::{ColMapping, Insertion};
use upsert_compile::rewrite::{rewrite_excluded_in_expr, rewrite_target_cols_to_current_row};
use upsert_compile::schema::{Column, Table};
use upsert_compile::set_clause::{collect_set_clauses_for_upsert, PlanError, SetItem};

fn col(name: &str) -> Column {
    Column {
        name: name.to_string(),
        notnull: false,
        primary_key: false,
        is_rowid_alias: false,
        collation: None,
    }
}

fn table_abc() -> Table {
    Table {
        name: "t".to_string(),
        columns: vec![col("a"), col("b"), col("c")],
        is_strict: false,
    }
}

fn insertion_a5() -> Insertion {
    Insertion { cols: vec![ColMapping { name: "a".to_string(), register: 5 }] }
}

fn num(s: &str) -> Expr {
    Expr::Literal(Literal::Numeric(s.to_string()))
}

fn excluded(colname: &str) -> Expr {
    Expr::Qualified("excluded".to_string(), colname.to_string())
}

#[test]
fn excluded_reference_becomes_its_register() {
    let ins = insertion_a5();
    let r = rewrite_excluded_in_expr(excluded("a"), &ins);
    assert_eq!(r, Expr::Register(5));
}

#[test]
fn excluded_rewrite_leaves_the_rest_of_the_tree_alone() {
    let ins = insertion_a5();
    let e = Expr::Binary(
        Box::new(excluded("A")),
        Operator::Concat,
        Box::new(num("1")),
    );
    let r = rewrite_excluded_in_expr(e, &ins);
    assert_eq!(
        r,
        Expr::Binary(Box::new(Expr::Register(5)), Operator::Concat, Box::new(num("1")))
    );
}

#[test]
fn excluded_rewrite_ignores_other_qualifiers() {
    let ins = insertion_a5();
    let e = Expr::Qualified("t".to_string(), "a".to_string());
    let r = rewrite_excluded_in_expr(e, &ins);
    assert_eq!(r, Expr::Qualified("t".to_string(), "a".to_string()));
}

#[test]
fn target_rewrite_resolves_bare_and_qualified_names() {
    let t = table_abc();
    let e = Expr::Binary(
        Box::new(Expr::Id("b".to_string())),
        Operator::NotEquals,
        Box::new(Expr::Qualified("T".to_string(), "c".to_string())),
    );
    let r = rewrite_target_cols_to_current_row(e, &t, 10, 3);
    assert_eq!(
        r,
        Expr::Binary(Box::new(Expr::Register(11)), Operator::NotEquals, Box::new(Expr::Register(12)))
    );
}

#[test]
fn target_rewrite_resolves_rowid_and_skips_excluded() {
    let t = table_abc();
    let r = rewrite_target_cols_to_current_row(Expr::RowId, &t, 10, 3);
    assert_eq!(r, Expr::Register(3));
    let byname = rewrite_target_cols_to_current_row(Expr::Id("ROWID".to_string()), &t, 10, 3);
    assert_eq!(byname, Expr::Register(3));
    let exc = rewrite_target_cols_to_current_row(excluded("a"), &t, 10, 3);
    assert_eq!(exc, excluded("a"));
}

#[test]
fn target_rewrite_leaves_unknown_names_and_is_idempotent() {
    let t = table_abc();
    let e = Expr::Binary(
        Box::new(Expr::Id("a".to_string())),
        Operator::Add,
        Box::new(Expr::Id("nope".to_string())),
    );
    let once = rewrite_target_cols_to_current_row(e, &t, 10, 3);
    assert_eq!(
        once,
        Expr::Binary(Box::new(Expr::Register(10)), Operator::Add, Box::new(Expr::Id("nope".to_string())))
    );
    // A second pass over the rewritten tree changes nothing.
    let again = rewrite_target_cols_to_current_row(
        Expr::Binary(Box::new(Expr::Register(10)), Operator::Add, Box::new(Expr::Id("nope".to_string()))),
        &t,
        10,
        3,
    );
    assert_eq!(
        again,
        Expr::Binary(Box::new(Expr::Register(10)), Operator::Add, Box::new(Expr::Id("nope".to_string())))
    );
}

#[test]
fn set_normalization_last_assignment_wins() {
    let t = table_abc();
    let ins = Insertion { cols: vec![] };
    let items = vec![
        SetItem { col_names: vec!["a".to_string()], expr: num("1") },
        SetItem { col_names: vec!["b".to_string()], expr: num("2") },
        SetItem { col_names: vec!["a".to_string()], expr: num("3") },
    ];
    let out = collect_set_clauses_for_upsert(&t, items, &ins).unwrap();
    assert_eq!(out, vec![(0, num("3")), (1, num("2"))]);
}

#[test]
fn multi_column_set_expands_pairwise() {
    let t = table_abc();
    let ins = Insertion { cols: vec![] };
    let items = vec![SetItem {
        col_names: vec!["a".to_string(), "b".to_string()],
        expr: Expr::Parenthesized(vec![num("1"), num("2")]),
    }];
    let out = collect_set_clauses_for_upsert(&t, items, &ins).unwrap();
    assert_eq!(out, vec![(0, num("1")), (1, num("2"))]);
}

#[test]
fn multi_column_set_count_mismatch_is_an_error() {
    let t = table_abc();
    let ins = Insertion { cols: vec![] };
    let items = vec![SetItem {
        col_names: vec!["a".to_string(), "b".to_string()],
        expr: Expr::Parenthesized(vec![num("1"), num("2"), num("3")]),
    }];
    let err = collect_set_clauses_for_upsert(&t, items, &ins).unwrap_err();
    assert_eq!(err, PlanError::ColumnCountMismatch { columns: 2, values: 3 });
}

#[test]
fn unknown_set_column_is_an_error() {
    let t = table_abc();
    let ins = Insertion { cols: vec![] };
    let items = vec![SetItem { col_names: vec!["zz".to_string()], expr: num("1") }];
    let err = collect_set_clauses_for_upsert(&t, items, &ins).unwrap_err();
    assert_eq!(err, PlanError::NoSuchColumn { name: "zz".to_string() });
}

#[test]
fn set_normalization_rewrites_excluded_references() {
    let t = table_abc();
    let ins = insertion_a5();
    let items = vec![SetItem { col_names: vec!["b".to_string()], expr: excluded("a") }];
    let out = collect_set_clauses_for_upsert(&t, items, &ins).unwrap();
    assert_eq!(out, vec![(1, Expr::Register(5))]);
}
