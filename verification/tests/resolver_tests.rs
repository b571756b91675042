//! Conflict-target resolution: primary-key and unique-index matching.

use upsert_compile::expr::{Expr, Literal, Operator};
use upsert_compile::resolve::{
    extract_target_key, upsert_matches_index, upsert_matches_pk, Upsert, UpsertIndex,
};
use upsert_compile::schema::{Column, Index, IndexColumn, Table};

fn col(name: &str, notnull: bool, primary_key: bool, is_rowid_alias: bool, coll: Option<&str>) -> Column {
    Column {
        name: name.to_string(),
        notnull,
        primary_key,
        is_rowid_alias,
        collation: coll.map(|c| c.to_string()),
    }
}

fn table_abc() -> Table {
    Table {
        name: "t".to_string(),
        columns: vec![
            col("id", true, false, true, None),
            col("a", false, false, false, None),
            col("b", false, false, false, Some("NOCASE")),
        ],
        is_strict: false,
    }
}

fn target(exprs: Vec<Expr>) -> Upsert {
    Upsert { index: Some(UpsertIndex { targets: exprs }) }
}

fn id(name: &str) -> Expr {
    Expr::Id(name.to_string())
}

#[test]
fn extract_accepts_simple_column_shapes() {
    let t = extract_target_key(&id("Alpha")).unwrap();
    assert_eq!(t.col_name, "alpha");
    assert_eq!(t.collate, None);

    let q = extract_target_key(&Expr::Qualified("t".to_string(), "B".to_string())).unwrap();
    assert_eq!(q.col_name, "b");

    let p = extract_target_key(&Expr::Parenthesized(vec![id("c")])).unwrap();
    assert_eq!(p.col_name, "c");

    let c = extract_target_key(&Expr::Collate(Box::new(id("a")), "NoCase".to_string())).unwrap();
    assert_eq!(c.col_name, "a");
    assert_eq!(c.collate.as_deref(), Some("nocase"));
}

#[test]
fn extract_rejects_other_shapes() {
    assert!(extract_target_key(&Expr::Literal(Literal::Numeric("1".to_string()))).is_none());
    let call = Expr::FunctionCall {
        name: "lower".to_string(),
        args: vec![id("a")],
        order_by: vec![],
        filter_clause: None,
    };
    assert!(extract_target_key(&call).is_none());
    // A multi-element parenthesized wrapper is not a single column reference.
    assert!(extract_target_key(&Expr::Parenthesized(vec![id("a"), id("b")])).is_none());
}

#[test]
fn omitted_target_is_catch_all() {
    let u = Upsert { index: None };
    let t = table_abc();
    let idx = Index {
        name: "i_b".to_string(),
        unique: true,
        columns: vec![IndexColumn { name: "b".to_string(), collation: None }],
    };
    assert!(upsert_matches_pk(&u, &t));
    assert!(upsert_matches_index(&u, &idx, &t));
}

#[test]
fn pk_matches_single_term_case_insensitively() {
    let t = table_abc();
    assert!(upsert_matches_pk(&target(vec![id("ID")]), &t));
    assert!(!upsert_matches_pk(&target(vec![id("a")]), &t));
    assert!(!upsert_matches_pk(&target(vec![id("id"), id("a")]), &t));
}

#[test]
fn pk_falls_back_to_rowid_without_declared_key() {
    let t = Table {
        name: "u".to_string(),
        columns: vec![col("x", false, false, false, None)],
        is_strict: false,
    };
    assert!(upsert_matches_pk(&target(vec![id("rowid")]), &t));
    assert!(!upsert_matches_pk(&target(vec![id("x")]), &t));
}

#[test]
fn index_match_ignores_term_order() {
    let t = table_abc();
    let idx = Index {
        name: "i_ab".to_string(),
        unique: true,
        columns: vec![
            IndexColumn { name: "a".to_string(), collation: None },
            IndexColumn { name: "b".to_string(), collation: None },
        ],
    };
    assert!(upsert_matches_index(&target(vec![id("a"), id("b")]), &idx, &t));
    assert!(upsert_matches_index(&target(vec![id("b"), id("a")]), &idx, &t));
}

#[test]
fn index_match_requires_exact_coverage_and_uniqueness() {
    let t = table_abc();
    let idx = Index {
        name: "i_ab".to_string(),
        unique: true,
        columns: vec![
            IndexColumn { name: "a".to_string(), collation: None },
            IndexColumn { name: "b".to_string(), collation: None },
        ],
    };
    // Term count differs from the index's column count.
    assert!(!upsert_matches_index(&target(vec![id("a")]), &idx, &t));
    assert!(!upsert_matches_index(
        &target(vec![id("a"), id("b"), id("a")]),
        &idx,
        &t
    ));
    // Duplicate terms cannot double-count one column.
    assert!(!upsert_matches_index(&target(vec![id("a"), id("a")]), &idx, &t));
    // A non-unique index never matches an explicit target.
    let non_unique = Index { unique: false, ..idx };
    assert!(!upsert_matches_index(
        &target(vec![id("a"), id("b")]),
        &non_unique,
        &t
    ));
}

#[test]
fn index_match_fails_on_non_column_term() {
    let t = table_abc();
    let idx = Index {
        name: "i_ab".to_string(),
        unique: true,
        columns: vec![
            IndexColumn { name: "a".to_string(), collation: None },
            IndexColumn { name: "b".to_string(), collation: None },
        ],
    };
    let call = Expr::FunctionCall {
        name: "lower".to_string(),
        args: vec![id("b")],
        order_by: vec![],
        filter_clause: None,
    };
    assert!(!upsert_matches_index(&target(vec![id("a"), call]), &idx, &t));
    let op = Expr::Binary(
        Box::new(id("a")),
        Operator::Add,
        Box::new(Expr::Literal(Literal::Numeric("1".to_string()))),
    );
    assert!(!upsert_matches_index(&target(vec![op, id("b")]), &idx, &t));
}

#[test]
fn explicit_collation_must_match_effective_collation() {
    let t = table_abc();
    // The index column's explicit collation is kept as written.
    let idx = Index {
        name: "i_b".to_string(),
        unique: true,
        columns: vec![IndexColumn { name: "b".to_string(), collation: Some("nocase".to_string()) }],
    };
    let with = Expr::Collate(Box::new(id("b")), "NOCASE".to_string());
    assert!(upsert_matches_index(&target(vec![with]), &idx, &t));
    let wrong = Expr::Collate(Box::new(id("b")), "binary".to_string());
    assert!(!upsert_matches_index(&target(vec![wrong]), &idx, &t));
    // Without an explicit collation the term matches whatever the index declares.
    assert!(upsert_matches_index(&target(vec![id("b")]), &idx, &t));
}

#[test]
fn wildcard_term_falls_back_to_table_collation() {
    let t = table_abc();
    // No explicit index collation: the effective collation comes from the
    // table column ("nocase", lower-cased) — reachable by an exact term.
    let idx = Index {
        name: "i_b".to_string(),
        unique: true,
        columns: vec![IndexColumn { name: "b".to_string(), collation: None }],
    };
    let exact = Expr::Collate(Box::new(id("b")), "nocase".to_string());
    assert!(upsert_matches_index(&target(vec![exact]), &idx, &t));
    let wrong = Expr::Collate(Box::new(id("b")), "rtrim".to_string());
    assert!(!upsert_matches_index(&target(vec![wrong]), &idx, &t));
}
