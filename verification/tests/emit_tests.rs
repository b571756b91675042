//! End-to-end emission: snapshots, guard, SET application, constraint
//! checks, index maintenance and the row rewrite.

use upsert_compile::emit::emit_upsert;
use upsert_compile::expr::{Expr, Literal, Operator};
use upsert_compile::insert::{ColMapping, Insertion};
use upsert_compile::program::{BranchOffset, Insn, ProgramBuilder};
use upsert_compile::resolve::{upsert_matches_index, upsert_matches_pk, Upsert, UpsertIndex};
use upsert_compile::rewrite::{rewrite_excluded_in_expr, rewrite_target_cols_to_current_row};
use upsert_compile::schema::{Column, Index, IndexColumn, Schema, Table};
use upsert_compile::set_clause::{collect_set_clauses_for_upsert, SetItem};

fn column(name: &str, notnull: bool, alias: bool, coll: Option<&str>) -> Column {
    Column {
        name: name.to_string(),
        notnull,
        primary_key: false,
        is_rowid_alias: alias,
        collation: coll.map(|c| c.to_string()),
    }
}

/// `t(id INTEGER PRIMARY KEY, a TEXT, b TEXT UNIQUE COLLATE NOCASE)`
fn table_t() -> Table {
    Table {
        name: "t".to_string(),
        columns: vec![
            column("id", true, true, None),
            column("a", false, false, None),
            column("b", false, false, Some("NOCASE")),
        ],
        is_strict: false,
    }
}

fn index_on_b() -> Index {
    Index {
        name: "i_b".to_string(),
        unique: true,
        columns: vec![IndexColumn { name: "b".to_string(), collation: None }],
    }
}

fn excluded(c: &str) -> Expr {
    Expr::Qualified("excluded".to_string(), c.to_string())
}

#[test]
fn end_to_end_guarded_upsert_on_unique_index() {
    let table = table_t();
    let schema = Schema { indexes: vec![index_on_b()] };

    // ON CONFLICT(b): resolves to the unique index on b, not the primary key.
    let clause = Upsert {
        index: Some(UpsertIndex { targets: vec![Expr::Id("b".to_string())] }),
    };
    assert!(upsert_matches_index(&clause, &schema.indexes[0], &table));
    assert!(!upsert_matches_pk(&clause, &table));

    // The base insert path left the pending row in registers 100..=102.
    let insertion = Insertion {
        cols: vec![
            ColMapping { name: "id".to_string(), register: 100 },
            ColMapping { name: "a".to_string(), register: 101 },
            ColMapping { name: "b".to_string(), register: 102 },
        ],
    };

    // SET a = excluded.a || '!'
    let rhs = Expr::Binary(
        Box::new(excluded("a")),
        Operator::Concat,
        Box::new(Expr::Literal(Literal::Str("!".to_string()))),
    );
    let set_pairs = collect_set_clauses_for_upsert(
        &table,
        vec![SetItem { col_names: vec!["a".to_string()], expr: rhs }],
        &insertion,
    )
    .unwrap();
    assert_eq!(
        set_pairs,
        vec![(
            1,
            Expr::Binary(
                Box::new(Expr::Register(101)),
                Operator::Concat,
                Box::new(Expr::Literal(Literal::Str("!".to_string()))),
            )
        )]
    );

    // WHERE t.a != excluded.a, EXCLUDED references resolved first.
    let guard = Expr::Binary(
        Box::new(Expr::Qualified("t".to_string(), "a".to_string())),
        Operator::NotEquals,
        Box::new(excluded("a")),
    );
    let guard = rewrite_excluded_in_expr(guard, &insertion);

    let mut program = ProgramBuilder::new(false, false);
    let rowid_reg = program.alloc_register();
    let done = BranchOffset { id: 99 };
    emit_upsert(
        &mut program,
        &schema,
        &table,
        0,
        rowid_reg,
        set_pairs,
        Some(guard),
        vec![("i_b".to_string(), 4, 7)],
        &vec![],
        None,
        done,
    );

    // Registers: 0 rowid; 1..=3 current; 4..=6 before; 7..=9 new; 10 guard;
    // 11..=15 index maintenance; 16 record.
    let insns = &program.insns;
    assert_eq!(
        insns[0],
        Insn::SeekRowid { cursor_id: 0, src_reg: 0, target_pc: done }
    );
    // Snapshot: the rowid alias reads the key, the rest read columns.
    assert_eq!(insns[1], Insn::RowId { cursor_id: 0, dest: 1 });
    assert_eq!(insns[2], Insn::Column { cursor_id: 0, column: 1, dest: 2 });
    assert_eq!(insns[3], Insn::Column { cursor_id: 0, column: 2, dest: 3 });
    assert_eq!(insns[4], Insn::Copy { src_reg: 1, dst_reg: 4, extra_amount: 2 });
    assert_eq!(insns[5], Insn::Copy { src_reg: 1, dst_reg: 7, extra_amount: 2 });
    // The guard compares the stored a (register 2) with the pending a
    // (register 101); false or null skips the row.
    assert_eq!(
        insns[6],
        Insn::Eval {
            expr: Expr::Binary(
                Box::new(Expr::Register(2)),
                Operator::NotEquals,
                Box::new(Expr::Register(101)),
            ),
            dest: 10,
            no_constant_opt: false,
        }
    );
    assert_eq!(
        insns[7],
        Insn::IfNot { reg: 10, target_pc: done, jump_if_null: true }
    );
    // SET writes the new a in place, with the volatile-destination mode.
    assert_eq!(
        insns[8],
        Insn::Eval {
            expr: Expr::Binary(
                Box::new(Expr::Register(101)),
                Operator::Concat,
                Box::new(Expr::Literal(Literal::Str("!".to_string()))),
            ),
            dest: 8,
            no_constant_opt: true,
        }
    );
    // Index rewrite: delete the old key (from before image), insert the new.
    assert_eq!(insns[9], Insn::Copy { src_reg: 6, dst_reg: 11, extra_amount: 0 });
    assert_eq!(insns[10], Insn::Copy { src_reg: 0, dst_reg: 12, extra_amount: 0 });
    assert_eq!(
        insns[11],
        Insn::IdxDelete {
            start_reg: 11,
            num_regs: 2,
            cursor_id: 7,
            raise_error_if_no_matching_entry: false,
        }
    );
    assert_eq!(insns[12], Insn::Copy { src_reg: 9, dst_reg: 13, extra_amount: 0 });
    assert_eq!(insns[13], Insn::Copy { src_reg: 0, dst_reg: 14, extra_amount: 0 });
    assert_eq!(
        insns[14],
        Insn::MakeRecord {
            start_reg: 13,
            count: 2,
            dest_reg: 15,
            index_name: Some("i_b".to_string()),
        }
    );
    assert_eq!(
        insns[15],
        Insn::IdxInsert { cursor_id: 7, record_reg: 15, unpacked_start: 13, unpacked_count: 2 }
    );
    // Row rewrite under the unchanged rowid, then the shared completion jump.
    assert_eq!(
        insns[16],
        Insn::MakeRecord { start_reg: 7, count: 3, dest_reg: 16, index_name: None }
    );
    assert_eq!(
        insns[17],
        Insn::Insert { cursor: 0, key_reg: 0, record_reg: 16, table_name: "t".to_string() }
    );
    assert_eq!(insns[18], Insn::Goto { target_pc: done });
    assert_eq!(insns.len(), 19);
    assert_eq!(program.next_reg, 17);
}

#[test]
fn set_null_on_not_null_column_emits_the_abort_check() {
    let table = Table {
        name: "t".to_string(),
        columns: vec![column("id", true, true, None), column("b", true, false, None)],
        is_strict: false,
    };
    let schema = Schema { indexes: vec![] };
    // current 1..=2, new 3..=4: the checked slot is new_start + 1.
    let halt = Insn::HaltIfNull {
        target_reg: 4,
        table_name: "t".to_string(),
        column_name: "b".to_string(),
    };

    // Without a WHERE guard.
    let mut program = ProgramBuilder::new(false, false);
    let rowid_reg = program.alloc_register();
    emit_upsert(
        &mut program,
        &schema,
        &table,
        0,
        rowid_reg,
        vec![(1, Expr::Literal(Literal::Null))],
        None,
        vec![],
        &vec![],
        None,
        BranchOffset { id: 9 },
    );
    assert!(program.insns.contains(&halt));

    // With a WHERE guard, the check is still emitted at the same slot.
    let mut program2 = ProgramBuilder::new(false, false);
    let rowid_reg2 = program2.alloc_register();
    emit_upsert(
        &mut program2,
        &schema,
        &table,
        0,
        rowid_reg2,
        vec![(1, Expr::Literal(Literal::Null))],
        Some(Expr::Literal(Literal::True)),
        vec![],
        &vec![],
        None,
        BranchOffset { id: 9 },
    );
    assert!(program2.insns.contains(&halt));

    // A rowid-alias column never gets the check.
    let mut program3 = ProgramBuilder::new(false, false);
    let rowid_reg3 = program3.alloc_register();
    emit_upsert(
        &mut program3,
        &schema,
        &table,
        0,
        rowid_reg3,
        vec![(0, Expr::Literal(Literal::Null))],
        None,
        vec![],
        &vec![],
        None,
        BranchOffset { id: 9 },
    );
    let any_halt = program3
        .insns
        .iter()
        .any(|i| matches!(i, Insn::HaltIfNull { .. }));
    assert!(!any_halt);
}

#[test]
fn skips_before_image_without_indexes_or_change_capture() {
    let table = table_t();
    let schema = Schema { indexes: vec![] };
    let mut program = ProgramBuilder::new(false, false);
    let rowid_reg = program.alloc_register();
    emit_upsert(
        &mut program,
        &schema,
        &table,
        0,
        rowid_reg,
        vec![],
        None,
        vec![],
        &vec![],
        None,
        BranchOffset { id: 5 },
    );
    // Seek, three snapshot loads, one copy (new image), the row rewrite
    // pair, and the completion jump: no before image, no index section.
    assert_eq!(program.insns.len(), 8);
    assert_eq!(insn_copy_count(&program.insns), 1);
    // current 1..=3, new 4..=6, record 7.
    assert_eq!(program.insns[4], Insn::Copy { src_reg: 1, dst_reg: 4, extra_amount: 2 });
    assert_eq!(program.next_reg, 8);
}

fn insn_copy_count(insns: &[Insn]) -> usize {
    insns.iter().filter(|i| matches!(i, Insn::Copy { .. })).count()
}

#[test]
fn rewrite_guard_before_translation_matches_target_rewrite() {
    // The emitter rewrites the guard with the same pass the library
    // exposes; spot-check the pass on a guard with rowid and unknown names.
    let table = table_t();
    let g = Expr::Binary(
        Box::new(Expr::RowId),
        Operator::Less,
        Box::new(Expr::Id("b".to_string())),
    );
    let r = rewrite_target_cols_to_current_row(g, &table, 1, 0);
    assert_eq!(
        r,
        Expr::Binary(Box::new(Expr::Register(0)), Operator::Less, Box::new(Expr::Register(3)))
    );
}

#[test]
fn change_capture_and_returning_paths() {
    let table = Table {
        name: "t".to_string(),
        columns: vec![column("id", true, true, None), column("b", false, false, None)],
        is_strict: false,
    };
    let schema = Schema { indexes: vec![] };
    let mut program = ProgramBuilder::new(true, true);
    let rowid_reg = program.alloc_register();
    emit_upsert(
        &mut program,
        &schema,
        &table,
        0,
        rowid_reg,
        vec![],
        None,
        vec![],
        &vec![Expr::Id("b".to_string())],
        Some(5),
        BranchOffset { id: 2 },
    );
    // Registers: 0 rowid; 1..=2 current; 3..=4 before (change capture
    // needs one); 5..=6 new; 7 record; 8 after image; 9 before image.
    let insns = &program.insns;
    assert_eq!(insns[3], Insn::Copy { src_reg: 1, dst_reg: 3, extra_amount: 1 });
    assert_eq!(
        insns[7],
        Insn::CdcPatchRecord {
            table_name: "t".to_string(),
            new_start: 5,
            record_reg: 7,
            rowid_reg: 0,
            dest: 8,
        }
    );
    assert_eq!(insns[8], Insn::CdcFullRecord { cursor_id: 0, rowid_reg: 0, dest: 9 });
    assert_eq!(
        insns[9],
        Insn::CdcWrite {
            mode: upsert_compile::program::OperationMode::Update,
            cursor_id: 5,
            rowid_reg: 0,
            before_reg: Some(9),
            after_reg: Some(8),
            table_name: "t".to_string(),
        }
    );
    assert_eq!(
        insns[10],
        Insn::EmitReturning { rowid_reg: 0, columns_start: 5, num_columns: 2 }
    );
    assert_eq!(insns[11], Insn::Goto { target_pc: BranchOffset { id: 2 } });
    assert_eq!(insns.len(), 12);
    assert_eq!(program.next_reg, 10);
}
