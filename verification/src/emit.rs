//! The UPSERT emitter.
//!
//! One invocation compiles the `DO UPDATE` action for one candidate
//! conflicting row, already located by rowid: seek the row (a vanished row
//! is a per-row no-op), snapshot its columns into the *current* range, copy
//! a *before* image only when index maintenance or change capture needs
//! one, initialize the *new* image as a copy of *current*, evaluate the
//! optional `WHERE` guard (false or null skips the row), apply the `SET`
//! assignments into *new* with NOT NULL checks, strict-type-check the new
//! image when the table demands it, rewrite every in-scope secondary-index
//! entry, write the row back under its unchanged rowid, optionally emit
//! change capture and `RETURNING` output, and jump to the shared per-row
//! completion label.
//!
//! The contract pins the exact instruction sequence and register layout:
//! [`upsert_insns_s`] is the sequence, [`upsert_regs_s`] the number of
//! registers consumed.

use vstd::prelude::*;

use crate::expr::{view_expr, Expr, ExprS};
use crate::program::{
    emit_cdc_full_record, emit_cdc_insns, emit_cdc_patch_record, emit_returning_results,
    translate_expr, translate_expr_no_constant_opt, view_insns, BranchOffset, Insn, InsnS,
    OperationMode, ProgramBuilder,
};
use crate::rewrite::{rewrite_target_cols_to_current_row, rewrite_target_s};
use crate::schema::{col_index_seq, index_pos_seq, Index, Schema, Table};
use crate::set_clause::view_set_pairs;

verus! {

/// The *current* snapshot: one load per column — the row's key for a
/// rowid-alias column, the stored value otherwise.
pub open spec fn snapshot_insns_s(table: Table, cursor: usize, start: usize) -> Seq<InsnS> {
    Seq::new(
        table.columns@.len(),
        |i: int|
            if table.columns@[i].is_rowid_alias {
                InsnS::RowId { cursor_id: cursor, dest: (start + i) as usize }
            } else {
                InsnS::Column { cursor_id: cursor, column: i as usize, dest: (start + i) as usize }
            },
    )
}

/// The `SET` section: each pair evaluates its rewritten expression in
/// place into `new_start + column`, followed — for a `NOT NULL`,
/// non-rowid-alias column — by the abort-on-null check naming
/// `table.column`.
pub open spec fn set_insns_s(
    pairs: Seq<(usize, ExprS)>,
    table: Table,
    current: usize,
    rowid: usize,
    new_start: usize,
) -> Seq<InsnS>
    decreases pairs.len(),
{
    if pairs.len() == 0 {
        Seq::empty()
    } else {
        let ci = pairs[0].0;
        let dest = (new_start + ci) as usize;
        let col = table.columns@[ci as int];
        let head = seq![
            InsnS::Eval {
                expr: rewrite_target_s(pairs[0].1, table, current, rowid),
                dest,
                no_constant_opt: true,
            },
        ];
        let checked = if col.notnull && !col.is_rowid_alias {
            head + seq![
                InsnS::HaltIfNull {
                    target_reg: dest,
                    table_name: table.name@,
                    column_name: col.name@,
                },
            ]
        } else {
            head
        };
        checked + set_insns_s(pairs.drop_first(), table, current, rowid, new_start)
    }
}

/// The position of a named column within the table, for index key
/// gathering; the emitter's preconditions keep it meaningful.
pub open spec fn col_of(table: Table, idx: Index, i: int) -> int {
    match col_index_seq(table.columns@, idx.columns@[i].name@) {
        Some(c) => c,
        None => 0,
    }
}

/// Registers consumed rewriting one index's entry: a delete key, an
/// insert key (each the key columns plus the rowid) and one record.
pub open spec fn one_index_regs(schema: Schema, name: Seq<char>) -> int {
    match index_pos_seq(schema.indexes@, name) {
        Some(p) => 2 * (schema.indexes@[p].columns@.len() as int) + 3,
        None => 0,
    }
}

/// Registers consumed by the whole index-maintenance section.
pub open spec fn idx_regs_s(cursors: Seq<(String, usize, usize)>, schema: Schema) -> int
    decreases cursors.len(),
{
    if cursors.len() == 0 {
        0int
    } else {
        one_index_regs(schema, cursors[0].0@) + idx_regs_s(cursors.drop_first(), schema)
    }
}

/// The index sections consume no negative register count.
pub proof fn lemma_idx_regs_nonneg(cursors: Seq<(String, usize, usize)>, schema: Schema)
    ensures
        idx_regs_s(cursors, schema) >= 0,
    decreases cursors.len(),
{
    if cursors.len() > 0 {
        lemma_idx_regs_nonneg(cursors.drop_first(), schema);
    }
}

/// One index's rewrite: gather the old key from the *before* image and
/// delete it (tolerating a missing entry), gather the new key from the
/// *new* image, serialize it with the unchanged rowid, and insert it.
pub open spec fn one_index_insns(
    schema: Schema,
    table: Table,
    name: Seq<char>,
    cid: usize,
    before: usize,
    new_start: usize,
    rowid: usize,
    base: usize,
) -> Seq<InsnS> {
    match index_pos_seq(schema.indexes@, name) {
        None => Seq::empty(),
        Some(p) => {
            let idx = schema.indexes@[p];
            let k = idx.columns@.len() as int;
            let kn = idx.columns@.len();
            let ins_base = base + k + 1;
            let del_copies = Seq::new(
                kn,
                |i: int|
                    InsnS::Copy {
                        src_reg: (before + col_of(table, idx, i)) as usize,
                        dst_reg: (base + i) as usize,
                        extra_amount: 0,
                    },
            );
            let ins_copies = Seq::new(
                kn,
                |i: int|
                    InsnS::Copy {
                        src_reg: (new_start + col_of(table, idx, i)) as usize,
                        dst_reg: (ins_base + i) as usize,
                        extra_amount: 0,
                    },
            );
            del_copies + seq![
                InsnS::Copy { src_reg: rowid, dst_reg: (base + k) as usize, extra_amount: 0 },
                InsnS::IdxDelete {
                    start_reg: base,
                    num_regs: (k + 1) as usize,
                    cursor_id: cid,
                    raise_error_if_no_matching_entry: false,
                },
            ] + ins_copies + seq![
                InsnS::Copy { src_reg: rowid, dst_reg: (ins_base + k) as usize, extra_amount: 0 },
                InsnS::MakeRecord {
                    start_reg: ins_base as usize,
                    count: (k + 1) as usize,
                    dest_reg: (base + 2 * k + 2) as usize,
                    index_name: Some(name),
                },
                InsnS::IdxInsert {
                    cursor_id: cid,
                    record_reg: (base + 2 * k + 2) as usize,
                    unpacked_start: ins_base as usize,
                    unpacked_count: (k + 1) as usize,
                },
            ]
        },
    }
}

/// The whole index-maintenance section, one block per cursor in order,
/// each starting at the running register base.
pub open spec fn idx_insns_s(
    cursors: Seq<(String, usize, usize)>,
    schema: Schema,
    table: Table,
    before: usize,
    new_start: usize,
    rowid: usize,
    base: usize,
) -> Seq<InsnS>
    decreases cursors.len(),
{
    if cursors.len() == 0 {
        Seq::empty()
    } else {
        one_index_insns(schema, table, cursors[0].0@, cursors[0].2, before, new_start, rowid, base)
            + idx_insns_s(
            cursors.drop_first(),
            schema,
            table,
            before,
            new_start,
            rowid,
            (base + one_index_regs(schema, cursors[0].0@)) as usize,
        )
    }
}

/// Registers one UPSERT emission consumes: the three row images, the
/// optional guard register, the index sections, the row record, and the
/// optional change-capture records.
pub open spec fn upsert_regs_s(
    schema: Schema,
    table: Table,
    idx_cursors: Seq<(String, usize, usize)>,
    has_where: bool,
    cdc: Option<usize>,
    capture_before: bool,
    capture_after: bool,
) -> int {
    let n = table.columns@.len() as int;
    let nb: int = if cdc is Some || idx_cursors.len() > 0 {
        n
    } else {
        0
    };
    n + nb + n + (if has_where {
        1int
    } else {
        0int
    }) + idx_regs_s(idx_cursors, schema) + 1 + (if cdc is Some && capture_after {
        1int
    } else {
        0int
    }) + (if cdc is Some && capture_before {
        1int
    } else {
        0int
    })
}

/// The change-capture section: an after-image from the *new* range if
/// configured, a before-image re-read from the live row if configured,
/// then one UPDATE-mode change record.
pub open spec fn cdc_insns_s(
    table: Table,
    tbl_cursor_id: usize,
    rowid: usize,
    new_start: usize,
    rec: usize,
    cdc: Option<usize>,
    capture_before: bool,
    capture_after: bool,
) -> Seq<InsnS> {
    match cdc {
        None => Seq::empty(),
        Some(cid) => {
            let after_dest = (rec + 1) as usize;
            let before_dest = if capture_after {
                (rec + 2) as usize
            } else {
                (rec + 1) as usize
            };
            let after_part = if capture_after {
                seq![
                    InsnS::CdcPatchRecord {
                        table_name: table.name@,
                        new_start,
                        record_reg: rec,
                        rowid_reg: rowid,
                        dest: after_dest,
                    },
                ]
            } else {
                Seq::empty()
            };
            let before_part = if capture_before {
                seq![
                    InsnS::CdcFullRecord {
                        cursor_id: tbl_cursor_id,
                        rowid_reg: rowid,
                        dest: before_dest,
                    },
                ]
            } else {
                Seq::empty()
            };
            after_part + before_part + seq![
                InsnS::CdcWrite {
                    mode: OperationMode::Update,
                    cursor_id: cid,
                    rowid_reg: rowid,
                    before_reg: if capture_before {
                        Some(before_dest)
                    } else {
                        None
                    },
                    after_reg: if capture_after {
                        Some(after_dest)
                    } else {
                        None
                    },
                    table_name: table.name@,
                },
            ]
        },
    }
}

/// The complete instruction sequence of one UPSERT emission, starting
/// with register `r0` free.
pub open spec fn upsert_insns_s(
    schema: Schema,
    table: Table,
    tbl_cursor_id: usize,
    rowid: usize,
    set_pairs: Seq<(usize, ExprS)>,
    where_s: Option<ExprS>,
    idx_cursors: Seq<(String, usize, usize)>,
    ret_count: int,
    cdc: Option<usize>,
    row_done: BranchOffset,
    capture_before: bool,
    capture_after: bool,
    r0: usize,
) -> Seq<InsnS> {
    let n = table.columns@.len() as int;
    let nb = cdc is Some || idx_cursors.len() > 0;
    let current = r0;
    let before = (r0 + n) as usize;
    let new_start = if nb {
        (r0 + 2 * n) as usize
    } else {
        (r0 + n) as usize
    };
    let after_new = (new_start + n) as usize;
    let idx_base = if where_s is Some {
        (after_new + 1) as usize
    } else {
        after_new
    };
    let rec = (idx_base + idx_regs_s(idx_cursors, schema)) as usize;
    seq![InsnS::SeekRowid { cursor_id: tbl_cursor_id, src_reg: rowid, target_pc: row_done }]
        + snapshot_insns_s(table, tbl_cursor_id, current) + (if nb {
        seq![
            InsnS::Copy { src_reg: current, dst_reg: before, extra_amount: (n - 1) as usize },
        ]
    } else {
        Seq::empty()
    }) + seq![
        InsnS::Copy { src_reg: current, dst_reg: new_start, extra_amount: (n - 1) as usize },
    ] + (match where_s {
        Some(w) => seq![
            InsnS::Eval {
                expr: rewrite_target_s(w, table, current, rowid),
                dest: after_new,
                no_constant_opt: false,
            },
            InsnS::IfNot { reg: after_new, target_pc: row_done, jump_if_null: true },
        ],
        None => Seq::empty(),
    }) + set_insns_s(set_pairs, table, current, rowid, new_start) + (if table.is_strict {
        seq![InsnS::TypeCheck { start_reg: new_start, count: n as usize, check_generated: true }]
    } else {
        Seq::empty()
    }) + (if nb {
        idx_insns_s(idx_cursors, schema, table, before, new_start, rowid, idx_base)
    } else {
        Seq::empty()
    }) + seq![
        InsnS::MakeRecord { start_reg: new_start, count: n as usize, dest_reg: rec, index_name: None },
        InsnS::Insert {
            cursor: tbl_cursor_id,
            key_reg: rowid,
            record_reg: rec,
            table_name: table.name@,
        },
    ] + cdc_insns_s(table, tbl_cursor_id, rowid, new_start, rec, cdc, capture_before, capture_after)
        + (if ret_count > 0 {
        seq![
            InsnS::EmitReturning { rowid_reg: rowid, columns_start: new_start, num_columns: n as usize },
        ]
    } else {
        Seq::empty()
    }) + seq![InsnS::Goto { target_pc: row_done }]
}

/// Well-formedness of the in-scope index cursors: each names an index the
/// schema has, whose columns the table has.  A violation would be a
/// planner bug; the emitter requires this instead of guarding it.
pub open spec fn idx_cursors_wf(
    cursors: Seq<(String, usize, usize)>,
    schema: Schema,
    table: Table,
) -> bool {
    forall|j: int|
        0 <= j < cursors.len() ==> {
            let pos = index_pos_seq(schema.indexes@, (#[trigger] cursors[j]).0@);
            pos is Some && forall|i: int|
                0 <= i < schema.indexes@[pos->0].columns@.len() ==> col_index_seq(
                    table.columns@,
                    (#[trigger] schema.indexes@[pos->0].columns@[i]).name@,
                ) is Some
        }
}

/// Emit the *current* snapshot loads.
#[verifier::loop_isolation(false)]
fn emit_snapshot(program: &mut ProgramBuilder, table: &Table, tbl_cursor_id: usize, start: usize)
    requires
        start + table.columns@.len() <= usize::MAX,
    ensures
        view_insns(final(program).insns@) == view_insns(old(program).insns@) + snapshot_insns_s(
            *table,
            tbl_cursor_id,
            start,
        ),
        final(program).next_reg == old(program).next_reg,
        final(program).capture_before == old(program).capture_before,
        final(program).capture_after == old(program).capture_after,
{
    let ghost base = view_insns(program.insns@);
    let ghost snap = snapshot_insns_s(*table, tbl_cursor_id, start);
    let n = table.columns.len();
    let mut i: usize = 0;
    proof {
        assert(view_insns(program.insns@) =~= base + snap.take(0));
    }
    while i < n
        invariant
            i <= n,
            view_insns(program.insns@) == base + snap.take(i as int),
            program.next_reg == old(program).next_reg,
            program.capture_before == old(program).capture_before,
            program.capture_after == old(program).capture_after,
        decreases n - i,
    {
        let ghost prev = program.insns@;
        if table.columns[i].is_rowid_alias {
            program.emit_insn(Insn::RowId { cursor_id: tbl_cursor_id, dest: start + i });
        } else {
            program.emit_insn(Insn::Column { cursor_id: tbl_cursor_id, column: i, dest: start + i });
        }
        proof {
            assert(view_insns(program.insns@) =~= view_insns(prev).push(snap[i as int]));
            assert(base + snap.take(i as int + 1) =~= (base + snap.take(i as int)).push(
                snap[i as int],
            ));
        }
        i = i + 1;
    }
    proof {
        assert(snap.take(n as int) =~= snap);
    }
}

/// Emit the `SET` section, consuming the pairs from the front.
fn emit_set_pairs(
    program: &mut ProgramBuilder,
    table: &Table,
    set_pairs: Vec<(usize, Expr)>,
    current: usize,
    rowid: usize,
    new_start: usize,
)
    requires
        forall|k: int|
            0 <= k < set_pairs@.len() ==> (#[trigger] set_pairs@[k]).0 < table.columns@.len(),
        current + table.columns@.len() <= usize::MAX,
        new_start + table.columns@.len() <= usize::MAX,
    ensures
        view_insns(final(program).insns@) == view_insns(old(program).insns@) + set_insns_s(
            view_set_pairs(set_pairs@),
            *table,
            current,
            rowid,
            new_start,
        ),
        final(program).next_reg == old(program).next_reg,
        final(program).capture_before == old(program).capture_before,
        final(program).capture_after == old(program).capture_after,
    decreases set_pairs@.len(),
{
    let ghost pairs0 = set_pairs@;
    let ghost pairs_s = view_set_pairs(set_pairs@);
    let ghost base = view_insns(program.insns@);
    let mut set_pairs = set_pairs;
    if set_pairs.len() == 0 {
        proof {
            assert(view_insns(program.insns@) =~= base + set_insns_s(
                pairs_s,
                *table,
                current,
                rowid,
                new_start,
            ));
        }
        return ;
    }
    let (ci, e) = set_pairs.remove(0);
    proof {
        assert(pairs0[0] == (ci, e));
        assert(pairs_s[0] == (ci, view_expr(e)));
        assert(view_set_pairs(set_pairs@) =~= pairs_s.drop_first());
        assert(forall|k2: int|
            0 <= k2 < set_pairs@.len() ==> #[trigger] set_pairs@[k2] == pairs0[k2 + 1]);
    }
    let ghost e_s = view_expr(e);
    let re = rewrite_target_cols_to_current_row(e, table, current, rowid);
    let ghost re_s = view_expr(re);
    let dest = new_start + ci;
    let ghost prev1 = program.insns@;
    translate_expr_no_constant_opt(program, re, dest);
    proof {
        assert(view_insns(program.insns@) =~= view_insns(prev1) + seq![
            InsnS::Eval { expr: re_s, dest, no_constant_opt: true },
        ]);
    }
    let col = &table.columns[ci];
    if col.notnull && !col.is_rowid_alias {
        let ghost prev2 = program.insns@;
        program.emit_insn(
            Insn::HaltIfNull {
                target_reg: dest,
                table_name: table.name.clone(),
                column_name: col.name.clone(),
            },
        );
        proof {
            assert(view_insns(program.insns@) =~= view_insns(prev2) + seq![
                InsnS::HaltIfNull {
                    target_reg: dest,
                    table_name: table.name@,
                    column_name: table.columns@[ci as int].name@,
                },
            ]);
        }
    }
    let ghost mid = view_insns(program.insns@);
    emit_set_pairs(program, table, set_pairs, current, rowid, new_start);
    proof {
        assert(view_insns(program.insns@) =~= base + set_insns_s(
            pairs_s,
            *table,
            current,
            rowid,
            new_start,
        ));
    }
}

/// Emit one index's entry rewrite, starting at the current register base.
#[verifier::loop_isolation(false)]
fn emit_one_index(
    program: &mut ProgramBuilder,
    schema: &Schema,
    table: &Table,
    name: &String,
    cid: usize,
    before: usize,
    new_start: usize,
    rowid: usize,
)
    requires
        index_pos_seq(schema.indexes@, name@) is Some,
        forall|i: int|
            0 <= i < schema.indexes@[index_pos_seq(schema.indexes@, name@)->0].columns@.len()
                ==> col_index_seq(
                table.columns@,
                (#[trigger] schema.indexes@[index_pos_seq(
                    schema.indexes@,
                    name@,
                )->0].columns@[i]).name@,
            ) is Some,
        before + table.columns@.len() <= usize::MAX,
        new_start + table.columns@.len() <= usize::MAX,
        old(program).next_reg + one_index_regs(*schema, name@) <= usize::MAX,
    ensures
        view_insns(final(program).insns@) == view_insns(old(program).insns@) + one_index_insns(
            *schema,
            *table,
            name@,
            cid,
            before,
            new_start,
            rowid,
            old(program).next_reg,
        ),
        final(program).next_reg == old(program).next_reg + one_index_regs(*schema, name@),
        final(program).capture_before == old(program).capture_before,
        final(program).capture_after == old(program).capture_after,
{
    let ghost base_regs = program.next_reg;
    let ghost base = view_insns(program.insns@);
    let pos = match schema.get_index(name.as_str()) {
        Some(p) => p,
        None => {
            proof {
                assert(false);
            }
            0
        },
    };
    let idx = &schema.indexes[pos];
    let ghost idx_s = schema.indexes@[index_pos_seq(schema.indexes@, name@)->0];
    proof {
        crate::schema::lemma_index_pos_seq_valid(schema.indexes@, name@);
        assert(idx_s == schema.indexes@[pos as int]);
    }
    let k = idx.columns.len();
    let ghost whole = one_index_insns(
        *schema,
        *table,
        name@,
        cid,
        before,
        new_start,
        rowid,
        base_regs,
    );

    let del = program.alloc_registers(k + 1);
    let ghost del_copies = Seq::new(
        idx_s.columns@.len(),
        |i: int|
            InsnS::Copy {
                src_reg: (before + col_of(*table, idx_s, i)) as usize,
                dst_reg: (del + i) as usize,
                extra_amount: 0,
            },
    );
    let mut i: usize = 0;
    proof {
        assert(view_insns(program.insns@) =~= base + del_copies.take(0));
    }
    while i < k
        invariant
            i <= k,
            view_insns(program.insns@) == base + del_copies.take(i as int),
            program.next_reg == base_regs + k + 1,
            program.capture_before == old(program).capture_before,
            program.capture_after == old(program).capture_after,
        decreases k - i,
    {
        let ic = &idx.columns[i];
        let ci = match table.get_column_by_name(ic.name.as_str()) {
            Some(c) => c,
            None => {
                proof {
                    assert(false);
                }
                0
            },
        };
        proof {
            crate::schema::lemma_col_index_seq_valid(table.columns@, ic.name@);
            assert(col_of(*table, idx_s, i as int) == ci as int);
        }
        let ghost prev = program.insns@;
        program.emit_insn(Insn::Copy { src_reg: before + ci, dst_reg: del + i, extra_amount: 0 });
        proof {
            assert(view_insns(program.insns@) =~= view_insns(prev).push(del_copies[i as int]));
            assert(base + del_copies.take(i as int + 1) =~= (base + del_copies.take(
                i as int,
            )).push(del_copies[i as int]));
        }
        i = i + 1;
    }
    proof {
        assert(del_copies.take(k as int) =~= del_copies);
    }
    let ghost prev_a = program.insns@;
    program.emit_insn(Insn::Copy { src_reg: rowid, dst_reg: del + k, extra_amount: 0 });
    program.emit_insn(
        Insn::IdxDelete {
            start_reg: del,
            num_regs: k + 1,
            cursor_id: cid,
            raise_error_if_no_matching_entry: false,
        },
    );
    proof {
        assert(view_insns(program.insns@) =~= view_insns(prev_a) + seq![
            InsnS::Copy { src_reg: rowid, dst_reg: (del + k as int) as usize, extra_amount: 0 },
            InsnS::IdxDelete {
                start_reg: del,
                num_regs: (k as int + 1) as usize,
                cursor_id: cid,
                raise_error_if_no_matching_entry: false,
            },
        ]);
    }

    let ins = program.alloc_registers(k + 1);
    let ghost ins_copies = Seq::new(
        idx_s.columns@.len(),
        |i: int|
            InsnS::Copy {
                src_reg: (new_start + col_of(*table, idx_s, i)) as usize,
                dst_reg: (ins + i) as usize,
                extra_amount: 0,
            },
    );
    let ghost mid = view_insns(program.insns@);
    let mut i2: usize = 0;
    proof {
        assert(view_insns(program.insns@) =~= mid + ins_copies.take(0));
    }
    while i2 < k
        invariant
            i2 <= k,
            view_insns(program.insns@) == mid + ins_copies.take(i2 as int),
            program.next_reg == base_regs + 2 * k + 2,
            program.capture_before == old(program).capture_before,
            program.capture_after == old(program).capture_after,
        decreases k - i2,
    {
        let ic = &idx.columns[i2];
        let ci = match table.get_column_by_name(ic.name.as_str()) {
            Some(c) => c,
            None => {
                proof {
                    assert(false);
                }
                0
            },
        };
        proof {
            crate::schema::lemma_col_index_seq_valid(table.columns@, ic.name@);
            assert(col_of(*table, idx_s, i2 as int) == ci as int);
        }
        let ghost prev = program.insns@;
        program.emit_insn(
            Insn::Copy { src_reg: new_start + ci, dst_reg: ins + i2, extra_amount: 0 },
        );
        proof {
            assert(view_insns(program.insns@) =~= view_insns(prev).push(ins_copies[i2 as int]));
            assert(mid + ins_copies.take(i2 as int + 1) =~= (mid + ins_copies.take(
                i2 as int,
            )).push(ins_copies[i2 as int]));
        }
        i2 = i2 + 1;
    }
    proof {
        assert(ins_copies.take(k as int) =~= ins_copies);
    }
    let ghost prev_b = program.insns@;
    program.emit_insn(Insn::Copy { src_reg: rowid, dst_reg: ins + k, extra_amount: 0 });
    let rec = program.alloc_register();
    program.emit_insn(
        Insn::MakeRecord {
            start_reg: ins,
            count: k + 1,
            dest_reg: rec,
            index_name: Some(name.clone()),
        },
    );
    program.emit_insn(
        Insn::IdxInsert { cursor_id: cid, record_reg: rec, unpacked_start: ins, unpacked_count: k
            + 1 },
    );
    proof {
        assert(view_insns(program.insns@) =~= view_insns(prev_b) + seq![
            InsnS::Copy { src_reg: rowid, dst_reg: (ins + k as int) as usize, extra_amount: 0 },
            InsnS::MakeRecord {
                start_reg: ins,
                count: (k as int + 1) as usize,
                dest_reg: rec,
                index_name: Some(name@),
            },
            InsnS::IdxInsert {
                cursor_id: cid,
                record_reg: rec,
                unpacked_start: ins,
                unpacked_count: (k as int + 1) as usize,
            },
        ]);
        assert(whole =~= del_copies + seq![
            InsnS::Copy { src_reg: rowid, dst_reg: (del + k as int) as usize, extra_amount: 0 },
            InsnS::IdxDelete {
                start_reg: del,
                num_regs: (k as int + 1) as usize,
                cursor_id: cid,
                raise_error_if_no_matching_entry: false,
            },
        ] + ins_copies + seq![
            InsnS::Copy { src_reg: rowid, dst_reg: (ins + k as int) as usize, extra_amount: 0 },
            InsnS::MakeRecord {
                start_reg: ins,
                count: (k as int + 1) as usize,
                dest_reg: rec,
                index_name: Some(name@),
            },
            InsnS::IdxInsert {
                cursor_id: cid,
                record_reg: rec,
                unpacked_start: ins,
                unpacked_count: (k as int + 1) as usize,
            },
        ]);
        assert(view_insns(program.insns@) =~= base + whole);
    }
}

/// Emit the whole index-maintenance section, consuming the cursor list.
fn emit_indexes(
    program: &mut ProgramBuilder,
    schema: &Schema,
    table: &Table,
    cursors: Vec<(String, usize, usize)>,
    before: usize,
    new_start: usize,
    rowid: usize,
)
    requires
        idx_cursors_wf(cursors@, *schema, *table),
        before + table.columns@.len() <= usize::MAX,
        new_start + table.columns@.len() <= usize::MAX,
        old(program).next_reg + idx_regs_s(cursors@, *schema) <= usize::MAX,
    ensures
        view_insns(final(program).insns@) == view_insns(old(program).insns@) + idx_insns_s(
            cursors@,
            *schema,
            *table,
            before,
            new_start,
            rowid,
            old(program).next_reg,
        ),
        final(program).next_reg == old(program).next_reg + idx_regs_s(cursors@, *schema),
        final(program).capture_before == old(program).capture_before,
        final(program).capture_after == old(program).capture_after,
    decreases cursors@.len(),
{
    let ghost cursors0 = cursors@;
    let ghost base = view_insns(program.insns@);
    let ghost base_regs = program.next_reg;
    let mut cursors = cursors;
    if cursors.len() == 0 {
        proof {
            assert(view_insns(program.insns@) =~= base + idx_insns_s(
                cursors0,
                *schema,
                *table,
                before,
                new_start,
                rowid,
                base_regs,
            ));
        }
        return ;
    }
    let (name, _root, cid) = cursors.remove(0);
    proof {
        assert(cursors0[0] == (name, _root, cid));
        assert(cursors0.drop_first() =~= cursors@);
        assert(forall|k2: int|
            0 <= k2 < cursors@.len() ==> #[trigger] cursors@[k2] == cursors0[k2 + 1]);
        lemma_idx_regs_nonneg(cursors@, *schema);
    }
    emit_one_index(program, schema, table, &name, cid, before, new_start, rowid);
    emit_indexes(program, schema, table, cursors, before, new_start, rowid);
    proof {
        assert(view_insns(program.insns@) =~= base + idx_insns_s(
            cursors0,
            *schema,
            *table,
            before,
            new_start,
            rowid,
            base_regs,
        ));
    }
}

/// The emitter's opening phases: seek the conflicting row, snapshot the
/// current image, copy the before image when one is needed, initialize the
/// new image, and evaluate the optional `WHERE` guard.  Returns the starts
/// of the current, before and new register ranges.
#[verifier::rlimit(100)]
fn emit_upsert_prologue(
    program: &mut ProgramBuilder,
    table: &Table,
    tbl_cursor_id: usize,
    conflict_rowid_reg: usize,
    where_clause: Option<Expr>,
    need_before: bool,
    row_done_label: BranchOffset,
) -> (r: (usize, usize, usize))
    requires
        table.columns@.len() >= 1,
        old(program).next_reg + 2 * table.columns@.len() + (if need_before {
            table.columns@.len() as int
        } else {
            0int
        }) + (if where_clause is Some {
            1int
        } else {
            0int
        }) <= usize::MAX,
    ensures
        ({
            let n = table.columns@.len() as int;
            let r0 = old(program).next_reg;
            let new_start = if need_before {
                (r0 + 2 * n) as usize
            } else {
                (r0 + n) as usize
            };
            let after_new = (new_start + n) as usize;
            &&& r.0 == r0
            &&& r.1 == (r0 + n) as usize
            &&& r.2 == new_start
            &&& final(program).next_reg == r0 + n + (if need_before {
                n
            } else {
                0int
            }) + n + (if where_clause is Some {
                1int
            } else {
                0int
            })
            &&& view_insns(final(program).insns@) == view_insns(old(program).insns@) + (seq![
                InsnS::SeekRowid {
                    cursor_id: tbl_cursor_id,
                    src_reg: conflict_rowid_reg,
                    target_pc: row_done_label,
                },
            ] + snapshot_insns_s(*table, tbl_cursor_id, r0) + (if need_before {
                seq![
                    InsnS::Copy {
                        src_reg: r0,
                        dst_reg: (r0 + n) as usize,
                        extra_amount: (n - 1) as usize,
                    },
                ]
            } else {
                Seq::empty()
            }) + seq![
                InsnS::Copy { src_reg: r0, dst_reg: new_start, extra_amount: (n - 1) as usize },
            ] + (match where_clause {
                Some(w) => seq![
                    InsnS::Eval {
                        expr: rewrite_target_s(
                            view_expr(w),
                            *table,
                            r0,
                            conflict_rowid_reg,
                        ),
                        dest: after_new,
                        no_constant_opt: false,
                    },
                    InsnS::IfNot {
                        reg: after_new,
                        target_pc: row_done_label,
                        jump_if_null: true,
                    },
                ],
                None => Seq::empty(),
            }))
        }),
        final(program).capture_before == old(program).capture_before,
        final(program).capture_after == old(program).capture_after,
{
    broadcast use crate::program::lemma_view_insns_push_auto;
    broadcast use crate::program::lemma_push_is_concat;

    let ghost r0 = program.next_reg;
    let ghost v0 = view_insns(program.insns@);
    let ghost where_s: Option<ExprS> = match &where_clause {
        Some(w) => Some(view_expr(*w)),
        None => None,
    };
    let n = table.columns.len();

    program.emit_insn(
        Insn::SeekRowid {
            cursor_id: tbl_cursor_id,
            src_reg: conflict_rowid_reg,
            target_pc: row_done_label,
        },
    );
    let ghost p1 = seq![
        InsnS::SeekRowid {
            cursor_id: tbl_cursor_id,
            src_reg: conflict_rowid_reg,
            target_pc: row_done_label,
        },
    ];
    proof {
        assert(view_insns(program.insns@) == v0 + p1);
    }

    let current_start = program.alloc_registers(n);
    emit_snapshot(program, table, tbl_cursor_id, current_start);
    let ghost p2 = snapshot_insns_s(*table, tbl_cursor_id, current_start);
    proof {
        assert(view_insns(program.insns@) == v0 + p1 + p2);
    }

    let before_start = if need_before {
        let s = program.alloc_registers(n);
        program.emit_insn(Insn::Copy { src_reg: current_start, dst_reg: s, extra_amount: n - 1 });
        s
    } else {
        current_start + n
    };
    let ghost p3: Seq<InsnS> = if need_before {
        seq![
            InsnS::Copy {
                src_reg: current_start,
                dst_reg: before_start,
                extra_amount: (n - 1) as usize,
            },
        ]
    } else {
        Seq::empty()
    };
    proof {
        if !need_before {
            crate::program::lemma_concat_empty_insns(v0 + p1 + p2);
        }
        assert(view_insns(program.insns@) == v0 + p1 + p2 + p3);
    }

    let new_start = program.alloc_registers(n);
    program.emit_insn(
        Insn::Copy { src_reg: current_start, dst_reg: new_start, extra_amount: n - 1 },
    );
    let ghost p4 = seq![
        InsnS::Copy {
            src_reg: current_start,
            dst_reg: new_start,
            extra_amount: (n - 1) as usize,
        },
    ];
    proof {
        assert(view_insns(program.insns@) == v0 + p1 + p2 + p3 + p4);
    }

    let ghost mut p5: Seq<InsnS> = Seq::empty();
    match where_clause {
        Some(pred) => {
            let rp = rewrite_target_cols_to_current_row(
                pred,
                table,
                current_start,
                conflict_rowid_reg,
            );
            let ghost rp_s = view_expr(rp);
            let pr = program.alloc_register();
            translate_expr(program, rp, pr);
            program.emit_insn(
                Insn::IfNot { reg: pr, target_pc: row_done_label, jump_if_null: true },
            );
            proof {
                p5 = seq![
                    InsnS::Eval { expr: rp_s, dest: pr, no_constant_opt: false },
                    InsnS::IfNot { reg: pr, target_pc: row_done_label, jump_if_null: true },
                ];
            }
        },
        None => {},
    }
    proof {
        if where_s is None {
            crate::program::lemma_concat_empty_insns(v0 + p1 + p2 + p3 + p4);
        }
        assert(view_insns(program.insns@) == v0 + p1 + p2 + p3 + p4 + p5);
    }
    (current_start, before_start, new_start)
}

/// The closing phases' instruction sequence, starting with register
/// `r_mid` free: the optional strict-typing check, the index sections, the
/// row rewrite, change capture, `RETURNING` and the completion jump.
pub open spec fn epilogue_insns_s(
    schema: Schema,
    table: Table,
    tbl_cursor_id: usize,
    rowid: usize,
    idx_cursors: Seq<(String, usize, usize)>,
    ret_count: int,
    cdc: Option<usize>,
    row_done: BranchOffset,
    before: usize,
    new_start: usize,
    r_mid: usize,
    capture_before: bool,
    capture_after: bool,
) -> Seq<InsnS> {
    let n = table.columns@.len() as int;
    let rec = (r_mid + idx_regs_s(idx_cursors, schema)) as usize;
    (if table.is_strict {
        seq![InsnS::TypeCheck { start_reg: new_start, count: n as usize, check_generated: true }]
    } else {
        Seq::empty()
    }) + (if cdc is Some || idx_cursors.len() > 0 {
        idx_insns_s(idx_cursors, schema, table, before, new_start, rowid, r_mid)
    } else {
        Seq::empty()
    }) + seq![
        InsnS::MakeRecord { start_reg: new_start, count: n as usize, dest_reg: rec, index_name: None },
        InsnS::Insert { cursor: tbl_cursor_id, key_reg: rowid, record_reg: rec, table_name: table.name@ },
    ] + cdc_insns_s(table, tbl_cursor_id, rowid, new_start, rec, cdc, capture_before, capture_after)
        + (if ret_count > 0 {
        seq![
            InsnS::EmitReturning { rowid_reg: rowid, columns_start: new_start, num_columns: n as usize },
        ]
    } else {
        Seq::empty()
    }) + seq![InsnS::Goto { target_pc: row_done }]
}

/// The emitter's closing phases: the strict-typing check, index
/// maintenance, the row rewrite, change capture, `RETURNING` and the
/// completion jump.
#[verifier::rlimit(100)]
fn emit_upsert_epilogue(
    program: &mut ProgramBuilder,
    schema: &Schema,
    table: &Table,
    tbl_cursor_id: usize,
    conflict_rowid_reg: usize,
    idx_cursors: Vec<(String, usize, usize)>,
    returning_len: usize,
    cdc_cursor_id: Option<usize>,
    row_done_label: BranchOffset,
    need_before: bool,
    before_start: usize,
    new_start: usize,
)
    requires
        need_before == (cdc_cursor_id is Some || idx_cursors@.len() > 0),
        idx_cursors_wf(idx_cursors@, *schema, *table),
        before_start + table.columns@.len() <= usize::MAX,
        new_start + table.columns@.len() <= usize::MAX,
        old(program).next_reg + idx_regs_s(idx_cursors@, *schema) + 1 + (if cdc_cursor_id
            is Some && old(program).capture_after {
            1int
        } else {
            0int
        }) + (if cdc_cursor_id is Some && old(program).capture_before {
            1int
        } else {
            0int
        }) <= usize::MAX,
    ensures
        view_insns(final(program).insns@) == view_insns(old(program).insns@) + epilogue_insns_s(
            *schema,
            *table,
            tbl_cursor_id,
            conflict_rowid_reg,
            idx_cursors@,
            returning_len as int,
            cdc_cursor_id,
            row_done_label,
            before_start,
            new_start,
            old(program).next_reg,
            old(program).capture_before,
            old(program).capture_after,
        ),
        final(program).next_reg == old(program).next_reg + idx_regs_s(idx_cursors@, *schema) + 1
            + (if cdc_cursor_id is Some && old(program).capture_after {
            1int
        } else {
            0int
        }) + (if cdc_cursor_id is Some && old(program).capture_before {
            1int
        } else {
            0int
        }),
        final(program).capture_before == old(program).capture_before,
        final(program).capture_after == old(program).capture_after,
{
    broadcast use crate::program::lemma_view_insns_push_auto;
    broadcast use crate::program::lemma_push_is_concat;

    let ghost v0 = view_insns(program.insns@);
    let ghost nb_s = cdc_cursor_id is Some || idx_cursors@.len() > 0;
    proof {
        lemma_idx_regs_nonneg(idx_cursors@, *schema);
    }
    let n = table.columns.len();

    if table.is_strict {
        program.emit_insn(
            Insn::TypeCheck { start_reg: new_start, count: n, check_generated: true },
        );
    }
    let ghost p7: Seq<InsnS> = if table.is_strict {
        seq![InsnS::TypeCheck { start_reg: new_start, count: n, check_generated: true }]
    } else {
        Seq::empty()
    };
    proof {
        if !table.is_strict {
            crate::program::lemma_concat_empty_insns(v0);
        }
        assert(view_insns(program.insns@) == v0 + p7);
    }

    let ghost idx_base = program.next_reg;
    if need_before {
        emit_indexes(
            program,
            schema,
            table,
            idx_cursors,
            before_start,
            new_start,
            conflict_rowid_reg,
        );
    }
    let ghost p8: Seq<InsnS> = if nb_s {
        idx_insns_s(
            idx_cursors@,
            *schema,
            *table,
            before_start,
            new_start,
            conflict_rowid_reg,
            idx_base,
        )
    } else {
        Seq::empty()
    };
    proof {
        if !nb_s {
            crate::program::lemma_concat_empty_insns(v0 + p7);
        }
        assert(view_insns(program.insns@) == v0 + p7 + p8);
    }

    let rec = program.alloc_register();
    program.emit_insn(
        Insn::MakeRecord { start_reg: new_start, count: n, dest_reg: rec, index_name: None },
    );
    program.emit_insn(
        Insn::Insert {
            cursor: tbl_cursor_id,
            key_reg: conflict_rowid_reg,
            record_reg: rec,
            table_name: table.name.clone(),
        },
    );
    let ghost p9 = seq![
        InsnS::MakeRecord { start_reg: new_start, count: n, dest_reg: rec, index_name: None },
        InsnS::Insert {
            cursor: tbl_cursor_id,
            key_reg: conflict_rowid_reg,
            record_reg: rec,
            table_name: table.name@,
        },
    ];
    proof {
        assert(view_insns(program.insns@) == v0 + p7 + p8 + p9);
    }

    match cdc_cursor_id {
        Some(cid) => {
            let after_rec = if program.capture_after {
                Some(emit_cdc_patch_record(program, table, new_start, rec, conflict_rowid_reg))
            } else {
                None
            };
            let before_rec = if program.capture_before {
                Some(emit_cdc_full_record(program, tbl_cursor_id, conflict_rowid_reg))
            } else {
                None
            };
            emit_cdc_insns(
                program,
                OperationMode::Update,
                cid,
                conflict_rowid_reg,
                before_rec,
                after_rec,
                table,
            );
        },
        None => {},
    }
    let ghost p10 = cdc_insns_s(
        *table,
        tbl_cursor_id,
        conflict_rowid_reg,
        new_start,
        rec,
        cdc_cursor_id,
        old(program).capture_before,
        old(program).capture_after,
    );
    proof {
        if cdc_cursor_id is None {
            crate::program::lemma_concat_empty_insns(v0 + p7 + p8 + p9);
        }
        assert(view_insns(program.insns@) == v0 + p7 + p8 + p9 + p10);
    }

    if returning_len > 0 {
        emit_returning_results(program, conflict_rowid_reg, new_start, n);
    }
    let ghost p11: Seq<InsnS> = if returning_len > 0 {
        seq![
            InsnS::EmitReturning {
                rowid_reg: conflict_rowid_reg,
                columns_start: new_start,
                num_columns: n,
            },
        ]
    } else {
        Seq::empty()
    };
    proof {
        if returning_len == 0 {
            crate::program::lemma_concat_empty_insns(v0 + p7 + p8 + p9 + p10);
        }
        assert(view_insns(program.insns@) == v0 + p7 + p8 + p9 + p10 + p11);
    }

    program.emit_insn(Insn::Goto { target_pc: row_done_label });
    let ghost p12 = seq![InsnS::Goto { target_pc: row_done_label }];
    proof {
        assert(view_insns(program.insns@) == v0 + p7 + p8 + p9 + p10 + p11 + p12);
        crate::program::lemma_assemble_insns_six(v0, p7, p8, p9, p10, p11, p12);
        assert(epilogue_insns_s(
            *schema,
            *table,
            tbl_cursor_id,
            conflict_rowid_reg,
            idx_cursors@,
            returning_len as int,
            cdc_cursor_id,
            row_done_label,
            before_start,
            new_start,
            old(program).next_reg,
            old(program).capture_before,
            old(program).capture_after,
        ) == p7 + p8 + p9 + p10 + p11 + p12);
    }
}

/// Emit the complete `DO UPDATE` action for one conflicting row.  The
/// instruction sequence appended is exactly [`upsert_insns_s`]; the
/// registers consumed are exactly [`upsert_regs_s`].
#[verifier::rlimit(100)]
#[verifier::spinoff_prover]
pub fn emit_upsert(
    program: &mut ProgramBuilder,
    schema: &Schema,
    table: &Table,
    tbl_cursor_id: usize,
    conflict_rowid_reg: usize,
    set_pairs: Vec<(usize, Expr)>,
    where_clause: Option<Expr>,
    idx_cursors: Vec<(String, usize, usize)>,
    returning: &Vec<Expr>,
    cdc_cursor_id: Option<usize>,
    row_done_label: BranchOffset,
)
    requires
        table.columns@.len() >= 1,
        old(program).next_reg + upsert_regs_s(
            *schema,
            *table,
            idx_cursors@,
            where_clause is Some,
            cdc_cursor_id,
            old(program).capture_before,
            old(program).capture_after,
        ) <= usize::MAX,
        forall|k: int|
            0 <= k < set_pairs@.len() ==> (#[trigger] set_pairs@[k]).0 < table.columns@.len(),
        idx_cursors_wf(idx_cursors@, *schema, *table),
    ensures
        view_insns(final(program).insns@) == view_insns(old(program).insns@) + upsert_insns_s(
            *schema,
            *table,
            tbl_cursor_id,
            conflict_rowid_reg,
            view_set_pairs(set_pairs@),
            match where_clause {
                Some(w) => Some(view_expr(w)),
                None => None,
            },
            idx_cursors@,
            returning@.len() as int,
            cdc_cursor_id,
            row_done_label,
            old(program).capture_before,
            old(program).capture_after,
            old(program).next_reg,
        ),
        final(program).next_reg == old(program).next_reg + upsert_regs_s(
            *schema,
            *table,
            idx_cursors@,
            where_clause is Some,
            cdc_cursor_id,
            old(program).capture_before,
            old(program).capture_after,
        ),
        final(program).capture_before == old(program).capture_before,
        final(program).capture_after == old(program).capture_after,
{
    let ghost r0 = program.next_reg;
    let ghost v0 = view_insns(program.insns@);
    let ghost where_s: Option<ExprS> = match &where_clause {
        Some(w) => Some(view_expr(*w)),
        None => None,
    };
    let ghost nb_s = cdc_cursor_id is Some || idx_cursors@.len() > 0;
    proof {
        lemma_idx_regs_nonneg(idx_cursors@, *schema);
    }
    let n = table.columns.len();
    let need_before = cdc_cursor_id.is_some() || idx_cursors.len() > 0;

    let (current_start, before_start, new_start) = emit_upsert_prologue(
        program,
        table,
        tbl_cursor_id,
        conflict_rowid_reg,
        where_clause,
        need_before,
        row_done_label,
    );
    let ghost head = seq![
        InsnS::SeekRowid {
            cursor_id: tbl_cursor_id,
            src_reg: conflict_rowid_reg,
            target_pc: row_done_label,
        },
    ] + snapshot_insns_s(*table, tbl_cursor_id, r0) + (if nb_s {
        seq![
            InsnS::Copy {
                src_reg: r0,
                dst_reg: (r0 + n) as usize,
                extra_amount: (n - 1) as usize,
            },
        ]
    } else {
        Seq::empty()
    }) + seq![
        InsnS::Copy { src_reg: r0, dst_reg: new_start, extra_amount: (n - 1) as usize },
    ] + (match where_s {
        Some(w) => seq![
            InsnS::Eval {
                expr: rewrite_target_s(w, *table, r0, conflict_rowid_reg),
                dest: (new_start + n) as usize,
                no_constant_opt: false,
            },
            InsnS::IfNot {
                reg: (new_start + n) as usize,
                target_pc: row_done_label,
                jump_if_null: true,
            },
        ],
        None => Seq::empty(),
    });
    proof {
        assert(view_insns(program.insns@) == v0 + head);
    }

    emit_set_pairs(program, table, set_pairs, current_start, conflict_rowid_reg, new_start);
    let ghost p6 = set_insns_s(
        view_set_pairs(set_pairs@),
        *table,
        current_start,
        conflict_rowid_reg,
        new_start,
    );
    proof {
        assert(view_insns(program.insns@) == v0 + head + p6);
    }

    let ghost mid_regs = program.next_reg;
    emit_upsert_epilogue(
        program,
        schema,
        table,
        tbl_cursor_id,
        conflict_rowid_reg,
        idx_cursors,
        returning.len(),
        cdc_cursor_id,
        row_done_label,
        need_before,
        before_start,
        new_start,
    );
    let ghost rec = (mid_regs + idx_regs_s(idx_cursors@, *schema)) as usize;
    let ghost p7: Seq<InsnS> = if table.is_strict {
        seq![InsnS::TypeCheck { start_reg: new_start, count: n, check_generated: true }]
    } else {
        Seq::empty()
    };
    let ghost p8: Seq<InsnS> = if nb_s {
        idx_insns_s(
            idx_cursors@,
            *schema,
            *table,
            before_start,
            new_start,
            conflict_rowid_reg,
            mid_regs,
        )
    } else {
        Seq::empty()
    };
    let ghost p9 = seq![
        InsnS::MakeRecord { start_reg: new_start, count: n, dest_reg: rec, index_name: None },
        InsnS::Insert {
            cursor: tbl_cursor_id,
            key_reg: conflict_rowid_reg,
            record_reg: rec,
            table_name: table.name@,
        },
    ];
    let ghost p10 = cdc_insns_s(
        *table,
        tbl_cursor_id,
        conflict_rowid_reg,
        new_start,
        rec,
        cdc_cursor_id,
        old(program).capture_before,
        old(program).capture_after,
    );
    let ghost p11: Seq<InsnS> = if returning@.len() > 0 {
        seq![
            InsnS::EmitReturning {
                rowid_reg: conflict_rowid_reg,
                columns_start: new_start,
                num_columns: n,
            },
        ]
    } else {
        Seq::empty()
    };
    let ghost p12 = seq![InsnS::Goto { target_pc: row_done_label }];
    proof {
        assert(epilogue_insns_s(
            *schema,
            *table,
            tbl_cursor_id,
            conflict_rowid_reg,
            idx_cursors@,
            returning@.len() as int,
            cdc_cursor_id,
            row_done_label,
            before_start,
            new_start,
            mid_regs,
            old(program).capture_before,
            old(program).capture_after,
        ) == p7 + p8 + p9 + p10 + p11 + p12);
        assert(view_insns(program.insns@) == v0 + head + p6 + (p7 + p8 + p9 + p10 + p11 + p12));
        crate::program::lemma_assemble_insns_six(v0 + head + p6, p7, p8, p9, p10, p11, p12);
        assert(view_insns(program.insns@) == v0 + head + p6 + p7 + p8 + p9 + p10 + p11 + p12);
        crate::program::lemma_assemble_insns_eight(v0, head, p6, p7, p8, p9, p10, p11, p12);
        assert(upsert_insns_s(
            *schema,
            *table,
            tbl_cursor_id,
            conflict_rowid_reg,
            view_set_pairs(set_pairs@),
            where_s,
            idx_cursors@,
            returning@.len() as int,
            cdc_cursor_id,
            row_done_label,
            old(program).capture_before,
            old(program).capture_after,
            r0,
        ) == head + p6 + p7 + p8 + p9 + p10 + p11 + p12);
    }
}

/// An element of the left part is an element of a concatenation.
proof fn lemma_contains_concat_left(a: Seq<InsnS>, b: Seq<InsnS>, x: InsnS)
    requires
        a.contains(x),
    ensures
        (a + b).contains(x),
{
    let j = choose|j: int| 0 <= j < a.len() && a[j] == x;
    assert((a + b)[j] == x);
}

/// An element of the right part is an element of a concatenation.
proof fn lemma_contains_concat_right(a: Seq<InsnS>, b: Seq<InsnS>, x: InsnS)
    requires
        b.contains(x),
    ensures
        (a + b).contains(x),
{
    let j = choose|j: int| 0 <= j < b.len() && b[j] == x;
    assert((a + b)[a.len() + j] == x);
}

/// Every `SET` assignment to a `NOT NULL` column that is not a rowid
/// alias carries its abort-on-null check in the `SET` section.
proof fn lemma_set_insns_not_null_checked(
    pairs: Seq<(usize, ExprS)>,
    table: Table,
    current: usize,
    rowid: usize,
    new_start: usize,
    k: int,
)
    requires
        0 <= k < pairs.len(),
        table.columns@[pairs[k].0 as int].notnull,
        !table.columns@[pairs[k].0 as int].is_rowid_alias,
    ensures
        set_insns_s(pairs, table, current, rowid, new_start).contains(
            InsnS::HaltIfNull {
                target_reg: (new_start + pairs[k].0) as usize,
                table_name: table.name@,
                column_name: table.columns@[pairs[k].0 as int].name@,
            },
        ),
    decreases pairs.len(),
{
    let whole = set_insns_s(pairs, table, current, rowid, new_start);
    let x = InsnS::HaltIfNull {
        target_reg: (new_start + pairs[k].0) as usize,
        table_name: table.name@,
        column_name: table.columns@[pairs[k].0 as int].name@,
    };
    if k == 0 {
        assert(whole[1] == x);
    } else {
        lemma_set_insns_not_null_checked(
            pairs.drop_first(),
            table,
            current,
            rowid,
            new_start,
            k - 1,
        );
        assert(pairs.drop_first()[k - 1] == pairs[k]);
        let ci = pairs[0].0;
        let col = table.columns@[ci as int];
        let head = seq![
            InsnS::Eval {
                expr: rewrite_target_s(pairs[0].1, table, current, rowid),
                dest: (new_start + ci) as usize,
                no_constant_opt: true,
            },
        ];
        let checked = if col.notnull && !col.is_rowid_alias {
            head + seq![
                InsnS::HaltIfNull {
                    target_reg: (new_start + ci) as usize,
                    table_name: table.name@,
                    column_name: col.name@,
                },
            ]
        } else {
            head
        };
        lemma_contains_concat_right(
            checked,
            set_insns_s(pairs.drop_first(), table, current, rowid, new_start),
            x,
        );
    }
}

/// A `SET` assignment to a `NOT NULL` column that is not a rowid alias
/// always aborts on a null value: whether or not a `WHERE` guard is
/// present, the emitted sequence contains the abort-on-null instruction
/// naming `table.column`, aimed at the column's slot in the *new* image.
pub proof fn lemma_upsert_not_null_check_present(
    schema: Schema,
    table: Table,
    tbl_cursor_id: usize,
    rowid: usize,
    set_pairs: Seq<(usize, ExprS)>,
    where_s: Option<ExprS>,
    idx_cursors: Seq<(String, usize, usize)>,
    ret_count: int,
    cdc: Option<usize>,
    row_done: BranchOffset,
    capture_before: bool,
    capture_after: bool,
    r0: usize,
    k: int,
)
    requires
        0 <= k < set_pairs.len(),
        table.columns@[set_pairs[k].0 as int].notnull,
        !table.columns@[set_pairs[k].0 as int].is_rowid_alias,
    ensures
        ({
            let n = table.columns@.len() as int;
            let nb = cdc is Some || idx_cursors.len() > 0;
            let new_start = if nb {
                (r0 + 2 * n) as usize
            } else {
                (r0 + n) as usize
            };
            upsert_insns_s(
                schema,
                table,
                tbl_cursor_id,
                rowid,
                set_pairs,
                where_s,
                idx_cursors,
                ret_count,
                cdc,
                row_done,
                capture_before,
                capture_after,
                r0,
            ).contains(
                InsnS::HaltIfNull {
                    target_reg: (new_start + set_pairs[k].0) as usize,
                    table_name: table.name@,
                    column_name: table.columns@[set_pairs[k].0 as int].name@,
                },
            )
        }),
{
    let n = table.columns@.len() as int;
    let nb = cdc is Some || idx_cursors.len() > 0;
    let current = r0;
    let before = (r0 + n) as usize;
    let new_start = if nb {
        (r0 + 2 * n) as usize
    } else {
        (r0 + n) as usize
    };
    let after_new = (new_start + n) as usize;
    let idx_base = if where_s is Some {
        (after_new + 1) as usize
    } else {
        after_new
    };
    let rec = (idx_base + idx_regs_s(idx_cursors, schema)) as usize;
    let x = InsnS::HaltIfNull {
        target_reg: (new_start + set_pairs[k].0) as usize,
        table_name: table.name@,
        column_name: table.columns@[set_pairs[k].0 as int].name@,
    };
    lemma_set_insns_not_null_checked(set_pairs, table, current, rowid, new_start, k);
    let p1 = seq![InsnS::SeekRowid { cursor_id: tbl_cursor_id, src_reg: rowid, target_pc: row_done }];
    let p2 = snapshot_insns_s(table, tbl_cursor_id, current);
    let p3: Seq<InsnS> = if nb {
        seq![
            InsnS::Copy { src_reg: current, dst_reg: before, extra_amount: (n - 1) as usize },
        ]
    } else {
        Seq::empty()
    };
    let p4 = seq![
        InsnS::Copy { src_reg: current, dst_reg: new_start, extra_amount: (n - 1) as usize },
    ];
    let p5: Seq<InsnS> = match where_s {
        Some(w) => seq![
            InsnS::Eval {
                expr: rewrite_target_s(w, table, current, rowid),
                dest: after_new,
                no_constant_opt: false,
            },
            InsnS::IfNot { reg: after_new, target_pc: row_done, jump_if_null: true },
        ],
        None => Seq::empty(),
    };
    let p6 = set_insns_s(set_pairs, table, current, rowid, new_start);
    lemma_contains_concat_right(p1 + p2 + p3 + p4 + p5, p6, x);
    let p7: Seq<InsnS> = if table.is_strict {
        seq![InsnS::TypeCheck { start_reg: new_start, count: n as usize, check_generated: true }]
    } else {
        Seq::empty()
    };
    let p8: Seq<InsnS> = if nb {
        idx_insns_s(idx_cursors, schema, table, before, new_start, rowid, idx_base)
    } else {
        Seq::empty()
    };
    let p9 = seq![
        InsnS::MakeRecord { start_reg: new_start, count: n as usize, dest_reg: rec, index_name: None },
        InsnS::Insert { cursor: tbl_cursor_id, key_reg: rowid, record_reg: rec, table_name: table.name@ },
    ];
    let p10 = cdc_insns_s(table, tbl_cursor_id, rowid, new_start, rec, cdc, capture_before, capture_after);
    let p11: Seq<InsnS> = if ret_count > 0 {
        seq![
            InsnS::EmitReturning { rowid_reg: rowid, columns_start: new_start, num_columns: n as usize },
        ]
    } else {
        Seq::empty()
    };
    let p12 = seq![InsnS::Goto { target_pc: row_done }];
    lemma_contains_concat_left(p1 + p2 + p3 + p4 + p5 + p6, p7, x);
    lemma_contains_concat_left(p1 + p2 + p3 + p4 + p5 + p6 + p7, p8, x);
    lemma_contains_concat_left(p1 + p2 + p3 + p4 + p5 + p6 + p7 + p8, p9, x);
    lemma_contains_concat_left(p1 + p2 + p3 + p4 + p5 + p6 + p7 + p8 + p9, p10, x);
    lemma_contains_concat_left(p1 + p2 + p3 + p4 + p5 + p6 + p7 + p8 + p9 + p10, p11, x);
    lemma_contains_concat_left(p1 + p2 + p3 + p4 + p5 + p6 + p7 + p8 + p9 + p10 + p11, p12, x);
}

} // verus!
