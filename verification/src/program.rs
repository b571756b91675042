//! The instruction stream and register allocator the emitter writes into.
//!
//! The enclosing statement compiler owns the real program builder; this
//! crate appends to it and never rewinds it.  Registers are allocated
//! monotonically and never reused within one emission.  Work done by
//! collaborators outside this component — the expression translator, the
//! change-capture record builders and the `RETURNING` emitter — appears in
//! the stream as one instruction each, carrying exactly what the
//! collaborator consumes.

use vstd::prelude::*;

use crate::expr::{view_expr, Expr, ExprS};
use crate::schema::Table;

verus! {

/// A branch target, resolved by the enclosing compiler.
#[derive(Debug, Clone, Copy, PartialEq, Eq, Structural)]
pub struct BranchOffset {
    pub id: usize,
}

/// The operation kind of a change-capture record.
#[derive(Debug, Clone, Copy, PartialEq, Eq, Structural)]
pub enum OperationMode {
    Insert,
    Update,
    Delete,
}

/// One instruction of the emitted program.
#[derive(Debug, PartialEq, Eq)]
pub enum Insn {
    /// Seek the row with the given rowid; jump when it is gone.
    SeekRowid { cursor_id: usize, src_reg: usize, target_pc: BranchOffset },
    /// Load the row's key.
    RowId { cursor_id: usize, dest: usize },
    /// Load one stored column value.
    Column { cursor_id: usize, column: usize, dest: usize },
    /// Copy `extra_amount + 1` consecutive registers.
    Copy { src_reg: usize, dst_reg: usize, extra_amount: usize },
    /// The expression translator's output: compute `expr` into `dest`.
    /// With `no_constant_opt` the destination register is treated as
    /// volatile, because the expression may read it.
    Eval { expr: Expr, dest: usize, no_constant_opt: bool },
    /// Branch when the register is false (or null, if `jump_if_null`).
    IfNot { reg: usize, target_pc: BranchOffset, jump_if_null: bool },
    /// Abort the statement with a NOT NULL violation naming
    /// `table.column` when the register holds null.
    HaltIfNull { target_reg: usize, table_name: String, column_name: String },
    /// Strict-typing check over a register range.
    TypeCheck { start_reg: usize, count: usize, check_generated: bool },
    /// Delete an index entry built from a register range.
    IdxDelete {
        start_reg: usize,
        num_regs: usize,
        cursor_id: usize,
        raise_error_if_no_matching_entry: bool,
    },
    /// Serialize a register range into a record.
    MakeRecord { start_reg: usize, count: usize, dest_reg: usize, index_name: Option<String> },
    /// Insert an index entry from a serialized record.
    IdxInsert { cursor_id: usize, record_reg: usize, unpacked_start: usize, unpacked_count: usize },
    /// Write the table row under its key.
    Insert { cursor: usize, key_reg: usize, record_reg: usize, table_name: String },
    /// The change-capture builder's after-image record.
    CdcPatchRecord {
        table_name: String,
        new_start: usize,
        record_reg: usize,
        rowid_reg: usize,
        dest: usize,
    },
    /// The change-capture builder's before-image record, re-read from the
    /// live row.
    CdcFullRecord { cursor_id: usize, rowid_reg: usize, dest: usize },
    /// One change-capture record.
    CdcWrite {
        mode: OperationMode,
        cursor_id: usize,
        rowid_reg: usize,
        before_reg: Option<usize>,
        after_reg: Option<usize>,
        table_name: String,
    },
    /// The `RETURNING` emitter's row descriptor.
    EmitReturning { rowid_reg: usize, columns_start: usize, num_columns: usize },
    /// Unconditional jump.
    Goto { target_pc: BranchOffset },
}

/// The model of an [`Insn`]: strings become character sequences and the
/// expression payload becomes its model.
pub enum InsnS {
    SeekRowid { cursor_id: usize, src_reg: usize, target_pc: BranchOffset },
    RowId { cursor_id: usize, dest: usize },
    Column { cursor_id: usize, column: usize, dest: usize },
    Copy { src_reg: usize, dst_reg: usize, extra_amount: usize },
    Eval { expr: ExprS, dest: usize, no_constant_opt: bool },
    IfNot { reg: usize, target_pc: BranchOffset, jump_if_null: bool },
    HaltIfNull { target_reg: usize, table_name: Seq<char>, column_name: Seq<char> },
    TypeCheck { start_reg: usize, count: usize, check_generated: bool },
    IdxDelete {
        start_reg: usize,
        num_regs: usize,
        cursor_id: usize,
        raise_error_if_no_matching_entry: bool,
    },
    MakeRecord { start_reg: usize, count: usize, dest_reg: usize, index_name: Option<Seq<char>> },
    IdxInsert { cursor_id: usize, record_reg: usize, unpacked_start: usize, unpacked_count: usize },
    Insert { cursor: usize, key_reg: usize, record_reg: usize, table_name: Seq<char> },
    CdcPatchRecord {
        table_name: Seq<char>,
        new_start: usize,
        record_reg: usize,
        rowid_reg: usize,
        dest: usize,
    },
    CdcFullRecord { cursor_id: usize, rowid_reg: usize, dest: usize },
    CdcWrite {
        mode: OperationMode,
        cursor_id: usize,
        rowid_reg: usize,
        before_reg: Option<usize>,
        after_reg: Option<usize>,
        table_name: Seq<char>,
    },
    EmitReturning { rowid_reg: usize, columns_start: usize, num_columns: usize },
    Goto { target_pc: BranchOffset },
}

/// The model of one instruction.
pub open spec fn view_insn(i: Insn) -> InsnS {
    match i {
        Insn::SeekRowid { cursor_id, src_reg, target_pc } => InsnS::SeekRowid {
            cursor_id,
            src_reg,
            target_pc,
        },
        Insn::RowId { cursor_id, dest } => InsnS::RowId { cursor_id, dest },
        Insn::Column { cursor_id, column, dest } => InsnS::Column { cursor_id, column, dest },
        Insn::Copy { src_reg, dst_reg, extra_amount } => InsnS::Copy {
            src_reg,
            dst_reg,
            extra_amount,
        },
        Insn::Eval { expr, dest, no_constant_opt } => InsnS::Eval {
            expr: view_expr(expr),
            dest,
            no_constant_opt,
        },
        Insn::IfNot { reg, target_pc, jump_if_null } => InsnS::IfNot {
            reg,
            target_pc,
            jump_if_null,
        },
        Insn::HaltIfNull { target_reg, table_name, column_name } => InsnS::HaltIfNull {
            target_reg,
            table_name: table_name@,
            column_name: column_name@,
        },
        Insn::TypeCheck { start_reg, count, check_generated } => InsnS::TypeCheck {
            start_reg,
            count,
            check_generated,
        },
        Insn::IdxDelete { start_reg, num_regs, cursor_id, raise_error_if_no_matching_entry } => InsnS::IdxDelete {
            start_reg,
            num_regs,
            cursor_id,
            raise_error_if_no_matching_entry,
        },
        Insn::MakeRecord { start_reg, count, dest_reg, index_name } => InsnS::MakeRecord {
            start_reg,
            count,
            dest_reg,
            index_name: match index_name {
                Some(n) => Some(n@),
                None => None,
            },
        },
        Insn::IdxInsert { cursor_id, record_reg, unpacked_start, unpacked_count } => InsnS::IdxInsert {
            cursor_id,
            record_reg,
            unpacked_start,
            unpacked_count,
        },
        Insn::Insert { cursor, key_reg, record_reg, table_name } => InsnS::Insert {
            cursor,
            key_reg,
            record_reg,
            table_name: table_name@,
        },
        Insn::CdcPatchRecord { table_name, new_start, record_reg, rowid_reg, dest } => InsnS::CdcPatchRecord {
            table_name: table_name@,
            new_start,
            record_reg,
            rowid_reg,
            dest,
        },
        Insn::CdcFullRecord { cursor_id, rowid_reg, dest } => InsnS::CdcFullRecord {
            cursor_id,
            rowid_reg,
            dest,
        },
        Insn::CdcWrite { mode, cursor_id, rowid_reg, before_reg, after_reg, table_name } => InsnS::CdcWrite {
            mode,
            cursor_id,
            rowid_reg,
            before_reg,
            after_reg,
            table_name: table_name@,
        },
        Insn::EmitReturning { rowid_reg, columns_start, num_columns } => InsnS::EmitReturning {
            rowid_reg,
            columns_start,
            num_columns,
        },
        Insn::Goto { target_pc } => InsnS::Goto { target_pc },
    }
}

impl View for Insn {
    type V = InsnS;

    open spec fn view(&self) -> InsnS {
        view_insn(*self)
    }
}

/// The model of an instruction sequence.
pub open spec fn view_insns(s: Seq<Insn>) -> Seq<InsnS> {
    Seq::new(s.len(), |i: int| view_insn(s[i]))
}

/// Appending one instruction appends its model.
pub proof fn lemma_view_insns_push(s: Seq<Insn>, i: Insn)
    ensures
        view_insns(s.push(i)) == view_insns(s).push(view_insn(i)),
{
    assert(view_insns(s.push(i)) =~= view_insns(s).push(view_insn(i)));
}

/// Broadcast form of [`lemma_view_insns_push`].
pub broadcast proof fn lemma_view_insns_push_auto(s: Seq<Insn>, i: Insn)
    ensures
        #[trigger] view_insns(s.push(i)) == view_insns(s).push(view_insn(i)),
{
    lemma_view_insns_push(s, i);
}

/// Appending one element is concatenating a singleton.
pub broadcast proof fn lemma_push_is_concat(s: Seq<InsnS>, x: InsnS)
    ensures
        #[trigger] s.push(x) == s + seq![x],
{
    assert(s.push(x) =~= s + seq![x]);
}

/// The empty sequence is a right identity of concatenation.
pub proof fn lemma_concat_empty_insns(s: Seq<InsnS>)
    ensures
        s + Seq::<InsnS>::empty() == s,
{
    assert(s + Seq::<InsnS>::empty() =~= s);
}

/// Reassociating a six-piece concatenation onto a common prefix.
#[verifier::rlimit(100)]
pub proof fn lemma_assemble_insns_six(
    v0: Seq<InsnS>,
    p1: Seq<InsnS>,
    p2: Seq<InsnS>,
    p3: Seq<InsnS>,
    p4: Seq<InsnS>,
    p5: Seq<InsnS>,
    p6: Seq<InsnS>,
)
    ensures
        v0 + (p1 + p2 + p3 + p4 + p5 + p6) == v0 + p1 + p2 + p3 + p4 + p5 + p6,
{
    assert(v0 + (p1 + p2 + p3 + p4 + p5 + p6) =~= v0 + p1 + p2 + p3 + p4 + p5 + p6);
}

/// Reassociating an eight-piece concatenation onto a common prefix.
#[verifier::rlimit(100)]
pub proof fn lemma_assemble_insns_eight(
    v0: Seq<InsnS>,
    p1: Seq<InsnS>,
    p2: Seq<InsnS>,
    p3: Seq<InsnS>,
    p4: Seq<InsnS>,
    p5: Seq<InsnS>,
    p6: Seq<InsnS>,
    p7: Seq<InsnS>,
    p8: Seq<InsnS>,
)
    ensures
        v0 + p1 + p2 + p3 + p4 + p5 + p6 + p7 + p8 == v0 + (p1 + p2 + p3 + p4 + p5 + p6 + p7
            + p8),
{
    assert(v0 + p1 + p2 + p3 + p4 + p5 + p6 + p7 + p8 =~= v0 + (p1 + p2 + p3 + p4 + p5 + p6 + p7
        + p8));
}

/// The append-only instruction stream and monotone register allocator,
/// with the statement's change-capture configuration.
#[derive(Debug, PartialEq, Eq)]
pub struct ProgramBuilder {
    pub insns: Vec<Insn>,
    pub next_reg: usize,
    /// Change capture wants a before-image.
    pub capture_before: bool,
    /// Change capture wants an after-image.
    pub capture_after: bool,
}

impl ProgramBuilder {
    /// A fresh builder with no instructions and registers starting at zero.
    pub fn new(capture_before: bool, capture_after: bool) -> (r: ProgramBuilder)
        ensures
            r.insns@ == Seq::<Insn>::empty(),
            r.next_reg == 0,
            r.capture_before == capture_before,
            r.capture_after == capture_after,
    {
        ProgramBuilder { insns: Vec::new(), next_reg: 0, capture_before, capture_after }
    }

    /// Allocate one fresh register.
    pub fn alloc_register(&mut self) -> (r: usize)
        requires
            old(self).next_reg < usize::MAX,
        ensures
            r == old(self).next_reg,
            final(self).next_reg == old(self).next_reg + 1,
            final(self).insns@ == old(self).insns@,
            final(self).capture_before == old(self).capture_before,
            final(self).capture_after == old(self).capture_after,
    {
        let r = self.next_reg;
        self.next_reg = self.next_reg + 1;
        r
    }

    /// Allocate a contiguous block of `n` fresh registers; returns its
    /// first address.
    pub fn alloc_registers(&mut self, n: usize) -> (r: usize)
        requires
            old(self).next_reg + n <= usize::MAX,
        ensures
            r == old(self).next_reg,
            final(self).next_reg == old(self).next_reg + n,
            final(self).insns@ == old(self).insns@,
            final(self).capture_before == old(self).capture_before,
            final(self).capture_after == old(self).capture_after,
    {
        let r = self.next_reg;
        self.next_reg = self.next_reg + n;
        r
    }

    /// Append one instruction.
    pub fn emit_insn(&mut self, insn: Insn)
        ensures
            final(self).insns@ == old(self).insns@.push(insn),
            final(self).next_reg == old(self).next_reg,
            final(self).capture_before == old(self).capture_before,
            final(self).capture_after == old(self).capture_after,
    {
        self.insns.push(insn);
    }
}

/// The expression translator is a collaborator outside this component: its
/// work appears in the stream as one instruction computing the already
/// rewritten expression into the destination register.
pub fn translate_expr(program: &mut ProgramBuilder, expr: Expr, dest: usize)
    ensures
        final(program).insns@ == old(program).insns@.push(
            Insn::Eval { expr, dest, no_constant_opt: false },
        ),
        final(program).next_reg == old(program).next_reg,
        final(program).capture_before == old(program).capture_before,
        final(program).capture_after == old(program).capture_after,
{
    program.emit_insn(Insn::Eval { expr, dest, no_constant_opt: false });
}

/// The translator's no-constant-folding variant, required when the
/// destination register may be read by the expression itself.
pub fn translate_expr_no_constant_opt(program: &mut ProgramBuilder, expr: Expr, dest: usize)
    ensures
        final(program).insns@ == old(program).insns@.push(
            Insn::Eval { expr, dest, no_constant_opt: true },
        ),
        final(program).next_reg == old(program).next_reg,
        final(program).capture_before == old(program).capture_before,
        final(program).capture_after == old(program).capture_after,
{
    program.emit_insn(Insn::Eval { expr, dest, no_constant_opt: true });
}

/// The change-capture builder's after-image: one record built from the
/// *new* row image, in a fresh register.
pub fn emit_cdc_patch_record(
    program: &mut ProgramBuilder,
    table: &Table,
    new_start: usize,
    record_reg: usize,
    rowid_reg: usize,
) -> (r: usize)
    requires
        old(program).next_reg < usize::MAX,
    ensures
        r == old(program).next_reg,
        final(program).next_reg == old(program).next_reg + 1,
        final(program).insns@ == old(program).insns@.push(
            Insn::CdcPatchRecord {
                table_name: table.name,
                new_start,
                record_reg,
                rowid_reg,
                dest: r,
            },
        ),
        final(program).capture_before == old(program).capture_before,
        final(program).capture_after == old(program).capture_after,
{
    let dest = program.alloc_register();
    program.emit_insn(
        Insn::CdcPatchRecord {
            table_name: table.name.clone(),
            new_start,
            record_reg,
            rowid_reg,
            dest,
        },
    );
    dest
}

/// The change-capture builder's before-image: one record re-read from the
/// live on-disk row, in a fresh register.
pub fn emit_cdc_full_record(
    program: &mut ProgramBuilder,
    cursor_id: usize,
    rowid_reg: usize,
) -> (r: usize)
    requires
        old(program).next_reg < usize::MAX,
    ensures
        r == old(program).next_reg,
        final(program).next_reg == old(program).next_reg + 1,
        final(program).insns@ == old(program).insns@.push(
            Insn::CdcFullRecord { cursor_id, rowid_reg, dest: r },
        ),
        final(program).capture_before == old(program).capture_before,
        final(program).capture_after == old(program).capture_after,
{
    let dest = program.alloc_register();
    program.emit_insn(Insn::CdcFullRecord { cursor_id, rowid_reg, dest });
    dest
}

/// The change-capture emitter: one change record with the operation kind,
/// cursor, rowid and the optional serialized before/after images.
pub fn emit_cdc_insns(
    program: &mut ProgramBuilder,
    mode: OperationMode,
    cursor_id: usize,
    rowid_reg: usize,
    before_reg: Option<usize>,
    after_reg: Option<usize>,
    table: &Table,
)
    ensures
        final(program).insns@ == old(program).insns@.push(
            Insn::CdcWrite {
                mode,
                cursor_id,
                rowid_reg,
                before_reg,
                after_reg,
                table_name: table.name,
            },
        ),
        final(program).next_reg == old(program).next_reg,
        final(program).capture_before == old(program).capture_before,
        final(program).capture_after == old(program).capture_after,
{
    program.emit_insn(
        Insn::CdcWrite {
            mode,
            cursor_id,
            rowid_reg,
            before_reg,
            after_reg,
            table_name: table.name.clone(),
        },
    );
}

/// The `RETURNING` emitter consumes a row descriptor: the rowid register
/// and the column range of the source row.
pub fn emit_returning_results(
    program: &mut ProgramBuilder,
    rowid_reg: usize,
    columns_start: usize,
    num_columns: usize,
)
    ensures
        final(program).insns@ == old(program).insns@.push(
            Insn::EmitReturning { rowid_reg, columns_start, num_columns },
        ),
        final(program).next_reg == old(program).next_reg,
        final(program).capture_before == old(program).capture_before,
        final(program).capture_after == old(program).capture_after,
{
    program.emit_insn(Insn::EmitReturning { rowid_reg, columns_start, num_columns });
}

} // verus!
