//! The code generator: lowers a completed intermediate program to one
//! assembly text implementing the stack-machine semantics.
//!
//! The lowering of every instruction is stated as a spec-level
//! instruction sequence; the generator is proved to emit exactly the
//! rendering of those sequences, with the stack-pointer preamble first
//! and a private label counter threaded through the commands that
//! synthesize branch targets.

use vstd::prelude::*;
use vstd::string::StringExecFns;
use crate::assembly::{AsmSym, AsmInstr, SpecInstr, views, render, render_all};
use crate::text::{spec_dec, append_dec};
use crate::vm_program::{ArithmeticOpcode, MemorySegment, SpecCmd, VmCommand, VmProgram};

verus! {

/// The low end of stack memory; the preamble points the stack pointer
/// here.
pub const STACK_START: usize = 256;

/// Base address of the static region.
pub const STATIC_START: usize = 16;

/// Address of the `this` pointer cell; the `pointer` segment addresses
/// this cell and the one after it.
pub const POINTER_START: usize = 3;

/// Base address of the temp region.
pub const TEMP_START: usize = 5;

/// Where the value pushed by the push primitive comes from: the
/// accumulator, the address register, or the addressed memory cell.
#[derive(Clone, Copy, PartialEq, Eq, Structural, Debug)]
pub enum PushSource {
    Addr,
    Accum,
    Mem,
}

// ---------------------------------------------------------------------
// The lowering templates, as spec-level instruction sequences
// ---------------------------------------------------------------------

/// The push primitive: write D (moved there first if the source is
/// another register) to the cell the stack pointer addresses, then
/// increment the stack pointer.
pub open spec fn spec_push_seq(from: PushSource) -> Seq<SpecInstr> {
    let tail = seq![
        SpecInstr::ASym(AsmSym::SP),
        SpecInstr::AEqM,
        SpecInstr::MEqD,
        SpecInstr::DEqAPlusOne,
        SpecInstr::ASym(AsmSym::SP),
        SpecInstr::MEqD,
    ];
    match from {
        PushSource::Accum => tail,
        PushSource::Addr => seq![SpecInstr::DEqA] + tail,
        PushSource::Mem => seq![SpecInstr::DEqM] + tail,
    }
}

/// The pop primitive: decrement the stack pointer and move the exposed
/// cell into D, staged through the first scratch cell because the
/// machine cannot move between two registers directly.
pub open spec fn spec_pop_seq() -> Seq<SpecInstr> {
    seq![
        SpecInstr::ASym(AsmSym::SP),
        SpecInstr::AEqMMinusOne,
        SpecInstr::DEqM,
        SpecInstr::ASym(AsmSym::R13),
        SpecInstr::MEqD,
        SpecInstr::ASym(AsmSym::SP),
        SpecInstr::MEqMMinusOne,
        SpecInstr::ASym(AsmSym::R13),
        SpecInstr::DEqM,
    ]
}

/// The name of the `k`-th synthesized label.
pub open spec fn label_name(k: nat) -> Seq<char> {
    "__VM_IMPL_LABEL_"@ + spec_dec(k)
}

pub open spec fn spec_cmp_jump(op: ArithmeticOpcode) -> SpecInstr {
    match op {
        ArithmeticOpcode::Equal => SpecInstr::JumpEqD,
        ArithmeticOpcode::GreaterThan => SpecInstr::JumpGtD,
        _ => SpecInstr::JumpLtD,
    }
}

/// Lowering of one arithmetic / logic operation.  Binary operations pop
/// the right operand and combine in place; unary ones transform the top
/// cell in place; comparisons subtract, write true (all bits set)
/// unconditionally, and branch over a write of false using the
/// synthesized label `lbl`.
pub open spec fn spec_arith_instrs(op: ArithmeticOpcode, lbl: Seq<char>) -> Seq<SpecInstr> {
    match op {
        ArithmeticOpcode::Add => spec_pop_seq()
            + seq![SpecInstr::ASym(AsmSym::SP), SpecInstr::AEqMMinusOne, SpecInstr::MEqMPlusD],
        ArithmeticOpcode::Sub => spec_pop_seq()
            + seq![SpecInstr::ASym(AsmSym::SP), SpecInstr::AEqMMinusOne, SpecInstr::MEqMMinusD],
        ArithmeticOpcode::And => spec_pop_seq()
            + seq![SpecInstr::ASym(AsmSym::SP), SpecInstr::AEqMMinusOne, SpecInstr::MEqMAndD],
        ArithmeticOpcode::Or => spec_pop_seq()
            + seq![SpecInstr::ASym(AsmSym::SP), SpecInstr::AEqMMinusOne, SpecInstr::MEqMOrD],
        ArithmeticOpcode::Neg => seq![
            SpecInstr::ASym(AsmSym::SP), SpecInstr::AEqMMinusOne, SpecInstr::MEqNegM,
        ],
        ArithmeticOpcode::Not => seq![
            SpecInstr::ASym(AsmSym::SP), SpecInstr::AEqMMinusOne, SpecInstr::MEqNotM,
        ],
        _ => spec_pop_seq() + seq![
            SpecInstr::ASym(AsmSym::SP),
            SpecInstr::AEqMMinusOne,
            SpecInstr::DEqMMinusD,
            SpecInstr::MEqMinusOne,
            SpecInstr::ALabel(lbl),
            spec_cmp_jump(op),
            SpecInstr::ASym(AsmSym::SP),
            SpecInstr::AEqMMinusOne,
            SpecInstr::MEqZero,
            SpecInstr::LabelDef(lbl),
        ],
    }
}

/// How many synthesized labels lowering one command consumes.
pub open spec fn labels_used(c: SpecCmd) -> nat {
    match c {
        SpecCmd::Arithmetic(op) => match op {
            ArithmeticOpcode::Equal => 1,
            ArithmeticOpcode::GreaterThan => 1,
            ArithmeticOpcode::LessThan => 1,
            _ => 0,
        },
        SpecCmd::Call(_f, _n) => 1,
        _ => 0,
    }
}

pub open spec fn spec_is_ptr_seg(seg: MemorySegment) -> bool {
    seg == MemorySegment::Local || seg == MemorySegment::Argument
        || seg == MemorySegment::This || seg == MemorySegment::That
}

pub open spec fn spec_seg_ptr(seg: MemorySegment) -> AsmSym {
    match seg {
        MemorySegment::Local => AsmSym::LCL,
        MemorySegment::Argument => AsmSym::ARG,
        MemorySegment::This => AsmSym::THIS,
        _ => AsmSym::THAT,
    }
}

/// The absolute base address of the directly addressed segments.
pub open spec fn spec_direct_base(seg: MemorySegment) -> nat {
    match seg {
        MemorySegment::Pointer => POINTER_START as nat,
        MemorySegment::Temp => TEMP_START as nat,
        _ => STATIC_START as nat,
    }
}

/// Loads the pushed value into D: an immediate for `constant`,
/// a base-pointer-indirect cell for `local`/`argument`/`this`/`that`,
/// and a direct cell for `pointer`/`temp`/`static`.
pub open spec fn spec_load_instrs(seg: MemorySegment, idx: nat) -> Seq<SpecInstr> {
    if seg == MemorySegment::Constant {
        seq![SpecInstr::ANum(idx), SpecInstr::DEqA]
    } else if spec_is_ptr_seg(seg) {
        seq![
            SpecInstr::ASym(spec_seg_ptr(seg)),
            SpecInstr::DEqM,
            SpecInstr::ANum(idx),
            SpecInstr::AEqDPlusA,
            SpecInstr::DEqM,
        ]
    } else {
        seq![SpecInstr::ANum(spec_direct_base(seg) + idx), SpecInstr::DEqM]
    }
}

/// Stores D into the addressed cell.  For the pointer-indirect segments
/// the popped value is staged in the first scratch cell while the
/// target address is computed into the second.
pub open spec fn spec_store_instrs(seg: MemorySegment, idx: nat) -> Seq<SpecInstr> {
    if spec_is_ptr_seg(seg) {
        seq![
            SpecInstr::ASym(AsmSym::R13),
            SpecInstr::MEqD,
            SpecInstr::ASym(spec_seg_ptr(seg)),
            SpecInstr::DEqM,
            SpecInstr::ANum(idx),
            SpecInstr::DEqDPlusA,
            SpecInstr::ASym(AsmSym::R14),
            SpecInstr::MEqD,
            SpecInstr::ASym(AsmSym::R13),
            SpecInstr::DEqM,
            SpecInstr::ASym(AsmSym::R14),
            SpecInstr::AEqM,
            SpecInstr::MEqD,
        ]
    } else {
        seq![SpecInstr::ANum(spec_direct_base(seg) + idx), SpecInstr::MEqD]
    }
}

/// Lowering of `call`: push the return address and the caller's
/// local, argument, this and that pointers in that order, point the
/// argument pointer `argCount + 5` cells below the stack top, point the
/// local pointer at the stack top, jump to the callee, and define the
/// return label at the fall-through position.
pub open spec fn spec_call_instrs(f: Seq<char>, nargs: nat, ret: Seq<char>) -> Seq<SpecInstr> {
    seq![SpecInstr::ALabel(ret)] + spec_push_seq(PushSource::Addr)
        + seq![SpecInstr::ASym(AsmSym::LCL)] + spec_push_seq(PushSource::Mem)
        + seq![SpecInstr::ASym(AsmSym::ARG)] + spec_push_seq(PushSource::Mem)
        + seq![SpecInstr::ASym(AsmSym::THIS)] + spec_push_seq(PushSource::Mem)
        + seq![SpecInstr::ASym(AsmSym::THAT)] + spec_push_seq(PushSource::Mem)
        + seq![
            SpecInstr::ANum(nargs),
            SpecInstr::DEqA,
            SpecInstr::ANum(5),
            SpecInstr::DEqDPlusA,
            SpecInstr::ASym(AsmSym::SP),
            SpecInstr::DEqMMinusD,
            SpecInstr::ASym(AsmSym::ARG),
            SpecInstr::MEqD,
            SpecInstr::ASym(AsmSym::SP),
            SpecInstr::DEqM,
            SpecInstr::ASym(AsmSym::LCL),
            SpecInstr::MEqD,
            SpecInstr::ALabel(f),
            SpecInstr::Jump,
            SpecInstr::LabelDef(ret),
        ]
}

/// Lowering of the function prologue: push `n` zero-valued local slots.
pub open spec fn spec_fnsetup_instrs(n: nat) -> Seq<SpecInstr>
    decreases n,
{
    if n == 0 {
        Seq::empty()
    } else {
        spec_fnsetup_instrs((n - 1) as nat) + (seq![SpecInstr::DEqZero]
            + spec_push_seq(PushSource::Accum))
    }
}

/// Lowering of `return`: pop the return value aside, collapse the local
/// segment, capture the caller's argument pointer, restore that / this
/// / argument / local by popping in that order, pop the return address,
/// reset the stack pointer to the captured argument pointer, push the
/// return value there, and jump to the return address.
pub open spec fn spec_return_instrs() -> Seq<SpecInstr> {
    spec_pop_seq() + seq![
        SpecInstr::ASym(AsmSym::R14),
        SpecInstr::MEqD,
        SpecInstr::ASym(AsmSym::LCL),
        SpecInstr::DEqM,
        SpecInstr::ASym(AsmSym::SP),
        SpecInstr::MEqD,
        SpecInstr::ASym(AsmSym::ARG),
        SpecInstr::DEqM,
        SpecInstr::ASym(AsmSym::R15),
        SpecInstr::MEqD,
    ] + spec_pop_seq() + seq![SpecInstr::ASym(AsmSym::THAT), SpecInstr::MEqD]
        + spec_pop_seq() + seq![SpecInstr::ASym(AsmSym::THIS), SpecInstr::MEqD]
        + spec_pop_seq() + seq![SpecInstr::ASym(AsmSym::ARG), SpecInstr::MEqD]
        + spec_pop_seq() + seq![SpecInstr::ASym(AsmSym::LCL), SpecInstr::MEqD]
        + spec_pop_seq() + seq![
            SpecInstr::ASym(AsmSym::R13),
            SpecInstr::MEqD,
            SpecInstr::ASym(AsmSym::R15),
            SpecInstr::DEqM,
            SpecInstr::ASym(AsmSym::SP),
            SpecInstr::MEqD,
            SpecInstr::ASym(AsmSym::R14),
        ] + spec_push_seq(PushSource::Mem) + seq![
            SpecInstr::ASym(AsmSym::R13),
            SpecInstr::AEqM,
            SpecInstr::Jump,
        ]
}

/// Lowering of one command, given the value of the label counter when
/// it is reached.
pub open spec fn spec_cmd_instrs(c: SpecCmd, ctr: nat) -> Seq<SpecInstr> {
    match c {
        SpecCmd::Arithmetic(op) => spec_arith_instrs(op, label_name(ctr)),
        SpecCmd::Push(seg, idx) => spec_load_instrs(seg, idx) + spec_push_seq(PushSource::Accum),
        SpecCmd::Pop(seg, idx) => spec_pop_seq() + spec_store_instrs(seg, idx),
        SpecCmd::Label(l) => seq![SpecInstr::LabelDef(l)],
        SpecCmd::FnSetup(n) => spec_fnsetup_instrs(n),
        SpecCmd::Call(f, n) => spec_call_instrs(f, n, label_name(ctr)),
        SpecCmd::Goto(l) => seq![SpecInstr::ALabel(l), SpecInstr::Jump],
        SpecCmd::IfGoto(l) => spec_pop_seq() + seq![SpecInstr::ALabel(l), SpecInstr::JumpNeD],
        SpecCmd::Return => spec_return_instrs(),
    }
}

/// Lowering of a command sequence, threading the label counter.
pub open spec fn spec_program_instrs(cmds: Seq<SpecCmd>, ctr: nat) -> Seq<SpecInstr>
    decreases cmds.len(),
{
    if cmds.len() == 0 {
        Seq::empty()
    } else {
        spec_cmd_instrs(cmds[0], ctr)
            + spec_program_instrs(cmds.drop_first(), ctr + labels_used(cmds[0]))
    }
}

/// The preamble: point the stack pointer at the low end of stack
/// memory.
pub open spec fn spec_preamble() -> Seq<SpecInstr> {
    seq![
        SpecInstr::ANum(STACK_START as nat),
        SpecInstr::DEqA,
        SpecInstr::ASym(AsmSym::SP),
        SpecInstr::MEqD,
    ]
}

/// Everything the generator emits for a program: the preamble, then
/// each command's lowering in order, the label counter starting at 0.
pub open spec fn spec_full_instrs(cmds: Seq<SpecCmd>) -> Seq<SpecInstr> {
    spec_preamble() + spec_program_instrs(cmds, 0)
}

/// The one text output: the rendering of the full instruction sequence.
pub open spec fn spec_output_text(cmds: Seq<SpecCmd>) -> Seq<char> {
    render(spec_full_instrs(cmds))
}

// ---------------------------------------------------------------------
// Well-formedness of the intermediate representation
// ---------------------------------------------------------------------

/// A command the generator can lower: no pop into `constant`, and a
/// directly addressed index whose absolute cell address fits the
/// machine word used to print it.  The parser only ever produces
/// well-formed commands.
pub open spec fn spec_wf_cmd(c: SpecCmd) -> bool {
    match c {
        SpecCmd::Push(seg, idx) => spec_wf_index(seg, idx),
        SpecCmd::Pop(seg, idx) => seg != MemorySegment::Constant && spec_wf_index(seg, idx),
        _ => true,
    }
}

pub open spec fn spec_wf_index(seg: MemorySegment, idx: nat) -> bool {
    if seg == MemorySegment::Constant || spec_is_ptr_seg(seg) {
        true
    } else {
        spec_direct_base(seg) + idx <= usize::MAX
    }
}

pub open spec fn spec_wf_program(cmds: Seq<SpecCmd>) -> bool {
    forall|i: int| 0 <= i < cmds.len() ==> spec_wf_cmd(#[trigger] cmds[i])
}

/// The generator's defect report: the program held an instruction it
/// cannot lower (one no parser run produces).
#[derive(Clone, Copy, PartialEq, Eq, Structural, Debug)]
pub enum TranslateError {
    MalformedInstruction,
}

// ---------------------------------------------------------------------
// The executable generator
// ---------------------------------------------------------------------

fn push_instr(out: &mut Vec<AsmInstr>, i: AsmInstr)
    ensures
        views(final(out)@) == views(old(out)@).push(i@),
{
    let ghost iv = i@;
    out.push(i);
    proof {
        assert(views(out@) =~= views(old(out)@).push(iv));
    }
}

/// Emits the push primitive.
fn emit_push_seq(out: &mut Vec<AsmInstr>, from: PushSource)
    ensures
        views(final(out)@) == views(old(out)@) + spec_push_seq(from),
{
    match from {
        PushSource::Accum => {},
        PushSource::Addr => push_instr(out, AsmInstr::DEqA),
        PushSource::Mem => push_instr(out, AsmInstr::DEqM),
    }
    push_instr(out, AsmInstr::ASym(AsmSym::SP));
    push_instr(out, AsmInstr::AEqM);
    push_instr(out, AsmInstr::MEqD);
    push_instr(out, AsmInstr::DEqAPlusOne);
    push_instr(out, AsmInstr::ASym(AsmSym::SP));
    push_instr(out, AsmInstr::MEqD);
    proof {
        assert(views(out@) =~= views(old(out)@) + spec_push_seq(from));
    }
}

/// Emits the pop primitive.
fn emit_pop_seq(out: &mut Vec<AsmInstr>)
    ensures
        views(final(out)@) == views(old(out)@) + spec_pop_seq(),
{
    push_instr(out, AsmInstr::ASym(AsmSym::SP));
    push_instr(out, AsmInstr::AEqMMinusOne);
    push_instr(out, AsmInstr::DEqM);
    push_instr(out, AsmInstr::ASym(AsmSym::R13));
    push_instr(out, AsmInstr::MEqD);
    push_instr(out, AsmInstr::ASym(AsmSym::SP));
    push_instr(out, AsmInstr::MEqMMinusOne);
    push_instr(out, AsmInstr::ASym(AsmSym::R13));
    push_instr(out, AsmInstr::DEqM);
    proof {
        assert(views(out@) =~= views(old(out)@) + spec_pop_seq());
    }
}

/// The name of the `k`-th synthesized label.
fn make_label(k: usize) -> (r: String)
    ensures
        r@ == label_name(k as nat),
{
    let mut s = String::new();
    s.append("__VM_IMPL_LABEL_");
    append_dec(&mut s, k);
    proof {
        assert(Seq::<char>::empty() + "__VM_IMPL_LABEL_"@ =~= "__VM_IMPL_LABEL_"@);
    }
    s
}

fn seg_ptr(seg: MemorySegment) -> (r: AsmSym)
    requires
        spec_is_ptr_seg(seg),
    ensures
        r == spec_seg_ptr(seg),
{
    match seg {
        MemorySegment::Local => AsmSym::LCL,
        MemorySegment::Argument => AsmSym::ARG,
        MemorySegment::This => AsmSym::THIS,
        _ => AsmSym::THAT,
    }
}

fn is_ptr_seg(seg: MemorySegment) -> (r: bool)
    ensures
        r == spec_is_ptr_seg(seg),
{
    seg == MemorySegment::Local || seg == MemorySegment::Argument
        || seg == MemorySegment::This || seg == MemorySegment::That
}

/// Emits the lowering of `push seg idx`'s address computation.
fn emit_load(out: &mut Vec<AsmInstr>, seg: MemorySegment, idx: usize)
    requires
        spec_wf_index(seg, idx as nat),
    ensures
        views(final(out)@) == views(old(out)@) + spec_load_instrs(seg, idx as nat),
{
    if seg == MemorySegment::Constant {
        push_instr(out, AsmInstr::ANum(idx));
        push_instr(out, AsmInstr::DEqA);
    } else if is_ptr_seg(seg) {
        push_instr(out, AsmInstr::ASym(seg_ptr(seg)));
        push_instr(out, AsmInstr::DEqM);
        push_instr(out, AsmInstr::ANum(idx));
        push_instr(out, AsmInstr::AEqDPlusA);
        push_instr(out, AsmInstr::DEqM);
    } else {
        let base = if seg == MemorySegment::Pointer {
            POINTER_START
        } else if seg == MemorySegment::Temp {
            TEMP_START
        } else {
            STATIC_START
        };
        push_instr(out, AsmInstr::ANum(base + idx));
        push_instr(out, AsmInstr::DEqM);
    }
    proof {
        assert(views(out@) =~= views(old(out)@) + spec_load_instrs(seg, idx as nat));
    }
}

/// Emits the lowering of `pop seg idx`'s store.
fn emit_store(out: &mut Vec<AsmInstr>, seg: MemorySegment, idx: usize)
    requires
        seg != MemorySegment::Constant,
        spec_wf_index(seg, idx as nat),
    ensures
        views(final(out)@) == views(old(out)@) + spec_store_instrs(seg, idx as nat),
{
    if is_ptr_seg(seg) {
        push_instr(out, AsmInstr::ASym(AsmSym::R13));
        push_instr(out, AsmInstr::MEqD);
        push_instr(out, AsmInstr::ASym(seg_ptr(seg)));
        push_instr(out, AsmInstr::DEqM);
        push_instr(out, AsmInstr::ANum(idx));
        push_instr(out, AsmInstr::DEqDPlusA);
        push_instr(out, AsmInstr::ASym(AsmSym::R14));
        push_instr(out, AsmInstr::MEqD);
        push_instr(out, AsmInstr::ASym(AsmSym::R13));
        push_instr(out, AsmInstr::DEqM);
        push_instr(out, AsmInstr::ASym(AsmSym::R14));
        push_instr(out, AsmInstr::AEqM);
        push_instr(out, AsmInstr::MEqD);
    } else {
        let base = if seg == MemorySegment::Pointer {
            POINTER_START
        } else if seg == MemorySegment::Temp {
            TEMP_START
        } else {
            STATIC_START
        };
        push_instr(out, AsmInstr::ANum(base + idx));
        push_instr(out, AsmInstr::MEqD);
    }
    proof {
        assert(views(out@) =~= views(old(out)@) + spec_store_instrs(seg, idx as nat));
    }
}

/// Emits the lowering of one command, consuming synthesized labels from
/// `next_label`.
fn emit_command(out: &mut Vec<AsmInstr>, next_label: &mut usize, cmd: &VmCommand)
    requires
        spec_wf_cmd(cmd@),
        *old(next_label) < usize::MAX,
    ensures
        views(final(out)@) == views(old(out)@) + spec_cmd_instrs(cmd@, *old(next_label) as nat),
        *final(next_label) as nat == *old(next_label) + labels_used(cmd@),
{
    let ghost ctr = *next_label as nat;
    match cmd {
        VmCommand::Arithmetic(op) => {
            emit_arith(out, next_label, *op);
            proof {
                assert(views(out@) =~= views(old(out)@) + spec_cmd_instrs(cmd@, ctr));
            }
        },
        VmCommand::Push(seg, idx) => {
            emit_load(out, *seg, *idx);
            emit_push_seq(out, PushSource::Accum);
            proof {
                assert(views(out@) =~= views(old(out)@) + spec_cmd_instrs(cmd@, ctr));
            }
        },
        VmCommand::Pop(seg, idx) => {
            emit_pop_seq(out);
            emit_store(out, *seg, *idx);
            proof {
                assert(views(out@) =~= views(old(out)@) + spec_cmd_instrs(cmd@, ctr));
            }
        },
        VmCommand::Label(l) => {
            push_instr(out, AsmInstr::LabelDef(l.clone()));
            proof {
                assert(views(out@) =~= views(old(out)@) + spec_cmd_instrs(cmd@, ctr));
            }
        },
        VmCommand::Goto(l) => {
            push_instr(out, AsmInstr::ALabel(l.clone()));
            push_instr(out, AsmInstr::Jump);
            proof {
                assert(views(out@) =~= views(old(out)@) + spec_cmd_instrs(cmd@, ctr));
            }
        },
        VmCommand::IfGoto(l) => {
            emit_pop_seq(out);
            push_instr(out, AsmInstr::ALabel(l.clone()));
            push_instr(out, AsmInstr::JumpNeD);
            proof {
                assert(views(out@) =~= views(old(out)@) + spec_cmd_instrs(cmd@, ctr));
            }
        },
        VmCommand::FnSetup { num_locals } => {
            let n = *num_locals;
            let mut j: usize = 0;
            proof {
                assert(spec_fnsetup_instrs(0) =~= Seq::<SpecInstr>::empty());
                assert(views(out@) =~= views(out@) + spec_fnsetup_instrs(0));
            }
            while j < n
                invariant
                    j <= n,
                    views(out@) == views(old(out)@) + spec_fnsetup_instrs(j as nat),
                decreases n - j,
            {
                let ghost before = views(out@);
                push_instr(out, AsmInstr::DEqZero);
                emit_push_seq(out, PushSource::Accum);
                proof {
                    assert(views(out@) =~= before
                        + (seq![SpecInstr::DEqZero] + spec_push_seq(PushSource::Accum)));
                    assert(spec_fnsetup_instrs((j + 1) as nat) == spec_fnsetup_instrs(j as nat)
                        + (seq![SpecInstr::DEqZero] + spec_push_seq(PushSource::Accum)));
                    assert(views(out@) =~= views(old(out)@)
                        + spec_fnsetup_instrs((j + 1) as nat));
                }
                j = j + 1;
            }
            proof {
                assert(views(out@) =~= views(old(out)@) + spec_cmd_instrs(cmd@, ctr));
            }
        },
        VmCommand::Call { fn_name, num_args } => {
            emit_call(out, next_label, fn_name, *num_args);
            proof {
                assert(views(out@) =~= views(old(out)@) + spec_cmd_instrs(cmd@, ctr));
            }
        },
        VmCommand::Return => {
            emit_return(out);
            proof {
                assert(views(out@) =~= views(old(out)@) + spec_cmd_instrs(cmd@, ctr));
            }
        },
    }
}

/// Emits the lowering of one arithmetic / logic operation.
fn emit_arith(out: &mut Vec<AsmInstr>, next_label: &mut usize, op: ArithmeticOpcode)
    requires
        *old(next_label) < usize::MAX,
    ensures
        views(final(out)@) == views(old(out)@)
            + spec_arith_instrs(op, label_name(*old(next_label) as nat)),
        *final(next_label) as nat == *old(next_label)
            + labels_used(SpecCmd::Arithmetic(op)),
{
    match op {
        ArithmeticOpcode::Add | ArithmeticOpcode::Sub | ArithmeticOpcode::And
        | ArithmeticOpcode::Or => {
            emit_pop_seq(out);
            push_instr(out, AsmInstr::ASym(AsmSym::SP));
            push_instr(out, AsmInstr::AEqMMinusOne);
            push_instr(out, match op {
                ArithmeticOpcode::Add => AsmInstr::MEqMPlusD,
                ArithmeticOpcode::Sub => AsmInstr::MEqMMinusD,
                ArithmeticOpcode::And => AsmInstr::MEqMAndD,
                _ => AsmInstr::MEqMOrD,
            });
            proof {
                assert(views(out@) =~= views(old(out)@)
                    + spec_arith_instrs(op, label_name(*old(next_label) as nat)));
            }
        },
        ArithmeticOpcode::Neg | ArithmeticOpcode::Not => {
            push_instr(out, AsmInstr::ASym(AsmSym::SP));
            push_instr(out, AsmInstr::AEqMMinusOne);
            push_instr(out, match op {
                ArithmeticOpcode::Neg => AsmInstr::MEqNegM,
                _ => AsmInstr::MEqNotM,
            });
            proof {
                assert(views(out@) =~= views(old(out)@)
                    + spec_arith_instrs(op, label_name(*old(next_label) as nat)));
            }
        },
        ArithmeticOpcode::Equal | ArithmeticOpcode::GreaterThan
        | ArithmeticOpcode::LessThan => {
            let lbl = make_label(*next_label);
            let lbl2 = lbl.clone();
            *next_label = *next_label + 1;
            emit_pop_seq(out);
            push_instr(out, AsmInstr::ASym(AsmSym::SP));
            push_instr(out, AsmInstr::AEqMMinusOne);
            push_instr(out, AsmInstr::DEqMMinusD);
            push_instr(out, AsmInstr::MEqMinusOne);
            push_instr(out, AsmInstr::ALabel(lbl));
            push_instr(out, match op {
                ArithmeticOpcode::Equal => AsmInstr::JumpEqD,
                ArithmeticOpcode::GreaterThan => AsmInstr::JumpGtD,
                _ => AsmInstr::JumpLtD,
            });
            push_instr(out, AsmInstr::ASym(AsmSym::SP));
            push_instr(out, AsmInstr::AEqMMinusOne);
            push_instr(out, AsmInstr::MEqZero);
            push_instr(out, AsmInstr::LabelDef(lbl2));
            proof {
                assert(views(out@) =~= views(old(out)@)
                    + spec_arith_instrs(op, label_name(*old(next_label) as nat)));
            }
        },
    }
}

/// Emits the lowering of `call`.
#[verifier::rlimit(60)]
fn emit_call(out: &mut Vec<AsmInstr>, next_label: &mut usize, fn_name: &String, num_args: usize)
    requires
        *old(next_label) < usize::MAX,
    ensures
        views(final(out)@) == views(old(out)@) + spec_call_instrs(
            fn_name@, num_args as nat, label_name(*old(next_label) as nat)),
        *final(next_label) == *old(next_label) + 1,
{
    let ret = make_label(*next_label);
    let ret2 = ret.clone();
    *next_label = *next_label + 1;
    push_instr(out, AsmInstr::ALabel(ret));
    emit_push_seq(out, PushSource::Addr);
    push_instr(out, AsmInstr::ASym(AsmSym::LCL));
    emit_push_seq(out, PushSource::Mem);
    push_instr(out, AsmInstr::ASym(AsmSym::ARG));
    emit_push_seq(out, PushSource::Mem);
    push_instr(out, AsmInstr::ASym(AsmSym::THIS));
    emit_push_seq(out, PushSource::Mem);
    push_instr(out, AsmInstr::ASym(AsmSym::THAT));
    emit_push_seq(out, PushSource::Mem);
    push_instr(out, AsmInstr::ANum(num_args));
    push_instr(out, AsmInstr::DEqA);
    push_instr(out, AsmInstr::ANum(5));
    push_instr(out, AsmInstr::DEqDPlusA);
    push_instr(out, AsmInstr::ASym(AsmSym::SP));
    push_instr(out, AsmInstr::DEqMMinusD);
    push_instr(out, AsmInstr::ASym(AsmSym::ARG));
    push_instr(out, AsmInstr::MEqD);
    push_instr(out, AsmInstr::ASym(AsmSym::SP));
    push_instr(out, AsmInstr::DEqM);
    push_instr(out, AsmInstr::ASym(AsmSym::LCL));
    push_instr(out, AsmInstr::MEqD);
    push_instr(out, AsmInstr::ALabel(fn_name.clone()));
    push_instr(out, AsmInstr::Jump);
    push_instr(out, AsmInstr::LabelDef(ret2));
    proof {
        assert(views(out@) =~= views(old(out)@) + spec_call_instrs(
            fn_name@, num_args as nat, label_name(*old(next_label) as nat)));
    }
}

/// Emits the lowering of `return`.
fn emit_return(out: &mut Vec<AsmInstr>)
    ensures
        views(final(out)@) == views(old(out)@) + spec_return_instrs(),
{
    emit_pop_seq(out);
    push_instr(out, AsmInstr::ASym(AsmSym::R14));
    push_instr(out, AsmInstr::MEqD);
    push_instr(out, AsmInstr::ASym(AsmSym::LCL));
    push_instr(out, AsmInstr::DEqM);
    push_instr(out, AsmInstr::ASym(AsmSym::SP));
    push_instr(out, AsmInstr::MEqD);
    push_instr(out, AsmInstr::ASym(AsmSym::ARG));
    push_instr(out, AsmInstr::DEqM);
    push_instr(out, AsmInstr::ASym(AsmSym::R15));
    push_instr(out, AsmInstr::MEqD);
    emit_pop_seq(out);
    push_instr(out, AsmInstr::ASym(AsmSym::THAT));
    push_instr(out, AsmInstr::MEqD);
    emit_pop_seq(out);
    push_instr(out, AsmInstr::ASym(AsmSym::THIS));
    push_instr(out, AsmInstr::MEqD);
    emit_pop_seq(out);
    push_instr(out, AsmInstr::ASym(AsmSym::ARG));
    push_instr(out, AsmInstr::MEqD);
    emit_pop_seq(out);
    push_instr(out, AsmInstr::ASym(AsmSym::LCL));
    push_instr(out, AsmInstr::MEqD);
    emit_pop_seq(out);
    push_instr(out, AsmInstr::ASym(AsmSym::R13));
    push_instr(out, AsmInstr::MEqD);
    push_instr(out, AsmInstr::ASym(AsmSym::R15));
    push_instr(out, AsmInstr::DEqM);
    push_instr(out, AsmInstr::ASym(AsmSym::SP));
    push_instr(out, AsmInstr::MEqD);
    push_instr(out, AsmInstr::ASym(AsmSym::R14));
    emit_push_seq(out, PushSource::Mem);
    push_instr(out, AsmInstr::ASym(AsmSym::R13));
    push_instr(out, AsmInstr::AEqM);
    push_instr(out, AsmInstr::Jump);
    proof {
        assert(views(out@) =~= views(old(out)@) + spec_return_instrs());
    }
}

/// Lowers the completed intermediate program to one assembly text.
///
/// The result is exactly the rendering of [`spec_full_instrs`]: the
/// stack-pointer preamble followed by each instruction's lowering in
/// order.  The generator fails only on a program no parser run
/// produces (a pop into `constant`, or a direct-segment index past the
/// machine's address range), and succeeds on every well-formed one.
#[verifier::loop_isolation(false)]
pub fn translate(program: VmProgram) -> (r: Result<String, TranslateError>)
    ensures
        match r {
            Ok(s) => spec_wf_program(program@.commands)
                && s@ == spec_output_text(program@.commands),
            Err(e) => !spec_wf_program(program@.commands)
                && e == TranslateError::MalformedInstruction,
        },
{
    let cmds = program.commands;
    let ghost cv = program@.commands;
    proof {
        assert(cv == cmds@.map_values(|c: VmCommand| c@));
    }

    // Refuse a program the lowering templates cannot address.
    let mut k: usize = 0;
    while k < cmds.len()
        invariant
            k <= cmds@.len(),
            forall|i: int| 0 <= i < k ==> spec_wf_cmd(#[trigger] cv[i]),
        decreases cmds@.len() - k,
    {
        let ok = match &cmds[k] {
            VmCommand::Push(seg, idx) => wf_index(*seg, *idx),
            VmCommand::Pop(seg, idx) => *seg != MemorySegment::Constant && wf_index(*seg, *idx),
            _ => true,
        };
        if !ok {
            proof {
                assert(!spec_wf_cmd(cv[k as int]));
            }
            return Err(TranslateError::MalformedInstruction);
        }
        k = k + 1;
    }

    let mut out: Vec<AsmInstr> = Vec::new();
    push_instr(&mut out, AsmInstr::ANum(STACK_START));
    push_instr(&mut out, AsmInstr::DEqA);
    push_instr(&mut out, AsmInstr::ASym(AsmSym::SP));
    push_instr(&mut out, AsmInstr::MEqD);
    proof {
        assert(views(out@) =~= spec_preamble());
        assert(cv.skip(0) =~= cv);
        assert(spec_full_instrs(cv) =~= views(out@) + spec_program_instrs(cv, 0));
    }
    let mut next_label: usize = 0;
    let mut j: usize = 0;
    while j < cmds.len()
        invariant
            j <= cmds@.len(),
            next_label <= j,
            spec_full_instrs(cv) == views(out@)
                + spec_program_instrs(cv.skip(j as int), next_label as nat),
        decreases cmds@.len() - j,
    {
        let ghost before = views(out@);
        let ghost ctr = next_label as nat;
        emit_command(&mut out, &mut next_label, &cmds[j]);
        proof {
            let sk = cv.skip(j as int);
            assert(sk[0] == cv[j as int]);
            assert(sk.drop_first() =~= cv.skip(j + 1));
            assert(spec_program_instrs(sk, ctr) == spec_cmd_instrs(cv[j as int], ctr)
                + spec_program_instrs(cv.skip(j + 1), ctr + labels_used(cv[j as int])));
            assert(before + (spec_cmd_instrs(cv[j as int], ctr)
                + spec_program_instrs(cv.skip(j + 1), ctr + labels_used(cv[j as int])))
                =~= (before + spec_cmd_instrs(cv[j as int], ctr))
                + spec_program_instrs(cv.skip(j + 1), ctr + labels_used(cv[j as int])));
        }
        j = j + 1;
    }
    proof {
        assert(cv.skip(cv.len() as int) =~= Seq::<SpecCmd>::empty());
        assert(spec_full_instrs(cv) =~= views(out@));
    }
    let text = render_all(&out);
    Ok(text)
}

fn wf_index(seg: MemorySegment, idx: usize) -> (r: bool)
    ensures
        r == spec_wf_index(seg, idx as nat),
{
    if seg == MemorySegment::Constant || is_ptr_seg(seg) {
        true
    } else {
        let base = if seg == MemorySegment::Pointer {
            POINTER_START
        } else if seg == MemorySegment::Temp {
            TEMP_START
        } else {
            STATIC_START
        };
        idx <= usize::MAX - base
    }
}

} // verus!
