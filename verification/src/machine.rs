//! A model of the target machine, and proofs that the lowering
//! templates implement the stack-machine semantics they promise: a
//! push / pop pair is a no-op, comparisons are exact, and the call /
//! return protocol restores the caller's frame around exactly one
//! returned value.
//!
//! The model is conceptual: memory cells hold unbounded integers, so
//! `add` and `sub` are exact, and the comparison templates decide the
//! true mathematical ordering.  Bitwise operations use the 16-bit
//! two's-complement reading of a cell.

use vstd::prelude::*;
use crate::assembly::{AsmSym, SpecInstr, sym_addr};
use crate::vm_program::{ArithmeticOpcode, MemorySegment, SpecCmd};
use crate::translate::{
    spec_push_seq, spec_pop_seq, spec_load_instrs, spec_store_instrs, spec_cmd_instrs,
    spec_arith_instrs, spec_call_instrs, spec_fnsetup_instrs, spec_return_instrs,
    spec_is_ptr_seg, spec_seg_ptr, spec_direct_base, label_name,
    PushSource,
};

verus! {

/// The machine state: the address register, the accumulator, and the
/// memory, a total map from addresses to cell values.
pub ghost struct MState {
    pub a: int,
    pub d: int,
    pub mem: Map<int, int>,
}

/// The memory map is total: every address holds a value.
pub open spec fn wf_state(s: MState) -> bool {
    s.mem.dom() == Set::<int>::full()
}

/// The 16-bit two's-complement reading of a cell value.
pub open spec fn signed16(b: u16) -> int {
    if b >= 0x8000 { b - 0x10000 } else { b as int }
}

pub open spec fn and16(x: int, y: int) -> int {
    signed16((x as u16) & (y as u16))
}

pub open spec fn or16(x: int, y: int) -> int {
    signed16((x as u16) | (y as u16))
}

/// Whether an instruction transfers control.
pub open spec fn is_jump(i: SpecInstr) -> bool {
    match i {
        SpecInstr::Jump => true,
        SpecInstr::JumpEqD => true,
        SpecInstr::JumpGtD => true,
        SpecInstr::JumpLtD => true,
        SpecInstr::JumpNeD => true,
        _ => false,
    }
}

/// Whether a jump at state `s` is taken: unconditionally, or by the
/// sign of the accumulator.
pub open spec fn jump_taken(i: SpecInstr, s: MState) -> bool {
    match i {
        SpecInstr::Jump => true,
        SpecInstr::JumpEqD => s.d == 0,
        SpecInstr::JumpGtD => s.d > 0,
        SpecInstr::JumpLtD => s.d < 0,
        SpecInstr::JumpNeD => s.d != 0,
        _ => false,
    }
}

/// The effect of one non-jump instruction.  `@label` loads the label's
/// code address under the given label assignment; a label definition
/// does nothing.
pub open spec fn step(i: SpecInstr, s: MState, labmap: Map<Seq<char>, int>) -> MState {
    match i {
        SpecInstr::ANum(n) => MState { a: n as int, ..s },
        SpecInstr::ASym(sym) => MState { a: sym_addr(sym), ..s },
        SpecInstr::ALabel(l) => MState { a: labmap[l], ..s },
        SpecInstr::LabelDef(_l) => s,
        SpecInstr::AEqM => MState { a: s.mem[s.a], ..s },
        SpecInstr::AEqMMinusOne => MState { a: s.mem[s.a] - 1, ..s },
        SpecInstr::AEqDPlusA => MState { a: s.d + s.a, ..s },
        SpecInstr::DEqA => MState { d: s.a, ..s },
        SpecInstr::DEqM => MState { d: s.mem[s.a], ..s },
        SpecInstr::DEqZero => MState { d: 0, ..s },
        SpecInstr::DEqAPlusOne => MState { d: s.a + 1, ..s },
        SpecInstr::DEqDPlusA => MState { d: s.d + s.a, ..s },
        SpecInstr::DEqMMinusD => MState { d: s.mem[s.a] - s.d, ..s },
        SpecInstr::MEqD => MState { mem: s.mem.insert(s.a, s.d), ..s },
        SpecInstr::MEqZero => MState { mem: s.mem.insert(s.a, 0), ..s },
        SpecInstr::MEqMinusOne => MState { mem: s.mem.insert(s.a, -1), ..s },
        SpecInstr::MEqNegM => MState { mem: s.mem.insert(s.a, -s.mem[s.a]), ..s },
        SpecInstr::MEqNotM => MState { mem: s.mem.insert(s.a, -s.mem[s.a] - 1), ..s },
        SpecInstr::MEqMPlusD => MState { mem: s.mem.insert(s.a, s.mem[s.a] + s.d), ..s },
        SpecInstr::MEqMMinusD => MState { mem: s.mem.insert(s.a, s.mem[s.a] - s.d), ..s },
        SpecInstr::MEqMAndD => MState { mem: s.mem.insert(s.a, and16(s.mem[s.a], s.d)), ..s },
        SpecInstr::MEqMOrD => MState { mem: s.mem.insert(s.a, or16(s.mem[s.a], s.d)), ..s },
        SpecInstr::MEqMMinusOne => MState { mem: s.mem.insert(s.a, s.mem[s.a] - 1), ..s },
        _ => s,
    }
}

/// Straight-line execution of a jump-free instruction sequence.
pub open spec fn run_sl(c: Seq<SpecInstr>, s: MState, labmap: Map<Seq<char>, int>) -> MState
    decreases c.len(),
{
    if c.len() == 0 {
        s
    } else {
        run_sl(c.drop_first(), step(c[0], s, labmap), labmap)
    }
}

pub open spec fn jump_free(c: Seq<SpecInstr>) -> bool {
    forall|i: int| 0 <= i < c.len() ==> !is_jump(#[trigger] c[i])
}

/// Execution with a program counter.  A taken jump continues at the
/// code address in the address register; falling off the end of the
/// sequence is the (only) way to finish.  `fuel` bounds the number of
/// steps taken.
pub open spec fn run_pc(
    c: Seq<SpecInstr>,
    labmap: Map<Seq<char>, int>,
    pc: int,
    s: MState,
    fuel: nat,
) -> Option<MState>
    decreases fuel,
{
    if pc == c.len() {
        Some(s)
    } else if fuel == 0 || pc < 0 || pc > c.len() {
        None
    } else {
        let i = c[pc];
        if is_jump(i) {
            if jump_taken(i, s) {
                run_pc(c, labmap, s.a, s, (fuel - 1) as nat)
            } else {
                run_pc(c, labmap, pc + 1, s, (fuel - 1) as nat)
            }
        } else {
            run_pc(c, labmap, pc + 1, step(i, s, labmap), (fuel - 1) as nat)
        }
    }
}

/// Straight-line execution composes over concatenation.
pub proof fn lemma_run_sl_concat(
    c1: Seq<SpecInstr>,
    c2: Seq<SpecInstr>,
    s: MState,
    labmap: Map<Seq<char>, int>,
)
    ensures
        run_sl(c1 + c2, s, labmap) == run_sl(c2, run_sl(c1, s, labmap), labmap),
    decreases c1.len(),
{
    if c1.len() == 0 {
        assert(c1 + c2 =~= c2);
    } else {
        assert((c1 + c2).drop_first() =~= c1.drop_first() + c2);
        assert((c1 + c2)[0] == c1[0]);
        lemma_run_sl_concat(c1.drop_first(), c2, step(c1[0], s, labmap), labmap);
    }
}

/// Crossing a jump-free stretch with the program counter is the
/// straight-line run of that stretch.
pub proof fn lemma_run_pc_seg(
    c: Seq<SpecInstr>,
    labmap: Map<Seq<char>, int>,
    pc: int,
    k: int,
    s: MState,
    fuel: nat,
)
    requires
        0 <= pc <= k <= c.len(),
        fuel >= k - pc,
        jump_free(c.subrange(pc, k)),
    ensures
        run_pc(c, labmap, pc, s, fuel) == run_pc(
            c, labmap, k, run_sl(c.subrange(pc, k), s, labmap), (fuel - (k - pc)) as nat),
    decreases k - pc,
{
    let seg = c.subrange(pc, k);
    if pc == k {
        assert(seg.len() == 0);
        if pc == c.len() {
        }
    } else {
        assert(seg[0] == c[pc]);
        assert(!is_jump(c[pc]));
        assert(pc < c.len());
        assert(seg.drop_first() =~= c.subrange(pc + 1, k));
        lemma_run_pc_seg(c, labmap, pc + 1, k, step(c[pc], s, labmap), (fuel - 1) as nat);
    }
}

/// The value the push primitive writes: the accumulator, the address
/// register, or the addressed cell.
pub open spec fn push_source_val(from: PushSource, s: MState) -> int {
    match from {
        PushSource::Accum => s.d,
        PushSource::Addr => s.a,
        PushSource::Mem => s.mem[s.a],
    }
}

/// The push primitive writes its source value to the cell the stack
/// pointer addresses and increments the stack pointer.
pub proof fn lemma_push_effect(from: PushSource, s: MState, labmap: Map<Seq<char>, int>)
    ensures
        run_sl(spec_push_seq(from), s, labmap) == (MState {
            a: 0,
            d: s.mem[0] + 1,
            mem: s.mem.insert(s.mem[0], push_source_val(from, s)).insert(0, s.mem[0] + 1),
        }),
{
    let sp = s.mem[0];
    let v = push_source_val(from, s);
    let s1 = match from {
        PushSource::Accum => s,
        PushSource::Addr => step(SpecInstr::DEqA, s, labmap),
        PushSource::Mem => step(SpecInstr::DEqM, s, labmap),
    };
    let tail = seq![
        SpecInstr::ASym(AsmSym::SP),
        SpecInstr::AEqM,
        SpecInstr::MEqD,
        SpecInstr::DEqAPlusOne,
        SpecInstr::ASym(AsmSym::SP),
        SpecInstr::MEqD,
    ];
    assert(s1.d == v && s1.mem == s.mem);
    match from {
        PushSource::Accum => {
            assert(spec_push_seq(from) == tail);
        },
        PushSource::Addr => {
            assert(spec_push_seq(from) == seq![SpecInstr::DEqA] + tail);
            assert((seq![SpecInstr::DEqA] + tail).drop_first() =~= tail);
            assert(run_sl(spec_push_seq(from), s, labmap) == run_sl(tail, s1, labmap));
        },
        PushSource::Mem => {
            assert(spec_push_seq(from) == seq![SpecInstr::DEqM] + tail);
            assert((seq![SpecInstr::DEqM] + tail).drop_first() =~= tail);
            assert(run_sl(spec_push_seq(from), s, labmap) == run_sl(tail, s1, labmap));
        },
    }
    let t1 = step(tail[0], s1, labmap);
    let t2 = step(tail[1], t1, labmap);
    let t3 = step(tail[2], t2, labmap);
    let t4 = step(tail[3], t3, labmap);
    let t5 = step(tail[4], t4, labmap);
    let t6 = step(tail[5], t5, labmap);
    assert(tail.drop_first() =~= tail.subrange(1, 6));
    assert(tail.subrange(1, 6).drop_first() =~= tail.subrange(2, 6));
    assert(tail.subrange(2, 6).drop_first() =~= tail.subrange(3, 6));
    assert(tail.subrange(3, 6).drop_first() =~= tail.subrange(4, 6));
    assert(tail.subrange(4, 6).drop_first() =~= tail.subrange(5, 6));
    assert(tail.subrange(5, 6).drop_first() =~= tail.subrange(6, 6));
    assert(tail.subrange(6, 6).len() == 0);
    assert(run_sl(tail, s1, labmap) == run_sl(tail.subrange(1, 6), t1, labmap));
    assert(run_sl(tail.subrange(1, 6), t1, labmap) == run_sl(tail.subrange(2, 6), t2, labmap));
    assert(run_sl(tail.subrange(2, 6), t2, labmap) == run_sl(tail.subrange(3, 6), t3, labmap));
    assert(run_sl(tail.subrange(3, 6), t3, labmap) == run_sl(tail.subrange(4, 6), t4, labmap));
    assert(run_sl(tail.subrange(4, 6), t4, labmap) == run_sl(tail.subrange(5, 6), t5, labmap));
    assert(run_sl(tail.subrange(5, 6), t5, labmap) == run_sl(tail.subrange(6, 6), t6, labmap));
    assert(run_sl(tail, s1, labmap) == t6);
    assert(t1 == MState { a: 0, ..s1 });
    assert(t2 == MState { a: sp, ..s1 });
    assert(t3 == MState { a: sp, mem: s.mem.insert(sp, v), ..s1 });
    assert(t4 == MState { a: sp, d: sp + 1, mem: s.mem.insert(sp, v) });
    assert(t5 == MState { a: 0, d: sp + 1, mem: s.mem.insert(sp, v) });
    assert(t6 == MState { a: 0, d: sp + 1, mem: s.mem.insert(sp, v).insert(0, sp + 1) });
}

/// The pop primitive decrements the stack pointer and leaves the
/// exposed cell's value in the accumulator, staging it through the
/// first scratch cell.
pub proof fn lemma_pop_effect(s: MState, labmap: Map<Seq<char>, int>)
    ensures
        run_sl(spec_pop_seq(), s, labmap) == (MState {
            a: 13,
            d: s.mem[s.mem[0] - 1],
            mem: s.mem.insert(13, s.mem[s.mem[0] - 1]).insert(0, s.mem[0] - 1),
        }),
{
    let sp = s.mem[0];
    let v = s.mem[sp - 1];
    let c = spec_pop_seq();
    let t1 = step(c[0], s, labmap);
    let t2 = step(c[1], t1, labmap);
    let t3 = step(c[2], t2, labmap);
    let t4 = step(c[3], t3, labmap);
    let t5 = step(c[4], t4, labmap);
    let t6 = step(c[5], t5, labmap);
    let t7 = step(c[6], t6, labmap);
    let t8 = step(c[7], t7, labmap);
    let t9 = step(c[8], t8, labmap);
    assert(c.drop_first() =~= c.subrange(1, 9));
    assert(c.subrange(1, 9).drop_first() =~= c.subrange(2, 9));
    assert(c.subrange(2, 9).drop_first() =~= c.subrange(3, 9));
    assert(c.subrange(3, 9).drop_first() =~= c.subrange(4, 9));
    assert(c.subrange(4, 9).drop_first() =~= c.subrange(5, 9));
    assert(c.subrange(5, 9).drop_first() =~= c.subrange(6, 9));
    assert(c.subrange(6, 9).drop_first() =~= c.subrange(7, 9));
    assert(c.subrange(7, 9).drop_first() =~= c.subrange(8, 9));
    assert(c.subrange(8, 9).drop_first() =~= c.subrange(9, 9));
    assert(c.subrange(9, 9).len() == 0);
    assert(run_sl(c, s, labmap) == run_sl(c.subrange(1, 9), t1, labmap));
    assert(run_sl(c.subrange(1, 9), t1, labmap) == run_sl(c.subrange(2, 9), t2, labmap));
    assert(run_sl(c.subrange(2, 9), t2, labmap) == run_sl(c.subrange(3, 9), t3, labmap));
    assert(run_sl(c.subrange(3, 9), t3, labmap) == run_sl(c.subrange(4, 9), t4, labmap));
    assert(run_sl(c.subrange(4, 9), t4, labmap) == run_sl(c.subrange(5, 9), t5, labmap));
    assert(run_sl(c.subrange(5, 9), t5, labmap) == run_sl(c.subrange(6, 9), t6, labmap));
    assert(run_sl(c.subrange(6, 9), t6, labmap) == run_sl(c.subrange(7, 9), t7, labmap));
    assert(run_sl(c.subrange(7, 9), t7, labmap) == run_sl(c.subrange(8, 9), t8, labmap));
    assert(run_sl(c.subrange(8, 9), t8, labmap) == run_sl(c.subrange(9, 9), t9, labmap));
    assert(run_sl(c, s, labmap) == t9);
    // @SP; A=M-1; D=M: a = 0, then a = sp - 1, then d = value at sp - 1
    assert(t3 == MState { a: sp - 1, d: v, ..s });
    // @R13; M=D: stash it in the scratch cell
    assert(t5 == MState { a: 13, d: v, mem: s.mem.insert(13, v) });
    // @SP; M=M-1: decrement the stack pointer
    assert(t6.mem[0] == sp);
    assert(t7 == MState {
        a: 0, d: v, mem: s.mem.insert(13, v).insert(0, sp - 1) });
    // @R13; D=M: reload the value (already there)
    assert(t9 == MState {
        a: 13, d: v, mem: s.mem.insert(13, v).insert(0, sp - 1) });
}

/// The absolute memory address `seg idx` names in state `s`:
/// base-pointer-indirect for `local`/`argument`/`this`/`that`, direct
/// for `pointer`/`temp`/`static`.
pub open spec fn target_addr(seg: MemorySegment, idx: nat, s: MState) -> int {
    if spec_is_ptr_seg(seg) {
        s.mem[sym_addr(spec_seg_ptr(seg))] + idx
    } else {
        spec_direct_base(seg) + idx as int
    }
}

/// The address-computation template leaves the target address in A and
/// the target cell's value in D, touching nothing else.
pub proof fn lemma_load_effect(
    seg: MemorySegment,
    idx: nat,
    s: MState,
    labmap: Map<Seq<char>, int>,
)
    requires
        seg != MemorySegment::Constant,
    ensures
        run_sl(spec_load_instrs(seg, idx), s, labmap) == (MState {
            a: target_addr(seg, idx, s),
            d: s.mem[target_addr(seg, idx, s)],
            mem: s.mem,
        }),
{
    let c = spec_load_instrs(seg, idx);
    let t = target_addr(seg, idx, s);
    if spec_is_ptr_seg(seg) {
        let t1 = step(c[0], s, labmap);
        let t2 = step(c[1], t1, labmap);
        let t3 = step(c[2], t2, labmap);
        let t4 = step(c[3], t3, labmap);
        let t5 = step(c[4], t4, labmap);
        assert(c.drop_first() =~= c.subrange(1, 5));
        assert(c.subrange(1, 5).drop_first() =~= c.subrange(2, 5));
        assert(c.subrange(2, 5).drop_first() =~= c.subrange(3, 5));
        assert(c.subrange(3, 5).drop_first() =~= c.subrange(4, 5));
        assert(c.subrange(4, 5).drop_first() =~= c.subrange(5, 5));
        assert(c.subrange(5, 5).len() == 0);
        assert(run_sl(c, s, labmap) == run_sl(c.subrange(1, 5), t1, labmap));
        assert(run_sl(c.subrange(1, 5), t1, labmap) == run_sl(c.subrange(2, 5), t2, labmap));
        assert(run_sl(c.subrange(2, 5), t2, labmap) == run_sl(c.subrange(3, 5), t3, labmap));
        assert(run_sl(c.subrange(3, 5), t3, labmap) == run_sl(c.subrange(4, 5), t4, labmap));
        assert(run_sl(c.subrange(4, 5), t4, labmap) == run_sl(c.subrange(5, 5), t5, labmap));
        assert(t5 == MState { a: t, d: s.mem[t], mem: s.mem });
    } else {
        let t1 = step(c[0], s, labmap);
        let t2 = step(c[1], t1, labmap);
        assert(c.drop_first() =~= c.subrange(1, 2));
        assert(c.subrange(1, 2).drop_first() =~= c.subrange(2, 2));
        assert(c.subrange(2, 2).len() == 0);
        assert(run_sl(c, s, labmap) == run_sl(c.subrange(1, 2), t1, labmap));
        assert(run_sl(c.subrange(1, 2), t1, labmap) == run_sl(c.subrange(2, 2), t2, labmap));
        assert(t2 == MState { a: t, d: s.mem[t], mem: s.mem });
    }
}

/// The store template writes D to the target cell.  For the indirect
/// segments the value is staged in the first scratch cell and the
/// address in the second; the target address is computed from the
/// state the template starts in.
pub proof fn lemma_store_effect(
    seg: MemorySegment,
    idx: nat,
    s: MState,
    labmap: Map<Seq<char>, int>,
)
    requires
        seg != MemorySegment::Constant,
    ensures
        spec_is_ptr_seg(seg) ==> run_sl(spec_store_instrs(seg, idx), s, labmap) == (MState {
            a: target_addr(seg, idx, s),
            d: s.d,
            mem: s.mem.insert(13, s.d).insert(14, target_addr(seg, idx, s)).insert(
                target_addr(seg, idx, s), s.d),
        }),
        !spec_is_ptr_seg(seg) ==> run_sl(spec_store_instrs(seg, idx), s, labmap) == (MState {
            a: target_addr(seg, idx, s),
            d: s.d,
            mem: s.mem.insert(target_addr(seg, idx, s), s.d),
        }),
{
    let c = spec_store_instrs(seg, idx);
    let t = target_addr(seg, idx, s);
    if spec_is_ptr_seg(seg) {
        let t1 = step(c[0], s, labmap);
        let t2 = step(c[1], t1, labmap);
        let t3 = step(c[2], t2, labmap);
        let t4 = step(c[3], t3, labmap);
        let t5 = step(c[4], t4, labmap);
        let t6 = step(c[5], t5, labmap);
        let t7 = step(c[6], t6, labmap);
        let t8 = step(c[7], t7, labmap);
        let t9 = step(c[8], t8, labmap);
        let t10 = step(c[9], t9, labmap);
        let t11 = step(c[10], t10, labmap);
        let t12 = step(c[11], t11, labmap);
        let t13 = step(c[12], t12, labmap);
        assert(c.drop_first() =~= c.subrange(1, 13));
        assert(c.subrange(1, 13).drop_first() =~= c.subrange(2, 13));
        assert(c.subrange(2, 13).drop_first() =~= c.subrange(3, 13));
        assert(c.subrange(3, 13).drop_first() =~= c.subrange(4, 13));
        assert(c.subrange(4, 13).drop_first() =~= c.subrange(5, 13));
        assert(c.subrange(5, 13).drop_first() =~= c.subrange(6, 13));
        assert(c.subrange(6, 13).drop_first() =~= c.subrange(7, 13));
        assert(c.subrange(7, 13).drop_first() =~= c.subrange(8, 13));
        assert(c.subrange(8, 13).drop_first() =~= c.subrange(9, 13));
        assert(c.subrange(9, 13).drop_first() =~= c.subrange(10, 13));
        assert(c.subrange(10, 13).drop_first() =~= c.subrange(11, 13));
        assert(c.subrange(11, 13).drop_first() =~= c.subrange(12, 13));
        assert(c.subrange(12, 13).drop_first() =~= c.subrange(13, 13));
        assert(c.subrange(13, 13).len() == 0);
        assert(run_sl(c, s, labmap) == run_sl(c.subrange(1, 13), t1, labmap));
        assert(run_sl(c.subrange(1, 13), t1, labmap)
            == run_sl(c.subrange(2, 13), t2, labmap));
        assert(run_sl(c.subrange(2, 13), t2, labmap)
            == run_sl(c.subrange(3, 13), t3, labmap));
        assert(run_sl(c.subrange(3, 13), t3, labmap)
            == run_sl(c.subrange(4, 13), t4, labmap));
        assert(run_sl(c.subrange(4, 13), t4, labmap)
            == run_sl(c.subrange(5, 13), t5, labmap));
        assert(run_sl(c.subrange(5, 13), t5, labmap)
            == run_sl(c.subrange(6, 13), t6, labmap));
        assert(run_sl(c.subrange(6, 13), t6, labmap)
            == run_sl(c.subrange(7, 13), t7, labmap));
        assert(run_sl(c.subrange(7, 13), t7, labmap)
            == run_sl(c.subrange(8, 13), t8, labmap));
        assert(run_sl(c.subrange(8, 13), t8, labmap)
            == run_sl(c.subrange(9, 13), t9, labmap));
        assert(run_sl(c.subrange(9, 13), t9, labmap)
            == run_sl(c.subrange(10, 13), t10, labmap));
        assert(run_sl(c.subrange(10, 13), t10, labmap)
            == run_sl(c.subrange(11, 13), t11, labmap));
        assert(run_sl(c.subrange(11, 13), t11, labmap)
            == run_sl(c.subrange(12, 13), t12, labmap));
        assert(run_sl(c.subrange(12, 13), t12, labmap)
            == run_sl(c.subrange(13, 13), t13, labmap));
        // the pointer cell is read after only the first scratch cell
        // has been written, and the pointer cells are not scratch
        assert(t2.mem[sym_addr(spec_seg_ptr(seg))] == s.mem[sym_addr(spec_seg_ptr(seg))]);
        assert(t13 == MState {
            a: t,
            d: s.d,
            mem: s.mem.insert(13, s.d).insert(14, t).insert(t, s.d),
        });
    } else {
        let t1 = step(c[0], s, labmap);
        let t2 = step(c[1], t1, labmap);
        assert(c.drop_first() =~= c.subrange(1, 2));
        assert(c.subrange(1, 2).drop_first() =~= c.subrange(2, 2));
        assert(c.subrange(2, 2).len() == 0);
        assert(run_sl(c, s, labmap) == run_sl(c.subrange(1, 2), t1, labmap));
        assert(run_sl(c.subrange(1, 2), t1, labmap) == run_sl(c.subrange(2, 2), t2, labmap));
        assert(t2 == MState { a: t, d: s.d, mem: s.mem.insert(t, s.d) });
    }
}

/// A push of `seg idx` immediately followed by a pop of the same
/// segment and index leaves every memory cell as it was, apart from
/// the two scratch cells and the dead stack slot above the restored
/// stack pointer; the stack pointer itself returns to its old value.
/// The target cell gets its own value written back.
pub proof fn lemma_push_pop_no_op(
    seg: MemorySegment,
    idx: nat,
    s: MState,
    labmap: Map<Seq<char>, int>,
    c1: nat,
    c2: nat,
)
    requires
        wf_state(s),
        seg != MemorySegment::Constant,
        s.mem[0] >= 16,
        target_addr(seg, idx, s) != 0,
        target_addr(seg, idx, s) != 13,
        target_addr(seg, idx, s) != 14,
    ensures
        ({
            let code = spec_cmd_instrs(SpecCmd::Push(seg, idx), c1)
                + spec_cmd_instrs(SpecCmd::Pop(seg, idx), c2);
            let s2 = run_sl(code, s, labmap);
            &&& jump_free(code)
            &&& s2.mem[0] == s.mem[0]
            &&& s2.mem[target_addr(seg, idx, s)] == s.mem[target_addr(seg, idx, s)]
            &&& forall|addr: int| addr != 13 && addr != 14 && addr != s.mem[0]
                ==> s2.mem[addr] == s.mem[addr]
        }),
{
    let sp = s.mem[0];
    let t = target_addr(seg, idx, s);
    let v = s.mem[t];
    let push_code = spec_cmd_instrs(SpecCmd::Push(seg, idx), c1);
    let pop_code = spec_cmd_instrs(SpecCmd::Pop(seg, idx), c2);
    let code = push_code + pop_code;
    assert forall|k: int| 0 <= k < code.len() implies !is_jump(#[trigger] code[k]) by {
        assert(!is_jump(code[k]));
    }

    lemma_run_sl_concat(push_code, pop_code, s, labmap);
    lemma_run_sl_concat(spec_load_instrs(seg, idx), spec_push_seq(PushSource::Accum), s, labmap);
    lemma_load_effect(seg, idx, s, labmap);
    let sl = MState { a: t, d: v, mem: s.mem };
    lemma_push_effect(PushSource::Accum, sl, labmap);
    let sp_state = MState { a: 0, d: sp + 1, mem: s.mem.insert(sp, v).insert(0, sp + 1) };
    assert(run_sl(push_code, s, labmap) == sp_state);

    lemma_run_sl_concat(spec_pop_seq(), spec_store_instrs(seg, idx), sp_state, labmap);
    lemma_pop_effect(sp_state, labmap);
    assert(sp_state.mem[0] == sp + 1);
    assert(sp_state.mem[sp] == v);
    let sq = MState {
        a: 13,
        d: v,
        mem: sp_state.mem.insert(13, v).insert(0, sp),
    };
    assert(run_sl(spec_pop_seq(), sp_state, labmap) == sq);

    // the pointer cell (if any) still holds its original value
    assert(target_addr(seg, idx, sq) == t);
    lemma_store_effect(seg, idx, sq, labmap);
    let s2 = run_sl(code, s, labmap);
    if spec_is_ptr_seg(seg) {
        assert(s2.mem == sq.mem.insert(13, v).insert(14, t).insert(t, v));
    } else {
        assert(s2.mem == sq.mem.insert(t, v));
    }
    assert(s2.mem[0] == sp);
    assert(s2.mem[t] == v);
}

/// The comparison lowering is exact: `eq` writes true (all bits set)
/// exactly when the two operands are equal, `gt` and `lt` exactly on
/// the strict orderings — equal operands yield false for both.  The
/// right operand is popped; the result replaces the left one.
pub proof fn lemma_comparison_exact(
    op: ArithmeticOpcode,
    ctr: nat,
    s: MState,
    labmap: Map<Seq<char>, int>,
)
    requires
        wf_state(s),
        op == ArithmeticOpcode::Equal || op == ArithmeticOpcode::GreaterThan
            || op == ArithmeticOpcode::LessThan,
        s.mem[0] >= 18,
        labmap[label_name(ctr)] == 18,
    ensures
        ({
            let code = spec_cmd_instrs(SpecCmd::Arithmetic(op), ctr);
            let x = s.mem[s.mem[0] - 2];
            let y = s.mem[s.mem[0] - 1];
            let cond = match op {
                ArithmeticOpcode::Equal => x == y,
                ArithmeticOpcode::GreaterThan => x > y,
                _ => x < y,
            };
            let r = run_pc(code, labmap, 0, s, 20);
            &&& r is Some
            &&& r->0.mem[0] == s.mem[0] - 1
            &&& r->0.mem[s.mem[0] - 2] == (if cond { -1int } else { 0int })
            &&& forall|addr: int| addr != 0 && addr != 13 && addr != s.mem[0] - 2
                ==> r->0.mem[addr] == s.mem[addr]
        }),
{
    let code = spec_cmd_instrs(SpecCmd::Arithmetic(op), ctr);
    let lbl = label_name(ctr);
    let sp = s.mem[0];
    let x = s.mem[sp - 2];
    let y = s.mem[sp - 1];
    assert(code == spec_arith_instrs(op, lbl));
    assert(code.len() == 19);
    assert(code.subrange(0, 9) =~= spec_pop_seq());

    // the fourteen instructions before the branch are jump-free
    assert(jump_free(code.subrange(0, 14)));
    lemma_run_pc_seg(code, labmap, 0, 14, s, 20);
    lemma_run_sl_concat(spec_pop_seq(), code.subrange(9, 14), s, labmap);
    assert(code.subrange(0, 14) =~= spec_pop_seq() + code.subrange(9, 14));
    lemma_pop_effect(s, labmap);
    let s1 = MState { a: 13, d: y, mem: s.mem.insert(13, y).insert(0, sp - 1) };
    assert(run_sl(spec_pop_seq(), s, labmap) == s1);

    // @SP; A=M-1; D=M-D; M=-1; @lbl
    let c9 = code.subrange(9, 14);
    let u1 = step(c9[0], s1, labmap);
    let u2 = step(c9[1], u1, labmap);
    let u3 = step(c9[2], u2, labmap);
    let u4 = step(c9[3], u3, labmap);
    let u5 = step(c9[4], u4, labmap);
    assert(c9.drop_first() =~= c9.subrange(1, 5));
    assert(c9.subrange(1, 5).drop_first() =~= c9.subrange(2, 5));
    assert(c9.subrange(2, 5).drop_first() =~= c9.subrange(3, 5));
    assert(c9.subrange(3, 5).drop_first() =~= c9.subrange(4, 5));
    assert(c9.subrange(4, 5).drop_first() =~= c9.subrange(5, 5));
    assert(c9.subrange(5, 5).len() == 0);
    assert(run_sl(c9, s1, labmap) == run_sl(c9.subrange(1, 5), u1, labmap));
    assert(run_sl(c9.subrange(1, 5), u1, labmap) == run_sl(c9.subrange(2, 5), u2, labmap));
    assert(run_sl(c9.subrange(2, 5), u2, labmap) == run_sl(c9.subrange(3, 5), u3, labmap));
    assert(run_sl(c9.subrange(3, 5), u3, labmap) == run_sl(c9.subrange(4, 5), u4, labmap));
    assert(run_sl(c9.subrange(4, 5), u4, labmap) == run_sl(c9.subrange(5, 5), u5, labmap));
    assert(s1.mem[sp - 2] == x);
    let s2 = MState {
        a: 18,
        d: x - y,
        mem: s.mem.insert(13, y).insert(0, sp - 1).insert(sp - 2, -1),
    };
    assert(u5 == s2);
    assert(run_pc(code, labmap, 0, s, 20)
        == run_pc(code, labmap, 14, s2, 6));

    // the branch
    let cond = match op {
        ArithmeticOpcode::Equal => x == y,
        ArithmeticOpcode::GreaterThan => x > y,
        _ => x < y,
    };
    assert(is_jump(code[14]));
    assert(jump_taken(code[14], s2) == cond);
    if cond {
        // jump to the label definition; nothing more executes
        assert(run_pc(code, labmap, 14, s2, 6) == run_pc(code, labmap, 18, s2, 5));
        assert(!is_jump(code[18]));
        assert(step(code[18], s2, labmap) == s2);
        assert(run_pc(code, labmap, 18, s2, 5) == run_pc(code, labmap, 19, s2, 4));
        assert(run_pc(code, labmap, 19, s2, 4) == Some(s2));
    } else {
        // fall through: write false over the true written above
        assert(run_pc(code, labmap, 14, s2, 6) == run_pc(code, labmap, 15, s2, 5));
        let w1 = step(code[15], s2, labmap);
        let w2 = step(code[16], w1, labmap);
        let w3 = step(code[17], w2, labmap);
        assert(run_pc(code, labmap, 15, s2, 5) == run_pc(code, labmap, 16, w1, 4));
        assert(run_pc(code, labmap, 16, w1, 4) == run_pc(code, labmap, 17, w2, 3));
        assert(run_pc(code, labmap, 17, w2, 3) == run_pc(code, labmap, 18, w3, 2));
        assert(run_pc(code, labmap, 18, w3, 2) == run_pc(code, labmap, 19, w3, 1));
        assert(run_pc(code, labmap, 19, w3, 1) == Some(w3));
        assert(s2.mem[0] == sp - 1);
        assert(w3.mem == s2.mem.insert(sp - 2, 0));
    }
}

proof fn lemma_run_sl_one(i: SpecInstr, s: MState, labmap: Map<Seq<char>, int>)
    ensures
        run_sl(seq![i], s, labmap) == step(i, s, labmap),
{
    assert(seq![i].drop_first() =~= Seq::<SpecInstr>::empty());
    assert(run_sl(Seq::<SpecInstr>::empty(), step(i, s, labmap), labmap)
        == step(i, s, labmap));
}

/// The straight-line part of the call lowering: everything up to and
/// including loading the callee's address, but not the jump.
spec fn call_prefix(f: Seq<char>, nargs: nat, ret: Seq<char>) -> Seq<SpecInstr> {
    seq![SpecInstr::ALabel(ret)] + spec_push_seq(PushSource::Addr)
        + seq![SpecInstr::ASym(AsmSym::LCL)] + spec_push_seq(PushSource::Mem)
        + seq![SpecInstr::ASym(AsmSym::ARG)] + spec_push_seq(PushSource::Mem)
        + seq![SpecInstr::ASym(AsmSym::THIS)] + spec_push_seq(PushSource::Mem)
        + seq![SpecInstr::ASym(AsmSym::THAT)] + spec_push_seq(PushSource::Mem)
        + seq![
            SpecInstr::ANum(nargs),
            SpecInstr::DEqA,
            SpecInstr::ANum(5),
            SpecInstr::DEqDPlusA,
            SpecInstr::ASym(AsmSym::SP),
            SpecInstr::DEqMMinusD,
            SpecInstr::ASym(AsmSym::ARG),
            SpecInstr::MEqD,
            SpecInstr::ASym(AsmSym::SP),
            SpecInstr::DEqM,
            SpecInstr::ASym(AsmSym::LCL),
            SpecInstr::MEqD,
            SpecInstr::ALabel(f),
        ]
}

proof fn lemma_call_split(f: Seq<char>, nargs: nat, ret: Seq<char>)
    ensures
        spec_call_instrs(f, nargs, ret) =~= call_prefix(f, nargs, ret)
            + seq![SpecInstr::Jump, SpecInstr::LabelDef(ret)],
        call_prefix(f, nargs, ret).len() == 53,
        jump_free(call_prefix(f, nargs, ret)),
{
    let c = call_prefix(f, nargs, ret);
    assert forall|i: int| 0 <= i < c.len() implies !is_jump(#[trigger] c[i]) by {
        assert(!is_jump(c[i]));
    }
}

/// The memory after the call prefix runs from `s`: the return address
/// and the four segment pointers pushed in order, the argument pointer
/// moved below the arguments, and the local pointer at the new stack
/// top.
spec fn call_mem(s: MState, ra: int, nargs: nat) -> Map<int, int> {
    let sp = s.mem[0];
    s.mem.insert(sp, ra).insert(0, sp + 1)
        .insert(sp + 1, s.mem[1]).insert(0, sp + 2)
        .insert(sp + 2, s.mem[2]).insert(0, sp + 3)
        .insert(sp + 3, s.mem[3]).insert(0, sp + 4)
        .insert(sp + 4, s.mem[4]).insert(0, sp + 5)
        .insert(2, sp + 5 - (nargs + 5)).insert(1, sp + 5)
}

proof fn lemma_call_prefix_effect(
    f: Seq<char>,
    nargs: nat,
    ret: Seq<char>,
    s: MState,
    labmap: Map<Seq<char>, int>,
)
    requires
        s.mem[0] >= 16,
    ensures
        run_sl(call_prefix(f, nargs, ret), s, labmap) == (MState {
            a: labmap[f],
            d: s.mem[0] + 5,
            mem: call_mem(s, labmap[ret], nargs),
        }),
{
    let sp = s.mem[0];
    let ra = labmap[ret];
    let p0 = seq![SpecInstr::ALabel(ret)];
    let q0 = spec_push_seq(PushSource::Addr);
    let p1 = seq![SpecInstr::ASym(AsmSym::LCL)];
    let q1 = spec_push_seq(PushSource::Mem);
    let p2 = seq![SpecInstr::ASym(AsmSym::ARG)];
    let q2 = spec_push_seq(PushSource::Mem);
    let p3 = seq![SpecInstr::ASym(AsmSym::THIS)];
    let q3 = spec_push_seq(PushSource::Mem);
    let p4 = seq![SpecInstr::ASym(AsmSym::THAT)];
    let q4 = spec_push_seq(PushSource::Mem);
    let tail = seq![
        SpecInstr::ANum(nargs),
        SpecInstr::DEqA,
        SpecInstr::ANum(5),
        SpecInstr::DEqDPlusA,
        SpecInstr::ASym(AsmSym::SP),
        SpecInstr::DEqMMinusD,
        SpecInstr::ASym(AsmSym::ARG),
        SpecInstr::MEqD,
        SpecInstr::ASym(AsmSym::SP),
        SpecInstr::DEqM,
        SpecInstr::ASym(AsmSym::LCL),
        SpecInstr::MEqD,
        SpecInstr::ALabel(f),
    ];
    let c = call_prefix(f, nargs, ret);
    let left = p0 + q0 + p1 + q1 + p2 + q2 + p3 + q3 + p4 + q4;
    assert(c == left + tail);

    // the ten alternating chunks before the tail
    lemma_run_sl_concat(p0 + q0 + p1 + q1 + p2 + q2 + p3 + q3 + p4, q4, s, labmap);
    lemma_run_sl_concat(p0 + q0 + p1 + q1 + p2 + q2 + p3 + q3, p4, s, labmap);
    lemma_run_sl_concat(p0 + q0 + p1 + q1 + p2 + q2 + p3, q3, s, labmap);
    lemma_run_sl_concat(p0 + q0 + p1 + q1 + p2 + q2, p3, s, labmap);
    lemma_run_sl_concat(p0 + q0 + p1 + q1 + p2, q2, s, labmap);
    lemma_run_sl_concat(p0 + q0 + p1 + q1, p2, s, labmap);
    lemma_run_sl_concat(p0 + q0 + p1, q1, s, labmap);
    lemma_run_sl_concat(p0 + q0, p1, s, labmap);
    lemma_run_sl_concat(p0, q0, s, labmap);
    lemma_run_sl_concat(left, tail, s, labmap);

    lemma_run_sl_one(SpecInstr::ALabel(ret), s, labmap);
    let s0 = MState { a: ra, ..s };
    assert(run_sl(p0, s, labmap) == s0);
    lemma_push_effect(PushSource::Addr, s0, labmap);
    let m1 = s.mem.insert(sp, ra).insert(0, sp + 1);
    let s1 = MState { a: 0, d: sp + 1, mem: m1 };
    assert(run_sl(q0, s0, labmap) == s1);

    lemma_run_sl_one(SpecInstr::ASym(AsmSym::LCL), s1, labmap);
    let s1b = MState { a: 1, ..s1 };
    lemma_push_effect(PushSource::Mem, s1b, labmap);
    assert(m1[0] == sp + 1 && m1[1] == s.mem[1]);
    let m2 = m1.insert(sp + 1, s.mem[1]).insert(0, sp + 2);
    let s2 = MState { a: 0, d: sp + 2, mem: m2 };
    assert(run_sl(q1, s1b, labmap) == s2);

    lemma_run_sl_one(SpecInstr::ASym(AsmSym::ARG), s2, labmap);
    let s2b = MState { a: 2, ..s2 };
    lemma_push_effect(PushSource::Mem, s2b, labmap);
    assert(m2[0] == sp + 2 && m2[2] == s.mem[2]);
    let m3 = m2.insert(sp + 2, s.mem[2]).insert(0, sp + 3);
    let s3 = MState { a: 0, d: sp + 3, mem: m3 };
    assert(run_sl(q2, s2b, labmap) == s3);

    lemma_run_sl_one(SpecInstr::ASym(AsmSym::THIS), s3, labmap);
    let s3b = MState { a: 3, ..s3 };
    lemma_push_effect(PushSource::Mem, s3b, labmap);
    assert(m3[0] == sp + 3 && m3[3] == s.mem[3]);
    let m4 = m3.insert(sp + 3, s.mem[3]).insert(0, sp + 4);
    let s4 = MState { a: 0, d: sp + 4, mem: m4 };
    assert(run_sl(q3, s3b, labmap) == s4);

    lemma_run_sl_one(SpecInstr::ASym(AsmSym::THAT), s4, labmap);
    let s4b = MState { a: 4, ..s4 };
    lemma_push_effect(PushSource::Mem, s4b, labmap);
    assert(m4[0] == sp + 4 && m4[4] == s.mem[4]);
    let m5 = m4.insert(sp + 4, s.mem[4]).insert(0, sp + 5);
    let s5 = MState { a: 0, d: sp + 5, mem: m5 };
    assert(run_sl(q4, s4b, labmap) == s5);
    assert(run_sl(left, s, labmap) == s5);

    // the tail: compute the new argument and local pointers
    let u1 = step(tail[0], s5, labmap);
    let u2 = step(tail[1], u1, labmap);
    let u3 = step(tail[2], u2, labmap);
    let u4 = step(tail[3], u3, labmap);
    let u5 = step(tail[4], u4, labmap);
    let u6 = step(tail[5], u5, labmap);
    let u7 = step(tail[6], u6, labmap);
    let u8 = step(tail[7], u7, labmap);
    let u9 = step(tail[8], u8, labmap);
    let u10 = step(tail[9], u9, labmap);
    let u11 = step(tail[10], u10, labmap);
    let u12 = step(tail[11], u11, labmap);
    let u13 = step(tail[12], u12, labmap);
    assert(tail.drop_first() =~= tail.subrange(1, 13));
    assert(tail.subrange(1, 13).drop_first() =~= tail.subrange(2, 13));
    assert(tail.subrange(2, 13).drop_first() =~= tail.subrange(3, 13));
    assert(tail.subrange(3, 13).drop_first() =~= tail.subrange(4, 13));
    assert(tail.subrange(4, 13).drop_first() =~= tail.subrange(5, 13));
    assert(tail.subrange(5, 13).drop_first() =~= tail.subrange(6, 13));
    assert(tail.subrange(6, 13).drop_first() =~= tail.subrange(7, 13));
    assert(tail.subrange(7, 13).drop_first() =~= tail.subrange(8, 13));
    assert(tail.subrange(8, 13).drop_first() =~= tail.subrange(9, 13));
    assert(tail.subrange(9, 13).drop_first() =~= tail.subrange(10, 13));
    assert(tail.subrange(10, 13).drop_first() =~= tail.subrange(11, 13));
    assert(tail.subrange(11, 13).drop_first() =~= tail.subrange(12, 13));
    assert(tail.subrange(12, 13).drop_first() =~= tail.subrange(13, 13));
    assert(tail.subrange(13, 13).len() == 0);
    assert(run_sl(tail, s5, labmap) == run_sl(tail.subrange(1, 13), u1, labmap));
    assert(run_sl(tail.subrange(1, 13), u1, labmap)
        == run_sl(tail.subrange(2, 13), u2, labmap));
    assert(run_sl(tail.subrange(2, 13), u2, labmap)
        == run_sl(tail.subrange(3, 13), u3, labmap));
    assert(run_sl(tail.subrange(3, 13), u3, labmap)
        == run_sl(tail.subrange(4, 13), u4, labmap));
    assert(run_sl(tail.subrange(4, 13), u4, labmap)
        == run_sl(tail.subrange(5, 13), u5, labmap));
    assert(run_sl(tail.subrange(5, 13), u5, labmap)
        == run_sl(tail.subrange(6, 13), u6, labmap));
    assert(run_sl(tail.subrange(6, 13), u6, labmap)
        == run_sl(tail.subrange(7, 13), u7, labmap));
    assert(run_sl(tail.subrange(7, 13), u7, labmap)
        == run_sl(tail.subrange(8, 13), u8, labmap));
    assert(run_sl(tail.subrange(8, 13), u8, labmap)
        == run_sl(tail.subrange(9, 13), u9, labmap));
    assert(run_sl(tail.subrange(9, 13), u9, labmap)
        == run_sl(tail.subrange(10, 13), u10, labmap));
    assert(run_sl(tail.subrange(10, 13), u10, labmap)
        == run_sl(tail.subrange(11, 13), u11, labmap));
    assert(run_sl(tail.subrange(11, 13), u11, labmap)
        == run_sl(tail.subrange(12, 13), u12, labmap));
    assert(run_sl(tail.subrange(12, 13), u12, labmap)
        == run_sl(tail.subrange(13, 13), u13, labmap));
    assert(m5[0] == sp + 5);
    assert(u6.d == sp + 5 - (nargs + 5));
    assert(u13 == MState {
        a: labmap[f],
        d: sp + 5,
        mem: m5.insert(2, sp + 5 - (nargs + 5)).insert(1, sp + 5),
    });
    assert(run_sl(c, s, labmap) == u13);
}

proof fn lemma_run_sl_split(c: Seq<SpecInstr>, k: int, s: MState, labmap: Map<Seq<char>, int>)
    requires
        0 <= k <= c.len(),
    ensures
        run_sl(c, s, labmap) == run_sl(
            c.subrange(k, c.len() as int),
            run_sl(c.subrange(0, k), s, labmap),
            labmap,
        ),
{
    assert(c =~= c.subrange(0, k) + c.subrange(k, c.len() as int));
    lemma_run_sl_concat(c.subrange(0, k), c.subrange(k, c.len() as int), s, labmap);
}

proof fn lemma_run_sl_two(
    i1: SpecInstr,
    i2: SpecInstr,
    s: MState,
    labmap: Map<Seq<char>, int>,
)
    ensures
        run_sl(seq![i1, i2], s, labmap) == step(i2, step(i1, s, labmap), labmap),
{
    assert(seq![i1, i2].drop_first() =~= seq![i2]);
    lemma_run_sl_one(i2, step(i1, s, labmap), labmap);
}

/// The straight-line part of the return lowering: everything but the
/// final jump through the saved return address.
spec fn return_prefix() -> Seq<SpecInstr> {
    spec_pop_seq() + seq![
        SpecInstr::ASym(AsmSym::R14),
        SpecInstr::MEqD,
        SpecInstr::ASym(AsmSym::LCL),
        SpecInstr::DEqM,
        SpecInstr::ASym(AsmSym::SP),
        SpecInstr::MEqD,
        SpecInstr::ASym(AsmSym::ARG),
        SpecInstr::DEqM,
        SpecInstr::ASym(AsmSym::R15),
        SpecInstr::MEqD,
    ] + spec_pop_seq() + seq![SpecInstr::ASym(AsmSym::THAT), SpecInstr::MEqD]
        + spec_pop_seq() + seq![SpecInstr::ASym(AsmSym::THIS), SpecInstr::MEqD]
        + spec_pop_seq() + seq![SpecInstr::ASym(AsmSym::ARG), SpecInstr::MEqD]
        + spec_pop_seq() + seq![SpecInstr::ASym(AsmSym::LCL), SpecInstr::MEqD]
        + spec_pop_seq() + seq![
            SpecInstr::ASym(AsmSym::R13),
            SpecInstr::MEqD,
            SpecInstr::ASym(AsmSym::R15),
            SpecInstr::DEqM,
            SpecInstr::ASym(AsmSym::SP),
            SpecInstr::MEqD,
            SpecInstr::ASym(AsmSym::R14),
        ] + spec_push_seq(PushSource::Mem) + seq![
            SpecInstr::ASym(AsmSym::R13),
            SpecInstr::AEqM,
        ]
}

proof fn lemma_return_split()
    ensures
        spec_return_instrs() =~= return_prefix() + seq![SpecInstr::Jump],
        return_prefix().len() == 88,
        jump_free(return_prefix()),
{
    let c = return_prefix();
    assert forall|i: int| 0 <= i < c.len() implies !is_jump(#[trigger] c[i]) by {
        assert(!is_jump(c[i]));
    }
}

/// The memory after the return prefix runs from `s`.  Writing the
/// values out: `rv` is the popped return value, `l` the local pointer,
/// and the saved that / this / argument / local pointers and the
/// return address are read from the five cells below `l`; the stack
/// pointer ends one past the caller's old argument pointer, where the
/// return value now sits.
spec fn return_mem(s: MState) -> Map<int, int> {
    let spr = s.mem[0];
    let rv = s.mem[spr - 1];
    let l = s.mem[1];
    let a2 = s.mem[2];
    s.mem.insert(13, rv).insert(0, spr - 1)
        .insert(14, rv).insert(0, l).insert(15, a2)
        .insert(13, s.mem[l - 1]).insert(0, l - 1).insert(4, s.mem[l - 1])
        .insert(13, s.mem[l - 2]).insert(0, l - 2).insert(3, s.mem[l - 2])
        .insert(13, s.mem[l - 3]).insert(0, l - 3).insert(2, s.mem[l - 3])
        .insert(13, s.mem[l - 4]).insert(0, l - 4).insert(1, s.mem[l - 4])
        .insert(13, s.mem[l - 5]).insert(0, l - 5)
        .insert(13, s.mem[l - 5])
        .insert(0, a2)
        .insert(a2, rv).insert(0, a2 + 1)
}

#[verifier::rlimit(100)]
proof fn lemma_return_prefix_effect(s: MState, labmap: Map<Seq<char>, int>)
    requires
        s.mem[1] >= 21,
        s.mem[2] >= 16,
    ensures
        run_sl(return_prefix(), s, labmap) == (MState {
            a: s.mem[s.mem[1] - 5],
            d: s.mem[2] + 1,
            mem: return_mem(s),
        }),
{
    let spr = s.mem[0];
    let rv = s.mem[spr - 1];
    let l = s.mem[1];
    let a2 = s.mem[2];
    let t4 = s.mem[l - 1];
    let t3 = s.mem[l - 2];
    let a2p = s.mem[l - 3];
    let l0 = s.mem[l - 4];
    let ra = s.mem[l - 5];
    let c = return_prefix();
    assert(c.len() == 88);

    // pop the return value aside
    assert(c.subrange(0, 9) =~= spec_pop_seq());
    lemma_run_sl_split(c, 9, s, labmap);
    lemma_pop_effect(s, labmap);
    let s1 = MState { a: 13, d: rv, mem: s.mem.insert(13, rv).insert(0, spr - 1) };
    assert(run_sl(c.subrange(0, 9), s, labmap) == s1);
    let c9 = c.subrange(9, 88);

    // R14 = rv; SP = LCL; R15 = ARG
    lemma_run_sl_split(c9, 10, s1, labmap);
    let r10 = c9.subrange(0, 10);
    let w1 = step(r10[0], s1, labmap);
    let w2 = step(r10[1], w1, labmap);
    let w3 = step(r10[2], w2, labmap);
    let w4 = step(r10[3], w3, labmap);
    let w5 = step(r10[4], w4, labmap);
    let w6 = step(r10[5], w5, labmap);
    let w7 = step(r10[6], w6, labmap);
    let w8 = step(r10[7], w7, labmap);
    let w9 = step(r10[8], w8, labmap);
    let w10 = step(r10[9], w9, labmap);
    assert(r10.drop_first() =~= r10.subrange(1, 10));
    assert(r10.subrange(1, 10).drop_first() =~= r10.subrange(2, 10));
    assert(r10.subrange(2, 10).drop_first() =~= r10.subrange(3, 10));
    assert(r10.subrange(3, 10).drop_first() =~= r10.subrange(4, 10));
    assert(r10.subrange(4, 10).drop_first() =~= r10.subrange(5, 10));
    assert(r10.subrange(5, 10).drop_first() =~= r10.subrange(6, 10));
    assert(r10.subrange(6, 10).drop_first() =~= r10.subrange(7, 10));
    assert(r10.subrange(7, 10).drop_first() =~= r10.subrange(8, 10));
    assert(r10.subrange(8, 10).drop_first() =~= r10.subrange(9, 10));
    assert(r10.subrange(9, 10).drop_first() =~= r10.subrange(10, 10));
    assert(r10.subrange(10, 10).len() == 0);
    assert(run_sl(r10, s1, labmap) == run_sl(r10.subrange(1, 10), w1, labmap));
    assert(run_sl(r10.subrange(1, 10), w1, labmap) == run_sl(r10.subrange(2, 10), w2, labmap));
    assert(run_sl(r10.subrange(2, 10), w2, labmap) == run_sl(r10.subrange(3, 10), w3, labmap));
    assert(run_sl(r10.subrange(3, 10), w3, labmap) == run_sl(r10.subrange(4, 10), w4, labmap));
    assert(run_sl(r10.subrange(4, 10), w4, labmap) == run_sl(r10.subrange(5, 10), w5, labmap));
    assert(run_sl(r10.subrange(5, 10), w5, labmap) == run_sl(r10.subrange(6, 10), w6, labmap));
    assert(run_sl(r10.subrange(6, 10), w6, labmap) == run_sl(r10.subrange(7, 10), w7, labmap));
    assert(run_sl(r10.subrange(7, 10), w7, labmap) == run_sl(r10.subrange(8, 10), w8, labmap));
    assert(run_sl(r10.subrange(8, 10), w8, labmap) == run_sl(r10.subrange(9, 10), w9, labmap));
    assert(run_sl(r10.subrange(9, 10), w9, labmap)
        == run_sl(r10.subrange(10, 10), w10, labmap));
    let m2 = s.mem.insert(13, rv).insert(0, spr - 1).insert(14, rv).insert(0, l).insert(15, a2);
    let s2 = MState { a: 15, d: a2, mem: m2 };
    assert(w10 == s2);
    assert(run_sl(r10, s1, labmap) == s2);
    let c19 = c9.subrange(10, 79);
    assert(c19 =~= c.subrange(19, 88));

    // restore THAT
    lemma_run_sl_split(c19, 11, s2, labmap);
    assert(c19.subrange(0, 11) =~= spec_pop_seq() + seq![
        SpecInstr::ASym(AsmSym::THAT), SpecInstr::MEqD]);
    lemma_run_sl_concat(spec_pop_seq(), seq![
        SpecInstr::ASym(AsmSym::THAT), SpecInstr::MEqD], s2, labmap);
    lemma_pop_effect(s2, labmap);
    assert(m2[0] == l && m2[l - 1] == t4);
    let s3p = MState { a: 13, d: t4, mem: m2.insert(13, t4).insert(0, l - 1) };
    lemma_run_sl_two(SpecInstr::ASym(AsmSym::THAT), SpecInstr::MEqD, s3p, labmap);
    let m3 = m2.insert(13, t4).insert(0, l - 1).insert(4, t4);
    let s3 = MState { a: 4, d: t4, mem: m3 };
    assert(run_sl(c19.subrange(0, 11), s2, labmap) == s3);
    let c30 = c19.subrange(11, 69);
    assert(c30 =~= c.subrange(30, 88));

    // restore THIS
    lemma_run_sl_split(c30, 11, s3, labmap);
    assert(c30.subrange(0, 11) =~= spec_pop_seq() + seq![
        SpecInstr::ASym(AsmSym::THIS), SpecInstr::MEqD]);
    lemma_run_sl_concat(spec_pop_seq(), seq![
        SpecInstr::ASym(AsmSym::THIS), SpecInstr::MEqD], s3, labmap);
    lemma_pop_effect(s3, labmap);
    assert(m3[0] == l - 1 && m3[l - 2] == t3);
    let s4p = MState { a: 13, d: t3, mem: m3.insert(13, t3).insert(0, l - 2) };
    lemma_run_sl_two(SpecInstr::ASym(AsmSym::THIS), SpecInstr::MEqD, s4p, labmap);
    let m4 = m3.insert(13, t3).insert(0, l - 2).insert(3, t3);
    let s4 = MState { a: 3, d: t3, mem: m4 };
    assert(run_sl(c30.subrange(0, 11), s3, labmap) == s4);
    let c41 = c30.subrange(11, 58);
    assert(c41 =~= c.subrange(41, 88));

    // restore ARG
    lemma_run_sl_split(c41, 11, s4, labmap);
    assert(c41.subrange(0, 11) =~= spec_pop_seq() + seq![
        SpecInstr::ASym(AsmSym::ARG), SpecInstr::MEqD]);
    lemma_run_sl_concat(spec_pop_seq(), seq![
        SpecInstr::ASym(AsmSym::ARG), SpecInstr::MEqD], s4, labmap);
    lemma_pop_effect(s4, labmap);
    assert(m4[0] == l - 2 && m4[l - 3] == a2p);
    let s5p = MState { a: 13, d: a2p, mem: m4.insert(13, a2p).insert(0, l - 3) };
    lemma_run_sl_two(SpecInstr::ASym(AsmSym::ARG), SpecInstr::MEqD, s5p, labmap);
    let m5 = m4.insert(13, a2p).insert(0, l - 3).insert(2, a2p);
    let s5 = MState { a: 2, d: a2p, mem: m5 };
    assert(run_sl(c41.subrange(0, 11), s4, labmap) == s5);
    let c52 = c41.subrange(11, 47);
    assert(c52 =~= c.subrange(52, 88));

    // restore LCL
    lemma_run_sl_split(c52, 11, s5, labmap);
    assert(c52.subrange(0, 11) =~= spec_pop_seq() + seq![
        SpecInstr::ASym(AsmSym::LCL), SpecInstr::MEqD]);
    lemma_run_sl_concat(spec_pop_seq(), seq![
        SpecInstr::ASym(AsmSym::LCL), SpecInstr::MEqD], s5, labmap);
    lemma_pop_effect(s5, labmap);
    assert(m5[0] == l - 3 && m5[l - 4] == l0);
    let s6p = MState { a: 13, d: l0, mem: m5.insert(13, l0).insert(0, l - 4) };
    lemma_run_sl_two(SpecInstr::ASym(AsmSym::LCL), SpecInstr::MEqD, s6p, labmap);
    let m6 = m5.insert(13, l0).insert(0, l - 4).insert(1, l0);
    let s6 = MState { a: 1, d: l0, mem: m6 };
    assert(run_sl(c52.subrange(0, 11), s5, labmap) == s6);
    let c63 = c52.subrange(11, 36);
    assert(c63 =~= c.subrange(63, 88));

    // pop the return address into R13
    lemma_run_sl_split(c63, 9, s6, labmap);
    assert(c63.subrange(0, 9) =~= spec_pop_seq());
    lemma_pop_effect(s6, labmap);
    assert(m6[0] == l - 4 && m6[l - 5] == ra);
    let m7 = m6.insert(13, ra).insert(0, l - 5);
    let s7 = MState { a: 13, d: ra, mem: m7 };
    assert(run_sl(c63.subrange(0, 9), s6, labmap) == s7);
    let c72 = c63.subrange(9, 25);
    assert(c72 =~= c.subrange(72, 88));

    // R13 = return address; SP = saved ARG; address R14
    lemma_run_sl_split(c72, 7, s7, labmap);
    let r7 = c72.subrange(0, 7);
    let v1 = step(r7[0], s7, labmap);
    let v2 = step(r7[1], v1, labmap);
    let v3 = step(r7[2], v2, labmap);
    let v4 = step(r7[3], v3, labmap);
    let v5 = step(r7[4], v4, labmap);
    let v6 = step(r7[5], v5, labmap);
    let v7 = step(r7[6], v6, labmap);
    assert(r7.drop_first() =~= r7.subrange(1, 7));
    assert(r7.subrange(1, 7).drop_first() =~= r7.subrange(2, 7));
    assert(r7.subrange(2, 7).drop_first() =~= r7.subrange(3, 7));
    assert(r7.subrange(3, 7).drop_first() =~= r7.subrange(4, 7));
    assert(r7.subrange(4, 7).drop_first() =~= r7.subrange(5, 7));
    assert(r7.subrange(5, 7).drop_first() =~= r7.subrange(6, 7));
    assert(r7.subrange(6, 7).drop_first() =~= r7.subrange(7, 7));
    assert(r7.subrange(7, 7).len() == 0);
    assert(run_sl(r7, s7, labmap) == run_sl(r7.subrange(1, 7), v1, labmap));
    assert(run_sl(r7.subrange(1, 7), v1, labmap) == run_sl(r7.subrange(2, 7), v2, labmap));
    assert(run_sl(r7.subrange(2, 7), v2, labmap) == run_sl(r7.subrange(3, 7), v3, labmap));
    assert(run_sl(r7.subrange(3, 7), v3, labmap) == run_sl(r7.subrange(4, 7), v4, labmap));
    assert(run_sl(r7.subrange(4, 7), v4, labmap) == run_sl(r7.subrange(5, 7), v5, labmap));
    assert(run_sl(r7.subrange(5, 7), v5, labmap) == run_sl(r7.subrange(6, 7), v6, labmap));
    assert(run_sl(r7.subrange(6, 7), v6, labmap) == run_sl(r7.subrange(7, 7), v7, labmap));
    assert(m7[15] == a2);
    let m8 = m7.insert(13, ra).insert(0, a2);
    let s8 = MState { a: 14, d: a2, mem: m8 };
    assert(v7 == s8);
    assert(run_sl(r7, s7, labmap) == s8);
    let c79 = c72.subrange(7, 16);
    assert(c79 =~= c.subrange(79, 88));

    // push the return value where the first argument used to sit
    lemma_run_sl_split(c79, 7, s8, labmap);
    assert(c79.subrange(0, 7) =~= spec_push_seq(PushSource::Mem));
    lemma_push_effect(PushSource::Mem, s8, labmap);
    assert(m8[0] == a2 && m8[14] == rv);
    let m9 = m8.insert(a2, rv).insert(0, a2 + 1);
    let s9 = MState { a: 0, d: a2 + 1, mem: m9 };
    assert(run_sl(c79.subrange(0, 7), s8, labmap) == s9);
    let c86 = c79.subrange(7, 9);
    assert(c86 =~= c.subrange(86, 88));

    // load the return address into A
    assert(c86 =~= seq![SpecInstr::ASym(AsmSym::R13), SpecInstr::AEqM]);
    lemma_run_sl_two(SpecInstr::ASym(AsmSym::R13), SpecInstr::AEqM, s9, labmap);
    assert(m9[13] == ra);
    let s10 = MState { a: ra, d: a2 + 1, mem: m9 };
    assert(run_sl(c86, s9, labmap) == s10);

    assert(run_sl(c, s, labmap) == s10);
    assert(m9 == return_mem(s));
}

/// The function prologue for one local followed by `push constant rv`:
/// one zeroed local slot, then the constant, both pushed.
proof fn lemma_prologue_body_effect(rv: nat, s: MState, labmap: Map<Seq<char>, int>)
    ensures
        run_sl(
            spec_fnsetup_instrs(1) + spec_cmd_instrs(
                SpecCmd::Push(MemorySegment::Constant, rv), 0),
            s,
            labmap,
        ) == (MState {
            a: 0,
            d: s.mem[0] + 2,
            mem: s.mem.insert(s.mem[0], 0).insert(0, s.mem[0] + 1)
                .insert(s.mem[0] + 1, rv as int).insert(0, s.mem[0] + 2),
        }),
{
    let sp = s.mem[0];
    let z = seq![SpecInstr::DEqZero];
    let pa = spec_push_seq(PushSource::Accum);
    let ld = seq![SpecInstr::ANum(rv), SpecInstr::DEqA];
    let c = spec_fnsetup_instrs(1) + spec_cmd_instrs(SpecCmd::Push(MemorySegment::Constant, rv), 0);
    assert(spec_fnsetup_instrs(0) =~= Seq::<SpecInstr>::empty());
    assert(spec_fnsetup_instrs(1) =~= z + pa);
    assert(spec_cmd_instrs(SpecCmd::Push(MemorySegment::Constant, rv), 0) == ld + pa);
    assert(c =~= ((z + pa) + ld) + pa);

    lemma_run_sl_concat((z + pa) + ld, pa, s, labmap);
    lemma_run_sl_concat(z + pa, ld, s, labmap);
    lemma_run_sl_concat(z, pa, s, labmap);
    lemma_run_sl_one(SpecInstr::DEqZero, s, labmap);
    let s0 = MState { d: 0, ..s };
    lemma_push_effect(PushSource::Accum, s0, labmap);
    let m1 = s.mem.insert(sp, 0).insert(0, sp + 1);
    let s1 = MState { a: 0, d: sp + 1, mem: m1 };
    assert(run_sl(z + pa, s, labmap) == s1);
    lemma_run_sl_two(SpecInstr::ANum(rv), SpecInstr::DEqA, s1, labmap);
    let s2 = MState { a: rv as int, d: rv as int, mem: m1 };
    assert(run_sl(ld, s1, labmap) == s2);
    lemma_push_effect(PushSource::Accum, s2, labmap);
    assert(m1[0] == sp + 1);
    let s3 = MState {
        a: 0,
        d: sp + 2,
        mem: m1.insert(sp + 1, rv as int).insert(0, sp + 2),
    };
    assert(run_sl(pa, s2, labmap) == s3);
    assert(run_sl(c, s, labmap) == s3);
}

/// The five commands of the round trip: define `f` with one local and
/// a body that pushes `rv`, then call it with two arguments.
pub open spec fn round_trip_cmds(f: Seq<char>, rv: nat) -> Seq<SpecCmd> {
    seq![
        SpecCmd::Label(f),
        SpecCmd::FnSetup(1),
        SpecCmd::Push(MemorySegment::Constant, rv),
        SpecCmd::Return,
        SpecCmd::Call(f, 2),
    ]
}

/// The call / return round trip.  Lower `function f 1` with a body
/// that pushes `rv`, and `call f 2`; place the callee first, and run
/// from the call with the two arguments already on the stack.  The run
/// finishes, and afterwards the stack is exactly one slot higher than
/// it was before the two arguments were pushed: the returned value
/// sits where the first argument did, the four saved segment pointers
/// are restored to their pre-call values, and every cell below the
/// returned value, the register page aside, is untouched.
#[verifier::rlimit(100)]
pub proof fn lemma_call_return_round_trip(
    f: Seq<char>,
    rv: nat,
    s: MState,
    labmap: Map<Seq<char>, int>,
)
    requires
        wf_state(s),
        s.mem[0] >= 18,
        labmap[f] == 0,
        labmap[label_name(0)] == 159,
    ensures
        ({
            let code = crate::translate::spec_program_instrs(round_trip_cmds(f, rv), 0);
            let r = run_pc(code, labmap, 105, s, 200);
            let sp = s.mem[0];
            &&& r is Some
            &&& r->0.mem[0] == sp - 1
            &&& r->0.mem[sp - 2] == rv
            &&& r->0.mem[1] == s.mem[1]
            &&& r->0.mem[2] == s.mem[2]
            &&& r->0.mem[3] == s.mem[3]
            &&& r->0.mem[4] == s.mem[4]
            &&& forall|addr: int| addr < sp - 2 && addr != 0 && addr != 1 && addr != 2
                && addr != 3 && addr != 4 && addr != 13 && addr != 14 && addr != 15
                ==> r->0.mem[addr] == s.mem[addr]
        }),
{
    let sp = s.mem[0];
    let ret = label_name(0);
    let cmds = round_trip_cmds(f, rv);
    let code = crate::translate::spec_program_instrs(cmds, 0);

    // flatten the lowering of the five commands
    let body = spec_cmd_instrs(SpecCmd::Push(MemorySegment::Constant, rv), 0);
    let flat = seq![SpecInstr::LabelDef(f)] + spec_fnsetup_instrs(1) + body
        + spec_return_instrs() + spec_call_instrs(f, 2, ret);
    assert(cmds.drop_first() =~= cmds.subrange(1, 5));
    assert(cmds.subrange(1, 5).drop_first() =~= cmds.subrange(2, 5));
    assert(cmds.subrange(2, 5).drop_first() =~= cmds.subrange(3, 5));
    assert(cmds.subrange(3, 5).drop_first() =~= cmds.subrange(4, 5));
    assert(cmds.subrange(4, 5).drop_first() =~= cmds.subrange(5, 5));
    assert(cmds.subrange(5, 5).len() == 0);
    let r1 = crate::translate::spec_program_instrs(cmds.subrange(1, 5), 0);
    let r2 = crate::translate::spec_program_instrs(cmds.subrange(2, 5), 0);
    let r3 = crate::translate::spec_program_instrs(cmds.subrange(3, 5), 0);
    let r4 = crate::translate::spec_program_instrs(cmds.subrange(4, 5), 0);
    let r5 = crate::translate::spec_program_instrs(cmds.subrange(5, 5), 1);
    assert(cmds.drop_first() =~= cmds.subrange(1, 5));
    assert(code == spec_cmd_instrs(cmds[0], 0) + r1);
    assert(r1 == spec_cmd_instrs(cmds[1], 0) + r2);
    assert(r2 == spec_cmd_instrs(cmds[2], 0) + r3);
    assert(r3 == spec_cmd_instrs(cmds[3], 0) + r4);
    assert(r4 == spec_cmd_instrs(cmds[4], 0) + r5);
    assert(r5 =~= Seq::<SpecInstr>::empty());
    assert(code =~= flat);
    lemma_call_split(f, 2, ret);
    lemma_return_split();
    assert(spec_fnsetup_instrs(0) =~= Seq::<SpecInstr>::empty());
    assert(spec_fnsetup_instrs(1).len() == 7);
    assert(body.len() == 8);
    assert(code.len() == 160);

    // the call's straight-line part, positions 105 to 157
    assert(code.subrange(105, 158) =~= call_prefix(f, 2, ret));
    lemma_run_pc_seg(code, labmap, 105, 158, s, 200);
    lemma_call_prefix_effect(f, 2, ret, s, labmap);
    let m1 = call_mem(s, 159, 2);
    let s1 = MState { a: 0, d: sp + 5, mem: m1 };
    assert(run_sl(code.subrange(105, 158), s, labmap) == s1);
    assert(run_pc(code, labmap, 105, s, 200) == run_pc(code, labmap, 158, s1, 147));

    // the jump to the callee
    assert(code[158] == SpecInstr::Jump);
    assert(run_pc(code, labmap, 158, s1, 147) == run_pc(code, labmap, 0, s1, 146));

    // the function label
    assert(code[0] == SpecInstr::LabelDef(f));
    assert(run_pc(code, labmap, 0, s1, 146) == run_pc(code, labmap, 1, s1, 145));

    // prologue and body, positions 1 to 15
    let pb = spec_fnsetup_instrs(1) + body;
    assert(code.subrange(1, 16) =~= pb);
    assert(jump_free(pb));
    lemma_run_pc_seg(code, labmap, 1, 16, s1, 145);
    lemma_prologue_body_effect(rv, s1, labmap);
    assert(m1[0] == sp + 5);
    let m2 = m1.insert(sp + 5, 0).insert(0, sp + 6).insert(sp + 6, rv as int).insert(0, sp + 7);
    let s2 = MState { a: 0, d: sp + 7, mem: m2 };
    assert(run_sl(code.subrange(1, 16), s1, labmap) == s2);
    assert(run_pc(code, labmap, 1, s1, 145) == run_pc(code, labmap, 16, s2, 130));

    // the return's straight-line part, positions 16 to 103
    assert(code.subrange(16, 104) =~= return_prefix());
    lemma_run_pc_seg(code, labmap, 16, 104, s2, 130);
    assert(m2[1] == sp + 5);
    assert(m2[2] == sp - 2);
    lemma_return_prefix_effect(s2, labmap);
    assert(m2[0] == sp + 7);
    assert(m2[sp + 6] == rv);
    assert(m2[sp + 4] == s.mem[4]);
    assert(m2[sp + 3] == s.mem[3]);
    assert(m2[sp + 2] == s.mem[2]);
    assert(m2[sp + 1] == s.mem[1]);
    assert(m2[sp] == 159);
    let m3 = return_mem(s2);
    let s3 = MState { a: 159, d: sp - 1, mem: m3 };
    assert(run_sl(code.subrange(16, 104), s2, labmap) == s3);
    assert(run_pc(code, labmap, 16, s2, 130) == run_pc(code, labmap, 104, s3, 42));

    // the jump through the saved return address
    assert(code[104] == SpecInstr::Jump);
    assert(run_pc(code, labmap, 104, s3, 42) == run_pc(code, labmap, 159, s3, 41));

    // the return label, and the end of the code
    assert(code[159] == SpecInstr::LabelDef(ret));
    assert(run_pc(code, labmap, 159, s3, 41) == run_pc(code, labmap, 160, s3, 40));
    assert(run_pc(code, labmap, 160, s3, 40) == Some(s3));

    // read the final memory off the insert chain
    assert(s3.mem[0] == sp - 1);
    assert(s3.mem[sp - 2] == rv);
    assert(s3.mem[1] == s.mem[1]);
    assert(s3.mem[2] == s.mem[2]);
    assert(s3.mem[3] == s.mem[3]);
    assert(s3.mem[4] == s.mem[4]);
}

} // verus!
