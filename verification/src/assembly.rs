//! The target machine's assembly instructions, as the code generator
//! emits them, and their textual rendering.
//!
//! Only the instruction forms the generator actually uses are modelled:
//! address instructions (`@` a number, a fixed symbol, or a label), label
//! definitions, and the compute instructions of the lowering templates.

use vstd::prelude::*;
use vstd::string::StringExecFns;
use crate::text::{spec_dec, append_dec};

verus! {

/// The fixed symbolic addresses of the register page: the stack
/// pointer, the four segment pointers, and the three scratch cells.
#[derive(Clone, Copy, PartialEq, Eq, Structural, Debug)]
pub enum AsmSym {
    SP,
    LCL,
    ARG,
    THIS,
    THAT,
    R13,
    R14,
    R15,
}

/// The memory address a symbol stands for.
pub open spec fn sym_addr(s: AsmSym) -> int {
    match s {
        AsmSym::SP => 0,
        AsmSym::LCL => 1,
        AsmSym::ARG => 2,
        AsmSym::THIS => 3,
        AsmSym::THAT => 4,
        AsmSym::R13 => 13,
        AsmSym::R14 => 14,
        AsmSym::R15 => 15,
    }
}

/// One assembly instruction.  The compute instructions are named after
/// their text: `MEqMPlusD` is `M=M+D`, `JumpGtD` is `D;JGT`, and so on.
#[derive(Clone, PartialEq, Eq, Debug)]
pub enum AsmInstr {
    ANum(usize),
    ASym(AsmSym),
    ALabel(String),
    LabelDef(String),
    AEqM,
    AEqMMinusOne,
    AEqDPlusA,
    DEqA,
    DEqM,
    DEqZero,
    DEqAPlusOne,
    DEqDPlusA,
    DEqMMinusD,
    MEqD,
    MEqZero,
    MEqMinusOne,
    MEqNegM,
    MEqNotM,
    MEqMPlusD,
    MEqMMinusD,
    MEqMAndD,
    MEqMOrD,
    MEqMMinusOne,
    Jump,
    JumpEqD,
    JumpGtD,
    JumpLtD,
    JumpNeD,
}

/// Mathematical model of an [`AsmInstr`]: label names become character
/// sequences.
pub ghost enum SpecInstr {
    ANum(nat),
    ASym(AsmSym),
    ALabel(Seq<char>),
    LabelDef(Seq<char>),
    AEqM,
    AEqMMinusOne,
    AEqDPlusA,
    DEqA,
    DEqM,
    DEqZero,
    DEqAPlusOne,
    DEqDPlusA,
    DEqMMinusD,
    MEqD,
    MEqZero,
    MEqMinusOne,
    MEqNegM,
    MEqNotM,
    MEqMPlusD,
    MEqMMinusD,
    MEqMAndD,
    MEqMOrD,
    MEqMMinusOne,
    Jump,
    JumpEqD,
    JumpGtD,
    JumpLtD,
    JumpNeD,
}

impl View for AsmInstr {
    type V = SpecInstr;

    open spec fn view(&self) -> SpecInstr {
        match self {
            AsmInstr::ANum(n) => SpecInstr::ANum(*n as nat),
            AsmInstr::ASym(s) => SpecInstr::ASym(*s),
            AsmInstr::ALabel(l) => SpecInstr::ALabel(l@),
            AsmInstr::LabelDef(l) => SpecInstr::LabelDef(l@),
            AsmInstr::AEqM => SpecInstr::AEqM,
            AsmInstr::AEqMMinusOne => SpecInstr::AEqMMinusOne,
            AsmInstr::AEqDPlusA => SpecInstr::AEqDPlusA,
            AsmInstr::DEqA => SpecInstr::DEqA,
            AsmInstr::DEqM => SpecInstr::DEqM,
            AsmInstr::DEqZero => SpecInstr::DEqZero,
            AsmInstr::DEqAPlusOne => SpecInstr::DEqAPlusOne,
            AsmInstr::DEqDPlusA => SpecInstr::DEqDPlusA,
            AsmInstr::DEqMMinusD => SpecInstr::DEqMMinusD,
            AsmInstr::MEqD => SpecInstr::MEqD,
            AsmInstr::MEqZero => SpecInstr::MEqZero,
            AsmInstr::MEqMinusOne => SpecInstr::MEqMinusOne,
            AsmInstr::MEqNegM => SpecInstr::MEqNegM,
            AsmInstr::MEqNotM => SpecInstr::MEqNotM,
            AsmInstr::MEqMPlusD => SpecInstr::MEqMPlusD,
            AsmInstr::MEqMMinusD => SpecInstr::MEqMMinusD,
            AsmInstr::MEqMAndD => SpecInstr::MEqMAndD,
            AsmInstr::MEqMOrD => SpecInstr::MEqMOrD,
            AsmInstr::MEqMMinusOne => SpecInstr::MEqMMinusOne,
            AsmInstr::Jump => SpecInstr::Jump,
            AsmInstr::JumpEqD => SpecInstr::JumpEqD,
            AsmInstr::JumpGtD => SpecInstr::JumpGtD,
            AsmInstr::JumpLtD => SpecInstr::JumpLtD,
            AsmInstr::JumpNeD => SpecInstr::JumpNeD,
        }
    }
}

/// The views of an instruction vector.
pub open spec fn views(s: Seq<AsmInstr>) -> Seq<SpecInstr> {
    s.map_values(|i: AsmInstr| i@)
}

/// The one line of text an instruction renders to, newline included.
/// An unconditional jump is written `0;JMP`, a conditional one tests
/// the D register (`D;JEQ` jumps when D is zero, and so on).
pub open spec fn render1(i: SpecInstr) -> Seq<char> {
    match i {
        SpecInstr::ANum(n) => "@"@ + spec_dec(n) + "\n"@,
        SpecInstr::ASym(s) => match s {
            AsmSym::SP => "@SP\n"@,
            AsmSym::LCL => "@LCL\n"@,
            AsmSym::ARG => "@ARG\n"@,
            AsmSym::THIS => "@THIS\n"@,
            AsmSym::THAT => "@THAT\n"@,
            AsmSym::R13 => "@R13\n"@,
            AsmSym::R14 => "@R14\n"@,
            AsmSym::R15 => "@R15\n"@,
        },
        SpecInstr::ALabel(l) => "@"@ + l + "\n"@,
        SpecInstr::LabelDef(l) => "("@ + l + ")\n"@,
        SpecInstr::AEqM => "A=M\n"@,
        SpecInstr::AEqMMinusOne => "A=M-1\n"@,
        SpecInstr::AEqDPlusA => "A=D+A\n"@,
        SpecInstr::DEqA => "D=A\n"@,
        SpecInstr::DEqM => "D=M\n"@,
        SpecInstr::DEqZero => "D=0\n"@,
        SpecInstr::DEqAPlusOne => "D=A+1\n"@,
        SpecInstr::DEqDPlusA => "D=D+A\n"@,
        SpecInstr::DEqMMinusD => "D=M-D\n"@,
        SpecInstr::MEqD => "M=D\n"@,
        SpecInstr::MEqZero => "M=0\n"@,
        SpecInstr::MEqMinusOne => "M=-1\n"@,
        SpecInstr::MEqNegM => "M=-M\n"@,
        SpecInstr::MEqNotM => "M=!M\n"@,
        SpecInstr::MEqMPlusD => "M=M+D\n"@,
        SpecInstr::MEqMMinusD => "M=M-D\n"@,
        SpecInstr::MEqMAndD => "M=M&D\n"@,
        SpecInstr::MEqMOrD => "M=M|D\n"@,
        SpecInstr::MEqMMinusOne => "M=M-1\n"@,
        SpecInstr::Jump => "0;JMP\n"@,
        SpecInstr::JumpEqD => "D;JEQ\n"@,
        SpecInstr::JumpGtD => "D;JGT\n"@,
        SpecInstr::JumpLtD => "D;JLT\n"@,
        SpecInstr::JumpNeD => "D;JNE\n"@,
    }
}

/// The text of an instruction sequence: each instruction's line, in
/// order.
pub open spec fn render(s: Seq<SpecInstr>) -> Seq<char>
    decreases s.len(),
{
    if s.len() == 0 {
        Seq::empty()
    } else {
        render1(s[0]) + render(s.drop_first())
    }
}

pub proof fn lemma_render_snoc(s: Seq<SpecInstr>, x: SpecInstr)
    ensures
        render(s.push(x)) == render(s) + render1(x),
    decreases s.len(),
{
    if s.len() == 0 {
        assert(s.push(x).drop_first() =~= Seq::<SpecInstr>::empty());
        assert(s.push(x)[0] == x);
        assert(render(s.push(x)) == render1(x) + render(Seq::<SpecInstr>::empty()));
        assert(render1(x) + Seq::<char>::empty() =~= render1(x));
        assert(render(s) + render1(x) =~= render1(x));
    } else {
        assert(s.push(x).drop_first() =~= s.drop_first().push(x));
        lemma_render_snoc(s.drop_first(), x);
        assert(render(s.push(x)) == render1(s[0]) + (render(s.drop_first()) + render1(x)));
        assert(render1(s[0]) + (render(s.drop_first()) + render1(x))
            =~= (render1(s[0]) + render(s.drop_first())) + render1(x));
    }
}

/// Appends the line an instruction renders to.
fn emit(out: &mut String, i: &AsmInstr)
    ensures
        final(out)@ == old(out)@ + render1(i@),
{
    match i {
        AsmInstr::ANum(n) => {
            out.append("@");
            append_dec(out, *n);
            out.append("\n");
            proof {
                assert((old(out)@ + "@"@) + spec_dec(*n as nat) + "\n"@
                    =~= old(out)@ + ("@"@ + spec_dec(*n as nat) + "\n"@));
            }
        },
        AsmInstr::ASym(s) => match s {
            AsmSym::SP => out.append("@SP\n"),
            AsmSym::LCL => out.append("@LCL\n"),
            AsmSym::ARG => out.append("@ARG\n"),
            AsmSym::THIS => out.append("@THIS\n"),
            AsmSym::THAT => out.append("@THAT\n"),
            AsmSym::R13 => out.append("@R13\n"),
            AsmSym::R14 => out.append("@R14\n"),
            AsmSym::R15 => out.append("@R15\n"),
        },
        AsmInstr::ALabel(l) => {
            out.append("@");
            out.append(l.as_str());
            out.append("\n");
            proof {
                assert((old(out)@ + "@"@) + l@ + "\n"@ =~= old(out)@ + ("@"@ + l@ + "\n"@));
            }
        },
        AsmInstr::LabelDef(l) => {
            out.append("(");
            out.append(l.as_str());
            out.append(")\n");
            proof {
                assert((old(out)@ + "("@) + l@ + ")\n"@ =~= old(out)@ + ("("@ + l@ + ")\n"@));
            }
        },
        AsmInstr::AEqM => out.append("A=M\n"),
        AsmInstr::AEqMMinusOne => out.append("A=M-1\n"),
        AsmInstr::AEqDPlusA => out.append("A=D+A\n"),
        AsmInstr::DEqA => out.append("D=A\n"),
        AsmInstr::DEqM => out.append("D=M\n"),
        AsmInstr::DEqZero => out.append("D=0\n"),
        AsmInstr::DEqAPlusOne => out.append("D=A+1\n"),
        AsmInstr::DEqDPlusA => out.append("D=D+A\n"),
        AsmInstr::DEqMMinusD => out.append("D=M-D\n"),
        AsmInstr::MEqD => out.append("M=D\n"),
        AsmInstr::MEqZero => out.append("M=0\n"),
        AsmInstr::MEqMinusOne => out.append("M=-1\n"),
        AsmInstr::MEqNegM => out.append("M=-M\n"),
        AsmInstr::MEqNotM => out.append("M=!M\n"),
        AsmInstr::MEqMPlusD => out.append("M=M+D\n"),
        AsmInstr::MEqMMinusD => out.append("M=M-D\n"),
        AsmInstr::MEqMAndD => out.append("M=M&D\n"),
        AsmInstr::MEqMOrD => out.append("M=M|D\n"),
        AsmInstr::MEqMMinusOne => out.append("M=M-1\n"),
        AsmInstr::Jump => out.append("0;JMP\n"),
        AsmInstr::JumpEqD => out.append("D;JEQ\n"),
        AsmInstr::JumpGtD => out.append("D;JGT\n"),
        AsmInstr::JumpLtD => out.append("D;JLT\n"),
        AsmInstr::JumpNeD => out.append("D;JNE\n"),
    }
}

/// Renders a whole instruction vector to text.
#[verifier::loop_isolation(false)]
pub fn render_all(instrs: &Vec<AsmInstr>) -> (r: String)
    ensures
        r@ == render(views(instrs@)),
{
    let mut out = String::new();
    let mut k: usize = 0;
    proof {
        assert(views(instrs@).take(0) =~= Seq::<SpecInstr>::empty());
        assert(out@ =~= render(views(instrs@).take(0)));
    }
    while k < instrs.len()
        invariant
            k <= instrs@.len(),
            out@ == render(views(instrs@).take(k as int)),
        decreases instrs@.len() - k,
    {
        emit(&mut out, &instrs[k]);
        proof {
            assert(views(instrs@).take(k + 1) =~= views(instrs@).take(k as int).push(
                instrs@[k as int]@));
            lemma_render_snoc(views(instrs@).take(k as int), instrs@[k as int]@);
        }
        k = k + 1;
    }
    proof {
        assert(views(instrs@).take(instrs@.len() as int) =~= views(instrs@));
    }
    out
}

} // verus!
