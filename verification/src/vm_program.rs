//! The intermediate representation: instruction enums, the
//! `VmProgram` accumulator, and their mathematical views.

use vstd::prelude::*;

verus! {

/// The nine arithmetic / logic operations of the VM language.
#[derive(Clone, Copy, PartialEq, Eq, Structural, Debug)]
pub enum ArithmeticOpcode {
    Add,
    Sub,
    Neg,
    Equal,
    GreaterThan,
    LessThan,
    And,
    Or,
    Not,
}

/// The eight memory segments a push / pop instruction can address.
/// `Constant` is push-only.
#[derive(Clone, Copy, PartialEq, Eq, Structural, Debug)]
pub enum MemorySegment {
    Argument,
    Local,
    Static,
    Constant,
    This,
    That,
    Pointer,
    Temp,
}

/// One instruction of the intermediate representation.
///
/// The index of `static` push / pops is rewritten by the parser so that
/// static slots are globally unique across all parsed source texts.
#[derive(Clone, PartialEq, Eq, Debug)]
pub enum VmCommand {
    Arithmetic(ArithmeticOpcode),
    Push(MemorySegment, usize),
    Pop(MemorySegment, usize),
    Label(String),
    FnSetup { num_locals: usize },
    Call { fn_name: String, num_args: usize },
    Goto(String),
    IfGoto(String),
    Return,
}

/// Mathematical model of a [`VmCommand`]: identifiers become character
/// sequences and indices become naturals.
pub ghost enum SpecCmd {
    Arithmetic(ArithmeticOpcode),
    Push(MemorySegment, nat),
    Pop(MemorySegment, nat),
    Label(Seq<char>),
    FnSetup(nat),
    Call(Seq<char>, nat),
    Goto(Seq<char>),
    IfGoto(Seq<char>),
    Return,
}

impl View for VmCommand {
    type V = SpecCmd;

    open spec fn view(&self) -> SpecCmd {
        match self {
            VmCommand::Arithmetic(op) => SpecCmd::Arithmetic(*op),
            VmCommand::Push(seg, i) => SpecCmd::Push(*seg, *i as nat),
            VmCommand::Pop(seg, i) => SpecCmd::Pop(*seg, *i as nat),
            VmCommand::Label(s) => SpecCmd::Label(s@),
            VmCommand::FnSetup { num_locals } => SpecCmd::FnSetup(*num_locals as nat),
            VmCommand::Call { fn_name, num_args } => SpecCmd::Call(fn_name@, *num_args as nat),
            VmCommand::Goto(s) => SpecCmd::Goto(s@),
            VmCommand::IfGoto(s) => SpecCmd::IfGoto(s@),
            VmCommand::Return => SpecCmd::Return,
        }
    }
}

/// Mathematical model of a [`VmProgram`].
pub ghost struct SpecProgram {
    pub commands: Seq<SpecCmd>,
    pub static_size: nat,
}

/// The intermediate program: the ordered instruction sequence
/// accumulated by parsing, plus one past the highest static slot index
/// used by any source text parsed so far.
#[derive(Debug)]
pub struct VmProgram {
    pub commands: Vec<VmCommand>,
    pub static_size: usize,
}

impl View for VmProgram {
    type V = SpecProgram;

    open spec fn view(&self) -> SpecProgram {
        SpecProgram {
            commands: self.commands@.map_values(|c: VmCommand| c@),
            static_size: self.static_size as nat,
        }
    }
}

impl VmProgram {
    /// An empty program: no instructions, no static slots.
    pub fn new() -> (r: Self)
        ensures
            r@.commands == Seq::<SpecCmd>::empty(),
            r@.static_size == 0,
    {
        let r = Self { commands: Vec::new(), static_size: 0 };
        proof {
            assert(r@.commands =~= Seq::<SpecCmd>::empty());
        }
        r
    }

    /// Appends one instruction; the static high-water mark is untouched.
    pub fn push_command(&mut self, command: VmCommand)
        ensures
            final(self)@.commands == old(self)@.commands.push(command@),
            final(self)@.static_size == old(self)@.static_size,
    {
        let ghost c = command@;
        self.commands.push(command);
        proof {
            assert(self@.commands =~= old(self)@.commands.push(c));
        }
    }

    /// Raises the static high-water mark to `required_capacity` if it is
    /// not already that high; it never decreases.
    pub fn increase_static_size(&mut self, required_capacity: usize)
        ensures
            final(self)@.commands == old(self)@.commands,
            final(self)@.static_size == vstd::math::max(
                old(self)@.static_size as int,
                required_capacity as int,
            ),
    {
        if required_capacity > self.static_size {
            self.static_size = required_capacity;
        }
    }
}

} // verus!
