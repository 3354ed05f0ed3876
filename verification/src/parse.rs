//! The parser: turns one source text into instructions appended to a
//! shared [`VmProgram`], rewriting `static` indices to program-global
//! slots.
//!
//! The grammar is stated by spec functions over character sequences: a
//! token is a maximal run of non-whitespace characters, `//` line
//! comments are skipped between tokens, and each command keyword fixes
//! the grammar of its argument tokens.  The executable parser is proved
//! to follow that statement exactly, errors included.

use vstd::prelude::*;
use vstd::string::{StrSliceExecFns, StringExecFns};
use crate::text::{
    spec_is_ws, is_ws, spec_is_digit, is_digit, spec_digit_val, spec_is_ident_char,
    is_ident_char, chars_vec, text_eq_str, append_chars,
};
use crate::vm_program::{ArithmeticOpcode, MemorySegment, SpecCmd, VmCommand, VmProgram};

verus! {

/// The largest value a push / pop index may take in source text.
pub const MAX_INDEX: usize = 32767;

// ---------------------------------------------------------------------
// Positions
// ---------------------------------------------------------------------

/// Line and column counters saturate at `usize::MAX` instead of wrapping;
/// a source text long enough to reach that bound cannot be held in
/// memory, so the saturation is never observable.
pub open spec fn sat_inc(x: nat) -> nat {
    if x < usize::MAX { x + 1 } else { x }
}

pub open spec fn sat_add(x: nat, y: nat) -> nat {
    if x + y <= usize::MAX { x + y } else { usize::MAX as nat }
}

fn inc_sat(x: usize) -> (r: usize)
    ensures
        r == sat_inc(x as nat),
{
    if x < usize::MAX { x + 1 } else { x }
}

fn add_sat(x: usize, y: usize) -> (r: usize)
    ensures
        r == sat_add(x as nat, y as nat),
{
    if x <= usize::MAX - y { x + y } else { usize::MAX }
}

// ---------------------------------------------------------------------
// Tokenization
// ---------------------------------------------------------------------

/// One token: its 1-based line and column (counted in characters), and
/// its text.
pub ghost struct SpecToken {
    pub line: nat,
    pub col: nat,
    pub text: Seq<char>,
}

/// Advances from `pos` to the start of the next token, skipping
/// whitespace and `//` line comments, updating the line and column
/// counters as each character is passed.  Returns the position of the
/// next token (or the length of `src` if none is left) with the line
/// and column it starts at.  A lone `/` is not skipped: it becomes part
/// of the next token, so the error for it can name what was expected.
pub open spec fn spec_skip(src: Seq<char>, pos: nat, line: nat, col: nat, in_comment: bool)
    -> (nat, nat, nat)
    decreases src.len() - pos,
        when pos <= src.len()
{
    if pos >= src.len() {
        (pos, line, col)
    } else {
        let c = src[pos as int];
        if in_comment {
            if c == '\n' {
                spec_skip(src, pos + 1, sat_inc(line), 1, false)
            } else {
                spec_skip(src, pos + 1, line, sat_inc(col), true)
            }
        } else if spec_is_ws(c) {
            if c == '\n' {
                spec_skip(src, pos + 1, sat_inc(line), 1, false)
            } else {
                spec_skip(src, pos + 1, line, sat_inc(col), false)
            }
        } else if c == '/' && pos + 1 < src.len() && src[pos as int + 1] == '/' {
            spec_skip(src, pos + 2, line, sat_inc(sat_inc(col)), true)
        } else {
            (pos, line, col)
        }
    }
}

/// The end of the token starting at `pos`: the first position at or
/// after `pos` holding whitespace, or the end of `src`.
pub open spec fn spec_token_end(src: Seq<char>, pos: nat) -> nat
    decreases src.len() - pos,
        when pos <= src.len()
{
    if pos >= src.len() {
        pos
    } else if spec_is_ws(src[pos as int]) {
        pos
    } else {
        spec_token_end(src, pos + 1)
    }
}

pub proof fn lemma_skip_bounds(src: Seq<char>, pos: nat, line: nat, col: nat, in_comment: bool)
    requires
        pos <= src.len(),
    ensures
        pos <= spec_skip(src, pos, line, col, in_comment).0,
        spec_skip(src, pos, line, col, in_comment).0 <= src.len(),
        spec_skip(src, pos, line, col, in_comment).0 < src.len()
            ==> !spec_is_ws(src[spec_skip(src, pos, line, col, in_comment).0 as int]),
    decreases src.len() - pos,
{
    if pos < src.len() {
        let c = src[pos as int];
        if in_comment {
            if c == '\n' {
                lemma_skip_bounds(src, pos + 1, sat_inc(line), 1, false);
            } else {
                lemma_skip_bounds(src, pos + 1, line, sat_inc(col), true);
            }
        } else if spec_is_ws(c) {
            if c == '\n' {
                lemma_skip_bounds(src, pos + 1, sat_inc(line), 1, false);
            } else {
                lemma_skip_bounds(src, pos + 1, line, sat_inc(col), false);
            }
        } else if c == '/' && pos + 1 < src.len() && src[pos as int + 1] == '/' {
            lemma_skip_bounds(src, pos + 2, line, sat_inc(sat_inc(col)), true);
        }
    }
}

pub proof fn lemma_token_end_bounds(src: Seq<char>, pos: nat)
    requires
        pos <= src.len(),
    ensures
        pos <= spec_token_end(src, pos),
        spec_token_end(src, pos) <= src.len(),
        pos < src.len() && !spec_is_ws(src[pos as int]) ==> spec_token_end(src, pos) > pos,
    decreases src.len() - pos,
{
    if pos < src.len() && !spec_is_ws(src[pos as int]) {
        lemma_token_end_bounds(src, pos + 1);
    }
}

/// The token stream of a source text, with the line and column reached
/// at the end of the input (where errors about missing tokens point).
pub ghost struct SpecTokens {
    pub toks: Seq<SpecToken>,
    pub end_line: nat,
    pub end_col: nat,
}

pub open spec fn spec_tokenize(src: Seq<char>, pos: nat, line: nat, col: nat) -> SpecTokens
    decreases src.len() - pos,
        when pos <= src.len()
{
    let (p, l, c) = spec_skip(src, pos, line, col, false);
    if p >= src.len() {
        SpecTokens { toks: Seq::empty(), end_line: l, end_col: c }
    } else {
        let e = spec_token_end(src, p);
        let tok = SpecToken { line: l, col: c, text: src.subrange(p as int, e as int) };
        proof {
            lemma_skip_bounds(src, pos, line, col, false);
            lemma_token_end_bounds(src, p);
        }
        let rest = spec_tokenize(src, e, l, sat_add(c, (e - p) as nat));
        SpecTokens { toks: seq![tok] + rest.toks, end_line: rest.end_line, end_col: rest.end_col }
    }
}

// ---------------------------------------------------------------------
// Keywords
// ---------------------------------------------------------------------

/// The leading keyword of a command.
#[derive(Clone, Copy, PartialEq, Eq, Structural, Debug)]
pub enum CommandName {
    Push,
    Pop,
    Label,
    Goto,
    IfGoto,
    Function,
    Return,
    Call,
    Arithmetic(ArithmeticOpcode),
}

pub open spec fn spec_opcode_of(s: Seq<char>) -> Option<ArithmeticOpcode> {
    if s == "add"@ { Some(ArithmeticOpcode::Add) }
    else if s == "sub"@ { Some(ArithmeticOpcode::Sub) }
    else if s == "neg"@ { Some(ArithmeticOpcode::Neg) }
    else if s == "eq"@ { Some(ArithmeticOpcode::Equal) }
    else if s == "gt"@ { Some(ArithmeticOpcode::GreaterThan) }
    else if s == "lt"@ { Some(ArithmeticOpcode::LessThan) }
    else if s == "and"@ { Some(ArithmeticOpcode::And) }
    else if s == "or"@ { Some(ArithmeticOpcode::Or) }
    else if s == "not"@ { Some(ArithmeticOpcode::Not) }
    else { None }
}

pub open spec fn spec_segment_of(s: Seq<char>) -> Option<MemorySegment> {
    if s == "argument"@ { Some(MemorySegment::Argument) }
    else if s == "local"@ { Some(MemorySegment::Local) }
    else if s == "static"@ { Some(MemorySegment::Static) }
    else if s == "constant"@ { Some(MemorySegment::Constant) }
    else if s == "this"@ { Some(MemorySegment::This) }
    else if s == "that"@ { Some(MemorySegment::That) }
    else if s == "pointer"@ { Some(MemorySegment::Pointer) }
    else if s == "temp"@ { Some(MemorySegment::Temp) }
    else { None }
}

pub open spec fn spec_command_of(s: Seq<char>) -> Option<CommandName> {
    if s == "push"@ { Some(CommandName::Push) }
    else if s == "pop"@ { Some(CommandName::Pop) }
    else if s == "label"@ { Some(CommandName::Label) }
    else if s == "goto"@ { Some(CommandName::Goto) }
    else if s == "if-goto"@ { Some(CommandName::IfGoto) }
    else if s == "function"@ { Some(CommandName::Function) }
    else if s == "return"@ { Some(CommandName::Return) }
    else if s == "call"@ { Some(CommandName::Call) }
    else {
        match spec_opcode_of(s) {
            Some(op) => Some(CommandName::Arithmetic(op)),
            None => None,
        }
    }
}

fn opcode_of(t: &Vec<char>) -> (r: Option<ArithmeticOpcode>)
    ensures
        r == spec_opcode_of(t@),
{
    if text_eq_str(t, "add") { Some(ArithmeticOpcode::Add) }
    else if text_eq_str(t, "sub") { Some(ArithmeticOpcode::Sub) }
    else if text_eq_str(t, "neg") { Some(ArithmeticOpcode::Neg) }
    else if text_eq_str(t, "eq") { Some(ArithmeticOpcode::Equal) }
    else if text_eq_str(t, "gt") { Some(ArithmeticOpcode::GreaterThan) }
    else if text_eq_str(t, "lt") { Some(ArithmeticOpcode::LessThan) }
    else if text_eq_str(t, "and") { Some(ArithmeticOpcode::And) }
    else if text_eq_str(t, "or") { Some(ArithmeticOpcode::Or) }
    else if text_eq_str(t, "not") { Some(ArithmeticOpcode::Not) }
    else { None }
}

fn segment_of(t: &Vec<char>) -> (r: Option<MemorySegment>)
    ensures
        r == spec_segment_of(t@),
{
    if text_eq_str(t, "argument") { Some(MemorySegment::Argument) }
    else if text_eq_str(t, "local") { Some(MemorySegment::Local) }
    else if text_eq_str(t, "static") { Some(MemorySegment::Static) }
    else if text_eq_str(t, "constant") { Some(MemorySegment::Constant) }
    else if text_eq_str(t, "this") { Some(MemorySegment::This) }
    else if text_eq_str(t, "that") { Some(MemorySegment::That) }
    else if text_eq_str(t, "pointer") { Some(MemorySegment::Pointer) }
    else if text_eq_str(t, "temp") { Some(MemorySegment::Temp) }
    else { None }
}

fn command_of(t: &Vec<char>) -> (r: Option<CommandName>)
    ensures
        r == spec_command_of(t@),
{
    if text_eq_str(t, "push") { Some(CommandName::Push) }
    else if text_eq_str(t, "pop") { Some(CommandName::Pop) }
    else if text_eq_str(t, "label") { Some(CommandName::Label) }
    else if text_eq_str(t, "goto") { Some(CommandName::Goto) }
    else if text_eq_str(t, "if-goto") { Some(CommandName::IfGoto) }
    else if text_eq_str(t, "function") { Some(CommandName::Function) }
    else if text_eq_str(t, "return") { Some(CommandName::Return) }
    else if text_eq_str(t, "call") { Some(CommandName::Call) }
    else {
        match opcode_of(t) {
            Some(op) => Some(CommandName::Arithmetic(op)),
            None => None,
        }
    }
}

// ---------------------------------------------------------------------
// Argument grammars
// ---------------------------------------------------------------------

pub open spec fn spec_all_digits(s: Seq<char>) -> bool {
    forall|i: int| 0 <= i < s.len() ==> spec_is_digit(s[i])
}

/// Value of a digit string, most significant digit first.
pub open spec fn spec_uint_val(s: Seq<char>) -> nat
    decreases s.len(),
{
    if s.len() == 0 {
        0
    } else {
        spec_uint_val(s.drop_last()) * 10 + spec_digit_val(s.last())
    }
}

/// A token is a well-formed integer argument when it is all digits and
/// its value is at most [`MAX_INDEX`].
pub open spec fn spec_uint_ok(s: Seq<char>) -> bool {
    s.len() > 0 && spec_all_digits(s) && spec_uint_val(s) <= MAX_INDEX
}

/// The first position at or after `i` holding a character illegal in an
/// identifier: anything outside ASCII letters, digits, `_`, `.`, `:`,
/// or a digit in first position.
pub open spec fn spec_ident_err(s: Seq<char>, i: nat) -> Option<nat>
    decreases s.len() - i,
        when i <= s.len()
{
    if i >= s.len() {
        None
    } else if !spec_is_ident_char(s[i as int]) || (spec_is_digit(s[i as int]) && i == 0) {
        Some(i)
    } else {
        spec_ident_err(s, i + 1)
    }
}

// ---------------------------------------------------------------------
// Errors
// ---------------------------------------------------------------------

/// What kind of token the input ended while still requiring.
#[derive(Clone, Copy, PartialEq, Eq, Structural, Debug)]
pub enum ExpectedToken {
    Segment,
    Integer,
    Identifier,
}

/// What went wrong, with the offending text where there is one.
#[derive(Clone, PartialEq, Eq, Debug)]
pub enum ParseErrorKind {
    UnknownCommand { token: String },
    UnknownSegment { token: String },
    MalformedInteger { token: String },
    IllegalIdentifier { ch: char, token: String },
    IllegalPopTarget,
    UnexpectedEndOfFile { expected: ExpectedToken },
}

pub ghost enum SpecErrKind {
    UnknownCommand(Seq<char>),
    UnknownSegment(Seq<char>),
    MalformedInteger(Seq<char>),
    IllegalIdentifier(char, Seq<char>),
    IllegalPopTarget,
    UnexpectedEndOfFile(ExpectedToken),
}

impl View for ParseErrorKind {
    type V = SpecErrKind;

    open spec fn view(&self) -> SpecErrKind {
        match self {
            ParseErrorKind::UnknownCommand { token } => SpecErrKind::UnknownCommand(token@),
            ParseErrorKind::UnknownSegment { token } => SpecErrKind::UnknownSegment(token@),
            ParseErrorKind::MalformedInteger { token } => SpecErrKind::MalformedInteger(token@),
            ParseErrorKind::IllegalIdentifier { ch, token } =>
                SpecErrKind::IllegalIdentifier(*ch, token@),
            ParseErrorKind::IllegalPopTarget => SpecErrKind::IllegalPopTarget,
            ParseErrorKind::UnexpectedEndOfFile { expected } =>
                SpecErrKind::UnexpectedEndOfFile(*expected),
        }
    }
}

/// A parse error, with the kind of failure and where it was found: the
/// label of the source text and the 1-based line and column of the
/// offending (or missing) token.
#[derive(Clone, PartialEq, Eq, Debug)]
pub struct ParseError {
    pub kind: ParseErrorKind,
    pub file: String,
    pub line: usize,
    pub col: usize,
}

pub ghost struct SpecParseError {
    pub kind: SpecErrKind,
    pub file: Seq<char>,
    pub line: nat,
    pub col: nat,
}

impl View for ParseError {
    type V = SpecParseError;

    open spec fn view(&self) -> SpecParseError {
        SpecParseError {
            kind: self.kind@,
            file: self.file@,
            line: self.line as nat,
            col: self.col as nat,
        }
    }
}

fn is_digit_token(s: &str) -> (r: bool)
    ensures
        r == (s@.len() > 0 && spec_all_digits(s@)),
{
    let n = s.unicode_len();
    if n == 0 {
        return false;
    }
    let mut i: usize = 0;
    while i < n
        invariant
            n == s@.len(),
            i <= n,
            forall|j: int| 0 <= j < i ==> spec_is_digit(s@[j]),
        decreases n - i,
    {
        if !is_digit(s.get_char(i)) {
            return false;
        }
        i = i + 1;
    }
    true
}

impl ParseError {
    fn append_footer(&self, out: &mut String)
        ensures
            final(out)@ == old(out)@ + spec_msg_footer(self@),
    {
        let ghost o0 = out@;
        out.append("\nEncountered at ");
        out.append(self.file.as_str());
        out.append(":");
        crate::text::append_dec(out, self.line);
        out.append(":");
        crate::text::append_dec(out, self.col);
        proof {
            assert(out@ =~= o0 + spec_msg_footer(self@));
        }
    }

    /// The single descriptive message of this error, as shown to the
    /// user: the failure, the symbols that would have been accepted
    /// where one was expected, and `file:line:column`.
    pub fn message(&self) -> (r: String)
        ensures
            r@ == spec_error_message(self@),
    {
        let mut out = String::new();
        match &self.kind {
            ParseErrorKind::UnknownCommand { token } => {
                out.append("Found unknown symbol \"");
                out.append(token.as_str());
                out.append(
                    "\", expected one of:\npush, pop, label, goto, if-goto, function, return, call, add, sub, neg, eq, gt, lt, and, or, not.",
                );
            },
            ParseErrorKind::UnknownSegment { token } => {
                out.append("Found unknown symbol \"");
                out.append(token.as_str());
                out.append(
                    "\", expected one of:\nargument, local, static, constant, this, that, pointer, temp.",
                );
            },
            ParseErrorKind::MalformedInteger { token } => {
                if is_digit_token(token.as_str()) {
                    out.append("The integer \"");
                    out.append(token.as_str());
                    out.append("\" is too big (expected 32767 or below).");
                } else {
                    out.append("Expected a nonnegative integer, got \"");
                    out.append(token.as_str());
                    out.append("\" instead.");
                }
            },
            ParseErrorKind::IllegalIdentifier { ch, token } => {
                out.append("Encountered illegal character \'");
                out.push(*ch);
                out.append("\' in identifier \"");
                out.append(token.as_str());
                out.append("\".");
            },
            ParseErrorKind::IllegalPopTarget => {
                out.append("It is illegal to pop data into the `const` segment.");
            },
            ParseErrorKind::UnexpectedEndOfFile { expected } => match expected {
                ExpectedToken::Segment => {
                    out.append(
                        "Unexpected end of file, expected one of:\nargument, local, static, constant, this, that, pointer, temp.",
                    );
                },
                ExpectedToken::Integer => {
                    out.append("Unexpected end of file, expected an integer.");
                },
                ExpectedToken::Identifier => {
                    out.append("Unexpected end of file, expected an identifier.");
                },
            },
        }
        self.append_footer(&mut out);
        proof {
            assert(out@ =~= spec_error_message(self@));
        }
        out
    }
}

/// An error at a position, before the file label is attached.
pub ghost struct SpecErrAt {
    pub kind: SpecErrKind,
    pub line: nat,
    pub col: nat,
}

/// The position trailer of every error message.
pub open spec fn spec_msg_footer(e: SpecParseError) -> Seq<char> {
    "\nEncountered at "@ + e.file + ":"@ + crate::text::spec_dec(e.line) + ":"@
        + crate::text::spec_dec(e.col)
}

/// The single descriptive message of an error: what went wrong, the
/// exhaustive set of symbols that would have been accepted where one
/// was expected, and the file label with the 1-based line and column.
pub open spec fn spec_error_message(e: SpecParseError) -> Seq<char> {
    match e.kind {
        SpecErrKind::UnknownCommand(tok) => "Found unknown symbol \""@ + tok
            + "\", expected one of:\npush, pop, label, goto, if-goto, function, return, call, add, sub, neg, eq, gt, lt, and, or, not."@
            + spec_msg_footer(e),
        SpecErrKind::UnknownSegment(tok) => "Found unknown symbol \""@ + tok
            + "\", expected one of:\nargument, local, static, constant, this, that, pointer, temp."@
            + spec_msg_footer(e),
        SpecErrKind::MalformedInteger(tok) => if tok.len() > 0 && spec_all_digits(tok) {
            "The integer \""@ + tok + "\" is too big (expected 32767 or below)."@
                + spec_msg_footer(e)
        } else {
            "Expected a nonnegative integer, got \""@ + tok + "\" instead."@
                + spec_msg_footer(e)
        },
        SpecErrKind::IllegalIdentifier(ch, tok) => "Encountered illegal character \'"@
            + seq![ch] + "\' in identifier \""@ + tok + "\"."@ + spec_msg_footer(e),
        SpecErrKind::IllegalPopTarget => "It is illegal to pop data into the `const` segment."@
            + spec_msg_footer(e),
        SpecErrKind::UnexpectedEndOfFile(expected) => match expected {
            ExpectedToken::Segment =>
                "Unexpected end of file, expected one of:\nargument, local, static, constant, this, that, pointer, temp."@
                + spec_msg_footer(e),
            ExpectedToken::Integer => "Unexpected end of file, expected an integer."@
                + spec_msg_footer(e),
            ExpectedToken::Identifier => "Unexpected end of file, expected an identifier."@
                + spec_msg_footer(e),
        },
    }
}

// ---------------------------------------------------------------------
// The command grammar over the token stream
// ---------------------------------------------------------------------

/// What parsing one source text does: the instructions appended in
/// order, the program's static high-water mark afterwards, and the
/// first error if one was hit (instructions already appended stay).
pub ghost struct SpecParse {
    pub cmds: Seq<SpecCmd>,
    pub static_size: nat,
    pub err: Option<SpecErrAt>,
}

pub open spec fn spec_stop(ssize: nat, e: SpecErrAt) -> SpecParse {
    SpecParse { cmds: Seq::empty(), static_size: ssize, err: Some(e) }
}

pub open spec fn spec_cons(c: SpecCmd, rest: SpecParse) -> SpecParse {
    SpecParse { cmds: seq![c] + rest.cmds, static_size: rest.static_size, err: rest.err }
}

pub open spec fn spec_cons2(c1: SpecCmd, c2: SpecCmd, rest: SpecParse) -> SpecParse {
    SpecParse { cmds: seq![c1, c2] + rest.cmds, static_size: rest.static_size, err: rest.err }
}

/// The identifier argument expected at `toks[1]`.
pub open spec fn spec_ident_arg(toks: Seq<SpecToken>, eline: nat, ecol: nat)
    -> Result<Seq<char>, SpecErrAt> {
    if toks.len() < 2 {
        Err(SpecErrAt {
            kind: SpecErrKind::UnexpectedEndOfFile(ExpectedToken::Identifier),
            line: eline,
            col: ecol,
        })
    } else {
        let t = toks[1];
        match spec_ident_err(t.text, 0) {
            Some(i) => Err(SpecErrAt {
                kind: SpecErrKind::IllegalIdentifier(t.text[i as int], t.text),
                line: t.line,
                col: t.col,
            }),
            None => Ok(t.text),
        }
    }
}

/// The integer argument expected at `toks[k]`.
pub open spec fn spec_uint_arg(toks: Seq<SpecToken>, k: int, eline: nat, ecol: nat)
    -> Result<nat, SpecErrAt> {
    if toks.len() <= k {
        Err(SpecErrAt {
            kind: SpecErrKind::UnexpectedEndOfFile(ExpectedToken::Integer),
            line: eline,
            col: ecol,
        })
    } else {
        let t = toks[k];
        if spec_uint_ok(t.text) {
            Ok(spec_uint_val(t.text))
        } else {
            Err(SpecErrAt {
                kind: SpecErrKind::MalformedInteger(t.text),
                line: t.line,
                col: t.col,
            })
        }
    }
}

/// The memory-segment argument expected at `toks[1]`; on success also
/// the line and column of the segment token, where an illegal-pop
/// error points.
pub open spec fn spec_seg_arg(toks: Seq<SpecToken>, eline: nat, ecol: nat)
    -> Result<(MemorySegment, nat, nat), SpecErrAt> {
    if toks.len() < 2 {
        Err(SpecErrAt {
            kind: SpecErrKind::UnexpectedEndOfFile(ExpectedToken::Segment),
            line: eline,
            col: ecol,
        })
    } else {
        let t = toks[1];
        match spec_segment_of(t.text) {
            Some(seg) => Ok((seg, t.line, t.col)),
            None => Err(SpecErrAt {
                kind: SpecErrKind::UnknownSegment(t.text),
                line: t.line,
                col: t.col,
            }),
        }
    }
}

/// Parses the token stream against the command grammar, threading the
/// session's `static` base and the program's static high-water mark.
///
/// A `static` index is rewritten to `base` plus the index written in
/// source, and the high-water mark is raised past it.  `pop constant`
/// is refused after its index has been read, so a malformed index
/// reports first.
pub open spec fn spec_parse_toks(
    toks: Seq<SpecToken>,
    eline: nat,
    ecol: nat,
    base: nat,
    ssize: nat,
) -> SpecParse
    decreases toks.len(), 1nat,
{
    if toks.len() == 0 {
        SpecParse { cmds: Seq::empty(), static_size: ssize, err: None }
    } else {
        let t = toks[0];
        match spec_command_of(t.text) {
            None => spec_stop(ssize, SpecErrAt {
                kind: SpecErrKind::UnknownCommand(t.text),
                line: t.line,
                col: t.col,
            }),
            Some(CommandName::Arithmetic(op)) => spec_cons(
                SpecCmd::Arithmetic(op),
                spec_parse_toks(toks.skip(1), eline, ecol, base, ssize),
            ),
            Some(CommandName::Return) => spec_cons(
                SpecCmd::Return,
                spec_parse_toks(toks.skip(1), eline, ecol, base, ssize),
            ),
            Some(CommandName::Label) => match spec_ident_arg(toks, eline, ecol) {
                Err(e) => spec_stop(ssize, e),
                Ok(name) => spec_cons(
                    SpecCmd::Label(name),
                    spec_parse_toks(toks.skip(2), eline, ecol, base, ssize),
                ),
            },
            Some(CommandName::Goto) => match spec_ident_arg(toks, eline, ecol) {
                Err(e) => spec_stop(ssize, e),
                Ok(name) => spec_cons(
                    SpecCmd::Goto(name),
                    spec_parse_toks(toks.skip(2), eline, ecol, base, ssize),
                ),
            },
            Some(CommandName::IfGoto) => match spec_ident_arg(toks, eline, ecol) {
                Err(e) => spec_stop(ssize, e),
                Ok(name) => spec_cons(
                    SpecCmd::IfGoto(name),
                    spec_parse_toks(toks.skip(2), eline, ecol, base, ssize),
                ),
            },
            Some(CommandName::Call) => match spec_ident_arg(toks, eline, ecol) {
                Err(e) => spec_stop(ssize, e),
                Ok(name) => match spec_uint_arg(toks, 2, eline, ecol) {
                    Err(e) => spec_stop(ssize, e),
                    Ok(n) => spec_cons(
                        SpecCmd::Call(name, n),
                        spec_parse_toks(toks.skip(3), eline, ecol, base, ssize),
                    ),
                },
            },
            Some(CommandName::Function) => match spec_ident_arg(toks, eline, ecol) {
                Err(e) => spec_stop(ssize, e),
                Ok(name) => match spec_uint_arg(toks, 2, eline, ecol) {
                    Err(e) => spec_stop(ssize, e),
                    Ok(n) => spec_cons2(
                        SpecCmd::Label(name),
                        SpecCmd::FnSetup(n),
                        spec_parse_toks(toks.skip(3), eline, ecol, base, ssize),
                    ),
                },
            },
            Some(CommandName::Push) => spec_parse_push_pop(toks, eline, ecol, base, ssize, true),
            Some(CommandName::Pop) => spec_parse_push_pop(toks, eline, ecol, base, ssize, false),
        }
    }
}

/// The argument grammar shared by `push` and `pop`.
pub open spec fn spec_parse_push_pop(
    toks: Seq<SpecToken>,
    eline: nat,
    ecol: nat,
    base: nat,
    ssize: nat,
    is_push: bool,
) -> SpecParse
    decreases toks.len(), 0nat,
{
    match spec_seg_arg(toks, eline, ecol) {
        Err(e) => spec_stop(ssize, e),
        Ok((seg, segline, segcol)) => match spec_uint_arg(toks, 2, eline, ecol) {
            Err(e) => spec_stop(ssize, e),
            Ok(v) => {
                if seg == MemorySegment::Static {
                    if base + v + 1 > usize::MAX {
                        spec_stop(ssize, SpecErrAt {
                            kind: SpecErrKind::MalformedInteger(toks[2].text),
                            line: toks[2].line,
                            col: toks[2].col,
                        })
                    } else {
                        let idx = base + v;
                        let ssize2 = if ssize >= idx + 1 { ssize } else { idx + 1 };
                        spec_cons(
                            if is_push { SpecCmd::Push(seg, idx) } else { SpecCmd::Pop(seg, idx) },
                            spec_parse_toks(toks.skip(3), eline, ecol, base, ssize2),
                        )
                    }
                } else if !is_push && seg == MemorySegment::Constant {
                    spec_stop(ssize, SpecErrAt {
                        kind: SpecErrKind::IllegalPopTarget,
                        line: segline,
                        col: segcol,
                    })
                } else {
                    spec_cons(
                        if is_push { SpecCmd::Push(seg, v) } else { SpecCmd::Pop(seg, v) },
                        spec_parse_toks(toks.skip(3), eline, ecol, base, ssize),
                    )
                }
            },
        },
    }
}

/// What parsing `src` does to a program whose static high-water mark is
/// `start_static` (the session's static base is captured from it).
pub open spec fn spec_parse(src: Seq<char>, start_static: nat) -> SpecParse {
    let st = spec_tokenize(src, 0, 1, 1);
    spec_parse_toks(st.toks, st.end_line, st.end_col, start_static, start_static)
}

/// Whether a command's `static` slot (if it has one) lies in
/// `[lo, hi)`.  Commands that do not address the static region hold
/// trivially.
pub open spec fn static_slot_in(c: SpecCmd, lo: nat, hi: nat) -> bool {
    match c {
        SpecCmd::Push(seg, i) => seg == MemorySegment::Static ==> lo <= i < hi,
        SpecCmd::Pop(seg, i) => seg == MemorySegment::Static ==> lo <= i < hi,
        _ => true,
    }
}

/// Every `static` slot a parse of the token stream produces lies at or
/// above the session's base and below the final high-water mark, and
/// the high-water mark never decreases.
pub proof fn lemma_parse_static_bounds(
    toks: Seq<SpecToken>,
    eline: nat,
    ecol: nat,
    base: nat,
    ssize: nat,
)
    requires
        ssize >= base,
    ensures
        ({
            let o = spec_parse_toks(toks, eline, ecol, base, ssize);
            &&& o.static_size >= ssize
            &&& forall|k: int| 0 <= k < o.cmds.len()
                ==> static_slot_in(#[trigger] o.cmds[k], base, o.static_size)
        }),
    decreases toks.len(), 1nat,
{
    let o = spec_parse_toks(toks, eline, ecol, base, ssize);
    if toks.len() == 0 {
    } else {
        let t = toks[0];
        match spec_command_of(t.text) {
            None => {},
            Some(CommandName::Arithmetic(_op)) => {
                lemma_parse_static_bounds(toks.skip(1), eline, ecol, base, ssize);
            },
            Some(CommandName::Return) => {
                lemma_parse_static_bounds(toks.skip(1), eline, ecol, base, ssize);
            },
            Some(CommandName::Label) | Some(CommandName::Goto) | Some(CommandName::IfGoto) => {
                if spec_ident_arg(toks, eline, ecol) is Ok {
                    lemma_parse_static_bounds(toks.skip(2), eline, ecol, base, ssize);
                }
            },
            Some(CommandName::Call) | Some(CommandName::Function) => {
                if spec_ident_arg(toks, eline, ecol) is Ok
                    && spec_uint_arg(toks, 2, eline, ecol) is Ok {
                    lemma_parse_static_bounds(toks.skip(3), eline, ecol, base, ssize);
                }
            },
            Some(CommandName::Push) | Some(CommandName::Pop) => {
                lemma_parse_push_pop_static_bounds(
                    toks, eline, ecol, base, ssize,
                    spec_command_of(t.text) == Some(CommandName::Push),
                );
            },
        }
    }
}

proof fn lemma_parse_push_pop_static_bounds(
    toks: Seq<SpecToken>,
    eline: nat,
    ecol: nat,
    base: nat,
    ssize: nat,
    is_push: bool,
)
    requires
        ssize >= base,
        toks.len() > 0,
    ensures
        ({
            let o = spec_parse_push_pop(toks, eline, ecol, base, ssize, is_push);
            &&& o.static_size >= ssize
            &&& forall|k: int| 0 <= k < o.cmds.len()
                ==> static_slot_in(#[trigger] o.cmds[k], base, o.static_size)
        }),
    decreases toks.len(), 0nat,
{
    if spec_seg_arg(toks, eline, ecol) is Ok && spec_uint_arg(toks, 2, eline, ecol) is Ok {
        let (seg, _sl, _sc) = spec_seg_arg(toks, eline, ecol)->Ok_0;
        let v = spec_uint_arg(toks, 2, eline, ecol)->Ok_0;
        if seg == MemorySegment::Static {
            if base + v + 1 <= usize::MAX {
                let idx = base + v;
                let ssize2 = if ssize >= idx + 1 { ssize } else { idx + 1 };
                lemma_parse_static_bounds(toks.skip(3), eline, ecol, base, ssize2);
            }
        } else if is_push || seg != MemorySegment::Constant {
            lemma_parse_static_bounds(toks.skip(3), eline, ecol, base, ssize);
        }
    }
}

/// Static slots never alias across source texts: parsing one text and
/// then another against the same program puts every `static` slot of
/// the first strictly below the high-water mark the second starts
/// from, and every slot of the second at or above it.
pub proof fn lemma_static_slot_uniqueness(src1: Seq<char>, src2: Seq<char>, start: nat)
    ensures
        ({
            let o1 = spec_parse(src1, start);
            let o2 = spec_parse(src2, o1.static_size);
            &&& start <= o1.static_size <= o2.static_size
            &&& forall|k: int| 0 <= k < o1.cmds.len()
                ==> static_slot_in(#[trigger] o1.cmds[k], start, o1.static_size)
            &&& forall|k: int| 0 <= k < o2.cmds.len()
                ==> static_slot_in(#[trigger] o2.cmds[k], o1.static_size, o2.static_size)
        }),
{
    let st1 = spec_tokenize(src1, 0, 1, 1);
    lemma_parse_static_bounds(st1.toks, st1.end_line, st1.end_col, start, start);
    let o1 = spec_parse(src1, start);
    let st2 = spec_tokenize(src2, 0, 1, 1);
    lemma_parse_static_bounds(st2.toks, st2.end_line, st2.end_col, o1.static_size,
        o1.static_size);
}

// ---------------------------------------------------------------------
// The executable tokenizer
// ---------------------------------------------------------------------

/// One scanned token: 1-based line and column of its first character,
/// and its text.
pub struct Token {
    pub line: usize,
    pub col: usize,
    pub text: Vec<char>,
}

impl View for Token {
    type V = SpecToken;

    open spec fn view(&self) -> SpecToken {
        SpecToken { line: self.line as nat, col: self.col as nat, text: self.text@ }
    }
}

fn skip_ws_exec(src: &Vec<char>, pos: usize, line: usize, col: usize)
    -> (r: (usize, usize, usize))
    requires
        pos <= src@.len(),
    ensures
        r.0 as nat == spec_skip(src@, pos as nat, line as nat, col as nat, false).0,
        r.1 as nat == spec_skip(src@, pos as nat, line as nat, col as nat, false).1,
        r.2 as nat == spec_skip(src@, pos as nat, line as nat, col as nat, false).2,
        pos <= r.0 <= src@.len(),
        r.0 < src@.len() ==> !spec_is_ws(src@[r.0 as int]),
{
    let mut p = pos;
    let mut l = line;
    let mut c = col;
    let mut comment = false;
    loop
        invariant
            pos <= p <= src@.len(),
            spec_skip(src@, pos as nat, line as nat, col as nat, false)
                == spec_skip(src@, p as nat, l as nat, c as nat, comment),
        ensures
            pos <= p <= src@.len(),
            spec_skip(src@, pos as nat, line as nat, col as nat, false)
                == ((p as nat, l as nat, c as nat)),
        decreases src@.len() - p,
    {
        if p >= src.len() {
            proof {
                assert(spec_skip(src@, p as nat, l as nat, c as nat, comment)
                    == ((p as nat, l as nat, c as nat)));
            }
            break;
        }
        let ch = src[p];
        if comment {
            if ch == '\n' {
                l = inc_sat(l);
                c = 1;
                comment = false;
            } else {
                c = inc_sat(c);
            }
            p = p + 1;
        } else if is_ws(ch) {
            if ch == '\n' {
                l = inc_sat(l);
                c = 1;
            } else {
                c = inc_sat(c);
            }
            p = p + 1;
        } else if ch == '/' && p + 1 < src.len() && src[p + 1] == '/' {
            c = inc_sat(inc_sat(c));
            p = p + 2;
            comment = true;
        } else {
            proof {
                assert(spec_skip(src@, p as nat, l as nat, c as nat, comment)
                    == ((p as nat, l as nat, c as nat)));
            }
            break;
        }
    }
    proof {
        lemma_skip_bounds(src@, pos as nat, line as nat, col as nat, false);
    }
    (p, l, c)
}

fn token_end_exec(src: &Vec<char>, pos: usize) -> (r: usize)
    requires
        pos <= src@.len(),
    ensures
        r as nat == spec_token_end(src@, pos as nat),
        pos <= r <= src@.len(),
{
    let mut p = pos;
    loop
        invariant
            pos <= p <= src@.len(),
            spec_token_end(src@, pos as nat) == spec_token_end(src@, p as nat),
        ensures
            pos <= p <= src@.len(),
            spec_token_end(src@, pos as nat) == p as nat,
        decreases src@.len() - p,
    {
        if p >= src.len() {
            proof {
                assert(spec_token_end(src@, p as nat) == p as nat);
            }
            break;
        }
        if is_ws(src[p]) {
            proof {
                assert(spec_token_end(src@, p as nat) == p as nat);
            }
            break;
        }
        p = p + 1;
    }
    p
}

/// Scans the whole source into its token stream, returning also the
/// line and column reached at the end of the input.
fn tokenize(src: &Vec<char>) -> (r: (Vec<Token>, usize, usize))
    ensures
        r.0@.map_values(|t: Token| t@) == spec_tokenize(src@, 0, 1, 1).toks,
        r.1 as nat == spec_tokenize(src@, 0, 1, 1).end_line,
        r.2 as nat == spec_tokenize(src@, 0, 1, 1).end_col,
{
    let ghost st = spec_tokenize(src@, 0, 1, 1);
    let mut toks: Vec<Token> = Vec::new();
    let mut pos: usize = 0;
    let mut line: usize = 1;
    let mut col: usize = 1;
    proof {
        assert(toks@.map_values(|t: Token| t@) =~= Seq::<SpecToken>::empty());
        assert(Seq::<SpecToken>::empty() + spec_tokenize(src@, 0, 1, 1).toks
            =~= spec_tokenize(src@, 0, 1, 1).toks);
    }
    loop
        invariant
            pos <= src@.len(),
            st == spec_tokenize(src@, 0, 1, 1),
            st.toks == toks@.map_values(|t: Token| t@)
                + spec_tokenize(src@, pos as nat, line as nat, col as nat).toks,
            st.end_line == spec_tokenize(src@, pos as nat, line as nat, col as nat).end_line,
            st.end_col == spec_tokenize(src@, pos as nat, line as nat, col as nat).end_col,
        decreases src@.len() - pos,
    {
        let ghost here = spec_tokenize(src@, pos as nat, line as nat, col as nat);
        let (p, l, c) = skip_ws_exec(src, pos, line, col);
        if p >= src.len() {
            proof {
                assert(here.toks =~= Seq::<SpecToken>::empty());
                assert(st.toks =~= toks@.map_values(|t: Token| t@));
            }
            return (toks, l, c);
        }
        let e = token_end_exec(src, p);
        proof {
            lemma_token_end_bounds(src@, p as nat);
        }
        let mut text: Vec<char> = Vec::new();
        let mut j = p;
        proof {
            assert(text@ =~= src@.subrange(p as int, p as int));
        }
        while j < e
            invariant
                p <= j <= e <= src@.len(),
                text@ == src@.subrange(p as int, j as int),
            decreases e - j,
        {
            text.push(src[j]);
            proof {
                assert(src@.subrange(p as int, j as int).push(src@[j as int])
                    =~= src@.subrange(p as int, j + 1));
            }
            j = j + 1;
        }
        let tok = Token { line: l, col: c, text };
        let ghost tokv = tok@;
        let ghost pre = toks@.map_values(|t: Token| t@);
        toks.push(tok);
        let newcol = add_sat(c, e - p);
        proof {
            let rest = spec_tokenize(src@, e as nat, l as nat, sat_add(c as nat, (e - p) as nat));
            assert(here.toks == seq![tokv] + rest.toks);
            assert(toks@.map_values(|t: Token| t@) =~= pre.push(tokv));
            assert(pre + (seq![tokv] + rest.toks) =~= pre.push(tokv) + rest.toks);
        }
        pos = e;
        line = l;
        col = newcol;
    }
}

// ---------------------------------------------------------------------
// Executable argument scanners
// ---------------------------------------------------------------------

fn vec_to_string(t: &Vec<char>) -> (r: String)
    ensures
        r@ == t@,
{
    let mut s = String::new();
    append_chars(&mut s, t);
    s
}

/// Reads a nonnegative integer of at most [`MAX_INDEX`]; anything else
/// (a non-digit, or a larger value) is refused.
fn uint_value(text: &Vec<char>) -> (r: Option<usize>)
    ensures
        match r {
            Some(v) => spec_uint_ok(text@) && v as nat == spec_uint_val(text@),
            None => !spec_uint_ok(text@),
        },
{
    if text.len() == 0 {
        return None;
    }
    let mut acc: usize = 0;
    let mut i: usize = 0;
    proof {
        assert(text@.take(0) =~= Seq::<char>::empty());
    }
    while i < text.len()
        invariant
            i <= text@.len(),
            forall|j: int| 0 <= j < i ==> spec_is_digit(text@[j]),
            (acc <= MAX_INDEX && acc as nat == spec_uint_val(text@.take(i as int)))
                || (acc == MAX_INDEX + 1 && spec_uint_val(text@.take(i as int)) > MAX_INDEX),
        decreases text@.len() - i,
    {
        let ch = text[i];
        if !is_digit(ch) {
            return None;
        }
        let d = (ch as u32 - '0' as u32) as usize;
        proof {
            assert(text@.take(i + 1).drop_last() =~= text@.take(i as int));
            assert(text@.take(i + 1).last() == text@[i as int]);
            assert(spec_uint_val(text@.take(i + 1))
                == spec_uint_val(text@.take(i as int)) * 10 + spec_digit_val(text@[i as int]));
        }
        if acc > MAX_INDEX {
            acc = MAX_INDEX + 1;
        } else {
            acc = acc * 10 + d;
        }
        if acc > MAX_INDEX {
            acc = MAX_INDEX + 1;
        }
        i = i + 1;
    }
    proof {
        assert(text@.take(text@.len() as int) =~= text@);
    }
    if acc <= MAX_INDEX {
        Some(acc)
    } else {
        None
    }
}

/// The identifier argument following the command token at `i`.
fn ident_arg(toks: &Vec<Token>, i: usize, eline: usize, ecol: usize, file_path: &str)
    -> (r: Result<String, ParseError>)
    requires
        i < toks@.len(),
    ensures
        ({
            let sr = spec_ident_arg(
                toks@.map_values(|t: Token| t@).skip(i as int),
                eline as nat,
                ecol as nat,
            );
            match r {
                Ok(s) => sr == Ok::<Seq<char>, SpecErrAt>(s@),
                Err(e) => {
                    &&& sr == Err::<Seq<char>, SpecErrAt>(
                        SpecErrAt { kind: e@.kind, line: e@.line, col: e@.col },
                    )
                    &&& e@.file == file_path@
                },
            }
        }),
{
    let ghost tv = toks@.map_values(|t: Token| t@);
    if toks.len() - i < 2 {
        Err(ParseError {
            kind: ParseErrorKind::UnexpectedEndOfFile { expected: ExpectedToken::Identifier },
            file: file_path.to_owned(),
            line: eline,
            col: ecol,
        })
    } else {
        let t = &toks[i + 1];
        proof {
            assert(tv.skip(i as int)[1] == tv[i + 1]);
        }
        match ident_check(&t.text) {
            None => Ok(vec_to_string(&t.text)),
            Some((_j, c)) => Err(ParseError {
                kind: ParseErrorKind::IllegalIdentifier { ch: c, token: vec_to_string(&t.text) },
                file: file_path.to_owned(),
                line: t.line,
                col: t.col,
            }),
        }
    }
}

/// The integer argument at relative position `k` after the command
/// token at `i`.
fn uint_arg(toks: &Vec<Token>, i: usize, k: usize, eline: usize, ecol: usize, file_path: &str)
    -> (r: Result<usize, ParseError>)
    requires
        i < toks@.len(),
    ensures
        ({
            let sr = spec_uint_arg(
                toks@.map_values(|t: Token| t@).skip(i as int),
                k as int,
                eline as nat,
                ecol as nat,
            );
            match r {
                Ok(v) => sr == Ok::<nat, SpecErrAt>(v as nat) && v <= MAX_INDEX,
                Err(e) => {
                    &&& sr == Err::<nat, SpecErrAt>(
                        SpecErrAt { kind: e@.kind, line: e@.line, col: e@.col },
                    )
                    &&& e@.file == file_path@
                },
            }
        }),
{
    let ghost tv = toks@.map_values(|t: Token| t@);
    if toks.len() - i <= k {
        Err(ParseError {
            kind: ParseErrorKind::UnexpectedEndOfFile { expected: ExpectedToken::Integer },
            file: file_path.to_owned(),
            line: eline,
            col: ecol,
        })
    } else {
        let t = &toks[i + k];
        proof {
            assert(tv.skip(i as int)[k as int] == tv[i + k]);
        }
        match uint_value(&t.text) {
            Some(v) => Ok(v),
            None => Err(ParseError {
                kind: ParseErrorKind::MalformedInteger { token: vec_to_string(&t.text) },
                file: file_path.to_owned(),
                line: t.line,
                col: t.col,
            }),
        }
    }
}

/// The memory-segment argument following the command token at `i`; on
/// success also the line and column of the segment token.
fn seg_arg(toks: &Vec<Token>, i: usize, eline: usize, ecol: usize, file_path: &str)
    -> (r: Result<(MemorySegment, usize, usize), ParseError>)
    requires
        i < toks@.len(),
    ensures
        ({
            let sr = spec_seg_arg(
                toks@.map_values(|t: Token| t@).skip(i as int),
                eline as nat,
                ecol as nat,
            );
            match r {
                Ok((seg, sl, sc)) => sr == Ok::<(MemorySegment, nat, nat), SpecErrAt>(
                    (seg, sl as nat, sc as nat),
                ),
                Err(e) => {
                    &&& sr == Err::<(MemorySegment, nat, nat), SpecErrAt>(
                        SpecErrAt { kind: e@.kind, line: e@.line, col: e@.col },
                    )
                    &&& e@.file == file_path@
                },
            }
        }),
{
    let ghost tv = toks@.map_values(|t: Token| t@);
    if toks.len() - i < 2 {
        Err(ParseError {
            kind: ParseErrorKind::UnexpectedEndOfFile { expected: ExpectedToken::Segment },
            file: file_path.to_owned(),
            line: eline,
            col: ecol,
        })
    } else {
        let t = &toks[i + 1];
        proof {
            assert(tv.skip(i as int)[1] == tv[i + 1]);
        }
        match segment_of(&t.text) {
            Some(seg) => Ok((seg, t.line, t.col)),
            None => Err(ParseError {
                kind: ParseErrorKind::UnknownSegment { token: vec_to_string(&t.text) },
                file: file_path.to_owned(),
                line: t.line,
                col: t.col,
            }),
        }
    }
}

/// Finds the first character illegal in an identifier, if any.
fn ident_check(text: &Vec<char>) -> (r: Option<(usize, char)>)
    ensures
        match r {
            None => spec_ident_err(text@, 0) is None,
            Some((i, c)) => spec_ident_err(text@, 0) == Some(i as nat) && c == text@[i as int],
        },
{
    let mut i: usize = 0;
    while i < text.len()
        invariant
            i <= text@.len(),
            spec_ident_err(text@, 0) == spec_ident_err(text@, i as nat),
        decreases text@.len() - i,
    {
        let ch = text[i];
        if !is_ident_char(ch) || (is_digit(ch) && i == 0) {
            return Some((i, ch));
        }
        i = i + 1;
    }
    None
}

// ---------------------------------------------------------------------
// The parser proper
// ---------------------------------------------------------------------

proof fn lemma_emit1(pre: Seq<SpecCmd>, c: SpecCmd, rest: Seq<SpecCmd>)
    ensures
        pre + (seq![c] + rest) == pre.push(c) + rest,
{
    assert(pre + (seq![c] + rest) =~= pre.push(c) + rest);
}

proof fn lemma_emit2(pre: Seq<SpecCmd>, c1: SpecCmd, c2: SpecCmd, rest: Seq<SpecCmd>)
    ensures
        pre + (seq![c1, c2] + rest) == pre.push(c1).push(c2) + rest,
{
    assert(pre + (seq![c1, c2] + rest) =~= pre.push(c1).push(c2) + rest);
}

/// Parses one source text against the command grammar, appending the
/// instructions it holds to `program` in source order.
///
/// The effect is exactly [`spec_parse`] of the text and the program's
/// static high-water mark at entry: on success every parsed instruction
/// has been appended; on the first error parsing stops, the error names
/// the failure and its position, carries `file_path` as the source
/// label, and the instructions already appended stay.
#[verifier::loop_isolation(false)]
pub fn parse(program: &mut VmProgram, source: &str, file_path: &str)
    -> (r: Result<(), ParseError>)
    ensures
        ({
            let out = spec_parse(source@, old(program)@.static_size);
            &&& final(program)@.commands == old(program)@.commands + out.cmds
            &&& final(program)@.static_size == out.static_size
            &&& match r {
                Ok(()) => out.err is None,
                Err(e) => {
                    &&& out.err == Some(SpecErrAt { kind: e@.kind, line: e@.line, col: e@.col })
                    &&& e@.file == file_path@
                },
            }
        }),
{
    let chars = chars_vec(source);
    let (toks, eline, ecol) = tokenize(&chars);
    let ghost tv = toks@.map_values(|t: Token| t@);
    let base = program.static_size;
    let ghost orig_len = program@.commands.len() as int;
    let ghost full = spec_parse_toks(tv, eline as nat, ecol as nat, base as nat, base as nat);
    proof {
        assert(full == spec_parse(source@, old(program)@.static_size));
        assert(program@.commands.skip(orig_len) =~= Seq::<SpecCmd>::empty());
        assert(program@.commands.skip(orig_len) + full.cmds =~= full.cmds);
        assert(program@.commands.take(orig_len) =~= old(program)@.commands);
        assert(tv.skip(0) =~= tv);
    }
    let mut i: usize = 0;
    loop
        invariant
            i <= toks@.len(),
            tv == toks@.map_values(|t: Token| t@),
            base as nat == old(program)@.static_size,
            orig_len == old(program)@.commands.len(),
            program@.commands.len() >= orig_len,
            program@.commands.take(orig_len) == old(program)@.commands,
            full == spec_parse_toks(tv, eline as nat, ecol as nat, base as nat, base as nat),
            full.cmds == program@.commands.skip(orig_len) + spec_parse_toks(
                tv.skip(i as int), eline as nat, ecol as nat,
                base as nat, program@.static_size,
            ).cmds,
            full.static_size == spec_parse_toks(
                tv.skip(i as int), eline as nat, ecol as nat,
                base as nat, program@.static_size,
            ).static_size,
            full.err == spec_parse_toks(
                tv.skip(i as int), eline as nat, ecol as nat,
                base as nat, program@.static_size,
            ).err,
        decreases toks@.len() - i,
    {
        let ghost ss_now = program@.static_size;
        let ghost sk = tv.skip(i as int);
        let ghost rest_here = spec_parse_toks(sk, eline as nat, ecol as nat, base as nat, ss_now);
        if i >= toks.len() {
            proof {
                assert(sk =~= Seq::<SpecToken>::empty());
                assert(rest_here.cmds =~= Seq::<SpecCmd>::empty());
                assert(program@.commands.skip(orig_len) + rest_here.cmds
                    =~= program@.commands.skip(orig_len));
                assert(program@.commands =~= program@.commands.take(orig_len)
                    + program@.commands.skip(orig_len));
            }
            return Ok(());
        }
        proof {
            assert(sk.len() == tv.len() - i);
            assert(sk[0] == tv[i as int]);
        }
        let t_line = toks[i].line;
        let t_col = toks[i].col;
        let cmd_name = command_of(&toks[i].text);
        match cmd_name {
            None => {
                let token = vec_to_string(&toks[i].text);
                proof {
                    assert(program@.commands =~= program@.commands.take(orig_len)
                        + program@.commands.skip(orig_len));
                }
                return Err(ParseError {
                    kind: ParseErrorKind::UnknownCommand { token },
                    file: file_path.to_owned(),
                    line: t_line,
                    col: t_col,
                });
            },
            Some(CommandName::Arithmetic(op)) => {
                let ghost pre = program@.commands.skip(orig_len);
                program.push_command(VmCommand::Arithmetic(op));
                proof {
                    let rest_next = spec_parse_toks(
                        tv.skip(i + 1), eline as nat, ecol as nat, base as nat, ss_now);
                    assert(sk.skip(1) =~= tv.skip(i + 1));
                    assert(rest_here == spec_cons(SpecCmd::Arithmetic(op), rest_next));
                    lemma_emit1(pre, SpecCmd::Arithmetic(op), rest_next.cmds);
                    assert(program@.commands.skip(orig_len) =~= pre.push(
                        SpecCmd::Arithmetic(op)));
                    assert(program@.commands.take(orig_len) =~= old(program)@.commands);
                }
                i = i + 1;
            },
            Some(CommandName::Return) => {
                let ghost pre = program@.commands.skip(orig_len);
                program.push_command(VmCommand::Return);
                proof {
                    let rest_next = spec_parse_toks(
                        tv.skip(i + 1), eline as nat, ecol as nat, base as nat, ss_now);
                    assert(sk.skip(1) =~= tv.skip(i + 1));
                    assert(rest_here == spec_cons(SpecCmd::Return, rest_next));
                    lemma_emit1(pre, SpecCmd::Return, rest_next.cmds);
                    assert(program@.commands.skip(orig_len) =~= pre.push(SpecCmd::Return));
                    assert(program@.commands.take(orig_len) =~= old(program)@.commands);
                }
                i = i + 1;
            },
            Some(CommandName::Label) => {
                match ident_arg(&toks, i, eline, ecol, file_path) {
                    Err(e) => {
                        proof {
                            assert(program@.commands =~= program@.commands.take(orig_len)
                                + program@.commands.skip(orig_len));
                        }
                        return Err(e);
                    },
                    Ok(name) => {
                        let ghost namev = name@;
                        let ghost pre = program@.commands.skip(orig_len);
                        program.push_command(VmCommand::Label(name));
                        proof {
                            let rest_next = spec_parse_toks(
                                tv.skip(i + 2), eline as nat, ecol as nat, base as nat, ss_now);
                            assert(sk.skip(2) =~= tv.skip(i + 2));
                            assert(rest_here == spec_cons(SpecCmd::Label(namev), rest_next));
                            lemma_emit1(pre, SpecCmd::Label(namev), rest_next.cmds);
                            assert(program@.commands.skip(orig_len)
                                =~= pre.push(SpecCmd::Label(namev)));
                            assert(program@.commands.take(orig_len) =~= old(program)@.commands);
                        }
                        i = i + 2;
                    },
                }
            },
            Some(CommandName::Goto) => {
                match ident_arg(&toks, i, eline, ecol, file_path) {
                    Err(e) => {
                        proof {
                            assert(program@.commands =~= program@.commands.take(orig_len)
                                + program@.commands.skip(orig_len));
                        }
                        return Err(e);
                    },
                    Ok(name) => {
                        let ghost namev = name@;
                        let ghost pre = program@.commands.skip(orig_len);
                        program.push_command(VmCommand::Goto(name));
                        proof {
                            let rest_next = spec_parse_toks(
                                tv.skip(i + 2), eline as nat, ecol as nat, base as nat, ss_now);
                            assert(sk.skip(2) =~= tv.skip(i + 2));
                            assert(rest_here == spec_cons(SpecCmd::Goto(namev), rest_next));
                            lemma_emit1(pre, SpecCmd::Goto(namev), rest_next.cmds);
                            assert(program@.commands.skip(orig_len)
                                =~= pre.push(SpecCmd::Goto(namev)));
                            assert(program@.commands.take(orig_len) =~= old(program)@.commands);
                        }
                        i = i + 2;
                    },
                }
            },
            Some(CommandName::IfGoto) => {
                match ident_arg(&toks, i, eline, ecol, file_path) {
                    Err(e) => {
                        proof {
                            assert(program@.commands =~= program@.commands.take(orig_len)
                                + program@.commands.skip(orig_len));
                        }
                        return Err(e);
                    },
                    Ok(name) => {
                        let ghost namev = name@;
                        let ghost pre = program@.commands.skip(orig_len);
                        program.push_command(VmCommand::IfGoto(name));
                        proof {
                            let rest_next = spec_parse_toks(
                                tv.skip(i + 2), eline as nat, ecol as nat, base as nat, ss_now);
                            assert(sk.skip(2) =~= tv.skip(i + 2));
                            assert(rest_here == spec_cons(SpecCmd::IfGoto(namev), rest_next));
                            lemma_emit1(pre, SpecCmd::IfGoto(namev), rest_next.cmds);
                            assert(program@.commands.skip(orig_len)
                                =~= pre.push(SpecCmd::IfGoto(namev)));
                            assert(program@.commands.take(orig_len) =~= old(program)@.commands);
                        }
                        i = i + 2;
                    },
                }
            },
            Some(CommandName::Call) => {
                match ident_arg(&toks, i, eline, ecol, file_path) {
                    Err(e) => {
                        proof {
                            assert(program@.commands =~= program@.commands.take(orig_len)
                                + program@.commands.skip(orig_len));
                        }
                        return Err(e);
                    },
                    Ok(name) => {
                        match uint_arg(&toks, i, 2, eline, ecol, file_path) {
                            Err(e) => {
                                proof {
                                    assert(program@.commands
                                        =~= program@.commands.take(orig_len)
                                        + program@.commands.skip(orig_len));
                                }
                                return Err(e);
                            },
                            Ok(n) => {
                                let ghost namev = name@;
                                let ghost pre = program@.commands.skip(orig_len);
                                program.push_command(VmCommand::Call {
                                    fn_name: name,
                                    num_args: n,
                                });
                                proof {
                                    let rest_next = spec_parse_toks(
                                        tv.skip(i + 3), eline as nat, ecol as nat,
                                        base as nat, ss_now);
                                    assert(sk.skip(3) =~= tv.skip(i + 3));
                                    assert(rest_here == spec_cons(
                                        SpecCmd::Call(namev, n as nat), rest_next));
                                    lemma_emit1(pre, SpecCmd::Call(namev, n as nat),
                                        rest_next.cmds);
                                    assert(program@.commands.skip(orig_len)
                                        =~= pre.push(SpecCmd::Call(namev, n as nat)));
                                    assert(program@.commands.take(orig_len)
                                        =~= old(program)@.commands);
                                }
                                i = i + 3;
                            },
                        }
                    },
                }
            },
            Some(CommandName::Function) => {
                match ident_arg(&toks, i, eline, ecol, file_path) {
                    Err(e) => {
                        proof {
                            assert(program@.commands =~= program@.commands.take(orig_len)
                                + program@.commands.skip(orig_len));
                        }
                        return Err(e);
                    },
                    Ok(name) => {
                        match uint_arg(&toks, i, 2, eline, ecol, file_path) {
                            Err(e) => {
                                proof {
                                    assert(program@.commands
                                        =~= program@.commands.take(orig_len)
                                        + program@.commands.skip(orig_len));
                                }
                                return Err(e);
                            },
                            Ok(n) => {
                                let ghost namev = name@;
                                let ghost pre = program@.commands.skip(orig_len);
                                program.push_command(VmCommand::Label(name));
                                program.push_command(VmCommand::FnSetup { num_locals: n });
                                proof {
                                    let rest_next = spec_parse_toks(
                                        tv.skip(i + 3), eline as nat, ecol as nat,
                                        base as nat, ss_now);
                                    assert(sk.skip(3) =~= tv.skip(i + 3));
                                    assert(rest_here == spec_cons2(
                                        SpecCmd::Label(namev), SpecCmd::FnSetup(n as nat),
                                        rest_next));
                                    lemma_emit2(pre, SpecCmd::Label(namev),
                                        SpecCmd::FnSetup(n as nat), rest_next.cmds);
                                    assert(program@.commands.skip(orig_len)
                                        =~= pre.push(SpecCmd::Label(namev)).push(
                                            SpecCmd::FnSetup(n as nat)));
                                    assert(program@.commands.take(orig_len)
                                        =~= old(program)@.commands);
                                }
                                i = i + 3;
                            },
                        }
                    },
                }
            },
            Some(CommandName::Push) | Some(CommandName::Pop) => {
                let is_push = match cmd_name {
                    Some(CommandName::Push) => true,
                    _ => false,
                };
                proof {
                    assert(rest_here == spec_parse_push_pop(
                        sk, eline as nat, ecol as nat, base as nat, ss_now, is_push));
                }
                match seg_arg(&toks, i, eline, ecol, file_path) {
                    Err(e) => {
                        proof {
                            assert(rest_here == spec_stop(ss_now,
                                SpecErrAt { kind: e@.kind, line: e@.line, col: e@.col }));
                            assert(program@.commands =~= program@.commands.take(orig_len)
                                + program@.commands.skip(orig_len));
                        }
                        return Err(e);
                    },
                    Ok((seg, segline, segcol)) => {
                        match uint_arg(&toks, i, 2, eline, ecol, file_path) {
                            Err(e) => {
                                proof {
                                    assert(rest_here == spec_stop(ss_now,
                                        SpecErrAt { kind: e@.kind, line: e@.line, col: e@.col }));
                                    assert(program@.commands
                                        =~= program@.commands.take(orig_len)
                                        + program@.commands.skip(orig_len));
                                }
                                return Err(e);
                            },
                            Ok(v) => {
                                if seg == MemorySegment::Static {
                                    if v >= usize::MAX - base {
                                        let t2 = &toks[i + 2];
                                        proof {
                                            assert(sk[2] == tv[i + 2]);
                                            assert(program@.commands
                                                =~= program@.commands.take(orig_len)
                                                + program@.commands.skip(orig_len));
                                        }
                                        return Err(ParseError {
                                            kind: ParseErrorKind::MalformedInteger {
                                                token: vec_to_string(&t2.text),
                                            },
                                            file: file_path.to_owned(),
                                            line: t2.line,
                                            col: t2.col,
                                        });
                                    }
                                    let gidx = base + v;
                                    let ghost pre = program@.commands.skip(orig_len);
                                    program.increase_static_size(gidx + 1);
                                    let cmd = if is_push {
                                        VmCommand::Push(seg, gidx)
                                    } else {
                                        VmCommand::Pop(seg, gidx)
                                    };
                                    let ghost cmdv = cmd@;
                                    program.push_command(cmd);
                                    proof {
                                        let ss2 = program@.static_size;
                                        let rest_next = spec_parse_toks(
                                            tv.skip(i + 3), eline as nat, ecol as nat,
                                            base as nat, ss2);
                                        assert(sk.skip(3) =~= tv.skip(i + 3));
                                        assert(rest_here == spec_cons(cmdv, rest_next));
                                        lemma_emit1(pre, cmdv, rest_next.cmds);
                                        assert(program@.commands.skip(orig_len)
                                            =~= pre.push(cmdv));
                                        assert(program@.commands.take(orig_len)
                                            =~= old(program)@.commands);
                                    }
                                    i = i + 3;
                                } else if !is_push && seg == MemorySegment::Constant {
                                    proof {
                                        assert(program@.commands
                                            =~= program@.commands.take(orig_len)
                                            + program@.commands.skip(orig_len));
                                    }
                                    return Err(ParseError {
                                        kind: ParseErrorKind::IllegalPopTarget,
                                        file: file_path.to_owned(),
                                        line: segline,
                                        col: segcol,
                                    });
                                } else {
                                    let ghost pre = program@.commands.skip(orig_len);
                                    let cmd = if is_push {
                                        VmCommand::Push(seg, v)
                                    } else {
                                        VmCommand::Pop(seg, v)
                                    };
                                    let ghost cmdv = cmd@;
                                    program.push_command(cmd);
                                    proof {
                                        let rest_next = spec_parse_toks(
                                            tv.skip(i + 3), eline as nat, ecol as nat,
                                            base as nat, ss_now);
                                        assert(sk.skip(3) =~= tv.skip(i + 3));
                                        assert(rest_here == spec_cons(cmdv, rest_next));
                                        lemma_emit1(pre, cmdv, rest_next.cmds);
                                        assert(program@.commands.skip(orig_len)
                                            =~= pre.push(cmdv));
                                        assert(program@.commands.take(orig_len)
                                            =~= old(program)@.commands);
                                    }
                                    i = i + 3;
                                }
                            },
                        }
                    },
                }
            },
        }
    }
}

} // verus!
