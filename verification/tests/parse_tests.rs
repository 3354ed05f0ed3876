use vm_translator::parse::{parse, ExpectedToken, ParseErrorKind};
use vm_translator::vm_program::{ArithmeticOpcode, MemorySegment, VmCommand, VmProgram};

fn parse_one(source: &str) -> Result<VmProgram, vm_translator::parse::ParseError> {
    let mut program = VmProgram::new();
    parse(&mut program, source, "test.vm")?;
    Ok(program)
}

#[test]
fn arithmetic_commands_parse() {
    let program = parse_one("add sub neg eq gt lt and or not").unwrap();
    let expected = vec![
        ArithmeticOpcode::Add,
        ArithmeticOpcode::Sub,
        ArithmeticOpcode::Neg,
        ArithmeticOpcode::Equal,
        ArithmeticOpcode::GreaterThan,
        ArithmeticOpcode::LessThan,
        ArithmeticOpcode::And,
        ArithmeticOpcode::Or,
        ArithmeticOpcode::Not,
    ];
    assert_eq!(program.commands.len(), 9);
    for (cmd, op) in program.commands.iter().zip(expected.iter()) {
        assert_eq!(*cmd, VmCommand::Arithmetic(*op));
    }
}

#[test]
fn push_pop_commands_parse() {
    let program = parse_one("push constant 7\npop local 3\npush temp 2\npop that 0").unwrap();
    assert_eq!(
        program.commands,
        vec![
            VmCommand::Push(MemorySegment::Constant, 7),
            VmCommand::Pop(MemorySegment::Local, 3),
            VmCommand::Push(MemorySegment::Temp, 2),
            VmCommand::Pop(MemorySegment::That, 0),
        ]
    );
}

#[test]
fn function_emits_label_and_setup() {
    let program = parse_one("function f.g 2\nreturn").unwrap();
    assert_eq!(
        program.commands,
        vec![
            VmCommand::Label(String::from("f.g")),
            VmCommand::FnSetup { num_locals: 2 },
            VmCommand::Return,
        ]
    );
}

#[test]
fn call_goto_ifgoto_label_parse() {
    let program = parse_one("label a:b\ngoto a:b\nif-goto a:b\ncall fn_1 3").unwrap();
    assert_eq!(
        program.commands,
        vec![
            VmCommand::Label(String::from("a:b")),
            VmCommand::Goto(String::from("a:b")),
            VmCommand::IfGoto(String::from("a:b")),
            VmCommand::Call { fn_name: String::from("fn_1"), num_args: 3 },
        ]
    );
}

#[test]
fn comments_and_whitespace_are_skipped() {
    let program = parse_one("// leading comment\n  push constant 1 // trailing\n\n\tadd\n").unwrap();
    assert_eq!(
        program.commands,
        vec![
            VmCommand::Push(MemorySegment::Constant, 1),
            VmCommand::Arithmetic(ArithmeticOpcode::Add),
        ]
    );
}

#[test]
fn max_index_is_accepted() {
    // the largest legal immediate parses
    let program = parse_one("push constant 32767").unwrap();
    assert_eq!(program.commands, vec![VmCommand::Push(MemorySegment::Constant, 32767)]);
}

#[test]
fn index_past_max_is_a_range_error() {
    // one past the largest legal immediate is refused
    let err = parse_one("push constant 32768").unwrap_err();
    assert_eq!(
        err.kind,
        ParseErrorKind::MalformedInteger { token: String::from("32768") }
    );
    assert_eq!((err.line, err.col), (1, 15));
    assert_eq!(err.file, "test.vm");
}

#[test]
fn pop_constant_is_illegal() {
    let err = parse_one("pop constant 0").unwrap_err();
    assert_eq!(err.kind, ParseErrorKind::IllegalPopTarget);
    // the error points at the segment token
    assert_eq!((err.line, err.col), (1, 5));
}

#[test]
fn pop_local_is_legal() {
    let program = parse_one("pop local 0").unwrap();
    assert_eq!(program.commands, vec![VmCommand::Pop(MemorySegment::Local, 0)]);
}

#[test]
fn non_digit_in_index_is_malformed_integer() {
    // the argument slot of push takes a number, so `3x` fails as an
    // integer, not as an identifier
    let err = parse_one("push argument 3x").unwrap_err();
    assert_eq!(
        err.kind,
        ParseErrorKind::MalformedInteger { token: String::from("3x") }
    );
}

#[test]
fn digits_after_first_are_legal_in_identifiers() {
    let program = parse_one("label a3x").unwrap();
    assert_eq!(program.commands, vec![VmCommand::Label(String::from("a3x"))]);
}

#[test]
fn leading_digit_in_identifier_is_illegal() {
    let err = parse_one("label 9abc").unwrap_err();
    assert_eq!(
        err.kind,
        ParseErrorKind::IllegalIdentifier { ch: '9', token: String::from("9abc") }
    );
}

#[test]
fn bad_character_in_identifier_is_illegal() {
    let err = parse_one("goto ab$c").unwrap_err();
    assert_eq!(
        err.kind,
        ParseErrorKind::IllegalIdentifier { ch: '$', token: String::from("ab$c") }
    );
}

#[test]
fn unknown_command_is_reported() {
    let err = parse_one("frobnicate 1 2").unwrap_err();
    assert_eq!(
        err.kind,
        ParseErrorKind::UnknownCommand { token: String::from("frobnicate") }
    );
    assert_eq!((err.line, err.col), (1, 1));
}

#[test]
fn unknown_segment_is_reported() {
    let err = parse_one("push stack 0").unwrap_err();
    assert_eq!(
        err.kind,
        ParseErrorKind::UnknownSegment { token: String::from("stack") }
    );
    assert_eq!((err.line, err.col), (1, 6));
}

#[test]
fn lone_slash_is_an_unknown_command() {
    // a single slash is not a comment; it becomes a token so the error
    // can show what was expected
    let err = parse_one("/ add").unwrap_err();
    assert_eq!(err.kind, ParseErrorKind::UnknownCommand { token: String::from("/") });
}

#[test]
fn eof_while_expecting_segment() {
    let err = parse_one("push").unwrap_err();
    assert_eq!(
        err.kind,
        ParseErrorKind::UnexpectedEndOfFile { expected: ExpectedToken::Segment }
    );
}

#[test]
fn eof_while_expecting_integer() {
    let err = parse_one("pop local").unwrap_err();
    assert_eq!(
        err.kind,
        ParseErrorKind::UnexpectedEndOfFile { expected: ExpectedToken::Integer }
    );
}

#[test]
fn eof_while_expecting_identifier() {
    let err = parse_one("goto").unwrap_err();
    assert_eq!(
        err.kind,
        ParseErrorKind::UnexpectedEndOfFile { expected: ExpectedToken::Identifier }
    );
}

#[test]
fn eof_between_commands_is_success() {
    let program = parse_one("add   // comment at the end\n   ").unwrap();
    assert_eq!(program.commands.len(), 1);
}

#[test]
fn empty_source_is_success() {
    let program = parse_one("").unwrap();
    assert_eq!(program.commands.len(), 0);
    assert_eq!(program.static_size, 0);
}

#[test]
fn error_position_counts_lines_and_columns() {
    let err = parse_one("add\n  sub\n  pop constant 1").unwrap_err();
    assert_eq!(err.kind, ParseErrorKind::IllegalPopTarget);
    assert_eq!((err.line, err.col), (3, 7));
}

#[test]
fn commands_before_an_error_are_kept() {
    let mut program = VmProgram::new();
    let r = parse(&mut program, "add\npush constant 1\nbogus", "test.vm");
    assert!(r.is_err());
    assert_eq!(
        program.commands,
        vec![
            VmCommand::Arithmetic(ArithmeticOpcode::Add),
            VmCommand::Push(MemorySegment::Constant, 1),
        ]
    );
}

#[test]
fn static_indices_are_offset_per_file() {
    // two files, each numbering its statics from 0, resolve to four
    // distinct program-global slots
    let mut program = VmProgram::new();
    parse(&mut program, "push static 0\npush static 1", "one.vm").unwrap();
    parse(&mut program, "push static 0\npush static 1", "two.vm").unwrap();
    assert_eq!(
        program.commands,
        vec![
            VmCommand::Push(MemorySegment::Static, 0),
            VmCommand::Push(MemorySegment::Static, 1),
            VmCommand::Push(MemorySegment::Static, 2),
            VmCommand::Push(MemorySegment::Static, 3),
        ]
    );
    assert_eq!(program.static_size, 4);
}

#[test]
fn static_high_water_mark_tracks_highest_index() {
    let mut program = VmProgram::new();
    parse(&mut program, "pop static 5", "one.vm").unwrap();
    assert_eq!(program.static_size, 6);
    parse(&mut program, "push static 2", "two.vm").unwrap();
    assert_eq!(
        program.commands,
        vec![
            VmCommand::Pop(MemorySegment::Static, 5),
            VmCommand::Push(MemorySegment::Static, 8),
        ]
    );
    assert_eq!(program.static_size, 9);
}

#[test]
fn leading_zeros_are_legal_in_integers() {
    let program = parse_one("push constant 007").unwrap();
    assert_eq!(program.commands, vec![VmCommand::Push(MemorySegment::Constant, 7)]);
}

#[test]
fn plus_sign_is_not_a_digit() {
    let err = parse_one("push constant +7").unwrap_err();
    assert_eq!(
        err.kind,
        ParseErrorKind::MalformedInteger { token: String::from("+7") }
    );
}

#[test]
fn unknown_command_message_lists_every_keyword() {
    let err = parse_one("bogus").unwrap_err();
    assert_eq!(
        err.message(),
        "Found unknown symbol \"bogus\", expected one of:\npush, pop, label, goto, if-goto, \
         function, return, call, add, sub, neg, eq, gt, lt, and, or, not.\
         \nEncountered at test.vm:1:1"
    );
}

#[test]
fn range_error_message_names_the_limit() {
    let err = parse_one("add\npush constant 40000").unwrap_err();
    assert_eq!(
        err.message(),
        "The integer \"40000\" is too big (expected 32767 or below).\
         \nEncountered at test.vm:2:15"
    );
}

#[test]
fn non_numeric_message_shows_the_token() {
    let err = parse_one("push constant xy").unwrap_err();
    assert_eq!(
        err.message(),
        "Expected a nonnegative integer, got \"xy\" instead.\nEncountered at test.vm:1:15"
    );
}

#[test]
fn illegal_identifier_message_names_the_character() {
    let err = parse_one("label a%b").unwrap_err();
    assert_eq!(
        err.message(),
        "Encountered illegal character '%' in identifier \"a%b\".\nEncountered at test.vm:1:7"
    );
}

#[test]
fn eof_message_for_missing_segment_lists_segments() {
    let err = parse_one("pop").unwrap_err();
    assert_eq!(
        err.message(),
        "Unexpected end of file, expected one of:\nargument, local, static, constant, this, \
         that, pointer, temp.\nEncountered at test.vm:1:4"
    );
}

#[test]
fn multibyte_characters_count_one_column() {
    // the offending token sits after a two-character (multi-byte) word
    let err = parse_one("\u{e9}\u{e9} x").unwrap_err();
    assert_eq!(err.kind, ParseErrorKind::UnknownCommand { token: String::from("\u{e9}\u{e9}") });
    assert_eq!((err.line, err.col), (1, 1));
}
