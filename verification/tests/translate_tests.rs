use vm_translator::parse::parse;
use vm_translator::translate::{translate, TranslateError};
use vm_translator::vm_program::{MemorySegment, VmCommand, VmProgram};

/// A small interpreter for the generated assembly, used to check the
/// stack-machine semantics end to end.  Cells hold plain integers.
struct Machine {
    a: i64,
    d: i64,
    mem: Vec<i64>,
}

enum Instr {
    ANum(i64),
    CLine(String),
}

fn assemble(text: &str) -> (Vec<Instr>, std::collections::HashMap<String, usize>) {
    let mut instrs = Vec::new();
    let mut labels = std::collections::HashMap::new();
    for line in text.lines() {
        let line = line.trim();
        if line.is_empty() {
            continue;
        }
        if let Some(name) = line.strip_prefix('(') {
            let name = name.strip_suffix(')').expect("unterminated label definition");
            labels.insert(name.to_string(), instrs.len());
        } else if let Some(sym) = line.strip_prefix('@') {
            match sym {
                "SP" => instrs.push(Instr::ANum(0)),
                "LCL" => instrs.push(Instr::ANum(1)),
                "ARG" => instrs.push(Instr::ANum(2)),
                "THIS" => instrs.push(Instr::ANum(3)),
                "THAT" => instrs.push(Instr::ANum(4)),
                "R13" => instrs.push(Instr::ANum(13)),
                "R14" => instrs.push(Instr::ANum(14)),
                "R15" => instrs.push(Instr::ANum(15)),
                _ => match sym.parse::<i64>() {
                    Ok(n) => instrs.push(Instr::ANum(n)),
                    Err(_) => instrs.push(Instr::CLine(format!("@{}", sym))),
                },
            }
        } else {
            instrs.push(Instr::CLine(line.to_string()));
        }
    }
    (instrs, labels)
}

fn run(text: &str, machine: &mut Machine) {
    let (instrs, labels) = assemble(text);
    let mut pc: usize = 0;
    let mut steps: u64 = 0;
    while pc < instrs.len() {
        steps += 1;
        assert!(steps < 1_000_000, "interpreter step budget exceeded");
        let line: &str = match &instrs[pc] {
            Instr::ANum(n) => {
                machine.a = *n;
                pc += 1;
                continue;
            }
            Instr::CLine(s) => s.as_str(),
        };
        if let Some(name) = line.strip_prefix('@') {
            machine.a = labels[name] as i64;
            pc += 1;
            continue;
        }
        let addr = machine.a as usize;
        match line {
            "A=M" => machine.a = machine.mem[addr],
            "A=M-1" => machine.a = machine.mem[addr] - 1,
            "A=D+A" => machine.a = machine.d + machine.a,
            "D=A" => machine.d = machine.a,
            "D=M" => machine.d = machine.mem[addr],
            "D=0" => machine.d = 0,
            "D=A+1" => machine.d = machine.a + 1,
            "D=D+A" => machine.d = machine.d + machine.a,
            "D=M-D" => machine.d = machine.mem[addr] - machine.d,
            "M=D" => machine.mem[addr] = machine.d,
            "M=0" => machine.mem[addr] = 0,
            "M=-1" => machine.mem[addr] = -1,
            "M=-M" => machine.mem[addr] = -machine.mem[addr],
            "M=!M" => machine.mem[addr] = -machine.mem[addr] - 1,
            "M=M+D" => machine.mem[addr] = machine.mem[addr] + machine.d,
            "M=M-D" => machine.mem[addr] = machine.mem[addr] - machine.d,
            "M=M&D" => machine.mem[addr] = machine.mem[addr] & machine.d,
            "M=M|D" => machine.mem[addr] = machine.mem[addr] | machine.d,
            "M=M-1" => machine.mem[addr] = machine.mem[addr] - 1,
            "0;JMP" => {
                pc = machine.a as usize;
                continue;
            }
            "D;JEQ" => {
                if machine.d == 0 {
                    pc = machine.a as usize;
                    continue;
                }
            }
            "D;JGT" => {
                if machine.d > 0 {
                    pc = machine.a as usize;
                    continue;
                }
            }
            "D;JLT" => {
                if machine.d < 0 {
                    pc = machine.a as usize;
                    continue;
                }
            }
            "D;JNE" => {
                if machine.d != 0 {
                    pc = machine.a as usize;
                    continue;
                }
            }
            other => panic!("unknown instruction: {}", other),
        }
        pc += 1;
    }
}

fn fresh_machine() -> Machine {
    Machine { a: 0, d: 0, mem: vec![0; 65536] }
}

fn lower(source: &str) -> String {
    let mut program = VmProgram::new();
    parse(&mut program, source, "test.vm").unwrap();
    translate(program).unwrap()
}

fn run_program(source: &str) -> Machine {
    let mut machine = fresh_machine();
    run(&lower(source), &mut machine);
    machine
}

#[test]
fn empty_program_emits_only_the_preamble() {
    let mut program = VmProgram::new();
    parse(&mut program, "", "test.vm").unwrap();
    let text = translate(program).unwrap();
    assert_eq!(text, "@256\nD=A\n@SP\nM=D\n");
}

#[test]
fn preamble_initializes_the_stack_pointer() {
    let machine = run_program("");
    assert_eq!(machine.mem[0], 256);
}

#[test]
fn seven_plus_eight_is_fifteen() {
    // the end-to-end scenario: two pushes and an add leave a single
    // stack cell holding 15
    let machine = run_program("push constant 7\npush constant 8\nadd");
    assert_eq!(machine.mem[0], 257);
    assert_eq!(machine.mem[256], 15);
}

#[test]
fn sub_subtracts_the_top_from_the_second() {
    let machine = run_program("push constant 10\npush constant 3\nsub");
    assert_eq!(machine.mem[0], 257);
    assert_eq!(machine.mem[256], 7);
}

#[test]
fn neg_and_not_transform_in_place() {
    let machine = run_program("push constant 5\nneg");
    assert_eq!(machine.mem[256], -5);
    let machine = run_program("push constant 5\nnot");
    assert_eq!(machine.mem[256], -6);
}

#[test]
fn and_or_are_bitwise() {
    let machine = run_program("push constant 12\npush constant 10\nand");
    assert_eq!(machine.mem[256], 8);
    let machine = run_program("push constant 12\npush constant 10\nor");
    assert_eq!(machine.mem[256], 14);
}

#[test]
fn eq_on_equal_values_is_true() {
    let machine = run_program("push constant 21\npush constant 21\neq");
    assert_eq!(machine.mem[0], 257);
    assert_eq!(machine.mem[256], -1);
}

#[test]
fn eq_on_different_values_is_false() {
    let machine = run_program("push constant 21\npush constant 22\neq");
    assert_eq!(machine.mem[256], 0);
}

#[test]
fn gt_is_strict() {
    let machine = run_program("push constant 5\npush constant 3\ngt");
    assert_eq!(machine.mem[256], -1);
    let machine = run_program("push constant 3\npush constant 5\ngt");
    assert_eq!(machine.mem[256], 0);
    let machine = run_program("push constant 5\npush constant 5\ngt");
    assert_eq!(machine.mem[256], 0);
}

#[test]
fn lt_is_strict() {
    let machine = run_program("push constant 3\npush constant 5\nlt");
    assert_eq!(machine.mem[256], -1);
    let machine = run_program("push constant 5\npush constant 3\nlt");
    assert_eq!(machine.mem[256], 0);
    let machine = run_program("push constant 5\npush constant 5\nlt");
    assert_eq!(machine.mem[256], 0);
}

#[test]
fn push_then_pop_same_cell_is_a_no_op() {
    // aside from stack depth (and the scratch cells), the push / pop
    // pair changes nothing
    let text = lower("push local 2\npop local 2");
    let mut machine = fresh_machine();
    machine.mem[1] = 1000;
    machine.mem[1002] = 77;
    run(&text, &mut machine);
    assert_eq!(machine.mem[0], 256);
    assert_eq!(machine.mem[1002], 77);
    assert_eq!(machine.mem[1], 1000);
}

#[test]
fn push_reads_through_the_segment_pointer() {
    let text = lower("push argument 1\npush this 0\npush that 2\nadd\nadd");
    let mut machine = fresh_machine();
    machine.mem[2] = 2000;
    machine.mem[2001] = 5;
    machine.mem[3] = 2100;
    machine.mem[2100] = 7;
    machine.mem[4] = 2200;
    machine.mem[2202] = 11;
    run(&text, &mut machine);
    assert_eq!(machine.mem[0], 257);
    assert_eq!(machine.mem[256], 23);
}

#[test]
fn pop_writes_through_the_segment_pointer() {
    let text = lower("push constant 9\npop argument 3");
    let mut machine = fresh_machine();
    machine.mem[2] = 2000;
    run(&text, &mut machine);
    assert_eq!(machine.mem[2003], 9);
    assert_eq!(machine.mem[0], 256);
}

#[test]
fn pointer_segment_addresses_this_and_that() {
    let machine = run_program("push constant 1234\npop pointer 0\npush constant 4321\npop pointer 1");
    assert_eq!(machine.mem[3], 1234);
    assert_eq!(machine.mem[4], 4321);
}

#[test]
fn temp_segment_is_direct() {
    let machine = run_program("push constant 55\npop temp 3");
    assert_eq!(machine.mem[8], 55);
}

#[test]
fn static_segment_is_direct_from_sixteen() {
    let machine = run_program("push constant 99\npop static 3\npush static 3");
    assert_eq!(machine.mem[19], 99);
    assert_eq!(machine.mem[256], 99);
}

#[test]
fn statics_of_two_files_do_not_alias() {
    let mut program = VmProgram::new();
    parse(&mut program, "push constant 11\npop static 0", "one.vm").unwrap();
    parse(&mut program, "push constant 22\npop static 0\npush static 0", "two.vm").unwrap();
    let text = translate(program).unwrap();
    let mut machine = fresh_machine();
    run(&text, &mut machine);
    assert_eq!(machine.mem[16], 11);
    assert_eq!(machine.mem[17], 22);
    assert_eq!(machine.mem[256], 22);
}

#[test]
fn goto_is_unconditional() {
    let machine = run_program("goto end\npush constant 99\nlabel end");
    assert_eq!(machine.mem[0], 256);
}

#[test]
fn if_goto_jumps_on_truthy() {
    let machine = run_program("push constant 1\nif-goto end\npush constant 99\nlabel end");
    assert_eq!(machine.mem[0], 256);
}

#[test]
fn if_goto_falls_through_on_zero() {
    let machine = run_program("push constant 0\nif-goto end\npush constant 99\nlabel end");
    assert_eq!(machine.mem[0], 257);
    assert_eq!(machine.mem[256], 99);
}

#[test]
fn if_goto_takes_a_comparison_result_as_truthy() {
    // a true comparison leaves all bits set, which if-goto treats as
    // truthy; a false one leaves zero, which falls through
    let taken = run_program(
        "push constant 4\npush constant 4\neq\nif-goto end\npush constant 99\nlabel end",
    );
    assert_eq!(taken.mem[0], 256);
    let fallen = run_program(
        "push constant 4\npush constant 5\neq\nif-goto end\npush constant 99\nlabel end",
    );
    assert_eq!(fallen.mem[0], 257);
    assert_eq!(fallen.mem[256], 99);
}

#[test]
fn call_return_round_trip() {
    // call f 2 where f is defined with one local: afterwards the stack
    // is one slot higher than before the arguments were pushed, holds
    // the returned value, and the saved pointers are restored
    let source = "\
goto start
function f 1
push constant 42
return
label start
push constant 10
push constant 20
call f 2
";
    let text = lower(source);
    let mut machine = fresh_machine();
    machine.mem[1] = 300;
    machine.mem[2] = 310;
    machine.mem[3] = 320;
    machine.mem[4] = 330;
    run(&text, &mut machine);
    assert_eq!(machine.mem[0], 257);
    assert_eq!(machine.mem[256], 42);
    assert_eq!(machine.mem[1], 300);
    assert_eq!(machine.mem[2], 310);
    assert_eq!(machine.mem[3], 320);
    assert_eq!(machine.mem[4], 330);
}

#[test]
fn callee_arguments_are_addressable() {
    // the callee reads its two arguments through the argument pointer
    let source = "\
goto start
function addtwo 0
push argument 0
push argument 1
add
return
label start
push constant 30
push constant 12
call addtwo 2
";
    let mut machine = fresh_machine();
    machine.mem[1] = 300;
    machine.mem[2] = 310;
    run(&lower(source), &mut machine);
    assert_eq!(machine.mem[0], 257);
    assert_eq!(machine.mem[256], 42);
}

#[test]
fn function_locals_are_zero_initialized() {
    let source = "\
goto start
function f 3
push local 0
push local 1
add
push local 2
add
return
label start
call f 0
";
    let mut machine = fresh_machine();
    machine.mem[1] = 300;
    machine.mem[2] = 310;
    run(&lower(source), &mut machine);
    assert_eq!(machine.mem[256], 0);
    assert_eq!(machine.mem[0], 257);
}

#[test]
fn synthesized_labels_are_unique_per_comparison() {
    let text = lower("push constant 1\npush constant 2\neq\npush constant 3\npush constant 3\neq\nadd");
    let mut machine = fresh_machine();
    run(&text, &mut machine);
    // false + true
    assert_eq!(machine.mem[256], -1);
    assert!(text.contains("__VM_IMPL_LABEL_0"));
    assert!(text.contains("__VM_IMPL_LABEL_1"));
}

#[test]
fn pop_into_constant_is_refused_by_the_generator() {
    let mut program = VmProgram::new();
    program.push_command(VmCommand::Pop(MemorySegment::Constant, 0));
    assert_eq!(translate(program), Err(TranslateError::MalformedInstruction));
}

#[test]
fn generator_output_is_deterministic() {
    let a = lower("push constant 1\npush constant 2\nlt\ncall f 1\nlabel f");
    let b = lower("push constant 1\npush constant 2\nlt\ncall f 1\nlabel f");
    assert_eq!(a, b);
}
