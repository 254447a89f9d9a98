use mmvm::names::NameTable;
use mmvm::parser::parse;
use mmvm::program::Program;
use mmvm::scanner::Scanner;
use mmvm::text::parse_decimal;
use mmvm::vm::{Output, RuntimeError, Status, MEMORY_SIZE, MMVM};

fn program(text: &str) -> Program {
    parse(Scanner::from(text.to_string())).unwrap()
}

fn run(text: &str) -> (MMVM, Result<(), RuntimeError>, Vec<Output>) {
    let p = program(text);
    let mut vm = MMVM::new();
    let mut sink = Vec::new();
    let r = vm.run(&p, 100_000, &mut sink);
    (vm, r, sink)
}

fn reg(vm: &MMVM, name: &str) -> u32 {
    vm.register(&name.to_string())
}

#[test]
fn a_new_machine_is_all_zero() {
    let vm = MMVM::new();
    assert_eq!(vm.pc(), 0);
    assert_eq!(vm.sp(), 0);
    assert_eq!(vm.flag(), 0);
    assert_eq!(vm.status(), Status::Running);
    assert!(vm.stack().is_empty());
    assert_eq!(reg(&vm, "A"), 0);
    for address in 0..MEMORY_SIZE {
        assert_eq!(vm.memory(address), Some(0));
    }
    assert_eq!(vm.memory(MEMORY_SIZE), None);
    assert_eq!(MEMORY_SIZE, 2048);
}

#[test]
fn push_then_pop() {
    let (vm, r, sink) = run("PUSH 5\nPOP A\n");
    assert_eq!(r, Ok(()));
    assert_eq!(reg(&vm, "A"), 5);
    assert!(vm.stack().is_empty());
    assert_eq!(vm.sp(), 0);
    assert_eq!(vm.pc(), 2);
    assert_eq!(vm.status(), Status::Halted);
    assert!(sink.is_empty());
}

#[test]
fn pop_on_an_empty_stack() {
    let (vm, r, _) = run("POP A\nPUSH 1\n");
    assert_eq!(r, Err(RuntimeError::StackUnderflow));
    assert_eq!(vm.status(), Status::Faulted(RuntimeError::StackUnderflow));
    assert_eq!(vm.pc(), 0);
    assert_eq!(reg(&vm, "A"), 0);
    assert!(vm.stack().is_empty());
}

#[test]
fn the_stack_is_last_in_first_out() {
    let (vm, r, _) = run("PUSH 1\nPUSH 2\nPUSH 3\nPOP A\nPOP B\n");
    assert_eq!(r, Ok(()));
    assert_eq!(reg(&vm, "A"), 3);
    assert_eq!(reg(&vm, "B"), 2);
    assert_eq!(*vm.stack(), vec![1]);
    assert_eq!(vm.sp(), 1);
}

#[test]
fn fetch_write_then_fetch_read() {
    for address in [0u32, 1, 255, 256, 1024, 2046, 2047] {
        let text = format!(
            "PUSH {address}\nPOP X\nPUSH 42\nPOP R\nFETCH_WRITE [X] R\nFETCH_READ [X] R2\n"
        );
        let (vm, r, _) = run(&text);
        assert_eq!(r, Ok(()));
        assert_eq!(reg(&vm, "R2"), 42);
        assert_eq!(vm.memory(address as usize), Some(42));
    }
}

#[test]
fn fetch_round_trip_at_every_address() {
    let text = "PUSH 7\nPOP V\nPUSH 2048\nPOP N\n\
                :loop\nFETCH_WRITE [X] V\nFETCH_READ [X] W\n\
                SUB W V\nJNZ :bad\nADD X 1\nJLT :loop N\nJMP :end\n\
                :bad\nECHO \"bad\"\n:end\n";
    let (vm, r, sink) = run(text);
    assert_eq!(r, Ok(()));
    assert_eq!(vm.status(), Status::Halted);
    assert!(sink.is_empty());
    assert_eq!(reg(&vm, "X"), 2048);
    for address in 0..MEMORY_SIZE {
        assert_eq!(vm.memory(address), Some(7));
    }
}

#[test]
fn fetch_at_written_addresses() {
    let (vm, r, _) = run("PUSH 9\nPOP R\nFETCH_WRITE [100] R\nFETCH_READ [100] S\nFETCH_READ [0100] T\n");
    assert_eq!(r, Ok(()));
    assert_eq!(reg(&vm, "S"), 9);
    assert_eq!(reg(&vm, "T"), 9);
    assert_eq!(vm.memory(100), Some(9));
    assert_eq!(vm.memory(99), Some(0));
}

#[test]
fn fetch_outside_the_memory() {
    for address in ["2048", "2049", "4294967295", "99999999999999999999"] {
        let (vm, r, _) = run(&format!("PUSH 1\nPOP R\nFETCH_WRITE [{address}] R\n"));
        assert_eq!(r, Err(RuntimeError::OutOfBounds));
        assert_eq!(vm.pc(), 2);
        let (vm, r, _) = run(&format!("FETCH_READ [{address}] R\n"));
        assert_eq!(r, Err(RuntimeError::OutOfBounds));
        assert_eq!(vm.status(), Status::Faulted(RuntimeError::OutOfBounds));
    }
    let (_, r, _) = run("PUSH 2048\nPOP X\nFETCH_READ [X] R\n");
    assert_eq!(r, Err(RuntimeError::OutOfBounds));
    let (_, r, _) = run("PUSH 2048\nPOP X\nFETCH_WRITE [X] R\n");
    assert_eq!(r, Err(RuntimeError::OutOfBounds));
    let (_, r, _) = run("PUSH 4294967295\nPOP X\nPUSH [X]\n");
    assert_eq!(r, Err(RuntimeError::OutOfBounds));
}

#[test]
fn memory_keeps_the_lowest_byte() {
    let (vm, r, _) = run("PUSH 300\nPOP R\nFETCH_WRITE [5] R\nFETCH_READ [5] S\n");
    assert_eq!(r, Ok(()));
    assert_eq!(reg(&vm, "S"), 44);
    assert_eq!(vm.memory(5), Some(44));
    let (vm, _, _) = run("PUSH 255\nPOP [6]\nPUSH 256\nPOP [7]\nPUSH [6]\nPOP A\n");
    assert_eq!(vm.memory(6), Some(255));
    assert_eq!(vm.memory(7), Some(0));
    assert_eq!(reg(&vm, "A"), 255);
}

#[test]
fn division_by_zero() {
    let (vm, r, _) = run("PUSH 12\nPOP A\nDIV A B\nPUSH 1\n");
    assert_eq!(r, Err(RuntimeError::DivisionByZero));
    assert_eq!(vm.status(), Status::Faulted(RuntimeError::DivisionByZero));
    assert_eq!(reg(&vm, "A"), 12);
    assert_eq!(vm.pc(), 2);
    assert!(vm.stack().is_empty());
    let (vm, r, _) = run("PUSH 12\nPOP A\nDIV A 0\n");
    assert_eq!(r, Err(RuntimeError::DivisionByZero));
    assert_eq!(reg(&vm, "A"), 12);
}

#[test]
fn arithmetic() {
    let (vm, r, _) = run("ADD A 7\nADD B 3\nADD A B\nSUB A 4\nMUL A B\nDIV A 4\n");
    assert_eq!(r, Ok(()));
    assert_eq!(reg(&vm, "A"), 4);
    assert_eq!(reg(&vm, "B"), 3);
    assert_eq!(vm.flag(), 4);
    let (vm, _, _) = run("ADD A 7\nDIV A 2\n");
    assert_eq!(reg(&vm, "A"), 3);
    let (vm, _, _) = run("ADD [3] 200\nADD [3] 100\nADD A [3]\n");
    assert_eq!(vm.memory(3), Some(44));
    assert_eq!(reg(&vm, "A"), 44);
}

#[test]
fn arithmetic_wraps_around() {
    let (vm, _, _) = run("ADD A 4294967295\nADD A 1\n");
    assert_eq!(reg(&vm, "A"), 0);
    let (vm, _, _) = run("ADD A 4294967295\nADD A 4294967295\n");
    assert_eq!(reg(&vm, "A"), 4294967294);
    let (vm, _, _) = run("SUB A 1\n");
    assert_eq!(reg(&vm, "A"), 4294967295);
    let (vm, _, _) = run("ADD A 65536\nMUL A 65537\n");
    assert_eq!(reg(&vm, "A"), 65536);
    let (vm, _, _) = run("ADD A 4294967295\nMUL A 4294967295\n");
    assert_eq!(reg(&vm, "A"), 1);
}

#[test]
fn arithmetic_on_a_literal_sets_the_flag_only() {
    let (vm, r, _) = run("ADD A 2\nSUB 5 A\n");
    assert_eq!(r, Ok(()));
    assert_eq!(vm.flag(), 3);
    assert_eq!(reg(&vm, "A"), 2);
}

#[test]
fn unconditional_jump() {
    let (vm, r, sink) = run("JMP :end\nECHO 1\n:end\nECHO 2\n");
    assert_eq!(r, Ok(()));
    assert_eq!(sink, vec![Output::Number(2)]);
    assert_eq!(vm.pc(), 3);
}

#[test]
fn conditional_jumps_test_the_flag() {
    let taken = |text: &str| -> bool {
        let (_, r, sink) = run(&format!("{text}\nECHO 0\n:t\n"));
        assert_eq!(r, Ok(()));
        sink.is_empty()
    };
    assert!(!taken("JNZ :t"));
    assert!(taken("ADD A 1\nJNZ :t"));
    assert!(taken("JE :t"));
    assert!(!taken("ADD A 1\nJE :t"));
    assert!(taken("ADD A 1\nJE :t A"));
    assert!(!taken("ADD B 2\nADD A 1\nJE :t B"));
    assert!(!taken("JNE :t"));
    assert!(taken("ADD A 1\nJNE :t"));
    assert!(taken("ADD B 2\nADD A 1\nJNE :t B"));
    assert!(taken("ADD B 2\nADD A 1\nJLT :t B"));
    assert!(!taken("ADD B 2\nADD A 2\nJLT :t B"));
    assert!(!taken("ADD A 1\nJLT :t"));
    assert!(taken("ADD B 2\nADD A 3\nJGT :t B"));
    assert!(!taken("ADD B 2\nADD A 2\nJGT :t B"));
    assert!(taken("ADD A 1\nJGT :t"));
    assert!(!taken("JGT :t"));
}

#[test]
fn a_loop_counts_down() {
    let (vm, r, sink) = run("ADD N 3\n:again\nECHO N\nSUB N 1\nJNZ :again\n");
    assert_eq!(r, Ok(()));
    assert_eq!(sink, vec![Output::Number(3), Output::Number(2), Output::Number(1)]);
    assert_eq!(reg(&vm, "N"), 0);
    assert_eq!(vm.status(), Status::Halted);
}

#[test]
fn call_and_return() {
    let (vm, r, sink) = run("FCALL :f\nECHO 2\nJMP :end\n:f\nECHO 1\nFCALL\n:end\n");
    assert_eq!(r, Ok(()));
    assert_eq!(sink, vec![Output::Number(1), Output::Number(2)]);
    assert!(vm.stack().is_empty());
    assert_eq!(vm.sp(), 0);
    assert_eq!(vm.status(), Status::Halted);
}

#[test]
fn call_puts_the_program_counter_on_the_stack() {
    let p = program("PUSH 9\nFCALL :f\n:f\nPOP A\n");
    let mut vm = MMVM::new();
    let mut sink = Vec::new();
    assert_eq!(vm.run(&p, 2, &mut sink), Ok(()));
    assert_eq!(*vm.stack(), vec![9, 1]);
    assert_eq!(vm.sp(), 2);
    assert_eq!(vm.pc(), 2);
    assert_eq!(vm.status(), Status::Running);
}

#[test]
fn return_without_a_call() {
    let (vm, r, _) = run("FCALL\n");
    assert_eq!(r, Err(RuntimeError::StackUnderflow));
    assert_eq!(vm.pc(), 0);
    let (vm, r, _) = run("PUSH 7\nFCALL\n");
    assert_eq!(r, Err(RuntimeError::OutOfBounds));
    assert_eq!(*vm.stack(), vec![7]);
    let (vm, r, _) = run("PUSH 1\nFCALL\n");
    assert_eq!(r, Ok(()));
    assert_eq!(vm.pc(), 2);
    assert!(vm.stack().is_empty());
}

#[test]
fn echo_hands_out_texts_and_numbers() {
    let (_, r, sink) = run("ADD A 6\nECHO \"six\"\nECHO 6\nECHO A\nECHO B\nECHO \"a\\nb\"\n");
    assert_eq!(r, Ok(()));
    assert_eq!(
        sink,
        vec![
            Output::Text("six".to_string()),
            Output::Number(6),
            Output::Number(6),
            Output::Number(0),
            Output::Text("a\\nb".to_string()),
        ]
    );
    let copy = sink[0].clone();
    assert_eq!(copy, sink[0]);
}

#[test]
fn the_sink_keeps_what_it_held() {
    let p = program("ECHO 2\n");
    let mut vm = MMVM::new();
    let mut sink = vec![Output::Number(1)];
    assert_eq!(vm.run(&p, 10, &mut sink), Ok(()));
    assert_eq!(sink, vec![Output::Number(1), Output::Number(2)]);
}

#[test]
fn push_a_label() {
    let (vm, r, _) = run("PUSH :l\nPOP A\n:l\n");
    assert_eq!(r, Ok(()));
    assert_eq!(reg(&vm, "A"), 2);
}

#[test]
fn an_empty_program_halts() {
    let p = program("");
    let mut vm = MMVM::new();
    let mut sink = Vec::new();
    vm.step(&p, &mut sink);
    assert_eq!(vm.status(), Status::Halted);
    assert_eq!(vm.pc(), 0);
    vm.step(&p, &mut sink);
    assert_eq!(vm.status(), Status::Halted);
}

#[test]
fn steps_one_by_one() {
    let p = program("PUSH 5\nPOP A\n");
    let mut vm = MMVM::new();
    let mut sink = Vec::new();
    vm.step(&p, &mut sink);
    assert_eq!((vm.pc(), vm.sp(), vm.status()), (1, 1, Status::Running));
    assert_eq!(*vm.stack(), vec![5]);
    vm.step(&p, &mut sink);
    assert_eq!((vm.pc(), vm.sp(), vm.status()), (2, 0, Status::Running));
    assert_eq!(reg(&vm, "A"), 5);
    vm.step(&p, &mut sink);
    assert_eq!((vm.pc(), vm.sp(), vm.status()), (2, 0, Status::Halted));
}

#[test]
fn a_run_stops_after_its_steps() {
    let p = program(":l\nADD A 1\nJMP :l\n");
    let mut vm = MMVM::new();
    let mut sink = Vec::new();
    assert_eq!(vm.run(&p, 10, &mut sink), Ok(()));
    assert_eq!(vm.status(), Status::Running);
    assert_eq!(reg(&vm, "A"), 5);
    assert_eq!(vm.run(&p, 0, &mut sink), Ok(()));
    assert_eq!(reg(&vm, "A"), 5);
    assert_eq!(vm.run(&p, 11, &mut sink), Ok(()));
    assert_eq!(reg(&vm, "A"), 11);
    assert_eq!(vm.pc(), 1);
}

#[test]
fn runs_add_up() {
    let p = program("ADD N 5\n:again\nECHO N\nSUB N 1\nJNZ :again\n");
    let mut whole = MMVM::new();
    let mut whole_sink = Vec::new();
    assert_eq!(whole.run(&p, 9, &mut whole_sink), Ok(()));
    let mut parts = MMVM::new();
    let mut parts_sink = Vec::new();
    assert_eq!(parts.run(&p, 4, &mut parts_sink), Ok(()));
    assert_eq!(parts.run(&p, 5, &mut parts_sink), Ok(()));
    assert_eq!(whole_sink, parts_sink);
    assert_eq!(whole.pc(), parts.pc());
    assert_eq!(whole.flag(), parts.flag());
    assert_eq!(reg(&whole, "N"), reg(&parts, "N"));
}

#[test]
fn a_stopped_machine_stays_stopped() {
    let p = program("POP A\nPUSH 1\n");
    let mut vm = MMVM::new();
    let mut sink = Vec::new();
    assert_eq!(vm.run(&p, 5, &mut sink), Err(RuntimeError::StackUnderflow));
    assert_eq!(vm.run(&p, 5, &mut sink), Err(RuntimeError::StackUnderflow));
    vm.step(&p, &mut sink);
    assert_eq!(vm.pc(), 0);
    assert!(vm.stack().is_empty());
    assert_eq!(vm.status(), Status::Faulted(RuntimeError::StackUnderflow));
}

#[test]
fn operands_read_and_written_directly() {
    let p = program("");
    let mut vm = MMVM::new();
    let a = Some(mmvm::instruction::Argument::Register("A".to_string()));
    let cell = Some(mmvm::instruction::Argument::Reference("A".to_string()));
    let far = Some(mmvm::instruction::Argument::Reference("5000".to_string()));
    assert_eq!(vm.store(&a, 17), Ok(()));
    assert_eq!(vm.value_of(&p, &a), Ok(17));
    assert_eq!(vm.address(&"A".to_string()), Some(17));
    assert_eq!(vm.address(&"17".to_string()), Some(17));
    assert_eq!(vm.store(&cell, 513), Ok(()));
    assert_eq!(vm.memory(17), Some(1));
    assert_eq!(vm.value_of(&p, &cell), Ok(1));
    assert_eq!(vm.store(&far, 1), Err(RuntimeError::OutOfBounds));
    assert_eq!(vm.value_of(&p, &far), Err(RuntimeError::OutOfBounds));
    assert_eq!(vm.address(&"5000".to_string()), None);
    assert_eq!(vm.value_of(&p, &None), Ok(0));
    assert_eq!(vm.store(&Some(mmvm::instruction::Argument::Literal(3)), 4), Ok(()));
}

#[test]
fn name_tables() {
    let mut table = NameTable::new();
    assert_eq!(table.get(&"a".to_string()), None);
    table.set("a".to_string(), 1);
    table.set("b".to_string(), 2);
    assert_eq!(table.get(&"a".to_string()), Some(1));
    assert_eq!(table.get(&"b".to_string()), Some(2));
    table.set("a".to_string(), 3);
    assert_eq!(table.get(&"a".to_string()), Some(3));
    assert_eq!(table.get(&"b".to_string()), Some(2));
    assert_eq!(table.get(&"".to_string()), None);
}

#[test]
fn decimal_numbers() {
    let digits = |s: &str| -> Vec<char> { s.chars().collect() };
    assert_eq!(parse_decimal(&digits("0"), 10), Some(0));
    assert_eq!(parse_decimal(&digits("10"), 10), Some(10));
    assert_eq!(parse_decimal(&digits("11"), 10), None);
    assert_eq!(parse_decimal(&digits("0000000000000000000010"), 10), Some(10));
    assert_eq!(parse_decimal(&digits("4294967295"), u32::MAX), Some(4294967295));
    assert_eq!(parse_decimal(&digits("4294967296"), u32::MAX), None);
    assert_eq!(parse_decimal(&digits(""), 10), None);
    assert_eq!(parse_decimal(&digits("1a"), 10), None);
    assert_eq!(parse_decimal(&digits("-1"), 10), None);
}
