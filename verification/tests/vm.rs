use regvm::text::decimal_string;
use regvm::vm::state::{Fault, Outcome, FLAG, REGISTERS, WORD};
use regvm::vm::{Stdin, VM};

fn new_test_vm() -> VM {
    VM::new()
}

#[test]
fn test_create_vm() {
    let vm = VM::new();
    assert_eq!(vm.registers[0], 0);
}

#[test]
fn test_hlt() {
    let mut vm = new_test_vm();
    let bytes = vec![0, 0, 0, 0];
    vm.program = bytes;
    vm.run_once();
    assert_eq!(vm.pc, 1);
}

#[test]
fn test_ilgl() {
    let mut vm = new_test_vm();
    let bytes = vec![200, 0, 0, 0];
    vm.program = bytes;
    vm.run_once();
    assert_eq!(vm.pc, 1);
}

#[test]
fn test_load_to_0_ok() {
    let mut vm = new_test_vm();
    let bytes = vec![1, 0, 1, 244];
    vm.program = bytes;
    vm.run_once();
    assert_eq!(vm.registers[0], 500);
}

#[test]
fn test_load_to_0_fail() {
    let mut vm = new_test_vm();
    let bytes = vec![0, 0, 1, 244];
    vm.program = bytes;
    vm.run_once();
    assert_ne!(vm.registers[0], 500);
}

#[test]
fn test_add() {
    let mut vm = new_test_vm();
    let bytes = vec![
        1, 0, 1, 244, // load 500 to register 0
        1, 1, 1, 244, // load 500 to register 1
        2, 0, 1, 2, // load the sum of r0 and r1 to r2
    ];
    vm.program = bytes;
    vm.run();
    println!("registers = {:?}", vm.registers);
    assert_eq!(vm.registers[2], 1000);
}

#[test]
fn test_sub() {
    let mut vm = new_test_vm();
    let bytes = vec![
        1, 0, 1, 244, // load 500 to register 0
        1, 1, 0, 244, // load 244 to register 1
        3, 0, 1, 2, // load the difference of r0 and r1 to r2
    ];
    vm.program = bytes;
    vm.run();
    println!("registers = {:?}", vm.registers);
    assert_eq!(vm.registers[2], 256);
}

#[test]
fn test_mul() {
    let mut vm = VM::new();
    let bytes = vec![
        1, 0, 0, 2, // load 2 to register 0
        1, 1, 0, 255, // load 255 to register 1
        4, 0, 1, 2, // load the product of r0 and r1 to r2
    ];
    vm.program = bytes;
    vm.run();
    println!("registers = {:?}", vm.registers);
    assert_eq!(vm.registers[2], 255 * 2);
}

#[test]
fn test_div() {
    let mut vm = new_test_vm();
    let bytes = vec![
        1, 0, 0, 244, // load 244 to register 0
        1, 1, 0, 2, // load 2 to register 1
        5, 0, 1, 2, // load the quotient of r0 and r1 to r2
    ];
    vm.program = bytes;
    vm.run();
    println!("registers = {:?}", vm.registers);
    assert_eq!(vm.registers[2], 122);
}

#[test]
fn test_div_with_remainder() {
    let mut vm = new_test_vm();
    let bytes = vec![
        1, 0, 0, 245, // load 245 to register 0
        1, 1, 0, 2, // load 2 to register 1
        5, 0, 1, 2, // load the quotient of r0 and r1 to r2
    ];
    vm.program = bytes;
    vm.run();
    println!("registers = {:?}", vm.registers);
    assert_eq!(vm.registers[2], 122);
    assert_eq!(vm.remainder, 1);
}

#[test]
fn test_jump() {
    let mut vm = new_test_vm();
    vm.registers[0] = 3;
    vm.program = vec![6, 0, 0, 0];
    vm.run_once();
    println!("registers = {:?}", vm.registers);
    println!("program_counter = {:?}", vm.pc);
    assert_eq!(vm.pc, 3);
}

#[test]
fn test_jump_forward() {
    let mut vm = new_test_vm();
    vm.registers[0] = 4;
    vm.program = vec![7, 0, 0, 0];
    vm.run_once();
    println!("registers = {:?}", vm.registers);
    println!("program_counter = {:?}", vm.pc);
    assert_eq!(vm.pc, 6);
}

#[test]
fn test_jump_back() {
    let mut vm = new_test_vm();
    vm.registers[1] = 2;

    vm.program = vec![8, 1, 0, 0];
    vm.run_once();
    vm.run_once();
    println!("registers = {:?}", vm.registers);
    println!("program_counter = {:?}", vm.pc);
    assert_eq!(vm.pc, 0);
}

#[test]
fn test_jump_forward_then_back() {
    let mut vm = new_test_vm();
    vm.registers[0] = 2;
    vm.registers[1] = 4;

    vm.program = vec![
        7, 0, 0, 0, // jump forward as many steps as the value of r0
        8, 1, 0, 0, // jump backward as many steps as the value of r1
    ];
    vm.run_once();
    vm.run_once();
    println!("registers = {:?}", vm.registers);
    println!("program_counter = {:?}", vm.pc);
    assert_eq!(vm.pc, 2);
}

#[test]
fn test_eq() {
    let mut vm = new_test_vm();
    vm.registers[0] = 10;
    vm.registers[1] = 10;
    vm.registers[2] = 5;
    vm.program = vec![
        9, 0, 1, 0, // compare r0 and r1 for equality
        9, 0, 2, 0, // compare r0 and r2 for equality
    ];
    println!("registers = {:?}", vm.registers);
    vm.run_once();
    println!("equality flag = {}", vm.eq_flag);
    assert_eq!(vm.eq_flag, true);
    vm.run_once();
    println!("equality flag = {}", vm.eq_flag);
    assert_eq!(vm.eq_flag, false);
}

#[test]
fn test_neq() {
    let mut vm = new_test_vm();
    vm.registers[0] = 10;
    vm.registers[1] = 10;
    vm.registers[2] = 5;
    vm.program = vec![
        10, 0, 1, 0, // compare r0 and r1 for inequality
        10, 0, 2, 0, // compare r0 and r2 for inequality
    ];
    println!("registers = {:?}", vm.registers);
    vm.run_once();
    println!("equality flag = {}", vm.eq_flag);
    assert_eq!(vm.eq_flag, false);
    vm.run_once();
    println!("equality flag = {}", vm.eq_flag);
    assert_eq!(vm.eq_flag, true);
}

#[test]
fn test_jeq() {
    let mut vm = new_test_vm();
    vm.registers[0] = 7;
    vm.eq_flag = true;
    vm.program = vec![15, 0, 0, 0];
    println!("registers = {:?}", vm.registers);
    println!("program_counter before = {}", vm.pc);
    vm.run_once();
    println!("equality flag = {}", vm.eq_flag);
    println!("program_counter after = {}", vm.pc);
    assert_eq!(vm.pc, 7);
}

fn machine(program: Vec<u8>) -> VM {
    let mut vm = VM::new();
    vm.program = program;
    vm
}

#[test]
fn test_new_is_all_zero() {
    let vm = VM::new();
    assert_eq!(vm.registers, [0; 32]);
    assert_eq!(vm.remainder, 0);
    assert!(!vm.eq_flag);
    assert_eq!(vm.stdout, 0);
    assert!(vm.heap.is_empty());
    assert_eq!(vm.pc, 0);
    assert!(vm.program.is_empty());
    assert!(!vm.is_not_done());
}

#[test]
fn test_load_marks_register_last_written() {
    let mut vm = machine(vec![1, 0, 1, 244, 1, 7, 0, 9]);
    assert!(vm.run_once());
    assert_eq!(vm.registers[0], 500);
    assert_eq!(vm.stdout, 0);
    assert_eq!(vm.stdout(), 500);
    assert_eq!(vm.pc, 4);
    assert!(vm.run_once());
    assert_eq!(vm.registers[7], 9);
    assert_eq!(vm.stdout, 7);
    assert_eq!(vm.stdout(), 9);
    assert_eq!(vm.pc, 8);
    assert!(!vm.run_once());
    assert_eq!(vm.pc, 8);
}

#[test]
fn test_load_reads_two_complement_immediate() {
    let mut vm = machine(vec![1, 0, 127, 255, 1, 1, 128, 0, 1, 2, 255, 255, 1, 3, 255, 0]);
    vm.run();
    assert_eq!(vm.registers[0], 32767);
    assert_eq!(vm.registers[1], -32768);
    assert_eq!(vm.registers[2], -1);
    assert_eq!(vm.registers[3], -256);
}

#[test]
fn test_run_once_says_whether_to_go_on() {
    let mut vm = machine(vec![1, 0, 0, 1, 0, 0, 0, 0]);
    assert!(vm.run_once());
    assert!(!vm.run_once());
    assert_eq!(vm.pc, 5);
    let mut empty = VM::new();
    assert!(!empty.run_once());
    assert_eq!(empty.pc, 0);
}

#[test]
fn test_execute_instruction_reports_outcome() {
    let mut vm = machine(vec![1, 0, 0, 1, 0, 0, 0, 0, 99]);
    assert_eq!(vm.execute_instruction(), Outcome::Continue);
    assert_eq!(vm.execute_instruction(), Outcome::Halt);
    vm.pc = 8;
    assert_eq!(vm.execute_instruction(), Outcome::Illegal);
    assert_eq!(vm.pc, 9);
}

#[test]
fn test_halt_changes_nothing_but_the_counter() {
    let mut vm = machine(vec![1, 3, 0, 42, 0, 1, 2, 3]);
    vm.run();
    assert_eq!(vm.pc, 5);
    let mut expected = [0; 32];
    expected[3] = 42;
    assert_eq!(vm.registers, expected);
    assert_eq!(vm.stdout, 3);
    assert_eq!(vm.remainder, 0);
    assert!(!vm.eq_flag);
    assert!(vm.heap.is_empty());
    assert_eq!(vm.program, vec![1, 3, 0, 42, 0, 1, 2, 3]);
}

#[test]
fn test_unmapped_opcode_leaves_state_of_last_instruction() {
    for byte in [17u8, 18, 100, 200, 255] {
        let mut vm = machine(vec![1, 3, 0, 42, byte, 1, 2, 3, 1, 4, 0, 1]);
        vm.heap = vec![9, 9];
        vm.run();
        assert_eq!(vm.pc, 5);
        let mut expected = [0; 32];
        expected[3] = 42;
        assert_eq!(vm.registers, expected);
        assert_eq!(vm.stdout, 3);
        assert_eq!(vm.remainder, 0);
        assert!(!vm.eq_flag);
        assert_eq!(vm.heap, vec![9, 9]);
    }
}

#[test]
fn test_arithmetic_writes_destination() {
    let mut vm = machine(vec![2, 0, 1, 2, 3, 0, 1, 3, 4, 0, 1, 4, 5, 0, 1, 5]);
    vm.registers[0] = -7;
    vm.registers[1] = 2;
    vm.run();
    assert_eq!(vm.registers[2], -5);
    assert_eq!(vm.registers[3], -9);
    assert_eq!(vm.registers[4], -14);
    assert_eq!(vm.registers[5], -3);
    assert_eq!(vm.remainder, (-1i32) as u32);
    assert_eq!(vm.stdout, 5);
    assert_eq!(vm.pc, 16);
}

#[test]
fn test_division_rounds_towards_zero() {
    for (x, y) in [(7, 2), (-7, 2), (7, -2), (-7, -2), (0, 5), (6, 3), (-6, 3), (i32::MAX, 1), (i32::MIN, 1), (i32::MIN, 2), (i32::MAX, -1), (1, i32::MIN)] {
        let mut vm = machine(vec![5, 0, 1, 2]);
        vm.registers[0] = x;
        vm.registers[1] = y;
        assert!(vm.run_once());
        assert_eq!(vm.registers[2], x / y);
        assert_eq!(vm.remainder, (x % y) as u32);
    }
}

#[test]
fn test_arithmetic_faults() {
    let cases = [
        (2u8, i32::MAX, 1),
        (2, i32::MIN, -1),
        (3, i32::MIN, 1),
        (3, 0, i32::MIN),
        (4, 65536, 32768),
        (4, i32::MIN, -1),
        (5, 1, 0),
        (5, 0, 0),
        (5, i32::MIN, -1),
    ];
    for (opcode, x, y) in cases {
        let mut vm = machine(vec![opcode, 0, 1, 2]);
        vm.registers[0] = x;
        vm.registers[1] = y;
        vm.registers[2] = 77;
        assert_eq!(vm.execute_instruction(), Outcome::Fault(Fault::Arithmetic));
        assert_eq!(vm.pc, 1);
        assert_eq!(vm.registers[2], 77);
        assert_eq!(vm.remainder, 0);
        assert_eq!(vm.stdout, 0);
    }
    let mut edge = machine(vec![2, 0, 1, 2, 3, 3, 4, 5]);
    edge.registers[0] = i32::MAX - 1;
    edge.registers[1] = 1;
    edge.registers[3] = i32::MIN + 1;
    edge.registers[4] = 1;
    edge.run();
    assert_eq!(edge.registers[2], i32::MAX);
    assert_eq!(edge.registers[5], i32::MIN);
}

#[test]
fn test_register_faults() {
    let programs: Vec<Vec<u8>> = vec![
        vec![1, 32, 0, 1],
        vec![2, 32, 0, 0],
        vec![2, 0, 32, 0],
        vec![2, 0, 0, 32],
        vec![5, 0, 0, 255],
        vec![6, 32, 0, 0],
        vec![7, 200, 0, 0],
        vec![8, 33, 0, 0],
        vec![9, 32, 0, 0],
        vec![14, 0, 32, 0],
        vec![16, 32, 0, 0],
    ];
    for program in programs {
        let mut vm = machine(program.clone());
        assert_eq!(vm.execute_instruction(), Outcome::Fault(Fault::Register));
        assert_eq!(vm.pc, 1);
        assert_eq!(vm.registers, [0; 32]);
        assert!(!vm.eq_flag);
        assert!(!machine(program).run_once());
    }
    let mut last = machine(vec![1, 31, 0, 5, 9, 31, 31, 200]);
    last.run();
    assert_eq!(last.registers[31], 5);
    assert!(last.eq_flag);
    assert_eq!(last.pc, 8);
}

#[test]
fn test_missing_operand_faults() {
    let reads = [0usize, 3, 3, 3, 3, 3, 1, 1, 1, 2, 2, 2, 2, 2, 2, 1, 1];
    for opcode in 1..=16u8 {
        for length in 1..=4usize {
            let mut program = vec![opcode, 0, 0, 0];
            program.truncate(length);
            let mut vm = machine(program);
            vm.registers[0] = 1;
            vm.eq_flag = true;
            let outcome = vm.execute_instruction();
            if length - 1 < reads[opcode as usize] {
                assert_eq!(outcome, Outcome::Fault(Fault::Truncated));
                assert_eq!(vm.pc, 1);
                let mut expected = [0; 32];
                expected[0] = 1;
                assert_eq!(vm.registers, expected);
                assert!(vm.heap.is_empty());
            } else {
                assert_eq!(outcome, Outcome::Continue);
            }
        }
    }
    let mut halt = machine(vec![0]);
    assert_eq!(halt.execute_instruction(), Outcome::Halt);
    let mut unknown = machine(vec![77]);
    assert_eq!(unknown.execute_instruction(), Outcome::Illegal);
}

#[test]
fn test_counter_goes_behind_the_whole_word() {
    let mut compare = machine(vec![11, 0, 1]);
    compare.registers[0] = 5;
    assert!(compare.run_once());
    assert!(compare.eq_flag);
    assert_eq!(compare.pc, 4);
    assert!(!compare.run_once());

    let mut reserve = machine(vec![16, 0]);
    reserve.registers[0] = 2;
    assert!(reserve.run_once());
    assert_eq!(reserve.heap, vec![0, 0]);
    assert_eq!(reserve.pc, 4);

    let mut skipped = machine(vec![15]);
    assert!(skipped.run_once());
    assert_eq!(skipped.pc, 4);

    let mut taken = machine(vec![15, 3]);
    taken.eq_flag = true;
    taken.registers[3] = 9;
    assert!(taken.run_once());
    assert_eq!(taken.pc, 9);

    let mut short_jump = machine(vec![7, 3]);
    short_jump.registers[3] = 9;
    assert!(short_jump.run_once());
    assert_eq!(short_jump.pc, 11);
}

#[test]
fn test_jump_targets() {
    let mut beyond = machine(vec![6, 0, 0, 0]);
    beyond.registers[0] = 1000;
    assert!(beyond.run_once());
    assert_eq!(beyond.pc, 1000);
    assert!(!beyond.run_once());
    assert_eq!(beyond.pc, 1000);

    let mut negative = machine(vec![6, 0, 0, 0]);
    negative.registers[0] = -1;
    assert_eq!(negative.execute_instruction(), Outcome::Fault(Fault::Counter));
    assert_eq!(negative.pc, 1);

    let mut back_too_far = machine(vec![8, 0, 0, 0]);
    back_too_far.registers[0] = 3;
    assert_eq!(back_too_far.execute_instruction(), Outcome::Fault(Fault::Counter));
    assert_eq!(back_too_far.pc, 1);

    let mut forward_by_negative = machine(vec![0, 0, 0, 0, 7, 0, 0, 0]);
    forward_by_negative.pc = 4;
    forward_by_negative.registers[0] = -6;
    assert!(forward_by_negative.run_once());
    assert_eq!(forward_by_negative.pc, 0);

    let mut back_by_negative = machine(vec![8, 0, 0, 0]);
    back_by_negative.registers[0] = -6;
    assert!(back_by_negative.run_once());
    assert_eq!(back_by_negative.pc, 8);
}

#[test]
fn test_comparisons() {
    let pairs = [(1, 2), (2, 1), (3, 3), (-4, 4), (i32::MIN, i32::MAX)];
    for (x, y) in pairs {
        let expected = [x == y, x != y, x > y, x < y, x >= y, x <= y];
        for (at, opcode) in (9..=14u8).enumerate() {
            let mut vm = machine(vec![opcode, 0, 1, 99]);
            vm.registers[0] = x;
            vm.registers[1] = y;
            vm.eq_flag = !expected[at];
            assert!(vm.run_once());
            assert_eq!(vm.eq_flag, expected[at]);
            assert_eq!(vm.pc, 4);
            assert_eq!(vm.stdout, 0);
        }
    }
}

#[test]
fn test_jeq_with_flag_clear_skips_its_word() {
    let mut vm = machine(vec![15, 0, 0, 0, 1, 1, 0, 5]);
    vm.registers[0] = 7;
    assert!(vm.run_once());
    assert_eq!(vm.pc, 4);
    vm.run();
    assert_eq!(vm.registers[1], 5);
    let mut unnamed = machine(vec![15, 200, 0, 0]);
    assert!(unnamed.run_once());
    assert_eq!(unnamed.pc, 4);
}

#[test]
fn test_jeq_with_flag_set_faults() {
    let mut negative = machine(vec![15, 0, 0, 0]);
    negative.eq_flag = true;
    negative.registers[0] = -7;
    assert_eq!(negative.execute_instruction(), Outcome::Fault(Fault::Counter));
    assert_eq!(negative.pc, 1);
    let mut unnamed = machine(vec![15, 200, 0, 0]);
    unnamed.eq_flag = true;
    assert_eq!(unnamed.execute_instruction(), Outcome::Fault(Fault::Register));
}

#[test]
fn test_alloc_grows_heap_by_register_value() {
    for start in [0usize, 1, 5, 300] {
        for size in [0i32, 1, 4, 1000] {
            let mut vm = machine(vec![16, 3, 0, 0]);
            vm.heap = vec![7; start];
            vm.registers[3] = size;
            assert!(vm.run_once());
            assert_eq!(vm.heap.len(), start + size as usize);
            assert!(vm.heap[..start].iter().all(|byte| *byte == 7));
            assert!(vm.heap[start..].iter().all(|byte| *byte == 0));
            assert_eq!(vm.pc, 4);
            assert_eq!(vm.registers[3], size);
            assert_eq!(vm.stdout, 0);
        }
    }
}

#[test]
fn test_alloc_of_negative_size_faults() {
    let mut vm = machine(vec![16, 3, 0, 0]);
    vm.heap = vec![7; 3];
    vm.registers[3] = -1;
    assert_eq!(vm.execute_instruction(), Outcome::Fault(Fault::Allocation));
    assert_eq!(vm.heap, vec![7; 3]);
    assert_eq!(vm.pc, 1);
}

#[test]
fn test_repeated_runs_end_in_the_same_state() {
    let program = vec![1, 0, 0, 10, 1, 1, 0, 1, 3, 0, 1, 0, 1, 2, 0, 32, 9, 0, 31, 0, 15, 2, 0, 0, 6, 8, 0, 0, 0, 0, 0, 0, 16, 1, 0, 0, 200];
    let mut first = machine(program.clone());
    first.registers[8] = 8;
    first.run();
    let mut second = machine(program);
    second.registers[8] = 8;
    second.run();
    assert_eq!(first.registers, second.registers);
    assert_eq!(first.remainder, second.remainder);
    assert_eq!(first.eq_flag, second.eq_flag);
    assert_eq!(first.stdout, second.stdout);
    assert_eq!(first.heap, second.heap);
    assert_eq!(first.pc, second.pc);
    assert_eq!(first.program, second.program);
    assert_eq!(first.registers[0], 0);
    assert_eq!(first.pc, 37);
    assert_eq!(first.heap, vec![0]);
}

#[test]
fn test_run_equals_stepping() {
    let program = vec![1, 0, 1, 244, 1, 1, 0, 244, 3, 0, 1, 2, 0, 0, 0, 0];
    let mut whole = machine(program.clone());
    whole.run();
    let mut stepped = machine(program);
    while stepped.run_once() {}
    assert_eq!(whole.registers, stepped.registers);
    assert_eq!(whole.pc, stepped.pc);
    assert_eq!(whole.pc, 13);
}

#[test]
fn test_stdout_shows_flag_when_selected() {
    let mut vm = VM::new();
    vm.stdout = FLAG;
    assert_eq!(vm.stdout(), 0);
    assert_eq!(vm.sdtout_string(), "false");
    vm.eq_flag = true;
    assert_eq!(vm.stdout(), 1);
    assert_eq!(vm.sdtout_string(), "true");
}

#[test]
fn test_sdtout_string_is_decimal() {
    for value in [0, 1, 9, 10, 11, 99, 100, 500, 1000, 65535, -1, -9, -10, -500, i32::MAX, i32::MIN, i32::MIN + 1, 1_000_000_000, -1_000_000_000] {
        let mut vm = VM::new();
        vm.registers[4] = value;
        vm.stdout = 4;
        assert_eq!(vm.stdout(), value);
        assert_eq!(vm.sdtout_string(), value.to_string());
        assert_eq!(decimal_string(value), format!("{}", value));
    }
}

#[test]
fn test_stdin_appends_bytes_and_words() {
    let mut vm = VM::new();
    vm.stdin(vec![1u8, 0]);
    vm.stdin(vec![1u8, 244]);
    assert_eq!(vm.program, vec![1, 0, 1, 244]);
    vm.stdin(vec![[2u8, 0, 0, 1], [0, 0, 0, 0]]);
    vm.stdin(Vec::<[u8; 4]>::new());
    vm.stdin(Vec::<u8>::new());
    assert_eq!(vm.program, vec![1, 0, 1, 244, 2, 0, 0, 1, 0, 0, 0, 0]);
    vm.run();
    assert_eq!(vm.registers[1], 1000);
    assert_eq!(vm.pc, 9);
}

#[test]
fn test_program_and_registers_are_read_back() {
    let mut vm = machine(vec![1, 2, 0, 3]);
    vm.run();
    assert_eq!(vm.program(), &[1, 2, 0, 3]);
    assert_eq!(vm.registers().len(), REGISTERS);
    assert_eq!(vm.registers()[2], 3);
    assert_eq!(vm.registers().iter().filter(|value| **value != 0).count(), 1);
    assert_eq!(WORD, 4);
}

#[test]
fn test_outcome_messages() {
    assert_eq!(Outcome::Continue.message(), None);
    assert_eq!(Outcome::Halt.message(), Some("halt!"));
    assert_eq!(
        Outcome::Illegal.message(),
        Some("unknown opcode\nthink about what you want to do and come back later\nsee ya!")
    );
    for fault in [Fault::Truncated, Fault::Register, Fault::Arithmetic, Fault::Counter, Fault::Allocation] {
        assert_eq!(Outcome::Fault(fault).message(), Some("fault"));
    }
}
