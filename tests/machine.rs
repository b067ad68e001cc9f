use cpr_bf::{
    run_string, BoundsCheckingStaticAllocator, BrainfuckAllocator, BrainfuckExecutionError,
    DynamicAllocator, Instruction, MissingKind, OutOfBoundsAccess, Program, RunStatus,
    StaticAllocator, VMBuilder, VMMemoryError, VirtualMachine,
};

const HELLO: &str = "++++++++[>++++[>++>+++>+++>+<<<<-]>+>+>->>+[<]<-]>>.>---.+++++++..+++.>>.<-.<.+++.------.--------.>>+.>++.";

fn text(output: &[char]) -> String {
    output.iter().collect()
}

#[test]
fn hello_world_with_byte_cells() {
    let r = run_string::<u8>(HELLO, &[], 1_000_000);
    assert!(matches!(r.status, RunStatus::Finished));
    assert_eq!(text(&r.output), "Hello World!\n");
    assert_eq!(r.consumed, 0);
}

#[test]
fn hello_world_through_builder_with_wide_cells() {
    let mut vm = VMBuilder::new()
        .with_cell_type::<u64>()
        .with_preallocated_cells(16)
        .with_reader(())
        .with_writer(())
        .build();
    assert_eq!(vm.memory().len(), 16);
    let r = vm.run_string(HELLO, &[], 1_000_000);
    assert!(matches!(r.status, RunStatus::Finished));
    assert_eq!(text(&r.output), "Hello World!\n");
}

#[test]
fn empty_loop_on_zero_cell_writes_nothing() {
    let r = run_string::<u8>("[]", &[], 1000);
    assert!(matches!(r.status, RunStatus::Finished));
    assert!(r.output.is_empty());
}

#[test]
fn lone_closing_bracket_on_zero_cell_is_no_op() {
    let r = run_string::<u8>("]", &[], 1000);
    assert!(matches!(r.status, RunStatus::Finished));
    assert!(r.output.is_empty());
}

#[test]
fn closing_bracket_at_start_with_nonzero_cell_fails() {
    let r = run_string::<u8>("+]", &[], 1000);
    assert!(matches!(
        r.status,
        RunStatus::Failed(BrainfuckExecutionError::JumpMismatchError(MissingKind::JumpFwd))
    ));
}

#[test]
fn lone_opening_bracket_on_zero_cell_fails_scanning_for_its_close() {
    let r = run_string::<u8>("[", &[], 1000);
    assert!(matches!(
        r.status,
        RunStatus::Failed(BrainfuckExecutionError::JumpMismatchError(MissingKind::JumpBack))
    ));
}

#[test]
fn opening_bracket_with_nonzero_cell_enters_the_body() {
    let r = run_string::<u8>("+[", &[], 1000);
    assert!(matches!(r.status, RunStatus::Finished));
}

#[test]
fn unmatched_closing_bracket_after_start_fails() {
    let r = run_string::<u8>("+>+<]", &[], 1000);
    assert!(matches!(
        r.status,
        RunStatus::Failed(BrainfuckExecutionError::JumpMismatchError(MissingKind::JumpFwd))
    ));
}

#[test]
fn loop_whose_opening_bracket_is_first_jumps_back_to_it() {
    // The tape survives between runs, so the first cell is nonzero when the
    // second program starts with its opening bracket at index 0.
    let mut vm: VirtualMachine<u8, DynamicAllocator, (), ()> = VirtualMachine::new(0, (), ());
    let first = vm.run_string("+++", &[], 1000);
    assert!(matches!(first.status, RunStatus::Finished));
    let second = vm.run_string("[-]", &[], 1000);
    assert!(matches!(second.status, RunStatus::Finished));
    assert_eq!(vm.memory(), &vec![0u8]);
}

#[test]
fn reset_memory_zeroes_cells_and_keeps_length_and_pointer() {
    let mut vm: VirtualMachine<u8, DynamicAllocator, (), ()> = VirtualMachine::new(0, (), ());
    let r = vm.run_string("+>++>+++", &[], 1000);
    assert!(matches!(r.status, RunStatus::Finished));
    assert_eq!(vm.memory(), &vec![1u8, 2, 3]);
    assert_eq!(vm.data_ptr(), 2);
    vm.reset_memory();
    assert_eq!(vm.memory(), &vec![0u8, 0, 0]);
    assert_eq!(vm.data_ptr(), 2);
}

#[test]
fn run_resets_pointer_but_keeps_tape() {
    let mut vm: VirtualMachine<u8, DynamicAllocator, (), ()> = VirtualMachine::new(0, (), ());
    vm.run_string(">>+", &[], 1000);
    assert_eq!(vm.data_ptr(), 2);
    vm.run_string("+", &[], 1000);
    assert_eq!(vm.data_ptr(), 0);
    assert_eq!(vm.memory(), &vec![1u8, 0, 1]);
}

#[test]
fn empty_program_leaves_pointer_alone() {
    let mut vm: VirtualMachine<u8, DynamicAllocator, (), ()> = VirtualMachine::new(0, (), ());
    vm.run_string(">>>", &[], 1000);
    let r = vm.run_string("no instructions here", &[], 1000);
    assert!(matches!(r.status, RunStatus::Finished));
    assert_eq!(vm.data_ptr(), 3);
}

#[test]
fn decoding_twice_gives_the_same_program() {
    let src = "a+[>,.<-]b";
    let first = Program::from_source(src);
    let second = Program::from_source(src);
    assert_eq!(first.instructions(), second.instructions());
}

#[test]
fn decoding_ignores_comments() {
    let with = Program::from_source("add + two + then loop [ - ] done\n\t");
    let without = Program::from_source("++[-]");
    assert_eq!(with.instructions(), without.instructions());
    assert_eq!(
        without.instructions(),
        &vec![
            Instruction::Incr,
            Instruction::Incr,
            Instruction::JumpFwd,
            Instruction::Decr,
            Instruction::JumpBack
        ]
    );
}

#[test]
fn each_instruction_character_decodes() {
    assert_eq!(Instruction::from_char('>'), Some(Instruction::IncrDP));
    assert_eq!(Instruction::from_char('<'), Some(Instruction::DecrDP));
    assert_eq!(Instruction::from_char('+'), Some(Instruction::Incr));
    assert_eq!(Instruction::from_char('-'), Some(Instruction::Decr));
    assert_eq!(Instruction::from_char('.'), Some(Instruction::Output));
    assert_eq!(Instruction::from_char(','), Some(Instruction::Input));
    assert_eq!(Instruction::from_char('['), Some(Instruction::JumpFwd));
    assert_eq!(Instruction::from_char(']'), Some(Instruction::JumpBack));
    assert_eq!(Instruction::from_char(' '), None);
    assert_eq!(Instruction::from_char('x'), None);
}

#[test]
fn empty_source_is_an_empty_program() {
    let p = Program::from_source("");
    assert!(p.is_empty());
    assert_eq!(p.len(), 0);
}

#[test]
fn dynamic_allocator_grows_with_zero_cells() {
    let mut data: Vec<u16> = vec![7];
    assert!(DynamicAllocator::ensure_capacity(&mut data, 5).is_ok());
    assert_eq!(data, vec![7, 0, 0, 0, 0]);
    assert!(DynamicAllocator::ensure_capacity(&mut data, 2).is_ok());
    assert_eq!(data.len(), 5);
}

#[test]
fn bounds_checked_allocator_reports_capacity_and_access() {
    let mut data: Vec<u8> = vec![0, 0, 0];
    assert!(BoundsCheckingStaticAllocator::ensure_capacity(&mut data, 3).is_ok());
    let err = BoundsCheckingStaticAllocator::ensure_capacity(&mut data, 4);
    assert_eq!(
        err,
        Err(VMMemoryError::OutOfBounds(OutOfBoundsAccess { capacity: 3, access: 4 }))
    );
    assert_eq!(data.len(), 3);
}

#[test]
fn static_allocator_checks_nothing() {
    let mut data: Vec<u8> = Vec::new();
    assert!(StaticAllocator::ensure_capacity(&mut data, 10).is_ok());
    assert!(data.is_empty());
}

#[test]
fn bounds_checked_machine_fails_past_preallocated_cells() {
    let mut vm = VMBuilder::new()
        .with_allocator::<BoundsCheckingStaticAllocator>()
        .with_preallocated_cells(2)
        .with_reader(())
        .with_writer(())
        .build();
    let r = vm.run_string(">+>+", &[], 1000);
    assert!(matches!(
        r.status,
        RunStatus::Failed(BrainfuckExecutionError::MemoryError(VMMemoryError::OutOfBounds(
            OutOfBoundsAccess { capacity: 2, access: 3 }
        )))
    ));
    assert_eq!(vm.memory(), &vec![0u8, 1]);
}

#[test]
fn unchecked_machine_drops_writes_past_the_tape() {
    let mut vm = VMBuilder::new()
        .with_allocator::<StaticAllocator>()
        .with_reader(())
        .with_writer(())
        .build();
    let r = vm.run_string("+.", &[], 1000);
    assert!(matches!(r.status, RunStatus::Finished));
    assert_eq!(text(&r.output), "\0");
    assert!(vm.memory().is_empty());
}

#[test]
fn pointer_underflow_fails() {
    let r = run_string::<u8>("<", &[], 1000);
    assert!(matches!(
        r.status,
        RunStatus::Failed(BrainfuckExecutionError::DataPointerUnderflow)
    ));
}

#[test]
fn cells_wrap_around() {
    let mut vm: VirtualMachine<u8, DynamicAllocator, (), ()> = VirtualMachine::new(0, (), ());
    vm.run_string("-", &[], 1000);
    assert_eq!(vm.memory(), &vec![255u8]);
    vm.run_string("+", &[], 1000);
    assert_eq!(vm.memory(), &vec![0u8]);
    let mut wide: VirtualMachine<u16, DynamicAllocator, (), ()> = VirtualMachine::new(0, (), ());
    wide.run_string("-", &[], 1000);
    assert_eq!(wide.memory(), &vec![65535u16]);
}

#[test]
fn output_of_a_plain_value_is_its_character() {
    let r = run_string::<u8>("++++++++[>++++++++<-]>+.", &[], 10_000);
    assert_eq!(text(&r.output), "A");
}

#[test]
fn output_of_a_non_scalar_value_is_the_replacement_character() {
    let r32 = run_string::<u32>("-.", &[], 1000);
    assert_eq!(text(&r32.output), "\u{FFFD}");
    let r64 = run_string::<u64>("-.", &[], 1000);
    assert_eq!(text(&r64.output), "\u{FFFD}");
    let r128 = run_string::<u128>("-.", &[], 1000);
    assert_eq!(text(&r128.output), "\u{FFFD}");
}

#[test]
fn output_of_an_unallocated_cell_is_zero_and_allocates_nothing() {
    let mut vm: VirtualMachine<u8, DynamicAllocator, (), ()> = VirtualMachine::new(0, (), ());
    let r = vm.run_string(">>.", &[], 1000);
    assert_eq!(text(&r.output), "\0");
    assert!(vm.memory().is_empty());
}

#[test]
fn input_bytes_are_read_in_order() {
    let r = run_string::<u8>(",.,.", b"hi", 1000);
    assert!(matches!(r.status, RunStatus::Finished));
    assert_eq!(text(&r.output), "hi");
    assert_eq!(r.consumed, 2);
}

#[test]
fn input_without_bytes_leaves_the_cell() {
    let mut vm: VirtualMachine<u8, DynamicAllocator, (), ()> = VirtualMachine::new(0, (), ());
    let r = vm.run_string("+++,", &[], 1000);
    assert!(matches!(r.status, RunStatus::Finished));
    assert_eq!(r.consumed, 0);
    assert_eq!(vm.memory(), &vec![3u8]);
}

#[test]
fn endless_loop_stops_at_the_step_limit() {
    let r = run_string::<u8>("+[]", &[], 100);
    assert!(matches!(r.status, RunStatus::StepLimitReached));
}

#[test]
fn loop_on_zero_cell_skips_its_body() {
    let mut vm: VirtualMachine<u8, DynamicAllocator, (), ()> = VirtualMachine::new(0, (), ());
    let r = vm.run_string("[+++.]", &[], 1000);
    assert!(matches!(r.status, RunStatus::Finished));
    assert!(r.output.is_empty());
    assert!(vm.memory().is_empty());
}

#[test]
fn loop_on_nonzero_cell_runs_its_body() {
    let mut vm: VirtualMachine<u8, DynamicAllocator, (), ()> = VirtualMachine::new(0, (), ());
    let r = vm.run_string("++[>+<-]", &[], 1000);
    assert!(matches!(r.status, RunStatus::Finished));
    assert_eq!(vm.memory(), &vec![0u8, 2]);
}

#[test]
fn single_steps_report_jumps_and_output() {
    let program = Program::from_source("[.]");
    let mut vm: VirtualMachine<u8, DynamicAllocator, (), ()> = VirtualMachine::new(1, (), ());
    let s = vm.exec(&program, 0, None).unwrap();
    assert_eq!(s.next, 2);
    assert_eq!(s.output, None);
    let s = vm.exec(&program, 1, None).unwrap();
    assert_eq!(s.next, 2);
    assert_eq!(s.output, Some('\0'));
    let s = vm.exec(&program, 2, None).unwrap();
    assert_eq!(s.next, 3);
}

#[test]
fn single_input_step_stores_the_byte() {
    let program = Program::from_source(",");
    let mut vm: VirtualMachine<u16, DynamicAllocator, (), ()> = VirtualMachine::new(0, (), ());
    let s = vm.exec(&program, 0, Some(200)).unwrap();
    assert_eq!(s.next, 1);
    assert_eq!(vm.memory(), &vec![200u16]);
}

#[test]
fn try_from_char_decodes_or_refuses() {
    assert_eq!(Instruction::try_from('['), Ok(Instruction::JumpFwd));
    assert_eq!(Instruction::try_from('#'), Err(()));
}

#[test]
fn errors_convert_from_their_sources() {
    let mem = VMMemoryError::OutOfBounds(OutOfBoundsAccess { capacity: 1, access: 2 });
    assert!(matches!(
        BrainfuckExecutionError::from(mem),
        BrainfuckExecutionError::MemoryError(VMMemoryError::OutOfBounds(OutOfBoundsAccess {
            capacity: 1,
            access: 2
        }))
    ));
    assert!(matches!(
        BrainfuckExecutionError::from(()),
        BrainfuckExecutionError::UnknownError
    ));
    let io = std::io::Error::new(std::io::ErrorKind::Other, "broken pipe");
    assert!(matches!(
        BrainfuckExecutionError::from(io),
        BrainfuckExecutionError::IOError(_)
    ));
}
