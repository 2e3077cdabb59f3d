use lib::bus::{AddressSpace, IRQ_TIMER, PAGE_SIZE, REG_IRQ_ENABLE, REG_IRQ_PENDING};
use lib::cpu::{Cpu, CpuFault, StepKind, RESET_STACK_POINTER};
use lib::isa::{
    FLAG_CARRY, FLAG_INTERRUPT_DISABLE, FLAG_MASK, FLAG_NEGATIVE, FLAG_OVERFLOW, FLAG_ZERO,
    VECTOR_IRQ, VECTOR_RESET, VECTOR_SWI,
};
use lib::Register;

fn program_bus(program: &[u8], start: u16) -> AddressSpace {
    let mut image = vec![0xff; PAGE_SIZE];
    let start_index = usize::from(start);
    image[start_index..start_index + program.len()].copy_from_slice(program);
    image[usize::from(VECTOR_RESET)..usize::from(VECTOR_RESET) + 2]
        .copy_from_slice(&start.to_le_bytes());
    let mut bus = AddressSpace::new(1);
    bus.load_rom(&image).unwrap();
    bus
}

fn run_to_halt(cpu: &mut Cpu, bus: &mut AddressSpace) {
    for _ in 0..100 {
        if cpu.halted() {
            return;
        }
        cpu.step(bus, false).unwrap();
    }
    panic!("program did not halt");
}

fn run_program(program: &[u8]) -> (Cpu, AddressSpace) {
    let mut bus = program_bus(program, 0x0100);
    let mut cpu = Cpu::new();
    cpu.reset(&mut bus);
    run_to_halt(&mut cpu, &mut bus);
    (cpu, bus)
}

#[test]
fn executes_load_arithmetic_store_and_halt() {
    let mut bus = program_bus(&[0x10, 0x7f, 0x80, 0x01, 0x18, 0x00, 0x80, 0x01], 0x0100);
    let mut cpu = Cpu::new();
    cpu.reset(&mut bus);
    run_to_halt(&mut cpu, &mut bus);

    assert_eq!(cpu.a(), 0x80);
    assert!(cpu.flag(FLAG_NEGATIVE));
    assert!(cpu.flag(FLAG_OVERFLOW));
    assert_eq!(bus.read(0x8000), 0x80);
}

#[test]
fn call_and_return_use_a_little_endian_descending_stack() {
    let mut bus =
        program_bus(&[0xa5, 0x08, 0x01, 0x10, 0x42, 0x01, 0x00, 0x00, 0x10, 0x99, 0x03], 0x0100);
    let mut cpu = Cpu::new();
    cpu.reset(&mut bus);
    run_to_halt(&mut cpu, &mut bus);

    assert_eq!(cpu.a(), 0x42);
    assert_eq!(cpu.sp(), RESET_STACK_POINTER);
    assert_eq!(bus.read(0xbffe), 0x03);
    assert_eq!(bus.read(0xbfff), 0x01);
}

#[test]
fn branches_use_signed_offsets_from_the_end_of_the_instruction() {
    let mut bus = program_bus(&[0x10, 3, 0x8c, 0xb2, 0xfd, 0x01], 0x0100);
    let mut cpu = Cpu::new();
    cpu.reset(&mut bus);
    run_to_halt(&mut cpu, &mut bus);

    assert_eq!(cpu.a(), 0);
    assert!(cpu.flag(FLAG_ZERO));
}

#[test]
fn subtraction_sets_carry_when_no_borrow_occurs() {
    let mut bus = program_bus(&[0x10, 5, 0x82, 5, 0x01], 0x0100);
    let mut cpu = Cpu::new();
    cpu.reset(&mut bus);
    run_to_halt(&mut cpu, &mut bus);

    assert_eq!(cpu.a(), 0);
    assert!(cpu.flag(FLAG_CARRY));
    assert!(cpu.flag(FLAG_ZERO));
}

#[test]
fn reserved_opcode_reports_a_deterministic_fault() {
    let mut bus = program_bus(&[0xbf], 0x0100);
    let mut cpu = Cpu::new();
    cpu.reset(&mut bus);

    assert_eq!(cpu.step(&mut bus, false), Err(CpuFault::IllegalOpcode { pc: 0x0100, opcode: 0xbf }));
}

#[test]
fn irq_and_rti_restore_pc_flags_and_stack() {
    let mut image = vec![0xff; PAGE_SIZE];
    image[0x0100..0x0102].copy_from_slice(&[0x07, 0x01]); // CLI; HLT
    image[0x0200..0x0208].copy_from_slice(&[
        0x10,
        IRQ_TIMER,
        0x18,
        REG_IRQ_PENDING as u8,
        0xc0,
        0x10,
        0x42,
        0x04,
    ]);
    image[usize::from(VECTOR_RESET)..usize::from(VECTOR_RESET) + 2]
        .copy_from_slice(&0x0100u16.to_le_bytes());
    image[usize::from(VECTOR_IRQ)..usize::from(VECTOR_IRQ) + 2]
        .copy_from_slice(&0x0200u16.to_le_bytes());
    let mut bus = AddressSpace::new(1);
    bus.load_rom(&image).unwrap();
    let mut cpu = Cpu::new();
    cpu.reset(&mut bus);

    cpu.step(&mut bus, false).unwrap(); // CLI
    bus.write(REG_IRQ_ENABLE, IRQ_TIMER);
    bus.request_irq(IRQ_TIMER);
    let irq = bus.irq_line();
    assert_eq!(cpu.step(&mut bus, irq).unwrap().kind, StepKind::Interrupt);
    assert_eq!(cpu.pc(), 0x0200);
    assert_eq!(cpu.sp(), RESET_STACK_POINTER - 3);
    cpu.step(&mut bus, false).unwrap(); // LDI A, IRQ_TIMER
    cpu.step(&mut bus, false).unwrap(); // clear pending
    cpu.step(&mut bus, false).unwrap(); // LDI A, 0x42
    cpu.step(&mut bus, false).unwrap(); // RTI

    assert_eq!(cpu.a(), 0x42);
    assert_eq!(cpu.pc(), 0x0101);
    assert_eq!(cpu.sp(), RESET_STACK_POINTER);
    assert!(!cpu.flag(FLAG_INTERRUPT_DISABLE));
    assert!(!bus.irq_line());
    cpu.step(&mut bus, false).unwrap();
    assert!(cpu.halted());
}

#[test]
fn reset_state_and_step_results() {
    let mut bus = program_bus(&[0x00, 0x01], 0x0123);
    let mut cpu = Cpu::new();
    assert_eq!(cpu.sp(), RESET_STACK_POINTER);
    assert_eq!(cpu.flags(), FLAG_INTERRUPT_DISABLE);
    cpu.reset(&mut bus);
    assert_eq!(cpu.pc(), 0x0123);
    let step = cpu.step(&mut bus, false).unwrap();
    assert_eq!((step.pc, step.cycles, step.kind), (0x0123, 1, StepKind::Instruction(0x00)));
    let step = cpu.step(&mut bus, false).unwrap();
    assert_eq!(step.kind, StepKind::Instruction(0x01));
    assert!(cpu.halted());
    let step = cpu.step(&mut bus, false).unwrap();
    assert_eq!((step.pc, step.cycles, step.kind), (0x0125, 1, StepKind::Halted));
    assert_eq!(cpu.cycles(), 3);
    // A masked IRQ leaves a halted CPU halted.
    let step = cpu.step(&mut bus, true).unwrap();
    assert_eq!(step.kind, StepKind::Halted);
}

#[test]
fn setters_keep_flags_within_the_defined_mask() {
    let mut cpu = Cpu::default();
    cpu.set_flags(0xff);
    assert_eq!(cpu.flags(), FLAG_MASK);
    cpu.set_register(Register::C, 0x5a);
    assert_eq!(cpu.c(), 0x5a);
    assert_eq!(cpu.register(Register::C), 0x5a);
    cpu.set_x(0x1234);
    cpu.set_y(0x4321);
    cpu.set_sp(0x9000);
    cpu.set_pc(0x0042);
    assert_eq!((cpu.x(), cpu.y(), cpu.sp(), cpu.pc()), (0x1234, 0x4321, 0x9000, 0x0042));
    assert_eq!((cpu.a(), cpu.b(), cpu.d()), (0, 0, 0));
}

#[test]
fn software_interrupt_pushes_pc_and_flags() {
    let mut image = vec![0xff; PAGE_SIZE];
    image[0x0100] = 0x02; // SWI
    image[0x0300] = 0x01; // HLT
    image[usize::from(VECTOR_RESET)..usize::from(VECTOR_RESET) + 2]
        .copy_from_slice(&0x0100u16.to_le_bytes());
    image[usize::from(VECTOR_SWI)..usize::from(VECTOR_SWI) + 2]
        .copy_from_slice(&0x0300u16.to_le_bytes());
    let mut bus = AddressSpace::new(1);
    bus.load_rom(&image).unwrap();
    let mut cpu = Cpu::new();
    cpu.reset(&mut bus);
    let step = cpu.step(&mut bus, false).unwrap();
    assert_eq!(step.cycles, 6);
    assert_eq!(cpu.pc(), 0x0300);
    assert_eq!(cpu.sp(), RESET_STACK_POINTER - 3);
    assert_eq!(bus.read(0xbfff), 0x01);
    assert_eq!(bus.read(0xbffe), 0x01);
    assert_eq!(bus.read(0xbffd), FLAG_INTERRUPT_DISABLE);
}

#[test]
fn push_pop_and_moves_round_trip_through_the_stack() {
    // LDI A,0x5c; PUSH A; LDI A,0; POP B; MOV C,B; HLT
    let (cpu, bus) = run_program(&[0x10, 0x5c, 0x2c, 0x10, 0x00, 0x31, 0x49, 0x01]);
    assert_eq!(cpu.a(), 0);
    assert_eq!(cpu.b(), 0x5c);
    assert_eq!(cpu.c(), 0x5c);
    assert_eq!(cpu.sp(), RESET_STACK_POINTER);
    assert_eq!(bus.peek(0xbfff), 0x5c);
}

#[test]
fn index_registers_load_store_and_compare() {
    // LDX #0x8010; LDY #0x0001; STX 0x8000; INX; CPX #0x8011; HLT
    let (cpu, bus) = run_program(&[
        0x34, 0x10, 0x80, 0x35, 0x01, 0x00, 0x39, 0x00, 0x80, 0x3b, 0xa2, 0x11, 0x80, 0x01,
    ]);
    assert_eq!(cpu.x(), 0x8011);
    assert_eq!(cpu.y(), 0x0001);
    assert_eq!(bus.peek(0x8000), 0x10);
    assert_eq!(bus.peek(0x8001), 0x80);
    assert!(cpu.flag(FLAG_ZERO));
    assert!(cpu.flag(FLAG_CARRY));
}

#[test]
fn shifts_and_rotates_move_bits_through_carry() {
    // LDI A,0x81; SHL A; ROL A; HLT
    let (cpu, _) = run_program(&[0x10, 0x81, 0x90, 0x98, 0x01]);
    assert_eq!(cpu.a(), 0x05);
    assert!(!cpu.flag(FLAG_CARRY));
    // LDI A,0x01; SEC; ROR A; HLT
    let (cpu, _) = run_program(&[0x10, 0x01, 0x06, 0x9c, 0x01]);
    assert_eq!(cpu.a(), 0x80);
    assert!(cpu.flag(FLAG_CARRY));
    assert!(cpu.flag(FLAG_NEGATIVE));
}

#[test]
fn logic_operations_clear_overflow_and_keep_carry() {
    // LDI A,0x7f; ADD #1 (sets V); SEC; AND #0x0f; HLT
    let (cpu, _) = run_program(&[0x10, 0x7f, 0x80, 0x01, 0x06, 0x84, 0x0f, 0x01]);
    assert_eq!(cpu.a(), 0x00);
    assert!(!cpu.flag(FLAG_OVERFLOW));
    assert!(cpu.flag(FLAG_CARRY));
    assert!(cpu.flag(FLAG_ZERO));
}

#[test]
fn fault_messages_show_the_opcode_and_address() {
    assert_eq!(
        CpuFault::IllegalOpcode { pc: 0x0100, opcode: 0xbf }.to_string(),
        "illegal opcode 0xbf at 0x0100"
    );
}

#[test]
fn fault_messages_pad_the_hexadecimal_digits() {
    assert_eq!(
        CpuFault::IllegalOpcode { pc: 0x000a, opcode: 0x0b }.to_string(),
        "illegal opcode 0x0b at 0x000a"
    );
    assert_eq!(
        CpuFault::IllegalOpcode { pc: 0xffff, opcode: 0xff }.to_string(),
        "illegal opcode 0xff at 0xffff"
    );
}

#[test]
fn software_interrupt_and_return_resume_after_the_swi() {
    let mut image = vec![0xff; PAGE_SIZE];
    image[0x0100..0x0103].copy_from_slice(&[0x06, 0x02, 0x01]); // SEC; SWI; HLT
    image[0x0300] = 0x04; // RTI
    image[usize::from(VECTOR_RESET)..usize::from(VECTOR_RESET) + 2]
        .copy_from_slice(&0x0100u16.to_le_bytes());
    image[usize::from(VECTOR_SWI)..usize::from(VECTOR_SWI) + 2]
        .copy_from_slice(&0x0300u16.to_le_bytes());
    let mut bus = AddressSpace::new(1);
    bus.load_rom(&image).unwrap();
    let mut cpu = Cpu::new();
    cpu.reset(&mut bus);
    cpu.step(&mut bus, false).unwrap(); // SEC
    let flags = cpu.flags();
    cpu.step(&mut bus, false).unwrap(); // SWI
    assert_eq!(cpu.pc(), 0x0300);
    let step = cpu.step(&mut bus, false).unwrap(); // RTI
    assert_eq!(step.cycles, 4);
    assert_eq!(cpu.pc(), 0x0102);
    assert_eq!(cpu.sp(), RESET_STACK_POINTER);
    assert_eq!(cpu.flags(), flags);
    cpu.step(&mut bus, false).unwrap();
    assert!(cpu.halted());
}

#[test]
fn only_the_reserved_opcodes_fault() {
    // BLE +0 is the last assigned opcode.
    let mut bus = program_bus(&[0xbe, 0x00, 0xff], 0x0100);
    let mut cpu = Cpu::new();
    cpu.reset(&mut bus);
    assert!(cpu.step(&mut bus, false).is_ok());
    assert_eq!(cpu.pc(), 0x0102);
    assert_eq!(cpu.step(&mut bus, false), Err(CpuFault::IllegalOpcode { pc: 0x0102, opcode: 0xff }));
    // The fault leaves PC past the opcode and counts no cycles.
    assert_eq!(cpu.pc(), 0x0103);
    assert_eq!(cpu.cycles(), 2);
}

#[test]
fn popped_flags_never_set_undefined_bits() {
    // LDI A,0xff; PUSH A; PLP; HLT
    let (cpu, _) = run_program(&[0x10, 0xff, 0x2c, 0x0b, 0x01]);
    assert_eq!(cpu.flags(), FLAG_MASK);
}

#[test]
fn an_irq_wakes_a_halted_cpu() {
    let mut image = vec![0xff; PAGE_SIZE];
    image[0x0100..0x0102].copy_from_slice(&[0x07, 0x01]); // CLI; HLT
    image[0x0200] = 0x04; // RTI
    image[usize::from(VECTOR_RESET)..usize::from(VECTOR_RESET) + 2]
        .copy_from_slice(&0x0100u16.to_le_bytes());
    image[usize::from(VECTOR_IRQ)..usize::from(VECTOR_IRQ) + 2]
        .copy_from_slice(&0x0200u16.to_le_bytes());
    let mut bus = AddressSpace::new(1);
    bus.load_rom(&image).unwrap();
    let mut cpu = Cpu::new();
    cpu.reset(&mut bus);
    cpu.step(&mut bus, false).unwrap();
    cpu.step(&mut bus, false).unwrap();
    assert!(cpu.halted());
    let step = cpu.step(&mut bus, true).unwrap();
    assert_eq!((step.pc, step.kind), (0x0102, StepKind::Interrupt));
    assert!(!cpu.halted());
    assert!(cpu.flag(FLAG_INTERRUPT_DISABLE));
    cpu.step(&mut bus, true).unwrap(); // RTI; the IRQ is masked while in the handler
    assert_eq!(cpu.pc(), 0x0102);
    assert!(!cpu.halted());
    assert!(!cpu.flag(FLAG_INTERRUPT_DISABLE));
}

#[test]
fn stores_leave_flags_alone() {
    // LDI A,0 (sets Z); LDX #0x8100; ST A,(X); ST A,0x8001; HLT
    let (cpu, bus) = run_program(&[0x10, 0x00, 0x34, 0x00, 0x81, 0x20, 0x18, 0x01, 0x80, 0x01]);
    assert!(!cpu.flag(FLAG_ZERO)); // LDX set N/Z from 0x8100
    assert!(cpu.flag(FLAG_NEGATIVE));
    assert_eq!(bus.peek(0x8100), 0);
    assert_eq!(bus.peek(0x8001), 0);
}
