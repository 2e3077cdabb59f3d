use lib::bus::{IRQ_INPUT, IRQ_TIMER, PAGE_SIZE, REG_IRQ_ENABLE};
use lib::cpu::CpuFault;
use lib::devices::{
    Button, VideoBackend, VideoDevice, TIMER_CTRL, TIMER_CTRL_ENABLE, TIMER_CTRL_RESTART,
    VIDEO_CTRL_ENABLE,
};
use lib::isa::{ldi, st_abs, Opcode, Register, VECTOR_RESET};
use lib::machine::{Machine, StopReason};
use lib::LoadError;

fn machine_with_program(program: &[u8]) -> Machine {
    let start = 0x0100u16;
    let mut rom = vec![0xff; PAGE_SIZE];
    rom[usize::from(start)..usize::from(start) + program.len()].copy_from_slice(program);
    rom[usize::from(VECTOR_RESET)..usize::from(VECTOR_RESET) + 2]
        .copy_from_slice(&start.to_le_bytes());
    let mut machine = Machine::new(2);
    machine.load_rom(&rom).unwrap();
    machine.reset();
    machine
}

#[test]
fn machine_runs_a_program_and_ticks_the_timer() {
    let mut machine = machine_with_program(&[Opcode::Nop.byte(), Opcode::Halt.byte()]);
    machine.bus_mut().timer_mut().set_count(1);
    machine.bus_mut().timer_mut().write(TIMER_CTRL, TIMER_CTRL_ENABLE);

    let result = machine.run(10).unwrap();

    assert_eq!(result.reason, StopReason::Halted);
    assert_eq!(result.steps, 2);
    assert_ne!(machine.bus().irq_pending() & IRQ_TIMER, 0);
}

#[test]
fn host_button_edges_reach_mmio_and_raise_an_irq() {
    let mut machine = Machine::default();
    machine.bus_mut().write(REG_IRQ_ENABLE, IRQ_INPUT);
    machine.press_button(Button::A);

    assert!(machine.bus().irq_line());
    assert!(machine.bus().input().is_down(Button::A));
    assert_eq!(machine.bus().input().pressed(), Button::A.bit());
}

#[derive(Default)]
struct RecordingBackend {
    frames: usize,
    first_pixel: u8,
}

impl VideoBackend for RecordingBackend {
    fn present(&mut self, width: usize, height: usize, pixels: &[u8]) {
        assert_eq!((width, height), (128, 96));
        self.frames += 1;
        self.first_pixel = pixels[0];
    }
}

#[test]
fn guest_program_can_draw_and_request_a_frame() {
    let program = [
        ldi(Register::A),
        VIDEO_CTRL_ENABLE,
        st_abs(Register::A),
        0x30,
        0xc0,
        ldi(Register::A),
        0xe3,
        st_abs(Register::A),
        0x00,
        0xd0,
        st_abs(Register::A),
        0x31,
        0xc0,
        Opcode::Halt.byte(),
    ];
    let mut machine = machine_with_program(&program);
    machine.run(20).unwrap();
    let mut backend = RecordingBackend::default();

    assert!(machine.render_if_pending(&mut backend));
    assert_eq!(backend.frames, 1);
    assert_eq!(backend.first_pixel, 0xe3);
    assert_eq!(machine.bus().video().frame_sequence(), 1);
}

#[test]
fn reset_preserves_rom_but_clears_mutable_state() {
    let mut machine = machine_with_program(&[Opcode::Halt.byte()]);
    machine.bus_mut().ram_mut()[0] = 0xaa;
    machine.bus_mut().video_mut().write_vram(0, 0xff);
    machine.bus_mut().timer_mut().write(TIMER_CTRL, TIMER_CTRL_ENABLE | TIMER_CTRL_RESTART);
    let original_opcode = machine.bus().rom()[0x0100];

    machine.reset();

    assert_eq!(machine.bus().ram()[0], 0);
    assert_eq!(machine.bus().video(), &VideoDevice::new());
    assert_eq!(machine.bus().rom()[0x0100], original_opcode);
}

#[test]
fn run_stops_at_the_step_limit_and_reports_cycles() {
    // An endless loop: BRA -2.
    let mut machine = machine_with_program(&[0xb0, 0xfe]);
    let result = machine.run(5).unwrap();
    assert_eq!(result.reason, StopReason::StepLimit);
    assert_eq!(result.steps, 5);
    assert_eq!(result.cycles, 15);
    assert_eq!(machine.cpu().pc(), 0x0100);
    let result = machine.run(0).unwrap();
    assert_eq!(result.steps, 0);
    assert_eq!(result.cycles, 0);
}

#[test]
fn run_reports_a_fault_and_a_halted_machine_does_not_run() {
    let mut machine = machine_with_program(&[0x00, 0xc5]);
    assert_eq!(machine.run(10), Err(CpuFault::IllegalOpcode { pc: 0x0101, opcode: 0xc5 }));

    let mut halted = machine_with_program(&[Opcode::Halt.byte()]);
    halted.run(3).unwrap();
    let result = halted.run(3).unwrap();
    assert_eq!(result.reason, StopReason::Halted);
    assert_eq!(result.steps, 0);
    assert_eq!(result.cycles, 0);
}

#[test]
fn machine_loaders_and_constructors_report_errors() {
    assert!(matches!(Machine::try_new(0), Err(LoadError::InvalidBankCount { count: 0 })));
    let mut machine = Machine::try_new(2).unwrap();
    assert_eq!(machine.bus().bank_count(), 2);
    assert_eq!(
        machine.load_bank(2, &[1]),
        Err(LoadError::InvalidBank { bank: 2, bank_count: 2 })
    );
    assert_eq!(machine.load_bank(1, &[0x77]), Ok(()));
    assert_eq!(machine.bus().bank(1).unwrap()[0], 0x77);
    let oversized = vec![0u8; PAGE_SIZE + 1];
    assert!(matches!(machine.load_rom(&oversized), Err(LoadError::RomTooLarge { .. })));
}

#[test]
fn machine_step_advances_the_timer_by_the_step_cycles() {
    // LDI A,1 takes two cycles.
    let mut machine = machine_with_program(&[0x10, 0x01, 0x01]);
    machine.bus_mut().timer_mut().set_count(10);
    machine.bus_mut().timer_mut().write(TIMER_CTRL, TIMER_CTRL_ENABLE);
    let step = machine.step().unwrap();
    assert_eq!(step.cycles, 2);
    assert_eq!(machine.bus().timer().count(), 8);
    assert_eq!(machine.cpu().a(), 1);
}

#[test]
fn machine_input_helpers_reach_the_input_device() {
    let mut machine = Machine::new(1);
    machine.set_buttons(Button::Left.bit() | Button::B.bit());
    machine.release_button(Button::Left);
    machine.set_pointer(5, -6);
    let input = machine.bus().input();
    assert_eq!(input.state(), Button::B.bit());
    assert_eq!(input.pressed(), Button::Left.bit() | Button::B.bit());
    assert_eq!(input.pointer(), (5, -6));
    machine.cpu_mut().set_x(0x55);
    assert_eq!(machine.cpu().x(), 0x55);
}

#[test]
fn machines_can_be_built_around_an_address_space() {
    let mut space = lib::AddressSpace::new(4);
    space.load_rom(&[0x01]).unwrap();
    let mut machine = Machine::with_address_space(space);
    assert_eq!(machine.bus().bank_count(), 4);
    // The CPU starts at 0 without a reset: HLT at 0x0000.
    let result = machine.run(4).unwrap();
    assert_eq!(result.reason, StopReason::Halted);
    assert_eq!(result.steps, 1);
}

#[test]
fn runs_compose_and_resets_are_idempotent() {
    // NOP x4; HLT
    let program = [0x00, 0x00, 0x00, 0x00, 0x01];
    let mut split = machine_with_program(&program);
    let mut whole = machine_with_program(&program);
    let first = split.run(2).unwrap();
    let second = split.run(10).unwrap();
    let all = whole.run(12).unwrap();
    assert_eq!(first.steps + second.steps, all.steps);
    assert_eq!(first.cycles + second.cycles, all.cycles);
    assert_eq!(second.reason, all.reason);
    assert_eq!(split.cpu().pc(), whole.cpu().pc());
    assert_eq!(split.cpu().cycles(), whole.cpu().cycles());

    split.reset();
    let pc = split.cpu().pc();
    split.reset();
    assert_eq!(split.cpu().pc(), pc);
    assert_eq!(pc, 0x0100);
    assert_eq!(split.cpu().cycles(), 0);
}
