//! CPU, address-space, timing, input, and video assembly for a ZT8 machine.
use vstd::prelude::*;

use crate::bus::{AddressSpace, AddressSpaceView, LoadError, PAGE_SIZE, padded_page};
use crate::cpu::{
    Cpu, CpuFault, CpuState, Step, SystemView, keeps_rom_and_shape, le_word,
    lemma_step_keeps_rom_and_shape, system,
};
use crate::devices::{Button, InputState, VideoBackend, VideoState, HEIGHT, WIDTH};
use crate::bus::IRQ_TIMER;
use crate::isa::VECTOR_RESET;

verus! {

#[derive(Clone, Copy, Debug, Eq, PartialEq, Structural)]
pub enum StopReason {
    Halted,
    StepLimit,
}

#[derive(Clone, Copy, Debug, Eq, PartialEq, Structural)]
pub struct RunResult {
    pub reason: StopReason,
    pub steps: usize,
    pub cycles: u64,
}

impl SystemView {
    /// One machine quantum: the CPU steps with the address space's IRQ line,
    /// then the devices advance by exactly the cycles the step took. A fault
    /// leaves device time untouched.
    pub open spec fn machine_step(self) -> (SystemView, Result<Step, CpuFault>) {
        let (next, result) = self.step(self.bus.irq_line());
        match result {
            Ok(step) => (SystemView { bus: next.bus.tick(step.cycles as u32), ..next }, result),
            Err(fault) => (next, result),
        }
    }

    /// Runs at most `budget` quanta, stopping early once the CPU is halted or
    /// at the first fault. The result is the final state and, unless a fault
    /// stopped the run, the number of quanta executed.
    pub open spec fn run(self, budget: nat) -> (SystemView, Result<nat, CpuFault>)
        decreases budget,
    {
        if budget == 0 || self.cpu.halted {
            (self, Ok(0))
        } else {
            let (next, result) = self.machine_step();
            match result {
                Ok(step) => {
                    let (last, rest) = next.run((budget - 1) as nat);
                    (
                        last,
                        match rest {
                            Ok(count) => Ok(count + 1),
                            Err(fault) => Err(fault),
                        },
                    )
                },
                Err(fault) => (next, Err(fault)),
            }
        }
    }

    /// The state after a machine reset: the address space resets, then the
    /// CPU returns to its power-on state and loads PC through the reset
    /// vector.
    pub open spec fn machine_reset(self) -> SystemView {
        let bus = self.bus.reset();
        SystemView {
            cpu: CpuState { pc: system(CpuState::initial(), bus).read_word(VECTOR_RESET), ..CpuState::initial() },
            bus,
        }
    }
}

/// One step of a run: a halted CPU or an empty budget stops the run at once;
/// otherwise the run is one machine quantum followed by a run with one step
/// less, or the fault of that quantum.
pub proof fn lemma_run_unfold(state: SystemView, budget: nat)
    ensures
        state.run(budget) == (if budget == 0 || state.cpu.halted {
            (state, Ok::<nat, CpuFault>(0))
        } else {
            match state.machine_step().1 {
                Ok(step) => after_steps(state.machine_step().0.run((budget - 1) as nat), 1),
                Err(fault) => (state.machine_step().0, Err::<nat, CpuFault>(fault)),
            }
        }),
{
    reveal(SystemView::run);
}

/// A run executes at most its step budget. When it ends without a fault
/// before using the whole budget, the CPU is halted; a halted CPU does not run
/// at all.
pub proof fn lemma_run_stops(state: SystemView, budget: nat)
    ensures
        state.run(budget).1 matches Ok(steps) ==> steps <= budget,
        state.run(budget).1 matches Ok(steps) ==> (steps < budget ==> state.run(budget).0.cpu.halted),
        state.cpu.halted ==> state.run(budget) == (state, Ok::<nat, CpuFault>(0)),
    decreases budget,
{
    lemma_run_unfold(state, budget);
    if budget > 0 && !state.cpu.halted {
        let (next, result) = state.machine_step();
        if result is Ok {
            lemma_run_stops(next, (budget - 1) as nat);
        }
    }
}

/// A machine quantum, a whole run and a reset keep the ROM images and the
/// system's shape: the address space stays well formed and no undefined
/// status bit is ever set.
pub proof fn lemma_machine_keeps_rom_and_shape(state: SystemView, budget: nat)
    requires
        state.wf(),
    ensures
        keeps_rom_and_shape(state, state.machine_step().0),
        keeps_rom_and_shape(state, state.run(budget).0),
        keeps_rom_and_shape(state, state.machine_reset()),
    decreases budget,
{
    reveal(SystemView::machine_step);
    lemma_step_keeps_rom_and_shape(state, state.bus.irq_line());
    let (next, result) = state.step(state.bus.irq_line());
    if let Ok(step) = result {
        lemma_tick_keeps_shape(next.bus, step.cycles as u32);
    }
    lemma_run_unfold(state, budget);
    if budget > 0 && !state.cpu.halted && state.machine_step().1 is Ok {
        lemma_machine_keeps_rom_and_shape(state.machine_step().0, (budget - 1) as nat);
    }
    crate::bus::lemma_reset_keeps_rom(state.bus);
    assert(4u8 & 0xc7u8 == 4u8) by (bit_vector);
}

proof fn lemma_tick_keeps_shape(space: AddressSpaceView, cycles: u32)
    requires
        space.wf(),
    ensures
        space.tick(cycles).wf(),
        space.tick(cycles).rom == space.rom,
        space.tick(cycles).banks == space.banks,
{
    crate::bus::lemma_irq_line_follows_enabled_sources(
        AddressSpaceView { timer: space.timer.after_tick(cycles), ..space },
        IRQ_TIMER,
    );
}

/// A machine reset keeps the ROM images, returns RAM, devices and the
/// processor to their power-on state, and loads PC from the little-endian
/// reset vector in fixed ROM. Resetting twice is the same as resetting once.
pub proof fn lemma_machine_reset_restarts_from_rom(state: SystemView)
    requires
        state.bus.wf(),
    ensures
        state.machine_reset().bus.rom == state.bus.rom,
        state.machine_reset().bus.banks == state.bus.banks,
        state.machine_reset().bus == state.bus.reset(),
        state.machine_reset().cpu == (CpuState {
            pc: le_word(state.bus.rom[VECTOR_RESET as int], state.bus.rom[VECTOR_RESET + 1]),
            ..CpuState::initial()
        }),
        state.machine_reset().machine_reset() == state.machine_reset(),
{
    crate::bus::lemma_reset_keeps_rom(state.bus);
}

/// Runs compose: a run of `first + second` quanta is a run of `first`
/// quanta followed by a run of `second` more from where it stopped, with the
/// step counts added. A fault in the first part ends the whole run there.
pub proof fn lemma_run_composes(state: SystemView, first: nat, second: nat)
    ensures
        match state.run(first).1 {
            Ok(steps) => state.run(first + second) == after_steps(
                state.run(first).0.run(second),
                steps,
            ),
            Err(fault) => state.run(first + second) == state.run(first),
        },
    decreases first,
{
    lemma_run_unfold(state, first);
    lemma_run_unfold(state, first + second);
    if first == 0 {
        let run = state.run(second);
        assert(after_steps(run, 0) == run);
    } else if state.cpu.halted {
        lemma_run_stops(state, second);
        assert(after_steps((state, Ok::<nat, CpuFault>(0)), 0) == (state, Ok::<nat, CpuFault>(0)));
    } else if state.machine_step().1 is Ok {
        let next = state.machine_step().0;
        let rest = (first - 1) as nat;
        assert((first + second - 1) as nat == rest + second);
        lemma_run_composes(next, rest, second);
        lemma_run_composes_step(next, rest, second);
    }
}

proof fn lemma_run_composes_step(next: SystemView, rest: nat, second: nat)
    requires
        match next.run(rest).1 {
            Ok(steps) => next.run(rest + second) == after_steps(next.run(rest).0.run(second), steps),
            Err(fault) => next.run(rest + second) == next.run(rest),
        },
    ensures
        match after_steps(next.run(rest), 1).1 {
            Ok(steps) => after_steps(next.run(rest + second), 1) == after_steps(
                after_steps(next.run(rest), 1).0.run(second),
                steps,
            ),
            Err(fault) => after_steps(next.run(rest + second), 1) == after_steps(next.run(rest), 1),
        },
{
    let tail = next.run(rest);
    if let Ok(k) = tail.1 {
        let more = tail.0.run(second);
        assert(after_steps(after_steps(more, k), 1) == after_steps(more, k + 1));
    }
}

/// Adds `count` to the step count of a run result.
pub open spec fn after_steps(
    run: (SystemView, Result<nat, CpuFault>),
    count: nat,
) -> (SystemView, Result<nat, CpuFault>) {
    (
        run.0,
        match run.1 {
            Ok(steps) => Ok(steps + count),
            Err(fault) => Err(fault),
        },
    )
}

/// A run from `start` with `budget` quanta has reached `state` after `steps`
/// of them: what remains of it is a run from `state` with the rest of the
/// budget.
#[verifier::opaque]
spec fn run_continues(start: SystemView, budget: nat, state: SystemView, steps: nat) -> bool {
    steps <= budget && start.run(budget) == after_steps(state.run((budget - steps) as nat), steps)
}

proof fn lemma_run_continues_start(start: SystemView, budget: nat)
    ensures
        run_continues(start, budget, start, 0),
{
    reveal(run_continues);
    let run = start.run(budget);
    assert(after_steps(run, 0) == run);
}

proof fn lemma_run_continues_step(start: SystemView, budget: nat, state: SystemView, steps: nat)
    requires
        run_continues(start, budget, state, steps),
        steps < budget,
        !state.cpu.halted,
    ensures
        match state.machine_step().1 {
            Ok(step) => run_continues(start, budget, state.machine_step().0, steps + 1),
            Err(fault) => start.run(budget) == (state.machine_step().0, Err::<nat, CpuFault>(fault)),
        },
{
    reveal(run_continues);
    let remaining = (budget - steps) as nat;
    lemma_run_unfold(state, remaining);
    let (next, result) = state.machine_step();
    if result is Ok {
        let tail = next.run((remaining - 1) as nat);
        assert(after_steps(after_steps(tail, 1), steps) == after_steps(tail, steps + 1));
        assert((budget - (steps + 1)) as nat == (remaining - 1) as nat);
    }
}

proof fn lemma_run_continues_end(start: SystemView, budget: nat, state: SystemView, steps: nat)
    requires
        run_continues(start, budget, state, steps),
        steps == budget || state.cpu.halted,
    ensures
        start.run(budget) == (state, Ok::<nat, CpuFault>(steps)),
        state.cpu.halted || steps == budget,
{
    reveal(run_continues);
    lemma_run_unfold(state, (budget - steps) as nat);
}

/// A complete, deterministic ZT8 virtual machine.
pub struct Machine {
    cpu: Cpu,
    bus: AddressSpace,
}

impl View for Machine {
    type V = SystemView;

    closed spec fn view(&self) -> SystemView {
        system(self.cpu@, self.bus@)
    }
}

impl Machine {
    /// The invariant every machine keeps: a well-formed address space.
    pub open spec fn wf(&self) -> bool {
        self@.bus.wf()
    }

    pub fn new(bank_count: usize) -> (machine: Machine)
        requires
            1 <= bank_count <= 256,
        ensures
            machine@ == system(CpuState::initial(), AddressSpaceView::initial(bank_count as nat)),
            machine.wf(),
    {
        Machine { cpu: Cpu::new(), bus: AddressSpace::new(bank_count) }
    }

    pub fn try_new(bank_count: usize) -> (result: Result<Machine, LoadError>)
        ensures
            match result {
                Ok(machine) => 1 <= bank_count <= 256 && machine@ == system(
                    CpuState::initial(),
                    AddressSpaceView::initial(bank_count as nat),
                ) && machine.wf(),
                Err(error) => !(1 <= bank_count <= 256) && error == LoadError::InvalidBankCount {
                    count: bank_count,
                },
            },
    {
        let bus = AddressSpace::try_new(bank_count)?;
        Ok(Machine { cpu: Cpu::new(), bus })
    }

    pub fn with_address_space(bus: AddressSpace) -> (machine: Machine)
        ensures
            machine@ == system(CpuState::initial(), bus@),
    {
        Machine { cpu: Cpu::new(), bus }
    }

    pub fn load_rom(&mut self, image: &[u8]) -> (result: Result<(), LoadError>)
        ensures
            match result {
                Ok(()) => image@.len() <= PAGE_SIZE && final(self)@ == system(
                    old(self)@.cpu,
                    AddressSpaceView { rom: padded_page(image@), ..old(self)@.bus },
                ),
                Err(error) => image@.len() > PAGE_SIZE && error == (LoadError::RomTooLarge {
                    size: image@.len() as usize,
                    capacity: PAGE_SIZE,
                }) && final(self)@ == old(self)@,
            },
    {
        self.bus.load_rom(image)
    }

    pub fn load_bank(&mut self, bank: usize, image: &[u8]) -> (result: Result<(), LoadError>)
        ensures
            match result {
                Ok(()) => image@.len() <= PAGE_SIZE && bank < old(self)@.bus.banks.len()
                    && final(self)@ == system(
                    old(self)@.cpu,
                    AddressSpaceView {
                        banks: old(self)@.bus.banks.update(bank as int, padded_page(image@)),
                        ..old(self)@.bus
                    },
                ),
                Err(error) => final(self)@ == old(self)@ && if image@.len() > PAGE_SIZE {
                    error == LoadError::BankTooLarge {
                        size: image@.len() as usize,
                        capacity: PAGE_SIZE,
                    }
                } else {
                    bank >= old(self)@.bus.banks.len() && error == LoadError::InvalidBank {
                        bank,
                        bank_count: old(self)@.bus.banks.len() as usize,
                    }
                },
            },
    {
        self.bus.load_bank(bank, image)
    }

    /// Resets RAM/devices and then loads the CPU reset vector from ROM.
    pub fn reset(&mut self)
        requires
            old(self).wf(),
        ensures
            final(self)@ == old(self)@.machine_reset(),
            final(self).wf(),
    {
        self.bus.reset();
        self.cpu.reset(&mut self.bus);
    }

    /// Runs one CPU quantum and advances devices by its exact cycle count.
    pub fn step(&mut self) -> (result: Result<Step, CpuFault>)
        requires
            old(self).wf(),
        ensures
            (final(self)@, result) == old(self)@.machine_step(),
            final(self).wf(),
    {
        reveal(SystemView::machine_step);
        let irq = self.bus.irq_line();
        let step = self.cpu.step(&mut self.bus, irq)?;
        self.bus.tick(step.cycles as u32);
        Ok(step)
    }

    /// Runs until HLT or until `step_limit` scheduling quanta have completed.
    pub fn run(&mut self, step_limit: usize) -> (result: Result<RunResult, CpuFault>)
        requires
            old(self).wf(),
        ensures
            final(self).wf(),
            final(self)@ == old(self)@.run(step_limit as nat).0,
            match old(self)@.run(step_limit as nat).1 {
                Ok(steps) => result == Ok::<RunResult, CpuFault>(
                    RunResult {
                        reason: if final(self)@.cpu.halted {
                            StopReason::Halted
                        } else {
                            StopReason::StepLimit
                        },
                        steps: steps as usize,
                        cycles: vstd::wrapping::u64_specs::wrapping_sub(
                            final(self)@.cpu.cycles,
                            old(self)@.cpu.cycles,
                        ),
                    },
                ),
                Err(fault) => result == Err::<RunResult, CpuFault>(fault),
            },
    {
        let starting_cycles = self.cpu.cycles();
        let ghost start = self@;
        let ghost budget = step_limit as nat;
        let mut steps: usize = 0;
        proof {
            lemma_run_continues_start(start, budget);
        }
        while steps < step_limit && !self.cpu.halted()
            invariant
                self.wf(),
                steps <= step_limit,
                budget == step_limit,
                start == old(self)@,
                start.cpu.cycles == starting_cycles,
                run_continues(start, budget, self@, steps as nat),
            decreases step_limit - steps,
        {
            let ghost before = self@;
            proof {
                lemma_run_continues_step(start, budget, before, steps as nat);
            }
            let result = self.step();
            if let Err(fault) = result {
                assert(start.run(budget) == (self@, Err::<nat, CpuFault>(fault)));
                return Err(fault);
            }
            steps += 1;
        }
        proof {
            lemma_run_continues_end(start, budget, self@, steps as nat);
        }
        let reason = if self.cpu.halted() {
            StopReason::Halted
        } else {
            StopReason::StepLimit
        };
        Ok(RunResult { reason, steps, cycles: self.cpu.cycles().wrapping_sub(starting_cycles) })
    }

    pub fn cpu(&self) -> (cpu: &Cpu)
        ensures
            cpu@ == self@.cpu,
    {
        &self.cpu
    }

    pub fn cpu_mut(&mut self) -> (cpu: &mut Cpu)
        ensures
            cpu@ == old(self)@.cpu,
            final(self)@ == system(final(cpu)@, old(self)@.bus),
    {
        &mut self.cpu
    }

    pub fn bus(&self) -> (bus: &AddressSpace)
        ensures
            bus@ == self@.bus,
    {
        &self.bus
    }

    pub fn bus_mut(&mut self) -> (bus: &mut AddressSpace)
        ensures
            bus@ == old(self)@.bus,
            final(self)@ == system(old(self)@.cpu, final(bus)@),
    {
        &mut self.bus
    }

    /// Supplies the complete host button bitfield and latches rising edges.
    pub fn set_buttons(&mut self, state: u8)
        requires
            old(self).wf(),
        ensures
            final(self)@ == system(old(self)@.cpu, old(self)@.bus.with_buttons(state)),
            final(self).wf(),
    {
        self.bus.set_buttons(state);
    }

    pub fn press_button(&mut self, button: Button)
        requires
            old(self).wf(),
        ensures
            final(self)@ == system(
                old(self)@.cpu,
                old(self)@.bus.with_buttons(old(self)@.bus.input.state | button.spec_bit()),
            ),
            final(self).wf(),
    {
        self.bus.press_button(button);
    }

    pub fn release_button(&mut self, button: Button)
        requires
            old(self).wf(),
        ensures
            final(self)@ == system(
                old(self)@.cpu,
                old(self)@.bus.with_buttons(old(self)@.bus.input.state & !button.spec_bit()),
            ),
            final(self).wf(),
    {
        self.bus.release_button(button);
    }

    pub fn set_pointer(&mut self, x: i8, y: i8)
        ensures
            final(self)@ == system(
                old(self)@.cpu,
                AddressSpaceView {
                    input: InputState { pointer_x: x, pointer_y: y, ..old(self)@.bus.input },
                    ..old(self)@.bus
                },
            ),
    {
        self.bus.set_pointer(x, y);
    }

    /// Presents one guest-requested frame, if any, through a host backend.
    pub fn render_if_pending<B: VideoBackend + ?Sized>(&mut self, backend: &mut B) -> (presented:
        bool)
        ensures
            presented == old(self)@.bus.video.presents(),
            final(self)@ == system(
                old(self)@.cpu,
                AddressSpaceView { video: old(self)@.bus.video.after_render(), ..old(self)@.bus },
            ),
            presented ==> exists|target: &mut B, frame: &[u8]|
                {
                    &&& #[trigger] call_ensures(B::present, (target, WIDTH, HEIGHT, frame), ())
                    &&& frame@ == old(self)@.bus.video.pixels
                    &&& &*target == &*old(backend)
                    &&& &*final(target) == &*final(backend)
                },
            !presented ==> &*final(backend) == &*old(backend),
    {
        self.bus.video_mut().render_if_pending(backend)
    }
}

impl Default for Machine {
    fn default() -> (machine: Machine)
        ensures
            machine@ == system(CpuState::initial(), AddressSpaceView::initial(1)),
            machine.wf(),
    {
        Machine::new(1)
    }
}

} // verus!
