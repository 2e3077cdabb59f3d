//! A generic machine: one processor wired to one bus.
use vstd::prelude::*;

use crate::ztiny_bus::BusAccess;
use crate::ztiny_cpu::Cpu;

pub use crate::ztiny_core::numeric::{AddressType, WordType};

verus! {

/// The processor and bus types that make up a machine.
pub trait MachineSpec {
    type Address: AddressType;

    type Word: WordType;

    type Bus: BusAccess<Address = Self::Address, Word = Self::Word>;

    type Cpu: Cpu<Address = Self::Address, Word = Self::Word, Bus = Self::Bus>;
}

/// A processor together with the bus it runs against.
pub struct Machine<S: MachineSpec> {
    cpu: S::Cpu,
    pub bus: S::Bus,
}

impl<S: MachineSpec> Machine<S> {
    /// The machine's processor.
    pub closed spec fn processor(&self) -> S::Cpu {
        self.cpu
    }

    /// The machine's bus.
    pub closed spec fn memory_bus(&self) -> S::Bus {
        self.bus
    }

    pub fn new(cpu: S::Cpu, bus: S::Bus) -> (machine: Self)
        ensures
            machine.processor() == cpu,
            machine.memory_bus() == bus,
    {
        Self { cpu, bus }
    }

    pub fn cpu(&self) -> (cpu: &S::Cpu)
        ensures
            *cpu == self.processor(),
    {
        &self.cpu
    }

    pub fn cpu_mut(&mut self) -> (cpu: &mut S::Cpu)
        ensures
            *cpu == old(self).processor(),
            final(self).processor() == *final(cpu),
            final(self).memory_bus() == old(self).memory_bus(),
    {
        &mut self.cpu
    }

    /// Runs one step of the processor against the machine's bus: the
    /// processor and the bus become what the processor's `step` makes of
    /// them.
    pub fn step(&mut self)
        ensures
            exists|cpu: &mut S::Cpu, bus: &mut S::Bus|
                {
                    &&& #[trigger] call_ensures(<S::Cpu as Cpu>::step, (cpu, bus), ())
                    &&& *cpu == old(self).processor()
                    &&& *bus == old(self).memory_bus()
                    &&& *final(cpu) == final(self).processor()
                    &&& *final(bus) == final(self).memory_bus()
                },
    {
        self.cpu.step(&mut self.bus);
    }

    /// Resets the processor to what its `reset` makes of it; the bus is left
    /// as it is.
    pub fn reset(&mut self)
        ensures
            final(self).memory_bus() == old(self).memory_bus(),
            exists|cpu: &mut S::Cpu|
                {
                    &&& #[trigger] call_ensures(<S::Cpu as Cpu>::reset, (cpu,), ())
                    &&& *cpu == old(self).processor()
                    &&& *final(cpu) == final(self).processor()
                },
    {
        self.cpu.reset();
    }

    /// Whether the processor has halted, as its `halted` reports; the
    /// machine is not changed.
    pub fn halted(&mut self) -> (halted: bool)
        ensures
            *final(self) == *old(self),
            call_ensures(<S::Cpu as Cpu>::halted, (&old(self).processor(),), halted),
    {
        self.cpu.halted()
    }
}

} // verus!
