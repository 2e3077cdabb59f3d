//! The processor interface of the emulator framework.
use vstd::prelude::*;

use crate::ztiny_bus::BusAccess;
use crate::ztiny_core::numeric::{AddressType, WordType};

verus! {

/// A processor that runs against a bus of matching address and word types.
pub trait Cpu {
    type Address: AddressType;

    type Word: WordType;

    type Bus: BusAccess<Address = Self::Address, Word = Self::Word>;

    fn reset(&mut self);

    fn fetch(&mut self, bus: &mut Self::Bus) -> Option<Self::Word>;

    fn decode(&self, instruction: Self::Word, bus: &mut Self::Bus) -> Option<Self::Word>;

    fn execute(&mut self, bus: &mut Self::Bus, instruction: Self::Word);

    /// Execute one instruction or machine cycle using the shared
    /// fetch/decode/execute pipeline: a fetched instruction is decoded and
    /// then executed; when nothing is fetched, nothing else happens.
    fn step(&mut self, bus: &mut Self::Bus) where Self: Sized
        default_ensures
            exists|fetcher: &mut Self, fetch_bus: &mut Self::Bus, fetched: Option<Self::Word>|
                {
                    &&& #[trigger] call_ensures(Self::fetch, (fetcher, fetch_bus), fetched)
                    &&& *fetcher == *old(self)
                    &&& *fetch_bus == *old(bus)
                    &&& match fetched {
                        None => *final(self) == *final(fetcher) && *final(bus) == *final(fetch_bus),
                        Some(instruction) => exists|
                            decode_bus: &mut Self::Bus,
                            decoded: Option<Self::Word>,
                            executor: &mut Self,
                            execute_bus: &mut Self::Bus,
                        |
                            {
                                &&& #[trigger] call_ensures(
                                    Self::decode,
                                    (&*final(fetcher), instruction, decode_bus),
                                    decoded,
                                )
                                &&& #[trigger] call_ensures(
                                    Self::execute,
                                    (executor, execute_bus, instruction),
                                    (),
                                )
                                &&& *decode_bus == *final(fetch_bus)
                                &&& *executor == *final(fetcher)
                                &&& *execute_bus == *final(decode_bus)
                                &&& *final(self) == *final(executor)
                                &&& *final(bus) == *final(execute_bus)
                            },
                    }
                },
    {
        if let Some(instruction) = self.fetch(bus) {
            let _ = self.decode(instruction, bus);
            self.execute(bus, instruction);
        }
    }

    /// Return whether the CPU has halted.
    fn halted(&self) -> bool;
}

} // verus!
