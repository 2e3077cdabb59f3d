//! ZT8 processor state and instruction execution.
//!
//! The meaning of every instruction is written down once, as spec functions
//! over [`SystemView`] (the processor state together with the address space
//! it runs against). The executable processor is proved to follow it.
use vstd::prelude::*;

use crate::bus::{
    lemma_read_after_write, lemma_write_keeps_rom_and_shape, AddressSpace, AddressSpaceView,
    RAM_END, RAM_START,
};
use crate::isa::{
    FLAG_CARRY, FLAG_INTERRUPT_DISABLE, FLAG_MASK, FLAG_NEGATIVE, FLAG_OVERFLOW, FLAG_ZERO,
    Register, VECTOR_IRQ, VECTOR_RESET, VECTOR_SWI,
};
use crate::text::hex_digits;

verus! {

broadcast use vstd::array::group_array_axioms;

/// Address used by the first push after reset. The stack grows into RAM.
pub const RESET_STACK_POINTER: u16 = 0xc000;

#[derive(Clone, Copy, Debug, Eq, PartialEq, Structural)]
pub enum CpuFault {
    IllegalOpcode { pc: u16, opcode: u8 },
}

impl CpuFault {
    /// Human-readable description of the fault.
    pub fn to_string(&self) -> (text: String)
        ensures
            text@ == match *self {
                CpuFault::IllegalOpcode { pc, opcode } => illegal_opcode_text(pc, opcode),
            },
    {
        match *self {
            CpuFault::IllegalOpcode { pc, opcode } => illegal_opcode_message(pc, opcode),
        }
    }
}

/// The message for an illegal opcode: `illegal opcode {opcode:#04x} at
/// {pc:#06x}`, each number as `0x` and lowercase hexadecimal digits padded
/// to its full width.
pub open spec fn illegal_opcode_text(pc: u16, opcode: u8) -> Seq<char> {
    "illegal opcode 0x"@ + hex_digits(opcode as nat, 2) + " at 0x"@ + hex_digits(pc as nat, 4)
}

/// Formats the message for an illegal opcode with `format!`: `#04x` and
/// `#06x` write `0x` and then two and four lowercase hexadecimal digits,
/// padded with zeros.
#[verifier::external_body]
fn illegal_opcode_message(pc: u16, opcode: u8) -> (text: String)
    ensures
        text@ == illegal_opcode_text(pc, opcode),
{
    format!("illegal opcode {opcode:#04x} at {pc:#06x}")
}

#[derive(Clone, Copy, Debug, Eq, PartialEq, Structural)]
pub enum StepKind {
    Instruction(u8),
    Interrupt,
    Halted,
}

/// Result of one CPU scheduling quantum.
#[derive(Clone, Copy, Debug, Eq, PartialEq, Structural)]
pub struct Step {
    pub pc: u16,
    pub cycles: u8,
    pub kind: StepKind,
}

// ---------------------------------------------------------------------------
// Arithmetic on machine words
// ---------------------------------------------------------------------------

/// `value` reduced to a byte, wrapping.
pub open spec fn wrap8(value: int) -> u8 {
    (value % 256) as u8
}

/// `value` reduced to a 16-bit word, wrapping.
pub open spec fn wrap16(value: int) -> u16 {
    (value % 0x10000) as u16
}

/// The 16-bit word stored little-endian as `low`, `high`.
pub open spec fn le_word(low: u8, high: u8) -> u16 {
    (high * 256 + low) as u16
}

/// The two's-complement value of a byte.
pub open spec fn signed8(value: u8) -> int {
    if value < 128 {
        value as int
    } else {
        value - 256
    }
}

/// The two's-complement value of a word.
pub open spec fn signed16(value: u16) -> int {
    if value < 0x8000 {
        value as int
    } else {
        value - 0x10000
    }
}

/// `base` moved by the signed byte `offset`, wrapping in 16 bits.
pub open spec fn offset_address(base: u16, offset: u8) -> u16 {
    wrap16(base + signed8(offset))
}

/// Whether a signed result lies outside the byte range.
pub open spec fn overflows8(value: int) -> bool {
    value < -128 || value > 127
}

/// Whether a signed result lies outside the word range.
pub open spec fn overflows16(value: int) -> bool {
    value < -0x8000 || value > 0x7fff
}

// ---------------------------------------------------------------------------
// Status flags
// ---------------------------------------------------------------------------

/// `flags` with `flag` set or cleared; undefined bits are dropped.
pub open spec fn flag_update(flags: u8, flag: u8, set: bool) -> u8 {
    if set {
        (flags | flag) & FLAG_MASK
    } else {
        (flags & !flag) & FLAG_MASK
    }
}

/// Whether `flag` is set in `flags`.
pub open spec fn flag_is_set(flags: u8, flag: u8) -> bool {
    flags & flag != 0
}

/// Zero and negative flags for a byte result.
pub open spec fn nz8(flags: u8, value: u8) -> u8 {
    flag_update(flag_update(flags, FLAG_ZERO, value == 0), FLAG_NEGATIVE, value >= 0x80)
}

/// Zero and negative flags for a word result.
pub open spec fn nz16(flags: u8, value: u16) -> u8 {
    flag_update(flag_update(flags, FLAG_ZERO, value == 0), FLAG_NEGATIVE, value >= 0x8000)
}

/// The five defined flags, as the flag constants name them.
pub open spec fn is_defined_flag(flag: u8) -> bool {
    flag == FLAG_CARRY || flag == FLAG_ZERO || flag == FLAG_INTERRUPT_DISABLE || flag
        == FLAG_OVERFLOW || flag == FLAG_NEGATIVE
}

/// Setting or clearing one defined flag makes it read back as requested,
/// leaves every other defined flag as it was, and never sets an undefined
/// bit.
pub proof fn lemma_flag_update(flags: u8, flag: u8, set: bool, other: u8)
    requires
        is_defined_flag(flag),
        is_defined_flag(other),
        other != flag,
    ensures
        flag_is_set(flag_update(flags, flag, set), flag) == set,
        flag_is_set(flag_update(flags, flag, set), other) == flag_is_set(flags, other),
        flag_update(flags, flag, set) & FLAG_MASK == flag_update(flags, flag, set),
{
    assert(((flags | flag) & 0xc7) & flag != 0 && ((flags & !flag) & 0xc7) & flag == 0
        && (((flags | flag) & 0xc7) & other != 0) == (flags & other != 0) && (((flags & !flag)
        & 0xc7) & other != 0) == (flags & other != 0)) by (bit_vector)
        requires
            flag == 1 || flag == 2 || flag == 4 || flag == 0x40 || flag == 0x80,
            other == 1 || other == 2 || other == 4 || other == 0x40 || other == 0x80,
            other != flag,
    ;
    lemma_flag_update_is_masked(flags, flag, set);
}

// ---------------------------------------------------------------------------
// Abstract processor and system state
// ---------------------------------------------------------------------------

/// The programmer-visible state of the processor.
pub struct CpuState {
    pub registers: Seq<u8>,
    pub x: u16,
    pub y: u16,
    pub sp: u16,
    pub pc: u16,
    pub flags: u8,
    pub halted: bool,
    pub cycles: u64,
}

impl CpuState {
    /// The power-on state: zeroed registers, the reset stack pointer, and
    /// only the interrupt-disable flag set.
    pub open spec fn initial() -> CpuState {
        CpuState {
            registers: seq![0u8, 0u8, 0u8, 0u8],
            x: 0,
            y: 0,
            sp: RESET_STACK_POINTER,
            pc: 0,
            flags: FLAG_INTERRUPT_DISABLE,
            halted: false,
            cycles: 0,
        }
    }
}

/// A processor together with the address space it runs against.
#[verifier::ext_equal]
pub struct SystemView {
    pub cpu: CpuState,
    pub bus: AddressSpaceView,
}

/// The system formed by a processor state and an address space state.
pub open spec fn system(cpu: CpuState, bus: AddressSpaceView) -> SystemView {
    SystemView { cpu, bus }
}

impl SystemView {
    // --- plain state updates ---
    pub open spec fn with_pc(self, pc: u16) -> SystemView {
        SystemView { cpu: CpuState { pc, ..self.cpu }, ..self }
    }

    pub open spec fn with_sp(self, sp: u16) -> SystemView {
        SystemView { cpu: CpuState { sp, ..self.cpu }, ..self }
    }

    pub open spec fn with_x(self, x: u16) -> SystemView {
        SystemView { cpu: CpuState { x, ..self.cpu }, ..self }
    }

    pub open spec fn with_y(self, y: u16) -> SystemView {
        SystemView { cpu: CpuState { y, ..self.cpu }, ..self }
    }

    pub open spec fn with_flags(self, flags: u8) -> SystemView {
        SystemView { cpu: CpuState { flags, ..self.cpu }, ..self }
    }

    pub open spec fn with_halted(self, halted: bool) -> SystemView {
        SystemView { cpu: CpuState { halted, ..self.cpu }, ..self }
    }

    pub open spec fn with_register(self, register: int, value: u8) -> SystemView {
        SystemView {
            cpu: CpuState { registers: self.cpu.registers.update(register, value), ..self.cpu },
            ..self
        }
    }

    pub open spec fn register(self, register: int) -> u8 {
        self.cpu.registers[register]
    }

    pub open spec fn a(self) -> u8 {
        self.cpu.registers[0]
    }

    pub open spec fn flag(self, flag: u8) -> bool {
        flag_is_set(self.cpu.flags, flag)
    }

    pub open spec fn with_flag(self, flag: u8, set: bool) -> SystemView {
        self.with_flags(flag_update(self.cpu.flags, flag, set))
    }

    /// Loads a byte register and sets N and Z from the value.
    pub open spec fn store_register(self, register: int, value: u8) -> SystemView {
        self.with_register(register, value).with_flags(nz8(self.cpu.flags, value))
    }

    /// Sets N and Z from a word result.
    pub open spec fn with_nz16(self, value: u16) -> SystemView {
        self.with_flags(nz16(self.cpu.flags, value))
    }

    // --- memory ---
    pub open spec fn read(self, address: u16) -> u8 {
        self.bus.peek(address)
    }

    pub open spec fn write(self, address: u16, value: u8) -> SystemView {
        SystemView { bus: self.bus.write(address, value), ..self }
    }

    /// A little-endian word read at `address` and the byte after it.
    pub open spec fn read_word(self, address: u16) -> u16 {
        le_word(self.read(address), self.read(wrap16(address + 1)))
    }

    /// A little-endian word write: low byte at `address`, high byte after it.
    pub open spec fn write_word(self, address: u16, value: u16) -> SystemView {
        self.write(address, (value % 256) as u8).write(wrap16(address + 1), (value / 256) as u8)
    }

    /// The byte at PC, with PC advanced past it.
    pub open spec fn fetch_byte(self) -> (SystemView, u8) {
        (self.with_pc(wrap16(self.cpu.pc + 1)), self.read(self.cpu.pc))
    }

    /// The little-endian word at PC, with PC advanced past it.
    pub open spec fn fetch_word(self) -> (SystemView, u16) {
        let (s1, low) = self.fetch_byte();
        let (s2, high) = s1.fetch_byte();
        (s2, le_word(low, high))
    }

    /// Decrements SP, then writes the byte there.
    pub open spec fn push_byte(self, value: u8) -> SystemView {
        let sp = wrap16(self.cpu.sp - 1);
        self.with_sp(sp).write(sp, value)
    }

    /// Reads the byte at SP, then increments SP.
    pub open spec fn pop_byte(self) -> (SystemView, u8) {
        (self.with_sp(wrap16(self.cpu.sp + 1)), self.read(self.cpu.sp))
    }

    /// Pushes the high byte, then the low byte.
    pub open spec fn push_word(self, value: u16) -> SystemView {
        self.push_byte((value / 256) as u8).push_byte((value % 256) as u8)
    }

    /// Pops the low byte, then the high byte.
    pub open spec fn pop_word(self) -> (SystemView, u16) {
        let (s1, low) = self.pop_byte();
        let (s2, high) = s1.pop_byte();
        (s2, le_word(low, high))
    }

    /// Interrupt entry: push PC, push flags, disable interrupts, and load PC
    /// through `vector`.
    pub open spec fn enter_interrupt(self, vector: u16) -> SystemView {
        let s1 = self.push_word(self.cpu.pc).push_byte(self.cpu.flags);
        let s2 = s1.with_flag(FLAG_INTERRUPT_DISABLE, true);
        s2.with_pc(s2.read_word(vector))
    }

    /// Adds the cycle count of one quantum to the running total, wrapping.
    pub open spec fn count_cycles(self, cycles: u8) -> SystemView {
        SystemView {
            cpu: CpuState {
                cycles: vstd::wrapping::u64_specs::wrapping_add(self.cpu.cycles, cycles as u64),
                ..self.cpu
            },
            ..self
        }
    }
}

// ---------------------------------------------------------------------------
// Instruction semantics
// ---------------------------------------------------------------------------

/// The register number in the low two bits of a family opcode.
pub open spec fn family_index(opcode: u8) -> int {
    opcode as int % 4
}

/// Whether a conditional branch opcode (`0xb0..=0xbe`) is taken under `flags`.
pub open spec fn branch_taken(opcode: u8, flags: u8) -> bool {
    let c = flag_is_set(flags, FLAG_CARRY);
    let z = flag_is_set(flags, FLAG_ZERO);
    let n = flag_is_set(flags, FLAG_NEGATIVE);
    let v = flag_is_set(flags, FLAG_OVERFLOW);
    if opcode == 0xb0 {
        true
    } else if opcode == 0xb1 {
        z
    } else if opcode == 0xb2 {
        !z
    } else if opcode == 0xb3 {
        c
    } else if opcode == 0xb4 {
        !c
    } else if opcode == 0xb5 {
        n
    } else if opcode == 0xb6 {
        !n
    } else if opcode == 0xb7 {
        v
    } else if opcode == 0xb8 {
        !v
    } else if opcode == 0xb9 {
        c && !z
    } else if opcode == 0xba {
        !c || z
    } else if opcode == 0xbb {
        n == v
    } else if opcode == 0xbc {
        n != v
    } else if opcode == 0xbd {
        !z && n == v
    } else {
        z || n != v
    }
}

impl SystemView {
    /// One of the eight accumulator operations on the processor state.
    pub open spec fn alu(self, operation: int, value: u8) -> SystemView {
        SystemView { cpu: self.cpu.alu(operation, value), ..self }
    }

    /// `left - right` on words, for flags only.
    pub open spec fn compare_word(self, left: u16, right: u16) -> SystemView {
        SystemView { cpu: self.cpu.compare_word(left, right), ..self }
    }

    /// Opcodes `0x00..=0x0f`: control, flag, stack-flag and X-transfer
    /// instructions.
    pub open spec fn execute_control(self, opcode: u8) -> (SystemView, u8) {
        if opcode == 0x00 {
            (self, 1)
        } else if opcode == 0x01 {
            (self.with_halted(true), 1)
        } else if opcode == 0x02 {
            (self.enter_interrupt(VECTOR_SWI), 6)
        } else if opcode == 0x03 {
            let (s1, pc) = self.pop_word();
            (s1.with_pc(pc), 3)
        } else if opcode == 0x04 {
            let (s1, flags) = self.pop_byte();
            let s2 = s1.with_flags(flags & FLAG_MASK);
            let (s3, pc) = s2.pop_word();
            (s3.with_pc(pc).with_halted(false), 4)
        } else if opcode == 0x05 {
            (self.with_flag(FLAG_CARRY, false), 1)
        } else if opcode == 0x06 {
            (self.with_flag(FLAG_CARRY, true), 1)
        } else if opcode == 0x07 {
            (self.with_flag(FLAG_INTERRUPT_DISABLE, false), 1)
        } else if opcode == 0x08 {
            (self.with_flag(FLAG_INTERRUPT_DISABLE, true), 1)
        } else if opcode == 0x09 {
            (self.with_flag(FLAG_OVERFLOW, false), 1)
        } else if opcode == 0x0a {
            (self.push_byte(self.cpu.flags), 2)
        } else if opcode == 0x0b {
            let (s1, flags) = self.pop_byte();
            (s1.with_flags(flags & FLAG_MASK), 2)
        } else if opcode == 0x0c {
            (self.with_x(self.cpu.sp).with_nz16(self.cpu.sp), 1)
        } else if opcode == 0x0d {
            (self.with_sp(self.cpu.x), 1)
        } else if opcode == 0x0e {
            (self.with_pc(self.cpu.x), 1)
        } else {
            (self.push_word(self.cpu.pc).with_pc(self.cpu.x), 3)
        }
    }

    /// Opcodes `0x10..=0x33`: byte loads and stores (immediate, absolute,
    /// through X, through Y) and register push and pop.
    pub open spec fn execute_transfer(self, opcode: u8) -> (SystemView, u8) {
        let r = family_index(opcode);
        if opcode < 0x14 {
            let (s1, value) = self.fetch_byte();
            (s1.store_register(r, value), 2)
        } else if opcode < 0x18 {
            let (s1, address) = self.fetch_word();
            (s1.store_register(r, s1.read(address)), 4)
        } else if opcode < 0x1c {
            let (s1, address) = self.fetch_word();
            (s1.write(address, self.register(r)), 4)
        } else if opcode < 0x20 {
            (self.store_register(r, self.read(self.cpu.x)), 2)
        } else if opcode < 0x24 {
            (self.write(self.cpu.x, self.register(r)), 2)
        } else if opcode < 0x28 {
            (self.store_register(r, self.read(self.cpu.y)), 2)
        } else if opcode < 0x2c {
            (self.write(self.cpu.y, self.register(r)), 2)
        } else if opcode < 0x30 {
            (self.push_byte(self.register(r)), 2)
        } else {
            let (s1, value) = self.pop_byte();
            (s1.store_register(r, value), 2)
        }
    }

    /// Opcodes `0x34..=0x3f`: 16-bit X, Y and SP loads, stores and updates.
    pub open spec fn execute_index(self, opcode: u8) -> (SystemView, u8) {
        let x = self.cpu.x;
        let y = self.cpu.y;
        if opcode == 0x34 {
            let (s1, value) = self.fetch_word();
            (s1.with_x(value).with_nz16(value), 3)
        } else if opcode == 0x35 {
            let (s1, value) = self.fetch_word();
            (s1.with_y(value).with_nz16(value), 3)
        } else if opcode == 0x36 {
            let (s1, value) = self.fetch_word();
            (s1.with_sp(value), 3)
        } else if opcode == 0x37 {
            let (s1, address) = self.fetch_word();
            let value = s1.read_word(address);
            (s1.with_x(value).with_nz16(value), 5)
        } else if opcode == 0x38 {
            let (s1, address) = self.fetch_word();
            let value = s1.read_word(address);
            (s1.with_y(value).with_nz16(value), 5)
        } else if opcode == 0x39 {
            let (s1, address) = self.fetch_word();
            (s1.write_word(address, x), 5)
        } else if opcode == 0x3a {
            let (s1, address) = self.fetch_word();
            (s1.write_word(address, y), 5)
        } else if opcode == 0x3b {
            (self.with_x(wrap16(x + 1)).with_nz16(wrap16(x + 1)), 1)
        } else if opcode == 0x3c {
            (self.with_x(wrap16(x - 1)).with_nz16(wrap16(x - 1)), 1)
        } else if opcode == 0x3d {
            (self.with_y(wrap16(y + 1)).with_nz16(wrap16(y + 1)), 1)
        } else if opcode == 0x3e {
            (self.with_y(wrap16(y - 1)).with_nz16(wrap16(y - 1)), 1)
        } else {
            (self.with_x(y).with_y(x).with_nz16(y), 1)
        }
    }

    /// Opcodes `0x40..=0x4f`: register-to-register moves.
    pub open spec fn execute_move(self, opcode: u8) -> (SystemView, u8) {
        let destination = (opcode as int / 4) % 4;
        let source = family_index(opcode);
        (self.store_register(destination, self.register(source)), 1)
    }

    /// Opcodes `0x50..=0x5f`: loads and stores through X or Y plus a signed
    /// byte offset.
    pub open spec fn execute_offset(self, opcode: u8) -> (SystemView, u8) {
        let r = family_index(opcode);
        let (s1, offset) = self.fetch_byte();
        let base = if opcode < 0x58 {
            self.cpu.x
        } else {
            self.cpu.y
        };
        let address = offset_address(base, offset);
        if opcode < 0x54 || (0x58 <= opcode && opcode < 0x5c) {
            (s1.store_register(r, s1.read(address)), 3)
        } else {
            (s1.write(address, self.register(r)), 3)
        }
    }

    /// Opcodes `0x60..=0x7f` operate on A and a register; `0x80..=0x87` on A
    /// and an immediate byte.
    pub open spec fn execute_arithmetic(self, opcode: u8) -> (SystemView, u8) {
        if opcode < 0x80 {
            (self.alu((opcode - 0x60) / 4, self.register(family_index(opcode))), 1)
        } else {
            let (s1, value) = self.fetch_byte();
            (s1.alu(opcode - 0x80, value), 2)
        }
    }

    /// Opcodes `0x88..=0x9f`: increment, decrement, shifts and rotates of a
    /// byte register.
    pub open spec fn execute_unary(self, opcode: u8) -> (SystemView, u8) {
        let r = family_index(opcode);
        let value = self.register(r);
        let carry_in: int = if self.flag(FLAG_CARRY) {
            1
        } else {
            0
        };
        if opcode < 0x8c {
            (self.store_register(r, wrap8(value + 1)), 1)
        } else if opcode < 0x90 {
            (self.store_register(r, wrap8(value - 1)), 1)
        } else {
            let shifts_left = opcode < 0x94 || (0x98 <= opcode && opcode < 0x9c);
            let carry_out = if shifts_left {
                value >= 0x80
            } else {
                value % 2 == 1
            };
            let result: u8 = if opcode < 0x94 {
                wrap8(value * 2)
            } else if opcode < 0x98 {
                (value / 2) as u8
            } else if opcode < 0x9c {
                wrap8(value * 2 + carry_in)
            } else {
                (value / 2 + carry_in * 0x80) as u8
            };
            (
                self.with_flag(FLAG_CARRY, carry_out).with_flag(FLAG_OVERFLOW, false).store_register(
                    r,
                    result,
                ),
                1,
            )
        }
    }

    /// Opcodes `0xa0..=0xaf`: index arithmetic and comparison, absolute jump
    /// and call, and byte transfers between A and the index registers.
    pub open spec fn execute_index_arithmetic(self, opcode: u8) -> (SystemView, u8) {
        let x = self.cpu.x;
        let y = self.cpu.y;
        let a = self.a();
        if opcode == 0xa0 {
            let (s1, offset) = self.fetch_byte();
            let value = offset_address(x, offset);
            (s1.with_x(value).with_nz16(value), 2)
        } else if opcode == 0xa1 {
            let (s1, offset) = self.fetch_byte();
            let value = offset_address(y, offset);
            (s1.with_y(value).with_nz16(value), 2)
        } else if opcode == 0xa2 {
            let (s1, value) = self.fetch_word();
            (s1.compare_word(x, value), 3)
        } else if opcode == 0xa3 {
            let (s1, value) = self.fetch_word();
            (s1.compare_word(y, value), 3)
        } else if opcode == 0xa4 {
            let (s1, target) = self.fetch_word();
            (s1.with_pc(target), 3)
        } else if opcode == 0xa5 {
            let (s1, target) = self.fetch_word();
            (s1.push_word(s1.cpu.pc).with_pc(target), 5)
        } else if opcode == 0xa6 {
            let value = ((x / 256) * 256 + a) as u16;
            (self.with_x(value).with_nz16(value), 1)
        } else if opcode == 0xa7 {
            let value = (a * 256 + x % 256) as u16;
            (self.with_x(value).with_nz16(value), 1)
        } else if opcode == 0xa8 {
            (self.store_register(0, (x % 256) as u8), 1)
        } else if opcode == 0xa9 {
            (self.store_register(0, (x / 256) as u8), 1)
        } else if opcode == 0xaa {
            let value = ((y / 256) * 256 + a) as u16;
            (self.with_y(value).with_nz16(value), 1)
        } else if opcode == 0xab {
            let value = (a * 256 + y % 256) as u16;
            (self.with_y(value).with_nz16(value), 1)
        } else if opcode == 0xac {
            (self.store_register(0, (y % 256) as u8), 1)
        } else if opcode == 0xad {
            (self.store_register(0, (y / 256) as u8), 1)
        } else if opcode == 0xae {
            (self.with_x(wrap16(x + a)).with_nz16(wrap16(x + a)), 1)
        } else {
            (self.with_y(wrap16(y + a)).with_nz16(wrap16(y + a)), 1)
        }
    }

    /// Opcodes `0xb0..=0xbe`: relative branches. The signed offset is added
    /// to the PC after the operand fetch.
    pub open spec fn execute_branch(self, opcode: u8) -> (SystemView, u8) {
        let (s1, offset) = self.fetch_byte();
        if branch_taken(opcode, self.cpu.flags) {
            (s1.with_pc(offset_address(s1.cpu.pc, offset)), 3)
        } else {
            (s1, 2)
        }
    }

    /// The effect and cycle count of `opcode`, once the opcode byte itself
    /// has been fetched; `None` for the reserved opcodes `0xbf..=0xff`.
    #[verifier::opaque]
    pub open spec fn execute(self, opcode: u8) -> Option<(SystemView, u8)> {
        if opcode < 0x10 {
            Some(self.execute_control(opcode))
        } else if opcode < 0x34 {
            Some(self.execute_transfer(opcode))
        } else if opcode < 0x40 {
            Some(self.execute_index(opcode))
        } else if opcode < 0x50 {
            Some(self.execute_move(opcode))
        } else if opcode < 0x60 {
            Some(self.execute_offset(opcode))
        } else if opcode < 0x88 {
            Some(self.execute_arithmetic(opcode))
        } else if opcode < 0xa0 {
            Some(self.execute_unary(opcode))
        } else if opcode < 0xb0 {
            Some(self.execute_index_arithmetic(opcode))
        } else if opcode < 0xbf {
            Some(self.execute_branch(opcode))
        } else {
            None
        }
    }

    /// One scheduling quantum. An asserted IRQ line with interrupts enabled
    /// enters the IRQ handler (waking a halted processor); otherwise a halted
    /// processor idles for a cycle, and a running one executes the
    /// instruction at PC. A reserved opcode faults after its fetch and
    /// counts no cycles.
    pub open spec fn step(self, irq: bool) -> (SystemView, Result<Step, CpuFault>) {
        let pc = self.cpu.pc;
        if irq && !self.flag(FLAG_INTERRUPT_DISABLE) {
            (
                self.with_halted(false).enter_interrupt(VECTOR_IRQ).count_cycles(6),
                Ok(Step { pc, cycles: 6, kind: StepKind::Interrupt }),
            )
        } else if self.cpu.halted {
            (self.count_cycles(1), Ok(Step { pc, cycles: 1, kind: StepKind::Halted }))
        } else {
            let (s1, opcode) = self.fetch_byte();
            match s1.execute(opcode) {
                Some((s2, cycles)) => (
                    s2.count_cycles(cycles),
                    Ok(Step { pc, cycles, kind: StepKind::Instruction(opcode) }),
                ),
                None => (s1, Err(CpuFault::IllegalOpcode { pc, opcode })),
            }
        }
    }
}

impl CpuState {
    /// `A + value + carry_in`: the sum wraps into A; C reports an unsigned
    /// carry out and V a signed overflow.
    pub open spec fn add_to_a(self, value: u8, carry_in: bool) -> CpuState {
        let a = self.registers[0];
        let c: int = if carry_in {
            1
        } else {
            0
        };
        let sum = a + value + c;
        let result = wrap8(sum);
        let flags = nz8(self.flags, result);
        let flags = flag_update(flags, FLAG_CARRY, sum > 0xff);
        let flags = flag_update(flags, FLAG_OVERFLOW, overflows8(signed8(a) + signed8(value) + c));
        CpuState { registers: self.registers.update(0, result), flags, ..self }
    }

    /// `A - value - borrow_in`: C means that no borrow occurred and V reports
    /// a signed overflow. The difference is stored in A only when `store`.
    pub open spec fn subtract_from_a(self, value: u8, borrow_in: bool, store: bool) -> CpuState {
        let a = self.registers[0];
        let b: int = if borrow_in {
            1
        } else {
            0
        };
        let result = wrap8(a - value - b);
        let flags = nz8(self.flags, result);
        let flags = flag_update(flags, FLAG_CARRY, a >= value + b);
        let flags = flag_update(flags, FLAG_OVERFLOW, overflows8(signed8(a) - signed8(value) - b));
        if store {
            CpuState { registers: self.registers.update(0, result), flags, ..self }
        } else {
            CpuState { flags, ..self }
        }
    }

    /// A logical result goes to A; N and Z follow it, V is cleared, C kept.
    pub open spec fn logic_to_a(self, result: u8) -> CpuState {
        let flags = flag_update(nz8(self.flags, result), FLAG_OVERFLOW, false);
        CpuState { registers: self.registers.update(0, result), flags, ..self }
    }

    /// `left - right` on words, for flags only.
    pub open spec fn compare_word(self, left: u16, right: u16) -> CpuState {
        let result = wrap16(left - right);
        let flags = nz16(self.flags, result);
        let flags = flag_update(flags, FLAG_CARRY, left >= right);
        let flags = flag_update(flags, FLAG_OVERFLOW, overflows16(signed16(left) - signed16(right)));
        CpuState { flags, ..self }
    }

    /// One of the eight accumulator operations, numbered as in the opcode
    /// map: ADD, ADC, SUB, SBC, AND, OR, XOR, CMP.
    pub open spec fn alu(self, operation: int, value: u8) -> CpuState {
        let carry = flag_is_set(self.flags, FLAG_CARRY);
        let a = self.registers[0];
        if operation == 0 {
            self.add_to_a(value, false)
        } else if operation == 1 {
            self.add_to_a(value, carry)
        } else if operation == 2 {
            self.subtract_from_a(value, false, true)
        } else if operation == 3 {
            self.subtract_from_a(value, !carry, true)
        } else if operation == 4 {
            self.logic_to_a(a & value)
        } else if operation == 5 {
            self.logic_to_a(a | value)
        } else if operation == 6 {
            self.logic_to_a(a ^ value)
        } else {
            self.subtract_from_a(value, false, false)
        }
    }
}

// ---------------------------------------------------------------------------
// Laws of the instruction semantics
// ---------------------------------------------------------------------------

impl SystemView {
    /// The shape every running system keeps: a well-formed address space,
    /// four byte registers, and no undefined status bit set.
    pub open spec fn wf(self) -> bool {
        &&& self.bus.wf()
        &&& self.cpu.registers.len() == 4
        &&& self.cpu.flags & FLAG_MASK == self.cpu.flags
    }
}

/// `after` is still well formed and holds the same ROM images as `before`.
pub open spec fn keeps_rom_and_shape(before: SystemView, after: SystemView) -> bool {
    &&& after.wf()
    &&& after.bus.rom == before.bus.rom
    &&& after.bus.banks == before.bus.banks
}

broadcast proof fn lemma_system_write_keeps_shape(state: SystemView, address: u16, value: u8)
    requires
        state.wf(),
    ensures
        keeps_rom_and_shape(state, #[trigger] state.write(address, value)),
{
    crate::bus::lemma_write_keeps_rom_and_shape(state.bus, address, value);
}

broadcast proof fn lemma_flag_update_is_masked(flags: u8, flag: u8, set: bool)
    ensures
        #[trigger] flag_update(flags, flag, set) & FLAG_MASK == flag_update(flags, flag, set),
{
    assert(((flags | flag) & 0xc7) & 0xc7 == (flags | flag) & 0xc7 && ((flags & !flag) & 0xc7)
        & 0xc7 == (flags & !flag) & 0xc7) by (bit_vector);
}

proof fn lemma_mask_is_idempotent(value: u8)
    ensures
        (value & FLAG_MASK) & FLAG_MASK == value & FLAG_MASK,
{
    assert((value & 0xc7) & 0xc7 == value & 0xc7) by (bit_vector);
}

proof fn lemma_control_keeps_shape(state: SystemView, opcode: u8)
    requires
        state.wf(),
        opcode < 0x10,
    ensures
        keeps_rom_and_shape(state, state.execute_control(opcode).0),
{
    broadcast use {lemma_system_write_keeps_shape, lemma_flag_update_is_masked};

    lemma_mask_is_idempotent(state.read(state.cpu.sp));
    if opcode == 0x04 {
        let (s1, flags) = state.pop_byte();
        lemma_mask_is_idempotent(flags);
    }
}

proof fn lemma_transfer_keeps_shape(state: SystemView, opcode: u8)
    requires
        state.wf(),
        0x10 <= opcode < 0x34,
    ensures
        keeps_rom_and_shape(state, state.execute_transfer(opcode).0),
{
    broadcast use {lemma_system_write_keeps_shape, lemma_flag_update_is_masked};

}

proof fn lemma_index_keeps_shape(state: SystemView, opcode: u8)
    requires
        state.wf(),
        0x34 <= opcode < 0x40,
    ensures
        keeps_rom_and_shape(state, state.execute_index(opcode).0),
{
    broadcast use {lemma_system_write_keeps_shape, lemma_flag_update_is_masked};

}

proof fn lemma_move_and_offset_keep_shape(state: SystemView, opcode: u8)
    requires
        state.wf(),
        0x40 <= opcode < 0x60,
    ensures
        opcode < 0x50 ==> keeps_rom_and_shape(state, state.execute_move(opcode).0),
        0x50 <= opcode ==> keeps_rom_and_shape(state, state.execute_offset(opcode).0),
{
    broadcast use {lemma_system_write_keeps_shape, lemma_flag_update_is_masked};

}

proof fn lemma_arithmetic_keeps_shape(state: SystemView, opcode: u8)
    requires
        state.wf(),
        0x60 <= opcode < 0xa0,
    ensures
        opcode < 0x88 ==> keeps_rom_and_shape(state, state.execute_arithmetic(opcode).0),
        0x88 <= opcode ==> keeps_rom_and_shape(state, state.execute_unary(opcode).0),
{
    broadcast use {lemma_system_write_keeps_shape, lemma_flag_update_is_masked};

}

proof fn lemma_index_arithmetic_keeps_shape(state: SystemView, opcode: u8)
    requires
        state.wf(),
        0xa0 <= opcode < 0xbf,
    ensures
        opcode < 0xb0 ==> keeps_rom_and_shape(state, state.execute_index_arithmetic(opcode).0),
        0xb0 <= opcode ==> keeps_rom_and_shape(state, state.execute_branch(opcode).0),
{
    broadcast use {lemma_system_write_keeps_shape, lemma_flag_update_is_masked};

}

/// No instruction, interrupt or idle cycle changes the ROM images, breaks
/// the address space's shape, or sets an undefined status bit.
pub proof fn lemma_step_keeps_rom_and_shape(state: SystemView, irq: bool)
    requires
        state.wf(),
    ensures
        keeps_rom_and_shape(state, state.step(irq).0),
{
    broadcast use {lemma_system_write_keeps_shape, lemma_flag_update_is_masked};

    reveal(SystemView::execute);
    let (s1, opcode) = state.fetch_byte();
    if opcode < 0x10 {
        lemma_control_keeps_shape(s1, opcode);
    } else if opcode < 0x34 {
        lemma_transfer_keeps_shape(s1, opcode);
    } else if opcode < 0x40 {
        lemma_index_keeps_shape(s1, opcode);
    } else if opcode < 0x60 {
        lemma_move_and_offset_keep_shape(s1, opcode);
    } else if opcode < 0xa0 {
        lemma_arithmetic_keeps_shape(s1, opcode);
    } else if opcode < 0xbf {
        lemma_index_arithmetic_keeps_shape(s1, opcode);
    }
}

/// Interrupts and idle cycles never fault; otherwise the instruction at PC
/// faults exactly when it is one of the reserved opcodes `0xbf..=0xff`, and
/// the fault names that opcode and its address, with only the opcode fetch
/// done.
pub proof fn lemma_faults_exactly_on_reserved_opcodes(state: SystemView, irq: bool)
    ensures
        (irq && !state.flag(FLAG_INTERRUPT_DISABLE)) || state.cpu.halted ==> state.step(irq).1 is Ok,
        !(irq && !state.flag(FLAG_INTERRUPT_DISABLE)) && !state.cpu.halted ==> (state.step(
            irq,
        ).1 is Err <==> state.read(state.cpu.pc) >= 0xbf),
        !(irq && !state.flag(FLAG_INTERRUPT_DISABLE)) && !state.cpu.halted && state.read(
            state.cpu.pc,
        ) >= 0xbf ==> state.step(irq) == (
            state.with_pc(wrap16(state.cpu.pc + 1)),
            Err::<Step, CpuFault>(
                CpuFault::IllegalOpcode { pc: state.cpu.pc, opcode: state.read(state.cpu.pc) },
            ),
        ),
{
    reveal(SystemView::execute);
}

/// A byte pushed onto a stack in RAM pops back unchanged, and the pop
/// restores the stack pointer.
pub proof fn lemma_push_then_pop_byte(state: SystemView, value: u8)
    requires
        state.wf(),
        RAM_START < state.cpu.sp <= RAM_END + 1,
    ensures
        state.push_byte(value).cpu.sp == state.cpu.sp - 1,
        state.push_byte(value).pop_byte().1 == value,
        state.push_byte(value).pop_byte().0.cpu == state.cpu,
        state.push_byte(value).pop_byte().0.bus == state.bus.write(
            (state.cpu.sp - 1) as u16,
            value,
        ),
{
    lemma_read_after_write(state.bus, (state.cpu.sp - 1) as u16, value, 0);
}

/// A word pushed onto a stack in RAM (high byte first) pops back unchanged
/// (low byte first), and the pop restores the stack pointer.
pub proof fn lemma_push_then_pop_word(state: SystemView, value: u16)
    requires
        state.wf(),
        RAM_START + 2 <= state.cpu.sp <= RAM_END + 1,
    ensures
        state.push_word(value).cpu.sp == state.cpu.sp - 2,
        state.push_word(value).wf(),
        state.push_word(value).pop_word().1 == value,
        state.push_word(value).pop_word().0.cpu == state.cpu,
{
    let sp = state.cpu.sp;
    let high = (value / 256) as u8;
    let low = (value % 256) as u8;
    let s1 = state.push_byte(high);
    lemma_read_after_write(state.bus, (sp - 1) as u16, high, 0);
    lemma_write_keeps_rom_and_shape(state.bus, (sp - 1) as u16, high);
    lemma_read_after_write(s1.bus, (sp - 2) as u16, low, (sp - 1) as u16);
    lemma_write_keeps_rom_and_shape(s1.bus, (sp - 2) as u16, low);
    assert(le_word(low, high) == value);
}

/// A call followed by a return resumes right after the three-byte call
/// instruction, with the stack pointer, registers, index registers and flags
/// as they were before the call. The call pushes the return address on a
/// stack that lies in RAM and jumps to its operand; the return instruction
/// is the one found at the call's target.
#[verifier::spinoff_prover]
#[verifier::rlimit(40)]
pub proof fn lemma_call_then_return(state: SystemView)
    requires
        state.wf(),
        !state.cpu.halted,
        state.read(state.cpu.pc) == 0xa5,
        RAM_START + 2 <= state.cpu.sp <= RAM_END + 1,
        state.step(false).0.read(state.step(false).0.cpu.pc) == 0x03,
    ensures
        ({
            let (called, call) = state.step(false);
            let (returned, ret) = called.step(false);
            &&& call == Ok::<Step, CpuFault>(
                Step { pc: state.cpu.pc, cycles: 5, kind: StepKind::Instruction(0xa5) },
            )
            &&& called.cpu.pc == le_word(
                state.read(wrap16(state.cpu.pc + 1)),
                state.read(wrap16(state.cpu.pc + 2)),
            )
            &&& called.cpu.sp == state.cpu.sp - 2
            &&& ret == Ok::<Step, CpuFault>(
                Step { pc: called.cpu.pc, cycles: 3, kind: StepKind::Instruction(0x03) },
            )
            &&& returned.cpu.pc == wrap16(state.cpu.pc + 3)
            &&& returned.cpu.sp == state.cpu.sp
            &&& returned.cpu.registers == state.cpu.registers
            &&& returned.cpu.x == state.cpu.x
            &&& returned.cpu.y == state.cpu.y
            &&& returned.cpu.flags == state.cpu.flags
            &&& !returned.cpu.halted
        }),
{
    let (s1, opcode) = state.fetch_byte();
    let (s2, target) = s1.fetch_word();
    lemma_execute_control_or_jump(s1, 0xa5);
    assert(wrap16(s1.cpu.pc + 1) == wrap16(state.cpu.pc + 2));
    assert(s2.cpu.pc == wrap16(state.cpu.pc + 3));
    lemma_push_then_pop_word(s2, s2.cpu.pc);
    let called = s2.push_word(s2.cpu.pc).with_pc(target).count_cycles(5);
    assert(state.step(false).0 == called);
    let (s3, ret) = called.fetch_byte();
    lemma_execute_control_or_jump(s3, 0x03);
}

/// Control and index-arithmetic opcodes run their group's semantics.
proof fn lemma_execute_control_or_jump(state: SystemView, opcode: u8)
    ensures
        opcode < 0x10 ==> state.execute(opcode) == Some(state.execute_control(opcode)),
        0xa0 <= opcode < 0xb0 ==> state.execute(opcode) == Some(
            state.execute_index_arithmetic(opcode),
        ),
{
    reveal(SystemView::execute);
}

/// Which group of instructions an opcode belongs to.
proof fn lemma_execute_by_group(state: SystemView, opcode: u8)
    ensures
        opcode < 0x10 ==> state.execute(opcode) == Some(state.execute_control(opcode)),
        0x10 <= opcode < 0x34 ==> state.execute(opcode) == Some(state.execute_transfer(opcode)),
        0x50 <= opcode < 0x60 ==> state.execute(opcode) == Some(state.execute_offset(opcode)),
        0x60 <= opcode < 0x88 ==> state.execute(opcode) == Some(state.execute_arithmetic(opcode)),
        0xa0 <= opcode < 0xb0 ==> state.execute(opcode) == Some(
            state.execute_index_arithmetic(opcode),
        ),
        0xb0 <= opcode < 0xbf ==> state.execute(opcode) == Some(state.execute_branch(opcode)),
{
    reveal(SystemView::execute);
}

/// Whether `opcode` stores a byte register to memory: absolute, through X or
/// Y, or through X or Y plus an offset.
pub open spec fn is_store(opcode: u8) -> bool {
    ||| 0x18 <= opcode < 0x1c
    ||| 0x20 <= opcode < 0x24
    ||| 0x28 <= opcode < 0x2c
    ||| 0x54 <= opcode < 0x58
    ||| 0x5c <= opcode < 0x60
}

/// Stores set no flags: a byte store changes memory (the one byte it
/// addresses) and PC, and leaves every register and flag as it was.
pub proof fn lemma_stores_keep_flags(state: SystemView)
    requires
        !state.cpu.halted,
        is_store(state.read(state.cpu.pc)),
    ensures
        ({
            let (next, result) = state.step(false);
            &&& result is Ok
            &&& next.cpu.flags == state.cpu.flags
            &&& next.cpu.registers == state.cpu.registers
            &&& next.cpu.x == state.cpu.x
            &&& next.cpu.y == state.cpu.y
            &&& next.cpu.sp == state.cpu.sp
        }),
{
    let (s1, opcode) = state.fetch_byte();
    lemma_execute_by_group(s1, opcode);
}

/// AND, OR and XOR (register or immediate forms) put their result in A, set
/// N and Z from it, clear V, and keep C.
pub proof fn lemma_logic_clears_overflow_keeps_carry(state: SystemView)
    requires
        !state.cpu.halted,
        state.cpu.registers.len() == 4,
        0x70 <= state.read(state.cpu.pc) < 0x7c || 0x84 <= state.read(state.cpu.pc) < 0x87,
    ensures
        ({
            let (next, result) = state.step(false);
            &&& result is Ok
            &&& !next.flag(FLAG_OVERFLOW)
            &&& next.flag(FLAG_CARRY) == state.flag(FLAG_CARRY)
            &&& next.flag(FLAG_ZERO) == (next.a() == 0)
            &&& next.flag(FLAG_NEGATIVE) == (next.a() >= 0x80)
        }),
{
    let (s1, opcode) = state.fetch_byte();
    lemma_execute_by_group(s1, opcode);
    let flags = state.cpu.flags;
    let (s2, immediate) = s1.fetch_byte();
    let (operation, value) = if opcode < 0x80 {
        ((opcode - 0x60) / 4, s1.register(family_index(opcode)))
    } else {
        (opcode - 0x80, immediate)
    };
    let a = state.a();
    let result: u8 = if operation == 4 {
        a & value
    } else if operation == 5 {
        a | value
    } else {
        a ^ value
    };
    assert(operation == 4 || operation == 5 || operation == 6);
    let z = flag_update(flags, FLAG_ZERO, result == 0);
    let n = flag_update(z, FLAG_NEGATIVE, result >= 0x80);
    lemma_flag_update(flags, FLAG_ZERO, result == 0, FLAG_CARRY);
    lemma_flag_update(z, FLAG_NEGATIVE, result >= 0x80, FLAG_CARRY);
    lemma_flag_update(z, FLAG_NEGATIVE, result >= 0x80, FLAG_ZERO);
    lemma_flag_update(n, FLAG_OVERFLOW, false, FLAG_CARRY);
    lemma_flag_update(n, FLAG_OVERFLOW, false, FLAG_ZERO);
    lemma_flag_update(n, FLAG_OVERFLOW, false, FLAG_NEGATIVE);
    let (next, step) = state.step(false);
    assert(next.cpu.flags == flag_update(n, FLAG_OVERFLOW, false));
    assert(next.a() == result);
}

/// N and Z read back from a byte result; C and V are kept.
proof fn lemma_nz8_flags(flags: u8, result: u8)
    ensures
        flag_is_set(nz8(flags, result), FLAG_ZERO) == (result == 0),
        flag_is_set(nz8(flags, result), FLAG_NEGATIVE) == (result >= 0x80),
        flag_is_set(nz8(flags, result), FLAG_CARRY) == flag_is_set(flags, FLAG_CARRY),
        flag_is_set(nz8(flags, result), FLAG_OVERFLOW) == flag_is_set(flags, FLAG_OVERFLOW),
{
    let z = flag_update(flags, FLAG_ZERO, result == 0);
    lemma_flag_update(flags, FLAG_ZERO, result == 0, FLAG_CARRY);
    lemma_flag_update(flags, FLAG_ZERO, result == 0, FLAG_OVERFLOW);
    lemma_flag_update(z, FLAG_NEGATIVE, result >= 0x80, FLAG_ZERO);
    lemma_flag_update(z, FLAG_NEGATIVE, result >= 0x80, FLAG_CARRY);
    lemma_flag_update(z, FLAG_NEGATIVE, result >= 0x80, FLAG_OVERFLOW);
}

/// C and V read back as set; N and Z are kept.
proof fn lemma_cv_flags(flags: u8, carry: bool, overflow: bool)
    ensures
        ({
            let f = flag_update(flag_update(flags, FLAG_CARRY, carry), FLAG_OVERFLOW, overflow);
            &&& flag_is_set(f, FLAG_CARRY) == carry
            &&& flag_is_set(f, FLAG_OVERFLOW) == overflow
            &&& flag_is_set(f, FLAG_ZERO) == flag_is_set(flags, FLAG_ZERO)
            &&& flag_is_set(f, FLAG_NEGATIVE) == flag_is_set(flags, FLAG_NEGATIVE)
        }),
{
    let c = flag_update(flags, FLAG_CARRY, carry);
    lemma_flag_update(flags, FLAG_CARRY, carry, FLAG_ZERO);
    lemma_flag_update(flags, FLAG_CARRY, carry, FLAG_NEGATIVE);
    lemma_flag_update(c, FLAG_OVERFLOW, overflow, FLAG_CARRY);
    lemma_flag_update(c, FLAG_OVERFLOW, overflow, FLAG_ZERO);
    lemma_flag_update(c, FLAG_OVERFLOW, overflow, FLAG_NEGATIVE);
}

/// A signed byte addition overflows exactly when both operands have the
/// same sign and the wrapped sum has the other one.
proof fn lemma_add_sign_rule(a: u8, v: u8, c: int)
    requires
        0 <= c <= 1,
    ensures
        overflows8(signed8(a) + signed8(v) + c) == ((a < 128) == (v < 128) && (a < 128) != ((a
            + v + c) % 256 < 128)),
{
    assert((a + v + c) % 256 == if a + v + c >= 256 {
        a + v + c - 256
    } else {
        a + v + c
    });
}

/// A signed byte subtraction overflows exactly when the operands have
/// different signs and the wrapped difference has the sign of the subtrahend.
proof fn lemma_subtract_sign_rule(a: u8, v: u8, b: int)
    requires
        0 <= b <= 1,
    ensures
        overflows8(signed8(a) - signed8(v) - b) == ((a < 128) != (v < 128) && (a < 128) != ((a
            - v - b) % 256 < 128)),
{
    assert((a - v - b) % 256 == if a - v - b < 0 {
        a - v - b + 256
    } else {
        a - v - b
    });
}

/// The byte an accumulator instruction at PC works with: the register named
/// by the low two bits of a `0x60..=0x7f` opcode, or the immediate byte that
/// follows a `0x80..=0x87` opcode.
pub open spec fn accumulator_operand(state: SystemView) -> u8 {
    let opcode = state.read(state.cpu.pc);
    if opcode < 0x80 {
        state.register(opcode as int % 4)
    } else {
        state.read(wrap16(state.cpu.pc + 1))
    }
}

/// ADD and ADC (register and immediate forms): A becomes `A + operand`,
/// plus one when the instruction is ADC and the carry flag is set, modulo
/// 256. C reports an unsigned carry out of that sum, Z and N follow the new
/// A, and V is set exactly when both operands have the same sign and the new
/// A has the other one. Only A and the flags change among the registers.
pub proof fn lemma_add_with_carry(state: SystemView)
    requires
        !state.cpu.halted,
        state.cpu.registers.len() == 4,
        0x60 <= state.read(state.cpu.pc) < 0x68 || state.read(state.cpu.pc) == 0x80 || state.read(
            state.cpu.pc,
        ) == 0x81,
    ensures
        ({
            let opcode = state.read(state.cpu.pc);
            let adc = (0x64 <= opcode < 0x68 || opcode == 0x81);
            let carry_in: int = if adc && state.flag(FLAG_CARRY) {
                1
            } else {
                0
            };
            let a = state.a();
            let v = accumulator_operand(state);
            let sum = a + v + carry_in;
            let (next, result) = state.step(false);
            &&& result is Ok
            &&& next.a() == sum % 256
            &&& next.flag(FLAG_CARRY) == (sum > 255)
            &&& next.flag(FLAG_ZERO) == (sum % 256 == 0)
            &&& next.flag(FLAG_NEGATIVE) == (sum % 256 >= 128)
            &&& next.flag(FLAG_OVERFLOW) == ((a < 128) == (v < 128) && (a < 128) != (sum % 256
                < 128))
            &&& next.cpu.registers == state.cpu.registers.update(0, next.a())
            &&& next.bus == state.bus
        }),
{
    let (s1, opcode) = state.fetch_byte();
    lemma_execute_by_group(s1, opcode);
    let adc = (0x64 <= opcode < 0x68 || opcode == 0x81);
    let c: int = if adc && state.flag(FLAG_CARRY) {
        1
    } else {
        0
    };
    let a = state.a();
    let v = accumulator_operand(state);
    let sum = a + v + c;
    let result = wrap8(sum);
    lemma_nz8_flags(state.cpu.flags, result);
    lemma_cv_flags(nz8(state.cpu.flags, result), sum > 0xff, overflows8(signed8(a) + signed8(v) + c));
    lemma_add_sign_rule(a, v, c);
}

/// SUB, SBC and CMP (register and immediate forms) compute
/// `A - operand`, minus one more when the instruction is SBC and the carry
/// flag is clear (C means "no borrow"). SUB and SBC put the difference
/// modulo 256 in A; CMP leaves A as it was. C is set exactly when no borrow
/// occurs (`A >= operand + borrow`), Z and N follow the wrapped difference,
/// and V is set exactly when the operands have different signs and the
/// difference has the sign of the operand. Only A and the flags change.
pub proof fn lemma_subtract_with_borrow(state: SystemView)
    requires
        !state.cpu.halted,
        state.cpu.registers.len() == 4,
        0x68 <= state.read(state.cpu.pc) < 0x70 || 0x7c <= state.read(state.cpu.pc) < 0x80
            || state.read(state.cpu.pc) == 0x82 || state.read(state.cpu.pc) == 0x83 || state.read(
            state.cpu.pc,
        ) == 0x87,
    ensures
        ({
            let opcode = state.read(state.cpu.pc);
            let sbc = (0x6c <= opcode < 0x70 || opcode == 0x83);
            let compare = (0x7c <= opcode < 0x80 || opcode == 0x87);
            let borrow: int = if sbc && !state.flag(FLAG_CARRY) {
                1
            } else {
                0
            };
            let a = state.a();
            let v = accumulator_operand(state);
            let difference = (a - v - borrow) % 256;
            let (next, result) = state.step(false);
            &&& result is Ok
            &&& next.a() == if compare {
                a as int
            } else {
                difference
            }
            &&& next.flag(FLAG_CARRY) == (a >= v + borrow)
            &&& next.flag(FLAG_ZERO) == (difference == 0)
            &&& next.flag(FLAG_NEGATIVE) == (difference >= 128)
            &&& next.flag(FLAG_OVERFLOW) == ((a < 128) != (v < 128) && (a < 128) != (difference
                < 128))
            &&& next.cpu.registers == state.cpu.registers.update(0, next.a())
            &&& next.bus == state.bus
        }),
{
    let (s1, opcode) = state.fetch_byte();
    lemma_execute_by_group(s1, opcode);
    let sbc = (0x6c <= opcode < 0x70 || opcode == 0x83);
    let b: int = if sbc && !state.flag(FLAG_CARRY) {
        1
    } else {
        0
    };
    let a = state.a();
    let v = accumulator_operand(state);
    let result = wrap8(a - v - b);
    lemma_nz8_flags(state.cpu.flags, result);
    lemma_cv_flags(nz8(state.cpu.flags, result), a >= v + b, overflows8(signed8(a) - signed8(v) - b));
    lemma_subtract_sign_rule(a, v, b);
    assert(state.cpu.registers.update(0, a) == state.cpu.registers);
}

/// AND, OR and XOR (register and immediate forms) put the bitwise
/// combination of A and the operand in A and change no other register.
pub proof fn lemma_logic_results(state: SystemView)
    requires
        !state.cpu.halted,
        state.cpu.registers.len() == 4,
        0x70 <= state.read(state.cpu.pc) < 0x7c || 0x84 <= state.read(state.cpu.pc) < 0x87,
    ensures
        ({
            let opcode = state.read(state.cpu.pc);
            let a = state.a();
            let v = accumulator_operand(state);
            let (next, result) = state.step(false);
            &&& result is Ok
            &&& (0x70 <= opcode < 0x74 || opcode == 0x84) ==> next.a() == a & v
            &&& (0x74 <= opcode < 0x78 || opcode == 0x85) ==> next.a() == a | v
            &&& (0x78 <= opcode < 0x7c || opcode == 0x86) ==> next.a() == a ^ v
            &&& next.cpu.registers == state.cpu.registers.update(0, next.a())
            &&& next.bus == state.bus
        }),
{
    let (s1, opcode) = state.fetch_byte();
    lemma_execute_by_group(s1, opcode);
}

/// The condition of each relative branch, read from the flags before it:
/// BRA is always taken; BEQ and BNE exactly when Z is set and clear; BCS
/// and BCC on C; BMI and BPL on N; BVS and BVC on V; BHI exactly when C is
/// set and Z clear, BLS otherwise; BGE exactly when N equals V, BLT
/// otherwise; BGT exactly when Z is clear and N equals V, BLE otherwise. A
/// taken branch reports 3 cycles and one not taken 2.
pub proof fn lemma_branch_conditions(state: SystemView)
    requires
        !state.cpu.halted,
        0xb0 <= state.read(state.cpu.pc) < 0xbf,
    ensures
        ({
            let opcode = state.read(state.cpu.pc);
            let c = state.flag(FLAG_CARRY);
            let z = state.flag(FLAG_ZERO);
            let n = state.flag(FLAG_NEGATIVE);
            let v = state.flag(FLAG_OVERFLOW);
            let (next, result) = state.step(false);
            let taken = result == Ok::<Step, CpuFault>(
                Step { pc: state.cpu.pc, cycles: 3, kind: StepKind::Instruction(opcode) },
            );
            &&& result == Ok::<Step, CpuFault>(
                Step {
                    pc: state.cpu.pc,
                    cycles: if taken {
                        3
                    } else {
                        2
                    },
                    kind: StepKind::Instruction(opcode),
                },
            )
            &&& opcode == 0xb0 ==> taken
            &&& opcode == 0xb1 ==> (taken <==> z)
            &&& opcode == 0xb2 ==> (taken <==> !z)
            &&& opcode == 0xb3 ==> (taken <==> c)
            &&& opcode == 0xb4 ==> (taken <==> !c)
            &&& opcode == 0xb5 ==> (taken <==> n)
            &&& opcode == 0xb6 ==> (taken <==> !n)
            &&& opcode == 0xb7 ==> (taken <==> v)
            &&& opcode == 0xb8 ==> (taken <==> !v)
            &&& opcode == 0xb9 ==> (taken <==> c && !z)
            &&& opcode == 0xba ==> (taken <==> !c || z)
            &&& opcode == 0xbb ==> (taken <==> n == v)
            &&& opcode == 0xbc ==> (taken <==> n != v)
            &&& opcode == 0xbd ==> (taken <==> !z && n == v)
            &&& opcode == 0xbe ==> (taken <==> z || n != v)
        }),
{
    lemma_branch_is_relative_to_the_next_instruction(state);
}

/// The sign of a wrapped byte difference and the signed-overflow rule
/// together order the operands as signed bytes.
proof fn lemma_signed_order(a: u8, v: u8)
    ensures
        ({
            let d = (a - v) % 256;
            let overflow = (a < 128) != (v < 128) && (a < 128) != (d < 128);
            &&& ((d >= 128) == overflow) == (signed8(a) >= signed8(v))
            &&& (d == 0) == (a == v)
        }),
{
    assert((a - v) % 256 == if a - v < 0 {
        a - v + 256
    } else {
        a - v
    });
}

/// A compare followed by a conditional branch decides on the two bytes
/// compared: after `CMP` of A with an operand, BEQ is taken exactly when they
/// are equal, BCS when A is unsigned greater or equal, BHI when unsigned
/// greater, BLS when unsigned less or equal, BCC when unsigned less, BGE and
/// BGT when A is signed greater or equal and signed greater, and BLT and BLE
/// for signed less and less or equal.
pub proof fn lemma_compare_then_branch(state: SystemView)
    requires
        !state.cpu.halted,
        state.cpu.registers.len() == 4,
        0x7c <= state.read(state.cpu.pc) < 0x80 || state.read(state.cpu.pc) == 0x87,
        0xb1 <= state.step(false).0.read(state.step(false).0.cpu.pc) < 0xbf,
    ensures
        ({
            let a = state.a();
            let v = accumulator_operand(state);
            let compared = state.step(false).0;
            let opcode = compared.read(compared.cpu.pc);
            let taken = compared.step(false).1 == Ok::<Step, CpuFault>(
                Step { pc: compared.cpu.pc, cycles: 3, kind: StepKind::Instruction(opcode) },
            );
            &&& opcode == 0xb1 ==> (taken <==> a == v)
            &&& opcode == 0xb2 ==> (taken <==> a != v)
            &&& opcode == 0xb3 ==> (taken <==> a >= v)
            &&& opcode == 0xb4 ==> (taken <==> a < v)
            &&& opcode == 0xb9 ==> (taken <==> a > v)
            &&& opcode == 0xba ==> (taken <==> a <= v)
            &&& opcode == 0xbb ==> (taken <==> signed8(a) >= signed8(v))
            &&& opcode == 0xbc ==> (taken <==> signed8(a) < signed8(v))
            &&& opcode == 0xbd ==> (taken <==> signed8(a) > signed8(v))
            &&& opcode == 0xbe ==> (taken <==> signed8(a) <= signed8(v))
        }),
{
    lemma_subtract_with_borrow(state);
    let compared = state.step(false).0;
    assert(!compared.cpu.halted) by {
        let (s1, opcode) = state.fetch_byte();
        lemma_execute_by_group(s1, opcode);
    }
    lemma_branch_conditions(compared);
    lemma_signed_order(state.a(), accumulator_operand(state));
}

/// Loads and stores through X (`0x50..=0x57`) or Y (`0x58..=0x5f`) plus an
/// offset byte address `base + offset` wrapped to 16 bits, where the offset
/// is signed: `0x80..=0xff` count down from the base, so `0xff` addresses
/// the byte before it. A load puts that byte in the register named by the
/// low two bits and sets Z and N from it; a store writes the register there
/// and changes no register or flag. Either way PC moves past the two bytes.
pub proof fn lemma_offset_addressing_is_signed(state: SystemView)
    requires
        !state.cpu.halted,
        state.cpu.registers.len() == 4,
        0x50 <= state.read(state.cpu.pc) < 0x60,
    ensures
        ({
            let opcode = state.read(state.cpu.pc);
            let offset = state.read(wrap16(state.cpu.pc + 1));
            let base = if opcode < 0x58 {
                state.cpu.x
            } else {
                state.cpu.y
            };
            let delta: int = if offset < 128 {
                offset as int
            } else {
                offset - 256
            };
            let address = ((base + delta) % 0x10000) as u16;
            let r = opcode as int % 4;
            let load = opcode < 0x54 || (0x58 <= opcode && opcode < 0x5c);
            let (next, result) = state.step(false);
            &&& result is Ok
            &&& next.cpu.pc == wrap16(state.cpu.pc + 2)
            &&& load ==> next.bus == state.bus && next.cpu.registers == state.cpu.registers.update(
                r,
                state.read(address),
            ) && next.flag(FLAG_ZERO) == (state.read(address) == 0) && next.flag(FLAG_NEGATIVE)
                == (state.read(address) >= 128)
            &&& !load ==> next.bus == state.bus.write(address, state.register(r))
                && next.cpu.registers == state.cpu.registers && next.cpu.flags == state.cpu.flags
        }),
{
    let (s1, opcode) = state.fetch_byte();
    lemma_execute_by_group(s1, opcode);
    let offset = state.read(wrap16(state.cpu.pc + 1));
    let base = if opcode < 0x58 {
        state.cpu.x
    } else {
        state.cpu.y
    };
    let address = offset_address(base, offset);
    lemma_nz8_flags(state.cpu.flags, state.read(address));
    assert(wrap16(s1.cpu.pc + 1) == wrap16(state.cpu.pc + 2));
}

/// INC, DEC, SHL, SHR, ROL and ROR of a byte register. With `v` the
/// register and `c` the carry flag before: INC gives `v + 1` and DEC
/// `v - 1`, modulo 256, and keep C and V; SHL gives `2v` modulo 256 and ROL
/// `2v + c` modulo 256, with C set to the old bit 7; SHR gives `v / 2`,
/// whose bit 7 is clear, and ROR `v / 2 + 128c`, with C set to the old
/// bit 0. The four shifts and rotates clear V. Z and N follow the result,
/// and no other register changes.
pub proof fn lemma_register_unary_operations(state: SystemView)
    requires
        !state.cpu.halted,
        state.cpu.registers.len() == 4,
        0x88 <= state.read(state.cpu.pc) < 0xa0,
    ensures
        ({
            let opcode = state.read(state.cpu.pc);
            let r = opcode as int % 4;
            let v = state.register(r);
            let c: int = if state.flag(FLAG_CARRY) {
                1
            } else {
                0
            };
            let (next, result) = state.step(false);
            let out = next.register(r);
            &&& result is Ok
            &&& next.cpu.registers == state.cpu.registers.update(r, out)
            &&& next.bus == state.bus
            &&& next.flag(FLAG_ZERO) == (out == 0)
            &&& next.flag(FLAG_NEGATIVE) == (out >= 128)
            &&& opcode < 0x8c ==> out == (v + 1) % 256
            &&& 0x8c <= opcode < 0x90 ==> out == (v + 255) % 256
            &&& opcode < 0x90 ==> next.flag(FLAG_CARRY) == state.flag(FLAG_CARRY)
                && next.flag(FLAG_OVERFLOW) == state.flag(FLAG_OVERFLOW)
            &&& 0x90 <= opcode < 0x94 ==> out == (2 * v) % 256 && next.flag(FLAG_CARRY) == (v
                >= 128)
            &&& 0x94 <= opcode < 0x98 ==> out == v / 2 && out < 128 && next.flag(FLAG_CARRY) == (v
                % 2 == 1)
            &&& 0x98 <= opcode < 0x9c ==> out == (2 * v + c) % 256 && next.flag(FLAG_CARRY) == (v
                >= 128)
            &&& 0x9c <= opcode ==> out == v / 2 + 128 * c && next.flag(FLAG_CARRY) == (v % 2 == 1)
            &&& 0x90 <= opcode ==> !next.flag(FLAG_OVERFLOW)
        }),
{
    reveal(SystemView::execute);
    let (s1, opcode) = state.fetch_byte();
    let r = opcode as int % 4;
    let v = state.register(r);
    let c: int = if state.flag(FLAG_CARRY) {
        1
    } else {
        0
    };
    let shifts_left = opcode < 0x94 || (0x98 <= opcode && opcode < 0x9c);
    let carry_out = if shifts_left {
        v >= 0x80
    } else {
        v % 2 == 1
    };
    let result: u8 = if opcode < 0x8c {
        wrap8(v + 1)
    } else if opcode < 0x90 {
        wrap8(v - 1)
    } else if opcode < 0x94 {
        wrap8(v * 2)
    } else if opcode < 0x98 {
        (v / 2) as u8
    } else if opcode < 0x9c {
        wrap8(v * 2 + c)
    } else {
        (v / 2 + c * 0x80) as u8
    };
    lemma_nz8_flags(state.cpu.flags, result);
    lemma_cv_flags(state.cpu.flags, carry_out, false);
    lemma_nz8_flags(
        flag_update(flag_update(state.cpu.flags, FLAG_CARRY, carry_out), FLAG_OVERFLOW, false),
        result,
    );
    assert(wrap8(v - 1) == (v + 255) % 256);
}

/// N and Z read back from a word result; C and V are kept.
proof fn lemma_nz16_flags(flags: u8, result: u16)
    ensures
        flag_is_set(nz16(flags, result), FLAG_ZERO) == (result == 0),
        flag_is_set(nz16(flags, result), FLAG_NEGATIVE) == (result >= 0x8000),
        flag_is_set(nz16(flags, result), FLAG_CARRY) == flag_is_set(flags, FLAG_CARRY),
        flag_is_set(nz16(flags, result), FLAG_OVERFLOW) == flag_is_set(flags, FLAG_OVERFLOW),
{
    let z = flag_update(flags, FLAG_ZERO, result == 0);
    lemma_flag_update(flags, FLAG_ZERO, result == 0, FLAG_CARRY);
    lemma_flag_update(flags, FLAG_ZERO, result == 0, FLAG_OVERFLOW);
    lemma_flag_update(z, FLAG_NEGATIVE, result >= 0x8000, FLAG_ZERO);
    lemma_flag_update(z, FLAG_NEGATIVE, result >= 0x8000, FLAG_CARRY);
    lemma_flag_update(z, FLAG_NEGATIVE, result >= 0x8000, FLAG_OVERFLOW);
}

/// `0xa0` and `0xa1` move X or Y by a signed offset byte, wrapping in 16
/// bits (`0xff` steps back by one); Z and N follow the new word, and the
/// byte registers, C and V are kept.
pub proof fn lemma_index_step_is_signed(state: SystemView)
    requires
        !state.cpu.halted,
        state.read(state.cpu.pc) == 0xa0 || state.read(state.cpu.pc) == 0xa1,
    ensures
        ({
            let opcode = state.read(state.cpu.pc);
            let offset = state.read(wrap16(state.cpu.pc + 1));
            let delta: int = if offset < 128 {
                offset as int
            } else {
                offset - 256
            };
            let base = if opcode == 0xa0 {
                state.cpu.x
            } else {
                state.cpu.y
            };
            let moved = ((base + delta) % 0x10000) as u16;
            let (next, result) = state.step(false);
            &&& result is Ok
            &&& opcode == 0xa0 ==> next.cpu.x == moved && next.cpu.y == state.cpu.y
            &&& opcode == 0xa1 ==> next.cpu.y == moved && next.cpu.x == state.cpu.x
            &&& next.flag(FLAG_ZERO) == (moved == 0)
            &&& next.flag(FLAG_NEGATIVE) == (moved >= 0x8000)
            &&& next.flag(FLAG_CARRY) == state.flag(FLAG_CARRY)
            &&& next.flag(FLAG_OVERFLOW) == state.flag(FLAG_OVERFLOW)
            &&& next.cpu.registers == state.cpu.registers
            &&& next.bus == state.bus
        }),
{
    let (s1, opcode) = state.fetch_byte();
    lemma_execute_by_group(s1, opcode);
    let offset = state.read(wrap16(state.cpu.pc + 1));
    let base = if opcode == 0xa0 {
        state.cpu.x
    } else {
        state.cpu.y
    };
    lemma_nz16_flags(state.cpu.flags, offset_address(base, offset));
}

/// `CPX #word` (`0xa2`) and `CPY #word` (`0xa3`) compare X or Y with a
/// little-endian immediate word and change only the flags: C is set exactly
/// when the index is unsigned greater or equal, Z when they are equal, N
/// follows bit 15 of the wrapped difference, and V is set exactly when the
/// two words have different signs and the difference has the sign of the
/// immediate.
#[verifier::rlimit(40)]
pub proof fn lemma_index_compare(state: SystemView)
    requires
        !state.cpu.halted,
        state.read(state.cpu.pc) == 0xa2 || state.read(state.cpu.pc) == 0xa3,
    ensures
        ({
            let opcode = state.read(state.cpu.pc);
            let left = if opcode == 0xa2 {
                state.cpu.x
            } else {
                state.cpu.y
            };
            let right = state.read(wrap16(state.cpu.pc + 1)) + 256 * state.read(
                wrap16(state.cpu.pc + 2),
            );
            let difference = (left - right) % 0x10000;
            let (next, result) = state.step(false);
            &&& result is Ok
            &&& next.flag(FLAG_CARRY) == (left >= right)
            &&& next.flag(FLAG_ZERO) == (left == right)
            &&& next.flag(FLAG_NEGATIVE) == (difference >= 0x8000)
            &&& next.flag(FLAG_OVERFLOW) == ((left < 0x8000) != (right < 0x8000) && (left
                < 0x8000) != (difference < 0x8000))
            &&& next.cpu.registers == state.cpu.registers
            &&& next.cpu.x == state.cpu.x
            &&& next.cpu.y == state.cpu.y
            &&& next.bus == state.bus
        }),
{
    let pc = state.cpu.pc;
    let (s1, opcode) = state.fetch_byte();
    lemma_execute_control_or_jump(s1, opcode);
    let (s2, right) = s1.fetch_word();
    let left = if opcode == 0xa2 {
        state.cpu.x
    } else {
        state.cpu.y
    };
    assert(wrap16(s1.cpu.pc + 1) == wrap16(pc + 2));
    let low = state.read(wrap16(pc + 1));
    let high = state.read(wrap16(pc + 2));
    assert(right == low + 256 * high) by {
        assert(0 <= high * 256 + low < 0x10000) by (nonlinear_arith)
            requires
                low < 256,
                high < 256,
        ;
    }
    assert(state.step(false).0 == s2.compare_word(left, right).count_cycles(3));
    lemma_compare_word_flags(s2.cpu, left, right);
}

/// The flags that a word comparison leaves, read back.
proof fn lemma_compare_word_flags(cpu: CpuState, left: u16, right: u16)
    ensures
        ({
            let after = cpu.compare_word(left, right);
            let difference = (left - right) % 0x10000;
            &&& flag_is_set(after.flags, FLAG_CARRY) == (left >= right)
            &&& flag_is_set(after.flags, FLAG_ZERO) == (left == right)
            &&& flag_is_set(after.flags, FLAG_NEGATIVE) == (difference >= 0x8000)
            &&& flag_is_set(after.flags, FLAG_OVERFLOW) == ((left < 0x8000) != (right < 0x8000)
                && (left < 0x8000) != (difference < 0x8000))
            &&& after.registers == cpu.registers
            &&& after.x == cpu.x
            &&& after.y == cpu.y
        }),
{
    let r = wrap16(left - right);
    lemma_word_subtract_sign_rule(left, right);
    lemma_nz16_flags(cpu.flags, r);
    lemma_cv_flags(nz16(cpu.flags, r), left >= right, overflows16(signed16(left) - signed16(right)));
}

/// A signed word subtraction overflows exactly when the operands have
/// different signs and the wrapped difference has the sign of the
/// subtrahend.
proof fn lemma_word_subtract_sign_rule(left: u16, right: u16)
    ensures
        overflows16(signed16(left) - signed16(right)) == ((left < 0x8000) != (right < 0x8000) && (
        left < 0x8000) != ((left - right) % 0x10000 < 0x8000)),
        wrap16(left - right) == (left - right) % 0x10000,
        (wrap16(left - right) == 0) == (left == right),
{
    assert((left - right) % 0x10000 == if left - right < 0 {
        left - right + 0x10000
    } else {
        left - right
    });
}

/// Register moves (`0x40..=0x4f`) copy the register named by the low two
/// bits into the one named by the next two, set Z and N from the byte, and
/// change nothing else.
pub proof fn lemma_register_moves(state: SystemView)
    requires
        !state.cpu.halted,
        state.cpu.registers.len() == 4,
        0x40 <= state.read(state.cpu.pc) < 0x50,
    ensures
        ({
            let opcode = state.read(state.cpu.pc);
            let value = state.register(opcode as int % 4);
            let (next, result) = state.step(false);
            &&& result is Ok
            &&& next.cpu.registers == state.cpu.registers.update((opcode as int / 4) % 4, value)
            &&& next.flag(FLAG_ZERO) == (value == 0)
            &&& next.flag(FLAG_NEGATIVE) == (value >= 128)
            &&& next.flag(FLAG_CARRY) == state.flag(FLAG_CARRY)
            &&& next.flag(FLAG_OVERFLOW) == state.flag(FLAG_OVERFLOW)
            &&& next.bus == state.bus
            &&& next.cpu.pc == wrap16(state.cpu.pc + 1)
        }),
{
    reveal(SystemView::execute);
    let value = state.register(state.read(state.cpu.pc) as int % 4);
    lemma_nz8_flags(state.cpu.flags, value);
}

/// Byte loads and stores (`0x10..=0x2b`): an immediate load takes the byte
/// after the opcode, an absolute one the byte at the little-endian address
/// after it, and the X and Y forms the byte X or Y points at; a load puts it
/// in the register named by the low two bits and sets Z and N from it. A
/// store writes that register to the same address and changes no register.
pub proof fn lemma_byte_loads_and_stores(state: SystemView)
    requires
        !state.cpu.halted,
        state.cpu.registers.len() == 4,
        0x10 <= state.read(state.cpu.pc) < 0x2c,
    ensures
        ({
            let opcode = state.read(state.cpu.pc);
            let pc = state.cpu.pc;
            let r = opcode as int % 4;
            let absolute = (state.read(wrap16(pc + 1)) + 256 * state.read(wrap16(pc + 2))) as u16;
            let address = if opcode < 0x14 {
                wrap16(pc + 1)
            } else if opcode < 0x1c {
                absolute
            } else if opcode < 0x24 {
                state.cpu.x
            } else {
                state.cpu.y
            };
            let load = opcode < 0x18 || (0x1c <= opcode && opcode < 0x20) || (0x24 <= opcode
                && opcode < 0x28);
            let length: int = if opcode < 0x14 {
                2
            } else if opcode < 0x1c {
                3
            } else {
                1
            };
            let (next, result) = state.step(false);
            &&& result is Ok
            &&& next.cpu.pc == wrap16(pc + length)
            &&& load ==> next.bus == state.bus && next.cpu.registers == state.cpu.registers.update(
                r,
                state.read(address),
            ) && next.flag(FLAG_ZERO) == (state.read(address) == 0) && next.flag(FLAG_NEGATIVE)
                == (state.read(address) >= 128)
            &&& !load ==> next.bus == state.bus.write(address, state.register(r))
                && next.cpu.registers == state.cpu.registers && next.cpu.flags == state.cpu.flags
        }),
{
    let pc = state.cpu.pc;
    let (s1, opcode) = state.fetch_byte();
    lemma_execute_by_group(s1, opcode);
    assert(wrap16(s1.cpu.pc + 1) == wrap16(pc + 2));
    if opcode < 0x14 {
        lemma_nz8_flags(state.cpu.flags, state.read(wrap16(pc + 1)));
    } else if opcode < 0x1c {
        let (s2, absolute) = s1.fetch_word();
        let low = state.read(wrap16(pc + 1));
        let high = state.read(wrap16(pc + 2));
        assert(wrap16(wrap16(pc + 2) + 1) == wrap16(pc + 3));
        assert(absolute == (low + 256 * high) as u16) by {
            assert(0 <= high * 256 + low < 0x10000) by (nonlinear_arith)
                requires
                    low < 256,
                    high < 256,
            ;
        }
        lemma_nz8_flags(state.cpu.flags, state.read(absolute));
    } else if opcode < 0x24 {
        lemma_nz8_flags(state.cpu.flags, state.read(state.cpu.x));
    } else {
        lemma_nz8_flags(state.cpu.flags, state.read(state.cpu.y));
    }
}

/// The one-byte flag instructions: CLC and SEC clear and set C, CLI and SEI
/// clear and set I, CLV clears V; each leaves the other flags, the
/// registers and memory as they were. HLT halts the processor and NOP does
/// nothing but move past itself.
pub proof fn lemma_flag_instructions(state: SystemView)
    requires
        !state.cpu.halted,
        state.read(state.cpu.pc) <= 0x01 || 0x05 <= state.read(state.cpu.pc) <= 0x09,
    ensures
        ({
            let opcode = state.read(state.cpu.pc);
            let (next, result) = state.step(false);
            &&& result is Ok
            &&& next.cpu.pc == wrap16(state.cpu.pc + 1)
            &&& next.cpu.registers == state.cpu.registers
            &&& next.bus == state.bus
            &&& next.cpu.halted == (opcode == 0x01)
            &&& opcode == 0x05 ==> !next.flag(FLAG_CARRY)
            &&& opcode == 0x06 ==> next.flag(FLAG_CARRY)
            &&& opcode == 0x07 ==> !next.flag(FLAG_INTERRUPT_DISABLE)
            &&& opcode == 0x08 ==> next.flag(FLAG_INTERRUPT_DISABLE)
            &&& opcode == 0x09 ==> !next.flag(FLAG_OVERFLOW)
            &&& forall|flag: u8|
                is_defined_flag(flag) && !(opcode == 0x05 && flag == FLAG_CARRY) && !(opcode
                    == 0x06 && flag == FLAG_CARRY) && !(opcode == 0x07 && flag
                    == FLAG_INTERRUPT_DISABLE) && !(opcode == 0x08 && flag
                    == FLAG_INTERRUPT_DISABLE) && !(opcode == 0x09 && flag == FLAG_OVERFLOW)
                    ==> #[trigger] next.flag(flag) == state.flag(flag)
        }),
{
    reveal(SystemView::execute);
    let opcode = state.read(state.cpu.pc);
    let f = state.cpu.flags;
    assert forall|flag: u8|
        is_defined_flag(flag) && !(opcode == 0x05 && flag == FLAG_CARRY) && !(opcode == 0x06
            && flag == FLAG_CARRY) && !(opcode == 0x07 && flag == FLAG_INTERRUPT_DISABLE) && !(
        opcode == 0x08 && flag == FLAG_INTERRUPT_DISABLE) && !(opcode == 0x09 && flag
            == FLAG_OVERFLOW) implies #[trigger] state.step(false).0.flag(flag) == state.flag(
        flag,
    ) by {
        if opcode == 0x05 || opcode == 0x06 {
            lemma_flag_update(f, FLAG_CARRY, opcode == 0x06, flag);
        } else if opcode == 0x07 || opcode == 0x08 {
            lemma_flag_update(f, FLAG_INTERRUPT_DISABLE, opcode == 0x08, flag);
        } else if opcode == 0x09 {
            lemma_flag_update(f, FLAG_OVERFLOW, false, flag);
        }
    }
    lemma_flag_update(f, FLAG_CARRY, opcode == 0x06, FLAG_ZERO);
    lemma_flag_update(f, FLAG_INTERRUPT_DISABLE, opcode == 0x08, FLAG_ZERO);
    lemma_flag_update(f, FLAG_OVERFLOW, false, FLAG_ZERO);
}

/// Index register updates: INX and DEX (`0x3b`, `0x3c`) and INY and DEY
/// (`0x3d`, `0x3e`) step X or Y by one, wrapping in 16 bits; `0x3f`
/// exchanges X and Y. Z and N follow the new X (or Y for INY and DEY), and
/// the byte registers, C and V are kept.
pub proof fn lemma_index_updates(state: SystemView)
    requires
        !state.cpu.halted,
        0x3b <= state.read(state.cpu.pc) < 0x40,
    ensures
        ({
            let opcode = state.read(state.cpu.pc);
            let x = state.cpu.x;
            let y = state.cpu.y;
            let (next, result) = state.step(false);
            let changed = if opcode == 0x3d || opcode == 0x3e {
                next.cpu.y
            } else {
                next.cpu.x
            };
            &&& result is Ok
            &&& opcode == 0x3b ==> next.cpu.x == (x + 1) % 0x10000 && next.cpu.y == y
            &&& opcode == 0x3c ==> next.cpu.x == (x + 0xffff) % 0x10000 && next.cpu.y == y
            &&& opcode == 0x3d ==> next.cpu.y == (y + 1) % 0x10000 && next.cpu.x == x
            &&& opcode == 0x3e ==> next.cpu.y == (y + 0xffff) % 0x10000 && next.cpu.x == x
            &&& opcode == 0x3f ==> next.cpu.x == y && next.cpu.y == x
            &&& next.flag(FLAG_ZERO) == (changed == 0)
            &&& next.flag(FLAG_NEGATIVE) == (changed >= 0x8000)
            &&& next.flag(FLAG_CARRY) == state.flag(FLAG_CARRY)
            &&& next.flag(FLAG_OVERFLOW) == state.flag(FLAG_OVERFLOW)
            &&& next.cpu.registers == state.cpu.registers
            &&& next.bus == state.bus
        }),
{
    reveal(SystemView::execute);
    let opcode = state.read(state.cpu.pc);
    let x = state.cpu.x;
    let y = state.cpu.y;
    let changed: u16 = if opcode == 0x3b {
        wrap16(x + 1)
    } else if opcode == 0x3c {
        wrap16(x - 1)
    } else if opcode == 0x3d {
        wrap16(y + 1)
    } else if opcode == 0x3e {
        wrap16(y - 1)
    } else {
        y
    };
    assert(wrap16(x - 1) == (x + 0xffff) % 0x10000);
    assert(wrap16(y - 1) == (y + 0xffff) % 0x10000);
    lemma_nz16_flags(state.cpu.flags, changed);
}

/// Byte transfers between A and the index registers and index additions:
/// `0xa6`/`0xaa` put A in the low byte of X/Y and `0xa7`/`0xab` in the high
/// byte, keeping the other byte; `0xa8`/`0xac` copy the low byte of X/Y to
/// A and `0xa9`/`0xad` the high byte; `0xae`/`0xaf` add A to X/Y, wrapping
/// in 16 bits. Z and N follow the register written, and C and V are kept.
pub proof fn lemma_index_byte_transfers(state: SystemView)
    requires
        !state.cpu.halted,
        state.cpu.registers.len() == 4,
        0xa6 <= state.read(state.cpu.pc) < 0xb0,
    ensures
        ({
            let opcode = state.read(state.cpu.pc);
            let a = state.a();
            let x = state.cpu.x;
            let y = state.cpu.y;
            let (next, result) = state.step(false);
            &&& result is Ok
            &&& next.bus == state.bus
            &&& next.flag(FLAG_CARRY) == state.flag(FLAG_CARRY)
            &&& next.flag(FLAG_OVERFLOW) == state.flag(FLAG_OVERFLOW)
            &&& opcode == 0xa6 ==> next.cpu.x == (x / 256) * 256 + a
            &&& opcode == 0xa7 ==> next.cpu.x == a * 256 + x % 256
            &&& opcode == 0xaa ==> next.cpu.y == (y / 256) * 256 + a
            &&& opcode == 0xab ==> next.cpu.y == a * 256 + y % 256
            &&& opcode == 0xae ==> next.cpu.x == (x + a) % 0x10000
            &&& opcode == 0xaf ==> next.cpu.y == (y + a) % 0x10000
            &&& (opcode == 0xa6 || opcode == 0xa7 || opcode == 0xae) ==> next.cpu.registers
                == state.cpu.registers && next.cpu.y == y && next.flag(FLAG_ZERO) == (next.cpu.x
                == 0) && next.flag(FLAG_NEGATIVE) == (next.cpu.x >= 0x8000)
            &&& (opcode == 0xaa || opcode == 0xab || opcode == 0xaf) ==> next.cpu.registers
                == state.cpu.registers && next.cpu.x == x && next.flag(FLAG_ZERO) == (next.cpu.y
                == 0) && next.flag(FLAG_NEGATIVE) == (next.cpu.y >= 0x8000)
            &&& opcode == 0xa8 ==> next.a() == x % 256
            &&& opcode == 0xa9 ==> next.a() == x / 256
            &&& opcode == 0xac ==> next.a() == y % 256
            &&& opcode == 0xad ==> next.a() == y / 256
            &&& (opcode == 0xa8 || opcode == 0xa9 || opcode == 0xac || opcode == 0xad) ==> next.cpu.x
                == x && next.cpu.y == y && next.cpu.registers == state.cpu.registers.update(
                0,
                next.a(),
            ) && next.flag(FLAG_ZERO) == (next.a() == 0) && next.flag(FLAG_NEGATIVE) == (next.a()
                >= 128)
        }),
{
    let (s1, opcode) = state.fetch_byte();
    lemma_execute_control_or_jump(s1, opcode);
    let a = state.a();
    let x = state.cpu.x;
    let y = state.cpu.y;
    assert(0 <= (x / 256) * 256 + a < 0x10000 && 0 <= a * 256 + x % 256 < 0x10000 && 0 <= (y
        / 256) * 256 + a < 0x10000 && 0 <= a * 256 + y % 256 < 0x10000) by (nonlinear_arith)
        requires
            a < 256,
            x < 0x10000,
            y < 0x10000,
    ;
    if opcode == 0xa6 {
        lemma_nz16_flags(state.cpu.flags, ((x / 256) * 256 + a) as u16);
    } else if opcode == 0xa7 {
        lemma_nz16_flags(state.cpu.flags, (a * 256 + x % 256) as u16);
    } else if opcode == 0xaa {
        lemma_nz16_flags(state.cpu.flags, ((y / 256) * 256 + a) as u16);
    } else if opcode == 0xab {
        lemma_nz16_flags(state.cpu.flags, (a * 256 + y % 256) as u16);
    } else if opcode == 0xae {
        lemma_nz16_flags(state.cpu.flags, wrap16(x + a));
    } else if opcode == 0xaf {
        lemma_nz16_flags(state.cpu.flags, wrap16(y + a));
    } else if opcode == 0xa8 {
        lemma_nz8_flags(state.cpu.flags, (x % 256) as u8);
    } else if opcode == 0xa9 {
        lemma_nz8_flags(state.cpu.flags, (x / 256) as u8);
    } else if opcode == 0xac {
        lemma_nz8_flags(state.cpu.flags, (y % 256) as u8);
    } else {
        lemma_nz8_flags(state.cpu.flags, (y / 256) as u8);
    }
}

/// The documented cycle count of a non-branch instruction: one per byte
/// transferred, with no page-crossing penalty.
pub open spec fn documented_cycles(opcode: u8) -> u8 {
    if opcode == 0x02 {
        6  // SWI: interrupt entry
    } else if opcode == 0x03 || opcode == 0x0f {
        3  // RET, indirect CALL
    } else if opcode == 0x04 {
        4  // RTI
    } else if opcode == 0x0a || opcode == 0x0b {
        2  // flag push and pop
    } else if opcode < 0x10 {
        1  // register and control instructions, indirect JMP
    } else if opcode < 0x14 {
        2  // immediate byte loads
    } else if opcode < 0x1c {
        4  // absolute byte loads and stores
    } else if opcode < 0x34 {
        2  // loads and stores through X, Y or SP
    } else if opcode < 0x37 {
        3  // immediate word loads
    } else if opcode < 0x3b {
        5  // absolute word loads and stores
    } else if opcode < 0x50 {
        1  // index updates and register moves
    } else if opcode < 0x60 {
        3  // offset-indirect loads and stores
    } else if opcode < 0x80 {
        1  // accumulator operations on a register
    } else if opcode < 0x88 {
        2  // accumulator operations on an immediate byte
    } else if opcode < 0xa0 {
        1  // register increments, decrements, shifts and rotates
    } else if opcode < 0xa2 {
        2  // index plus immediate offset
    } else if opcode < 0xa5 {
        3  // index compares and absolute JMP
    } else if opcode == 0xa5 {
        5  // absolute CALL
    } else {
        1  // transfers between A and the index registers
    }
}

/// Every defined instruction other than a branch takes its documented
/// number of cycles, and the step reports it.
pub proof fn lemma_documented_cycle_counts(state: SystemView)
    requires
        !state.cpu.halted,
        state.read(state.cpu.pc) < 0xb0,
    ensures
        state.step(false).1 == Ok::<Step, CpuFault>(
            Step {
                pc: state.cpu.pc,
                cycles: documented_cycles(state.read(state.cpu.pc)),
                kind: StepKind::Instruction(state.read(state.cpu.pc)),
            },
        ),
{
    reveal(SystemView::execute);
}

/// A relative branch takes 2 cycles, or 3 when taken, and then continues at
/// the address after its two bytes, moved by the signed operand when taken
/// (wrapping in 16 bits). It changes nothing but PC and the cycle count.
pub proof fn lemma_branch_is_relative_to_the_next_instruction(state: SystemView)
    requires
        !state.cpu.halted,
        0xb0 <= state.read(state.cpu.pc) < 0xbf,
    ensures
        ({
            let opcode = state.read(state.cpu.pc);
            let next_pc = wrap16(state.cpu.pc + 2);
            let offset = state.read(wrap16(state.cpu.pc + 1));
            let taken = branch_taken(opcode, state.cpu.flags);
            let (next, result) = state.step(false);
            &&& result == Ok::<Step, CpuFault>(
                Step {
                    pc: state.cpu.pc,
                    cycles: if taken {
                        3
                    } else {
                        2
                    },
                    kind: StepKind::Instruction(opcode),
                },
            )
            &&& next.cpu.pc == if taken {
                wrap16(next_pc + signed8(offset))
            } else {
                next_pc
            }
            &&& next.bus == state.bus
            &&& next.cpu.flags == state.cpu.flags
            &&& next.cpu.registers == state.cpu.registers
            &&& next.cpu.sp == state.cpu.sp
        }),
{
    let (s1, opcode) = state.fetch_byte();
    lemma_execute_by_group(s1, opcode);
    assert(wrap16(s1.cpu.pc + 1) == wrap16(state.cpu.pc + 2));
}

/// An interrupt taken while interrupts are enabled, followed by an interrupt
/// return, resumes at the interrupted PC with the stack pointer, flags and
/// registers as they were, and leaves the processor running. The entry
/// pushes PC and flags on a stack that lies in RAM, disables interrupts and
/// jumps through the IRQ vector; the return instruction is the one found
/// there.
pub proof fn lemma_interrupt_then_return(state: SystemView, irq: bool)
    requires
        state.wf(),
        !state.flag(FLAG_INTERRUPT_DISABLE),
        RAM_START + 3 <= state.cpu.sp <= RAM_END + 1,
        state.step(true).0.read(state.step(true).0.cpu.pc) == 0x04,
    ensures
        ({
            let (entered, interrupt) = state.step(true);
            let (returned, rti) = entered.step(irq);
            &&& interrupt == Ok::<Step, CpuFault>(
                Step { pc: state.cpu.pc, cycles: 6, kind: StepKind::Interrupt },
            )
            &&& entered.cpu.pc == state.read_word(VECTOR_IRQ)
            &&& entered.cpu.sp == state.cpu.sp - 3
            &&& entered.flag(FLAG_INTERRUPT_DISABLE)
            &&& !entered.cpu.halted
            &&& rti == Ok::<Step, CpuFault>(
                Step { pc: entered.cpu.pc, cycles: 4, kind: StepKind::Instruction(0x04) },
            )
            &&& returned.cpu.pc == state.cpu.pc
            &&& returned.cpu.sp == state.cpu.sp
            &&& returned.cpu.flags == state.cpu.flags
            &&& returned.cpu.registers == state.cpu.registers
            &&& returned.cpu.x == state.cpu.x
            &&& returned.cpu.y == state.cpu.y
            &&& !returned.cpu.halted
        }),
{
    let entered = state.with_halted(false).enter_interrupt(VECTOR_IRQ);
    lemma_interrupt_entry_then_return(state.with_halted(false), VECTOR_IRQ);
    let (fetched, opcode) = entered.count_cycles(6).fetch_byte();
    lemma_execute_control_or_jump(fetched, 0x04);
}

/// A software interrupt followed by an interrupt return resumes right after
/// the one-byte SWI instruction, with the stack pointer, flags and registers
/// as they were. The return instruction is the one found through the SWI
/// vector.
pub proof fn lemma_software_interrupt_then_return(state: SystemView)
    requires
        state.wf(),
        !state.cpu.halted,
        state.read(state.cpu.pc) == 0x02,
        RAM_START + 3 <= state.cpu.sp <= RAM_END + 1,
        state.step(false).0.read(state.step(false).0.cpu.pc) == 0x04,
    ensures
        ({
            let (entered, swi) = state.step(false);
            let (returned, rti) = entered.step(false);
            &&& swi == Ok::<Step, CpuFault>(
                Step { pc: state.cpu.pc, cycles: 6, kind: StepKind::Instruction(0x02) },
            )
            &&& entered.cpu.pc == state.read_word(VECTOR_SWI)
            &&& entered.cpu.sp == state.cpu.sp - 3
            &&& entered.flag(FLAG_INTERRUPT_DISABLE)
            &&& rti == Ok::<Step, CpuFault>(
                Step { pc: entered.cpu.pc, cycles: 4, kind: StepKind::Instruction(0x04) },
            )
            &&& returned.cpu.pc == wrap16(state.cpu.pc + 1)
            &&& returned.cpu.sp == state.cpu.sp
            &&& returned.cpu.flags == state.cpu.flags
            &&& returned.cpu.registers == state.cpu.registers
            &&& returned.cpu.x == state.cpu.x
            &&& returned.cpu.y == state.cpu.y
            &&& !returned.cpu.halted
        }),
{
    let (s1, opcode) = state.fetch_byte();
    lemma_execute_control_or_jump(s1, 0x02);
    lemma_interrupt_entry_then_return(s1, VECTOR_SWI);
    let entered = s1.enter_interrupt(VECTOR_SWI).count_cycles(6);
    let (fetched, rti) = entered.fetch_byte();
    lemma_execute_control_or_jump(fetched, 0x04);
}

/// Interrupt entry through `vector` followed by the RTI found there restores
/// PC, flags and SP and leaves the processor running.
proof fn lemma_interrupt_entry_then_return(state: SystemView, vector: u16)
    requires
        state.wf(),
        vector <= 0x3ffe,
        RAM_START + 3 <= state.cpu.sp <= RAM_END + 1,
    ensures
        ({
            let entered = state.enter_interrupt(vector);
            let (fetched, opcode) = entered.fetch_byte();
            let (popped, flags) = fetched.pop_byte();
            let restored = popped.with_flags(flags & FLAG_MASK);
            let (unwound, pc) = restored.pop_word();
            &&& entered.cpu.pc == state.read_word(vector)
            &&& entered.cpu.sp == state.cpu.sp - 3
            &&& entered.flag(FLAG_INTERRUPT_DISABLE)
            &&& entered.wf()
            &&& entered.cpu.registers == state.cpu.registers
            &&& flags & FLAG_MASK == state.cpu.flags
            &&& pc == state.cpu.pc
            &&& unwound.cpu.sp == state.cpu.sp
            &&& unwound.cpu.registers == state.cpu.registers
            &&& unwound.cpu.x == state.cpu.x
            &&& unwound.cpu.y == state.cpu.y
        }),
{
    broadcast use lemma_flag_update_is_masked;

    let sp = state.cpu.sp;
    let pushed = state.push_word(state.cpu.pc);
    lemma_push_then_pop_word(state, state.cpu.pc);
    lemma_read_after_write(pushed.bus, (sp - 3) as u16, state.cpu.flags, (sp - 2) as u16);
    lemma_read_after_write(pushed.bus, (sp - 3) as u16, state.cpu.flags, (sp - 1) as u16);
    lemma_read_after_write(pushed.bus, (sp - 3) as u16, state.cpu.flags, vector);
    lemma_read_after_write(pushed.bus, (sp - 3) as u16, state.cpu.flags, (vector + 1) as u16);
    lemma_write_keeps_rom_and_shape(pushed.bus, (sp - 3) as u16, state.cpu.flags);
    lemma_mask_is_idempotent(state.cpu.flags);
    let s1 = pushed.push_byte(state.cpu.flags);
    lemma_flag_update(s1.cpu.flags, FLAG_INTERRUPT_DISABLE, true, FLAG_CARRY);
    assert(s1.read(vector) == state.read(vector));
    assert(s1.read(wrap16(vector + 1)) == state.read(wrap16(vector + 1)));
    let entered = state.enter_interrupt(vector);
    assert(entered.cpu.pc == state.read_word(vector));
    assert(entered.cpu.sp == state.cpu.sp - 3);
    assert(entered.flag(FLAG_INTERRUPT_DISABLE));
    assert(entered.wf());
    let (fetched, opcode) = entered.fetch_byte();
    let (popped, flags) = fetched.pop_byte();
    assert(flags == state.cpu.flags);
    let restored = popped.with_flags(flags & FLAG_MASK);
    assert(restored.bus == pushed.bus.write((sp - 3) as u16, state.cpu.flags));
    assert(restored.cpu.sp == sp - 2);
    let (unwound, pc) = restored.pop_word();
    assert(pc == state.cpu.pc);
}

// ---------------------------------------------------------------------------
// The executable processor
// ---------------------------------------------------------------------------

/// Complete programmer-visible state for the ZT8 processor.
#[derive(Debug, Eq, PartialEq)]
pub struct Cpu {
    registers: [u8; 4],
    x: u16,
    y: u16,
    sp: u16,
    pc: u16,
    flags: u8,
    halted: bool,
    cycles: u64,
}

impl View for Cpu {
    type V = CpuState;

    closed spec fn view(&self) -> CpuState {
        CpuState {
            registers: self.registers@,
            x: self.x,
            y: self.y,
            sp: self.sp,
            pc: self.pc,
            flags: self.flags,
            halted: self.halted,
            cycles: self.cycles,
        }
    }
}

impl Clone for Cpu {
    fn clone(&self) -> (cpu: Cpu)
        ensures
            cpu@ == self@,
    {
        proof {
            use_type_invariant(self);
        }
        Cpu {
            registers: self.registers,
            x: self.x,
            y: self.y,
            sp: self.sp,
            pc: self.pc,
            flags: self.flags,
            halted: self.halted,
            cycles: self.cycles,
        }
    }
}

impl Default for Cpu {
    fn default() -> (cpu: Cpu)
        ensures
            cpu@ == CpuState::initial(),
    {
        Cpu::new()
    }
}

/// The byte pair of a word, low byte first.
fn le_bytes(value: u16) -> (bytes: (u8, u8))
    ensures
        bytes == ((value % 256) as u8, (value / 256) as u8),
{
    ((value % 256) as u8, (value / 256) as u8)
}

/// The word stored little-endian as `low`, `high`.
fn from_le_bytes(low: u8, high: u8) -> (value: u16)
    ensures
        value == le_word(low, high),
{
    (high as u16) * 256 + (low as u16)
}

/// The reset status byte sets no undefined bit.
proof fn lemma_reset_flags_are_defined()
    ensures
        FLAG_INTERRUPT_DISABLE & FLAG_MASK == FLAG_INTERRUPT_DISABLE,
{
    assert(4u8 & 0xc7u8 == 4u8) by (bit_vector);
}

impl Cpu {
    /// No undefined status bit is ever set.
    #[verifier::type_invariant]
    spec fn flags_are_defined(self) -> bool {
        self.flags & FLAG_MASK == self.flags
    }

    /// The register file always holds four registers.
    pub proof fn lemma_register_count(&self)
        ensures
            self@.registers.len() == 4,
    {
    }

    pub fn new() -> (cpu: Cpu)
        ensures
            cpu@ == CpuState::initial(),
    {
        proof {
            lemma_reset_flags_are_defined();
        }
        let cpu = Cpu {
            registers: [0u8; 4],
            x: 0,
            y: 0,
            sp: RESET_STACK_POINTER,
            pc: 0,
            flags: FLAG_INTERRUPT_DISABLE,
            halted: false,
            cycles: 0,
        };
        assert(cpu@.registers =~= CpuState::initial().registers);
        cpu
    }

    /// Resets processor state and loads PC from the fixed-ROM reset vector.
    pub fn reset(&mut self, bus: &mut AddressSpace)
        requires
            old(bus)@.wf(),
        ensures
            final(self)@ == (CpuState {
                pc: system(CpuState::initial(), old(bus)@).read_word(VECTOR_RESET),
                ..CpuState::initial()
            }),
            final(bus)@ == old(bus)@,
    {
        proof {
            use_type_invariant(&*self);
        }
        *self = Cpu::new();
        proof {
            use_type_invariant(&*self);
        }
        self.pc = Self::read_word(bus, VECTOR_RESET);
    }

    pub fn register(&self, register: Register) -> (value: u8)
        ensures
            value == self@.registers[register.spec_code() as int],
    {
        self.registers[register.index()]
    }

    pub fn set_register(&mut self, register: Register, value: u8)
        ensures
            final(self)@ == (CpuState {
                registers: old(self)@.registers.update(register.spec_code() as int, value),
                ..old(self)@
            }),
    {
        proof {
            use_type_invariant(&*self);
        }
        self.registers[register.index()] = value;
    }

    pub fn a(&self) -> (value: u8)
        ensures
            value == self@.registers[0],
    {
        self.register(Register::A)
    }

    pub fn b(&self) -> (value: u8)
        ensures
            value == self@.registers[1],
    {
        self.register(Register::B)
    }

    pub fn c(&self) -> (value: u8)
        ensures
            value == self@.registers[2],
    {
        self.register(Register::C)
    }

    pub fn d(&self) -> (value: u8)
        ensures
            value == self@.registers[3],
    {
        self.register(Register::D)
    }

    pub fn x(&self) -> (x: u16)
        ensures
            x == self@.x,
    {
        self.x
    }

    pub fn set_x(&mut self, value: u16)
        ensures
            final(self)@ == (CpuState { x: value, ..old(self)@ }),
    {
        proof {
            use_type_invariant(&*self);
        }
        self.x = value;
    }

    pub fn y(&self) -> (y: u16)
        ensures
            y == self@.y,
    {
        self.y
    }

    pub fn set_y(&mut self, value: u16)
        ensures
            final(self)@ == (CpuState { y: value, ..old(self)@ }),
    {
        proof {
            use_type_invariant(&*self);
        }
        self.y = value;
    }

    pub fn sp(&self) -> (sp: u16)
        ensures
            sp == self@.sp,
    {
        self.sp
    }

    pub fn set_sp(&mut self, value: u16)
        ensures
            final(self)@ == (CpuState { sp: value, ..old(self)@ }),
    {
        proof {
            use_type_invariant(&*self);
        }
        self.sp = value;
    }

    pub fn pc(&self) -> (pc: u16)
        ensures
            pc == self@.pc,
    {
        self.pc
    }

    pub fn set_pc(&mut self, value: u16)
        ensures
            final(self)@ == (CpuState { pc: value, ..old(self)@ }),
    {
        proof {
            use_type_invariant(&*self);
        }
        self.pc = value;
    }

    /// The status byte; no undefined bit is ever set in it.
    pub fn flags(&self) -> (flags: u8)
        ensures
            flags == self@.flags,
            flags & FLAG_MASK == flags,
    {
        proof {
            use_type_invariant(self);
        }
        self.flags
    }

    /// Replaces the status byte; undefined bits are dropped.
    pub fn set_flags(&mut self, value: u8)
        ensures
            final(self)@ == (CpuState { flags: value & FLAG_MASK, ..old(self)@ }),
    {
        proof {
            use_type_invariant(&*self);
        }
        proof {
            lemma_mask_is_idempotent(value);
        }
        self.flags = value & FLAG_MASK;
    }

    pub fn flag(&self, flag: u8) -> (set: bool)
        ensures
            set == flag_is_set(self@.flags, flag),
    {
        self.flags & flag != 0
    }

    pub fn halted(&self) -> (halted: bool)
        ensures
            halted == self@.halted,
    {
        self.halted
    }

    pub fn cycles(&self) -> (cycles: u64)
        ensures
            cycles == self@.cycles,
    {
        self.cycles
    }

    fn fetch_byte(&mut self, bus: &AddressSpace) -> (value: u8)
        requires
            bus@.wf(),
        ensures
            (system(final(self)@, bus@), value) == system(old(self)@, bus@).fetch_byte(),
    {
        proof {
            use_type_invariant(&*self);
        }
        let value = bus.peek(self.pc);
        self.pc = self.pc.wrapping_add(1);
        value
    }

    fn fetch_word(&mut self, bus: &AddressSpace) -> (value: u16)
        requires
            bus@.wf(),
        ensures
            (system(final(self)@, bus@), value) == system(old(self)@, bus@).fetch_word(),
    {
        proof {
            use_type_invariant(&*self);
        }
        let low = self.fetch_byte(bus);
        let high = self.fetch_byte(bus);
        from_le_bytes(low, high)
    }

    fn read_word(bus: &AddressSpace, address: u16) -> (value: u16)
        requires
            bus@.wf(),
        ensures
            value == le_word(bus@.peek(address), bus@.peek(wrap16(address + 1))),
    {
        let low = bus.peek(address);
        let high = bus.peek(address.wrapping_add(1));
        from_le_bytes(low, high)
    }

    fn write_word(bus: &mut AddressSpace, address: u16, value: u16)
        requires
            old(bus)@.wf(),
        ensures
            final(bus)@.wf(),
            final(bus)@ == old(bus)@.write(address, (value % 256) as u8).write(
                wrap16(address + 1),
                (value / 256) as u8,
            ),
    {
        let (low, high) = le_bytes(value);
        bus.write(address, low);
        bus.write(address.wrapping_add(1), high);
    }

    fn push_byte(&mut self, bus: &mut AddressSpace, value: u8)
        requires
            old(bus)@.wf(),
        ensures
            final(bus)@.wf(),
            system(final(self)@, final(bus)@) == system(old(self)@, old(bus)@).push_byte(value),
    {
        proof {
            use_type_invariant(&*self);
        }
        self.sp = self.sp.wrapping_sub(1);
        bus.write(self.sp, value);
    }

    fn pop_byte(&mut self, bus: &AddressSpace) -> (value: u8)
        requires
            bus@.wf(),
        ensures
            (system(final(self)@, bus@), value) == system(old(self)@, bus@).pop_byte(),
    {
        proof {
            use_type_invariant(&*self);
        }
        let value = bus.peek(self.sp);
        self.sp = self.sp.wrapping_add(1);
        value
    }

    fn push_word(&mut self, bus: &mut AddressSpace, value: u16)
        requires
            old(bus)@.wf(),
        ensures
            final(bus)@.wf(),
            system(final(self)@, final(bus)@) == system(old(self)@, old(bus)@).push_word(value),
    {
        proof {
            use_type_invariant(&*self);
        }
        let (low, high) = le_bytes(value);
        self.push_byte(bus, high);
        self.push_byte(bus, low);
    }

    fn pop_word(&mut self, bus: &AddressSpace) -> (value: u16)
        requires
            bus@.wf(),
        ensures
            (system(final(self)@, bus@), value) == system(old(self)@, bus@).pop_word(),
    {
        proof {
            use_type_invariant(&*self);
        }
        let low = self.pop_byte(bus);
        let high = self.pop_byte(bus);
        from_le_bytes(low, high)
    }

    fn set_flag(&mut self, flag: u8, set: bool)
        ensures
            final(self)@ == (CpuState { flags: flag_update(old(self)@.flags, flag, set), ..old(self)@ }),
    {
        proof {
            use_type_invariant(&*self);
        }
        let flags = if set {
            self.flags | flag
        } else {
            self.flags & !flag
        };
        proof {
            lemma_mask_is_idempotent(flags);
        }
        self.flags = flags & FLAG_MASK;
    }

    fn enter_interrupt(&mut self, bus: &mut AddressSpace, vector: u16)
        requires
            old(bus)@.wf(),
        ensures
            final(bus)@.wf(),
            system(final(self)@, final(bus)@) == system(old(self)@, old(bus)@).enter_interrupt(
                vector,
            ),
    {
        proof {
            use_type_invariant(&*self);
        }
        self.push_word(bus, self.pc);
        self.push_byte(bus, self.flags);
        self.set_flag(FLAG_INTERRUPT_DISABLE, true);
        proof {
            use_type_invariant(&*self);
        }
        self.pc = Self::read_word(bus, vector);
    }

    fn set_nz_byte(&mut self, value: u8)
        ensures
            final(self)@ == (CpuState { flags: nz8(old(self)@.flags, value), ..old(self)@ }),
    {
        proof {
            use_type_invariant(&*self);
        }
        self.set_flag(FLAG_ZERO, value == 0);
        self.set_flag(FLAG_NEGATIVE, value & 0x80 != 0);
        assert((value & 0x80 != 0) == (value >= 0x80)) by (bit_vector);
    }

    fn set_nz_word(&mut self, value: u16)
        ensures
            final(self)@ == (CpuState { flags: nz16(old(self)@.flags, value), ..old(self)@ }),
    {
        proof {
            use_type_invariant(&*self);
        }
        self.set_flag(FLAG_ZERO, value == 0);
        self.set_flag(FLAG_NEGATIVE, value & 0x8000 != 0);
        assert((value & 0x8000 != 0) == (value >= 0x8000)) by (bit_vector);
    }

    fn store_register(&mut self, register: usize, value: u8)
        requires
            register < 4,
        ensures
            final(self)@ == (CpuState {
                registers: old(self)@.registers.update(register as int, value),
                flags: nz8(old(self)@.flags, value),
                ..old(self)@
            }),
    {
        proof {
            use_type_invariant(&*self);
        }
        self.registers[register] = value;
        self.set_nz_byte(value);
    }

    fn add_to_a(&mut self, value: u8, carry: bool)
        ensures
            final(self)@ == old(self)@.add_to_a(value, carry),
    {
        proof {
            use_type_invariant(&*self);
        }
        let left = self.registers[0];
        let carry_in: u16 = if carry {
            1
        } else {
            0
        };
        let sum = left as u16 + value as u16 + carry_in;
        let result = (sum % 256) as u8;
        self.registers[0] = result;
        self.set_nz_byte(result);
        self.set_flag(FLAG_CARRY, sum > 0xff);
        proof {
            lemma_add_overflow(left, value, carry_in as u8, result);
        }
        self.set_flag(FLAG_OVERFLOW, (!(left ^ value) & (left ^ result) & 0x80) != 0);
    }

    fn subtract_from_a(&mut self, value: u8, borrow: bool, store: bool)
        ensures
            final(self)@ == old(self)@.subtract_from_a(value, borrow, store),
    {
        proof {
            use_type_invariant(&*self);
        }
        let left = self.registers[0];
        let borrow_in: u8 = if borrow {
            1
        } else {
            0
        };
        let subtrahend = value as u16 + borrow_in as u16;
        let result = left.wrapping_sub(value).wrapping_sub(borrow_in);
        assert(result == wrap8(left - value - borrow_in));
        self.set_nz_byte(result);
        self.set_flag(FLAG_CARRY, left as u16 >= subtrahend);
        proof {
            lemma_subtract_overflow(left, value, borrow_in, result);
        }
        self.set_flag(FLAG_OVERFLOW, ((left ^ value) & (left ^ result) & 0x80) != 0);
        if store {
            proof {
                use_type_invariant(&*self);
            }
            self.registers[0] = result;
        }
    }

    fn logic_to_a(&mut self, result: u8)
        ensures
            final(self)@ == old(self)@.logic_to_a(result),
    {
        proof {
            use_type_invariant(&*self);
        }
        self.registers[0] = result;
        self.set_nz_byte(result);
        self.set_flag(FLAG_OVERFLOW, false);
    }

    fn compare_word(&mut self, left: u16, right: u16)
        ensures
            final(self)@ == old(self)@.compare_word(left, right),
    {
        proof {
            use_type_invariant(&*self);
        }
        let result = left.wrapping_sub(right);
        assert(result == wrap16(left - right));
        self.set_nz_word(result);
        self.set_flag(FLAG_CARRY, left >= right);
        proof {
            lemma_compare_overflow(left, right, result);
        }
        self.set_flag(FLAG_OVERFLOW, ((left ^ right) & (left ^ result) & 0x8000) != 0);
    }

    fn offset_address(base: u16, encoded_offset: u8) -> (address: u16)
        ensures
            address == offset_address(base, encoded_offset),
    {
        if encoded_offset < 128 {
            base.wrapping_add(encoded_offset as u16)
        } else {
            base.wrapping_sub(256 - encoded_offset as u16)
        }
    }

    fn execute_control(&mut self, bus: &mut AddressSpace, opcode: u8) -> (cycles: u8)
        requires
            old(bus)@.wf(),
            opcode < 0x10,
        ensures
            final(bus)@.wf(),
            (system(final(self)@, final(bus)@), cycles) == system(
                old(self)@,
                old(bus)@,
            ).execute_control(opcode),
    {
        proof {
            use_type_invariant(&*self);
        }
        match opcode {
            0x00 => 1,
            0x01 => {
                self.halted = true;
                1
            },
            0x02 => {
                self.enter_interrupt(bus, VECTOR_SWI);
                6
            },
            0x03 => {
                let target = self.pop_word(bus);
                proof {
                    use_type_invariant(&*self);
                }
                self.pc = target;
                3
            },
            0x04 => {
                let flags = self.pop_byte(bus);
                self.set_flags(flags);
                let target = self.pop_word(bus);
                proof {
                    use_type_invariant(&*self);
                }
                self.pc = target;
                self.halted = false;
                4
            },
            0x05 => {
                self.set_flag(FLAG_CARRY, false);
                1
            },
            0x06 => {
                self.set_flag(FLAG_CARRY, true);
                1
            },
            0x07 => {
                self.set_flag(FLAG_INTERRUPT_DISABLE, false);
                1
            },
            0x08 => {
                self.set_flag(FLAG_INTERRUPT_DISABLE, true);
                1
            },
            0x09 => {
                self.set_flag(FLAG_OVERFLOW, false);
                1
            },
            0x0a => {
                self.push_byte(bus, self.flags);
                2
            },
            0x0b => {
                let flags = self.pop_byte(bus);
                self.set_flags(flags);
                2
            },
            0x0c => {
                self.x = self.sp;
                self.set_nz_word(self.x);
                1
            },
            0x0d => {
                self.sp = self.x;
                1
            },
            0x0e => {
                self.pc = self.x;
                1
            },
            _ => {
                let target = self.x;
                self.push_word(bus, self.pc);
                self.pc = target;
                3
            },
        }
    }

    fn execute_transfer(&mut self, bus: &mut AddressSpace, opcode: u8) -> (cycles: u8)
        requires
            old(bus)@.wf(),
            0x10 <= opcode < 0x34,
        ensures
            final(bus)@.wf(),
            (system(final(self)@, final(bus)@), cycles) == system(
                old(self)@,
                old(bus)@,
            ).execute_transfer(opcode),
    {
        proof {
            use_type_invariant(&*self);
        }
        let register = (opcode & 0x03) as usize;
        assert(opcode & 0x03 == opcode % 4) by (bit_vector);
        match opcode {
            0x10..=0x13 => {
                let value = self.fetch_byte(bus);
                self.store_register(register, value);
                2
            },
            0x14..=0x17 => {
                let address = self.fetch_word(bus);
                let value = bus.read(address);
                self.store_register(register, value);
                4
            },
            0x18..=0x1b => {
                let address = self.fetch_word(bus);
                bus.write(address, self.registers[register]);
                4
            },
            0x1c..=0x1f => {
                let value = bus.read(self.x);
                self.store_register(register, value);
                2
            },
            0x20..=0x23 => {
                bus.write(self.x, self.registers[register]);
                2
            },
            0x24..=0x27 => {
                let value = bus.read(self.y);
                self.store_register(register, value);
                2
            },
            0x28..=0x2b => {
                bus.write(self.y, self.registers[register]);
                2
            },
            0x2c..=0x2f => {
                self.push_byte(bus, self.registers[register]);
                2
            },
            _ => {
                let value = self.pop_byte(bus);
                self.store_register(register, value);
                2
            },
        }
    }

    fn execute_index(&mut self, bus: &mut AddressSpace, opcode: u8) -> (cycles: u8)
        requires
            old(bus)@.wf(),
            0x34 <= opcode < 0x40,
        ensures
            final(bus)@.wf(),
            (system(final(self)@, final(bus)@), cycles) == system(
                old(self)@,
                old(bus)@,
            ).execute_index(opcode),
    {
        proof {
            use_type_invariant(&*self);
        }
        match opcode {
            0x34 => {
                self.x = self.fetch_word(bus);
                self.set_nz_word(self.x);
                3
            },
            0x35 => {
                self.y = self.fetch_word(bus);
                self.set_nz_word(self.y);
                3
            },
            0x36 => {
                self.sp = self.fetch_word(bus);
                3
            },
            0x37 => {
                let address = self.fetch_word(bus);
                self.x = Self::read_word(bus, address);
                self.set_nz_word(self.x);
                5
            },
            0x38 => {
                let address = self.fetch_word(bus);
                self.y = Self::read_word(bus, address);
                self.set_nz_word(self.y);
                5
            },
            0x39 => {
                let address = self.fetch_word(bus);
                Self::write_word(bus, address, self.x);
                5
            },
            0x3a => {
                let address = self.fetch_word(bus);
                Self::write_word(bus, address, self.y);
                5
            },
            0x3b => {
                self.x = self.x.wrapping_add(1);
                self.set_nz_word(self.x);
                1
            },
            0x3c => {
                self.x = self.x.wrapping_sub(1);
                self.set_nz_word(self.x);
                1
            },
            0x3d => {
                self.y = self.y.wrapping_add(1);
                self.set_nz_word(self.y);
                1
            },
            0x3e => {
                self.y = self.y.wrapping_sub(1);
                self.set_nz_word(self.y);
                1
            },
            _ => {
                let x = self.x;
                self.x = self.y;
                self.y = x;
                self.set_nz_word(self.x);
                1
            },
        }
    }

    fn execute_move(&mut self, opcode: u8) -> (cycles: u8)
        requires
            0x40 <= opcode < 0x50,
        ensures
            forall|bus: AddressSpaceView|
                #![trigger system(old(self)@, bus).execute_move(opcode)]
                (system(final(self)@, bus), cycles) == system(old(self)@, bus).execute_move(opcode),
    {
        proof {
            use_type_invariant(&*self);
        }
        let destination = ((opcode >> 2) & 0x03) as usize;
        let source = (opcode & 0x03) as usize;
        assert(opcode & 0x03 == opcode % 4) by (bit_vector);
        assert((opcode >> 2) & 0x03 == (opcode / 4) % 4) by (bit_vector);
        let value = self.registers[source];
        self.store_register(destination, value);
        1
    }

    fn execute_offset(&mut self, bus: &mut AddressSpace, opcode: u8) -> (cycles: u8)
        requires
            old(bus)@.wf(),
            0x50 <= opcode < 0x60,
        ensures
            final(bus)@.wf(),
            (system(final(self)@, final(bus)@), cycles) == system(
                old(self)@,
                old(bus)@,
            ).execute_offset(opcode),
    {
        proof {
            use_type_invariant(&*self);
        }
        let register = (opcode & 0x03) as usize;
        assert(opcode & 0x03 == opcode % 4) by (bit_vector);
        match opcode {
            0x50..=0x53 => {
                let address = Self::offset_address(self.x, self.fetch_byte(bus));
                let value = bus.read(address);
                self.store_register(register, value);
                3
            },
            0x54..=0x57 => {
                let address = Self::offset_address(self.x, self.fetch_byte(bus));
                bus.write(address, self.registers[register]);
                3
            },
            0x58..=0x5b => {
                let address = Self::offset_address(self.y, self.fetch_byte(bus));
                let value = bus.read(address);
                self.store_register(register, value);
                3
            },
            _ => {
                let address = Self::offset_address(self.y, self.fetch_byte(bus));
                bus.write(address, self.registers[register]);
                3
            },
        }
    }

    fn alu(&mut self, operation: u8, value: u8)
        requires
            operation < 8,
        ensures
            final(self)@ == old(self)@.alu(operation as int, value),
    {
        proof {
            use_type_invariant(&*self);
        }
        match operation {
            0 => self.add_to_a(value, false),
            1 => {
                let carry = self.flag(FLAG_CARRY);
                self.add_to_a(value, carry);
            },
            2 => self.subtract_from_a(value, false, true),
            3 => {
                let carry = self.flag(FLAG_CARRY);
                self.subtract_from_a(value, !carry, true);
            },
            4 => {
                let result = self.registers[0] & value;
                self.logic_to_a(result);
            },
            5 => {
                let result = self.registers[0] | value;
                self.logic_to_a(result);
            },
            6 => {
                let result = self.registers[0] ^ value;
                self.logic_to_a(result);
            },
            _ => self.subtract_from_a(value, false, false),
        }
    }

    fn execute_arithmetic(&mut self, bus: &mut AddressSpace, opcode: u8) -> (cycles: u8)
        requires
            old(bus)@.wf(),
            0x60 <= opcode < 0x88,
        ensures
            final(bus)@.wf(),
            (system(final(self)@, final(bus)@), cycles) == system(
                old(self)@,
                old(bus)@,
            ).execute_arithmetic(opcode),
    {
        proof {
            use_type_invariant(&*self);
        }
        if opcode < 0x80 {
            let register = (opcode & 0x03) as usize;
            assert(opcode & 0x03 == opcode % 4) by (bit_vector);
            let value = self.registers[register];
            self.alu((opcode - 0x60) / 4, value);
            1
        } else {
            let value = self.fetch_byte(bus);
            self.alu(opcode - 0x80, value);
            2
        }
    }

    fn execute_unary(&mut self, opcode: u8) -> (cycles: u8)
        requires
            0x88 <= opcode < 0xa0,
        ensures
            forall|bus: AddressSpaceView|
                #![trigger system(old(self)@, bus).execute_unary(opcode)]
                (system(final(self)@, bus), cycles) == system(old(self)@, bus).execute_unary(opcode),
    {
        proof {
            use_type_invariant(&*self);
        }
        let register = (opcode & 0x03) as usize;
        assert(opcode & 0x03 == opcode % 4) by (bit_vector);
        let value = self.registers[register];
        let carry: u8 = if self.flag(FLAG_CARRY) {
            1
        } else {
            0
        };
        assert((value & 0x80 != 0) == (value >= 0x80) && (value & 0x01 != 0) == (value % 2 == 1)
            && (value << 1u8) == (value * 2) % 256 && (value >> 1u8) == value / 2 && (carry <= 1
            ==> ((value << 1u8) | carry) == (value * 2 + carry) % 256) && (carry <= 1 ==> ((value
            >> 1u8) | (carry << 7u8)) == value / 2 + carry * 0x80)) by (bit_vector);
        match opcode {
            0x88..=0x8b => {
                self.store_register(register, value.wrapping_add(1));
            },
            0x8c..=0x8f => {
                self.store_register(register, value.wrapping_sub(1));
            },
            0x90..=0x93 => {
                self.set_flag(FLAG_CARRY, value & 0x80 != 0);
                self.set_flag(FLAG_OVERFLOW, false);
                self.store_register(register, value << 1u8);
            },
            0x94..=0x97 => {
                self.set_flag(FLAG_CARRY, value & 0x01 != 0);
                self.set_flag(FLAG_OVERFLOW, false);
                self.store_register(register, value >> 1u8);
            },
            0x98..=0x9b => {
                self.set_flag(FLAG_CARRY, value & 0x80 != 0);
                self.set_flag(FLAG_OVERFLOW, false);
                self.store_register(register, (value << 1u8) | carry);
            },
            _ => {
                self.set_flag(FLAG_CARRY, value & 0x01 != 0);
                self.set_flag(FLAG_OVERFLOW, false);
                self.store_register(register, (value >> 1u8) | (carry << 7u8));
            },
        }
        1
    }

    fn execute_index_control(&mut self, bus: &mut AddressSpace, opcode: u8) -> (cycles: u8)
        requires
            old(bus)@.wf(),
            0xa0 <= opcode < 0xa6,
        ensures
            final(bus)@.wf(),
            (system(final(self)@, final(bus)@), cycles) == system(
                old(self)@,
                old(bus)@,
            ).execute_index_arithmetic(opcode),
    {
        proof {
            use_type_invariant(&*self);
        }
        match opcode {
            0xa0 => {
                self.x = Self::offset_address(self.x, self.fetch_byte(bus));
                self.set_nz_word(self.x);
                2
            },
            0xa1 => {
                self.y = Self::offset_address(self.y, self.fetch_byte(bus));
                self.set_nz_word(self.y);
                2
            },
            0xa2 => {
                let value = self.fetch_word(bus);
                self.compare_word(self.x, value);
                3
            },
            0xa3 => {
                let value = self.fetch_word(bus);
                self.compare_word(self.y, value);
                3
            },
            0xa4 => {
                self.pc = self.fetch_word(bus);
                3
            },
            _ => {
                let target = self.fetch_word(bus);
                self.push_word(bus, self.pc);
                self.pc = target;
                5
            },
        }
    }

    fn execute_x_transfer(&mut self, bus: &AddressSpace, opcode: u8) -> (cycles: u8)
        requires
            0xa6 <= opcode < 0xaa,
        ensures
            (system(final(self)@, bus@), cycles) == system(
                old(self)@,
                bus@,
            ).execute_index_arithmetic(opcode),
    {
        proof {
            use_type_invariant(&*self);
        }
        let a = self.registers[0];
        let x = self.x;
        proof {
            lemma_word_halves(x, a);
        }
        if opcode == 0xa6 {
            self.x = (x & 0xff00) | (a as u16);
            self.set_nz_word(self.x);
        } else if opcode == 0xa7 {
            self.x = (x & 0x00ff) | ((a as u16) << 8u16);
            self.set_nz_word(self.x);
        } else if opcode == 0xa8 {
            self.store_register(0, x as u8);
        } else {
            self.store_register(0, (x >> 8u16) as u8);
        }
        1
    }

    fn execute_y_transfer(&mut self, bus: &AddressSpace, opcode: u8) -> (cycles: u8)
        requires
            0xaa <= opcode < 0xae,
        ensures
            (system(final(self)@, bus@), cycles) == system(
                old(self)@,
                bus@,
            ).execute_index_arithmetic(opcode),
    {
        proof {
            use_type_invariant(&*self);
        }
        let a = self.registers[0];
        let y = self.y;
        proof {
            lemma_word_halves(y, a);
        }
        if opcode == 0xaa {
            self.y = (y & 0xff00) | (a as u16);
            self.set_nz_word(self.y);
        } else if opcode == 0xab {
            self.y = (y & 0x00ff) | ((a as u16) << 8u16);
            self.set_nz_word(self.y);
        } else if opcode == 0xac {
            self.store_register(0, y as u8);
        } else {
            self.store_register(0, (y >> 8u16) as u8);
        }
        1
    }

    fn execute_index_add(&mut self, bus: &AddressSpace, opcode: u8) -> (cycles: u8)
        requires
            0xae <= opcode < 0xb0,
        ensures
            (system(final(self)@, bus@), cycles) == system(
                old(self)@,
                bus@,
            ).execute_index_arithmetic(opcode),
    {
        proof {
            use_type_invariant(&*self);
        }
        let a = self.registers[0] as u16;
        if opcode == 0xae {
            let value = self.x.wrapping_add(a);
            proof {
                assert(value == wrap16(self.x + a));
            }
            self.x = value;
            self.set_nz_word(value);
        } else {
            let value = self.y.wrapping_add(a);
            proof {
                assert(value == wrap16(self.y + a));
            }
            self.y = value;
            self.set_nz_word(value);
        }
        1
    }

    fn branch_taken(&self, opcode: u8) -> (taken: bool)
        requires
            0xb0 <= opcode < 0xbf,
        ensures
            taken == branch_taken(opcode, self@.flags),
    {
        let c = self.flag(FLAG_CARRY);
        let z = self.flag(FLAG_ZERO);
        let n = self.flag(FLAG_NEGATIVE);
        let v = self.flag(FLAG_OVERFLOW);
        match opcode {
            0xb0 => true,
            0xb1 => z,
            0xb2 => !z,
            0xb3 => c,
            0xb4 => !c,
            0xb5 => n,
            0xb6 => !n,
            0xb7 => v,
            0xb8 => !v,
            0xb9 => c && !z,
            0xba => !c || z,
            0xbb => n == v,
            0xbc => n != v,
            0xbd => !z && n == v,
            _ => z || n != v,
        }
    }

    fn execute_branch(&mut self, bus: &AddressSpace, opcode: u8) -> (cycles: u8)
        requires
            bus@.wf(),
            0xb0 <= opcode < 0xbf,
        ensures
            (system(final(self)@, bus@), cycles) == system(old(self)@, bus@).execute_branch(opcode),
    {
        proof {
            use_type_invariant(&*self);
        }
        let take = self.branch_taken(opcode);
        let offset = self.fetch_byte(bus);
        if take {
            self.pc = Self::offset_address(self.pc, offset);
            3
        } else {
            2
        }
    }

    fn execute(&mut self, bus: &mut AddressSpace, instruction_pc: u16, opcode: u8) -> (result:
        Result<u8, CpuFault>)
        requires
            old(bus)@.wf(),
        ensures
            final(bus)@.wf(),
            match system(old(self)@, old(bus)@).execute(opcode) {
                Some((next, cycles)) => result == Ok::<u8, CpuFault>(cycles) && system(
                    final(self)@,
                    final(bus)@,
                ) == next,
                None => result == Err::<u8, CpuFault>(
                    CpuFault::IllegalOpcode { pc: instruction_pc, opcode },
                ) && final(self)@ == old(self)@ && final(bus)@ == old(bus)@,
            },
    {
        proof {
            use_type_invariant(&*self);
        }
        reveal(SystemView::execute);
        let cycles = if opcode < 0x10 {
            self.execute_control(bus, opcode)
        } else if opcode < 0x34 {
            self.execute_transfer(bus, opcode)
        } else if opcode < 0x40 {
            self.execute_index(bus, opcode)
        } else if opcode < 0x50 {
            self.execute_move(opcode)
        } else if opcode < 0x60 {
            self.execute_offset(bus, opcode)
        } else if opcode < 0x88 {
            self.execute_arithmetic(bus, opcode)
        } else if opcode < 0xa0 {
            self.execute_unary(opcode)
        } else if opcode < 0xa6 {
            self.execute_index_control(bus, opcode)
        } else if opcode < 0xaa {
            self.execute_x_transfer(bus, opcode)
        } else if opcode < 0xae {
            self.execute_y_transfer(bus, opcode)
        } else if opcode < 0xb0 {
            self.execute_index_add(bus, opcode)
        } else if opcode < 0xbf {
            self.execute_branch(bus, opcode)
        } else {
            return Err(CpuFault::IllegalOpcode { pc: instruction_pc, opcode });
        };
        Ok(cycles)
    }

    fn finish_step(&mut self, pc: u16, cycles: u8, kind: StepKind) -> (step: Step)
        ensures
            step == (Step { pc, cycles, kind }),
            forall|bus: AddressSpaceView|
                #![trigger system(old(self)@, bus).count_cycles(cycles)]
                system(final(self)@, bus) == system(old(self)@, bus).count_cycles(cycles),
    {
        proof {
            use_type_invariant(&*self);
        }
        self.cycles = self.cycles.wrapping_add(cycles as u64);
        Step { pc, cycles, kind }
    }

    /// Executes one instruction, services an IRQ, or idles for one cycle.
    pub fn step(&mut self, bus: &mut AddressSpace, irq: bool) -> (result: Result<Step, CpuFault>)
        requires
            old(bus)@.wf(),
        ensures
            final(bus)@.wf(),
            (system(final(self)@, final(bus)@), result) == system(old(self)@, old(bus)@).step(irq),
    {
        proof {
            use_type_invariant(&*self);
        }
        if irq && !self.flag(FLAG_INTERRUPT_DISABLE) {
            let pc = self.pc;
            self.halted = false;
            self.enter_interrupt(bus, VECTOR_IRQ);
            return Ok(self.finish_step(pc, 6, StepKind::Interrupt));
        }
        if self.halted {
            let pc = self.pc;
            return Ok(self.finish_step(pc, 1, StepKind::Halted));
        }
        let instruction_pc = self.pc;
        let opcode = self.fetch_byte(bus);
        let cycles = self.execute(bus, instruction_pc, opcode)?;
        Ok(self.finish_step(instruction_pc, cycles, StepKind::Instruction(opcode)))
    }
}

proof fn lemma_word_halves(word: u16, byte: u8)
    ensures
        (word & 0xff00) | (byte as u16) == ((word / 256) * 256 + byte) as u16,
        (word & 0x00ff) | ((byte as u16) << 8u16) == (byte * 256 + word % 256) as u16,
        (word as u8) == (word % 256) as u8,
        ((word >> 8u16) as u8) == (word / 256) as u8,
{
    assert((word & 0xff00) | (byte as u16) == (word / 256) * 256 + byte && (word & 0x00ff) | ((
    byte as u16) << 8u16) == (byte as u16) * 256 + word % 256 && (word as u8) == word % 256 && ((
    word >> 8u16) as u8) == word / 256) by (bit_vector);
}

proof fn lemma_add_overflow(left: u8, value: u8, carry: u8, result: u8)
    requires
        carry <= 1,
        result == (left + value + carry) % 256,
    ensures
        ((!(left ^ value) & (left ^ result) & 0x80u8) != 0u8) == overflows8(
            signed8(left) + signed8(value) + carry,
        ),
{
    assert(((!(left ^ value) & (left ^ result) & 0x80u8) != 0u8) == ((left < 128 && value < 128
        && result >= 128) || (left >= 128 && value >= 128 && result < 128))) by (bit_vector)
        requires
            carry <= 1,
            result == (left + value + carry) % 256,
    ;
}

proof fn lemma_subtract_overflow(left: u8, value: u8, borrow: u8, result: u8)
    requires
        borrow <= 1,
        result == (left - value - borrow) % 256,
    ensures
        (((left ^ value) & (left ^ result) & 0x80u8) != 0u8) == overflows8(
            signed8(left) - signed8(value) - borrow,
        ),
{
    assert((((left ^ value) & (left ^ result) & 0x80u8) != 0u8) == ((left < 128 && value >= 128
        && result >= 128) || (left >= 128 && value < 128 && result < 128))) by (bit_vector)
        requires
            borrow <= 1,
            result == (left - value - borrow) % 256,
    ;
}

proof fn lemma_compare_overflow(left: u16, right: u16, result: u16)
    requires
        result == (left - right) % 0x10000,
    ensures
        (((left ^ right) & (left ^ result) & 0x8000u16) != 0u16) == overflows16(
            signed16(left) - signed16(right),
        ),
{
    assert((((left ^ right) & (left ^ result) & 0x8000u16) != 0u16) == ((left < 0x8000 && right
        >= 0x8000 && result >= 0x8000) || (left >= 0x8000 && right < 0x8000 && result < 0x8000)))
        by (bit_vector)
        requires
            result == (left - right) % 0x10000,
    ;
}

} // verus!
