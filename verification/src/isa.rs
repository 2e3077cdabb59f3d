//! ZT8 instruction-set constants and encoding helpers.
//!
//! ZT8 is an eight-bit, little-endian CPU with four byte registers
//! ([`Register::A`] through [`Register::D`]), two 16-bit address registers
//! (`X` and `Y`), a 16-bit descending stack pointer, and a 16-bit program
//! counter. Multi-byte instruction operands are stored least-significant byte
//! first.
//!
//! Opcode families put a register number in the low two bits. [`mov`] uses
//! bits 3..2 for the destination and bits 1..0 for the source. Singleton
//! instructions are represented by [`Opcode`]; the family base constants and
//! encoding functions cover the remaining assigned opcodes. Values `0xbf` and
//! `0xc0..=0xff` are reserved.
//!
//! The stack grows downward from its reset value of `0xc000`: a byte push
//! decrements SP before writing and a pop reads before incrementing. A word is
//! pushed high byte first and then low byte. IRQ and SWI push PC followed by
//! flags, set the interrupt-disable flag, and load their respective vector;
//! RTI pops flags and then PC.
use vstd::prelude::*;

use crate::text::decimal;

verus! {

/// Carry flag. For subtraction, set means that no borrow occurred.
pub const FLAG_CARRY: u8 = 0x01;

/// Zero-result flag.
pub const FLAG_ZERO: u8 = 0x02;

/// Maskable-interrupt disable flag.
pub const FLAG_INTERRUPT_DISABLE: u8 = 0x04;

/// Signed arithmetic overflow flag.
pub const FLAG_OVERFLOW: u8 = 0x40;

/// Negative-result flag (the most-significant result bit).
pub const FLAG_NEGATIVE: u8 = 0x80;

/// Mask of all defined status bits. Undefined bits always read as zero.
pub const FLAG_MASK: u8 = 0xc7;

/// Little-endian software-interrupt vector in fixed ROM.
pub const VECTOR_SWI: u16 = 0x3ffa;

/// Little-endian maskable-interrupt vector in fixed ROM.
pub const VECTOR_IRQ: u16 = 0x3ffc;

/// Little-endian reset vector in fixed ROM.
pub const VECTOR_RESET: u16 = 0x3ffe;

/// Size of one of the four address-space pages.
pub const PAGE_SIZE: usize = 0x4000;

pub const FIXED_ROM_START: u16 = 0x0000;

pub const FIXED_ROM_END: u16 = 0x3fff;

pub const BANK_WINDOW_START: u16 = 0x4000;

pub const BANK_WINDOW_END: u16 = 0x7fff;

pub const RAM_START: u16 = 0x8000;

pub const RAM_END: u16 = 0xbfff;

pub const DEVICE_PAGE_START: u16 = 0xc000;

pub const DEVICE_PAGE_END: u16 = 0xffff;

pub const MMIO_START: u16 = 0xc000;

pub const MMIO_END: u16 = 0xc0ff;

pub const FRAMEBUFFER_START: u16 = 0xd000;

pub const FRAMEBUFFER_END: u16 = 0xffff;

pub const FRAMEBUFFER_WIDTH: usize = 128;

pub const FRAMEBUFFER_HEIGHT: usize = 96;

pub const FRAMEBUFFER_LEN: usize = 12288;

/// An eight-bit general-purpose register.
#[derive(Clone, Copy, Debug, Eq, Hash, Ord, PartialEq, PartialOrd, Structural)]
pub enum Register {
    A,
    B,
    C,
    D,
}

/// The register whose number is `value % 4`.
pub open spec fn register_of(value: int) -> Register {
    if value % 4 == 0 {
        Register::A
    } else if value % 4 == 1 {
        Register::B
    } else if value % 4 == 2 {
        Register::C
    } else {
        Register::D
    }
}

impl Register {
    /// The register's two-bit instruction encoding.
    pub open spec fn spec_code(self) -> u8 {
        match self {
            Register::A => 0,
            Register::B => 1,
            Register::C => 2,
            Register::D => 3,
        }
    }

    /// The register's two-bit instruction encoding.
    #[verifier::when_used_as_spec(spec_code)]
    pub fn code(self) -> (code: u8)
        ensures
            code == self.spec_code(),
            code < 4,
    {
        match self {
            Register::A => 0,
            Register::B => 1,
            Register::C => 2,
            Register::D => 3,
        }
    }

    /// The register's index in a four-element register file.
    pub fn index(self) -> (index: usize)
        ensures
            index == self.spec_code(),
            index < 4,
    {
        match self {
            Register::A => 0,
            Register::B => 1,
            Register::C => 2,
            Register::D => 3,
        }
    }

    /// Decodes a complete register number. Values with any higher bits set are
    /// rejected rather than silently masked.
    pub fn from_u8(value: u8) -> (register: Option<Register>)
        ensures
            register == (if value < 4 {
                Some(register_of(value as int))
            } else {
                None::<Register>
            }),
    {
        match value {
            0 => Some(Register::A),
            1 => Some(Register::B),
            2 => Some(Register::C),
            3 => Some(Register::D),
            _ => None,
        }
    }
}

/// Decoding a register's number gives the register back, and encoding a
/// decoded number gives the number back: the two maps are inverse bijections
/// between the registers and `0..4`.
pub proof fn lemma_register_code_round_trip(register: Register, value: u8)
    ensures
        register_of(register.spec_code() as int) == register,
        value < 4 ==> register_of(value as int).spec_code() == value,
{
}

/// Error returned when a byte is not a valid ZT8 register number.
#[derive(Clone, Copy, Debug, Eq, PartialEq, Structural)]
pub struct InvalidRegister(pub u8);

impl InvalidRegister {
    /// Human-readable description of the error.
    pub fn to_string(&self) -> (text: String)
        ensures
            text@ == invalid_register_text(self.0),
    {
        invalid_register_message(self.0)
    }
}

/// The message for an invalid register number:
/// `invalid ZT8 register number: {value}`.
pub open spec fn invalid_register_text(value: u8) -> Seq<char> {
    "invalid ZT8 register number: "@ + decimal(value as nat)
}

/// Formats the message for an invalid register number with `format!`, which
/// writes the number in decimal digits.
#[verifier::external_body]
fn invalid_register_message(value: u8) -> (text: String)
    ensures
        text@ == invalid_register_text(value),
{
    format!("invalid ZT8 register number: {}", value)
}

impl core::convert::TryFrom<u8> for Register {
    type Error = InvalidRegister;

    fn try_from(value: u8) -> (result: Result<Register, InvalidRegister>) {
        match Register::from_u8(value) {
            Some(register) => Ok(register),
            None => Err(InvalidRegister(value)),
        }
    }
}

impl vstd::std_specs::convert::TryFromSpecImpl<u8> for Register {
    open spec fn obeys_try_from_spec() -> bool {
        true
    }

    open spec fn try_from_spec(value: u8) -> Result<Register, InvalidRegister> {
        if value < 4 {
            Ok(register_of(value as int))
        } else {
            Err(InvalidRegister(value))
        }
    }
}

impl core::convert::From<Register> for u8 {
    fn from(register: Register) -> (code: u8) {
        register.code()
    }
}

impl vstd::std_specs::convert::FromSpecImpl<Register> for u8 {
    open spec fn obeys_from_spec() -> bool {
        true
    }

    open spec fn from_spec(register: Register) -> u8 {
        register.spec_code()
    }
}

/// Opcodes that do not encode an eight-bit register in their opcode byte.
#[derive(Clone, Copy, Debug, Eq, Hash, PartialEq, Structural)]
pub enum Opcode {
    Nop,
    Halt,
    Swi,
    Ret,
    Rti,
    Clc,
    Sec,
    Cli,
    Sei,
    Clv,
    PushFlags,
    PopFlags,
    Tsx,
    Txs,
    JumpX,
    CallX,
    LoadXImmediate,
    LoadYImmediate,
    LoadSpImmediate,
    LoadXAbsolute,
    LoadYAbsolute,
    StoreXAbsolute,
    StoreYAbsolute,
    IncrementX,
    DecrementX,
    IncrementY,
    DecrementY,
    SwapXy,
    AddImmediate,
    AddCarryImmediate,
    SubtractImmediate,
    SubtractCarryImmediate,
    AndImmediate,
    OrImmediate,
    XorImmediate,
    CompareImmediate,
    AddXOffset,
    AddYOffset,
    CompareXImmediate,
    CompareYImmediate,
    JumpAbsolute,
    CallAbsolute,
    LoadXLowA,
    LoadXHighA,
    LoadALowX,
    LoadAHighX,
    LoadYLowA,
    LoadYHighA,
    LoadALowY,
    LoadAHighY,
    AddXA,
    AddYA,
    BranchAlways,
    BranchEqual,
    BranchNotEqual,
    BranchCarrySet,
    BranchCarryClear,
    BranchMinus,
    BranchPlus,
    BranchOverflowSet,
    BranchOverflowClear,
    BranchHigher,
    BranchLowerOrSame,
    BranchGreaterOrEqual,
    BranchLessThan,
    BranchGreaterThan,
    BranchLessOrEqual,
}

impl Opcode {
    /// The opcode's byte in the instruction stream.
    pub open spec fn spec_byte(self) -> u8 {
        match self {
            Opcode::Nop => 0x00,
            Opcode::Halt => 0x01,
            Opcode::Swi => 0x02,
            Opcode::Ret => 0x03,
            Opcode::Rti => 0x04,
            Opcode::Clc => 0x05,
            Opcode::Sec => 0x06,
            Opcode::Cli => 0x07,
            Opcode::Sei => 0x08,
            Opcode::Clv => 0x09,
            Opcode::PushFlags => 0x0a,
            Opcode::PopFlags => 0x0b,
            Opcode::Tsx => 0x0c,
            Opcode::Txs => 0x0d,
            Opcode::JumpX => 0x0e,
            Opcode::CallX => 0x0f,
            Opcode::LoadXImmediate => 0x34,
            Opcode::LoadYImmediate => 0x35,
            Opcode::LoadSpImmediate => 0x36,
            Opcode::LoadXAbsolute => 0x37,
            Opcode::LoadYAbsolute => 0x38,
            Opcode::StoreXAbsolute => 0x39,
            Opcode::StoreYAbsolute => 0x3a,
            Opcode::IncrementX => 0x3b,
            Opcode::DecrementX => 0x3c,
            Opcode::IncrementY => 0x3d,
            Opcode::DecrementY => 0x3e,
            Opcode::SwapXy => 0x3f,
            Opcode::AddImmediate => 0x80,
            Opcode::AddCarryImmediate => 0x81,
            Opcode::SubtractImmediate => 0x82,
            Opcode::SubtractCarryImmediate => 0x83,
            Opcode::AndImmediate => 0x84,
            Opcode::OrImmediate => 0x85,
            Opcode::XorImmediate => 0x86,
            Opcode::CompareImmediate => 0x87,
            Opcode::AddXOffset => 0xa0,
            Opcode::AddYOffset => 0xa1,
            Opcode::CompareXImmediate => 0xa2,
            Opcode::CompareYImmediate => 0xa3,
            Opcode::JumpAbsolute => 0xa4,
            Opcode::CallAbsolute => 0xa5,
            Opcode::LoadXLowA => 0xa6,
            Opcode::LoadXHighA => 0xa7,
            Opcode::LoadALowX => 0xa8,
            Opcode::LoadAHighX => 0xa9,
            Opcode::LoadYLowA => 0xaa,
            Opcode::LoadYHighA => 0xab,
            Opcode::LoadALowY => 0xac,
            Opcode::LoadAHighY => 0xad,
            Opcode::AddXA => 0xae,
            Opcode::AddYA => 0xaf,
            Opcode::BranchAlways => 0xb0,
            Opcode::BranchEqual => 0xb1,
            Opcode::BranchNotEqual => 0xb2,
            Opcode::BranchCarrySet => 0xb3,
            Opcode::BranchCarryClear => 0xb4,
            Opcode::BranchMinus => 0xb5,
            Opcode::BranchPlus => 0xb6,
            Opcode::BranchOverflowSet => 0xb7,
            Opcode::BranchOverflowClear => 0xb8,
            Opcode::BranchHigher => 0xb9,
            Opcode::BranchLowerOrSame => 0xba,
            Opcode::BranchGreaterOrEqual => 0xbb,
            Opcode::BranchLessThan => 0xbc,
            Opcode::BranchGreaterThan => 0xbd,
            Opcode::BranchLessOrEqual => 0xbe,
        }
    }

    #[verifier::when_used_as_spec(spec_byte)]
    pub fn byte(self) -> (byte: u8)
        ensures
            byte == self.spec_byte(),
    {
        match self {
            Opcode::Nop => 0x00,
            Opcode::Halt => 0x01,
            Opcode::Swi => 0x02,
            Opcode::Ret => 0x03,
            Opcode::Rti => 0x04,
            Opcode::Clc => 0x05,
            Opcode::Sec => 0x06,
            Opcode::Cli => 0x07,
            Opcode::Sei => 0x08,
            Opcode::Clv => 0x09,
            Opcode::PushFlags => 0x0a,
            Opcode::PopFlags => 0x0b,
            Opcode::Tsx => 0x0c,
            Opcode::Txs => 0x0d,
            Opcode::JumpX => 0x0e,
            Opcode::CallX => 0x0f,
            Opcode::LoadXImmediate => 0x34,
            Opcode::LoadYImmediate => 0x35,
            Opcode::LoadSpImmediate => 0x36,
            Opcode::LoadXAbsolute => 0x37,
            Opcode::LoadYAbsolute => 0x38,
            Opcode::StoreXAbsolute => 0x39,
            Opcode::StoreYAbsolute => 0x3a,
            Opcode::IncrementX => 0x3b,
            Opcode::DecrementX => 0x3c,
            Opcode::IncrementY => 0x3d,
            Opcode::DecrementY => 0x3e,
            Opcode::SwapXy => 0x3f,
            Opcode::AddImmediate => 0x80,
            Opcode::AddCarryImmediate => 0x81,
            Opcode::SubtractImmediate => 0x82,
            Opcode::SubtractCarryImmediate => 0x83,
            Opcode::AndImmediate => 0x84,
            Opcode::OrImmediate => 0x85,
            Opcode::XorImmediate => 0x86,
            Opcode::CompareImmediate => 0x87,
            Opcode::AddXOffset => 0xa0,
            Opcode::AddYOffset => 0xa1,
            Opcode::CompareXImmediate => 0xa2,
            Opcode::CompareYImmediate => 0xa3,
            Opcode::JumpAbsolute => 0xa4,
            Opcode::CallAbsolute => 0xa5,
            Opcode::LoadXLowA => 0xa6,
            Opcode::LoadXHighA => 0xa7,
            Opcode::LoadALowX => 0xa8,
            Opcode::LoadAHighX => 0xa9,
            Opcode::LoadYLowA => 0xaa,
            Opcode::LoadYHighA => 0xab,
            Opcode::LoadALowY => 0xac,
            Opcode::LoadAHighY => 0xad,
            Opcode::AddXA => 0xae,
            Opcode::AddYA => 0xaf,
            Opcode::BranchAlways => 0xb0,
            Opcode::BranchEqual => 0xb1,
            Opcode::BranchNotEqual => 0xb2,
            Opcode::BranchCarrySet => 0xb3,
            Opcode::BranchCarryClear => 0xb4,
            Opcode::BranchMinus => 0xb5,
            Opcode::BranchPlus => 0xb6,
            Opcode::BranchOverflowSet => 0xb7,
            Opcode::BranchOverflowClear => 0xb8,
            Opcode::BranchHigher => 0xb9,
            Opcode::BranchLowerOrSame => 0xba,
            Opcode::BranchGreaterOrEqual => 0xbb,
            Opcode::BranchLessThan => 0xbc,
            Opcode::BranchGreaterThan => 0xbd,
            Opcode::BranchLessOrEqual => 0xbe,
        }
    }
}

impl core::convert::From<Opcode> for u8 {
    fn from(opcode: Opcode) -> (byte: u8) {
        opcode.byte()
    }
}

impl vstd::std_specs::convert::FromSpecImpl<Opcode> for u8 {
    open spec fn obeys_from_spec() -> bool {
        true
    }

    open spec fn from_spec(opcode: Opcode) -> u8 {
        opcode.spec_byte()
    }
}

pub const REGISTER_MASK: u8 = 0x03;
pub const LDI_BASE: u8 = 0x10;
pub const LD_ABS_BASE: u8 = 0x14;
pub const ST_ABS_BASE: u8 = 0x18;
pub const LD_X_BASE: u8 = 0x1c;
pub const ST_X_BASE: u8 = 0x20;
pub const LD_Y_BASE: u8 = 0x24;
pub const ST_Y_BASE: u8 = 0x28;
pub const PUSH_BASE: u8 = 0x2c;
pub const POP_BASE: u8 = 0x30;
pub const MOV_BASE: u8 = 0x40;
pub const LD_X_OFFSET_BASE: u8 = 0x50;
pub const ST_X_OFFSET_BASE: u8 = 0x54;
pub const LD_Y_OFFSET_BASE: u8 = 0x58;
pub const ST_Y_OFFSET_BASE: u8 = 0x5c;
pub const ADD_BASE: u8 = 0x60;
pub const ADC_BASE: u8 = 0x64;
pub const SUB_BASE: u8 = 0x68;
pub const SBC_BASE: u8 = 0x6c;
pub const AND_BASE: u8 = 0x70;
pub const OR_BASE: u8 = 0x74;
pub const XOR_BASE: u8 = 0x78;
pub const CMP_BASE: u8 = 0x7c;
pub const INC_BASE: u8 = 0x88;
pub const DEC_BASE: u8 = 0x8c;
pub const SHL_BASE: u8 = 0x90;
pub const SHR_BASE: u8 = 0x94;
pub const ROL_BASE: u8 = 0x98;
pub const ROR_BASE: u8 = 0x9c;

/// Whether `base` is the first opcode of a four-opcode register family.
pub open spec fn is_family_base(base: u8) -> bool {
    base % 4 == 0 && base <= 0xfc
}

/// The opcode of the family starting at `base` for `register`.
pub open spec fn family_opcode(base: u8, register: Register) -> u8 {
    (base + register.spec_code()) as u8
}

fn register_opcode(base: u8, register: Register) -> (opcode: u8)
    requires
        is_family_base(base),
    ensures
        opcode == family_opcode(base, register),
{
    let code = register.code();
    assert(base % 4 == 0 && code < 4 ==> base | code == base + code) by (bit_vector);
    base | code
}

/// Loads an immediate byte into `register`.
pub fn ldi(register: Register) -> (opcode: u8)
    ensures
        opcode == family_opcode(LDI_BASE, register),
{
    register_opcode(LDI_BASE, register)
}

/// Loads `register` from a 16-bit absolute address.
pub fn ld_abs(register: Register) -> (opcode: u8)
    ensures
        opcode == family_opcode(LD_ABS_BASE, register),
{
    register_opcode(LD_ABS_BASE, register)
}

/// Stores `register` at a 16-bit absolute address.
pub fn st_abs(register: Register) -> (opcode: u8)
    ensures
        opcode == family_opcode(ST_ABS_BASE, register),
{
    register_opcode(ST_ABS_BASE, register)
}

/// Loads `register` through X.
pub fn ld_x(register: Register) -> (opcode: u8)
    ensures
        opcode == family_opcode(LD_X_BASE, register),
{
    register_opcode(LD_X_BASE, register)
}

/// Stores `register` through X.
pub fn st_x(register: Register) -> (opcode: u8)
    ensures
        opcode == family_opcode(ST_X_BASE, register),
{
    register_opcode(ST_X_BASE, register)
}

/// Loads `register` through Y.
pub fn ld_y(register: Register) -> (opcode: u8)
    ensures
        opcode == family_opcode(LD_Y_BASE, register),
{
    register_opcode(LD_Y_BASE, register)
}

/// Stores `register` through Y.
pub fn st_y(register: Register) -> (opcode: u8)
    ensures
        opcode == family_opcode(ST_Y_BASE, register),
{
    register_opcode(ST_Y_BASE, register)
}

pub fn push(register: Register) -> (opcode: u8)
    ensures
        opcode == family_opcode(PUSH_BASE, register),
{
    register_opcode(PUSH_BASE, register)
}

pub fn pop(register: Register) -> (opcode: u8)
    ensures
        opcode == family_opcode(POP_BASE, register),
{
    register_opcode(POP_BASE, register)
}

/// Loads through X plus a following signed byte offset.
pub fn ld_x_offset(register: Register) -> (opcode: u8)
    ensures
        opcode == family_opcode(LD_X_OFFSET_BASE, register),
{
    register_opcode(LD_X_OFFSET_BASE, register)
}

/// Stores through X plus a following signed byte offset.
pub fn st_x_offset(register: Register) -> (opcode: u8)
    ensures
        opcode == family_opcode(ST_X_OFFSET_BASE, register),
{
    register_opcode(ST_X_OFFSET_BASE, register)
}

/// Loads through Y plus a following signed byte offset.
pub fn ld_y_offset(register: Register) -> (opcode: u8)
    ensures
        opcode == family_opcode(LD_Y_OFFSET_BASE, register),
{
    register_opcode(LD_Y_OFFSET_BASE, register)
}

/// Stores through Y plus a following signed byte offset.
pub fn st_y_offset(register: Register) -> (opcode: u8)
    ensures
        opcode == family_opcode(ST_Y_OFFSET_BASE, register),
{
    register_opcode(ST_Y_OFFSET_BASE, register)
}

pub fn add(register: Register) -> (opcode: u8)
    ensures
        opcode == family_opcode(ADD_BASE, register),
{
    register_opcode(ADD_BASE, register)
}

pub fn adc(register: Register) -> (opcode: u8)
    ensures
        opcode == family_opcode(ADC_BASE, register),
{
    register_opcode(ADC_BASE, register)
}

pub fn sub(register: Register) -> (opcode: u8)
    ensures
        opcode == family_opcode(SUB_BASE, register),
{
    register_opcode(SUB_BASE, register)
}

pub fn sbc(register: Register) -> (opcode: u8)
    ensures
        opcode == family_opcode(SBC_BASE, register),
{
    register_opcode(SBC_BASE, register)
}

pub fn and(register: Register) -> (opcode: u8)
    ensures
        opcode == family_opcode(AND_BASE, register),
{
    register_opcode(AND_BASE, register)
}

pub fn or(register: Register) -> (opcode: u8)
    ensures
        opcode == family_opcode(OR_BASE, register),
{
    register_opcode(OR_BASE, register)
}

pub fn xor(register: Register) -> (opcode: u8)
    ensures
        opcode == family_opcode(XOR_BASE, register),
{
    register_opcode(XOR_BASE, register)
}

pub fn cmp(register: Register) -> (opcode: u8)
    ensures
        opcode == family_opcode(CMP_BASE, register),
{
    register_opcode(CMP_BASE, register)
}

pub fn inc(register: Register) -> (opcode: u8)
    ensures
        opcode == family_opcode(INC_BASE, register),
{
    register_opcode(INC_BASE, register)
}

pub fn dec(register: Register) -> (opcode: u8)
    ensures
        opcode == family_opcode(DEC_BASE, register),
{
    register_opcode(DEC_BASE, register)
}

pub fn shl(register: Register) -> (opcode: u8)
    ensures
        opcode == family_opcode(SHL_BASE, register),
{
    register_opcode(SHL_BASE, register)
}

pub fn shr(register: Register) -> (opcode: u8)
    ensures
        opcode == family_opcode(SHR_BASE, register),
{
    register_opcode(SHR_BASE, register)
}

pub fn rol(register: Register) -> (opcode: u8)
    ensures
        opcode == family_opcode(ROL_BASE, register),
{
    register_opcode(ROL_BASE, register)
}

pub fn ror(register: Register) -> (opcode: u8)
    ensures
        opcode == family_opcode(ROR_BASE, register),
{
    register_opcode(ROR_BASE, register)
}

/// The MOV opcode with `destination` in bits 3..2 and `source` in bits 1..0.
pub open spec fn mov_opcode(destination: Register, source: Register) -> u8 {
    (MOV_BASE + destination.spec_code() * 4 + source.spec_code()) as u8
}

/// Encodes `MOV destination, source`.
pub fn mov(destination: Register, source: Register) -> (opcode: u8)
    ensures
        opcode == mov_opcode(destination, source),
{
    let d = destination.code();
    let s = source.code();
    assert(d < 4 && s < 4 ==> (0x40u8 | (d << 2u8)) | s == 0x40 + d * 4 + s) by (bit_vector);
    MOV_BASE | (d << 2u8) | s
}

/// Extracts the register encoded in the low two bits of a family opcode.
pub fn family_register(opcode: u8) -> (register: Register)
    ensures
        register == register_of(opcode as int),
{
    // Masking makes every input valid.
    assert(opcode & REGISTER_MASK == opcode % 4) by (bit_vector);
    match opcode & REGISTER_MASK {
        0 => Register::A,
        1 => Register::B,
        2 => Register::C,
        _ => Register::D,
    }
}

/// Extracts the destination register from a MOV opcode.
pub fn mov_destination(opcode: u8) -> (register: Register)
    ensures
        register == register_of(opcode as int / 4),
{
    assert(opcode >> 2u8 == opcode / 4) by (bit_vector);
    family_register(opcode >> 2u8)
}

/// Extracts the source register from a MOV opcode.
pub fn mov_source(opcode: u8) -> (register: Register)
    ensures
        register == register_of(opcode as int),
{
    family_register(opcode)
}

/// Decoding a family opcode gives back the register it was encoded with.
pub proof fn lemma_family_round_trip(base: u8, register: Register)
    requires
        is_family_base(base),
    ensures
        register_of(family_opcode(base, register) as int) == register,
        family_opcode(base, register) - base == register.spec_code(),
{
}

/// MOV encodes both registers without collisions: decoding gives back the
/// destination and the source, the opcode lies in `0x40..=0x4f`, and two
/// different register pairs never share an opcode.
pub proof fn lemma_mov_round_trip(
    destination: Register,
    source: Register,
    other_destination: Register,
    other_source: Register,
)
    ensures
        register_of(mov_opcode(destination, source) as int / 4) == destination,
        register_of(mov_opcode(destination, source) as int) == source,
        MOV_BASE <= mov_opcode(destination, source) <= MOV_BASE + 0x0f,
        mov_opcode(destination, source) == mov_opcode(other_destination, other_source) ==> (
        destination == other_destination && source == other_source),
{
}

} // verus!
