use lib::isa::{
    self, family_register, mov, mov_destination, mov_source, InvalidRegister, Opcode, Register,
    ADC_BASE, ADD_BASE, AND_BASE, CMP_BASE, DEC_BASE, FLAG_MASK, FRAMEBUFFER_END,
    FRAMEBUFFER_LEN, FRAMEBUFFER_START, INC_BASE, LDI_BASE, LD_ABS_BASE, LD_X_BASE,
    LD_X_OFFSET_BASE, LD_Y_BASE, LD_Y_OFFSET_BASE, MOV_BASE, OR_BASE, POP_BASE, PUSH_BASE,
    ROL_BASE, ROR_BASE, SBC_BASE, SHL_BASE, SHR_BASE, ST_ABS_BASE, ST_X_BASE, ST_X_OFFSET_BASE,
    ST_Y_BASE, ST_Y_OFFSET_BASE, SUB_BASE, VECTOR_IRQ, VECTOR_RESET, VECTOR_SWI, XOR_BASE,
};

const REGISTERS: [Register; 4] = [Register::A, Register::B, Register::C, Register::D];

#[test]
fn register_numbers_round_trip() {
    for (index, register) in REGISTERS.into_iter().enumerate() {
        assert_eq!(register.index(), index);
        assert_eq!(Register::try_from(index as u8), Ok(register));
    }
    assert_eq!(Register::try_from(4), Err(InvalidRegister(4)));
    assert_eq!(Register::try_from(u8::MAX), Err(InvalidRegister(u8::MAX)));
}

#[test]
fn family_encodings_use_low_two_bits() {
    type RegisterEncoder = fn(Register) -> u8;
    let families: &[(u8, RegisterEncoder)] = &[
        (LDI_BASE, isa::ldi),
        (LD_ABS_BASE, isa::ld_abs),
        (ST_ABS_BASE, isa::st_abs),
        (LD_X_BASE, isa::ld_x),
        (ST_X_BASE, isa::st_x),
        (LD_Y_BASE, isa::ld_y),
        (ST_Y_BASE, isa::st_y),
        (PUSH_BASE, isa::push),
        (POP_BASE, isa::pop),
        (LD_X_OFFSET_BASE, isa::ld_x_offset),
        (ST_X_OFFSET_BASE, isa::st_x_offset),
        (LD_Y_OFFSET_BASE, isa::ld_y_offset),
        (ST_Y_OFFSET_BASE, isa::st_y_offset),
        (ADD_BASE, isa::add),
        (ADC_BASE, isa::adc),
        (SUB_BASE, isa::sub),
        (SBC_BASE, isa::sbc),
        (AND_BASE, isa::and),
        (OR_BASE, isa::or),
        (XOR_BASE, isa::xor),
        (CMP_BASE, isa::cmp),
        (INC_BASE, isa::inc),
        (DEC_BASE, isa::dec),
        (SHL_BASE, isa::shl),
        (SHR_BASE, isa::shr),
        (ROL_BASE, isa::rol),
        (ROR_BASE, isa::ror),
    ];

    for &(base, encode) in families {
        for register in REGISTERS {
            let encoded = encode(register);
            assert_eq!(encoded, base + register.code());
            assert_eq!(family_register(encoded), register);
        }
    }
}

#[test]
fn mov_encodes_both_registers_without_collisions() {
    let mut seen = [false; 16];
    for destination in REGISTERS {
        for source in REGISTERS {
            let encoded = mov(destination, source);
            assert!((MOV_BASE..=MOV_BASE + 0x0f).contains(&encoded));
            assert_eq!(mov_destination(encoded), destination);
            assert_eq!(mov_source(encoded), source);
            let slot = usize::from(encoded - MOV_BASE);
            assert!(!seen[slot]);
            seen[slot] = true;
        }
    }
    assert!(seen.into_iter().all(core::convert::identity));
}

#[test]
fn singleton_encodings_anchor_the_opcode_ranges() {
    assert_eq!(Opcode::Nop.byte(), 0x00);
    assert_eq!(Opcode::CallX.byte(), 0x0f);
    assert_eq!(Opcode::LoadXImmediate.byte(), 0x34);
    assert_eq!(Opcode::SwapXy.byte(), 0x3f);
    assert_eq!(Opcode::AddImmediate.byte(), 0x80);
    assert_eq!(Opcode::CompareImmediate.byte(), 0x87);
    assert_eq!(Opcode::AddXOffset.byte(), 0xa0);
    assert_eq!(Opcode::AddYA.byte(), 0xaf);
    assert_eq!(Opcode::BranchAlways.byte(), 0xb0);
    assert_eq!(Opcode::BranchLessOrEqual.byte(), 0xbe);
}

#[test]
fn flags_vectors_and_framebuffer_layout_are_stable() {
    assert_eq!(FLAG_MASK, 0xc7);
    assert_eq!(VECTOR_IRQ, VECTOR_SWI + 2);
    assert_eq!(VECTOR_RESET, VECTOR_IRQ + 2);
    assert_eq!(usize::from(FRAMEBUFFER_END - FRAMEBUFFER_START) + 1, FRAMEBUFFER_LEN);
    assert_eq!(FRAMEBUFFER_LEN, 12_288);
}

#[test]
fn register_conversions_agree() {
    for register in REGISTERS {
        assert_eq!(u8::from(register), register.code());
        assert_eq!(Register::from_u8(register.code()), Some(register));
    }
    assert_eq!(Register::from_u8(4), None);
    assert_eq!(u8::from(Opcode::Rti), 0x04);
    assert_eq!(InvalidRegister(9).to_string(), "invalid ZT8 register number: 9");
}

#[test]
fn invalid_register_messages_write_the_number_in_decimal() {
    assert_eq!(InvalidRegister(0).to_string(), "invalid ZT8 register number: 0");
    assert_eq!(InvalidRegister(255).to_string(), "invalid ZT8 register number: 255");
}

#[test]
fn register_decoding_masks_the_family_bits() {
    assert_eq!(family_register(0xff), Register::D);
    assert_eq!(family_register(0x12), Register::C);
    assert_eq!(mov(Register::C, Register::B), 0x49);
    assert_eq!(mov_destination(0x49), Register::C);
    assert_eq!(mov_source(0x49), Register::B);
    assert_eq!(isa::ldi(Register::D), 0x13);
    assert_eq!(isa::ror(Register::A), 0x9c);
}
