use lib::bus::{
    AddressSpace, LoadError, BANK_END, BANK_START, IRQ_INPUT, IRQ_MASK, IRQ_TIMER, PAGE_SIZE,
    RAM_END, RAM_START, REG_BANK_COUNT, REG_BANK_SELECT, REG_IRQ_ENABLE, REG_IRQ_PENDING,
    ROM_END, ROM_START,
};
use lib::devices::Button;

#[test]
fn pages_have_the_expected_boundaries() {
    let mut memory = AddressSpace::new(1);
    memory.load_rom(&[0x11]).unwrap();
    memory.load_bank(0, &[0x22]).unwrap();
    memory.write(RAM_START, 0x33);

    assert_eq!(memory.peek(ROM_START), 0x11);
    assert_eq!(memory.peek(ROM_END), 0xff);
    assert_eq!(memory.peek(BANK_START), 0x22);
    assert_eq!(memory.peek(BANK_END), 0xff);
    assert_eq!(memory.peek(RAM_START), 0x33);
    assert_eq!(memory.peek(RAM_END), 0x00);
    assert_eq!(memory.peek(0xcfff), 0xff);
}

#[test]
fn bank_select_wraps_to_an_available_bank() {
    let mut memory = AddressSpace::new(3);
    memory.load_bank(0, &[0xa0]).unwrap();
    memory.load_bank(1, &[0xa1]).unwrap();
    memory.load_bank(2, &[0xa2]).unwrap();

    memory.write(REG_BANK_SELECT, 2);
    assert_eq!(memory.read(BANK_START), 0xa2);
    assert_eq!(memory.read(REG_BANK_SELECT), 2);

    memory.write(REG_BANK_SELECT, 4);
    assert_eq!(memory.selected_bank(), 1);
    assert_eq!(memory.read(BANK_START), 0xa1);
}

#[test]
fn guest_writes_cannot_change_rom() {
    let mut memory = AddressSpace::new(1);
    memory.load_rom(&[0x42]).unwrap();
    memory.load_bank(0, &[0x24]).unwrap();

    memory.write(ROM_START, 0x00);
    memory.write(BANK_START, 0x00);

    assert_eq!(memory.read(ROM_START), 0x42);
    assert_eq!(memory.read(BANK_START), 0x24);
}

#[test]
fn loaders_reject_invalid_images_without_changing_memory() {
    let mut memory = AddressSpace::new(1);
    memory.load_rom(&[0x42]).unwrap();
    let oversized = vec![0; PAGE_SIZE + 1];

    assert!(matches!(memory.load_rom(&oversized), Err(LoadError::RomTooLarge { .. })));
    assert_eq!(memory.peek(ROM_START), 0x42);
    assert!(matches!(
        memory.load_bank(1, &[]),
        Err(LoadError::InvalidBank { bank: 1, bank_count: 1 })
    ));
}

#[test]
fn interrupt_registers_mask_and_clear_sources() {
    let mut memory = AddressSpace::new(1);
    memory.request_irq(IRQ_TIMER | IRQ_INPUT | 0x80);
    assert_eq!(memory.irq_pending(), IRQ_MASK);
    assert!(!memory.irq_line());

    memory.write(REG_IRQ_ENABLE, IRQ_TIMER | 0x80);
    assert!(memory.irq_line());
    assert_eq!(memory.irq_enable(), IRQ_TIMER);

    memory.write(REG_IRQ_PENDING, IRQ_TIMER);
    assert_eq!(memory.irq_pending(), IRQ_INPUT);
    assert!(!memory.irq_line());
}

#[test]
fn bank_count_register_uses_zero_for_256_banks() {
    assert_eq!(AddressSpace::new(1).bank_count_register(), 1);
    assert_eq!(AddressSpace::new(256).bank_count_register(), 0);
    assert!(matches!(AddressSpace::try_new(0), Err(LoadError::InvalidBankCount { count: 0 })));
}

#[test]
fn bank_count_above_the_limit_is_rejected() {
    assert!(matches!(
        AddressSpace::try_new(257),
        Err(LoadError::InvalidBankCount { count: 257 })
    ));
    let space = AddressSpace::try_new(256).unwrap();
    assert_eq!(space.bank_count(), 256);
    assert_eq!(space.peek(REG_BANK_COUNT), 0);
}

#[test]
fn oversized_bank_images_are_rejected() {
    let mut memory = AddressSpace::new(2);
    memory.load_bank(1, &[0x5a]).unwrap();
    let oversized = vec![0; PAGE_SIZE + 1];
    assert_eq!(
        memory.load_bank(1, &oversized),
        Err(LoadError::BankTooLarge { size: PAGE_SIZE + 1, capacity: PAGE_SIZE })
    );
    // An oversized image is reported as such even for a missing bank.
    assert_eq!(
        memory.load_bank(7, &oversized),
        Err(LoadError::BankTooLarge { size: PAGE_SIZE + 1, capacity: PAGE_SIZE })
    );
    assert_eq!(memory.bank(1).unwrap()[0], 0x5a);
    assert!(memory.bank(2).is_none());
}

#[test]
fn a_full_page_image_is_accepted() {
    let mut memory = AddressSpace::new(1);
    let image = vec![0x7e; PAGE_SIZE];
    assert_eq!(memory.load_rom(&image), Ok(()));
    assert_eq!(memory.peek(ROM_END), 0x7e);
}

#[test]
fn load_error_messages_name_the_failure() {
    assert_eq!(
        LoadError::InvalidBankCount { count: 0 }.to_string(),
        "bank count must be between 1 and 256, got 0"
    );
    assert_eq!(
        LoadError::InvalidBank { bank: 3, bank_count: 2 }.to_string(),
        "bank 3 is outside the 2-bank address space"
    );
    assert_eq!(
        LoadError::RomTooLarge { size: 16385, capacity: 16384 }.to_string(),
        "ROM image is 16385 bytes; capacity is 16384 bytes"
    );
    assert_eq!(
        LoadError::BankTooLarge { size: 20000, capacity: 16384 }.to_string(),
        "bank image is 20000 bytes; capacity is 16384 bytes"
    );
}

#[test]
fn ram_reads_back_what_was_written() {
    let mut memory = AddressSpace::new(1);
    memory.write(RAM_START + 0x123, 0x9c);
    assert_eq!(memory.read(RAM_START + 0x123), 0x9c);
    assert_eq!(memory.ram()[0x123], 0x9c);
    memory.ram_mut()[0x10] = 0x44;
    assert_eq!(memory.peek(RAM_START + 0x10), 0x44);
}

#[test]
fn reset_clears_ram_devices_and_bank_selection() {
    let mut memory = AddressSpace::new(2);
    memory.load_rom(&[0x42]).unwrap();
    memory.write(RAM_START, 0x11);
    memory.write(REG_BANK_SELECT, 1);
    memory.write(REG_IRQ_ENABLE, IRQ_TIMER);
    memory.request_irq(IRQ_TIMER);
    memory.press_button(Button::A);
    memory.write(0xd000, 0x33);

    memory.reset();

    assert_eq!(memory.peek(RAM_START), 0);
    assert_eq!(memory.selected_bank(), 0);
    assert_eq!(memory.irq_enable(), 0);
    assert_eq!(memory.irq_pending(), 0);
    assert_eq!(memory.input().state(), 0);
    assert_eq!(memory.peek(0xd000), 0);
    assert_eq!(memory.peek(ROM_START), 0x42);
}

#[test]
fn device_registers_are_routed_through_the_device_page() {
    let mut memory = AddressSpace::new(1);
    memory.write(REG_IRQ_ENABLE, IRQ_INPUT);
    memory.set_pointer(-3, 7);
    memory.press_button(Button::Start);
    assert_eq!(memory.read(0xc010), Button::Start.bit());
    assert_eq!(memory.read(0xc011), Button::Start.bit());
    assert_eq!(memory.read(0xc012) as i8, -3);
    assert_eq!(memory.read(0xc013), 7);
    assert!(memory.irq_line());
    assert_eq!(memory.read(0xc032), 128);
    assert_eq!(memory.read(0xc033), 96);
    assert_eq!(memory.read(0xc034), 1);
    assert_eq!(memory.read(0xc0ff), 0xff);
}

#[test]
fn the_timer_raises_its_irq_through_tick() {
    let mut memory = AddressSpace::new(1);
    memory.timer_mut().set_count(3);
    memory.write(0xc022, 0x01);
    memory.tick(2);
    assert_eq!(memory.irq_pending(), 0);
    memory.tick(1);
    assert_eq!(memory.irq_pending(), IRQ_TIMER);
}

#[test]
fn the_framebuffer_reads_back_what_was_written() {
    let mut memory = AddressSpace::new(1);
    memory.write(0xd005, 0x12);
    memory.write(0xffff, 0x34);
    assert_eq!(memory.peek(0xd005), 0x12);
    assert_eq!(memory.peek(0xffff), 0x34);
    assert_eq!(memory.video().read_vram(5), Some(0x12));
    assert!(memory.video().dirty());
    assert_eq!(memory.peek(0xd006), 0);
}

#[test]
fn a_repeated_press_raises_the_input_irq_again() {
    let mut memory = AddressSpace::new(1);
    memory.write(REG_IRQ_ENABLE, IRQ_INPUT);
    memory.press_button(Button::A);
    assert_eq!(memory.irq_pending(), IRQ_INPUT);
    // The guest acknowledges the interrupt but leaves the latch set.
    memory.write(REG_IRQ_PENDING, IRQ_INPUT);
    assert_eq!(memory.irq_pending(), 0);
    memory.release_button(Button::A);
    assert_eq!(memory.irq_pending(), 0);
    memory.press_button(Button::A);
    assert_eq!(memory.irq_pending(), IRQ_INPUT);
    assert!(memory.irq_line());
    // Holding the button raises nothing new.
    memory.write(REG_IRQ_PENDING, IRQ_INPUT);
    memory.set_buttons(Button::A.bit());
    assert_eq!(memory.irq_pending(), 0);
}
