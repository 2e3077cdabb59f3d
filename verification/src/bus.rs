//! ZT8's concrete 64 KiB address space.
//!
//! The address space is split into four 16 KiB pages. The first page is the
//! fixed ROM, the second is a selectable ROM bank, the third is RAM, and the
//! final page contains memory-mapped devices and video memory.
use vstd::prelude::*;

use crate::devices::{
    Button, InputDevice, InputState, TimerDevice, TimerState, VideoDevice, VideoState, VRAM_SIZE,
};
use crate::text::decimal;

verus! {

broadcast use vstd::array::group_array_axioms;

pub const PAGE_SIZE: usize = 0x4000;

pub const VIDEO_MEMORY_SIZE: usize = 0x3000;

pub const ROM_START: u16 = 0x0000;

pub const ROM_END: u16 = 0x3fff;

pub const BANK_START: u16 = 0x4000;

pub const BANK_END: u16 = 0x7fff;

pub const RAM_START: u16 = 0x8000;

pub const RAM_END: u16 = 0xbfff;

pub const IO_START: u16 = 0xc000;

pub const IO_END: u16 = 0xffff;

pub const REG_BANK_SELECT: u16 = 0xc000;

pub const REG_BANK_COUNT: u16 = 0xc001;

pub const REG_IRQ_ENABLE: u16 = 0xc002;

pub const REG_IRQ_PENDING: u16 = 0xc003;

pub const INPUT_REG_START: u16 = 0xc010;

pub const INPUT_REG_END: u16 = 0xc013;

pub const TIMER_REG_START: u16 = 0xc020;

pub const TIMER_REG_END: u16 = 0xc024;

pub const VIDEO_REG_START: u16 = 0xc030;

pub const VIDEO_REG_END: u16 = 0xc034;

pub const VIDEO_MEMORY_START: u16 = 0xd000;

pub const VIDEO_MEMORY_END: u16 = 0xffff;

pub const IRQ_TIMER: u8 = 0x01;

pub const IRQ_INPUT: u8 = 0x02;

pub const IRQ_MASK: u8 = 0x03;

const UNMAPPED_VALUE: u8 = 0xff;

/// A failure to construct or load part of an address space.
#[derive(Clone, Copy, Debug, Eq, PartialEq, Structural)]
pub enum LoadError {
    InvalidBankCount { count: usize },
    InvalidBank { bank: usize, bank_count: usize },
    RomTooLarge { size: usize, capacity: usize },
    BankTooLarge { size: usize, capacity: usize },
}

impl LoadError {
    /// The description of the error that [`LoadError::to_string`] gives.
    pub open spec fn message(self) -> Seq<char> {
        match self {
            LoadError::InvalidBankCount { count } => bank_count_text(count),
            LoadError::InvalidBank { bank, bank_count } => bank_text(bank, bank_count),
            LoadError::RomTooLarge { size, capacity } => rom_too_large_text(size, capacity),
            LoadError::BankTooLarge { size, capacity } => bank_too_large_text(size, capacity),
        }
    }

    /// Human-readable description of the error.
    pub fn to_string(&self) -> (text: String)
        ensures
            text@ == self.message(),
    {
        match *self {
            LoadError::InvalidBankCount { count } => invalid_bank_count_message(count),
            LoadError::InvalidBank { bank, bank_count } => invalid_bank_message(bank, bank_count),
            LoadError::RomTooLarge { size, capacity } => rom_too_large_message(size, capacity),
            LoadError::BankTooLarge { size, capacity } => bank_too_large_message(size, capacity),
        }
    }
}

/// The message for a bank count outside `1..=256`:
/// `bank count must be between 1 and 256, got {count}`.
pub open spec fn bank_count_text(count: usize) -> Seq<char> {
    "bank count must be between 1 and 256, got "@ + decimal(count as nat)
}

/// The message for a bank index outside the installed banks:
/// `bank {bank} is outside the {bank_count}-bank address space`.
pub open spec fn bank_text(bank: usize, bank_count: usize) -> Seq<char> {
    "bank "@ + decimal(bank as nat) + " is outside the "@ + decimal(bank_count as nat)
        + "-bank address space"@
}

/// The message for an oversized ROM image:
/// `ROM image is {size} bytes; capacity is {capacity} bytes`.
pub open spec fn rom_too_large_text(size: usize, capacity: usize) -> Seq<char> {
    "ROM image is "@ + decimal(size as nat) + " bytes; capacity is "@ + decimal(capacity as nat)
        + " bytes"@
}

/// The message for an oversized bank image:
/// `bank image is {size} bytes; capacity is {capacity} bytes`.
pub open spec fn bank_too_large_text(size: usize, capacity: usize) -> Seq<char> {
    "bank image is "@ + decimal(size as nat) + " bytes; capacity is "@ + decimal(
        capacity as nat,
    ) + " bytes"@
}

/// Formats the message for a bank count outside `1..=256` with `format!`,
/// which writes the count in decimal digits.
#[verifier::external_body]
fn invalid_bank_count_message(count: usize) -> (text: String)
    ensures
        text@ == bank_count_text(count),
{
    format!("bank count must be between 1 and 256, got {count}")
}

/// Formats the message for a bank index outside the installed banks with
/// `format!`, which writes both numbers in decimal digits.
#[verifier::external_body]
fn invalid_bank_message(bank: usize, bank_count: usize) -> (text: String)
    ensures
        text@ == bank_text(bank, bank_count),
{
    format!("bank {bank} is outside the {bank_count}-bank address space")
}

/// Formats the message for an oversized ROM image with `format!`, which
/// writes both sizes in decimal digits.
#[verifier::external_body]
fn rom_too_large_message(size: usize, capacity: usize) -> (text: String)
    ensures
        text@ == rom_too_large_text(size, capacity),
{
    format!("ROM image is {size} bytes; capacity is {capacity} bytes")
}

/// Formats the message for an oversized bank image with `format!`, which
/// writes both sizes in decimal digits.
#[verifier::external_body]
fn bank_too_large_message(size: usize, capacity: usize) -> (text: String)
    ensures
        text@ == bank_too_large_text(size, capacity),
{
    format!("bank image is {size} bytes; capacity is {capacity} bytes")
}

/// A ROM page image padded with `0xff` to the full page size.
pub open spec fn padded_page(image: Seq<u8>) -> Seq<u8> {
    Seq::new(PAGE_SIZE as nat, |i: int| if i < image.len() { image[i] } else { 0xffu8 })
}

/// The abstract state of an [`AddressSpace`].
#[verifier::ext_equal]
pub struct AddressSpaceView {
    pub rom: Seq<u8>,
    pub banks: Seq<Seq<u8>>,
    pub ram: Seq<u8>,
    pub input: InputState,
    pub timer: TimerState,
    pub video: VideoState,
    pub selected_bank: u8,
    pub irq_enable: u8,
    pub irq_pending: u8,
}

impl AddressSpaceView {
    /// The shape every address space keeps: full pages, between 1 and 256
    /// banks, a selected bank that exists, a full framebuffer, and interrupt
    /// registers that only hold the defined source bits.
    pub open spec fn wf(self) -> bool {
        &&& self.rom.len() == PAGE_SIZE
        &&& self.ram.len() == PAGE_SIZE
        &&& 1 <= self.banks.len() <= 256
        &&& forall|b: int| 0 <= b < self.banks.len() ==> #[trigger] self.banks[b].len() == PAGE_SIZE
        &&& self.selected_bank < self.banks.len()
        &&& self.video.pixels.len() == VRAM_SIZE
        &&& self.irq_enable & IRQ_MASK == self.irq_enable
        &&& self.irq_pending & IRQ_MASK == self.irq_pending
    }

    /// A freshly built address space with `bank_count` banks.
    pub open spec fn initial(bank_count: nat) -> AddressSpaceView {
        AddressSpaceView {
            rom: Seq::new(PAGE_SIZE as nat, |i: int| 0xffu8),
            banks: Seq::new(bank_count, |b: int| Seq::new(PAGE_SIZE as nat, |i: int| 0xffu8)),
            ram: Seq::new(PAGE_SIZE as nat, |i: int| 0u8),
            input: InputState::initial(),
            timer: TimerState::initial(),
            video: VideoState::initial(),
            selected_bank: 0,
            irq_enable: 0,
            irq_pending: 0,
        }
    }

    /// The bank count as register `C001` reports it: 256 banks read as zero.
    pub open spec fn bank_count_register(self) -> u8 {
        if self.banks.len() == 256 {
            0
        } else {
            self.banks.len() as u8
        }
    }

    /// The byte the CPU sees at `address`.
    pub open spec fn peek(self, address: u16) -> u8 {
        if address <= ROM_END {
            self.rom[address as int]
        } else if address <= BANK_END {
            self.banks[self.selected_bank as int][address - BANK_START]
        } else if address <= RAM_END {
            self.ram[address - RAM_START]
        } else if address == REG_BANK_SELECT {
            self.selected_bank
        } else if address == REG_BANK_COUNT {
            self.bank_count_register()
        } else if address == REG_IRQ_ENABLE {
            self.irq_enable
        } else if address == REG_IRQ_PENDING {
            self.irq_pending
        } else if INPUT_REG_START <= address <= INPUT_REG_END {
            self.input.register((address - INPUT_REG_START) as u16)
        } else if TIMER_REG_START <= address <= TIMER_REG_END {
            self.timer.register((address - TIMER_REG_START) as u16)
        } else if VIDEO_REG_START <= address <= VIDEO_REG_END {
            self.video.register((address - VIDEO_REG_START) as u16)
        } else if VIDEO_MEMORY_START <= address {
            match self.video.vram((address - VIDEO_MEMORY_START) as usize) {
                Some(value) => value,
                None => 0xff,
            }
        } else {
            0xff
        }
    }

    /// The state after pending bits `sources` are raised.
    pub open spec fn with_irq_requested(self, sources: u8) -> AddressSpaceView {
        AddressSpaceView { irq_pending: self.irq_pending | (sources & IRQ_MASK), ..self }
    }

    /// The state after pending bits `sources` are acknowledged.
    pub open spec fn with_irq_cleared(self, sources: u8) -> AddressSpaceView {
        AddressSpaceView { irq_pending: self.irq_pending & !(sources & IRQ_MASK), ..self }
    }

    /// The state after the CPU writes `value` at `address`. Both ROM pages
    /// ignore writes; a bank select wraps modulo the installed bank count.
    pub open spec fn write(self, address: u16, value: u8) -> AddressSpaceView {
        if address <= BANK_END {
            self
        } else if address <= RAM_END {
            AddressSpaceView { ram: self.ram.update(address - RAM_START, value), ..self }
        } else if address == REG_BANK_SELECT {
            AddressSpaceView { selected_bank: (value as int % self.banks.len() as int) as u8, ..self }
        } else if address == REG_BANK_COUNT {
            self
        } else if address == REG_IRQ_ENABLE {
            AddressSpaceView { irq_enable: value & IRQ_MASK, ..self }
        } else if address == REG_IRQ_PENDING {
            self.with_irq_cleared(value)
        } else if INPUT_REG_START <= address <= INPUT_REG_END {
            AddressSpaceView {
                input: self.input.after_write((address - INPUT_REG_START) as u16, value),
                ..self
            }
        } else if TIMER_REG_START <= address <= TIMER_REG_END {
            AddressSpaceView {
                timer: self.timer.after_write((address - TIMER_REG_START) as u16, value),
                ..self
            }
        } else if VIDEO_REG_START <= address <= VIDEO_REG_END {
            AddressSpaceView {
                video: self.video.after_write((address - VIDEO_REG_START) as u16, value),
                ..self
            }
        } else if VIDEO_MEMORY_START <= address {
            AddressSpaceView {
                video: self.video.after_vram_write((address - VIDEO_MEMORY_START) as usize, value),
                ..self
            }
        } else {
            self
        }
    }

    /// The state after `cycles` cycles of device time: the timer advances and
    /// latches its interrupt if it expired.
    pub open spec fn tick(self, cycles: u32) -> AddressSpaceView {
        let ticked = AddressSpaceView { timer: self.timer.after_tick(cycles), ..self };
        if self.timer.tick_expires(cycles) {
            ticked.with_irq_requested(IRQ_TIMER)
        } else {
            ticked
        }
    }

    /// The state after a reset: ROM images survive, everything else returns
    /// to its initial value.
    pub open spec fn reset(self) -> AddressSpaceView {
        AddressSpaceView {
            ram: Seq::new(PAGE_SIZE as nat, |i: int| 0u8),
            input: InputState::initial(),
            timer: TimerState::initial(),
            video: VideoState::initial(),
            selected_bank: 0,
            irq_enable: 0,
            irq_pending: 0,
            ..self
        }
    }

    /// Whether the CPU's maskable interrupt line is asserted.
    pub open spec fn irq_line(self) -> bool {
        self.irq_enable & self.irq_pending != 0
    }

    /// The state after the host supplies a new button bitfield; every new
    /// press (a button that goes from up to down) latches its edge and raises
    /// the input interrupt.
    pub open spec fn with_buttons(self, state: u8) -> AddressSpaceView {
        let updated = AddressSpaceView { input: self.input.with_buttons(state), ..self };
        if state & !self.input.state != 0 {
            updated.with_irq_requested(IRQ_INPUT)
        } else {
            updated
        }
    }
}

/// Every new button press raises the input interrupt, also when its latch
/// bit is still set from an earlier press; a host update without a new
/// press leaves the pending sources alone. The held state and the latch
/// follow the host update.
pub proof fn lemma_new_press_raises_input_irq(space: AddressSpaceView, state: u8)
    ensures
        space.with_buttons(state).irq_pending == if state & !space.input.state != 0 {
            space.irq_pending | IRQ_INPUT
        } else {
            space.irq_pending
        },
        space.with_buttons(state).input == space.input.with_buttons(state),
{
    assert(IRQ_INPUT & IRQ_MASK == IRQ_INPUT) by (bit_vector);
}

/// Every change the address space's methods make keeps it well formed
/// (full pages, the installed banks, a selected bank that exists, only
/// defined interrupt bits) and keeps its bank count: guest writes, device
/// time, resets, host input, interrupt requests and acknowledgements, and
/// loading a ROM or bank image.
pub proof fn lemma_updates_keep_shape(
    space: AddressSpaceView,
    address: u16,
    value: u8,
    cycles: u32,
    buttons: u8,
    sources: u8,
    image: Seq<u8>,
    bank: int,
    x: i8,
    y: i8,
)
    requires
        space.wf(),
        image.len() <= PAGE_SIZE,
        0 <= bank < space.banks.len(),
    ensures
        space.write(address, value).wf(),
        space.write(address, value).banks.len() == space.banks.len(),
        space.tick(cycles).wf(),
        space.tick(cycles).banks == space.banks,
        space.reset().wf(),
        space.reset().banks == space.banks,
        space.with_buttons(buttons).wf(),
        space.with_buttons(buttons).banks == space.banks,
        space.with_irq_requested(sources).wf(),
        space.with_irq_cleared(sources).wf(),
        (AddressSpaceView { rom: padded_page(image), ..space }).wf(),
        (AddressSpaceView { banks: space.banks.update(bank, padded_page(image)), ..space }).wf(),
        (AddressSpaceView {
            input: InputState { pointer_x: x, pointer_y: y, ..space.input },
            ..space
        }).wf(),
        space.peek(REG_BANK_SELECT) == space.selected_bank,
{
    lemma_write_keeps_rom_and_shape(space, address, value);
    lemma_reset_keeps_rom(space);
    lemma_irq_bits(space.irq_pending, space.irq_enable, sources);
    lemma_irq_bits(space.irq_pending, space.irq_enable, IRQ_TIMER);
    lemma_irq_bits(space.irq_pending, space.irq_enable, IRQ_INPUT);
}

/// Guest writes to either ROM page are ignored: a write anywhere in
/// `0000-7FFF` leaves the whole address space as it was.
pub proof fn lemma_rom_ignores_writes(space: AddressSpaceView, address: u16, value: u8)
    requires
        address <= BANK_END,
    ensures
        space.write(address, value) == space,
{
}

/// A write never changes the ROM images, and it keeps the address space well
/// formed.
pub proof fn lemma_write_keeps_rom_and_shape(space: AddressSpaceView, address: u16, value: u8)
    requires
        space.wf(),
    ensures
        space.write(address, value).rom == space.rom,
        space.write(address, value).banks == space.banks,
        space.write(address, value).wf(),
{
    let n = space.banks.len() as int;
    assert(0 <= value as int % n < n);
    lemma_irq_bits(space.irq_pending, space.irq_enable, value);
}

/// RAM and the framebuffer read back what was last written to them, and such
/// a write changes no other byte that the CPU can see.
pub proof fn lemma_read_after_write(space: AddressSpaceView, address: u16, value: u8, other: u16)
    requires
        space.wf(),
        RAM_START <= address <= RAM_END || VIDEO_MEMORY_START <= address,
    ensures
        space.write(address, value).peek(address) == value,
        other != address ==> space.write(address, value).peek(other) == space.peek(other),
{
}

/// Register `C000` selects the visible bank modulo the installed bank count:
/// afterwards the register reads back the selected bank and the bank window
/// shows that bank.
pub proof fn lemma_bank_select_wraps(space: AddressSpaceView, value: u8, offset: u16)
    requires
        space.wf(),
        offset < PAGE_SIZE,
    ensures
        space.write(REG_BANK_SELECT, value).selected_bank == value as int % space.banks.len() as int,
        space.write(REG_BANK_SELECT, value).peek(REG_BANK_SELECT) == value as int
            % space.banks.len() as int,
        space.write(REG_BANK_SELECT, value).peek((BANK_START + offset) as u16)
            == space.banks[value as int % space.banks.len() as int][offset as int],
{
    let n = space.banks.len() as int;
    assert(0 <= value as int % n < n);
}

/// A reset keeps the loaded ROM images and returns everything else to its
/// initial state; resetting twice is the same as resetting once, and the
/// result is well formed.
pub proof fn lemma_reset_keeps_rom(space: AddressSpaceView)
    requires
        space.wf(),
    ensures
        space.reset().rom == space.rom,
        space.reset().banks == space.banks,
        space.reset().reset() == space.reset(),
        space.reset() == (AddressSpaceView {
            rom: space.rom,
            banks: space.banks,
            ..AddressSpaceView::initial(space.banks.len())
        }),
        space.reset().wf(),
{
    assert(space.reset() =~= (AddressSpaceView {
        rom: space.rom,
        banks: space.banks,
        ..AddressSpaceView::initial(space.banks.len())
    }));
    lemma_no_irq_sources();
}

/// The interrupt line is asserted exactly when an enabled source is pending;
/// acknowledging a source clears it, and a request only adds defined
/// sources.
pub proof fn lemma_irq_line_follows_enabled_sources(space: AddressSpaceView, sources: u8)
    requires
        space.wf(),
    ensures
        space.irq_line() == (space.irq_enable & space.irq_pending != 0),
        space.with_irq_cleared(sources).irq_pending & (sources & IRQ_MASK) == 0,
        space.with_irq_requested(sources).irq_pending & (sources & IRQ_MASK) == sources & IRQ_MASK,
        space.with_irq_requested(sources).irq_pending & IRQ_MASK == space.with_irq_requested(
            sources,
        ).irq_pending,
        space.with_irq_requested(sources).irq_pending & space.irq_pending == space.irq_pending,
{
    let p = space.irq_pending;
    assert((p & !(sources & 3)) & (sources & 3) == 0 && (p | (sources & 3)) & (sources & 3)
        == sources & 3 && (p | (sources & 3)) & p == p) by (bit_vector);
    lemma_irq_bits(p, space.irq_enable, sources);
}

/// The storage and memory-mapped devices visible to the ZT8 CPU.
///
/// Every constructor establishes [`AddressSpaceView::wf`] and every method
/// keeps it, so it holds of each value a caller can get hold of. It is a
/// precondition rather than a type invariant because the `*_mut` accessors
/// hand out mutable references to fields, which Verus does not allow for a
/// type with an invariant.
pub struct AddressSpace {
    fixed_rom: Box<[u8; PAGE_SIZE]>,
    banks: Vec<Box<[u8; PAGE_SIZE]>>,
    ram: Box<[u8; PAGE_SIZE]>,
    input: InputDevice,
    timer: TimerDevice,
    video: VideoDevice,
    selected_bank: u8,
    irq_enable: u8,
    irq_pending: u8,
}

impl View for AddressSpace {
    type V = AddressSpaceView;

    closed spec fn view(&self) -> AddressSpaceView {
        AddressSpaceView {
            rom: self.fixed_rom@,
            banks: Seq::new(self.banks@.len(), |b: int| self.banks@[b]@),
            ram: self.ram@,
            input: self.input@,
            timer: self.timer@,
            video: self.video@,
            selected_bank: self.selected_bank,
            irq_enable: self.irq_enable,
            irq_pending: self.irq_pending,
        }
    }
}

proof fn lemma_no_irq_sources()
    ensures
        0u8 & IRQ_MASK == 0u8,
{
    assert(0u8 & 3 == 0u8) by (bit_vector);
}

proof fn lemma_irq_bits(pending: u8, enable: u8, sources: u8)
    requires
        pending & IRQ_MASK == pending,
    ensures
        (pending | (sources & IRQ_MASK)) & IRQ_MASK == pending | (sources & IRQ_MASK),
        (pending & !(sources & IRQ_MASK)) & IRQ_MASK == pending & !(sources & IRQ_MASK),
        (sources & IRQ_MASK) & IRQ_MASK == sources & IRQ_MASK,
{
    assert((pending | (sources & 3)) & 3 == pending | (sources & 3) && (pending & !(sources & 3))
        & 3 == pending & !(sources & 3) && (sources & 3) & 3 == sources & 3) by (bit_vector)
        requires
            pending & 3 == pending,
    ;
}

impl AddressSpace {
    /// The address space always keeps the shape that [`AddressSpaceView::wf`]
    /// describes once it is well formed; every page has its full size.
    pub proof fn lemma_page_sizes(&self)
        ensures
            self@.rom.len() == PAGE_SIZE,
            self@.ram.len() == PAGE_SIZE,
            self@.video.pixels.len() == VRAM_SIZE,
            forall|b: int| 0 <= b < self@.banks.len() ==> #[trigger] self@.banks[b].len() == PAGE_SIZE,
    {
        self.video.lemma_frame_size();
    }

    /// Construct an address space with `bank_count` selectable ROM banks.
    ///
    /// The count must be in `1..=256`. Use [`Self::try_new`] when the bank
    /// count comes from untrusted input.
    pub fn new(bank_count: usize) -> (space: AddressSpace)
        requires
            1 <= bank_count <= 256,
        ensures
            space@ == AddressSpaceView::initial(bank_count as nat),
            space@.wf(),
    {
        let mut banks: Vec<Box<[u8; PAGE_SIZE]>> = Vec::new();
        let mut i: usize = 0;
        while i < bank_count
            invariant
                i <= bank_count,
                banks@.len() == i,
                forall|b: int| 0 <= b < i ==> (#[trigger] banks@[b])@ == Seq::new(PAGE_SIZE as nat, |j: int| 0xffu8),
            decreases bank_count - i,
        {
            let page = Box::new([UNMAPPED_VALUE; PAGE_SIZE]);
            assert(page@ =~= Seq::new(PAGE_SIZE as nat, |j: int| 0xffu8));
            banks.push(page);
            i = i + 1;
        }
        let space = AddressSpace {
            fixed_rom: Box::new([UNMAPPED_VALUE; PAGE_SIZE]),
            banks,
            ram: Box::new([0u8; PAGE_SIZE]),
            input: InputDevice::default(),
            timer: TimerDevice::default(),
            video: VideoDevice::default(),
            selected_bank: 0,
            irq_enable: 0,
            irq_pending: 0,
        };
        proof {
            let init = AddressSpaceView::initial(bank_count as nat);
            assert(space@.rom =~= init.rom);
            assert(space@.ram =~= init.ram);
            assert(space@.banks =~= init.banks);
            lemma_no_irq_sources();
        }
        space
    }

    pub fn try_new(bank_count: usize) -> (result: Result<AddressSpace, LoadError>)
        ensures
            match result {
                Ok(space) => 1 <= bank_count <= 256 && space@ == AddressSpaceView::initial(
                    bank_count as nat,
                ) && space@.wf(),
                Err(error) => !(1 <= bank_count <= 256) && error == LoadError::InvalidBankCount {
                    count: bank_count,
                },
            },
    {
        if bank_count < 1 || bank_count > 256 {
            return Err(LoadError::InvalidBankCount { count: bank_count });
        }
        Ok(AddressSpace::new(bank_count))
    }

    fn fill_page(page: &mut [u8; PAGE_SIZE], image: &[u8])
        requires
            image@.len() <= PAGE_SIZE,
        ensures
            final(page)@ == padded_page(image@),
    {
        let mut i: usize = 0;
        while i < PAGE_SIZE
            invariant
                i <= PAGE_SIZE,
                image@.len() <= PAGE_SIZE,
                forall|j: int| 0 <= j < i ==> #[trigger] page@[j] == padded_page(image@)[j],
            decreases PAGE_SIZE - i,
        {
            if i < image.len() {
                page[i] = image[i];
            } else {
                page[i] = UNMAPPED_VALUE;
            }
            i = i + 1;
        }
        assert(page@ =~= padded_page(image@));
    }

    /// Replace the fixed ROM image, padding unused bytes with `0xff`.
    pub fn load_rom(&mut self, image: &[u8]) -> (result: Result<(), LoadError>)
        ensures
            old(self)@.wf() ==> final(self)@.wf(),
            match result {
                Ok(()) => image@.len() <= PAGE_SIZE && final(self)@ == (AddressSpaceView {
                    rom: padded_page(image@),
                    ..old(self)@
                }),
                Err(error) => image@.len() > PAGE_SIZE && error == (LoadError::RomTooLarge {
                    size: image@.len() as usize,
                    capacity: PAGE_SIZE,
                }) && final(self)@ == old(self)@,
            },
    {
        if image.len() > PAGE_SIZE {
            return Err(LoadError::RomTooLarge { size: image.len(), capacity: PAGE_SIZE });
        }
        Self::fill_page(&mut *self.fixed_rom, image);
        Ok(())
    }

    /// Replace one selectable ROM bank, padding unused bytes with `0xff`.
    pub fn load_bank(&mut self, bank: usize, image: &[u8]) -> (result: Result<(), LoadError>)
        ensures
            old(self)@.wf() ==> final(self)@.wf(),
            match result {
                Ok(()) => image@.len() <= PAGE_SIZE && bank < old(self)@.banks.len()
                    && final(self)@ == (AddressSpaceView {
                    banks: old(self)@.banks.update(bank as int, padded_page(image@)),
                    ..old(self)@
                }),
                Err(error) => final(self)@ == old(self)@ && if image@.len() > PAGE_SIZE {
                    error == LoadError::BankTooLarge {
                        size: image@.len() as usize,
                        capacity: PAGE_SIZE,
                    }
                } else {
                    bank >= old(self)@.banks.len() && error == LoadError::InvalidBank {
                        bank,
                        bank_count: old(self)@.banks.len() as usize,
                    }
                },
            },
    {
        if image.len() > PAGE_SIZE {
            return Err(LoadError::BankTooLarge { size: image.len(), capacity: PAGE_SIZE });
        }
        let bank_count = self.banks.len();
        if bank >= bank_count {
            return Err(LoadError::InvalidBank { bank, bank_count });
        }
        let ghost before = self@;
        Self::fill_page(&mut *self.banks[bank], image);
        assert(self@.banks =~= before.banks.update(bank as int, padded_page(image@)));
        Ok(())
    }

    /// Read a byte as the CPU would. Device register reads are currently
    /// side-effect free; [`Self::peek`] is provided for debugger intent.
    pub fn read(&mut self, address: u16) -> (value: u8)
        requires
            old(self)@.wf(),
        ensures
            value == old(self)@.peek(address),
            final(self)@ == old(self)@,
    {
        self.peek(address)
    }

    /// Inspect a byte without changing address-space or device state.
    pub fn peek(&self, address: u16) -> (value: u8)
        requires
            self@.wf(),
        ensures
            value == self@.peek(address),
    {
        proof {
            self.video.lemma_frame_size();
        }
        if address <= ROM_END {
            self.fixed_rom[address as usize]
        } else if address <= BANK_END {
            let bank = self.selected_bank as usize;
            assert(self@.banks[bank as int] == self.banks@[bank as int]@);
            self.banks[bank][(address - BANK_START) as usize]
        } else if address <= RAM_END {
            self.ram[(address - RAM_START) as usize]
        } else if address == REG_BANK_SELECT {
            self.selected_bank
        } else if address == REG_BANK_COUNT {
            self.bank_count_register()
        } else if address == REG_IRQ_ENABLE {
            self.irq_enable
        } else if address == REG_IRQ_PENDING {
            self.irq_pending
        } else if INPUT_REG_START <= address && address <= INPUT_REG_END {
            self.input.read(address - INPUT_REG_START)
        } else if TIMER_REG_START <= address && address <= TIMER_REG_END {
            self.timer.read(address - TIMER_REG_START)
        } else if VIDEO_REG_START <= address && address <= VIDEO_REG_END {
            self.video.read(address - VIDEO_REG_START)
        } else if VIDEO_MEMORY_START <= address {
            match self.video.read_vram((address - VIDEO_MEMORY_START) as usize) {
                Some(value) => value,
                None => UNMAPPED_VALUE,
            }
        } else {
            UNMAPPED_VALUE
        }
    }

    pub fn write(&mut self, address: u16, value: u8)
        requires
            old(self)@.wf(),
        ensures
            final(self)@ == old(self)@.write(address, value),
            final(self)@.wf(),
    {
        let ghost before = self@;
        proof {
            self.video.lemma_frame_size();
            lemma_irq_bits(self.irq_pending, self.irq_enable, value);
        }
        if address <= BANK_END {
            // Fixed and banked ROM are protected from guest writes.
        } else if address <= RAM_END {
            self.ram[(address - RAM_START) as usize] = value;
        } else if address == REG_BANK_SELECT {
            self.selected_bank = ((value as usize) % self.banks.len()) as u8;
        } else if address == REG_BANK_COUNT {
        } else if address == REG_IRQ_ENABLE {
            self.irq_enable = value & IRQ_MASK;
        } else if address == REG_IRQ_PENDING {
            self.clear_irq(value);
        } else if INPUT_REG_START <= address && address <= INPUT_REG_END {
            self.input.write(address - INPUT_REG_START, value);
        } else if TIMER_REG_START <= address && address <= TIMER_REG_END {
            self.timer.write(address - TIMER_REG_START, value);
        } else if VIDEO_REG_START <= address && address <= VIDEO_REG_END {
            self.video.write(address - VIDEO_REG_START, value);
        } else if VIDEO_MEMORY_START <= address {
            self.video.write_vram((address - VIDEO_MEMORY_START) as usize, value);
        }
        proof {
            self.video.lemma_frame_size();
            assert(self@.banks =~= before.write(address, value).banks);
            assert(self@.ram =~= before.write(address, value).ram);
        }
    }

    /// Advance time-dependent devices and latch any generated interrupt.
    pub fn tick(&mut self, cycles: u32)
        requires
            old(self)@.wf(),
        ensures
            final(self)@ == old(self)@.tick(cycles),
            final(self)@.wf(),
    {
        if self.timer.tick(cycles) {
            self.request_irq(IRQ_TIMER);
        }
    }

    fn zero_ram(&mut self)
        ensures
            final(self)@ == (AddressSpaceView {
                ram: Seq::new(PAGE_SIZE as nat, |i: int| 0u8),
                ..old(self)@
            }),
    {
        let ghost before = self@;
        let mut i: usize = 0;
        while i < PAGE_SIZE
            invariant
                i <= PAGE_SIZE,
                self@ == (AddressSpaceView { ram: self@.ram, ..before }),
                self@.ram.len() == PAGE_SIZE,
                forall|j: int| 0 <= j < i ==> #[trigger] self@.ram[j] == 0u8,
            decreases PAGE_SIZE - i,
        {
            self.ram[i] = 0;
            i = i + 1;
        }
        assert(self@.ram =~= Seq::new(PAGE_SIZE as nat, |i: int| 0u8));
    }

    /// Reset mutable machine state while preserving loaded ROM images.
    pub fn reset(&mut self)
        requires
            old(self)@.wf(),
        ensures
            final(self)@ == old(self)@.reset(),
            final(self)@.wf(),
    {
        self.zero_ram();
        self.selected_bank = 0;
        self.irq_enable = 0;
        self.irq_pending = 0;
        self.input.reset();
        self.timer.reset();
        self.video.reset();
        proof {
            lemma_no_irq_sources();
            self.video.lemma_frame_size();
        }
    }

    pub fn irq_line(&self) -> (line: bool)
        ensures
            line == self@.irq_line(),
    {
        self.irq_enable & self.irq_pending != 0
    }

    pub fn request_irq(&mut self, sources: u8)
        requires
            old(self)@.wf(),
        ensures
            final(self)@ == old(self)@.with_irq_requested(sources),
            final(self)@.wf(),
    {
        proof {
            lemma_irq_bits(self.irq_pending, self.irq_enable, sources);
        }
        self.irq_pending = self.irq_pending | (sources & IRQ_MASK);
    }

    pub fn clear_irq(&mut self, sources: u8)
        requires
            old(self)@.wf(),
        ensures
            final(self)@ == old(self)@.with_irq_cleared(sources),
            final(self)@.wf(),
    {
        proof {
            lemma_irq_bits(self.irq_pending, self.irq_enable, sources);
        }
        self.irq_pending = self.irq_pending & !(sources & IRQ_MASK);
    }

    pub fn irq_enable(&self) -> (enable: u8)
        ensures
            enable == self@.irq_enable,
    {
        self.irq_enable
    }

    pub fn irq_pending(&self) -> (pending: u8)
        ensures
            pending == self@.irq_pending,
    {
        self.irq_pending
    }

    pub fn selected_bank(&self) -> (bank: u8)
        ensures
            bank == self@.selected_bank,
    {
        self.selected_bank
    }

    pub fn bank_count(&self) -> (count: usize)
        ensures
            count == self@.banks.len(),
    {
        self.banks.len()
    }

    pub fn bank_count_register(&self) -> (count: u8)
        requires
            self@.wf(),
        ensures
            count == self@.bank_count_register(),
    {
        if self.banks.len() == 256 {
            0
        } else {
            self.banks.len() as u8
        }
    }

    pub fn rom(&self) -> (rom: &[u8; PAGE_SIZE])
        ensures
            rom@ == self@.rom,
    {
        &*self.fixed_rom
    }

    pub fn bank(&self, bank: usize) -> (page: Option<&[u8; PAGE_SIZE]>)
        ensures
            match page {
                Some(page) => bank < self@.banks.len() && page@ == self@.banks[bank as int],
                None => bank >= self@.banks.len(),
            },
    {
        if bank < self.banks.len() {
            Some(&*self.banks[bank])
        } else {
            None
        }
    }

    pub fn bank_mut(&mut self, bank: usize) -> (page: Option<&mut [u8; PAGE_SIZE]>)
        ensures
            old(self)@.wf() ==> final(self)@.wf(),
            match page {
                Some(page) => bank < old(self)@.banks.len() && page@ == old(self)@.banks[bank as int]
                    && final(self)@ =~= (AddressSpaceView {
                    banks: old(self)@.banks.update(bank as int, final(page)@),
                    ..old(self)@
                }),
                None => bank >= old(self)@.banks.len() && final(self)@ == old(self)@,
            },
    {
        if bank < self.banks.len() {
            Some(&mut *self.banks[bank])
        } else {
            None
        }
    }

    pub fn ram(&self) -> (ram: &[u8; PAGE_SIZE])
        ensures
            ram@ == self@.ram,
    {
        &*self.ram
    }

    pub fn ram_mut(&mut self) -> (ram: &mut [u8; PAGE_SIZE])
        ensures
            old(self)@.wf() ==> final(self)@.wf(),
            ram@ == old(self)@.ram,
            final(self)@ == (AddressSpaceView { ram: final(ram)@, ..old(self)@ }),
    {
        &mut *self.ram
    }

    pub fn input(&self) -> (input: &InputDevice)
        ensures
            input@ == self@.input,
    {
        &self.input
    }

    pub fn input_mut(&mut self) -> (input: &mut InputDevice)
        ensures
            old(self)@.wf() ==> final(self)@.wf(),
            input@ == old(self)@.input,
            final(self)@ == (AddressSpaceView { input: final(input)@, ..old(self)@ }),
    {
        &mut self.input
    }

    /// Replaces host button state and raises the input IRQ for new presses.
    pub fn set_buttons(&mut self, state: u8)
        requires
            old(self)@.wf(),
        ensures
            final(self)@ == old(self)@.with_buttons(state),
            final(self)@.wf(),
    {
        let rising = state & !self.input.state();
        self.input.set_buttons(state);
        if rising != 0 {
            self.request_irq(IRQ_INPUT);
        }
    }

    /// Presses one host button and raises the input IRQ on its rising edge.
    pub fn press_button(&mut self, button: Button)
        requires
            old(self)@.wf(),
        ensures
            final(self)@ == old(self)@.with_buttons(old(self)@.input.state | button.spec_bit()),
            final(self)@.wf(),
    {
        self.set_buttons(self.input.state() | button.bit());
    }

    pub fn release_button(&mut self, button: Button)
        requires
            old(self)@.wf(),
        ensures
            final(self)@ == old(self)@.with_buttons(old(self)@.input.state & !button.spec_bit()),
            final(self)@.wf(),
    {
        self.set_buttons(self.input.state() & !button.bit());
    }

    pub fn set_pointer(&mut self, x: i8, y: i8)
        ensures
            old(self)@.wf() ==> final(self)@.wf(),
            final(self)@ == (AddressSpaceView {
                input: InputState { pointer_x: x, pointer_y: y, ..old(self)@.input },
                ..old(self)@
            }),
    {
        self.input.set_pointer(x, y);
    }

    pub fn timer(&self) -> (timer: &TimerDevice)
        ensures
            timer@ == self@.timer,
    {
        &self.timer
    }

    pub fn timer_mut(&mut self) -> (timer: &mut TimerDevice)
        ensures
            old(self)@.wf() ==> final(self)@.wf(),
            timer@ == old(self)@.timer,
            final(self)@ == (AddressSpaceView { timer: final(timer)@, ..old(self)@ }),
    {
        &mut self.timer
    }

    pub fn video(&self) -> (video: &VideoDevice)
        ensures
            video@ == self@.video,
    {
        &self.video
    }

    pub fn video_mut(&mut self) -> (video: &mut VideoDevice)
        ensures
            old(self)@.wf() ==> final(self)@.wf(),
            video@ == old(self)@.video,
            final(self)@ == (AddressSpaceView { video: final(video)@, ..old(self)@ }),
    {
        broadcast use crate::devices::lemma_video_frame_size;

        &mut self.video
    }
}

impl Default for AddressSpace {
    fn default() -> (space: AddressSpace)
        ensures
            space@ == AddressSpaceView::initial(1),
            space@.wf(),
    {
        AddressSpace::new(1)
    }
}

} // verus!
