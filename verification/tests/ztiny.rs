use lib::ztiny_bus::device::MemoryDevices;
use lib::ztiny_bus::{AddressMap, Attachment, Bus, BusAccess, Device, DeviceId, Region};
use lib::ztiny_core::numeric::AddressType;
use lib::ztiny_cpu::Cpu;
use lib::ztiny_machine::{Machine, MachineSpec};

#[derive(Default)]
struct CustomMap<A: AddressType> {
    attachments: Vec<Attachment<A>>,
}

impl<A: AddressType> AddressMap<A> for CustomMap<A> {
    fn insert(&mut self, attachment: Attachment<A>) {
        self.attachments.push(attachment);
    }

    fn lookup(&self, address: A) -> Option<&Attachment<A>> {
        self.attachments.iter().find(|attachment| attachment.region.contains(address))
    }
}

#[test]
fn bus_accepts_custom_address_map() {
    let _bus: Bus<u16, u8, CustomMap<u16>> = Bus::with_map(CustomMap::default());
}

struct Ram {
    bytes: Vec<u8>,
}

impl Device<u16, u8> for Ram {
    fn len(&self) -> u16 {
        self.bytes.len() as u16
    }

    fn is_empty(&self) -> bool {
        self.bytes.is_empty()
    }

    fn read(&mut self, offset: u16) -> u8 {
        self.bytes[usize::from(offset)]
    }

    fn write(&mut self, offset: u16, value: u8) {
        self.bytes[usize::from(offset)] = value;
    }
}

fn ram(size: usize) -> Box<dyn Device<u16, u8>> {
    Box::new(Ram { bytes: vec![0; size] })
}

#[test]
fn regions_are_inclusive_and_offsets_are_relative_to_the_base() {
    let region = Region::new(0x1000u16, 0x10ffu16);
    assert!(region.contains(0x1000));
    assert!(region.contains(0x10ff));
    assert!(!region.contains(0x0fff));
    assert!(!region.contains(0x1100));
    assert_eq!(region.offset(0x1000), Some(0));
    assert_eq!(region.offset(0x1042), Some(0x42));
    assert_eq!(region.offset(0x1100), None);
    let single = Region::new(7u8, 7u8);
    assert_eq!(single.offset(7), Some(0));
    assert_eq!(single.offset(6), None);
}

#[test]
fn the_bus_routes_reads_and_writes_to_attached_devices() {
    let mut bus: Bus<u16, u8, CustomMap<u16>> = Bus::with_map(CustomMap::default());
    let low = bus.attach(ram(0x100), Region::new(0x1000, 0x10ff));
    let high = bus.attach(ram(0x10), Region::new(0x2000, 0x200f));
    assert_ne!(low, high);

    assert_eq!(bus.write(0x1005, 7), Some(()));
    assert_eq!(bus.write(0x200f, 9), Some(()));
    assert_eq!(bus.read(0x1005), Some(7));
    assert_eq!(bus.read(0x2000), Some(0));
    assert_eq!(BusAccess::read(&mut bus, 0x200f), Some(9));
    assert_eq!(bus.read(0x3000), None);
    assert_eq!(bus.write(0x0fff, 1), None);
    assert_eq!(BusAccess::write(&mut bus, 0x1000, 3), Some(()));
    assert_eq!(bus.read(0x1000), Some(3));
}

#[test]
fn address_maps_find_the_device_of_an_address() {
    let mut map: CustomMap<u16> = CustomMap::default();
    let mut bus: Bus<u16, u8, CustomMap<u16>> = Bus::new();
    let id: DeviceId = bus.attach(ram(4), Region::new(0x10, 0x13));
    assert_eq!(bus.read(0x12), Some(0));
    assert_eq!(map.find_device(0x12), None);
    map.insert(Attachment { region: Region::new(0x10, 0x13), device: id });
    assert_eq!(map.find_device(0x12), Some(id));
    assert_eq!(map.find_device(0x14), None);
}

#[test]
fn memory_devices_cover_the_whole_address_type() {
    let memory: MemoryDevices<u8, u16> = MemoryDevices::new();
    assert_eq!(memory.data.len(), 256);
    assert!(memory.read_only);
    assert!(memory.data.iter().all(|&word| word == 0));
    let wide: MemoryDevices<u16, u8> = MemoryDevices::new();
    assert_eq!(wide.data.len(), 0x10000);
    assert_eq!(<u16 as AddressType>::BITS, 16);
}

struct Counter {
    pc: u16,
    executed: Vec<u8>,
}

impl Cpu for Counter {
    type Address = u16;
    type Word = u8;
    type Bus = Bus<u16, u8, CustomMap<u16>>;

    fn reset(&mut self) {
        self.pc = 0x1000;
        self.executed.clear();
    }

    fn fetch(&mut self, bus: &mut Self::Bus) -> Option<u8> {
        let instruction = BusAccess::read(bus, self.pc)?;
        self.pc += 1;
        Some(instruction)
    }

    fn decode(&self, instruction: u8, _bus: &mut Self::Bus) -> Option<u8> {
        Some(instruction)
    }

    fn execute(&mut self, _bus: &mut Self::Bus, instruction: u8) {
        self.executed.push(instruction);
    }

    fn halted(&self) -> bool {
        self.executed.last() == Some(&0xff)
    }
}

struct CounterMachine;

impl MachineSpec for CounterMachine {
    type Address = u16;
    type Word = u8;
    type Bus = Bus<u16, u8, CustomMap<u16>>;
    type Cpu = Counter;
}

#[test]
fn a_machine_steps_its_cpu_against_its_bus() {
    let mut bus: Bus<u16, u8, CustomMap<u16>> = Bus::new();
    bus.attach(ram(3), Region::new(0x1000, 0x1002));
    bus.write(0x1000, 0x11);
    bus.write(0x1001, 0xff);
    let mut machine: Machine<CounterMachine> =
        Machine::new(Counter { pc: 0x1000, executed: Vec::new() }, bus);
    machine.step();
    assert!(!machine.halted());
    machine.step();
    assert!(machine.halted());
    assert_eq!(machine.cpu().executed, vec![0x11, 0xff]);
    machine.step();
    machine.step();
    // Past the attached memory nothing is fetched, so nothing executes.
    assert_eq!(machine.cpu().executed.len(), 3);
    machine.reset();
    assert_eq!(machine.cpu().pc, 0x1000);
    machine.cpu_mut().pc = 0x1001;
    machine.step();
    assert!(machine.halted());
    assert_eq!(machine.bus.read(0x1000), Some(0x11));
}
