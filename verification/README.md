# ZT8

ZT8 is an 8-bit virtual machine with a 16-bit address bus: banked ROM, work
RAM, memory-mapped input and timer devices, and a 128x96 RGB332 framebuffer.
This crate implements it in Verus. Every function of the library is verified
against its contract, except seven small trusted wrappers marked
`#[verifier::external_body]`: the six that format error messages with
`format!` (their contracts state the exact text, see `src/text.rs`) and the
one that turns a `Vec` into a boxed slice.

## Layout

- `src/text.rs`: decimal and hexadecimal digits, as the error messages
  write numbers.
- `src/isa.rs`: flags, vectors, memory layout, registers, opcodes and the
  opcode encoders and decoders.
- `src/devices.rs`: the input latch, the cycle timer and the video device,
  each with an abstract state (`InputState`, `TimerState`, `VideoState`).
- `src/bus.rs`: the 64 KiB address space and its model `AddressSpaceView`
  (`peek`, `write`, `tick`, `reset`).
- `src/cpu.rs`: the meaning of every instruction as spec functions over
  `SystemView` (processor plus address space), and the executable processor,
  proved to follow them.
- `src/machine.rs`: the machine quantum (`machine_step`), bounded runs
  (`run`) and reset, and the `Machine` that executes them.
- `src/ztiny_core.rs`, `src/ztiny_bus.rs`, `src/ztiny_cpu.rs`,
  `src/ztiny_machine.rs`: a small generic emulator framework (address and
  word types, address regions, device attachments, a bus routed through a
  user-supplied address map, and a machine made of a user-supplied processor
  and bus).
- `tests/`: scenario tests of the library.
- `app/main.rs`: a demonstration program with a console video backend.

The laws of the machine (ROM write protection, read-after-write, stack and
interrupt round trips, reserved-opcode faults, run composition and others)
are public proof functions next to the definitions they speak of.
