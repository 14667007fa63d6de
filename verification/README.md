# axiomos

The verified core of a bare-metal robotics kernel, written in Rust and proved
with Verus. Page tables, the motor control link, timers, system calls and the
drivers of a Raspberry Pi 5 decide and compute here; every function states what
it returns or changes, and Verus proves it.

## Layout

- `src/` is the library.
  - `link/`: frames, motor watchdog, session, transmitter, handoff and installer
    of the control link.
  - `platform/`: drivers of the Pi 5, the transport of the link and its rearm.
  - `arch/`: page tables, device tree, exceptions, interrupts, timer, processors.
  - `actuation.rs`, `bench.rs`, `acpi.rs`: the way to the actuators, the hardware
    bench, firmware tables.
  - `time/`, `vmem/`, `vfs/`, `syscall/`, `usermem.rs`, `abi.rs`: the kernel's
    subsystems.
- `tests/` runs the library.
- `app/` is the hardware side: volatile registers, system registers, locks and
  the loops that drive the state machines.

## How it is built

Where input or output alternates with decisions, the library holds a state
machine. It says what has to be done next (`action`), and the embedding program
reports what came of it (`on`). Register accesses are values (`RegOp`) that the
embedding program performs in order.

Laws that relate several functions are public proof functions whose names begin
with `law_`.

## What is trusted

- `std::str::from_utf8`, in `bytes.rs`.
- `fdt::Fdt::new` and the memory regions that the `fdt` crate reads, in
  `arch/dtb.rs`.
