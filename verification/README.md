# gbbrain

A headless Game Boy emulator for programs that debug Game Boy software. It loads a ROM, runs it
under exact control, and shows everything: registers, memories, traces, pictures, snapshots.

The library is written in Rust with Verus. Each operation states over a mathematical model of the
machine what it does, and Verus proves it; running never panics.

## Layout

- `src/` is the library.
  - `machine.rs` holds the machine and its model, `MachineState`. Every operation of the machine is
    a function from state to state there, and the executable methods are proved to compute it.
  - `cpu.rs`, `execute.rs`, `alu.rs`, `registers.rs` and `step.rs` are the processor; `bus.rs`,
    `io.rs`, `dma.rs`, `timer.rs`, `ppu.rs` and `render.rs` are what stands around it;
    `cartridge.rs` and `rtc.rs` are cartridges and their clock; `boot.rs` is power-on.
  - `control.rs`, `disasm.rs` and `snapshot.rs` are what tools use; `session.rs` answers the
    requests of a debugging session; `suite.rs` drives test ROMs.
  - `laws.rs` states what holds of the machine and of sessions as a whole; `replay.rs` shows
    that the same calls take equal machines to equal machines, `watch.rs` that without breakpoints
    nothing stops at one, and `startup.rs` that the built-in boot ROM brings each model to its entry
    registers with its hardware started.
  - `encoding.rs` calls the `base64` crate and the standard library's lossy decoding of text.
- `tests/` runs the library.
- `app/` is the `gbbrain` program: files, JSON lines on standard input and output, and the process
  that test ROMs run in.

## Limits

Clock cycles and instructions are counted in 64 bits. A run needs room in the counters for the steps
it takes; `room_for` and `room_for_cycles` in `step.rs` say how much.
