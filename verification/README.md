# botracers

The verified core of a racing game whose cars are driven by RISC-V programs:
the instruction decoder and hart that run them, the memory map and devices
they talk to, the bot-side device handles, the race hub's request rules and
pages, the web client's command and event handling, the race clock, the
debugger's text views, the track editor's edit history and the track
meshes' triangle lists. Every function in `src/` carries a contract
proved by Verus, except two trusted wrappers around outside crates whose
contracts are taken as given: `loader::elf_read` (ELF parsing with the
`elf` crate) and `racehub::url_encode` (percent-encoding with the
`urlencoding` crate).

Layout:

- `src/instruction.rs`, `src/hart.rs`, `src/memory.rs`, `src/loader.rs`,
  `src/runner.rs`: the RV32IMAFC decoder, the hart, guest memory and device
  routing, ELF loading, and the stepping loop.
- `src/rv32i.rs`: a smaller RV32I core with a console device.
- `src/io.rs`, `src/robot.rs`, `src/devices.rs`, `src/bot.rs`: memory-mapped
  devices as the game sees them and as a bot program addresses them.
- `src/racehub.rs`, `src/protocol.rs`, `src/portal.rs`: the hub's access
  rules, cookies, tokens and HTML pages; the client's request state machine.
- `src/frequency.rs`, `src/text.rs`, `src/tui.rs`, `src/editor.rs`,
  `src/mesh.rs`: the CPU clock setting, number formatting, debugger views,
  the track editor, and the index buffers of the track meshes.
- `src/laws.rs`: properties that span several functions.
- `tests/`: executable tests of the library.
- `app/`: a command-line runner that loads an ELF file and runs it, with the
  floating-point unit and the JSON forms of the protocol messages.

Floating-point values that the game passes through the library (positions,
widths, sensor readings) are held as their `f32` bit patterns; the arithmetic
on them stays with the caller.
