# remu

An x86 tracer: it runs a 32-bit PE image under the unicorn emulator from a
given entry address, records the disassembly and the register file of every
executed instruction, and shows the trace in a terminal viewer.

`src/` is the verified library (Verus):

- `image.rs`: the section table and the splicing of the file's sections into
  the zeroed memory image.
- `setup.rs`: the steps that prepare the emulator (mappings, writes,
  registers, traced range, start), with the proof that every write lands in
  mapped memory.
- `regs.rs`: register numbering, the recorded register file, EFLAGS bits.
- `disasm.rs`: the trace and its steps; disassembly through capstone.
- `text.rs`: hexadecimal and decimal text, and parsing of the entry address.
- `list.rs`: the viewer's selection, key handling and panel text.

`app/` holds the program: argument handling, reading the file, driving
unicorn, and drawing with tui/crossterm.
