# imo

A debugger for Rust programs on Linux x86-64 that shows Rust values the way
they were written: `String`, `Vec`, `VecDeque`, `HashMap`, `HashSet`,
`Option`, `Box` and friends.

The library under `src/` is verified with Verus: each public function states
in its contract what it computes, and the laws that tie several functions
together are proof functions. `app/` is the command-line program around it:
process control through `ptrace`, reading the file of the binary and the
entries and line programs of its DWARF sections, the prompt, and printing.

## Layout of `src/`

- `command` — parsing a line typed at the prompt into a command.
- `die`, `dwarf`, `dwarf_types`, `dwarf_scopes` — debugging information
  entries, the types and scopes built from them, and the frame base.
- `line_table`, `types` — the line table cache, interned file names and the
  source cache.
- `decode`, `layout`, `value` — reading a value of a DWARF type out of the
  stopped process's memory; `layout` states what the value at an address is,
  layout by layout, and `decode` is proved to read exactly that.
- `render`, `display` — the text shown for values, frames, registers,
  breakpoints and source lines.
- `breakpoint`, `session`, `stepping`, `unwind`, `location`, `menu` — the
  state of a debugging session: breakpoints and their reference counts, the
  decisions taken at each trap while stepping, the return address from the
  unwind table, the reading of variables, and what the prompt does with a
  command in the state the session is in.
- `binary` — the sections of the object file, and a session's debug
  information set up from them.
- `sys` — the memory map of the process.
- `fxmap`, `text` — the hash maps and the few text operations the rest needs.

Memory reads and the evaluation of location programs are handed to the
library as functions; the library states its results over what those reads
give back.
