# hachi

A CHIP-8 interpreter whose machine is verified with Verus.

- `src/vm`: the interpreter. `model.rs` states what the machine is (`Machine`)
  and what each instruction and each fetch-decode-execute cycle does to it;
  `VirtualMachine` implements it, and `laws.rs` proves properties across
  instructions (a return undoes a call, drawing a sprite twice erases it,
  registers stored and read back are unchanged, and more).
- `src/emu`: an earlier, smaller machine (`Chip8`) and the loading of the font
  and of programs into its memory.
- `src/config`: the user's settings and what loading them decides.
- `src/ui`: the paging of the debug memory view.
- `app`: the window, the rendering, the keyboard and the files, around the
  library.
