# perry_codegen

Textual LLVM IR generation for the Perry compiler, verified with Verus.

- `src/` is the verified library: the block and function builders
  (`block.rs`, `function.rs`), the shadow-stack `ret` rewrite
  (`shadow.rs`), integer specialization of numeric recursive functions
  (`int_spec.rs`, over the representation in `hir.rs`), color-string
  parsing for widget styles (`color.rs`), the pure parts of the
  toolchain driver (`linker.rs`), and the walkers over the program
  representation that find referenced, written, `let`-declared and
  integer-valued locals and closure literals (`collectors.rs`,
  `closures.rs`). Every public function states in its contract the exact
  result it produces.
- `app/` holds what the library cannot do itself: invoking `clang` and the
  LLVM tools on files, and rendering color channels as float literals.
- `tests/` exercises the library on concrete inputs.

Registers are drawn from a `RegCounter` passed explicitly to every method
that defines one; an `LlFunction` owns the counter of its blocks and lends
it out together with a block through `block_with_regs`.
