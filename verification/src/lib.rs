//! Textual LLVM IR generation.
//!
//! - `block`: a basic-block builder; every method appends one instruction
//!   and names the SSA register it defines (`%r1`, `%r2`, …) from a
//!   function-wide `RegCounter`.
//! - `function`: a function builder owning its blocks, its register counter,
//!   hoisted entry-block setup, and an optional shadow-stack frame.
//! - `shadow`: the line rewrite that pops the shadow frame before every `ret`.
//! - `int_spec`: integer specialization of pure numeric recursive functions,
//!   over the program representation in `hir`.
//! - `collectors`: walkers that gather the locals code refers to or writes,
//!   the `let`-declared and integer-valued locals, and closure literals.
//! - `closures`: the closure pre-pass of the native back end and its
//!   mutable-capture analysis.
//! - `color`: compile-time parsing of CSS color strings in widget styles.
//! - `linker`: the pure decisions of the clang / LLVM tool driver.
//! - `text`, `types`: decimal numerals, joins, and LLVM type names.

pub mod text;
pub mod types;
pub mod block;
pub mod function;
pub mod shadow;
pub mod color;
pub mod linker;
pub mod hir;
pub mod int_spec;
pub mod collectors;
pub mod closures;
