//! LLVM IR type names as they appear in the emitted text.

use vstd::prelude::*;

verus! {

/// An LLVM type as written in IR text (`"double"`, `"i64"`, `"ptr"`, ...).
pub type LlvmType = &'static str;

pub const VOID: LlvmType = "void";

pub const I1: LlvmType = "i1";

pub const I8: LlvmType = "i8";

pub const I32: LlvmType = "i32";

pub const I64: LlvmType = "i64";

pub const DOUBLE: LlvmType = "double";

pub const PTR: LlvmType = "ptr";

} // verus!
