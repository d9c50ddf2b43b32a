//! Toolchain support for building Game Boy ROM images.

use vstd::prelude::*;

pub mod ast_grep;
pub mod cargo;
pub mod chain;
pub mod cleanup;
pub mod drawing;
pub mod encode;
pub mod error;
pub mod io;
pub mod irq;
pub mod lcc;
pub mod listing;
pub mod llvm;
pub mod mangle;
pub mod patch;
pub mod rewrite;
pub mod sdcc;
pub mod text;
pub mod time;
pub mod treesitter;
pub mod workdir;

verus! {

/// Adds two numbers.
pub fn add(left: u64, right: u64) -> (sum: u64)
    requires
        left + right <= u64::MAX,
    ensures
        sum == left + right,
{
    left + right
}

/// Shifts `left` to the left by `right` bits, which have to be fewer than
/// 64; bits shifted out at the top are lost.
pub fn lsh(left: u64, right: u64) -> (shifted: u64)
    requires
        right < 64,
    ensures
        shifted == left << right,
{
    left << right
}

} // verus!
