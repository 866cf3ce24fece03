//! An interpreter for a transport-triggered machine: its only instruction moves a
//! value into a register, and every computation is a side effect of register
//! reads and writes.
use vstd::prelude::*;

pub mod memory;
pub mod registers;
pub mod machine;
pub mod laws;

verus! {

/// Number of words in the machine's memory.
pub const MEMORY_SIZE: usize = 1048576;

} // verus!
