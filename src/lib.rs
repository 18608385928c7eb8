// Framing-agnostic relay of bytes between two serial channels: ring buffers,
// silence-based idle reads, the bridge pass and the boot-mode reset sequence.

use vstd::prelude::*;

pub mod bridge;
pub mod drivers;
pub mod idle_read;
pub mod reset;
pub mod ring_buf;

verus! {

} // verus!
