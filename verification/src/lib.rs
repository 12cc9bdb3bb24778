use vstd::prelude::*;

pub mod bits;
pub mod cart;
pub mod cpu;
pub mod frame;
pub mod mmu;
pub mod ppu;

verus! {

} // verus!
