use vstd::prelude::*;

pub mod file_traits;
pub mod packet;
pub mod proxy;
pub mod queue;
pub mod rxq;
pub mod seccomp_filter;

verus! {

/// Interrupt controller handle used by legacy devices.
pub struct Gic {}

impl Gic {
    /// Raising an interrupt line on this platform has no effect.
    pub fn set_irq(&mut self, _irq: u32)
        ensures
            *final(self) == *old(self),
    {
    }
}

} // verus!
