use vstd::prelude::*;

use crate::errors::InstanceError;

verus! {

/// The device context. It owns every storage allocation that buffers of
/// this engine refer to: buffers are handles (allocation index, offset,
/// length) into this arena, so any number of views may share one
/// allocation and writes through one view are visible through every other,
/// exactly as aliasing memory behaves. The arena is private: only this
/// crate's operations touch it, and they only ever append allocations,
/// never remove or shrink one, so a handle that was valid once stays
/// valid for the rest of the context's life.
pub struct Instance {
    /// The storage arena: one entry per allocation, each a linear array of
    /// 32-bit elements.
    pub(crate) allocations: Vec<Vec<u32>>,
}

/// A semantic version triple reported by the device layer.
pub struct Version {
    pub major: u32,
    pub minor: u32,
    pub patch: u32,
}

impl Instance {
    /// The mathematical model of the context: the contents of every
    /// allocation, in allocation order.
    pub open(crate) spec fn mem(&self) -> Seq<Seq<u32>> {
        self.allocations@.map_values(|a: Vec<u32>| a@)
    }

    /// Creates a fresh context with no allocations.
    pub fn new() -> (r: Result<Instance, InstanceError>)
        ensures
            r is Ok,
            r->Ok_0.mem().len() == 0,
    {
        Ok(Instance { allocations: Vec::new() })
    }

    /// Appends one zero-initialized allocation of `len` elements and
    /// returns its index; the buffer constructors are the only callers.
    pub(crate) fn allocate(&mut self, len: usize) -> (id: usize)
        ensures
            id == old(self).mem().len(),
            final(self).mem() == old(self).mem().push(Seq::new(len as nat, |i: int| 0u32)),
    {
        let id = self.allocations.len();
        self.allocations.push(vec![0u32; len]);
        proof {
            assert(self.mem() =~~= old(self).mem().push(Seq::new(len as nat, |i: int| 0u32)));
        }
        id
    }
}

} // verus!
