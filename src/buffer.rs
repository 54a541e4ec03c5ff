//! An owned, bounds-checked buffer of raw 64-bit integers: what crosses the
//! boundary to and from a host process, once its pointer and length have
//! been turned into an owned vector.

use vstd::prelude::*;

verus! {

/// A buffer of raw 64-bit integers.
pub struct Buffer {
    data: Vec<u64>,
}

impl View for Buffer {
    type V = Seq<u64>;

    closed spec fn view(&self) -> Seq<u64> {
        self.data@
    }
}

impl Buffer {
    /// A buffer that holds `data`.
    pub fn new(data: Vec<u64>) -> (r: Buffer)
        ensures
            r@ == data@,
    {
        Buffer { data }
    }

    /// The number of integers in the buffer.
    pub fn len(&self) -> (r: usize)
        ensures
            r == self@.len(),
    {
        self.data.len()
    }

    /// The integer at `i`.
    pub fn get(&self, i: usize) -> (r: u64)
        requires
            i < self@.len(),
        ensures
            r == self@[i as int],
    {
        self.data[i]
    }

    /// The integers of the buffer, in order.
    pub fn into_vec(self) -> (r: Vec<u64>)
        ensures
            r@ == self@,
    {
        self.data
    }
}

} // verus!
