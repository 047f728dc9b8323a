//! A small byte-valued tensor of arbitrary rank: a shape vector and a flat
//! buffer, with zero-filled construction and elementwise addition.

use vstd::prelude::*;
use vstd::slice::slice_to_vec;

verus! {

/// The product of the first `k` entries of a shape vector: the number of
/// elements a buffer of that shape holds once `k` covers the whole vector.
pub open spec fn prefix_prod(s: Seq<u8>, k: int) -> int
    decreases k,
{
    if k <= 0 {
        1
    } else {
        prefix_prod(s, k - 1) * s[k - 1]
    }
}

/// A byte matrix of arbitrary rank: a shape vector and a flat buffer whose
/// length is the product of the dimensions.
#[derive(Debug)]
pub struct Mat {
    pub shape: Vec<u8>,
    pub data: Vec<u8>,
}

impl Clone for Mat {
    /// A clone holds the same shape and the same data.
    fn clone(&self) -> (r: Self)
        ensures
            r.shape@ == self.shape@,
            r.data@ == self.data@,
    {
        Mat {
            shape: slice_to_vec(self.shape.as_slice()),
            data: slice_to_vec(self.data.as_slice()),
        }
    }
}

impl Mat {
    /// Builds an all-zero tensor of the given shape: the buffer holds the
    /// product of the dimensions, every element the additive identity.
    pub fn zeroes(shape: &[u8]) -> (r: Mat)
        requires
            forall|k: int| 0 <= k <= shape@.len() ==> prefix_prod(shape@, k) <= usize::MAX,
        ensures
            r.shape@ == shape@,
            r.data@.len() == prefix_prod(shape@, shape@.len() as int),
            forall|t: int| 0 <= t < r.data@.len() ==> (#[trigger] r.data@[t]) == 0u8,
    {
        let mut size: usize = 1;
        let mut k: usize = 0;
        while k < shape.len()
            invariant
                forall|j: int| 0 <= j <= shape@.len() ==> prefix_prod(shape@, j) <= usize::MAX,
                k <= shape@.len(),
                size == prefix_prod(shape@, k as int),
            decreases shape@.len() - k,
        {
            let e = shape[k];
            proof {
                assert(prefix_prod(shape@, k as int + 1) == prefix_prod(shape@, k as int)
                    * shape@[k as int]);
                assert(0 <= size * (e as int)) by (nonlinear_arith)
                    requires
                        size >= 0,
                        e >= 0,
                ;
            }
            size = size * (e as usize);
            k = k + 1;
        }
        let mut data: Vec<u8> = Vec::new();
        let mut t: usize = 0;
        while t < size
            invariant
                t <= size,
                data@.len() == t,
                forall|j: int| 0 <= j < t ==> (#[trigger] data@[j]) == 0u8,
            decreases size - t,
        {
            data.push(0);
            t = t + 1;
        }
        Mat { shape: slice_to_vec(shape), data }
    }

    /// Elementwise sum over the common length of the two buffers.  Both
    /// operands must agree on their shape and every pairwise sum must fit
    /// in a byte.
    pub fn add(&self, rhs: &Mat) -> (r: Mat)
        requires
            self.shape@ == rhs.shape@,
            forall|t: int|
                0 <= t < self.data@.len() && t < rhs.data@.len() ==> self.data@[t] + rhs.data@[t]
                    <= u8::MAX,
        ensures
            r.shape@ == self.shape@,
            r.data@.len() == (if self.data@.len() <= rhs.data@.len() {
                self.data@.len()
            } else {
                rhs.data@.len()
            }),
            forall|t: int|
                0 <= t < r.data@.len() ==> (#[trigger] r.data@[t]) as int == self.data@[t]
                    + rhs.data@[t],
    {
        let a = self.data.len();
        let b = rhs.data.len();
        let n = if a <= b {
            a
        } else {
            b
        };
        let mut data: Vec<u8> = Vec::new();
        let mut t: usize = 0;
        while t < n
            invariant
                n <= self.data@.len(),
                n <= rhs.data@.len(),
                forall|j: int|
                    0 <= j < self.data@.len() && j < rhs.data@.len() ==> self.data@[j]
                        + rhs.data@[j] <= u8::MAX,
                t <= n,
                data@.len() == t,
                forall|j: int|
                    0 <= j < t ==> (#[trigger] data@[j]) as int == self.data@[j] + rhs.data@[j],
            decreases n - t,
        {
            let x = self.data[t];
            let y = rhs.data[t];
            data.push(x + y);
            t = t + 1;
        }
        Mat { shape: slice_to_vec(self.shape.as_slice()), data }
    }
}

} // verus!
