//! Size rules of tensor buffers: how many bytes a fixed-width tensor of a
//! given shape holds, and the check made before a buffer is viewed as an
//! array.
use vstd::prelude::*;
use crate::data_type::{is_fixed_width, width_of, DataType};
use crate::error::ModelExecutorError;
use crate::inference_request::{is_valid_shape, valid_shape};
use crate::inference_response::OutputData;

verus! {

/// Number of elements of a tensor of this shape.
pub open spec fn shape_product(shape: Seq<i64>) -> int
    decreases shape.len(),
{
    if shape.len() == 0 {
        1
    } else {
        shape_product(shape.drop_last()) * shape.last()
    }
}

/// The products of longer prefixes of a shape with positive dimensions are
/// no smaller, and none is negative.
proof fn lemma_prefix_product_grows(shape: Seq<i64>, i: int, j: int)
    requires
        0 <= i <= j <= shape.len(),
        forall|k: int| 0 <= k < shape.len() ==> shape[k] >= 1,
    ensures
        1 <= shape_product(shape.subrange(0, i)) <= shape_product(shape.subrange(0, j)),
    decreases j - i,
{
    if i < j {
        lemma_prefix_product_grows(shape, i, j - 1);
        let a = shape_product(shape.subrange(0, j - 1));
        assert(shape.subrange(0, j).drop_last() =~= shape.subrange(0, j - 1));
        let d = shape[j - 1] as int;
        assert(a * d >= a) by (nonlinear_arith)
            requires
                a >= 1,
                d >= 1,
        ;
    } else {
        lemma_prefix_product_positive(shape, i);
    }
}

proof fn lemma_prefix_product_positive(shape: Seq<i64>, i: int)
    requires
        0 <= i <= shape.len(),
        forall|k: int| 0 <= k < shape.len() ==> shape[k] >= 1,
    ensures
        shape_product(shape.subrange(0, i)) >= 1,
    decreases i,
{
    if i > 0 {
        lemma_prefix_product_positive(shape, i - 1);
        assert(shape.subrange(0, i).drop_last() =~= shape.subrange(0, i - 1));
        let a = shape_product(shape.subrange(0, i - 1));
        let d = shape[i - 1] as int;
        assert(a * d >= 1) by (nonlinear_arith)
            requires
                a >= 1,
                d >= 1,
        ;
    }
}

/// A shape with a zero dimension has no elements.
proof fn lemma_zero_dim_product(shape: Seq<i64>, z: int)
    requires
        0 <= z < shape.len(),
        shape[z] == 0,
    ensures
        shape_product(shape) == 0,
    decreases shape.len(),
{
    if z == shape.len() - 1 {
        assert(shape_product(shape) == shape_product(shape.drop_last()) * 0);
    } else {
        lemma_zero_dim_product(shape.drop_last(), z);
        assert(shape_product(shape) == 0 * (shape.last() as int));
    }
}

/// Bytes held by a fixed-width tensor of this type and shape: `None` for
/// the variable-width kinds, for a negative dimension, and when the size
/// does not fit in `usize`.
pub fn fixed_byte_size(data_type: DataType, shape: &[i64]) -> (r: Option<usize>)
    ensures
        r is Some <==> is_fixed_width(data_type) && valid_shape(shape@) && shape_product(shape@)
            * width_of(data_type) <= usize::MAX,
        r matches Some(n) ==> n == shape_product(shape@) * width_of(data_type),
{
    let width = data_type.byte_size();
    if width == 0 || !is_valid_shape(shape) {
        return None;
    }
    let n = shape.len();
    let mut z: usize = 0;
    while z < n
        invariant
            n == shape@.len(),
            z <= n,
            width == width_of(data_type),
            width > 0,
            valid_shape(shape@),
            forall|k: int| 0 <= k < z ==> shape@[k] != 0,
        decreases n - z,
    {
        if shape[z] == 0 {
            proof {
                lemma_zero_dim_product(shape@, z as int);
            }
            return Some(0);
        }
        z = z + 1;
    }
    assert(forall|k: int| 0 <= k < n ==> shape@[k] >= 1);
    let mut p: usize = width as usize;
    let mut i: usize = 0;
    proof {
        assert(shape@.subrange(0, 0) =~= Seq::<i64>::empty());
    }
    while i < n
        invariant
            n == shape@.len(),
            i <= n,
            width == width_of(data_type),
            width > 0,
            forall|k: int| 0 <= k < n ==> shape@[k] >= 1,
            p == shape_product(shape@.subrange(0, i as int)) * width,
        decreases n - i,
    {
        let d = shape[i];
        proof {
            assert(shape@.subrange(0, i + 1).drop_last() =~= shape@.subrange(0, i as int));
        }
        if d as u64 > usize::MAX as u64 {
            proof {
                lemma_prefix_product_grows(shape@, i + 1, n as int);
                lemma_prefix_product_positive(shape@, i as int);
                let a = shape_product(shape@.subrange(0, i as int));
                let t = shape_product(shape@.subrange(0, n as int));
                assert(a * d >= d) by (nonlinear_arith)
                    requires
                        a >= 1,
                        d >= 1,
                ;
                assert(t * width >= t) by (nonlinear_arith)
                    requires
                        width >= 1,
                        t >= 0,
                ;
                assert(shape@.subrange(0, n as int) =~= shape@);
            }
            return None;
        }
        match p.checked_mul(d as usize) {
            Some(q) => {
                proof {
                    let a = shape_product(shape@.subrange(0, i as int));
                    assert(a * width * d == a * d * width) by (nonlinear_arith);
                }
                p = q;
            },
            None => {
                proof {
                    lemma_prefix_product_grows(shape@, i + 1, n as int);
                    let a = shape_product(shape@.subrange(0, i as int));
                    let b = shape_product(shape@.subrange(0, i + 1));
                    let t = shape_product(shape@.subrange(0, n as int));
                    assert(a * width * d == a * d * width) by (nonlinear_arith);
                    assert(t * width >= b * width) by (nonlinear_arith)
                        requires
                            t >= b,
                            width >= 1,
                    ;
                    assert(shape@.subrange(0, n as int) =~= shape@);
                }
                return None;
            },
        }
        i = i + 1;
    }
    proof {
        assert(shape@.subrange(0, n as int) =~= shape@);
    }
    Some(p)
}

impl OutputData {
    /// Checks that this tensor can be viewed as an array of `expected`
    /// elements with `rank` dimensions: the type and rank match and the byte
    /// length is exactly what the shape asks for. Returns the dimensions;
    /// an `OutputError` otherwise.
    pub fn check_view(&self, expected: DataType, rank: usize) -> (r: Result<Vec<usize>, ModelExecutorError>)
        ensures
            r is Ok <==> self.data_type == expected && self.shape@.len() == rank
                && is_fixed_width(expected) && valid_shape(self.shape@) && shape_product(self.shape@)
                * width_of(expected) == self.data@.len() && forall|k: int|
                0 <= k < self.shape@.len() ==> self.shape@[k] <= usize::MAX,
            r matches Ok(dims) ==> dims@.len() == rank && forall|k: int|
                0 <= k < rank ==> dims@[k] as int == self.shape@[k] as int,
            r matches Err(e) ==> e is OutputError,
    {
        if self.data_type != expected {
            return Err(ModelExecutorError::OutputError("datatype does not match".to_string()));
        }
        if self.shape.len() != rank {
            return Err(ModelExecutorError::OutputError("rank does not match".to_string()));
        }
        match fixed_byte_size(expected, self.shape.as_slice()) {
            None => {
                let len = self.data.len();
                assert(len as int == self.data@.len());
                Err(ModelExecutorError::OutputError("shape has no fixed byte size".to_string()))
            },
            Some(n) => {
                if n != self.data.len() {
                    return Err(
                        ModelExecutorError::OutputError("byte length does not match shape".to_string()),
                    );
                }
                let mut dims: Vec<usize> = Vec::new();
                let mut i: usize = 0;
                while i < rank
                    invariant
                        rank == self.shape@.len(),
                        i <= rank,
                        valid_shape(self.shape@),
                        n as int == shape_product(self.shape@) * width_of(expected),
                        width_of(expected) >= 1,
                        dims@.len() == i,
                        forall|k: int| 0 <= k < i ==> dims@[k] as int == self.shape@[k] as int,
                        forall|k: int| 0 <= k < i ==> self.shape@[k] <= usize::MAX,
                        self.data_type == expected,
                        is_fixed_width(expected),
                        n == self.data@.len(),
                    decreases rank - i,
                {
                    let d = self.shape[i];
                    if d as u64 > usize::MAX as u64 {
                        return Err(
                            ModelExecutorError::OutputError("dimension too large".to_string()),
                        );
                    }
                    dims.push(d as usize);
                    i = i + 1;
                }
                Ok(dims)
            },
        }
    }
}

} // verus!
