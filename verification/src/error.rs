//! Why a request is refused.

use vstd::prelude::*;

use crate::dtype::DType;

verus! {

/// The reason a request is refused. A text with `{}` in it has one value for each `{}`, in order.
#[derive(Clone, Copy, Debug, PartialEq, Eq)]
pub enum KernelError {
    /// The backend does not do this; the caller may take another path.
    Unsupported(&'static str),
    /// The backend does not do this for the element type given.
    UnsupportedDType(&'static str, DType),
    /// An operand that has to be contiguous is not.
    NonContiguous,
    /// The request is at odds with what the kernels need.
    Cuda(&'static str),
    /// As `Cuda`, with one number in the text.
    Cuda1(&'static str, u64),
    /// As `Cuda1`, with a number that may be negative.
    CudaSigned(&'static str, i64),
    /// As `Cuda`, with two numbers in the text.
    Cuda2(&'static str, u64, u64),
    /// As `Cuda`, with three numbers in the text.
    Cuda3(&'static str, u64, u64, u64),
    /// As `Cuda`, with an element type in the text.
    CudaDType(&'static str, DType),
    /// As `Cuda`, with an operand's name, the element type that it must have and the one that it
    /// has in the text.
    CudaOperand(&'static str, &'static str, DType, DType),
    /// As `Cuda`, with two names in the text.
    CudaNames(&'static str, &'static str, &'static str),
    /// Two operands that must agree in element type do not.
    DTypeMismatch(DType, DType),
    /// Two operands that must agree in shape do not.
    ShapeMismatch,
    /// A value is out of range for another reason; the text says which.
    Other(&'static str),
    /// As `Other`, with three numbers in the text.
    Other3(&'static str, u64, u64, u64),
}

} // verus!
