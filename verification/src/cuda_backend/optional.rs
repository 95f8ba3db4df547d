//! Operands that a request may leave out.

use vstd::prelude::*;

use crate::dtype::DType;
use crate::layout::Operand;

verus! {

/// The operand itself, where there is one.
pub open spec fn given(o: Option<&Operand>) -> Option<Operand> {
    match o {
        Some(x) => Some(*x),
        None => None,
    }
}

/// There is an operand, and it is not one row of `n` elements of the type `dtype`.
pub open spec fn not_a_row(o: Option<Operand>, dtype: DType, n: usize) -> bool {
    match o {
        Some(x) => x.layout.dtype != dtype || x.layout.dims@.len() != 1 || x.layout.dims@[0] != n,
        None => false,
    }
}

/// There is an operand, and it has gaps.
pub open spec fn has_gaps(o: Option<Operand>) -> bool {
    match o {
        Some(x) => !x.layout.contiguous,
        None => false,
    }
}

/// There is an operand, and it is not on a device.
pub open spec fn off_device(o: Option<Operand>) -> bool {
    match o {
        Some(x) => !x.cuda,
        None => false,
    }
}

/// There is an operand, and it is not contiguous with `n` elements of the type `dtype`.
pub open spec fn not_of_size(o: Option<Operand>, dtype: DType, n: int) -> bool {
    match o {
        Some(x) => x.layout.dtype != dtype || !x.layout.contiguous || x.layout.numel != n,
        None => false,
    }
}

/// There is an operand, and it does not start at the first element of its buffer.
pub open spec fn starts_later(o: Option<Operand>) -> bool {
    match o {
        Some(x) => x.layout.offset != 0,
        None => false,
    }
}

/// Where the operand starts, where there is one.
pub open spec fn start_of(o: Option<Operand>) -> Option<usize> {
    match o {
        Some(x) => Some(x.layout.byte_offset),
        None => None,
    }
}

pub(crate) fn is_not_a_row(o: Option<&Operand>, dtype: DType, n: usize) -> (r: bool)
    ensures
        r == not_a_row(given(o), dtype, n),
{
    match o {
        Some(x) => x.layout.dtype != dtype || x.layout.dims.len() != 1 || x.layout.dims[0] != n,
        None => false,
    }
}

pub(crate) fn is_with_gaps(o: Option<&Operand>) -> (r: bool)
    ensures
        r == has_gaps(given(o)),
{
    match o {
        Some(x) => !x.layout.contiguous,
        None => false,
    }
}

pub(crate) fn is_off_device(o: Option<&Operand>) -> (r: bool)
    ensures
        r == off_device(given(o)),
{
    match o {
        Some(x) => !x.cuda,
        None => false,
    }
}

pub(crate) fn is_not_of_size(o: Option<&Operand>, dtype: DType, n: usize) -> (r: bool)
    ensures
        r == not_of_size(given(o), dtype, n as int),
{
    match o {
        Some(x) => x.layout.dtype != dtype || !x.layout.contiguous || x.layout.numel != n,
        None => false,
    }
}

pub(crate) fn is_starting_later(o: Option<&Operand>) -> (r: bool)
    ensures
        r == starts_later(given(o)),
{
    match o {
        Some(x) => x.layout.offset != 0,
        None => false,
    }
}

pub(crate) fn start(o: Option<&Operand>) -> (r: Option<usize>)
    ensures
        r == start_of(given(o)),
{
    match o {
        Some(x) => Some(x.layout.byte_offset),
        None => None,
    }
}

} // verus!
