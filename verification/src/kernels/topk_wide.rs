//! The greatest values of each row, for rows of any width.

use vstd::prelude::*;

use crate::error::KernelError;
use crate::launch::{launch1, spec_launch1, Call};

verus! {

/// The outcome of a request for the `k` greatest of `cols` values of each of `rows` rows, which the
/// kernel gets.
pub open spec fn topk_wide_plan(
    rows: u32,
    cols: u32,
    k: u32,
) -> Result<Option<Call<(u32, u32, u32)>>, KernelError> {
    if rows == 0 || k == 0 {
        Ok(None)
    } else if k > cols {
        Err(KernelError::Unsupported("topk_wide: k шире строки"))
    } else {
        Ok(
            Some(
                Call {
                    launch: spec_launch1("topk_wide_f32", rows as int, 256),
                    args: (rows, cols, k),
                },
            ),
        )
    }
}

/// Plans the search for the `k` greatest of `cols` values of each of `rows` rows: a block per row.
pub fn topk_wide_f32(rows: u32, cols: u32, k: u32) -> (r: Result<Option<Call<(u32, u32, u32)>>, KernelError>)
    ensures
        r == topk_wide_plan(rows, cols, k),
{
    if rows == 0 || k == 0 {
        return Ok(None);
    }
    if k > cols {
        return Err(KernelError::Unsupported("topk_wide: k шире строки"));
    }
    Ok(Some(Call { launch: launch1("topk_wide_f32", rows, 256), args: (rows, cols, k) }))
}

} // verus!
