//! The greatest values of each row, for rows that fit shared memory.

use vstd::prelude::*;

use crate::error::KernelError;
use crate::launch::{Call, Launch};

verus! {

/// A row lies in shared memory as a whole, which bounds its width.
pub const MAX_COLS: usize = 2048;

/// Threads of a block.
pub const BLOCK: u32 = 256;

/// The outcome of a request for the `k` greatest of `cols` values of each of `rows` rows, which the
/// kernel gets.
pub open spec fn topk_rows_plan(
    rows: u32,
    cols: u32,
    k: u32,
) -> Result<Option<Call<(u32, u32, u32)>>, KernelError> {
    if rows == 0 || k == 0 {
        Ok(None)
    } else if cols > 2048 || k > cols {
        Err(KernelError::Unsupported("topk_rows: строка шире потолка"))
    } else {
        Ok(
            Some(
                Call {
                    launch: Launch {
                        kernel: "topk_rows_f32",
                        grid: (rows, 1, 1),
                        block: (256, 1, 1),
                        shared_mem_bytes: ((cols + 256) * 4 + 256 * 4) as u32,
                    },
                    args: (rows, cols, k),
                },
            ),
        )
    }
}

/// Plans the search: a block per row, with room for the row and one value and one place for each
/// thread in shared memory.
pub fn topk_rows_f32(rows: u32, cols: u32, k: u32) -> (r: Result<Option<Call<(u32, u32, u32)>>, KernelError>)
    ensures
        r == topk_rows_plan(rows, cols, k),
{
    if rows == 0 || k == 0 {
        return Ok(None);
    }
    if cols as usize > MAX_COLS || k > cols {
        return Err(KernelError::Unsupported("topk_rows: строка шире потолка"));
    }
    Ok(
        Some(
            Call {
                launch: Launch {
                    kernel: "topk_rows_f32",
                    grid: (rows, 1, 1),
                    block: (BLOCK, 1, 1),
                    shared_mem_bytes: (cols + BLOCK) * 4 + BLOCK * 4,
                },
                args: (rows, cols, k),
            },
        ),
    )
}

/// The shared memory of every launch is within the 48 KiB that a block has without asking.
pub proof fn topk_rows_shared_memory(rows: u32, cols: u32, k: u32)
    ensures
        topk_rows_plan(rows, cols, k) matches Ok(Some(c)) ==> c.launch.shared_mem_bytes == 4 * cols
            + 2048 && c.launch.shared_mem_bytes <= 49152,
{
}

} // verus!
