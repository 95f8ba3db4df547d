//! What a launch and its spans take up: all of what they are for, and nothing else.

use vstd::prelude::*;

use crate::dtype::DType;
use crate::launch::{Launch, Span};

verus! {

/// The bytes of an element of a plain type.
pub open spec fn bytes_of(dtype: DType) -> int {
    match dtype {
        DType::F32 | DType::U32 => 4,
        DType::F16 | DType::BF16 => 2,
        DType::U8 => 1,
        _ => 8,
    }
}

/// The span is that of `count` elements of `size` bytes from `start` on.
pub open spec fn spans(s: Span, start: int, count: int, size: int) -> bool {
    s.start == start && s.end == start + count * size
}

/// Blocks along one axis, of threads along one axis, and no dynamic shared memory.
pub open spec fn is_plain(l: Launch) -> bool {
    l.grid.1 == 1 && l.grid.2 == 1 && l.block.1 == 1 && l.block.2 == 1 && l.shared_mem_bytes == 0
}

/// There is a thread for every one of `n` items, and no block without one.
pub open spec fn thread_each(l: Launch, n: int) -> bool {
    &&& is_plain(l)
    &&& l.block.0 > 0
    &&& n <= l.grid.0 * l.block.0
    &&& (l.grid.0 - 1) * l.block.0 < n || l.grid.0 <= 1
}

/// There is a block for every one of `n` items, and no other.
pub open spec fn block_each(l: Launch, n: int) -> bool {
    is_plain(l) && l.grid.0 == n && 1 <= l.block.0 <= 1024
}

/// Threads stride over `n` items: there are no more blocks than `most`, and where there are fewer,
/// a thread for every item.
pub open spec fn strides_over(l: Launch, n: int, most: int) -> bool {
    &&& is_plain(l)
    &&& 1 <= l.block.0 <= 1024
    &&& 1 <= l.grid.0 <= most
    &&& l.grid.0 < most ==> n <= l.grid.0 * l.block.0
}

/// There is a thread for every element of `batch` matrices of `rows` rows of `cols` elements, the
/// columns along the first axis and the matrices along the last.
pub open spec fn covers_matrices(l: Launch, cols: int, rows: int, batch: int) -> bool {
    &&& l.shared_mem_bytes == 0
    &&& l.grid.2 == batch && l.block.2 == 1
    &&& 1 <= l.block.0 && 1 <= l.block.1 && l.block.0 * l.block.1 <= 1024
    &&& cols <= l.grid.0 * l.block.0 < cols + l.block.0
    &&& rows <= l.grid.1 * l.block.1 < rows + l.block.1
}

/// There is a thread for every element of `rows` rows of `width` elements, a row for each place along
/// the last two axes.
pub open spec fn covers_positions(l: Launch, width: int, rows: int) -> bool {
    &&& l.shared_mem_bytes == 0
    &&& l.block.1 == 1 && l.block.2 == 1 && 1 <= l.block.0 <= 1024
    &&& width <= l.grid.0 * l.block.0 < width + l.block.0
    &&& rows <= l.grid.1 * l.grid.2
    &&& l.grid.1 <= 65535 && l.grid.2 <= 65535
}

} // verus!
