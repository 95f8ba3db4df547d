//! Rotary position embeddings of tensors.

use vstd::prelude::*;

use crate::cuda_backend::CudaBackend;
use crate::dtype::{lemma_float_bytes, DType};
use crate::elementwise::rope::{
    apply_dev_fits, apply_partial_dev_plan, apply_partial_u8_dev, rope_interleaved_plan,
    rope_split_partial_plan, rope_split_plan, run_rope_interleaved_u8, run_rope_split_partial_u8,
    run_rope_split_u8, RopeOffsets, RopeU8,
};
use crate::error::KernelError;
use crate::launch::{span, spec_span, Span};
use crate::layout::{
    lemma_four, lemma_last_two, lemma_rows, lemma_volume_bounds, row_count, rows_by, same_dims,
    Layout, Operand,
};

verus! {

/// A rotation of the first part of each head. The position of a row is its number divided by
/// `pos_div`.
#[derive(Clone, Copy, Debug, PartialEq, Eq)]
pub struct RopePartial {
    pub rope: RopeU8<(u32, u32, u32)>,
    pub pos_div: u32,
}

/// A rotation at a position that is read from device memory.
#[derive(Clone, Copy, Debug, PartialEq, Eq)]
pub struct RopeDev {
    pub rope: Option<RopeU8<(u32, u32, u32, u32, u32)>>,
    pub start_pos: Span,
}

/// Where the operands start.
pub open spec fn rope_offsets(x: Operand, cos: Operand, sin: Operand) -> RopeOffsets {
    RopeOffsets {
        x: x.layout.byte_offset,
        out: 0,
        cos: cos.layout.byte_offset,
        sin: sin.layout.byte_offset,
    }
}

fn offsets_of(x: &Operand, cos: &Operand, sin: &Operand) -> (r: RopeOffsets)
    ensures
        r == rope_offsets(*x, *cos, *sin),
{
    RopeOffsets {
        x: x.layout.byte_offset,
        out: 0,
        cos: cos.layout.byte_offset,
        sin: sin.layout.byte_offset,
    }
}

/// The rows of a tensor as the kernels take them.
pub open spec fn cut_rows(x: Layout, d: usize) -> u32 {
    (row_count(x, d) as usize) as u32
}

/// The outcome of a request for a rotation of halves against each other.
pub open spec fn backend_rope_split(x: Operand, cos: Operand, sin: Operand, out: Operand) -> Result<
    Option<RopeU8<(u32, u32)>>,
    KernelError,
> {
    let xd = x.layout.dims@;
    let cd = cos.layout.dims@;
    if cos.layout.dtype != DType::F32 || sin.layout.dtype != DType::F32 {
        Err(KernelError::Unsupported("cuda rope_split: cos/sin must be F32"))
    } else if xd.len() < 2 {
        Err(KernelError::Unsupported("cuda rope_split: x rank < 2"))
    } else if cd.len() != 2 || cd[0] != xd[xd.len() - 2] || cd[1] * 2 != xd.last() {
        Err(KernelError::Unsupported("cuda rope_split: cos shape"))
    } else if sin.layout.dims@ != cd {
        Err(KernelError::Unsupported("cuda rope_split: sin shape"))
    } else if !x.layout.contiguous || !cos.layout.contiguous || !sin.layout.contiguous {
        Err(KernelError::NonContiguous)
    } else if !x.cuda {
        Err(KernelError::Unsupported("cuda rope_split: x non-cuda"))
    } else if !cos.cuda {
        Err(KernelError::Unsupported("cuda rope_split: cos non-cuda"))
    } else if !sin.cuda {
        Err(KernelError::Unsupported("cuda rope_split: sin non-cuda"))
    } else if !out.cuda {
        Err(KernelError::Unsupported("cuda rope_split: out non-cuda"))
    } else {
        rope_split_plan(
            rope_offsets(x, cos, sin),
            cut_rows(x.layout, xd.last()),
            xd[xd.len() - 2] as u32,
            xd.last() as u32,
            x.layout.dtype,
        )
    }
}

/// The number of positions and the rows per position of a rotation of `x` with a table of
/// `positions` rows: a position per row of the last matrix, or per matrix.
pub open spec fn positions_of(xd: Seq<usize>, positions: usize) -> Option<(usize, usize)> {
    let s = xd[xd.len() - 2];
    if positions == s {
        Some((s, 1))
    } else if xd.len() >= 3 && positions == xd[xd.len() - 3] {
        Some((xd[xd.len() - 3], s))
    } else {
        None
    }
}

/// The outcome of a request for a rotation of the first part of each head.
pub open spec fn backend_rope_partial(
    x: Operand,
    cos: Operand,
    sin: Operand,
    rot_dim: usize,
    out: Operand,
) -> Result<Option<RopePartial>, KernelError> {
    let xd = x.layout.dims@;
    let cd = cos.layout.dims@;
    if cos.layout.dtype != DType::F32 || sin.layout.dtype != DType::F32 {
        Err(KernelError::Unsupported("cuda rope_split_partial: cos/sin must be F32"))
    } else if xd.len() < 2 {
        Err(KernelError::Unsupported("cuda rope_split_partial: x rank < 2"))
    } else if rot_dim == 0 || rot_dim % 2 != 0 || rot_dim > xd.last() {
        Err(KernelError::Unsupported("cuda rope_split_partial: rot_dim"))
    } else if cd.len() != 2 || cd[1] * 2 != rot_dim || positions_of(xd, cd[0]) is None {
        Err(KernelError::Unsupported("cuda rope_split_partial: cos shape"))
    } else if sin.layout.dims@ != cd {
        Err(KernelError::Unsupported("cuda rope_split_partial: sin shape"))
    } else if !x.layout.contiguous || !cos.layout.contiguous || !sin.layout.contiguous {
        Err(KernelError::NonContiguous)
    } else if !x.cuda {
        Err(KernelError::Unsupported("cuda rope_split_partial: x non-cuda"))
    } else if !cos.cuda {
        Err(KernelError::Unsupported("cuda rope_split_partial: cos non-cuda"))
    } else if !sin.cuda {
        Err(KernelError::Unsupported("cuda rope_split_partial: sin non-cuda"))
    } else if !out.cuda {
        Err(KernelError::Unsupported("cuda rope_split_partial: out non-cuda"))
    } else {
        let (s_len, pos_div) = positions_of(xd, cd[0])->0;
        match rope_split_partial_plan(
            rope_offsets(x, cos, sin),
            cut_rows(x.layout, xd.last()),
            s_len as u32,
            xd.last() as u32,
            rot_dim as u32,
            x.layout.dtype,
        ) {
            Err(e) => Err(e),
            Ok(None) => Ok(None),
            Ok(Some(rope)) => Ok(Some(RopePartial { rope, pos_div: pos_div as u32 })),
        }
    }
}

/// The outcome of a request for a rotation of neighbours against each other.
pub open spec fn backend_rope_interleaved(
    x: Operand,
    cos: Operand,
    sin: Operand,
    h: usize,
    out: Operand,
) -> Result<Option<RopeU8<(u32, u32, u32)>>, KernelError> {
    let xd = x.layout.dims@;
    if cos.layout.dtype != DType::F32 || sin.layout.dtype != DType::F32 {
        Err(KernelError::Unsupported("cuda rope_interleaved: cos/sin must be F32"))
    } else if xd.len() != 4 {
        Err(KernelError::Unsupported("cuda rope_interleaved: x rank != 4"))
    } else if xd[2] != h {
        Err(KernelError::Unsupported("cuda rope_interleaved: h mismatch"))
    } else if cos.layout.numel != xd[1] * xd[3] || sin.layout.numel != xd[1] * xd[3] {
        Err(KernelError::Unsupported("cuda rope_interleaved: cos/sin numel"))
    } else if !x.layout.contiguous || !cos.layout.contiguous || !sin.layout.contiguous {
        Err(KernelError::NonContiguous)
    } else if !x.cuda {
        Err(KernelError::Unsupported("cuda rope_interleaved: x non-cuda"))
    } else if !cos.cuda {
        Err(KernelError::Unsupported("cuda rope_interleaved: cos non-cuda"))
    } else if !sin.cuda {
        Err(KernelError::Unsupported("cuda rope_interleaved: sin non-cuda"))
    } else if !out.cuda {
        Err(KernelError::Unsupported("cuda rope_interleaved: out non-cuda"))
    } else {
        rope_interleaved_plan(
            rope_offsets(x, cos, sin),
            cut_rows(x.layout, xd[3]),
            h as u32,
            xd[1] as u32,
            xd[3] as u32,
            x.layout.dtype,
        )
    }
}

/// The outcome of a request for a rotation at a position in device memory.
pub open spec fn backend_rope_dev(
    x: Operand,
    cos: Operand,
    sin: Operand,
    start_pos: Operand,
    out: Operand,
    rotary_dim: usize,
) -> Result<RopeDev, KernelError> {
    let xd = x.layout.dims@;
    let dtype = x.layout.dtype;
    if cos.layout.dtype != dtype || sin.layout.dtype != dtype {
        Err(KernelError::Unsupported("cuda rope_apply_dev: cos/sin dtype must match x"))
    } else if start_pos.layout.dtype != DType::U32 {
        Err(KernelError::Unsupported("cuda rope_apply_dev: start_pos must be U32"))
    } else if xd.len() != 4 {
        Err(KernelError::Unsupported("cuda rope_apply_dev: x must be rank-4 [b,h,t,hd]"))
    } else if !x.layout.contiguous || !cos.layout.contiguous || !sin.layout.contiguous {
        Err(KernelError::NonContiguous)
    } else if sin.layout.numel != cos.layout.numel {
        Err(KernelError::Unsupported("cuda rope_apply_dev: cos/sin numel mismatch"))
    } else if !x.cuda {
        Err(KernelError::Unsupported("cuda rope_apply_dev: x non-cuda"))
    } else if !cos.cuda {
        Err(KernelError::Unsupported("cuda rope_apply_dev: cos non-cuda"))
    } else if !sin.cuda {
        Err(KernelError::Unsupported("cuda rope_apply_dev: sin non-cuda"))
    } else if !start_pos.cuda {
        Err(KernelError::Unsupported("cuda rope_apply_dev: start_pos non-cuda"))
    } else if !out.cuda {
        Err(KernelError::Unsupported("cuda rope_apply_dev: out non-cuda"))
    } else {
        match apply_partial_dev_plan(
            rope_offsets(x, cos, sin),
            cos.layout.numel,
            xd[0] as u32,
            xd[1] as u32,
            xd[2] as u32,
            xd[3] as u32,
            rotary_dim as u32,
            dtype,
        ) {
            Err(e) => Err(e),
            Ok(rope) => Ok(
                RopeDev { rope, start_pos: spec_span(start_pos.layout.byte_offset as int, 1, 4) },
            ),
        }
    }
}

/// A table of `s` rows of `half` single floats, both cut to what the kernels take, is within the
/// buffer that it is in.
proof fn lemma_table(cos: Layout, s: usize, half: usize)
    requires
        cos.wf(),
        cos.dims@.len() == 2,
        cos.dims@[0] == s,
        cos.dims@[1] == half,
    ensures
        0 <= (s as u32) * (((half * 2) as u32) / 2) * 4 <= isize::MAX,
        half * 8 <= isize::MAX,
        isize::MAX + isize::MAX <= usize::MAX,
{
    lemma_last_two(cos.dims@);
    lemma_volume_bounds(cos.dims@);
    assert(cos.dims@[1] <= crate::layout::padded_volume(cos.dims@));
    let a = (s as u32) as int;
    let b = (((half * 2) as u32) / 2) as int;
    assert(0 <= a <= s);
    assert(0 <= b <= half);
    assert(0 <= a * b <= s * half) by (nonlinear_arith)
        requires
            0 <= a <= s,
            0 <= b <= half,
    ;
}

impl CudaBackend {
    /// Plans a rotation of halves against each other.
    pub fn rope_split(
        &self,
        x: &Operand,
        cos: &Operand,
        sin: &Operand,
        out: &Operand,
    ) -> (r: Result<
        Option<RopeU8<(u32, u32)>>,
        KernelError,
    >)
        requires
            x.wf(),
            cos.wf(),
            sin.wf(),
        ensures
            r == backend_rope_split(*x, *cos, *sin, *out),
    {
        if cos.layout.dtype != DType::F32 || sin.layout.dtype != DType::F32 {
            return Err(KernelError::Unsupported("cuda rope_split: cos/sin must be F32"));
        }
        let xr: usize = x.layout.dims.len();
        if xr < 2 {
            return Err(KernelError::Unsupported("cuda rope_split: x rank < 2"));
        }
        let d: usize = x.layout.dims[xr - 1];
        let s_len: usize = x.layout.dims[xr - 2];
        proof {
            lemma_volume_bounds(cos.layout.dims@);
            if cos.layout.dims@.len() == 2 {
                assert(cos.layout.dims@[1] <= crate::layout::padded_volume(cos.layout.dims@));
            }
        }
        if cos.layout.dims.len() != 2 || cos.layout.dims[0] != s_len || cos.layout.dims[1] * 2 != d {
            return Err(KernelError::Unsupported("cuda rope_split: cos shape"));
        }
        if !same_dims(&sin.layout.dims, &cos.layout.dims) {
            return Err(KernelError::Unsupported("cuda rope_split: sin shape"));
        }
        if !x.layout.contiguous || !cos.layout.contiguous || !sin.layout.contiguous {
            return Err(KernelError::NonContiguous);
        }
        let rows: usize = rows_by(&x.layout, d);
        if !x.cuda {
            return Err(KernelError::Unsupported("cuda rope_split: x non-cuda"));
        }
        if !cos.cuda {
            return Err(KernelError::Unsupported("cuda rope_split: cos non-cuda"));
        }
        if !sin.cuda {
            return Err(KernelError::Unsupported("cuda rope_split: sin non-cuda"));
        }
        if !out.cuda {
            return Err(KernelError::Unsupported("cuda rope_split: out non-cuda"));
        }
        proof {
            lemma_rows(x.layout, d);
            lemma_float_bytes((rows as u32) * (d as u32), x.layout.dtype);
            lemma_table(cos.layout, s_len, cos.layout.dims@[1]);
        }
        run_rope_split_u8(
            offsets_of(x, cos, sin),
            rows as u32,
            s_len as u32,
            d as u32,
            x.layout.dtype,
        )
    }

    /// Plans a rotation of the first `rot_dim` elements of each head.
    pub fn rope_split_partial(
        &self,
        x: &Operand,
        cos: &Operand,
        sin: &Operand,
        rot_dim: usize,
        out: &Operand,
    ) -> (r: Result<Option<RopePartial>, KernelError>)
        requires
            x.wf(),
            cos.wf(),
            sin.wf(),
        ensures
            r == backend_rope_partial(*x, *cos, *sin, rot_dim, *out),
    {
        if cos.layout.dtype != DType::F32 || sin.layout.dtype != DType::F32 {
            return Err(KernelError::Unsupported("cuda rope_split_partial: cos/sin must be F32"));
        }
        let xr: usize = x.layout.dims.len();
        if xr < 2 {
            return Err(KernelError::Unsupported("cuda rope_split_partial: x rank < 2"));
        }
        let d: usize = x.layout.dims[xr - 1];
        let mut s_len: usize = x.layout.dims[xr - 2];
        let mut pos_div: usize = 1;
        if rot_dim == 0 || rot_dim % 2 != 0 || rot_dim > d {
            return Err(KernelError::Unsupported("cuda rope_split_partial: rot_dim"));
        }
        proof {
            lemma_volume_bounds(cos.layout.dims@);
            if cos.layout.dims@.len() == 2 {
                assert(cos.layout.dims@[1] <= crate::layout::padded_volume(cos.layout.dims@));
            }
        }
        if cos.layout.dims.len() != 2 || cos.layout.dims[1] * 2 != rot_dim {
            return Err(KernelError::Unsupported("cuda rope_split_partial: cos shape"));
        }
        if cos.layout.dims[0] != s_len {
            if xr >= 3 && cos.layout.dims[0] == x.layout.dims[xr - 3] {
                pos_div = s_len;
                s_len = x.layout.dims[xr - 3];
            } else {
                return Err(KernelError::Unsupported("cuda rope_split_partial: cos shape"));
            }
        }
        if !same_dims(&sin.layout.dims, &cos.layout.dims) {
            return Err(KernelError::Unsupported("cuda rope_split_partial: sin shape"));
        }
        if !x.layout.contiguous || !cos.layout.contiguous || !sin.layout.contiguous {
            return Err(KernelError::NonContiguous);
        }
        let rows: usize = rows_by(&x.layout, d);
        if !x.cuda {
            return Err(KernelError::Unsupported("cuda rope_split_partial: x non-cuda"));
        }
        if !cos.cuda {
            return Err(KernelError::Unsupported("cuda rope_split_partial: cos non-cuda"));
        }
        if !sin.cuda {
            return Err(KernelError::Unsupported("cuda rope_split_partial: sin non-cuda"));
        }
        if !out.cuda {
            return Err(KernelError::Unsupported("cuda rope_split_partial: out non-cuda"));
        }
        proof {
            lemma_rows(x.layout, d);
            lemma_float_bytes((rows as u32) * (d as u32), x.layout.dtype);
            lemma_table(cos.layout, s_len, cos.layout.dims@[1]);
        }
        match run_rope_split_partial_u8(
            offsets_of(x, cos, sin),
            rows as u32,
            s_len as u32,
            d as u32,
            rot_dim as u32,
            x.layout.dtype,
        ) {
            Err(e) => Err(e),
            Ok(None) => Ok(None),
            Ok(Some(rope)) => Ok(Some(RopePartial { rope, pos_div: pos_div as u32 })),
        }
    }

    /// Plans a rotation of neighbours against each other in `[B, S, H, D]`.
    pub fn rope_interleaved(
        &self,
        x: &Operand,
        cos: &Operand,
        sin: &Operand,
        h: usize,
        out: &Operand,
    ) -> (r:
        Result<Option<RopeU8<(u32, u32, u32)>>, KernelError>)
        requires
            x.wf(),
            cos.wf(),
            sin.wf(),
        ensures
            r == backend_rope_interleaved(*x, *cos, *sin, h, *out),
    {
        if cos.layout.dtype != DType::F32 || sin.layout.dtype != DType::F32 {
            return Err(KernelError::Unsupported("cuda rope_interleaved: cos/sin must be F32"));
        }
        if x.layout.dims.len() != 4 {
            return Err(KernelError::Unsupported("cuda rope_interleaved: x rank != 4"));
        }
        let d: usize = x.layout.dims[3];
        let s_len: usize = x.layout.dims[1];
        if x.layout.dims[2] != h {
            return Err(KernelError::Unsupported("cuda rope_interleaved: h mismatch"));
        }
        proof {
            lemma_four(x.layout.dims@);
        }
        let table: usize = s_len * d;
        if cos.layout.numel != table || sin.layout.numel != table {
            return Err(KernelError::Unsupported("cuda rope_interleaved: cos/sin numel"));
        }
        if !x.layout.contiguous || !cos.layout.contiguous || !sin.layout.contiguous {
            return Err(KernelError::NonContiguous);
        }
        let rows: usize = rows_by(&x.layout, d);
        if !x.cuda {
            return Err(KernelError::Unsupported("cuda rope_interleaved: x non-cuda"));
        }
        if !cos.cuda {
            return Err(KernelError::Unsupported("cuda rope_interleaved: cos non-cuda"));
        }
        if !sin.cuda {
            return Err(KernelError::Unsupported("cuda rope_interleaved: sin non-cuda"));
        }
        if !out.cuda {
            return Err(KernelError::Unsupported("cuda rope_interleaved: out non-cuda"));
        }
        proof {
            lemma_rows(x.layout, d);
            lemma_float_bytes((rows as u32) * (d as u32), x.layout.dtype);
            lemma_volume_bounds(cos.layout.dims@);
            let a = (s_len as u32) as int;
            let b = (d as u32) as int;
            assert(0 <= a * b <= s_len * d) by (nonlinear_arith)
                requires
                    0 <= a <= s_len,
                    0 <= b <= d,
            ;
        }
        run_rope_interleaved_u8(
            offsets_of(x, cos, sin),
            rows as u32,
            h as u32,
            s_len as u32,
            d as u32,
            x.layout.dtype,
        )
    }

    /// Plans a rotation of `[b, h, t, hd]` at a position that is read from device memory.
    pub fn rope_apply_dev(
        &self,
        x: &Operand,
        cos: &Operand,
        sin: &Operand,
        start_pos: &Operand,
        out: &Operand,
        rotary_dim: usize,
    ) -> (r: Result<RopeDev, KernelError>)
        requires
            x.wf(),
            cos.wf(),
            sin.wf(),
            start_pos.wf(),
            backend_rope_dev(*x, *cos, *sin, *start_pos, *out, rotary_dim) is Ok ==> apply_dev_fits(
                rope_offsets(*x, *cos, *sin),
                cos.layout.numel,
                x.layout.dims@[0] as u32,
                x.layout.dims@[1] as u32,
                x.layout.dims@[2] as u32,
                x.layout.dims@[3] as u32,
                x.layout.dtype,
            ),
        ensures
            r == backend_rope_dev(*x, *cos, *sin, *start_pos, *out, rotary_dim),
    {
        let dtype = x.layout.dtype;
        if cos.layout.dtype != dtype || sin.layout.dtype != dtype {
            return Err(KernelError::Unsupported("cuda rope_apply_dev: cos/sin dtype must match x"));
        }
        if start_pos.layout.dtype != DType::U32 {
            return Err(KernelError::Unsupported("cuda rope_apply_dev: start_pos must be U32"));
        }
        if x.layout.dims.len() != 4 {
            return Err(
                KernelError::Unsupported("cuda rope_apply_dev: x must be rank-4 [b,h,t,hd]"),
            );
        }
        if !x.layout.contiguous || !cos.layout.contiguous || !sin.layout.contiguous {
            return Err(KernelError::NonContiguous);
        }
        if sin.layout.numel != cos.layout.numel {
            return Err(KernelError::Unsupported("cuda rope_apply_dev: cos/sin numel mismatch"));
        }
        if !x.cuda {
            return Err(KernelError::Unsupported("cuda rope_apply_dev: x non-cuda"));
        }
        if !cos.cuda {
            return Err(KernelError::Unsupported("cuda rope_apply_dev: cos non-cuda"));
        }
        if !sin.cuda {
            return Err(KernelError::Unsupported("cuda rope_apply_dev: sin non-cuda"));
        }
        if !start_pos.cuda {
            return Err(KernelError::Unsupported("cuda rope_apply_dev: start_pos non-cuda"));
        }
        if !out.cuda {
            return Err(KernelError::Unsupported("cuda rope_apply_dev: out non-cuda"));
        }
        match apply_partial_u8_dev(
            offsets_of(x, cos, sin),
            cos.layout.numel,
            x.layout.dims[0] as u32,
            x.layout.dims[1] as u32,
            x.layout.dims[2] as u32,
            x.layout.dims[3] as u32,
            rotary_dim as u32,
            dtype,
        ) {
            Err(e) => Err(e),
            Ok(rope) => Ok(RopeDev { rope, start_pos: span(start_pos.layout.byte_offset, 1, 4) }),
        }
    }
}

/// In a rotation of a dense tensor, rows of one position are neighbours: row `r` has position
/// `r / pos_div % positions`, whichever of the two shapes of table is given.
pub proof fn positions_cover(xd: Seq<usize>, positions: usize, outer: int, i: int, j: int)
    requires
        xd.len() >= 3,
        0 <= outer,
        0 <= i < xd[xd.len() - 3],
        0 <= j < xd[xd.len() - 2],
    ensures
        positions_of(xd, positions) matches Some((s, div)) ==> {
            let row = (outer * xd[xd.len() - 3] + i) * xd[xd.len() - 2] + j;
            &&& s == positions
            &&& positions == xd[xd.len() - 2] ==> (row / (div as int)) % (s as int) == j
            &&& positions != xd[xd.len() - 2] ==> (row / (div as int)) % (s as int) == i
        },
{
    let h = xd[xd.len() - 3] as int;
    let t = xd[xd.len() - 2] as int;
    let q = outer * h + i;
    let row = q * t + j;
    vstd::arithmetic::div_mod::lemma_fundamental_div_mod_converse(row, t, q, j);
    vstd::arithmetic::div_mod::lemma_fundamental_div_mod_converse(q, h, outer, i);
    assert(row / 1 == row);
}

} // verus!
