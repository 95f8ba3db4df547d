//! Rotary position embeddings.

use vstd::prelude::*;

use crate::arith::{fits3, fits4, lemma_mul_le_factor, mul3_u32, mul4_usize};
use crate::dtype::{float_bytes, float_entry, float_size, is_float3, spec_float_entry, DType};
use crate::error::KernelError;
use crate::launch::{launch1, span, spec_launch1, spec_span, Call, Launch, Span};

verus! {

/// The entry that rotates the first part of each head at a position read from device memory.
pub open spec fn partial_entry(dtype: DType) -> Option<&'static str> {
    spec_float_entry(
        dtype,
        "rope_apply_partial_f32",
        "rope_apply_partial_f16",
        "rope_apply_partial_bf16",
    )
}

/// Plans the rotation of the first `rotary_dim` of `head_dim` elements of `b * h * t` heads, a
/// block per head and a thread per element.
pub fn apply_partial(b: u32, h: u32, t: u32, head_dim: u32, rotary_dim: u32, dtype: DType) -> (r:
    Result<Call<(u32, u32, u32, u32, u32)>, KernelError>)
    requires
        apply_partial_plan(b, h, t, head_dim, rotary_dim, dtype) is Ok ==> fits3(
            b as int,
            h as int,
            t as int,
            u32::MAX as int,
        ),
    ensures
        r == apply_partial_plan(b, h, t, head_dim, rotary_dim, dtype),
{
    if rotary_dim > head_dim || rotary_dim % 2 != 0 {
        return Err(
            KernelError::Cuda2(
                "rope_apply_partial: rotary_dim={} must be ≤ head_dim={} and even",
                rotary_dim as u64,
                head_dim as u64,
            ),
        );
    }
    if head_dim > 1024 {
        return Err(
            KernelError::Cuda1(
                "rope_apply_partial: head_dim={} > 1024 (max block_dim)",
                head_dim as u64,
            ),
        );
    }
    match float_entry(
        dtype,
        "rope_apply_partial_f32",
        "rope_apply_partial_f16",
        "rope_apply_partial_bf16",
    ) {
        None => Err(KernelError::CudaDType("rope_apply_partial: unsupported dtype {}", dtype)),
        Some(kernel) => Ok(
            Call {
                launch: launch1(kernel, mul3_u32(b, h, t), head_dim),
                args: (b, h, t, head_dim, rotary_dim),
            },
        ),
    }
}

/// As `apply_partial`, for single floats.
pub fn apply_partial_f32(
    b: u32,
    h: u32,
    t: u32,
    head_dim: u32,
    rotary_dim: u32,
) -> (r: Result<Call<(u32, u32, u32, u32, u32)>, KernelError>)
    requires
        apply_partial_plan(b, h, t, head_dim, rotary_dim, DType::F32) is Ok ==> fits3(
            b as int,
            h as int,
            t as int,
            u32::MAX as int,
        ),
    ensures
        r == apply_partial_plan(b, h, t, head_dim, rotary_dim, DType::F32),
{
    apply_partial(b, h, t, head_dim, rotary_dim, DType::F32)
}

/// As `apply_partial`, for half floats.
pub fn apply_partial_f16(
    b: u32,
    h: u32,
    t: u32,
    head_dim: u32,
    rotary_dim: u32,
) -> (r: Result<Call<(u32, u32, u32, u32, u32)>, KernelError>)
    requires
        apply_partial_plan(b, h, t, head_dim, rotary_dim, DType::F16) is Ok ==> fits3(
            b as int,
            h as int,
            t as int,
            u32::MAX as int,
        ),
    ensures
        r == apply_partial_plan(b, h, t, head_dim, rotary_dim, DType::F16),
{
    apply_partial(b, h, t, head_dim, rotary_dim, DType::F16)
}

/// As `apply_partial`, for brain floats.
pub fn apply_partial_bf16(
    b: u32,
    h: u32,
    t: u32,
    head_dim: u32,
    rotary_dim: u32,
) -> (r: Result<Call<(u32, u32, u32, u32, u32)>, KernelError>)
    requires
        apply_partial_plan(b, h, t, head_dim, rotary_dim, DType::BF16) is Ok ==> fits3(
            b as int,
            h as int,
            t as int,
            u32::MAX as int,
        ),
    ensures
        r == apply_partial_plan(b, h, t, head_dim, rotary_dim, DType::BF16),
{
    apply_partial(b, h, t, head_dim, rotary_dim, DType::BF16)
}

/// The rotation of the first `rotary_dim` of `head_dim` elements of `b * h * t` heads.
pub open spec fn apply_partial_plan(
    b: u32,
    h: u32,
    t: u32,
    head_dim: u32,
    rotary_dim: u32,
    dtype: DType,
) -> Result<Call<(u32, u32, u32, u32, u32)>, KernelError> {
    if rotary_dim > head_dim || rotary_dim % 2 != 0 {
        Err(
            KernelError::Cuda2(
                "rope_apply_partial: rotary_dim={} must be ≤ head_dim={} and even",
                rotary_dim as u64,
                head_dim as u64,
            ),
        )
    } else if head_dim > 1024 {
        Err(
            KernelError::Cuda1(
                "rope_apply_partial: head_dim={} > 1024 (max block_dim)",
                head_dim as u64,
            ),
        )
    } else if !is_float3(dtype) {
        Err(KernelError::CudaDType("rope_apply_partial: unsupported dtype {}", dtype))
    } else {
        Ok(
            Call {
                launch: spec_launch1(partial_entry(dtype)->0, b * h * t, head_dim),
                args: (b, h, t, head_dim, rotary_dim),
            },
        )
    }
}

/// A rotation of rows of given buffers, with the whole numbers that the kernel gets.
#[derive(Clone, Copy, Debug, PartialEq, Eq)]
pub struct RopeU8<A> {
    pub launch: Launch,
    pub args: A,
    pub x: Span,
    pub out: Span,
    pub cos: Span,
    pub sin: Span,
}

/// Offsets of the operands of a rotation.
#[derive(Clone, Copy, Debug, PartialEq, Eq, Structural)]
pub struct RopeOffsets {
    pub x: usize,
    pub out: usize,
    pub cos: usize,
    pub sin: usize,
}

/// The spans of a rotation of `rows` rows of `d` elements with tables of `table` single floats.
pub open spec fn rope_spans<A>(
    args: A,
    kernel: &'static str,
    off: RopeOffsets,
    rows: u32,
    d: u32,
    table: int,
    dtype: DType,
) -> RopeU8<A> {
    RopeU8 {
        args,
        launch: spec_launch1(kernel, rows as int, d),
        x: spec_span(off.x as int, rows * d, float_size(dtype)),
        out: spec_span(off.out as int, rows * d, float_size(dtype)),
        cos: spec_span(off.cos as int, table, 4),
        sin: spec_span(off.sin as int, table, 4),
    }
}

/// The counts of a rotation fit their machine types.
pub open spec fn rope_fits(off: RopeOffsets, rows: u32, d: u32, table: int, dtype: DType) -> bool {
    &&& off.x + rows * d * float_size(dtype) <= usize::MAX
    &&& off.out + rows * d * float_size(dtype) <= usize::MAX
    &&& off.cos + table * 4 <= usize::MAX
    &&& off.sin + table * 4 <= usize::MAX
}

fn rope_of<A>(
    args: A,
    kernel: &'static str,
    off: RopeOffsets,
    rows: u32,
    d: u32,
    table: usize,
    dtype: DType,
) -> (r: RopeU8<A>)
    requires
        rope_fits(off, rows, d, table as int, dtype),
    ensures
        r == rope_spans(args, kernel, off, rows, d, table as int, dtype),
{
    proof {
        lemma_mul_le_factor(rows as int, d as int, float_size(dtype));
    }
    let esz: usize = float_bytes(dtype);
    let xn: usize = (rows as usize) * (d as usize);
    RopeU8 {
        args,
        launch: launch1(kernel, rows, d),
        x: span(off.x, xn, esz),
        out: span(off.out, xn, esz),
        cos: span(off.cos, table, 4),
        sin: span(off.sin, table, 4),
    }
}

/// The rotation of whole heads, both halves of a head sharing a table of `s_len` by `d / 2`.
pub open spec fn rope_split_plan(
    off: RopeOffsets,
    rows: u32,
    s_len: u32,
    d: u32,
    dtype: DType,
) -> Result<Option<RopeU8<(u32, u32)>>, KernelError> {
    if rows == 0 || d == 0 {
        Ok(None)
    } else if d % 2 != 0 {
        Err(KernelError::Cuda1("rope_split: head_dim={} must be even", d as u64))
    } else if d > 1024 {
        Err(KernelError::Cuda1("rope_split: head_dim={} > 1024", d as u64))
    } else if !is_float3(dtype) {
        Err(KernelError::Unsupported("rope_split: dtype"))
    } else {
        Ok(
            Some(
                rope_spans(
                    (s_len, d),
                    spec_float_entry(dtype, "rope_split_f32", "rope_split_f16", "rope_split_bf16")->0,
                    off,
                    rows,
                    d,
                    s_len * (d / 2),
                    dtype,
                ),
            ),
        )
    }
}

/// Plans the rotation of whole heads; nothing is launched for no elements.
pub fn run_rope_split_u8(
    off: RopeOffsets,
    rows: u32,
    s_len: u32,
    d: u32,
    dtype: DType,
) -> (r: Result<
    Option<RopeU8<(u32, u32)>>,
    KernelError,
>)
    requires
        rope_split_plan(off, rows, s_len, d, dtype) matches Ok(Some(_)) ==> rope_fits(
            off,
            rows,
            d,
            s_len * (d / 2),
            dtype,
        ),
    ensures
        r == rope_split_plan(off, rows, s_len, d, dtype),
{
    if rows == 0 || d == 0 {
        return Ok(None);
    }
    if d % 2 != 0 {
        return Err(KernelError::Cuda1("rope_split: head_dim={} must be even", d as u64));
    }
    if d > 1024 {
        return Err(KernelError::Cuda1("rope_split: head_dim={} > 1024", d as u64));
    }
    match float_entry(dtype, "rope_split_f32", "rope_split_f16", "rope_split_bf16") {
        None => Err(KernelError::Unsupported("rope_split: dtype")),
        Some(kernel) => {
            proof {
                assert(0 <= s_len * (d / 2)) by (nonlinear_arith);
            }
            let cn: usize = (s_len as usize) * ((d / 2) as usize);
            Ok(Some(rope_of((s_len, d), kernel, off, rows, d, cn, dtype)))
        },
    }
}

/// The rotation of the first `rot_dim` elements of each head, with a table of `s_len` by
/// `rot_dim / 2`.
pub open spec fn rope_split_partial_plan(
    off: RopeOffsets,
    rows: u32,
    s_len: u32,
    d: u32,
    rot_dim: u32,
    dtype: DType,
) -> Result<Option<RopeU8<(u32, u32, u32)>>, KernelError> {
    if rows == 0 || d == 0 {
        Ok(None)
    } else if rot_dim % 2 != 0 || rot_dim > d {
        Err(
            KernelError::Cuda2(
                "rope_split_partial: rot_dim={} vs head_dim={}",
                rot_dim as u64,
                d as u64,
            ),
        )
    } else if d > 1024 {
        Err(KernelError::Cuda1("rope_split_partial: head_dim={} > 1024", d as u64))
    } else if !is_float3(dtype) {
        Err(KernelError::Unsupported("rope_split_partial: dtype"))
    } else {
        Ok(
            Some(
                rope_spans(
                    (s_len, d, rot_dim),
                    spec_float_entry(
                        dtype,
                        "rope_split_partial_f32",
                        "rope_split_partial_f16",
                        "rope_split_partial_bf16",
                    )->0,
                    off,
                    rows,
                    d,
                    s_len * (rot_dim / 2),
                    dtype,
                ),
            ),
        )
    }
}

/// Plans the rotation of the first `rot_dim` elements of each head; nothing is launched for no
/// elements.
pub fn run_rope_split_partial_u8(
    off: RopeOffsets,
    rows: u32,
    s_len: u32,
    d: u32,
    rot_dim: u32,
    dtype: DType,
) -> (r: Result<Option<RopeU8<(u32, u32, u32)>>, KernelError>)
    requires
        rope_split_partial_plan(off, rows, s_len, d, rot_dim, dtype) matches Ok(Some(_))
            ==> rope_fits(off, rows, d, s_len * (rot_dim / 2), dtype),
    ensures
        r == rope_split_partial_plan(off, rows, s_len, d, rot_dim, dtype),
{
    if rows == 0 || d == 0 {
        return Ok(None);
    }
    if rot_dim % 2 != 0 || rot_dim > d {
        return Err(
            KernelError::Cuda2(
                "rope_split_partial: rot_dim={} vs head_dim={}",
                rot_dim as u64,
                d as u64,
            ),
        );
    }
    if d > 1024 {
        return Err(KernelError::Cuda1("rope_split_partial: head_dim={} > 1024", d as u64));
    }
    match float_entry(
        dtype,
        "rope_split_partial_f32",
        "rope_split_partial_f16",
        "rope_split_partial_bf16",
    ) {
        None => Err(KernelError::Unsupported("rope_split_partial: dtype")),
        Some(kernel) => {
            proof {
                assert(0 <= s_len * (rot_dim / 2)) by (nonlinear_arith);
            }
            let cn: usize = (s_len as usize) * ((rot_dim / 2) as usize);
            Ok(Some(rope_of((s_len, d, rot_dim), kernel, off, rows, d, cn, dtype)))
        },
    }
}

/// The rotation of neighbouring pairs of `h` heads per position, with a full table of `s_len` by
/// `d`.
pub open spec fn rope_interleaved_plan(
    off: RopeOffsets,
    rows: u32,
    h: u32,
    s_len: u32,
    d: u32,
    dtype: DType,
) -> Result<Option<RopeU8<(u32, u32, u32)>>, KernelError> {
    if rows == 0 || d == 0 {
        Ok(None)
    } else if d % 2 != 0 || d > 1024 {
        Err(KernelError::Cuda1("rope_interleaved: bad head_dim={}", d as u64))
    } else if !is_float3(dtype) {
        Err(KernelError::Unsupported("rope_interleaved: dtype"))
    } else {
        Ok(
            Some(
                rope_spans(
                    (h, s_len, d),
                    spec_float_entry(
                        dtype,
                        "rope_interleaved_f32",
                        "rope_interleaved_f16",
                        "rope_interleaved_bf16",
                    )->0,
                    off,
                    rows,
                    d,
                    s_len * d,
                    dtype,
                ),
            ),
        )
    }
}

/// Plans the rotation of neighbouring pairs; nothing is launched for no elements.
pub fn run_rope_interleaved_u8(
    off: RopeOffsets,
    rows: u32,
    h: u32,
    s_len: u32,
    d: u32,
    dtype: DType,
) -> (r: Result<Option<RopeU8<(u32, u32, u32)>>, KernelError>)
    requires
        rope_interleaved_plan(off, rows, h, s_len, d, dtype) matches Ok(Some(_)) ==> rope_fits(
            off,
            rows,
            d,
            s_len * d,
            dtype,
        ),
    ensures
        r == rope_interleaved_plan(off, rows, h, s_len, d, dtype),
{
    if rows == 0 || d == 0 {
        return Ok(None);
    }
    if d % 2 != 0 || d > 1024 {
        return Err(KernelError::Cuda1("rope_interleaved: bad head_dim={}", d as u64));
    }
    match float_entry(
        dtype,
        "rope_interleaved_f32",
        "rope_interleaved_f16",
        "rope_interleaved_bf16",
    ) {
        None => Err(KernelError::Unsupported("rope_interleaved: dtype")),
        Some(kernel) => {
            proof {
                assert(0 <= s_len * d) by (nonlinear_arith);
            }
            let cn: usize = (s_len as usize) * (d as usize);
            Ok(Some(rope_of((h, s_len, d), kernel, off, rows, d, cn, dtype)))
        },
    }
}

/// The rotation at a position read from device memory, with tables of `cos_n` elements of the
/// operands' own type.
pub open spec fn apply_partial_dev_plan(
    off: RopeOffsets,
    cos_n: usize,
    b: u32,
    h: u32,
    t: u32,
    head_dim: u32,
    rotary_dim: u32,
    dtype: DType,
) -> Result<Option<RopeU8<(u32, u32, u32, u32, u32)>>, KernelError> {
    if rotary_dim > head_dim || rotary_dim % 2 != 0 {
        Err(
            KernelError::Cuda2(
                "rope_apply u8_dev: rotary_dim={} must be ≤ head_dim={} and even",
                rotary_dim as u64,
                head_dim as u64,
            ),
        )
    } else if head_dim > 1024 {
        Err(
            KernelError::Cuda1(
                "rope_apply u8_dev: head_dim={} > 1024 (max block_dim)",
                head_dim as u64,
            ),
        )
    } else if b * h * t == 0 || head_dim == 0 {
        Ok(None)
    } else if !is_float3(dtype) {
        Err(KernelError::CudaDType("rope_apply u8_dev: unsupported dtype {}", dtype))
    } else {
        Ok(
            Some(
                RopeU8 {
                    args: (b, h, t, head_dim, rotary_dim),
                    launch: spec_launch1(partial_entry(dtype)->0, b * h * t, head_dim),
                    x: spec_span(off.x as int, b * h * t * head_dim, float_size(dtype)),
                    out: spec_span(off.out as int, b * h * t * head_dim, float_size(dtype)),
                    cos: spec_span(off.cos as int, cos_n as int, float_size(dtype)),
                    sin: spec_span(off.sin as int, cos_n as int, float_size(dtype)),
                },
            ),
        )
    }
}

/// The counts of a rotation at a position read from device memory fit their machine types.
pub open spec fn apply_dev_fits(
    off: RopeOffsets,
    cos_n: usize,
    b: u32,
    h: u32,
    t: u32,
    head_dim: u32,
    dtype: DType,
) -> bool {
    &&& fits3(b as int, h as int, t as int, u32::MAX as int)
    &&& fits4(b as int, h as int, t as int, head_dim as int, usize::MAX as int)
    &&& off.x + b * h * t * head_dim * float_size(dtype) <= usize::MAX
    &&& off.out + b * h * t * head_dim * float_size(dtype) <= usize::MAX
    &&& off.cos + cos_n * float_size(dtype) <= usize::MAX
    &&& off.sin + cos_n * float_size(dtype) <= usize::MAX
}

proof fn lemma_no_heads(b: int, h: int, t: int)
    requires
        0 <= b,
        0 <= h,
        0 <= t,
    ensures
        b * h * t == 0 <==> b == 0 || h == 0 || t == 0,
{
    assert(b * h * t == 0 <==> b == 0 || h == 0 || t == 0) by (nonlinear_arith)
        requires
            0 <= b,
            0 <= h,
            0 <= t,
    ;
}

/// Plans the rotation at a position read from device memory; nothing is launched for no elements.
pub fn apply_partial_u8_dev(
    off: RopeOffsets,
    cos_n: usize,
    b: u32,
    h: u32,
    t: u32,
    head_dim: u32,
    rotary_dim: u32,
    dtype: DType,
) -> (r: Result<Option<RopeU8<(u32, u32, u32, u32, u32)>>, KernelError>)
    requires
        apply_partial_dev_plan(off, cos_n, b, h, t, head_dim, rotary_dim, dtype) matches Ok(Some(_))
            ==> apply_dev_fits(off, cos_n, b, h, t, head_dim, dtype),
    ensures
        r == apply_partial_dev_plan(off, cos_n, b, h, t, head_dim, rotary_dim, dtype),
{
    if rotary_dim > head_dim || rotary_dim % 2 != 0 {
        return Err(
            KernelError::Cuda2(
                "rope_apply u8_dev: rotary_dim={} must be ≤ head_dim={} and even",
                rotary_dim as u64,
                head_dim as u64,
            ),
        );
    }
    if head_dim > 1024 {
        return Err(
            KernelError::Cuda1(
                "rope_apply u8_dev: head_dim={} > 1024 (max block_dim)",
                head_dim as u64,
            ),
        );
    }
    proof {
        lemma_no_heads(b as int, h as int, t as int);
    }
    if b == 0 || h == 0 || t == 0 || head_dim == 0 {
        return Ok(None);
    }
    match float_entry(
        dtype,
        "rope_apply_partial_f32",
        "rope_apply_partial_f16",
        "rope_apply_partial_bf16",
    ) {
        None => Err(KernelError::CudaDType("rope_apply u8_dev: unsupported dtype {}", dtype)),
        Some(kernel) => {
            let esz: usize = float_bytes(dtype);
            let xn: usize = mul4_usize(b as usize, h as usize, t as usize, head_dim as usize);
            Ok(
                Some(
                    RopeU8 {
                        args: (b, h, t, head_dim, rotary_dim),
                        launch: launch1(kernel, mul3_u32(b, h, t), head_dim),
                        x: span(off.x, xn, esz),
                        out: span(off.out, xn, esz),
                        cos: span(off.cos, cos_n, esz),
                        sin: span(off.sin, cos_n, esz),
                    },
                ),
            )
        },
    }
}

/// Every accepted rotation has a block that the device takes and a thread for each element of a
/// head, and rotates an even number of them.
pub proof fn accepted_rotations_fit_blocks(
    off: RopeOffsets,
    rows: u32,
    h: u32,
    s_len: u32,
    d: u32,
    rot_dim: u32,
    dtype: DType,
)
    ensures
        rope_split_plan(off, rows, s_len, d, dtype) matches Ok(Some(p)) ==> p.launch.block == (
            d,
            1u32,
            1u32,
        ) && d <= 1024 && d % 2 == 0,
        rope_split_partial_plan(off, rows, s_len, d, rot_dim, dtype) matches Ok(Some(p))
            ==> p.launch.block == (d, 1u32, 1u32) && rot_dim <= d <= 1024 && rot_dim % 2 == 0,
        rope_interleaved_plan(off, rows, h, s_len, d, dtype) matches Ok(Some(p)) ==> p.launch.block
            == (d, 1u32, 1u32) && d <= 1024 && d % 2 == 0,
{
}

} // verus!
