//! Appending keys and values to their caches.

use vstd::prelude::*;

use crate::arith::{
    ceil_div, div_ceil_u32, fits4, lemma_ceil_div, max2, max_u32, mul4_u32, mul4_usize,
};
use crate::dtype::{float_bytes, float_entry, float_size, is_float3, is_half, spec_float_entry, DType};
use crate::error::KernelError;
use crate::launch::{launch1, span, spec_launch1, spec_span, Call, Launch, Span};

verus! {

/// Threads of a block.
pub const BLOCK: u32 = 128;

/// Blocks for `b * kv * t_new * hd` elements that threads take two at a time.
pub fn n_h2_grid(b: u32, kv: u32, t_new: u32, hd: u32) -> (r: u32)
    requires
        fits4(b as int, kv as int, t_new as int, hd as int, u32::MAX as int),
    ensures
        r == ceil_div((b * kv * t_new * hd) / 2, 128),
{
    div_ceil_u32(mul4_u32(b, kv, t_new, hd) / 2, BLOCK)
}

/// Blocks for `b * kv * t_new * hd` elements.
pub fn n_grid(b: u32, kv: u32, t_new: u32, hd: u32) -> (r: u32)
    requires
        fits4(b as int, kv as int, t_new as int, hd as int, u32::MAX as int),
    ensures
        r == ceil_div(b * kv * t_new * hd, 128),
{
    div_ceil_u32(mul4_u32(b, kv, t_new, hd), BLOCK)
}

/// Blocks for an append: half floats go two at a time. There is always one.
pub open spec fn append_grid(n: int, dtype: DType) -> int {
    max2(ceil_div(if is_half(dtype) { n / 2 } else { n }, 128), 1)
}

/// The threads take every element: for half floats wherever there is an even number of them.
pub proof fn append_grid_covers(n: int, dtype: DType)
    requires
        0 <= n,
        is_half(dtype) ==> n % 2 == 0,
    ensures
        append_grid(n, dtype) * 128 * (if is_half(dtype) { 2int } else { 1int }) >= n,
{
    lemma_ceil_div(if is_half(dtype) { n / 2 } else { n }, 128);
}

/// An append to a cache.
#[derive(Clone, Copy, Debug, PartialEq, Eq)]
pub struct AppendU8 {
    pub launch: Launch,
    /// Batch, heads, new positions, width and positions of the cache, which the kernel gets before
    /// the position.
    pub args: (u32, u32, u32, u32, u32),
    /// The position, unless it is read from device memory.
    pub seq_pos: Option<u32>,
    pub src: Span,
    pub dst: Span,
}

/// The entry that takes the position as a value, or with `dev` from device memory.
pub open spec fn append_entry(dtype: DType, dev: bool) -> Option<&'static str> {
    if dev {
        spec_float_entry(
            dtype,
            "kv_append_slice_f32_dev",
            "kv_append_slice_f16_dev",
            "kv_append_slice_bf16_dev",
        )
    } else {
        spec_float_entry(dtype, "kv_append_slice_f32", "kv_append_slice_f16", "kv_append_slice_bf16")
    }
}

/// An append of `t_new` positions of `b * kv` heads of width `hd` to a cache of `max_seq_len`
/// positions, from `seq_pos` on or from a position on that is read from device memory.
pub open spec fn append_plan(
    src_off: int,
    dst_off: int,
    b: u32,
    kv: u32,
    t_new: u32,
    hd: u32,
    max_seq_len: u32,
    dtype: DType,
    seq_pos: Option<u32>,
) -> Result<AppendU8, KernelError> {
    let dev = seq_pos is None;
    if is_half(dtype) && hd % 2 != 0 {
        if dev {
            Err(KernelError::Cuda1("kv_append u8_dev: hd={} must be even", hd as u64))
        } else {
            Err(KernelError::Cuda1("kv_append u8: hd={} must be even", hd as u64))
        }
    } else if !is_float3(dtype) {
        if dev {
            Err(KernelError::CudaDType("kv_append u8_dev: unsupported dtype {}", dtype))
        } else {
            Err(KernelError::CudaDType("kv_append u8: unsupported dtype {}", dtype))
        }
    } else {
        Ok(
            AppendU8 {
                launch: spec_launch1(
                    append_entry(dtype, dev)->0,
                    append_grid(b * kv * t_new * hd, dtype),
                    BLOCK,
                ),
                args: (b, kv, t_new, hd, max_seq_len),
                seq_pos,
                src: spec_span(src_off, b * kv * t_new * hd, float_size(dtype)),
                dst: spec_span(dst_off, b * kv * max_seq_len * hd, float_size(dtype)),
            },
        )
    }
}

/// The counts of an append fit their machine types.
pub open spec fn append_fits(
    src_off: int,
    dst_off: int,
    b: u32,
    kv: u32,
    t_new: u32,
    hd: u32,
    max_seq_len: u32,
    dtype: DType,
) -> bool {
    &&& fits4(b as int, kv as int, t_new as int, hd as int, u32::MAX as int)
    &&& fits4(b as int, kv as int, max_seq_len as int, hd as int, usize::MAX as int)
    &&& src_off + b * kv * t_new * hd * float_size(dtype) <= usize::MAX
    &&& dst_off + b * kv * max_seq_len * hd * float_size(dtype) <= usize::MAX
}

fn append(
    src_off: usize,
    dst_off: usize,
    b: u32,
    kv: u32,
    t_new: u32,
    hd: u32,
    max_seq_len: u32,
    dtype: DType,
    seq_pos: Option<u32>,
) -> (r: Result<AppendU8, KernelError>)
    requires
        append_plan(src_off as int, dst_off as int, b, kv, t_new, hd, max_seq_len, dtype, seq_pos) is Ok
            ==> append_fits(src_off as int, dst_off as int, b, kv, t_new, hd, max_seq_len, dtype),
    ensures
        r == append_plan(src_off as int, dst_off as int, b, kv, t_new, hd, max_seq_len, dtype, seq_pos),
{
    let dev = seq_pos.is_none();
    let is_h2 = match dtype {
        DType::F16 | DType::BF16 => true,
        _ => false,
    };
    if is_h2 && hd % 2 != 0 {
        return if dev {
            Err(KernelError::Cuda1("kv_append u8_dev: hd={} must be even", hd as u64))
        } else {
            Err(KernelError::Cuda1("kv_append u8: hd={} must be even", hd as u64))
        };
    }
    let entry = if dev {
        float_entry(
            dtype,
            "kv_append_slice_f32_dev",
            "kv_append_slice_f16_dev",
            "kv_append_slice_bf16_dev",
        )
    } else {
        float_entry(dtype, "kv_append_slice_f32", "kv_append_slice_f16", "kv_append_slice_bf16")
    };
    match entry {
        None => if dev {
            Err(KernelError::CudaDType("kv_append u8_dev: unsupported dtype {}", dtype))
        } else {
            Err(KernelError::CudaDType("kv_append u8: unsupported dtype {}", dtype))
        },
        Some(kernel) => {
            let esz: usize = float_bytes(dtype);
            let src_n: usize = mul4_u32(b, kv, t_new, hd) as usize;
            let dst_n: usize = mul4_usize(
                b as usize,
                kv as usize,
                max_seq_len as usize,
                hd as usize,
            );
            let grid: u32 = if is_h2 {
                n_h2_grid(b, kv, t_new, hd)
            } else {
                n_grid(b, kv, t_new, hd)
            };
            Ok(
                AppendU8 {
                    launch: launch1(kernel, max_u32(grid, 1), BLOCK),
                    args: (b, kv, t_new, hd, max_seq_len),
                    seq_pos,
                    src: span(src_off, src_n, esz),
                    dst: span(dst_off, dst_n, esz),
                },
            )
        },
    }
}

/// Plans an append at a position that the host knows.
pub fn append_u8(
    src_off: usize,
    dst_off: usize,
    b: u32,
    kv: u32,
    t_new: u32,
    hd: u32,
    max_seq_len: u32,
    seq_pos: u32,
    dtype: DType,
) -> (r: Result<AppendU8, KernelError>)
    requires
        append_plan(
            src_off as int,
            dst_off as int,
            b,
            kv,
            t_new,
            hd,
            max_seq_len,
            dtype,
            Some(seq_pos),
        ) is Ok ==> append_fits(src_off as int, dst_off as int, b, kv, t_new, hd, max_seq_len, dtype),
    ensures
        r == append_plan(
            src_off as int,
            dst_off as int,
            b,
            kv,
            t_new,
            hd,
            max_seq_len,
            dtype,
            Some(seq_pos),
        ),
{
    append(src_off, dst_off, b, kv, t_new, hd, max_seq_len, dtype, Some(seq_pos))
}

/// Plans an append at a position that is read from device memory.
pub fn append_u8_dev(
    src_off: usize,
    dst_off: usize,
    b: u32,
    kv: u32,
    t_new: u32,
    hd: u32,
    max_seq_len: u32,
    dtype: DType,
) -> (r: Result<AppendU8, KernelError>)
    requires
        append_plan(
            src_off as int,
            dst_off as int,
            b,
            kv,
            t_new,
            hd,
            max_seq_len,
            dtype,
            None,
        ) is Ok ==> append_fits(src_off as int, dst_off as int, b, kv, t_new, hd, max_seq_len, dtype),
    ensures
        r == append_plan(
            src_off as int,
            dst_off as int,
            b,
            kv,
            t_new,
            hd,
            max_seq_len,
            dtype,
            None,
        ),
{
    append(src_off, dst_off, b, kv, t_new, hd, max_seq_len, dtype, None)
}

/// Reading the position from device memory changes nothing but the entry, where the position comes
/// from and the texts of errors: the launch is the same at every position, so one that was recorded
/// serves them all.
pub proof fn append_same_at_every_position(
    src_off: int,
    dst_off: int,
    b: u32,
    kv: u32,
    t_new: u32,
    hd: u32,
    max_seq_len: u32,
    dtype: DType,
    seq_pos: u32,
)
    ensures
        ({
            let host = append_plan(
                src_off,
                dst_off,
                b,
                kv,
                t_new,
                hd,
                max_seq_len,
                dtype,
                Some(seq_pos),
            );
            let dev = append_plan(src_off, dst_off, b, kv, t_new, hd, max_seq_len, dtype, None);
            &&& host is Ok <==> dev is Ok
            &&& host is Ok ==> {
                &&& dev->Ok_0.launch.grid == host->Ok_0.launch.grid
                &&& dev->Ok_0.launch.block == host->Ok_0.launch.block
                &&& dev->Ok_0.launch.shared_mem_bytes == host->Ok_0.launch.shared_mem_bytes
                &&& dev->Ok_0.args == host->Ok_0.args
                &&& dev->Ok_0.src == host->Ok_0.src
                &&& dev->Ok_0.dst == host->Ok_0.dst
            }
        }),
{
}

/// The launch of an append of typed buffers.
pub open spec fn typed_append(
    entry: &'static str,
    refusal: &'static str,
    b: u32,
    kv: u32,
    t_new: u32,
    hd: u32,
    half: bool,
) -> Result<Launch, KernelError> {
    if half && hd % 2 != 0 {
        Err(KernelError::Cuda1(refusal, hd as u64))
    } else {
        Ok(
            spec_launch1(
                entry,
                append_grid(b * kv * t_new * hd, if half { DType::F16 } else { DType::F32 }),
                BLOCK,
            ),
        )
    }
}

fn typed(
    entry: &'static str,
    refusal: &'static str,
    b: u32,
    kv: u32,
    t_new: u32,
    hd: u32,
    half: bool,
) -> (r: Result<Launch, KernelError>)
    requires
        (half ==> hd % 2 == 0) ==> fits4(b as int, kv as int, t_new as int, hd as int, u32::MAX as int),
    ensures
        r == typed_append(entry, refusal, b, kv, t_new, hd, half),
{
    if half && hd % 2 != 0 {
        return Err(KernelError::Cuda1(refusal, hd as u64));
    }
    let grid: u32 = if half {
        n_h2_grid(b, kv, t_new, hd)
    } else {
        n_grid(b, kv, t_new, hd)
    };
    Ok(launch1(entry, max_u32(grid, 1), BLOCK))
}

/// Plans an append of half floats at `seq_pos`.
pub fn append_f16(
    b: u32,
    kv: u32,
    t_new: u32,
    hd: u32,
    max_seq_len: u32,
    seq_pos: u32,
) -> (r: Result<Call<(u32, u32, u32, u32, u32, u32)>, KernelError>)
    requires
        hd % 2 == 0 ==> fits4(b as int, kv as int, t_new as int, hd as int, u32::MAX as int),
    ensures
        r == (match typed_append(
            "kv_append_slice_f16",
            "kv_append f16: hd={} must be even (half2 vectorization)",
            b,
            kv,
            t_new,
            hd,
            true,
        ) {
            Err(e) => Err(e),
            Ok(launch) => Ok(Call { launch, args: (b, kv, t_new, hd, max_seq_len, seq_pos) }),
        }),
{
    match typed("kv_append_slice_f16", "kv_append f16: hd={} must be even (half2 vectorization)", b, kv, t_new, hd, true) {
        Err(e) => Err(e),
        Ok(launch) => Ok(Call { launch, args: (b, kv, t_new, hd, max_seq_len, seq_pos) }),
    }
}

/// Plans an append of brain floats at `seq_pos`.
pub fn append_bf16(
    b: u32,
    kv: u32,
    t_new: u32,
    hd: u32,
    max_seq_len: u32,
    seq_pos: u32,
) -> (r: Result<Call<(u32, u32, u32, u32, u32, u32)>, KernelError>)
    requires
        hd % 2 == 0 ==> fits4(b as int, kv as int, t_new as int, hd as int, u32::MAX as int),
    ensures
        r == (match typed_append(
            "kv_append_slice_bf16",
            "kv_append bf16: hd={} must be even",
            b,
            kv,
            t_new,
            hd,
            true,
        ) {
            Err(e) => Err(e),
            Ok(launch) => Ok(Call { launch, args: (b, kv, t_new, hd, max_seq_len, seq_pos) }),
        }),
{
    match typed("kv_append_slice_bf16", "kv_append bf16: hd={} must be even", b, kv, t_new, hd, true) {
        Err(e) => Err(e),
        Ok(launch) => Ok(Call { launch, args: (b, kv, t_new, hd, max_seq_len, seq_pos) }),
    }
}

/// Plans an append of floats at `seq_pos`.
pub fn append_f32(
    b: u32,
    kv: u32,
    t_new: u32,
    hd: u32,
    max_seq_len: u32,
    seq_pos: u32,
) -> (r: Result<Call<(u32, u32, u32, u32, u32, u32)>, KernelError>)
    requires
        fits4(b as int, kv as int, t_new as int, hd as int, u32::MAX as int),
    ensures
        r == (match typed_append(
            "kv_append_slice_f32",
            "",
            b,
            kv,
            t_new,
            hd,
            false,
        ) {
            Err(e) => Err(e),
            Ok(launch) => Ok(Call { launch, args: (b, kv, t_new, hd, max_seq_len, seq_pos) }),
        }),
{
    match typed("kv_append_slice_f32", "", b, kv, t_new, hd, false) {
        Err(e) => Err(e),
        Ok(launch) => Ok(Call { launch, args: (b, kv, t_new, hd, max_seq_len, seq_pos) }),
    }
}

/// As `append_f16`, at a position that is read from device memory.
pub fn append_f16_dev(
    b: u32,
    kv: u32,
    t_new: u32,
    hd: u32,
    max_seq_len: u32,
) -> (r: Result<Call<(u32, u32, u32, u32, u32)>, KernelError>)
    requires
        hd % 2 == 0 ==> fits4(b as int, kv as int, t_new as int, hd as int, u32::MAX as int),
    ensures
        r == (match typed_append(
            "kv_append_slice_f16_dev",
            "kv_append f16_dev: hd={} must be even",
            b,
            kv,
            t_new,
            hd,
            true,
        ) {
            Err(e) => Err(e),
            Ok(launch) => Ok(Call { launch, args: (b, kv, t_new, hd, max_seq_len) }),
        }),
{
    match typed("kv_append_slice_f16_dev", "kv_append f16_dev: hd={} must be even", b, kv, t_new, hd, true) {
        Err(e) => Err(e),
        Ok(launch) => Ok(Call { launch, args: (b, kv, t_new, hd, max_seq_len) }),
    }
}

/// As `append_bf16`, at a position that is read from device memory.
pub fn append_bf16_dev(
    b: u32,
    kv: u32,
    t_new: u32,
    hd: u32,
    max_seq_len: u32,
) -> (r: Result<Call<(u32, u32, u32, u32, u32)>, KernelError>)
    requires
        hd % 2 == 0 ==> fits4(b as int, kv as int, t_new as int, hd as int, u32::MAX as int),
    ensures
        r == (match typed_append(
            "kv_append_slice_bf16_dev",
            "kv_append bf16_dev: hd={} must be even",
            b,
            kv,
            t_new,
            hd,
            true,
        ) {
            Err(e) => Err(e),
            Ok(launch) => Ok(Call { launch, args: (b, kv, t_new, hd, max_seq_len) }),
        }),
{
    match typed("kv_append_slice_bf16_dev", "kv_append bf16_dev: hd={} must be even", b, kv, t_new, hd, true) {
        Err(e) => Err(e),
        Ok(launch) => Ok(Call { launch, args: (b, kv, t_new, hd, max_seq_len) }),
    }
}

/// As `append_f32`, at a position that is read from device memory.
pub fn append_f32_dev(
    b: u32,
    kv: u32,
    t_new: u32,
    hd: u32,
    max_seq_len: u32,
) -> (r: Result<Call<(u32, u32, u32, u32, u32)>, KernelError>)
    requires
        fits4(b as int, kv as int, t_new as int, hd as int, u32::MAX as int),
    ensures
        r == (match typed_append(
            "kv_append_slice_f32_dev",
            "",
            b,
            kv,
            t_new,
            hd,
            false,
        ) {
            Err(e) => Err(e),
            Ok(launch) => Ok(Call { launch, args: (b, kv, t_new, hd, max_seq_len) }),
        }),
{
    match typed("kv_append_slice_f32_dev", "", b, kv, t_new, hd, false) {
        Err(e) => Err(e),
        Ok(launch) => Ok(Call { launch, args: (b, kv, t_new, hd, max_seq_len) }),
    }
}

/// Where the element `i` of head `head`, position `t` of what is appended at `pos` lies in the
/// cache.
pub open spec fn cache_index(head: int, pos: int, t: int, i: int, max_seq: int, hd: int) -> int {
    (head * max_seq + (pos + t)) * hd + i
}

/// An append that ends within the cache's positions writes only to the cache, and no two of its
/// elements to one place.
pub proof fn append_stays_inside(
    heads: int,
    pos: int,
    t_new: int,
    max_seq: int,
    hd: int,
    h1: int,
    t1: int,
    i1: int,
    h2: int,
    t2: int,
    i2: int,
)
    requires
        0 <= pos,
        pos + t_new <= max_seq,
        0 <= h1 < heads,
        0 <= t1 < t_new,
        0 <= i1 < hd,
        0 <= h2 < heads,
        0 <= t2 < t_new,
        0 <= i2 < hd,
    ensures
        0 <= cache_index(h1, pos, t1, i1, max_seq, hd) < heads * max_seq * hd,
        cache_index(h1, pos, t1, i1, max_seq, hd) == cache_index(h2, pos, t2, i2, max_seq, hd)
            ==> h1 == h2 && t1 == t2 && i1 == i2,
{
    let r1 = h1 * max_seq + (pos + t1);
    let r2 = h2 * max_seq + (pos + t2);
    assert(0 <= r1 && r1 + 1 <= heads * max_seq) by (nonlinear_arith)
        requires
            r1 == h1 * max_seq + (pos + t1),
            0 <= h1 < heads,
            0 <= pos + t1 < max_seq,
    ;
    assert(0 <= r1 * hd + i1 && r1 * hd + i1 < (heads * max_seq) * hd) by (nonlinear_arith)
        requires
            0 <= r1,
            r1 + 1 <= heads * max_seq,
            0 <= i1 < hd,
    ;
    if r1 * hd + i1 == r2 * hd + i2 {
        assert(r1 == r2) by (nonlinear_arith)
            requires
                r1 * hd + i1 == r2 * hd + i2,
                0 <= i1 < hd,
                0 <= i2 < hd,
        ;
        assert(h1 == h2) by (nonlinear_arith)
            requires
                h1 * max_seq + (pos + t1) == h2 * max_seq + (pos + t2),
                0 <= pos + t1 < max_seq,
                0 <= pos + t2 < max_seq,
        ;
    }
}

} // verus!
