//! Norms over channels and activations with parameters.

use vstd::prelude::*;

use crate::arith::max2;
use crate::cuda_backend::linear_attn::one_of_three;
use crate::cuda_backend::optional::{
    given, has_gaps, is_off_device, is_with_gaps, off_device,
};
use crate::cuda_backend::CudaBackend;
use crate::dtype::{is_float3, lemma_float_bytes, DType};
use crate::elementwise::activations::{run_snake_u8, snake_u8_plan, SnakeU8};
use crate::error::KernelError;
use crate::fused::geglu_split::{geglu_split_plan, run_geglu_split_u8, GegluSplit};
use crate::layout::{
    lemma_rows, lemma_volume_bounds, lemma_volume_first, padded_volume, row_count, rows_by, volume,
    volume_between, Operand,
};
use crate::reduction::groupnorm::{group_norm_u8_plan, GroupNormU8};
use crate::reduction::pixelnorm::{pixel_norm_u8_plan, PixelNormU8};

verus! {

/// Channels and points of images of `[b, c, ..]`, or with channels last.
pub open spec fn channels(d: Seq<usize>, nhwc: bool) -> (usize, int) {
    if nhwc {
        (d.last(), max2(volume(d.subrange(1, d.len() - 1)), 1))
    } else {
        (d[1], max2(volume(d.skip(2)), 1))
    }
}

fn channels_of(d: &Vec<usize>, nhwc: bool) -> (r: (usize, usize))
    requires
        d@.len() >= 2,
        padded_volume(d@) <= usize::MAX,
    ensures
        r.0 == channels(d@, nhwc).0,
        r.1 == channels(d@, nhwc).1,
{
    let n: usize = d.len();
    let (c, hw): (usize, usize) = if nhwc {
        (d[n - 1], volume_between(d, 1, n - 1))
    } else {
        proof {
            assert(d@.subrange(2, n as int) =~= d@.skip(2));
        }
        (d[1], volume_between(d, 2, n))
    };
    if hw < 1 {
        (c, 1)
    } else {
        (c, hw)
    }
}

/// The elements of all images are no more than the tensor has with empty axes counted as one, and
/// so with the counts cut to what the kernels take.
proof fn lemma_channels(d: Seq<usize>, nhwc: bool, cut: int)
    requires
        d.len() >= 2,
        0 <= cut <= channels(d, nhwc).1,
    ensures
        0 <= (d[0] as u32) * (channels(d, nhwc).0 as u32) <= padded_volume(d),
        0 <= (d[0] as u32) * (channels(d, nhwc).0 as u32) * cut <= padded_volume(d),
        channels(d, nhwc).0 <= padded_volume(d),
{
    let c = channels(d, nhwc).0 as int;
    let hw = channels(d, nhwc).1;
    let b = d[0] as int;
    lemma_volume_bounds(d);
    lemma_volume_first(d);
    let t = d.skip(1);
    let (mb, mc) = (max2(b, 1), max2(c, 1));
    let inner = if nhwc {
        d.subrange(1, d.len() - 1)
    } else {
        d.skip(2)
    };
    lemma_volume_bounds(inner);
    let p = padded_volume(inner);
    if nhwc {
        assert(t.drop_last() =~= inner);
        assert(t.last() == d.last());
        assert(padded_volume(t) == p * mc);
        assert(d[d.len() - 1] <= padded_volume(d));
    } else {
        lemma_volume_first(t);
        assert(t.skip(1) =~= inner);
        assert(padded_volume(t) == mc * p);
        assert(d[1] <= padded_volume(d));
    }
    let (b2, c2) = ((d[0] as u32) as int, (channels(d, nhwc).0 as u32) as int);
    assert(padded_volume(d) == mb * (mc * p)) by (nonlinear_arith)
        requires
            padded_volume(d) == mb * padded_volume(t),
            padded_volume(t) == p * mc || padded_volume(t) == mc * p,
    ;
    let whole = padded_volume(d);
    assert(0 <= b2 * c2 <= mb * mc) by (nonlinear_arith)
        requires
            0 <= b2 <= mb,
            0 <= c2 <= mc,
    ;
    let e = b2 * c2;
    let m = mb * mc;
    assert(whole == m * p) by (nonlinear_arith)
        requires
            whole == mb * (mc * p),
            m == mb * mc,
    ;
    assert(0 <= e * cut <= m * p && e <= m * p) by (nonlinear_arith)
        requires
            0 <= e <= m,
            0 <= cut <= p,
            1 <= p,
    ;
}

/// Where the scale and the shift start, where both are given.
pub open spec fn affine_of(
    weight: Option<Operand>,
    bias: Option<Operand>,
) -> Option<(usize, usize)> {
    match (weight, bias) {
        (Some(w), Some(b)) => Some((w.layout.byte_offset, b.layout.byte_offset)),
        _ => None,
    }
}

/// Both are given, and one is not of the type `dtype`.
pub open spec fn affine_dtype(
    weight: Option<Operand>,
    bias: Option<Operand>,
    dtype: DType,
) -> bool {
    weight is Some && bias is Some && ((weight->0).layout.dtype != dtype || (bias->0).layout.dtype
        != dtype)
}

fn is_affine_dtype(weight: Option<&Operand>, bias: Option<&Operand>, dtype: DType) -> (r: bool)
    ensures
        r == affine_dtype(given(weight), given(bias), dtype),
{
    match (weight, bias) {
        (Some(w), Some(b)) => w.layout.dtype != dtype || b.layout.dtype != dtype,
        _ => false,
    }
}

/// The outcome of a request for the norm of groups of channels.
pub open spec fn backend_group_norm(
    x: Operand,
    weight: Option<Operand>,
    bias: Option<Operand>,
    out: Operand,
    num_groups: usize,
    silu: bool,
    nhwc: bool,
) -> Result<Option<GroupNormU8>, KernelError> {
    let xl = x.layout;
    let d = xl.dims@;
    if !is_float3(xl.dtype) {
        Err(KernelError::Unsupported("cuda group_norm: dtype"))
    } else if d.len() < 2 {
        Err(KernelError::Unsupported("cuda group_norm: rank < 2"))
    } else if !xl.contiguous {
        Err(KernelError::NonContiguous)
    } else if num_groups == 0 || channels(d, nhwc).0 % num_groups != 0 {
        Err(KernelError::Unsupported("cuda group_norm: c % num_groups"))
    } else if weight is None && bias is Some {
        Err(KernelError::Unsupported("cuda group_norm: bias без weight"))
    } else if !x.cuda {
        Err(KernelError::Unsupported("cuda group_norm: x non-cuda"))
    } else if affine_dtype(weight, bias, xl.dtype) {
        Err(KernelError::Unsupported("cuda group_norm: affine dtype"))
    } else if bias is Some && (has_gaps(weight) || has_gaps(bias)) {
        Err(KernelError::NonContiguous)
    } else if bias is Some && off_device(weight) {
        Err(KernelError::Unsupported("cuda group_norm: w non-cuda"))
    } else if bias is Some && off_device(bias) {
        Err(KernelError::Unsupported("cuda group_norm: b non-cuda"))
    } else if weight is Some && bias is None {
        Err(KernelError::Unsupported("cuda group_norm: weight без bias"))
    } else if !out.cuda {
        Err(KernelError::Unsupported("cuda group_norm: out non-cuda"))
    } else {
        group_norm_u8_plan(
            xl.byte_offset,
            affine_of(weight, bias),
            0,
            d[0] as u32,
            channels(d, nhwc).0 as u32,
            (channels(d, nhwc).1 as usize) as u32,
            num_groups as u32,
            silu,
            nhwc,
            xl.dtype,
        )
    }
}

/// The outcome of a request for the norm over channels.
pub open spec fn backend_pixel_norm(
    x: Operand,
    out: Operand,
    c: usize,
    silu: bool,
) -> Result<Option<PixelNormU8>, KernelError> {
    let xl = x.layout;
    let d = xl.dims@;
    if !is_float3(xl.dtype) {
        Err(KernelError::Unsupported("cuda pixel_norm: dtype"))
    } else if !xl.contiguous {
        Err(KernelError::NonContiguous)
    } else if d.len() < 2 || d[1] != c {
        Err(KernelError::Unsupported("cuda pixel_norm: shape"))
    } else if !x.cuda {
        Err(KernelError::Unsupported("cuda pixel_norm: x non-cuda"))
    } else if !out.cuda {
        Err(KernelError::Unsupported("cuda pixel_norm: out non-cuda"))
    } else {
        pixel_norm_u8_plan(
            xl.byte_offset,
            0,
            d[0] as u32,
            c as u32,
            (channels(d, false).1 as usize) as u64,
            silu,
            xl.dtype,
        )
    }
}

/// The outcome of a request for the gated activation of rows.
pub open spec fn backend_geglu_split(
    inp: Operand,
    out: Operand,
) -> Result<Option<GegluSplit>, KernelError> {
    let xl = inp.layout;
    let d = xl.dims@;
    if !is_float3(xl.dtype) {
        Err(KernelError::Unsupported("cuda geglu_split: dtype"))
    } else if !xl.contiguous {
        Err(KernelError::NonContiguous)
    } else if d.len() == 0 {
        Err(KernelError::Unsupported("cuda geglu_split: scalar"))
    } else if d.last() % 2 != 0 {
        Err(KernelError::Unsupported("cuda geglu_split: last dim odd"))
    } else if !inp.cuda {
        Err(KernelError::Unsupported("cuda geglu_split: in non-cuda"))
    } else if !out.cuda {
        Err(KernelError::Unsupported("cuda geglu_split: out non-cuda"))
    } else {
        geglu_split_plan(
            xl.byte_offset,
            0,
            (row_count(xl, d.last()) as usize) as u64,
            (d.last() / 2) as u32,
            xl.dtype,
        )
    }
}

/// The outcome of a request for the periodic activation.
pub open spec fn backend_snake(
    x: Operand,
    a: Operand,
    binv: Operand,
    out: Operand,
    c: usize,
    t_len: usize,
) -> Result<Option<SnakeU8>, KernelError> {
    let xl = x.layout;
    if !is_float3(xl.dtype) {
        Err(KernelError::Unsupported("cuda snake: dtype"))
    } else if !xl.contiguous {
        Err(KernelError::NonContiguous)
    } else if a.layout.dtype != DType::F32 || binv.layout.dtype != DType::F32 {
        Err(KernelError::Unsupported("cuda snake: a/binv must be f32"))
    } else if !x.cuda {
        Err(KernelError::Unsupported("cuda snake: x non-cuda"))
    } else if !a.cuda {
        Err(KernelError::Unsupported("cuda snake: a non-cuda"))
    } else if !binv.cuda {
        Err(KernelError::Unsupported("cuda snake: binv non-cuda"))
    } else if !out.cuda {
        Err(KernelError::Unsupported("cuda snake: out non-cuda"))
    } else {
        snake_u8_plan(
            xl.byte_offset,
            a.layout.byte_offset,
            binv.layout.byte_offset,
            0,
            xl.numel,
            c as u32,
            t_len as u32,
            xl.dtype,
        )
    }
}

impl CudaBackend {
    /// Plans the norm of groups of channels, with a scale and a shift where both are given.
    pub fn group_norm(
        &self,
        x: &Operand,
        weight: Option<&Operand>,
        bias: Option<&Operand>,
        out: &Operand,
        num_groups: usize,
        silu: bool,
        nhwc: bool,
    ) -> (r: Result<Option<GroupNormU8>, KernelError>)
        requires
            x.wf(),
            weight matches Some(w) ==> w.wf(),
            bias matches Some(b) ==> b.wf(),
            backend_group_norm(*x, given(weight), given(bias), *out, num_groups, silu, nhwc) is Ok
                ==> (x.layout.dims@[0] as u32) * (num_groups as u32) <= u32::MAX,
        ensures
            r == backend_group_norm(*x, given(weight), given(bias), *out, num_groups, silu, nhwc),
    {
        let xl = &x.layout;
        let d = &xl.dims;
        if !one_of_three(xl.dtype) {
            return Err(KernelError::Unsupported("cuda group_norm: dtype"));
        }
        if d.len() < 2 {
            return Err(KernelError::Unsupported("cuda group_norm: rank < 2"));
        }
        if !xl.contiguous {
            return Err(KernelError::NonContiguous);
        }
        proof {
            lemma_volume_bounds(d@);
        }
        let (c, hw): (usize, usize) = channels_of(d, nhwc);
        if num_groups == 0 || c % num_groups != 0 {
            return Err(KernelError::Unsupported("cuda group_norm: c % num_groups"));
        }
        if weight.is_none() && bias.is_some() {
            return Err(KernelError::Unsupported("cuda group_norm: bias без weight"));
        }
        if !x.cuda {
            return Err(KernelError::Unsupported("cuda group_norm: x non-cuda"));
        }
        if is_affine_dtype(weight, bias, xl.dtype) {
            return Err(KernelError::Unsupported("cuda group_norm: affine dtype"));
        }
        if bias.is_some() && (is_with_gaps(weight) || is_with_gaps(bias)) {
            return Err(KernelError::NonContiguous);
        }
        if bias.is_some() && is_off_device(weight) {
            return Err(KernelError::Unsupported("cuda group_norm: w non-cuda"));
        }
        if bias.is_some() && is_off_device(bias) {
            return Err(KernelError::Unsupported("cuda group_norm: b non-cuda"));
        }
        if weight.is_some() && bias.is_none() {
            return Err(KernelError::Unsupported("cuda group_norm: weight без bias"));
        }
        if !out.cuda {
            return Err(KernelError::Unsupported("cuda group_norm: out non-cuda"));
        }
        proof {
            lemma_channels(d@, nhwc, (hw as u32) as int);
            let n = (d@[0] as u32) * (c as u32) * (hw as u32);
            lemma_float_bytes(n, xl.dtype);
            lemma_float_bytes((c as u32) as int, xl.dtype);
        }
        let affine = match (weight, bias) {
            (Some(w), Some(b)) => Some((w.layout.byte_offset, b.layout.byte_offset)),
            _ => None,
        };
        crate::reduction::groupnorm::run_u8(
            xl.byte_offset,
            affine,
            0,
            d[0] as u32,
            c as u32,
            hw as u32,
            num_groups as u32,
            silu,
            nhwc,
            xl.dtype,
        )
    }

    /// Plans the norm over the channels of every point.
    pub fn pixel_norm(
        &self,
        x: &Operand,
        out: &Operand,
        c: usize,
        silu: bool,
    ) -> (r: Result<Option<PixelNormU8>, KernelError>)
        requires
            x.wf(),
        ensures
            r == backend_pixel_norm(*x, *out, c, silu),
    {
        let xl = &x.layout;
        let d = &xl.dims;
        if !one_of_three(xl.dtype) {
            return Err(KernelError::Unsupported("cuda pixel_norm: dtype"));
        }
        if !xl.contiguous {
            return Err(KernelError::NonContiguous);
        }
        if d.len() < 2 || d[1] != c {
            return Err(KernelError::Unsupported("cuda pixel_norm: shape"));
        }
        if !x.cuda {
            return Err(KernelError::Unsupported("cuda pixel_norm: x non-cuda"));
        }
        if !out.cuda {
            return Err(KernelError::Unsupported("cuda pixel_norm: out non-cuda"));
        }
        proof {
            lemma_volume_bounds(d@);
        }
        let (_, s): (usize, usize) = channels_of(d, false);
        proof {
            lemma_channels(d@, false, s as int);
            let n = (d@[0] as u32) * (c as u32) * s;
            lemma_float_bytes(n, xl.dtype);
        }
        crate::reduction::pixelnorm::run_u8(
            xl.byte_offset,
            0,
            d[0] as u32,
            c as u32,
            s as u64,
            silu,
            xl.dtype,
        )
    }

    /// Plans the gated activation of rows that hold gate and value side by side.
    pub fn geglu_split(
        &self,
        inp: &Operand,
        out: &Operand,
    ) -> (r: Result<Option<GegluSplit>, KernelError>)
        requires
            inp.wf(),
        ensures
            r == backend_geglu_split(*inp, *out),
    {
        let xl = &inp.layout;
        let d = &xl.dims;
        if !one_of_three(xl.dtype) {
            return Err(KernelError::Unsupported("cuda geglu_split: dtype"));
        }
        if !xl.contiguous {
            return Err(KernelError::NonContiguous);
        }
        if d.len() == 0 {
            return Err(KernelError::Unsupported("cuda geglu_split: scalar"));
        }
        if d[d.len() - 1] % 2 != 0 {
            return Err(KernelError::Unsupported("cuda geglu_split: last dim odd"));
        }
        if !inp.cuda {
            return Err(KernelError::Unsupported("cuda geglu_split: in non-cuda"));
        }
        if !out.cuda {
            return Err(KernelError::Unsupported("cuda geglu_split: out non-cuda"));
        }
        let last: usize = d[d.len() - 1];
        let t: usize = rows_by(xl, last);
        proof {
            lemma_rows(*xl, last);
            let inner = ((last / 2) as u32) as int;
            assert(0 <= t * inner * 2 <= t * last) by (nonlinear_arith)
                requires
                    0 <= inner * 2 <= last,
                    0 <= t,
                    0 <= inner,
            ;
            lemma_float_bytes(t * inner * 2, xl.dtype);
            lemma_float_bytes(t * inner, xl.dtype);
        }
        run_geglu_split_u8(xl.byte_offset, 0, t as u64, (last / 2) as u32, xl.dtype)
    }

    /// Plans the activation with a period and a height per channel.
    pub fn snake(
        &self,
        x: &Operand,
        a: &Operand,
        binv: &Operand,
        out: &Operand,
        c: usize,
        t_len: usize,
    ) -> (r: Result<Option<SnakeU8>, KernelError>)
        requires
            x.wf(),
            backend_snake(*x, *a, *binv, *out, c, t_len) is Ok ==> {
                &&& a.layout.byte_offset + (c as u32) * 4 <= usize::MAX
                &&& binv.layout.byte_offset + (c as u32) * 4 <= usize::MAX
            },
        ensures
            r == backend_snake(*x, *a, *binv, *out, c, t_len),
    {
        let xl = &x.layout;
        if !one_of_three(xl.dtype) {
            return Err(KernelError::Unsupported("cuda snake: dtype"));
        }
        if !xl.contiguous {
            return Err(KernelError::NonContiguous);
        }
        if a.layout.dtype != DType::F32 || binv.layout.dtype != DType::F32 {
            return Err(KernelError::Unsupported("cuda snake: a/binv must be f32"));
        }
        if !x.cuda {
            return Err(KernelError::Unsupported("cuda snake: x non-cuda"));
        }
        if !a.cuda {
            return Err(KernelError::Unsupported("cuda snake: a non-cuda"));
        }
        if !binv.cuda {
            return Err(KernelError::Unsupported("cuda snake: binv non-cuda"));
        }
        if !out.cuda {
            return Err(KernelError::Unsupported("cuda snake: out non-cuda"));
        }
        proof {
            lemma_volume_bounds(xl.dims@);
            lemma_float_bytes(xl.numel as int, xl.dtype);
        }
        run_snake_u8(
            xl.byte_offset,
            a.layout.byte_offset,
            binv.layout.byte_offset,
            0,
            xl.numel,
            c as u32,
            t_len as u32,
            xl.dtype,
        )
    }
}

} // verus!
