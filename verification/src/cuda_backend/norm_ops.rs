//! Norms of rows.

use vstd::prelude::*;

use crate::cuda_backend::CudaBackend;
use crate::dtype::lemma_float_bytes;
use crate::error::KernelError;
use crate::fused::rmsnorm_residual::{run_split_u8, split_u8_plan, RmsNormResidualU8};
use crate::layout::{lemma_rows, lemma_volume_bounds, row_count, rows_by, Layout, Operand};
use crate::reduction::layernorm::{layer_norm_u8_plan, run_u8, LayerNormU8};
use crate::reduction::rmsnorm::{rms_norm_u8_plan, run_rms_norm_u8, RmsNormU8, RmsVariant};

verus! {

/// The weight's variant that a switch stands for.
pub open spec fn gain_variant(qwen_gain: bool) -> RmsVariant {
    if qwen_gain { RmsVariant::Qwen } else { RmsVariant::Plain }
}

fn variant_of(qwen_gain: bool) -> (r: RmsVariant)
    ensures
        r == gain_variant(qwen_gain),
{
    if qwen_gain {
        RmsVariant::Qwen
    } else {
        RmsVariant::Plain
    }
}

/// The operand is one row of `h` elements.
pub open spec fn is_row(w: Layout, h: usize) -> bool {
    w.dims@.len() == 1 && w.dims@[0] == h
}

/// The outcome of a request for a root-mean-square norm.
pub open spec fn backend_rms_norm(x: Operand, w: Operand, out: Operand, qwen_gain: bool) -> Result<
    Option<RmsNormU8>,
    KernelError,
> {
    let dtype = x.layout.dtype;
    let h = x.layout.dims@.last();
    if w.layout.dtype != dtype {
        Err(KernelError::Unsupported("cuda rms_norm: dtype mismatch x/w"))
    } else if x.layout.dims@.len() == 0 {
        Err(KernelError::Unsupported("cuda rms_norm: x scalar"))
    } else if !is_row(w.layout, h) {
        Err(KernelError::Unsupported("cuda rms_norm: weight shape"))
    } else if !x.layout.contiguous || !w.layout.contiguous {
        Err(KernelError::NonContiguous)
    } else if !x.cuda {
        Err(KernelError::Unsupported("cuda rms_norm: x non-cuda"))
    } else if !w.cuda {
        Err(KernelError::Unsupported("cuda rms_norm: w non-cuda"))
    } else if !out.cuda {
        Err(KernelError::Unsupported("cuda rms_norm: out non-cuda"))
    } else {
        rms_norm_u8_plan(
            x.layout.byte_offset,
            w.layout.byte_offset,
            0,
            (row_count(x.layout, h) as usize) as u32,
            h as u32,
            gain_variant(qwen_gain),
            dtype,
        )
    }
}

/// The outcome of a request for the addition of a residual and the norm of the sum.
pub open spec fn backend_rms_norm_residual(
    x: Operand,
    residual: Operand,
    w: Operand,
    hidden_out: Operand,
    y: Operand,
    qwen_gain: bool,
) -> Result<Option<RmsNormResidualU8>, KernelError> {
    let dtype = x.layout.dtype;
    let h = x.layout.dims@.last();
    if residual.layout.dtype != dtype || w.layout.dtype != dtype {
        Err(KernelError::Unsupported("cuda rms_norm_residual: dtype mismatch"))
    } else if x.layout.dims@.len() == 0 {
        Err(KernelError::Unsupported("cuda rms_norm_residual: x scalar"))
    } else if !is_row(w.layout, h) {
        Err(KernelError::Unsupported("cuda rms_norm_residual: weight shape"))
    } else if !x.layout.contiguous || !residual.layout.contiguous || !w.layout.contiguous
        || x.layout.byte_offset != 0 || residual.layout.byte_offset != 0 || w.layout.byte_offset
        != 0 {
        Err(KernelError::NonContiguous)
    } else if !x.cuda {
        Err(KernelError::Unsupported("cuda rms_norm_residual: x non-cuda"))
    } else if !residual.cuda {
        Err(KernelError::Unsupported("cuda rms_norm_residual: r non-cuda"))
    } else if !w.cuda {
        Err(KernelError::Unsupported("cuda rms_norm_residual: w non-cuda"))
    } else if !hidden_out.cuda {
        Err(KernelError::Unsupported("cuda rms_norm_residual: hidden_out non-cuda"))
    } else if !y.cuda {
        Err(KernelError::Unsupported("cuda rms_norm_residual: y non-cuda"))
    } else {
        split_u8_plan(
            (row_count(x.layout, h) as usize) as u32,
            h as u32,
            gain_variant(qwen_gain),
            dtype,
        )
    }
}

/// The outcome of a request for a layer norm.
pub open spec fn backend_layer_norm(
    x: Operand,
    w: Operand,
    bias: Option<Operand>,
    out: Operand,
) -> Result<
    Option<LayerNormU8>,
    KernelError,
> {
    let dtype = x.layout.dtype;
    let h = x.layout.dims@.last();
    if w.layout.dtype != dtype {
        Err(KernelError::Unsupported("cuda layer_norm: dtype mismatch x/w"))
    } else if x.layout.dims@.len() == 0 {
        Err(KernelError::Unsupported("cuda layer_norm: x scalar"))
    } else if !is_row(w.layout, h) {
        Err(KernelError::Unsupported("cuda layer_norm: weight shape"))
    } else if !x.layout.contiguous || !w.layout.contiguous {
        Err(KernelError::NonContiguous)
    } else if bias is Some && ((bias->0).layout.dtype != dtype || !is_row((bias->0).layout, h)) {
        Err(KernelError::Unsupported("cuda layer_norm: bias shape/dtype"))
    } else if bias is Some && !(bias->0).layout.contiguous {
        Err(KernelError::NonContiguous)
    } else if !x.cuda {
        Err(KernelError::Unsupported("cuda layer_norm: x non-cuda"))
    } else if !w.cuda {
        Err(KernelError::Unsupported("cuda layer_norm: w non-cuda"))
    } else if !out.cuda {
        Err(KernelError::Unsupported("cuda layer_norm: out non-cuda"))
    } else if bias is Some && !(bias->0).cuda {
        Err(KernelError::Unsupported("cuda layer_norm: bias non-cuda"))
    } else {
        layer_norm_u8_plan(
            x.layout.byte_offset,
            w.layout.byte_offset,
            match bias {
                Some(b) => Some(b.layout.byte_offset),
                None => None,
            },
            0,
            (row_count(x.layout, h) as usize) as u32,
            h as u32,
            dtype,
        )
    }
}

proof fn lemma_row_span(w: Layout, h: usize)
    requires
        w.wf(),
        is_row(w, h),
    ensures
        w.byte_offset + (h as u32) * 4 <= usize::MAX,
        h * 8 <= isize::MAX,
{
    lemma_volume_bounds(w.dims@);
    assert(w.dims@[0] <= crate::layout::padded_volume(w.dims@));
}

impl CudaBackend {
    /// Plans the root-mean-square norm of the rows of `x`.
    pub fn rms_norm(&self, x: &Operand, w: &Operand, out: &Operand, qwen_gain: bool) -> (r: Result<
        Option<RmsNormU8>,
        KernelError,
    >)
        requires
            x.wf(),
            w.wf(),
        ensures
            r == backend_rms_norm(*x, *w, *out, qwen_gain),
    {
        let dtype = x.layout.dtype;
        if w.layout.dtype != dtype {
            return Err(KernelError::Unsupported("cuda rms_norm: dtype mismatch x/w"));
        }
        let rank: usize = x.layout.dims.len();
        if rank == 0 {
            return Err(KernelError::Unsupported("cuda rms_norm: x scalar"));
        }
        let h: usize = x.layout.dims[rank - 1];
        if w.layout.dims.len() != 1 || w.layout.dims[0] != h {
            return Err(KernelError::Unsupported("cuda rms_norm: weight shape"));
        }
        if !x.layout.contiguous || !w.layout.contiguous {
            return Err(KernelError::NonContiguous);
        }
        let batch: usize = rows_by(&x.layout, h);
        if !x.cuda {
            return Err(KernelError::Unsupported("cuda rms_norm: x non-cuda"));
        }
        if !w.cuda {
            return Err(KernelError::Unsupported("cuda rms_norm: w non-cuda"));
        }
        if !out.cuda {
            return Err(KernelError::Unsupported("cuda rms_norm: out non-cuda"));
        }
        proof {
            lemma_rows(x.layout, h);
            lemma_row_span(w.layout, h);
            lemma_float_bytes((batch as u32) * (h as u32), dtype);
            lemma_float_bytes((h as u32) as int, dtype);
        }
        run_rms_norm_u8(
            x.layout.byte_offset,
            w.layout.byte_offset,
            0,
            batch as u32,
            h as u32,
            variant_of(qwen_gain),
            dtype,
        )
    }

    /// Plans the addition of `residual` to `x` and the norm of the rows of the sum.
    pub fn rms_norm_residual(
        &self,
        x: &Operand,
        residual: &Operand,
        w: &Operand,
        hidden_out: &Operand,
        y: &Operand,
        qwen_gain: bool,
    ) -> (r: Result<Option<RmsNormResidualU8>, KernelError>)
        requires
            x.wf(),
            w.wf(),
        ensures
            r == backend_rms_norm_residual(*x, *residual, *w, *hidden_out, *y, qwen_gain),
    {
        let dtype = x.layout.dtype;
        if residual.layout.dtype != dtype || w.layout.dtype != dtype {
            return Err(KernelError::Unsupported("cuda rms_norm_residual: dtype mismatch"));
        }
        let rank: usize = x.layout.dims.len();
        if rank == 0 {
            return Err(KernelError::Unsupported("cuda rms_norm_residual: x scalar"));
        }
        let h: usize = x.layout.dims[rank - 1];
        if w.layout.dims.len() != 1 || w.layout.dims[0] != h {
            return Err(KernelError::Unsupported("cuda rms_norm_residual: weight shape"));
        }
        if !x.layout.contiguous || !residual.layout.contiguous || !w.layout.contiguous
            || x.layout.byte_offset != 0 || residual.layout.byte_offset != 0 || w.layout.byte_offset
            != 0 {
            return Err(KernelError::NonContiguous);
        }
        let batch: usize = rows_by(&x.layout, h);
        if !x.cuda {
            return Err(KernelError::Unsupported("cuda rms_norm_residual: x non-cuda"));
        }
        if !residual.cuda {
            return Err(KernelError::Unsupported("cuda rms_norm_residual: r non-cuda"));
        }
        if !w.cuda {
            return Err(KernelError::Unsupported("cuda rms_norm_residual: w non-cuda"));
        }
        if !hidden_out.cuda {
            return Err(KernelError::Unsupported("cuda rms_norm_residual: hidden_out non-cuda"));
        }
        if !y.cuda {
            return Err(KernelError::Unsupported("cuda rms_norm_residual: y non-cuda"));
        }
        proof {
            lemma_rows(x.layout, h);
            lemma_row_span(w.layout, h);
            lemma_float_bytes((batch as u32) * (h as u32), dtype);
            lemma_float_bytes((h as u32) as int, dtype);
        }
        run_split_u8(batch as u32, h as u32, variant_of(qwen_gain), dtype)
    }

    /// Plans the layer norm of the rows of `x`.
    pub fn layer_norm(&self, x: &Operand, w: &Operand, bias: Option<&Operand>, out: &Operand) -> (r:
        Result<Option<LayerNormU8>, KernelError>)
        requires
            x.wf(),
            w.wf(),
            bias matches Some(b) ==> b.wf(),
        ensures
            r == backend_layer_norm(
                *x,
                *w,
                match bias {
                    Some(b) => Some(*b),
                    None => None,
                },
                *out,
            ),
    {
        let dtype = x.layout.dtype;
        if w.layout.dtype != dtype {
            return Err(KernelError::Unsupported("cuda layer_norm: dtype mismatch x/w"));
        }
        let rank: usize = x.layout.dims.len();
        if rank == 0 {
            return Err(KernelError::Unsupported("cuda layer_norm: x scalar"));
        }
        let h: usize = x.layout.dims[rank - 1];
        if w.layout.dims.len() != 1 || w.layout.dims[0] != h {
            return Err(KernelError::Unsupported("cuda layer_norm: weight shape"));
        }
        if !x.layout.contiguous || !w.layout.contiguous {
            return Err(KernelError::NonContiguous);
        }
        match bias {
            Some(b) => {
                if b.layout.dtype != dtype || b.layout.dims.len() != 1 || b.layout.dims[0] != h {
                    return Err(KernelError::Unsupported("cuda layer_norm: bias shape/dtype"));
                }
                if !b.layout.contiguous {
                    return Err(KernelError::NonContiguous);
                }
            },
            None => {},
        }
        let batch: usize = rows_by(&x.layout, h);
        if !x.cuda {
            return Err(KernelError::Unsupported("cuda layer_norm: x non-cuda"));
        }
        if !w.cuda {
            return Err(KernelError::Unsupported("cuda layer_norm: w non-cuda"));
        }
        if !out.cuda {
            return Err(KernelError::Unsupported("cuda layer_norm: out non-cuda"));
        }
        let beta = match bias {
            Some(b) => {
                if !b.cuda {
                    return Err(KernelError::Unsupported("cuda layer_norm: bias non-cuda"));
                }
                proof {
                    lemma_row_span(b.layout, h);
                }
                Some(b.layout.byte_offset)
            },
            None => None,
        };
        proof {
            lemma_rows(x.layout, h);
            lemma_row_span(w.layout, h);
            lemma_float_bytes((batch as u32) * (h as u32), dtype);
            lemma_float_bytes((h as u32) as int, dtype);
        }
        run_u8(
            x.layout.byte_offset,
            w.layout.byte_offset,
            beta,
            0,
            batch as u32,
            h as u32,
            dtype,
        )
    }
}

} // verus!
