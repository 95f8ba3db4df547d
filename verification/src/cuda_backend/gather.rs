//! Rows picked by token.

use vstd::prelude::*;

use crate::cuda_backend::CudaBackend;
use crate::dtype::{float_size, lemma_float_bytes, DType};
use crate::embed::{embed_gather_u8, embed_u8_plan, EmbedU8};
use crate::error::KernelError;
use crate::launch::{span, spec_span, Span};
use crate::layout::{lemma_last_two, lemma_volume_bounds, Operand};

verus! {

/// A gather of rows, and where the tokens are.
#[derive(Clone, Copy, Debug, PartialEq, Eq)]
pub struct EmbedGather {
    pub gather: Option<EmbedU8>,
    pub ids: Span,
}

/// A gather of eight-bit rows, and where the tokens are.
#[derive(Clone, Copy, Debug, PartialEq, Eq, Structural)]
pub struct EmbedGatherMxfp8 {
    pub ids: Span,
    pub n_ids: u32,
    pub dim: u32,
    pub vocab: u32,
}

/// The outcome of a request for a gather of rows.
pub open spec fn gather_plan(
    table: Operand,
    ids: Operand,
    out: Operand,
) -> Result<EmbedGather, KernelError> {
    let tl = table.layout;
    let td = tl.dims@;
    let n_ids = ids.layout.numel;
    if ids.layout.dtype != DType::U32 {
        Err(KernelError::Unsupported("cuda embed_gather: ids must be U32"))
    } else if td.len() != 2 {
        Err(KernelError::Unsupported("cuda embed_gather: table must be [vocab,dim]"))
    } else if !tl.contiguous || !ids.layout.contiguous {
        Err(KernelError::NonContiguous)
    } else if !table.cuda {
        Err(KernelError::Unsupported("cuda embed_gather: table non-cuda"))
    } else if !ids.cuda {
        Err(KernelError::Unsupported("cuda embed_gather: ids non-cuda"))
    } else if !out.cuda {
        Err(KernelError::Unsupported("cuda embed_gather: out non-cuda"))
    } else {
        match embed_u8_plan(
            tl.byte_offset,
            0,
            n_ids as u32,
            td[1] as u32,
            td[0] as u32,
            tl.dtype,
        ) {
            Err(e) => Err(e),
            Ok(gather) => Ok(
                EmbedGather { gather, ids: spec_span(ids.layout.byte_offset as int, n_ids as int, 4) },
            ),
        }
    }
}

/// The outcome of a request for a gather of eight-bit rows.
pub open spec fn gather_mxfp8_plan(
    table_cuda: bool,
    scales_cuda: bool,
    ids: Operand,
    out: Operand,
    vocab: usize,
    dim: usize,
) -> Result<EmbedGatherMxfp8, KernelError> {
    let n_ids = ids.layout.numel;
    if ids.layout.dtype != DType::U32 {
        Err(KernelError::Unsupported("cuda embed_gather_mxfp8: ids must be U32"))
    } else if out.layout.dtype != DType::F16 {
        Err(KernelError::Unsupported("cuda embed_gather_mxfp8: out must be F16"))
    } else if !ids.layout.contiguous {
        Err(KernelError::NonContiguous)
    } else if !table_cuda {
        Err(KernelError::Unsupported("cuda embed_gather_mxfp8: table non-cuda"))
    } else if !scales_cuda {
        Err(KernelError::Unsupported("cuda embed_gather_mxfp8: scales non-cuda"))
    } else if !ids.cuda {
        Err(KernelError::Unsupported("cuda embed_gather_mxfp8: ids non-cuda"))
    } else if !out.cuda {
        Err(KernelError::Unsupported("cuda embed_gather_mxfp8: out non-cuda"))
    } else {
        Ok(
            EmbedGatherMxfp8 {
                ids: spec_span(ids.layout.byte_offset as int, n_ids as int, 4),
                n_ids: n_ids as u32,
                dim: dim as u32,
                vocab: vocab as u32,
            },
        )
    }
}

impl CudaBackend {
    /// Plans a gather of rows of a table by the tokens in `ids`.
    pub fn embed_gather(
        &self,
        table: &Operand,
        ids: &Operand,
        out: &Operand,
    ) -> (r: Result<EmbedGather, KernelError>)
        requires
            table.wf(),
            ids.wf(),
            gather_plan(*table, *ids, *out) is Ok ==> (ids.layout.numel as u32) * (
            table.layout.dims@[1] as u32) * float_size(table.layout.dtype) <= usize::MAX,
        ensures
            r == gather_plan(*table, *ids, *out),
    {
        let tl = &table.layout;
        let td = &tl.dims;
        let n_ids: usize = ids.layout.numel;
        if ids.layout.dtype != DType::U32 {
            return Err(KernelError::Unsupported("cuda embed_gather: ids must be U32"));
        }
        if td.len() != 2 {
            return Err(KernelError::Unsupported("cuda embed_gather: table must be [vocab,dim]"));
        }
        if !tl.contiguous || !ids.layout.contiguous {
            return Err(KernelError::NonContiguous);
        }
        if !table.cuda {
            return Err(KernelError::Unsupported("cuda embed_gather: table non-cuda"));
        }
        if !ids.cuda {
            return Err(KernelError::Unsupported("cuda embed_gather: ids non-cuda"));
        }
        if !out.cuda {
            return Err(KernelError::Unsupported("cuda embed_gather: out non-cuda"));
        }
        proof {
            lemma_volume_bounds(ids.layout.dims@);
            lemma_last_two(tl.dims@);
            let (a, b) = ((td@[0] as u32) as int, (td@[1] as u32) as int);
            assert(0 <= a * b <= td@[0] * td@[1]) by (nonlinear_arith)
                requires
                    0 <= a <= td@[0],
                    0 <= b <= td@[1],
            ;
            lemma_float_bytes(a * b, tl.dtype);
        }
        let ids_span = span(ids.layout.byte_offset, n_ids, 4);
        match embed_gather_u8(tl.byte_offset, 0, n_ids as u32, td[1] as u32, td[0] as u32, tl.dtype) {
            Err(e) => Err(e),
            Ok(gather) => Ok(EmbedGather { gather, ids: ids_span }),
        }
    }

    /// Plans a gather of rows of an eight-bit table into half floats.
    pub fn embed_gather_mxfp8(
        &self,
        table_cuda: bool,
        scales_cuda: bool,
        ids: &Operand,
        out: &Operand,
        vocab: usize,
        dim: usize,
    ) -> (r: Result<EmbedGatherMxfp8, KernelError>)
        requires
            ids.wf(),
        ensures
            r == gather_mxfp8_plan(table_cuda, scales_cuda, *ids, *out, vocab, dim),
    {
        let n_ids: usize = ids.layout.numel;
        if ids.layout.dtype != DType::U32 {
            return Err(KernelError::Unsupported("cuda embed_gather_mxfp8: ids must be U32"));
        }
        if out.layout.dtype != DType::F16 {
            return Err(KernelError::Unsupported("cuda embed_gather_mxfp8: out must be F16"));
        }
        if !ids.layout.contiguous {
            return Err(KernelError::NonContiguous);
        }
        if !table_cuda {
            return Err(KernelError::Unsupported("cuda embed_gather_mxfp8: table non-cuda"));
        }
        if !scales_cuda {
            return Err(KernelError::Unsupported("cuda embed_gather_mxfp8: scales non-cuda"));
        }
        if !ids.cuda {
            return Err(KernelError::Unsupported("cuda embed_gather_mxfp8: ids non-cuda"));
        }
        if !out.cuda {
            return Err(KernelError::Unsupported("cuda embed_gather_mxfp8: out non-cuda"));
        }
        proof {
            lemma_volume_bounds(ids.layout.dims@);
        }
        Ok(
            EmbedGatherMxfp8 {
                ids: span(ids.layout.byte_offset, n_ids, 4),
                n_ids: n_ids as u32,
                dim: dim as u32,
                vocab: vocab as u32,
            },
        )
    }
}

} // verus!
