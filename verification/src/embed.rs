//! Rows of a table, picked by token.

use vstd::prelude::*;

use crate::arith::{ceil_div, div_ceil_u64, lemma_mul_le_factor};
use crate::dtype::{float_bytes, float_entry, float_size, is_float3, spec_float_entry, DType};
use crate::error::KernelError;
use crate::launch::{launch1, span, spec_launch1, spec_span, Launch, Span};

verus! {

/// A gather of `n_ids` rows of `dim` elements out of `vocab` rows: a thread per element.
#[derive(Clone, Copy, Debug, PartialEq, Eq)]
pub struct EmbedPlan {
    pub launch: Launch,
    pub n_ids: i32,
    pub dim: i32,
    pub vocab: i32,
}

/// A gather over given buffers.
#[derive(Clone, Copy, Debug, PartialEq, Eq)]
pub struct EmbedU8 {
    pub gather: EmbedPlan,
    pub table: Span,
    pub out: Span,
}

pub open spec fn embed_plan(n_ids: u32, dim: u32, vocab: u32, dtype: DType) -> EmbedPlan {
    EmbedPlan {
        launch: spec_launch1(
            spec_float_entry(dtype, "embed_gather_f32", "embed_gather_f16", "embed_gather_bf16")->0,
            ceil_div(n_ids * dim, 256),
            256,
        ),
        n_ids: n_ids as i32,
        dim: dim as i32,
        vocab: vocab as i32,
    }
}

fn plan(kernel: &'static str, n_ids: u32, dim: u32, vocab: u32) -> (r: EmbedPlan)
    ensures
        r == (EmbedPlan {
            launch: spec_launch1(kernel, ceil_div(n_ids * dim, 256), 256),
            n_ids: n_ids as i32,
            dim: dim as i32,
            vocab: vocab as i32,
        }),
{
    proof {
        assert(0 <= n_ids * dim <= u32::MAX * u32::MAX) by (nonlinear_arith)
            requires
                0 <= n_ids <= u32::MAX,
                0 <= dim <= u32::MAX,
        ;
    }
    let total: u64 = (n_ids as u64) * (dim as u64);
    EmbedPlan {
        launch: launch1(kernel, div_ceil_u64(total, 256) as u32, 256),
        n_ids: n_ids as i32,
        dim: dim as i32,
        vocab: vocab as i32,
    }
}

/// The outcome of a request for a gather.
pub open spec fn embed_gather_plan(
    n_ids: u32,
    dim: u32,
    vocab: u32,
    dtype: DType,
) -> Result<Option<EmbedPlan>, KernelError> {
    if n_ids == 0 || dim == 0 {
        Ok(None)
    } else if !is_float3(dtype) {
        Err(KernelError::CudaDType("embed: unsupported dtype {}", dtype))
    } else {
        Ok(Some(embed_plan(n_ids, dim, vocab, dtype)))
    }
}

/// Plans a gather; nothing is launched for no elements.
pub fn embed_gather(n_ids: u32, dim: u32, vocab: u32, dtype: DType) -> (r: Result<
    Option<EmbedPlan>,
    KernelError,
>)
    ensures
        r == embed_gather_plan(n_ids, dim, vocab, dtype),
{
    if n_ids == 0 || dim == 0 {
        return Ok(None);
    }
    match float_entry(dtype, "embed_gather_f32", "embed_gather_f16", "embed_gather_bf16") {
        None => Err(KernelError::CudaDType("embed: unsupported dtype {}", dtype)),
        Some(kernel) => Ok(Some(plan(kernel, n_ids, dim, vocab))),
    }
}

/// As `embed_gather`, for single floats.
pub fn embed_gather_f32(
    n_ids: u32,
    dim: u32,
    vocab: u32,
) -> (r: Result<Option<EmbedPlan>, KernelError>)
    ensures
        r == embed_gather_plan(n_ids, dim, vocab, DType::F32),
{
    embed_gather(n_ids, dim, vocab, DType::F32)
}

/// As `embed_gather`, for half floats.
pub fn embed_gather_f16(
    n_ids: u32,
    dim: u32,
    vocab: u32,
) -> (r: Result<Option<EmbedPlan>, KernelError>)
    ensures
        r == embed_gather_plan(n_ids, dim, vocab, DType::F16),
{
    embed_gather(n_ids, dim, vocab, DType::F16)
}

/// As `embed_gather`, for brain floats.
pub fn embed_gather_bf16(
    n_ids: u32,
    dim: u32,
    vocab: u32,
) -> (r: Result<Option<EmbedPlan>, KernelError>)
    ensures
        r == embed_gather_plan(n_ids, dim, vocab, DType::BF16),
{
    embed_gather(n_ids, dim, vocab, DType::BF16)
}

/// The outcome of a request for a gather over buffers of bytes.
pub open spec fn embed_u8_plan(
    table_off: usize,
    out_off: usize,
    n_ids: u32,
    dim: u32,
    vocab: u32,
    dtype: DType,
) -> Result<Option<EmbedU8>, KernelError> {
    if n_ids == 0 || dim == 0 {
        Ok(None)
    } else if !is_float3(dtype) {
        Err(KernelError::CudaDType("embed u8: unsupported dtype {}", dtype))
    } else {
        Ok(
            Some(
                EmbedU8 {
                    gather: embed_plan(n_ids, dim, vocab, dtype),
                    table: spec_span(table_off as int, vocab * dim, float_size(dtype)),
                    out: spec_span(out_off as int, n_ids * dim, float_size(dtype)),
                },
            ),
        )
    }
}

/// Plans a gather over buffers of bytes, from the given offsets on.
pub fn embed_gather_u8(
    table_off: usize,
    out_off: usize,
    n_ids: u32,
    dim: u32,
    vocab: u32,
    dtype: DType,
) -> (r: Result<Option<EmbedU8>, KernelError>)
    requires
        embed_u8_plan(table_off, out_off, n_ids, dim, vocab, dtype) matches Ok(Some(_)) ==> {
            &&& table_off + vocab * dim * float_size(dtype) <= usize::MAX
            &&& out_off + n_ids * dim * float_size(dtype) <= usize::MAX
        },
    ensures
        r == embed_u8_plan(table_off, out_off, n_ids, dim, vocab, dtype),
{
    if n_ids == 0 || dim == 0 {
        return Ok(None);
    }
    match float_entry(dtype, "embed_gather_f32", "embed_gather_f16", "embed_gather_bf16") {
        None => Err(KernelError::CudaDType("embed u8: unsupported dtype {}", dtype)),
        Some(kernel) => {
            proof {
                lemma_mul_le_factor(vocab as int, dim as int, float_size(dtype));
                lemma_mul_le_factor(n_ids as int, dim as int, float_size(dtype));
            }
            let esz: usize = float_bytes(dtype);
            Ok(
                Some(
                    EmbedU8 {
                        gather: plan(kernel, n_ids, dim, vocab),
                        table: span(table_off, (vocab as usize) * (dim as usize), esz),
                        out: span(out_off, (n_ids as usize) * (dim as usize), esz),
                    },
                ),
            )
        },
    }
}

/// A row of a token of the vocabulary lies within the span of the table, and the row that it is
/// copied to within that of the result.
pub proof fn gather_stays_inside(
    table_off: usize,
    out_off: usize,
    n_ids: u32,
    dim: u32,
    vocab: u32,
    dtype: DType,
    t: u32,
    id: u32,
)
    requires
        table_off + vocab * dim * float_size(dtype) <= usize::MAX,
        out_off + n_ids * dim * float_size(dtype) <= usize::MAX,
        t < n_ids,
        id < vocab,
    ensures
        ({
            let e = float_size(dtype);
            let table = spec_span(table_off as int, vocab * dim, e);
            let out = spec_span(out_off as int, n_ids * dim, e);
            &&& table.start <= table_off + id * dim * e
            &&& table_off + (id + 1) * dim * e <= table.end
            &&& out.start <= out_off + t * dim * e
            &&& out_off + (t + 1) * dim * e <= out.end
        }),
{
    let e = float_size(dtype);
    assert(0 <= id * dim * e && (id + 1) * dim * e <= vocab * dim * e) by (nonlinear_arith)
        requires
            id + 1 <= vocab,
            0 <= dim,
            0 <= e,
            0 <= id,
    ;
    assert(0 <= t * dim * e && (t + 1) * dim * e <= n_ids * dim * e) by (nonlinear_arith)
        requires
            t + 1 <= n_ids,
            0 <= dim,
            0 <= e,
            0 <= t,
    ;
}

} // verus!
