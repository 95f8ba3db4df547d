//! Weights in blocks with their scales inside: the way back to floats, and products with few rows.

use vstd::prelude::*;

use crate::arith::{
    ceil_div, div_ceil_u32, lemma_ceil_div, lemma_mul_le_factor, max2, max_u32, mul3_usize,
};
use crate::dtype::DType;
use crate::elementwise::blockq_entries::{entries, has_own_scales, spec_entries};
use crate::elementwise::blockq_laws::{lemma_sub_blocks, takes_sub_blocks, warp_each};
use crate::error::KernelError;
use crate::launch::{launch1, spec_launch1, Call, Launch};

verus! {

/// The suffix of the entries for a format; none where it is not that of a quantised weight.
pub open spec fn spec_suffix(dtype: DType) -> Option<&'static str> {
    match spec_entries(dtype) {
        Some(e) => Some(e.suffix),
        None => None,
    }
}

/// The suffix of the entries for a format; none where it is not that of a quantised weight.
pub fn entry_suffix(dtype: DType) -> (r: Option<&'static str>)
    ensures
        r == spec_suffix(dtype),
{
    match entries(dtype) {
        Some(e) => Some(e.suffix),
        None => None,
    }
}

/// The source of a module: its three parts, a line break between them.
pub open spec fn joined(a: Seq<char>, b: Seq<char>, c: Seq<char>) -> Seq<char> {
    a + "\n"@ + b + "\n"@ + c
}

fn join(a: &str, b: &str, c: &str) -> (r: String)
    ensures
        r@ == joined(a@, b@, c@),
{
    let s = a.to_owned().concat("\n").concat(b).concat("\n").concat(c);
    s
}

/// The source of the module that brings weights back to floats: tables, decoders, entries.
pub fn module_source(tables: &str, decoders: &str, entries: &str) -> (r: String)
    ensures
        r@ == joined(tables@, decoders@, entries@),
{
    join(tables, decoders, entries)
}

/// The source of the module of products: tables, decoders, product kernels.
pub fn gemv_module_source(tables: &str, decoders: &str, products: &str) -> (r: String)
    ensures
        r@ == joined(tables@, decoders@, products@),
{
    join(tables, decoders, products)
}

/// Bytes of a row of `k` elements; `block_row_bytes` is what the format makes of it, none where
/// its blocks do not divide the row.
pub open spec fn spec_row_bytes(
    block_row_bytes: Option<usize>,
    k: usize,
) -> Result<usize, KernelError> {
    if k % 32 != 0 {
        Err(KernelError::Unsupported("blockq_dequant: K должно быть кратно 32"))
    } else {
        match block_row_bytes {
            Some(b) => Ok(b),
            None => Err(KernelError::Unsupported("blockq_dequant: K не кратен блоку формата")),
        }
    }
}

pub fn row_bytes(block_row_bytes: Option<usize>, k: usize) -> (r: Result<usize, KernelError>)
    ensures
        r == spec_row_bytes(block_row_bytes, k),
{
    if k % 32 != 0 {
        return Err(KernelError::Unsupported("blockq_dequant: K должно быть кратно 32"));
    }
    match block_row_bytes {
        Some(b) => Ok(b),
        None => Err(KernelError::Unsupported("blockq_dequant: K не кратен блоку формата")),
    }
}

/// A thread for each 32 elements of `rows` rows of `k`.
pub open spec fn per_sub_block(kernel: &'static str, rows: u32, k: u32) -> Launch {
    spec_launch1(kernel, max2(ceil_div(rows * (k / 32), 256), 1), 256)
}

/// The threads take every block of 32 elements.
pub proof fn sub_blocks_served(kernel: &'static str, rows: u32, k: u32)
    requires
        rows * (k / 32) <= u32::MAX,
    ensures
        per_sub_block(kernel, rows, k).grid.0 * 256 >= rows * (k / 32),
{
    assert(0 <= rows * (k / 32)) by (nonlinear_arith);
    lemma_ceil_div(rows * (k / 32), 256);
}

fn sub_block_launch(kernel: &'static str, rows: u32, k: u32) -> (r: Launch)
    requires
        rows * (k / 32) <= u32::MAX,
    ensures
        r == per_sub_block(kernel, rows, k),
{
    launch1(kernel, max_u32(div_ceil_u32(rows * (k / 32), 256), 1), 256)
}

/// What is planned for `rows` rows of `k` elements of the format `dtype`.
pub open spec fn dequant_plan(
    dtype: DType,
    block_row_bytes: Option<usize>,
    src_len: usize,
    out_len: usize,
    rows: u32,
    k: u32,
) -> Result<Call<(u32, u32, u32)>, KernelError> {
    match spec_row_bytes(block_row_bytes, k as usize) {
        Err(e) => Err(e),
        Ok(b) => {
            let rb = b as u32;
            if src_len < rows * rb {
                Err(KernelError::Unsupported("blockq_dequant: src короче rows × row_bytes"))
            } else if out_len < rows * k * 2 {
                Err(KernelError::Unsupported("blockq_dequant: out короче rows × k"))
            } else {
                match spec_entries(dtype) {
                    None => Err(
                        KernelError::Unsupported("blockq_dequant: формат не квантованный вес"),
                    ),
                    Some(e) => Ok(
                        Call { launch: per_sub_block(e.dequant, rows, k), args: (rows, k, rb) },
                    ),
                }
            }
        },
    }
}

/// Plans the way back to floats for parts of buffers of `src_len` and `out_len` bytes.
pub fn blockq_dequant_raw(
    dtype: DType,
    block_row_bytes: Option<usize>,
    src_len: usize,
    out_len: usize,
    rows: u32,
    k: u32,
) -> (r: Result<Call<(u32, u32, u32)>, KernelError>)
    requires
        spec_row_bytes(block_row_bytes, k as usize) matches Ok(b) ==> rows * (b as u32)
            <= usize::MAX && rows * k * 2 <= usize::MAX,
        dequant_plan(dtype, block_row_bytes, src_len, out_len, rows, k) is Ok ==> rows * (k / 32)
            <= u32::MAX,
    ensures
        r == dequant_plan(dtype, block_row_bytes, src_len, out_len, rows, k),
{
    let rb: u32 = match row_bytes(block_row_bytes, k as usize) {
        Err(e) => {
            return Err(e);
        },
        Ok(b) => b as u32,
    };
    proof {
        lemma_mul_le_factor(rows as int, k as int, 2);
    }
    if src_len < (rows as usize) * (rb as usize) {
        return Err(KernelError::Unsupported("blockq_dequant: src короче rows × row_bytes"));
    }
    if out_len < mul3_usize(rows as usize, k as usize, 2) {
        return Err(KernelError::Unsupported("blockq_dequant: out короче rows × k"));
    }
    match entries(dtype) {
        None => Err(KernelError::Unsupported("blockq_dequant: формат не квантованный вес")),
        Some(e) => Ok(Call { launch: sub_block_launch(e.dequant, rows, k), args: (rows, k, rb) }),
    }
}

/// As `blockq_dequant_raw`, for whole buffers.
pub fn blockq_dequant(
    dtype: DType,
    block_row_bytes: Option<usize>,
    src_len: usize,
    out_len: usize,
    rows: u32,
    k: u32,
) -> (r: Result<Call<(u32, u32, u32)>, KernelError>)
    requires
        spec_row_bytes(block_row_bytes, k as usize) matches Ok(b) ==> rows * (b as u32)
            <= usize::MAX && rows * k * 2 <= usize::MAX,
        dequant_plan(dtype, block_row_bytes, src_len, out_len, rows, k) is Ok ==> rows * (k / 32)
            <= u32::MAX,
    ensures
        r == dequant_plan(dtype, block_row_bytes, src_len, out_len, rows, k),
{
    blockq_dequant_raw(dtype, block_row_bytes, src_len, out_len, rows, k)
}

/// Plans the look-up of `n_ids` rows of a table of `vocab` rows of `k` elements; nothing is
/// launched for no rows.
pub fn blockq_gather_dequant(
    dtype: DType,
    block_row_bytes: Option<usize>,
    table_len: usize,
    ids_len: usize,
    out_len: usize,
    n_ids: u32,
    vocab: u32,
    k: u32,
) -> (r: Result<Option<Call<(u32, u32, u32, u32)>>, KernelError>)
    requires
        spec_row_bytes(block_row_bytes, k as usize) matches Ok(b) ==> {
            &&& vocab * (b as u32) <= usize::MAX
            &&& n_ids * k * 2 <= usize::MAX
            &&& n_ids * k * 2 <= out_len ==> n_ids * (k / 32) <= u32::MAX
        },
    ensures
        r == (match spec_row_bytes(block_row_bytes, k as usize) {
            Err(e) => Err(e),
            Ok(b) => {
                let rb = b as u32;
                if table_len < vocab * rb {
                    Err(
                        KernelError::Unsupported(
                            "blockq_gather_dequant: таблица короче vocab × row_bytes",
                        ),
                    )
                } else if ids_len < n_ids {
                    Err(KernelError::Unsupported("blockq_gather_dequant: ids короче n_ids"))
                } else if out_len < n_ids * k * 2 {
                    Err(KernelError::Unsupported("blockq_gather_dequant: out короче n_ids × k"))
                } else if n_ids == 0 {
                    Ok(None)
                } else {
                    match spec_entries(dtype) {
                        None => Err(
                            KernelError::Unsupported(
                                "blockq_gather_dequant: формат не квантованный вес",
                            ),
                        ),
                        Some(e) => match e.gather {
                            None => Err(
                                KernelError::Unsupported(
                                    "blockq_gather_dequant: только одноблобные форматы",
                                ),
                            ),
                            Some(kernel) => Ok(
                                Some(
                                    Call {
                                        launch: per_sub_block(kernel, n_ids, k),
                                        args: (n_ids, vocab, k, rb),
                                    },
                                ),
                            ),
                        },
                    }
                }
            },
        }),
        r is Ok && n_ids > 0 ==> r->Ok_0 is Some,
        r matches Ok(Some(c)) ==> {
            &&& c.args.0 == n_ids && c.args.1 == vocab && c.args.2 == k
            &&& block_row_bytes matches Some(b) && (b <= u32::MAX ==> c.args.3 == b && vocab * b <= table_len)
            &&& n_ids <= ids_len && 2 * (n_ids * k) <= out_len
            &&& takes_sub_blocks(c.launch, n_ids as int, k as int)
            &&& !has_own_scales(dtype)
        },
{
    proof {
        if k % 32 == 0 && n_ids * (k / 32) <= u32::MAX {
            lemma_sub_blocks(n_ids, k);
        }
    }
    let rb: u32 = match row_bytes(block_row_bytes, k as usize) {
        Err(e) => {
            return Err(e);
        },
        Ok(b) => b as u32,
    };
    proof {
        lemma_mul_le_factor(n_ids as int, k as int, 2);
    }
    if table_len < (vocab as usize) * (rb as usize) {
        return Err(
            KernelError::Unsupported("blockq_gather_dequant: таблица короче vocab × row_bytes"),
        );
    }
    if ids_len < n_ids as usize {
        return Err(KernelError::Unsupported("blockq_gather_dequant: ids короче n_ids"));
    }
    if out_len < mul3_usize(n_ids as usize, k as usize, 2) {
        return Err(KernelError::Unsupported("blockq_gather_dequant: out короче n_ids × k"));
    }
    if n_ids == 0 {
        return Ok(None);
    }
    match entries(dtype) {
        None => Err(KernelError::Unsupported("blockq_gather_dequant: формат не квантованный вес")),
        Some(e) => match e.gather {
            None => Err(
                KernelError::Unsupported("blockq_gather_dequant: только одноблобные форматы"),
            ),
            Some(kernel) => Ok(
                Some(
                    Call {
                        launch: sub_block_launch(kernel, n_ids, k),
                        args: (n_ids, vocab, k, rb),
                    },
                ),
            ),
        },
    }
}

/// Plans the way back to floats for `rows` rows, from row `row_off` on, out of a weight with its
/// scales apart.
pub fn blockq_dequant_band_syn(
    dtype: DType,
    out_len: usize,
    rows: u32,
    k: u32,
    row_off: u32,
) -> (r: Result<
    Call<(u32, u32, u32)>,
    KernelError,
>)
    requires
        has_own_scales(dtype) && k % 32 == 0 ==> {
            &&& rows * k * 2 <= usize::MAX
            &&& rows * k * 2 <= out_len ==> rows * (k / 32) <= u32::MAX
        },
    ensures
        r == (if !has_own_scales(dtype) {
            Err(KernelError::Unsupported("blockq_dequant_band_syn: только NVFP4/MXFP8"))
        } else if k % 32 != 0 {
            Err(KernelError::Unsupported("blockq_dequant_band_syn: K должно быть кратно 32"))
        } else if out_len < rows * k * 2 {
            Err(KernelError::Unsupported("blockq_dequant_band_syn: out короче rows × k"))
        } else {
            Ok(
                Call {
                    launch: per_sub_block(spec_entries(dtype)->0.dequant, rows, k),
                    args: (rows, k, row_off),
                },
            )
        }),
        r is Ok <==> has_own_scales(dtype) && k % 32 == 0 && 2 * (rows * k) <= out_len,
        r matches Ok(c) ==> c.args.0 == rows && c.args.1 == k && c.args.2 == row_off && takes_sub_blocks(
            c.launch,
            rows as int,
            k as int,
        ),
{
    proof {
        if k % 32 == 0 && rows * (k / 32) <= u32::MAX {
            lemma_sub_blocks(rows, k);
        }
    }
    let kernel = match dtype {
        DType::NVFP4 => "deq_nvfp4_syn",
        DType::MXFP8 => "deq_mxfp8_syn",
        _ => {
            return Err(KernelError::Unsupported("blockq_dequant_band_syn: только NVFP4/MXFP8"));
        },
    };
    if k % 32 != 0 {
        return Err(KernelError::Unsupported("blockq_dequant_band_syn: K должно быть кратно 32"));
    }
    proof {
        lemma_mul_le_factor(rows as int, k as int, 2);
    }
    if out_len < mul3_usize(rows as usize, k as usize, 2) {
        return Err(KernelError::Unsupported("blockq_dequant_band_syn: out короче rows × k"));
    }
    Ok(Call { launch: sub_block_launch(kernel, rows, k), args: (rows, k, row_off) })
}

/// Warps of a block of the product kernels; each takes one row of the weight.
pub const GEMV_WARPS: u32 = 4;

/// Threads of a block of the product kernels.
pub const GEMV_THREADS: u32 = 128;

/// Rows of the activation that the product kernels take at most.
pub const GEMV_MAX_M: usize = 8;

/// Bytes of a row of a weight; zero for the formats with their scales apart.
pub open spec fn spec_gemv_row_bytes(
    dtype: DType,
    block_row_bytes: Option<usize>,
    k: usize,
) -> Result<
    u32,
    KernelError,
> {
    if k % 32 != 0 {
        Err(KernelError::Unsupported("blockq_gemv: K должно быть кратно 32"))
    } else if has_own_scales(dtype) {
        Ok(0)
    } else {
        match block_row_bytes {
            Some(b) => Ok(b as u32),
            None => Err(KernelError::Unsupported("blockq_gemv: K не кратен блоку формата")),
        }
    }
}

fn gemv_row_bytes(dtype: DType, block_row_bytes: Option<usize>, k: usize) -> (r: Result<
    u32,
    KernelError,
>)
    ensures
        r == spec_gemv_row_bytes(dtype, block_row_bytes, k),
{
    if k % 32 != 0 {
        return Err(KernelError::Unsupported("blockq_gemv: K должно быть кратно 32"));
    }
    if dtype == DType::NVFP4 || dtype == DType::MXFP8 {
        return Ok(0);
    }
    match block_row_bytes {
        Some(b) => Ok(b as u32),
        None => Err(KernelError::Unsupported("blockq_gemv: K не кратен блоку формата")),
    }
}

/// The product kernel for a format, one that serves a product per expert where `batched`.
pub open spec fn gemv_entry(dtype: DType, batched: bool) -> Result<&'static str, KernelError> {
    match spec_entries(dtype) {
        None => Err(KernelError::Unsupported("blockq_gemv: формат не квантованный вес")),
        Some(e) => if batched {
            match e.gemv_batched {
                None => Err(KernelError::Unsupported("blockq_gemv: нет батчевого ядра")),
                Some(kernel) => Ok(kernel),
            }
        } else {
            match e.gemv {
                None => Err(KernelError::Unsupported("blockq_gemv: нет ядра для формата")),
                Some(kernel) => Ok(kernel),
            }
        },
    }
}

fn gemv_func(dtype: DType, batched: bool) -> (r: Result<&'static str, KernelError>)
    ensures
        r == gemv_entry(dtype, batched),
{
    match entries(dtype) {
        None => Err(KernelError::Unsupported("blockq_gemv: формат не квантованный вес")),
        Some(e) => if batched {
            match e.gemv_batched {
                None => Err(KernelError::Unsupported("blockq_gemv: нет батчевого ядра")),
                Some(kernel) => Ok(kernel),
            }
        } else {
            match e.gemv {
                None => Err(KernelError::Unsupported("blockq_gemv: нет ядра для формата")),
                Some(kernel) => Ok(kernel),
            }
        },
    }
}

/// Plans the product of `m` rows, one to eight, with a weight of `n` by `k`, the rows `x_stride` and
/// those of the result `out_stride` elements apart; nothing is launched for no rows of the weight.
pub fn blockq_gemv(
    dtype: DType,
    block_row_bytes: Option<usize>,
    n: u32,
    k: u32,
    m: u32,
    x_stride: u32,
    out_stride: u32,
) -> (r: Result<Option<Call<(u32, u32, i32, u32, u32, u32)>>, KernelError>)
    ensures
        r == (if m == 0 || m > GEMV_MAX_M {
            Err(KernelError::Unsupported("blockq_gemv: M должно быть в 1..=8"))
        } else {
            match spec_gemv_row_bytes(dtype, block_row_bytes, k as usize) {
                Err(e) => Err(e),
                Ok(rb) => if n == 0 {
                    Ok(None)
                } else {
                    match gemv_entry(dtype, false) {
                        Err(e) => Err(e),
                        Ok(s) => Ok(
                            Some(
                                Call {
                                    launch: spec_launch1(s, ceil_div(n as int, 4), GEMV_THREADS),
                                    args: (n, k, m as i32, x_stride, out_stride, rb),
                                },
                            ),
                        ),
                    }
                },
            }
        }),
        r is Ok ==> 1 <= m <= 8 && k % 32 == 0,
        r is Ok && n > 0 ==> r->Ok_0 is Some,
        r matches Ok(Some(c)) ==> {
            &&& c.args.0 == n && c.args.1 == k && c.args.2 == m
            &&& c.args.3 == x_stride && c.args.4 == out_stride
            &&& warp_each(c.launch, n as int, 1)
        },
{
    proof {
        lemma_ceil_div(n as int, 4);
    }
    if m == 0 || m as usize > GEMV_MAX_M {
        return Err(KernelError::Unsupported("blockq_gemv: M должно быть в 1..=8"));
    }
    let rb: u32 = match gemv_row_bytes(dtype, block_row_bytes, k as usize) {
        Err(e) => {
            return Err(e);
        },
        Ok(b) => b,
    };
    if n == 0 {
        return Ok(None);
    }
    match gemv_func(dtype, false) {
        Err(e) => Err(e),
        Ok(s) => Ok(
            Some(
                Call {
                    launch: launch1(s, div_ceil_u32(n, GEMV_WARPS), GEMV_THREADS),
                    args: (n, k, m as i32, x_stride, out_stride, rb),
                },
            ),
        ),
    }
}

/// Plans one product per expert with weights of `n` by `k`; nothing is launched for none.
pub fn blockq_gemv_batched(
    dtype: DType,
    block_row_bytes: Option<usize>,
    experts: u32,
    n: u32,
    k: u32,
) -> (r: Result<Option<Call<(u32, u32, u32)>>, KernelError>)
    ensures
        r == (match spec_gemv_row_bytes(dtype, block_row_bytes, k as usize) {
            Err(e) => Err(e),
            Ok(rb) => if n == 0 || experts == 0 {
                Ok(None)
            } else {
                match gemv_entry(dtype, true) {
                    Err(e) => Err(e),
                    Ok(s) => Ok(
                        Some(
                            Call {
                                launch: Launch {
                                    kernel: s,
                                    grid: (ceil_div(n as int, 4) as u32, experts, 1),
                                    block: (GEMV_THREADS, 1, 1),
                                    shared_mem_bytes: 0,
                                },
                                args: (n, k, rb),
                            },
                        ),
                    ),
                }
            },
        }),
        r is Ok ==> k % 32 == 0,
        r is Ok && n > 0 && experts > 0 ==> r->Ok_0 is Some,
        r matches Ok(Some(c)) ==> {
            &&& c.args.0 == n && c.args.1 == k
            &&& warp_each(c.launch, n as int, experts as int)
        },
{
    proof {
        lemma_ceil_div(n as int, 4);
    }
    let rb: u32 = match gemv_row_bytes(dtype, block_row_bytes, k as usize) {
        Err(e) => {
            return Err(e);
        },
        Ok(b) => b,
    };
    if n == 0 || experts == 0 {
        return Ok(None);
    }
    match gemv_func(dtype, true) {
        Err(e) => Err(e),
        Ok(s) => Ok(
            Some(
                Call {
                    launch: Launch {
                        kernel: s,
                        grid: (div_ceil_u32(n, GEMV_WARPS), experts, 1),
                        block: (GEMV_THREADS, 1, 1),
                        shared_mem_bytes: 0,
                    },
                    args: (n, k, rb),
                },
            ),
        ),
    }
}

} // verus!
