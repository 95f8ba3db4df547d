//! Operations element by element on tensors of any layout.

use vstd::prelude::*;

use crate::arith::{ceil_div, div_ceil_u64, div_ceil_usize, lemma_ceil_div, max2, min2};
use crate::dtype::{float_bytes, float_entry, float_size, is_float3, spec_float_entry, DType};
use crate::error::KernelError;
use crate::launch::{launch1, spec_launch1, Launch};
use crate::layout::{
    flat_index, in_shape, is_row_major, lemma_row_major_index, lemma_subrange_le,
    lemma_volume_bounds, lemma_volume_first, padded_volume, same_dims, strided_index, volume, Layout,
    Operand,
};

verus! {

/// Axes of a tensor that the kernels take at most.
pub const MAX_RANK: usize = 8;

/// `s` fits the eight places that the kernels have, and each of its values an `i32`.
pub open spec fn pad_error(s: Seq<i64>) -> Option<KernelError> {
    if s.len() > 8 {
        Some(KernelError::Unsupported("rank > MAX_RANK"))
    } else {
        match first_wide(s) {
            Some(v) => Some(KernelError::CudaSigned("dim/stride does not fit in i32: {}", v)),
            None => None,
        }
    }
}

/// The first value that does not fit an `i32`.
pub open spec fn first_wide(s: Seq<i64>) -> Option<i64>
    decreases s.len(),
{
    if s.len() == 0 {
        None
    } else if !(i32::MIN <= s[0] <= i32::MAX) {
        Some(s[0])
    } else {
        first_wide(s.skip(1))
    }
}

/// `s` followed by zeros up to eight places.
pub open spec fn padded(s: Seq<i64>) -> Seq<i32> {
    Seq::new(8, |i: int| if i < s.len() { s[i] as i32 } else { 0i32 })
}

/// `src` in the eight places that the kernels have.
pub fn pad_to(src: &Vec<i64>) -> (r: Result<[i32; 8], KernelError>)
    ensures
        match r {
            Ok(a) => pad_error(src@) is None && a@ == padded(src@),
            Err(e) => pad_error(src@) == Some(e),
        },
{
    if src.len() > MAX_RANK {
        return Err(KernelError::Unsupported("rank > MAX_RANK"));
    }
    let mut out: [i32; 8] = [0, 0, 0, 0, 0, 0, 0, 0];
    let n: usize = src.len();
    let mut i: usize = 0;
    proof {
        assert(src@.skip(0) =~= src@);
    }
    while i < n
        invariant
            i <= n <= 8,
            n == src@.len(),
            first_wide(src@) == first_wide(src@.skip(i as int)),
            forall|j: int| 0 <= j < 8 ==> #[trigger] out@[j] == (if j < i { src@[j] as i32 } else { 0i32 }),
        decreases n - i,
    {
        let v: i64 = src[i];
        proof {
            assert(src@.skip(i as int)[0] == v);
            assert(src@.skip(i as int).skip(1) =~= src@.skip(i + 1));
        }
        if v < i32::MIN as i64 || v > i32::MAX as i64 {
            return Err(KernelError::CudaSigned("dim/stride does not fit in i32: {}", v));
        }
        out[i] = v as i32;
        i = i + 1;
    }
    proof {
        assert(src@.skip(n as int) =~= Seq::empty());
        assert(out@ =~= padded(src@));
    }
    Ok(out)
}

/// Operations on one tensor. Their real parameters are not part of a plan.
#[derive(Clone, Copy, Debug, PartialEq, Eq, Structural)]
pub enum UnaryOp {
    Neg,
    Abs,
    Sqrt,
    Sqr,
    Recip,
    Exp,
    Log,
    Sin,
    Cos,
    Silu,
    GeluTanh,
    Tanh,
    GeluExact,
    Clamp,
    Powf,
    Affine,
    Erf,
    Sigmoid,
    Relu,
    Relu2,
    LeakyRelu,
    Sign,
    StepGtZero,
    Round,
    Floor,
    Ceil,
}

/// Operations on two tensors.
#[derive(Clone, Copy, Debug, PartialEq, Eq, Structural)]
pub enum BinaryOp {
    Add,
    Sub,
    Mul,
    Div,
    Max,
    Min,
}

/// The number by which the kernels know an operation.
pub open spec fn spec_unary_code(op: UnaryOp) -> i32 {
    match op {
        UnaryOp::Neg => 0,
        UnaryOp::Abs => 1,
        UnaryOp::Sqrt => 2,
        UnaryOp::Sqr => 3,
        UnaryOp::Recip => 4,
        UnaryOp::Exp => 5,
        UnaryOp::Log => 6,
        UnaryOp::Sin => 7,
        UnaryOp::Cos => 8,
        UnaryOp::Silu => 9,
        UnaryOp::GeluTanh => 10,
        UnaryOp::Tanh => 11,
        UnaryOp::Clamp => 12,
        UnaryOp::Powf => 13,
        UnaryOp::Affine => 14,
        UnaryOp::Erf => 15,
        UnaryOp::Sigmoid => 16,
        UnaryOp::Relu => 17,
        UnaryOp::Relu2 => 18,
        UnaryOp::LeakyRelu => 19,
        UnaryOp::Sign => 20,
        UnaryOp::StepGtZero => 21,
        UnaryOp::GeluExact => 22,
        UnaryOp::Round => 23,
        UnaryOp::Floor => 24,
        UnaryOp::Ceil => 25,
    }
}

pub fn unary_code(op: UnaryOp) -> (r: i32)
    ensures
        r == spec_unary_code(op),
{
    match op {
        UnaryOp::Neg => 0,
        UnaryOp::Abs => 1,
        UnaryOp::Sqrt => 2,
        UnaryOp::Sqr => 3,
        UnaryOp::Recip => 4,
        UnaryOp::Exp => 5,
        UnaryOp::Log => 6,
        UnaryOp::Sin => 7,
        UnaryOp::Cos => 8,
        UnaryOp::Silu => 9,
        UnaryOp::GeluTanh => 10,
        UnaryOp::Tanh => 11,
        UnaryOp::Clamp => 12,
        UnaryOp::Powf => 13,
        UnaryOp::Affine => 14,
        UnaryOp::Erf => 15,
        UnaryOp::Sigmoid => 16,
        UnaryOp::Relu => 17,
        UnaryOp::Relu2 => 18,
        UnaryOp::LeakyRelu => 19,
        UnaryOp::Sign => 20,
        UnaryOp::StepGtZero => 21,
        UnaryOp::GeluExact => 22,
        UnaryOp::Round => 23,
        UnaryOp::Floor => 24,
        UnaryOp::Ceil => 25,
    }
}

/// The number by which the kernels know an operation.
pub open spec fn spec_binary_code(op: BinaryOp) -> i32 {
    match op {
        BinaryOp::Add => 0,
        BinaryOp::Sub => 1,
        BinaryOp::Mul => 2,
        BinaryOp::Div => 3,
        BinaryOp::Max => 4,
        BinaryOp::Min => 5,
    }
}

pub fn binary_code(op: BinaryOp) -> (r: i32)
    ensures
        r == spec_binary_code(op),
{
    match op {
        BinaryOp::Add => 0,
        BinaryOp::Sub => 1,
        BinaryOp::Mul => 2,
        BinaryOp::Div => 3,
        BinaryOp::Max => 4,
        BinaryOp::Min => 5,
    }
}

/// No two operations share a number.
pub proof fn codes_distinct(a: UnaryOp, b: UnaryOp, c: BinaryOp, d: BinaryOp)
    ensures
        spec_unary_code(a) == spec_unary_code(b) ==> a == b,
        spec_binary_code(c) == spec_binary_code(d) ==> c == d,
{
}

/// A thread per item, within the bound of the grid; always at least one block.
pub open spec fn cfg_launch(kernel: &'static str, items: int) -> Launch {
    spec_launch1(kernel, min2(ceil_div(max2(items, 1), 256), u32::MAX as int), 256)
}

/// Up to the bound of the grid there is a thread for every item.
pub proof fn cfg_launch_covers(kernel: &'static str, items: int)
    requires
        0 <= items <= u32::MAX * 256,
    ensures
        cfg_launch(kernel, items).grid.0 * 256 >= items,
{
    lemma_ceil_div(max2(items, 1), 256);
    assert(ceil_div(max2(items, 1), 256) <= u32::MAX) by {
        crate::arith::lemma_ceil_div_monotone(max2(items, 1), u32::MAX * 256, 256);
        lemma_ceil_div(u32::MAX * 256, 256);
    }
}

pub fn launch_cfg(kernel: &'static str, items: i64) -> (r: Launch)
    ensures
        r == cfg_launch(kernel, items as int),
{
    let n: u64 = if items < 1 {
        1
    } else {
        items as u64
    };
    let blocks: u64 = div_ceil_u64(n, 256);
    let grid: u32 = if blocks > u32::MAX as u64 {
        u32::MAX
    } else {
        blocks as u32
    };
    launch1(kernel, grid, 256)
}

/// Elements of one of the three float types in sixteen bytes.
pub open spec fn lanes(dtype: DType) -> int {
    if dtype == DType::F32 { 4 } else { 8 }
}

fn lane_count(dtype: DType) -> (r: usize)
    ensures
        r == lanes(dtype),
{
    match dtype {
        DType::F32 => 4,
        _ => 8,
    }
}

/// The first element lies at a multiple of sixteen bytes.
pub open spec fn aligned(lo: Layout) -> bool {
    (lo.offset as int * float_size(lo.dtype)) % 16 == 0
}

fn is_aligned(lo: &Layout) -> (r: bool)
    requires
        lo.wf(),
    ensures
        r == aligned(*lo),
{
    proof {
        lemma_volume_bounds(lo.dims@);
    }
    (lo.offset * float_bytes(lo.dtype)) % 16 == 0
}

/// Extents as the kernels take them.
pub open spec fn dims_wide(dims: Seq<usize>) -> Seq<i64> {
    Seq::new(dims.len(), |i: int| dims[i] as i64)
}

/// Strides as the kernels take them.
pub open spec fn strides_wide(strides: Seq<isize>) -> Seq<i64> {
    Seq::new(strides.len(), |i: int| strides[i] as i64)
}

fn dims_i64(dims: &Vec<usize>) -> (r: Vec<i64>)
    ensures
        r@ == dims_wide(dims@),
{
    let mut v: Vec<i64> = Vec::new();
    let n: usize = dims.len();
    let mut i: usize = 0;
    while i < n
        invariant
            i <= n,
            n == dims@.len(),
            v@.len() == i,
            forall|j: int| 0 <= j < i ==> #[trigger] v@[j] == dims@[j] as i64,
        decreases n - i,
    {
        v.push(dims[i] as i64);
        i = i + 1;
    }
    proof {
        assert(v@ =~= dims_wide(dims@));
    }
    v
}

fn strides_i64(strides: &Vec<isize>) -> (r: Vec<i64>)
    ensures
        r@ == strides_wide(strides@),
{
    let mut v: Vec<i64> = Vec::new();
    let n: usize = strides.len();
    let mut i: usize = 0;
    while i < n
        invariant
            i <= n,
            n == strides@.len(),
            v@.len() == i,
            forall|j: int| 0 <= j < i ==> #[trigger] v@[j] == strides@[j] as i64,
        decreases n - i,
    {
        v.push(strides[i] as i64);
        i = i + 1;
    }
    proof {
        assert(v@ =~= strides_wide(strides@));
    }
    v
}

/// The integer parameters of an operation on a tensor of any layout.
#[derive(Clone, Copy, Debug, PartialEq, Eq)]
pub struct UnaryParams {
    pub op_code: i32,
    pub rank: i32,
    pub numel: i64,
    pub in_offset: i64,
    pub dims: [i32; 8],
    pub in_strides: [i32; 8],
}

/// The integer parameters of an operation on rows that are dense within.
#[derive(Clone, Copy, Debug, PartialEq, Eq)]
pub struct RowsParams {
    pub op_code: i32,
    pub rank_outer: i32,
    pub d: i32,
    pub numel: i64,
    pub in_offset: i64,
    pub dims: [i32; 8],
    pub strides: [i32; 8],
}

/// How an operation on one tensor is run.
#[derive(Clone, Copy, Debug, PartialEq, Eq)]
pub enum UnaryPlan {
    /// Sixteen bytes per thread along a contiguous tensor.
    Flat { launch: Launch, op_code: i32, numel: i64, in_offset: i64 },
    /// Sixteen bytes per thread within rows that are dense.
    Rows { launch: Launch, params: RowsParams },
    /// One element per thread.
    Strided { launch: Launch, params: UnaryParams },
}

/// The operation runs sixteen bytes at a time along the whole tensor.
pub open spec fn takes_flat(src: Layout, dst: Layout) -> bool {
    is_float3(src.dtype) && dst.offset == 0 && src.contiguous && aligned(src)
}

/// The outer strides start every row at a multiple of sixteen bytes.
pub open spec fn rows_aligned(strides: Seq<isize>, dtype: DType) -> bool {
    forall|j: int|
        0 <= j < strides.len() - 1 ==> #[trigger] strides[j] >= 0 && (strides[j] as int
            * float_size(dtype)) % 16 == 0
}

/// The operation runs sixteen bytes at a time within rows.
pub open spec fn takes_rows(src: Layout, dst: Layout) -> bool {
    &&& is_float3(src.dtype)
    &&& dst.offset == 0
    &&& 2 <= src.dims@.len() <= 9
    &&& src.dims@.last() as int % lanes(src.dtype) == 0
    &&& src.strides@.last() == 1
    &&& aligned(src)
    &&& rows_aligned(src.strides@, src.dtype)
}

/// What is wrong with a request, if anything.
pub open spec fn unary_error(src: Operand, dst: Operand) -> Option<KernelError> {
    if src.layout.dims@ != dst.layout.dims@ {
        Some(KernelError::ShapeMismatch)
    } else if src.layout.dtype != dst.layout.dtype {
        Some(KernelError::DTypeMismatch(src.layout.dtype, dst.layout.dtype))
    } else if !src.cuda {
        Some(KernelError::Unsupported("cuda unary: src non-cuda"))
    } else if !dst.cuda {
        Some(KernelError::Unsupported("cuda unary: dst non-cuda"))
    } else if takes_flat(src.layout, dst.layout) || takes_rows(src.layout, dst.layout) {
        None
    } else if pad_error(dims_wide(src.layout.dims@)) is Some {
        pad_error(dims_wide(src.layout.dims@))
    } else if pad_error(strides_wide(src.layout.strides@)) is Some {
        pad_error(strides_wide(src.layout.strides@))
    } else if !is_float3(src.layout.dtype) {
        Some(KernelError::Unsupported("cuda unary: dtype"))
    } else {
        None
    }
}

/// `p` is how the operation is run.
pub open spec fn is_unary_plan(p: UnaryPlan, op: UnaryOp, src: Layout, dst: Layout) -> bool {
    let vectors = ceil_div(src.numel as int, lanes(src.dtype));
    match p {
        UnaryPlan::Flat { launch, op_code, numel, in_offset } => {
            &&& takes_flat(src, dst)
            &&& launch == cfg_launch(
                spec_float_entry(src.dtype, "unary_flat_f32", "unary_flat_f16", "unary_flat_bf16")->0,
                vectors,
            )
            &&& op_code == spec_unary_code(op)
            &&& numel == src.numel
            &&& in_offset == src.offset
        },
        UnaryPlan::Rows { launch, params } => {
            &&& !takes_flat(src, dst)
            &&& takes_rows(src, dst)
            &&& launch == cfg_launch(
                spec_float_entry(src.dtype, "unary_rows_f32", "unary_rows_f16", "unary_rows_bf16")->0,
                vectors,
            )
            &&& params.op_code == spec_unary_code(op)
            &&& params.rank_outer == src.dims@.len() - 1
            &&& params.d == src.dims@.last() as i32
            &&& params.numel == src.numel
            &&& params.in_offset == src.offset
            &&& params.dims@ == padded(dims_wide(src.dims@.drop_last()))
            &&& params.strides@ == padded(strides_wide(src.strides@.drop_last()))
        },
        UnaryPlan::Strided { launch, params } => {
            &&& !takes_flat(src, dst)
            &&& !takes_rows(src, dst)
            &&& launch == cfg_launch(
                spec_float_entry(src.dtype, "unary_f32", "unary_f16", "unary_bf16")->0,
                src.numel as int,
            )
            &&& params.op_code == spec_unary_code(op)
            &&& params.rank == src.dims@.len()
            &&& params.numel == src.numel
            &&& params.in_offset == src.offset
            &&& params.dims@ == padded(dims_wide(src.dims@))
            &&& params.in_strides@ == padded(strides_wide(src.strides@))
        },
    }
}

fn rows_path(src: &Layout, dst: &Layout) -> (r: bool)
    requires
        src.wf(),
    ensures
        r == takes_rows(*src, *dst),
{
    let floats = match src.dtype {
        DType::F32 | DType::F16 | DType::BF16 => true,
        _ => false,
    };
    let rank: usize = src.dims.len();
    if !floats || dst.offset != 0 || rank < 2 || rank > 9 {
        return false;
    }
    let elem: usize = float_bytes(src.dtype);
    if src.dims[rank - 1] % lane_count(src.dtype) != 0 || src.strides[rank - 1] != 1 || !is_aligned(
        src,
    ) {
        return false;
    }
    let mut j: usize = 0;
    while j < rank - 1
        invariant
            j <= rank - 1,
            rank == src.strides@.len(),
            rank >= 2,
            elem == float_size(src.dtype),
            src.wf(),
            forall|i: int|
                0 <= i < j ==> #[trigger] src.strides@[i] >= 0 && (src.strides@[i] as int
                    * float_size(src.dtype)) % 16 == 0,
        decreases rank - j,
    {
        let s: isize = src.strides[j];
        if s < 0 || ((s as usize) * elem) % 16 != 0 {
            proof {
                assert(!(src.strides@[j as int] >= 0 && (src.strides@[j as int] as int * float_size(
                    src.dtype,
                )) % 16 == 0));
            }
            return false;
        }
        j = j + 1;
    }
    true
}

/// Eight places that hold the outer extents, or strides, as they are cut to `i32`.
fn outer_places(src: &Vec<i64>) -> (r: [i32; 8])
    requires
        1 <= src@.len() <= 9,
    ensures
        r@ == padded(src@.drop_last()),
{
    let mut out: [i32; 8] = [0, 0, 0, 0, 0, 0, 0, 0];
    let n: usize = src.len() - 1;
    let mut i: usize = 0;
    while i < n
        invariant
            i <= n <= 8,
            n == src@.len() - 1,
            forall|j: int|
                0 <= j < 8 ==> #[trigger] out@[j] == (if j < i { src@[j] as i32 } else { 0i32 }),
        decreases n - i,
    {
        out[i] = src[i] as i32;
        i = i + 1;
    }
    proof {
        assert(out@ =~= padded(src@.drop_last()));
    }
    out
}

/// Plans an operation on one tensor.
pub fn run_unary(op: UnaryOp, src: &Operand, dst: &Operand) -> (r: Result<UnaryPlan, KernelError>)
    requires
        src.wf(),
        dst.wf(),
    ensures
        match r {
            Ok(p) => unary_error(*src, *dst) is None && is_unary_plan(
                p,
                op,
                src.layout,
                dst.layout,
            ),
            Err(e) => unary_error(*src, *dst) == Some(e),
        },
{
    let (s, d): (&Layout, &Layout) = (&src.layout, &dst.layout);
    if !same_dims(&s.dims, &d.dims) {
        return Err(KernelError::ShapeMismatch);
    }
    if s.dtype != d.dtype {
        return Err(KernelError::DTypeMismatch(s.dtype, d.dtype));
    }
    if !src.cuda {
        return Err(KernelError::Unsupported("cuda unary: src non-cuda"));
    }
    if !dst.cuda {
        return Err(KernelError::Unsupported("cuda unary: dst non-cuda"));
    }
    proof {
        lemma_volume_bounds(s.dims@);
        lemma_ceil_div(s.numel as int, lanes(s.dtype));
    }
    let op_code: i32 = unary_code(op);
    let numel: i64 = s.numel as i64;
    let in_offset: i64 = s.offset as i64;
    let vectors: i64 = div_ceil_usize(s.numel, lane_count(s.dtype)) as i64;
    match float_entry(s.dtype, "unary_flat_f32", "unary_flat_f16", "unary_flat_bf16") {
        Some(kernel) => {
            if d.offset == 0 && s.contiguous && is_aligned(s) {
                return Ok(
                    UnaryPlan::Flat {
                        launch: launch_cfg(kernel, vectors),
                        op_code,
                        numel,
                        in_offset,
                    },
                );
            }
        },
        None => {},
    }
    let dims = dims_i64(&s.dims);
    let strides = strides_i64(&s.strides);
    let rank: usize = s.dims.len();
    if rows_path(s, d) {
        proof {
            assert(dims@.drop_last() =~= dims_wide(s.dims@.drop_last()));
            assert(strides@.drop_last() =~= strides_wide(s.strides@.drop_last()));
        }
        match float_entry(s.dtype, "unary_rows_f32", "unary_rows_f16", "unary_rows_bf16") {
            Some(kernel) => {
                return Ok(
                    UnaryPlan::Rows {
                        launch: launch_cfg(kernel, vectors),
                        params: RowsParams {
                            op_code,
                            rank_outer: (rank - 1) as i32,
                            d: s.dims[rank - 1] as i32,
                            numel,
                            in_offset,
                            dims: outer_places(&dims),
                            strides: outer_places(&strides),
                        },
                    },
                );
            },
            None => {},
        }
    }
    let pdims = match pad_to(&dims) {
        Ok(a) => a,
        Err(e) => {
            return Err(e);
        },
    };
    let pstrides = match pad_to(&strides) {
        Ok(a) => a,
        Err(e) => {
            return Err(e);
        },
    };
    match float_entry(s.dtype, "unary_f32", "unary_f16", "unary_bf16") {
        None => Err(KernelError::Unsupported("cuda unary: dtype")),
        Some(kernel) => Ok(
            UnaryPlan::Strided {
                launch: launch_cfg(kernel, numel),
                params: UnaryParams {
                    op_code,
                    rank: rank as i32,
                    numel,
                    in_offset,
                    dims: pdims,
                    in_strides: pstrides,
                },
            },
        ),
    }
}

/// The place that the first `rank` of eight strides give the element at `index`.
pub open spec fn placed_index(strides: Seq<i32>, rank: int, index: Seq<int>) -> int
    decreases rank,
{
    if rank <= 0 {
        0
    } else {
        placed_index(strides, rank - 1, index) + index[rank - 1] * strides[rank - 1]
    }
}

proof fn lemma_none_wide(s: Seq<i64>, j: int)
    requires
        first_wide(s) is None,
        0 <= j < s.len(),
    ensures
        i32::MIN <= s[j] <= i32::MAX,
    decreases s.len(),
{
    if j > 0 {
        lemma_none_wide(s.skip(1), j - 1);
    }
}

/// Places that hold the first `rank` strides, but for those along which the index is zero, lead to
/// where these lead.
pub proof fn lemma_placed_prefix(places: Seq<i32>, strides: Seq<isize>, index: Seq<int>, rank: int)
    requires
        0 <= rank <= strides.len(),
        rank <= index.len(),
        forall|j: int| 0 <= j < rank ==> #[trigger] places[j] == strides[j] || index[j] == 0,
    ensures
        placed_index(places, rank, index) == strided_index(strides.take(rank), index.take(rank)),
    decreases rank,
{
    if rank > 0 {
        lemma_placed_prefix(places, strides, index, rank - 1);
        assert(strides.take(rank).drop_last() =~= strides.take(rank - 1));
        assert(index.take(rank).drop_last() =~= index.take(rank - 1));
        assert(places[rank - 1] == strides[rank - 1] || index[rank - 1] == 0);
        assert(0 * places[rank - 1] == 0 && 0 * strides[rank - 1] == 0);
        assert(strides.take(rank).last() == strides[rank - 1]);
        assert(index.take(rank).last() == index[rank - 1]);
    }
}

/// Strides that fit the eight places lose nothing there: the kernel finds every element where the
/// tensor has it.
pub proof fn padded_strides_name_the_same(strides: Seq<isize>, index: Seq<int>)
    requires
        pad_error(strides_wide(strides)) is None,
        index.len() == strides.len(),
    ensures
        placed_index(padded(strides_wide(strides)), strides.len() as int, index) == strided_index(
            strides,
            index,
        ),
{
    let wide = strides_wide(strides);
    let n = strides.len() as int;
    assert forall|j: int| 0 <= j < n implies #[trigger] padded(wide)[j] == strides[j] by {
        lemma_none_wide(wide, j);
    }
    lemma_placed_prefix(padded(wide), strides, index, n);
    assert(strides.take(n) =~= strides);
    assert(index.take(n) =~= index);
}

proof fn lemma_some_element(dims: Seq<usize>, index: Seq<int>)
    requires
        in_shape(dims, index),
    ensures
        volume(dims) > 0,
    decreases dims.len(),
{
    if dims.len() > 0 {
        let n = dims.len() - 1;
        assert(0 <= index[n] < dims[n]);
        assert forall|j: int| 0 <= j < n implies 0 <= #[trigger] index.drop_last()[j]
            < dims.drop_last()[j] by {
            assert(index.drop_last()[j] == index[j]);
        }
        lemma_some_element(dims.drop_last(), index.drop_last());
        assert(volume(dims.drop_last()) * dims.last() > 0) by (nonlinear_arith)
            requires
                volume(dims.drop_last()) > 0,
                dims.last() > 0,
        ;
    }
}

/// The element of the source that the plan reads for the element of the result at `index`.
pub open spec fn unary_reads(p: UnaryPlan, dims: Seq<usize>, index: Seq<int>) -> int {
    match p {
        UnaryPlan::Flat { in_offset, .. } => in_offset + flat_index(dims, index),
        UnaryPlan::Rows { params, .. } => params.in_offset + placed_index(
            params.strides@,
            params.rank_outer as int,
            index,
        ) + index[params.rank_outer as int],
        UnaryPlan::Strided { params, .. } => params.in_offset + placed_index(
            params.in_strides@,
            params.rank as int,
            index,
        ),
    }
}

/// The strides along which a tensor of shape `dims` extends fit an `i32`.
pub open spec fn strides_fit(dims: Seq<usize>, strides: Seq<isize>) -> bool {
    forall|j: int|
        0 <= j < strides.len() ==> i32::MIN <= #[trigger] strides[j] <= i32::MAX || dims[j] <= 1
}

/// The first of eight places hold the extents `dims`.
pub open spec fn holds_extents(places: Seq<i32>, dims: Seq<usize>) -> bool {
    forall|j: int| 0 <= j < dims.len() ==> #[trigger] places[j] == dims[j]
}

/// Extents that fit the eight places lose nothing there.
pub proof fn padded_extents_are_the_same(dims: Seq<usize>)
    requires
        dims.len() <= 8,
        padded_volume(dims) <= i64::MAX,
        first_wide(dims_wide(dims)) is None,
    ensures
        holds_extents(padded(dims_wide(dims)), dims),
{
    let wide = dims_wide(dims);
    lemma_volume_bounds(dims);
    assert forall|j: int| 0 <= j < dims.len() implies #[trigger] padded(wide)[j] == dims[j] by {
        lemma_none_wide(wide, j);
    }
}

/// The plan has the kernel walk over a tensor of shape `dims`.
pub open spec fn unary_walks(p: UnaryPlan, dims: Seq<usize>) -> bool {
    match p {
        UnaryPlan::Flat { numel, .. } => numel == volume(dims),
        UnaryPlan::Rows { params, .. } => {
            &&& params.numel == volume(dims)
            &&& params.rank_outer == dims.len() - 1
            &&& params.d == dims.last()
            &&& holds_extents(params.dims@, dims.drop_last())
        },
        UnaryPlan::Strided { params, .. } => {
            &&& params.numel == volume(dims)
            &&& params.rank == dims.len()
            &&& holds_extents(params.dims@, dims)
        },
    }
}

/// Whichever path an operation takes, it walks over the shape of the source and reads for every
/// element of the result the element of the source that the strides name. On the path through
/// rows this takes extents and strides that fit an `i32`, which nothing tests there.
pub proof fn unary_paths_read_the_same(
    p: UnaryPlan,
    op: UnaryOp,
    src: Operand,
    dst: Operand,
    index: Seq<int>,
)
    requires
        src.wf(),
        unary_error(src, dst) is None,
        is_unary_plan(p, op, src.layout, dst.layout),
        in_shape(src.layout.dims@, index),
        p is Rows ==> strides_fit(src.layout.dims@, src.layout.strides@),
    ensures
        unary_reads(p, src.layout.dims@, index) == src.layout.offset + strided_index(
            src.layout.strides@,
            index,
        ),
        p !is Rows || first_wide(dims_wide(src.layout.dims@)) is None ==> unary_walks(
            p,
            src.layout.dims@,
        ),
{
    let lo = src.layout;
    lemma_some_element(lo.dims@, index);
    match p {
        UnaryPlan::Flat { .. } => {
            lemma_row_major_index(lo.dims@, lo.strides@, index);
        },
        UnaryPlan::Rows { params, .. } => {
            let n = lo.strides@.len() - 1;
            let outer = strides_wide(lo.strides@.drop_last());
            assert forall|j: int| 0 <= j < n implies #[trigger] params.strides@[j] == lo.strides@[j]
                || index[j] == 0 by {
                assert(0 <= index[j] < lo.dims@[j]);
                assert(outer[j] == lo.strides@[j]);
            }
            lemma_placed_prefix(params.strides@, lo.strides@, index, n);
            assert(lo.strides@.take(n) =~= lo.strides@.drop_last());
            assert(index.take(n) =~= index.drop_last());
            assert(index.last() * 1 == index.last());
            if first_wide(dims_wide(lo.dims@)) is None {
                let rows = dims_wide(lo.dims@.drop_last());
                lemma_volume_bounds(lo.dims@);
                assert forall|j: int| 0 <= j < n implies #[trigger] params.dims@[j]
                    == lo.dims@.drop_last()[j] by {
                    lemma_none_wide(dims_wide(lo.dims@), j);
                    assert(lo.dims@[j] <= padded_volume(lo.dims@));
                    assert(rows[j] == lo.dims@[j]);
                }
                lemma_none_wide(dims_wide(lo.dims@), n);
                assert(lo.dims@[n] <= padded_volume(lo.dims@));
            }
        },
        UnaryPlan::Strided { .. } => {
            padded_strides_name_the_same(lo.strides@, index);
            padded_extents_are_the_same(lo.dims@);
        },
    }
}

/// A tensor and a contiguous copy of it give the same result, whatever the strides: for every
/// element of the result the copy is read where the element stands in row order, and the tensor
/// where its strides have the element that was copied there.
pub proof fn a_copy_reads_the_same(
    p: UnaryPlan,
    q: UnaryPlan,
    op: UnaryOp,
    src: Operand,
    copy: Operand,
    dst: Operand,
    index: Seq<int>,
)
    requires
        src.wf(),
        copy.wf(),
        copy.layout.contiguous,
        copy.layout.dims@ == src.layout.dims@,
        copy.layout.dtype == src.layout.dtype,
        unary_error(src, dst) is None,
        unary_error(copy, dst) is None,
        is_unary_plan(p, op, src.layout, dst.layout),
        is_unary_plan(q, op, copy.layout, dst.layout),
        in_shape(src.layout.dims@, index),
        p is Rows ==> strides_fit(src.layout.dims@, src.layout.strides@),
        q is Rows ==> strides_fit(copy.layout.dims@, copy.layout.strides@),
    ensures
        unary_reads(p, src.layout.dims@, index) == src.layout.offset + strided_index(
            src.layout.strides@,
            index,
        ),
        unary_reads(q, copy.layout.dims@, index) == copy.layout.offset + flat_index(
            src.layout.dims@,
            index,
        ),
{
    unary_paths_read_the_same(p, op, src, dst, index);
    unary_paths_read_the_same(q, op, copy, dst, index);
    lemma_some_element(src.layout.dims@, index);
    lemma_row_major_index(copy.layout.dims@, copy.layout.strides@, index);
}

/// On the path through rows every row starts, and every sixteen bytes of it lie, at a multiple of
/// sixteen bytes: `index` names the first element of a row, `v` counts its vectors.
pub proof fn rows_are_vectorised(src: Layout, dst: Layout, index: Seq<int>, v: int)
    requires
        src.wf(),
        takes_rows(src, dst),
        in_shape(src.dims@, index),
        index.last() == v * lanes(src.dtype),
    ensures
        ((src.offset + strided_index(src.strides@, index)) * float_size(src.dtype)) % 16 == 0,
{
    let outer = src.strides@.drop_last();
    let e = float_size(src.dtype);
    assert forall|j: int| 0 <= j < outer.len() implies (#[trigger] outer[j] as int * e) % 16 == 0 by {
        assert(src.strides@[j] >= 0);
        assert(outer[j] == src.strides@[j]);
    }
    lemma_multiple_index(outer, index.drop_last(), e);
    let o = strided_index(outer, index.drop_last());
    let l = index.last();
    assert(strided_index(src.strides@, index) == o + l);
    assert((l * e) % 16 == 0) by {
        if src.dtype == DType::F32 {
            assert((v * 4) * 4 == v * 16);
        } else {
            assert((v * 8) * 2 == v * 16);
        }
    }
    let a = src.offset * e;
    let b = o * e;
    let c = l * e;
    assert((src.offset + (o + l)) * e == a + b + c) by (nonlinear_arith)
        requires
            a == src.offset * e,
            b == o * e,
            c == l * e,
    ;
}

proof fn lemma_multiple_index(strides: Seq<isize>, index: Seq<int>, e: int)
    requires
        forall|j: int| 0 <= j < strides.len() ==> (#[trigger] strides[j] as int * e) % 16 == 0,
    ensures
        (strided_index(strides, index) * e) % 16 == 0,
    decreases strides.len(),
{
    if strides.len() > 0 {
        let rest = strides.drop_last();
        assert forall|j: int| 0 <= j < rest.len() implies (#[trigger] rest[j] as int * e) % 16 == 0 by {
            assert(rest[j] == strides[j]);
        }
        lemma_multiple_index(rest, index.drop_last(), e);
        let n = strides.len() - 1;
        let s = strides.last() as int;
        assert((strides[n] as int * e) % 16 == 0);
        let x = strided_index(rest, index.drop_last());
        let i = index.last();
        let k = (s * e) / 16;
        let m = (x * e) / 16;
        assert(s * e == 16 * k);
        assert(x * e == 16 * m);
        assert((x + i * s) * e == 16 * (m + i * k)) by (nonlinear_arith)
            requires
                s * e == 16 * k,
                x * e == 16 * m,
        ;
    } else {
        assert(0 * e == 0);
    }
}

/// The integer parameters of an operation on two tensors of any layout.
#[derive(Clone, Copy, Debug, PartialEq, Eq)]
pub struct BinaryParams {
    pub op_code: i32,
    pub rank: i32,
    pub numel: i64,
    pub a_offset: i64,
    pub b_offset: i64,
    pub dims: [i32; 8],
    pub a_strides: [i32; 8],
    pub b_strides: [i32; 8],
}

/// How the second operand is read on the fast paths.
#[derive(Clone, Copy, Debug, PartialEq, Eq, Structural)]
pub enum BinaryShape {
    /// Element by element.
    Flat,
    /// One row for all: the place modulo the row length.
    Row,
    /// One value per row: the place divided by the row length.
    Column,
}

/// How an operation on two tensors is run.
#[derive(Clone, Copy, Debug, PartialEq, Eq)]
pub enum BinaryPlan {
    Fast {
        launch: Launch,
        shape: BinaryShape,
        op_code: i32,
        numel: i64,
        a_offset: i64,
        b_offset: i64,
        d: Option<i32>,
    },
    Strided { launch: Launch, params: BinaryParams },
}

/// The length of a row: the last extent, or zero for a scalar.
pub open spec fn row_len(dims: Seq<usize>) -> int {
    if dims.len() == 0 { 0 } else { dims.last() as int }
}

/// Rows are a whole number of vectors.
pub open spec fn whole_rows(dims: Seq<usize>, dtype: DType) -> bool {
    row_len(dims) > 0 && row_len(dims) % lanes(dtype) == 0
}

/// `strides` read one row over and over.
pub open spec fn reads_row(dims: Seq<usize>, strides: Seq<isize>) -> bool {
    &&& strides.last() == 1
    &&& forall|j: int|
        0 <= j < strides.len() - 1 ==> #[trigger] strides[j] == 0 || dims[j] == 1
}

/// `strides` read one value per row.
pub open spec fn reads_column(dims: Seq<usize>, strides: Seq<isize>) -> bool {
    strides.last() == 0 && is_row_major(dims.drop_last(), strides.drop_last())
}

/// How the second operand is read, if the operation runs on a fast path.
pub open spec fn fast_shape(a: Layout, b: Layout, dst: Layout) -> Option<BinaryShape> {
    if !(is_float3(a.dtype) && dst.offset == 0 && a.contiguous && aligned(a) && aligned(b)) {
        None
    } else if b.contiguous {
        Some(BinaryShape::Flat)
    } else if whole_rows(dst.dims@, a.dtype) && reads_row(dst.dims@, b.strides@) {
        Some(BinaryShape::Row)
    } else if whole_rows(dst.dims@, a.dtype) && reads_column(dst.dims@, b.strides@) {
        Some(BinaryShape::Column)
    } else {
        None
    }
}

/// What is wrong with a request, if anything.
pub open spec fn binary_error(a: Operand, b: Operand, dst: Operand) -> Option<KernelError> {
    if a.layout.dtype != b.layout.dtype || a.layout.dtype != dst.layout.dtype {
        Some(KernelError::DTypeMismatch(a.layout.dtype, dst.layout.dtype))
    } else if a.layout.dims@ != dst.layout.dims@ || b.layout.dims@ != dst.layout.dims@ {
        Some(KernelError::ShapeMismatch)
    } else if !a.cuda {
        Some(KernelError::Unsupported("cuda binary: a non-cuda"))
    } else if !b.cuda {
        Some(KernelError::Unsupported("cuda binary: b non-cuda"))
    } else if !dst.cuda {
        Some(KernelError::Unsupported("cuda binary: dst non-cuda"))
    } else if fast_shape(a.layout, b.layout, dst.layout) is Some {
        None
    } else if pad_error(dims_wide(dst.layout.dims@)) is Some {
        pad_error(dims_wide(dst.layout.dims@))
    } else if pad_error(strides_wide(a.layout.strides@)) is Some {
        pad_error(strides_wide(a.layout.strides@))
    } else if pad_error(strides_wide(b.layout.strides@)) is Some {
        pad_error(strides_wide(b.layout.strides@))
    } else if !is_float3(a.layout.dtype) {
        Some(KernelError::Unsupported("cuda binary: dtype"))
    } else {
        None
    }
}

/// The entry of a fast path.
pub open spec fn fast_entry(shape: BinaryShape, dtype: DType) -> Option<&'static str> {
    match shape {
        BinaryShape::Flat => spec_float_entry(
            dtype,
            "binary_flat_f32",
            "binary_flat_f16",
            "binary_flat_bf16",
        ),
        BinaryShape::Row => spec_float_entry(
            dtype,
            "binary_rowb_f32",
            "binary_rowb_f16",
            "binary_rowb_bf16",
        ),
        BinaryShape::Column => spec_float_entry(
            dtype,
            "binary_colb_f32",
            "binary_colb_f16",
            "binary_colb_bf16",
        ),
    }
}

/// `p` is how the operation is run.
pub open spec fn is_binary_plan(
    p: BinaryPlan,
    op: BinaryOp,
    a: Layout,
    b: Layout,
    dst: Layout,
) -> bool {
    match p {
        BinaryPlan::Fast { launch, shape, op_code, numel, a_offset, b_offset, d } => {
            &&& fast_shape(a, b, dst) == Some(shape)
            &&& launch == cfg_launch(
                fast_entry(shape, a.dtype)->0,
                ceil_div(dst.numel as int, lanes(a.dtype)),
            )
            &&& op_code == spec_binary_code(op)
            &&& numel == dst.numel
            &&& a_offset == a.offset
            &&& b_offset == b.offset
            &&& d == (if shape == BinaryShape::Flat {
                None
            } else {
                Some(dst.dims@.last() as i32)
            })
        },
        BinaryPlan::Strided { launch, params } => {
            &&& fast_shape(a, b, dst) is None
            &&& launch == cfg_launch(
                spec_float_entry(a.dtype, "binary_f32", "binary_f16", "binary_bf16")->0,
                dst.numel as int,
            )
            &&& params.op_code == spec_binary_code(op)
            &&& params.rank == dst.dims@.len()
            &&& params.numel == dst.numel
            &&& params.a_offset == a.offset
            &&& params.b_offset == b.offset
            &&& params.dims@ == padded(dims_wide(dst.dims@))
            &&& params.a_strides@ == padded(strides_wide(a.strides@))
            &&& params.b_strides@ == padded(strides_wide(b.strides@))
        },
    }
}

fn is_row(dims: &Vec<usize>, strides: &Vec<isize>) -> (r: bool)
    requires
        dims@.len() == strides@.len(),
        dims@.len() > 0,
    ensures
        r == reads_row(dims@, strides@),
{
    let rank: usize = dims.len();
    if strides[rank - 1] != 1 {
        return false;
    }
    let mut j: usize = 0;
    while j < rank - 1
        invariant
            j <= rank - 1,
            rank == strides@.len(),
            rank == dims@.len(),
            rank > 0,
            forall|i: int| 0 <= i < j ==> #[trigger] strides@[i] == 0 || dims@[i] == 1,
        decreases rank - j,
    {
        if strides[j] != 0 && dims[j] != 1 {
            proof {
                assert(!(strides@[j as int] == 0 || dims@[j as int] == 1));
            }
            return false;
        }
        j = j + 1;
    }
    true
}

fn is_column(dims: &Vec<usize>, strides: &Vec<isize>) -> (r: bool)
    requires
        dims@.len() == strides@.len(),
        dims@.len() > 0,
        padded_volume(dims@) <= isize::MAX,
    ensures
        r == reads_column(dims@, strides@),
{
    let rank: usize = dims.len();
    if strides[rank - 1] != 0 {
        return false;
    }
    let ghost outer = dims@.drop_last();
    let ghost outer_strides = strides@.drop_last();
    let mut expected: isize = 1;
    let mut j: usize = rank - 1;
    proof {
        assert(outer.skip(rank - 1) =~= Seq::empty());
    }
    while j > 0
        invariant
            j <= rank - 1,
            rank == strides@.len(),
            rank == dims@.len(),
            rank > 0,
            outer == dims@.drop_last(),
            outer_strides == strides@.drop_last(),
            padded_volume(dims@) <= isize::MAX,
            expected == volume(outer.skip(j as int)),
            forall|i: int|
                j <= i < outer.len() && outer[i] != 1 ==> #[trigger] outer_strides[i] == volume(
                    outer.skip(i + 1),
                ),
        decreases j,
    {
        let k: usize = j - 1;
        proof {
            assert(outer[k as int] == dims@[k as int]);
            assert(outer_strides[k as int] == strides@[k as int]);
            let tail = outer.skip(k as int);
            lemma_volume_first(tail);
            assert(tail.skip(1) =~= outer.skip(k + 1));
            assert(tail[0] == outer[k as int]);
            assert(tail =~= dims@.subrange(k as int, rank - 1));
            lemma_subrange_le(dims@, k as int, rank - 1);
            lemma_volume_bounds(tail);
            assert(dims@[k as int] * volume(outer.skip(k + 1)) <= isize::MAX);
            assert(volume(outer.skip(k + 1)) * dims@[k as int] == dims@[k as int] * volume(
                outer.skip(k + 1),
            )) by (nonlinear_arith);
            lemma_volume_bounds(dims@);
        }
        if dims[k] != 1 {
            if strides[k] != expected {
                proof {
                    assert(outer_strides[k as int] != volume(outer.skip(k + 1)));
                }
                return false;
            }
            expected = expected * (dims[k] as isize);
        }
        proof {
            let rest = volume(outer.skip(k + 1));
            assert(volume(outer.skip(k as int)) == dims@[k as int] * rest);
            if dims@[k as int] == 1 {
                let one = dims@[k as int] as int;
                assert(one * rest == rest) by (nonlinear_arith)
                    requires
                        one == 1,
                ;
            }
        }
        j = k;
    }
    true
}

/// Plans an operation on two tensors of one shape, of which the second may be broadcast.
pub fn run_binary(op: BinaryOp, a: &Operand, b: &Operand, dst: &Operand) -> (r: Result<
    BinaryPlan,
    KernelError,
>)
    requires
        a.wf(),
        b.wf(),
        dst.wf(),
    ensures
        match r {
            Ok(p) => binary_error(*a, *b, *dst) is None && is_binary_plan(
                p,
                op,
                a.layout,
                b.layout,
                dst.layout,
            ),
            Err(e) => binary_error(*a, *b, *dst) == Some(e),
        },
{
    let (al, bl, dl): (&Layout, &Layout, &Layout) = (&a.layout, &b.layout, &dst.layout);
    if al.dtype != bl.dtype || al.dtype != dl.dtype {
        return Err(KernelError::DTypeMismatch(al.dtype, dl.dtype));
    }
    if !same_dims(&al.dims, &dl.dims) || !same_dims(&bl.dims, &dl.dims) {
        return Err(KernelError::ShapeMismatch);
    }
    if !a.cuda {
        return Err(KernelError::Unsupported("cuda binary: a non-cuda"));
    }
    if !b.cuda {
        return Err(KernelError::Unsupported("cuda binary: b non-cuda"));
    }
    if !dst.cuda {
        return Err(KernelError::Unsupported("cuda binary: dst non-cuda"));
    }
    proof {
        lemma_volume_bounds(dl.dims@);
        lemma_ceil_div(dl.numel as int, lanes(al.dtype));
    }
    let op_code: i32 = binary_code(op);
    let numel: i64 = dl.numel as i64;
    let (a_offset, b_offset): (i64, i64) = (al.offset as i64, bl.offset as i64);
    let rank: usize = dl.dims.len();
    let floats = match al.dtype {
        DType::F32 | DType::F16 | DType::BF16 => true,
        _ => false,
    };
    if floats && dl.offset == 0 && al.contiguous && is_aligned(al) && is_aligned(bl) {
        let lane: usize = lane_count(al.dtype);
        let vectors: i64 = div_ceil_usize(dl.numel, lane) as i64;
        let rows = rank > 0 && dl.dims[rank - 1] > 0 && dl.dims[rank - 1] % lane == 0;
        let shape = if bl.contiguous {
            Some(BinaryShape::Flat)
        } else if rows && is_row(&dl.dims, &bl.strides) {
            Some(BinaryShape::Row)
        } else if rows && is_column(&dl.dims, &bl.strides) {
            Some(BinaryShape::Column)
        } else {
            None
        };
        match shape {
            Some(shape) => {
                let entry = match shape {
                    BinaryShape::Flat => float_entry(
                        al.dtype,
                        "binary_flat_f32",
                        "binary_flat_f16",
                        "binary_flat_bf16",
                    ),
                    BinaryShape::Row => float_entry(
                        al.dtype,
                        "binary_rowb_f32",
                        "binary_rowb_f16",
                        "binary_rowb_bf16",
                    ),
                    BinaryShape::Column => float_entry(
                        al.dtype,
                        "binary_colb_f32",
                        "binary_colb_f16",
                        "binary_colb_bf16",
                    ),
                };
                match entry {
                    Some(kernel) => {
                        let d = match shape {
                            BinaryShape::Flat => None,
                            _ => Some(dl.dims[rank - 1] as i32),
                        };
                        return Ok(
                            BinaryPlan::Fast {
                                launch: launch_cfg(kernel, vectors),
                                shape,
                                op_code,
                                numel,
                                a_offset,
                                b_offset,
                                d,
                            },
                        );
                    },
                    None => {},
                }
            },
            None => {},
        }
    }
    let dims = match pad_to(&dims_i64(&dl.dims)) {
        Ok(x) => x,
        Err(e) => {
            return Err(e);
        },
    };
    let a_strides = match pad_to(&strides_i64(&al.strides)) {
        Ok(x) => x,
        Err(e) => {
            return Err(e);
        },
    };
    let b_strides = match pad_to(&strides_i64(&bl.strides)) {
        Ok(x) => x,
        Err(e) => {
            return Err(e);
        },
    };
    match float_entry(al.dtype, "binary_f32", "binary_f16", "binary_bf16") {
        None => Err(KernelError::Unsupported("cuda binary: dtype")),
        Some(kernel) => Ok(
            BinaryPlan::Strided {
                launch: launch_cfg(kernel, numel),
                params: BinaryParams {
                    op_code,
                    rank: rank as i32,
                    numel,
                    a_offset,
                    b_offset,
                    dims,
                    a_strides,
                    b_strides,
                },
            },
        ),
    }
}

proof fn lemma_still_index(dims: Seq<usize>, strides: Seq<isize>, index: Seq<int>)
    requires
        strides.len() == dims.len(),
        in_shape(dims, index),
        forall|j: int| 0 <= j < strides.len() ==> #[trigger] strides[j] == 0 || dims[j] == 1,
    ensures
        strided_index(strides, index) == 0,
    decreases dims.len(),
{
    if dims.len() > 0 {
        let n = dims.len() - 1;
        assert(strides[n] == 0 || dims[n] == 1);
        assert(0 <= index[n] < dims[n]);
        assert(index[n] == 0 || strides[n] == 0);
        assert(index.last() * strides.last() == 0) by (nonlinear_arith)
            requires
                index.last() == 0 || strides.last() == 0,
        ;
        assert forall|j: int| 0 <= j < n implies #[trigger] strides.drop_last()[j] == 0
            || dims.drop_last()[j] == 1 by {
            assert(strides[j] == 0 || dims[j] == 1);
        }
        assert forall|j: int| 0 <= j < n implies 0 <= #[trigger] index.drop_last()[j]
            < dims.drop_last()[j] by {
            assert(index.drop_last()[j] == index[j]);
        }
        lemma_still_index(dims.drop_last(), strides.drop_last(), index.drop_last());
    }
}

/// The fast paths read what the strides say: of the element at the flat place `i` the first
/// operand's own place is `i`, and the second one's is `i`, `i` modulo the row length, or `i`
/// divided by it.
pub proof fn fast_paths_read_the_same(a: Layout, b: Layout, dst: Layout, index: Seq<int>)
    requires
        a.wf(),
        b.wf(),
        a.dims@ == dst.dims@,
        b.dims@ == dst.dims@,
        dst.wf(),
        dst.numel > 0,
        in_shape(dst.dims@, index),
    ensures
        fast_shape(a, b, dst) is Some ==> strided_index(a.strides@, index) == flat_index(
            dst.dims@,
            index,
        ),
        fast_shape(a, b, dst) == Some(BinaryShape::Flat) ==> strided_index(b.strides@, index)
            == flat_index(dst.dims@, index),
        fast_shape(a, b, dst) == Some(BinaryShape::Row) ==> strided_index(b.strides@, index)
            == flat_index(dst.dims@, index) % row_len(dst.dims@),
        fast_shape(a, b, dst) == Some(BinaryShape::Column) ==> strided_index(b.strides@, index)
            == flat_index(dst.dims@, index) / row_len(dst.dims@),
{
    let dims = dst.dims@;
    match fast_shape(a, b, dst) {
        None => {},
        Some(shape) => {
            lemma_row_major_index(dims, a.strides@, index);
            if shape == BinaryShape::Flat {
                lemma_row_major_index(dims, b.strides@, index);
            } else {
                let n = dims.len() - 1;
                let d = dims.last() as int;
                let outer = dims.drop_last();
                let bs = b.strides@.drop_last();
                let io = index.drop_last();
                let f = flat_index(outer, io);
                let l = index.last();
                assert(0 <= index[n] < dims[n]);
                assert forall|j: int| 0 <= j < outer.len() implies 0 <= #[trigger] io[j]
                    < outer[j] by {
                    assert(io[j] == index[j]);
                }
                assert(flat_index(dims, index) == f * d + l);
                vstd::arithmetic::div_mod::lemma_fundamental_div_mod_converse(f * d + l, d, f, l);
                if shape == BinaryShape::Row {
                    assert forall|j: int| 0 <= j < bs.len() implies #[trigger] bs[j] == 0 || outer[j]
                        == 1 by {
                        assert(b.strides@[j] == 0 || dims[j] == 1);
                    }
                    lemma_still_index(outer, bs, io);
                } else {
                    lemma_row_major_index(outer, bs, io);
                    assert(l * 0 == 0);
                }
            }
        },
    }
}

/// The elements of both operands that the plan reads for the element of the result at `index`.
pub open spec fn binary_reads(p: BinaryPlan, dims: Seq<usize>, index: Seq<int>) -> (int, int) {
    match p {
        BinaryPlan::Fast { shape, a_offset, b_offset, d, .. } => {
            let i = flat_index(dims, index);
            (
                a_offset + i,
                b_offset + match shape {
                    BinaryShape::Flat => i,
                    BinaryShape::Row => i % (d->0 as int),
                    BinaryShape::Column => i / (d->0 as int),
                },
            )
        },
        BinaryPlan::Strided { params, .. } => (
            params.a_offset + placed_index(params.a_strides@, params.rank as int, index),
            params.b_offset + placed_index(params.b_strides@, params.rank as int, index),
        ),
    }
}

/// The plan has the kernel walk over a tensor of shape `dims`.
pub open spec fn binary_walks(p: BinaryPlan, dims: Seq<usize>) -> bool {
    match p {
        BinaryPlan::Fast { numel, d, .. } => {
            &&& numel == volume(dims)
            &&& d matches Some(d) ==> d == dims.last()
        },
        BinaryPlan::Strided { params, .. } => {
            &&& params.numel == volume(dims)
            &&& params.rank == dims.len()
            &&& holds_extents(params.dims@, dims)
        },
    }
}

/// Whichever path an operation on two tensors takes, it walks over the shape of the result and reads
/// for every element of it the elements that the strides name. Where rows are read this takes a row
/// length that fits an `i32`, which nothing tests there.
pub proof fn binary_paths_read_the_same(
    p: BinaryPlan,
    op: BinaryOp,
    a: Operand,
    b: Operand,
    dst: Operand,
    index: Seq<int>,
)
    requires
        a.wf(),
        b.wf(),
        dst.wf(),
        binary_error(a, b, dst) is None,
        is_binary_plan(p, op, a.layout, b.layout, dst.layout),
        in_shape(dst.layout.dims@, index),
        p is Fast && p->Fast_d is Some ==> dst.layout.dims@.last() <= i32::MAX,
    ensures
        binary_reads(p, dst.layout.dims@, index) == (
            a.layout.offset + strided_index(a.layout.strides@, index),
            b.layout.offset + strided_index(b.layout.strides@, index),
        ),
        binary_walks(p, dst.layout.dims@),
{
    lemma_some_element(dst.layout.dims@, index);
    match p {
        BinaryPlan::Fast { .. } => {
            fast_paths_read_the_same(a.layout, b.layout, dst.layout, index);
        },
        BinaryPlan::Strided { .. } => {
            padded_extents_are_the_same(dst.layout.dims@);
            padded_strides_name_the_same(a.layout.strides@, index);
            padded_strides_name_the_same(b.layout.strides@, index);
        },
    }
}

/// Operations on three tensors in one pass: `x + b * c`, `x + b * c` with a row `c`, and
/// `x * (1 + b) + c` with rows `b` and `c`.
#[derive(Clone, Copy, Debug, PartialEq, Eq, Structural)]
pub enum TernaryFusedKind {
    FmaFlat,
    FmaRowb,
    ModRowb,
}

/// How an operation on three tensors is run.
#[derive(Clone, Copy, Debug, PartialEq, Eq)]
pub struct TernaryPlan {
    pub launch: Launch,
    pub numel: i64,
    pub x_offset: i64,
    pub b_offset: i64,
    pub c_offset: i64,
    /// The length of a row, where rows are read.
    pub d: Option<i32>,
}

/// A tensor of the shape of the result that is read sixteen bytes at a time.
pub open spec fn whole_ok(lo: Layout, dims: Seq<usize>) -> bool {
    lo.contiguous && aligned(lo) && lo.dims@ == dims
}

/// A row of `d` elements that is read sixteen bytes at a time.
pub open spec fn row_ok(lo: Layout, d: int) -> bool {
    lo.dense && lo.numel == d && aligned(lo)
}

/// The entry of an operation on three tensors.
pub open spec fn ternary_entry(kind: TernaryFusedKind, dtype: DType) -> Option<&'static str> {
    match kind {
        TernaryFusedKind::FmaFlat => spec_float_entry(
            dtype,
            "fma_flat_f32",
            "fma_flat_f16",
            "fma_flat_bf16",
        ),
        TernaryFusedKind::FmaRowb => spec_float_entry(
            dtype,
            "fma_rowb_f32",
            "fma_rowb_f16",
            "fma_rowb_bf16",
        ),
        TernaryFusedKind::ModRowb => spec_float_entry(
            dtype,
            "mod_rowb_f32",
            "mod_rowb_f16",
            "mod_rowb_bf16",
        ),
    }
}

/// What is wrong with a request, if anything.
pub open spec fn ternary_error(
    kind: TernaryFusedKind,
    x: Operand,
    b: Operand,
    c: Operand,
    dst: Operand,
) -> Option<KernelError> {
    let dtype = x.layout.dtype;
    let dims = dst.layout.dims@;
    let d = row_len(dims);
    if b.layout.dtype != dtype || c.layout.dtype != dtype || dst.layout.dtype != dtype
        || !is_float3(dtype) {
        Some(KernelError::Unsupported("ternary fused: dtype"))
    } else if x.layout.dims@ != dims || dst.layout.offset != 0 {
        Some(KernelError::Unsupported("ternary fused: формы/offset"))
    } else if !x.layout.contiguous || !aligned(x.layout) || dst.layout.numel as int % lanes(dtype)
        != 0 {
        Some(KernelError::Unsupported("ternary fused: x"))
    } else if kind == TernaryFusedKind::FmaFlat && !(whole_ok(b.layout, dims) && whole_ok(
        c.layout,
        dims,
    )) {
        Some(KernelError::Unsupported("fma flat: b/c"))
    } else if kind == TernaryFusedKind::FmaRowb && !(whole_ok(b.layout, dims) && row_ok(c.layout, d)
        && whole_rows(dims, dtype)) {
        Some(KernelError::Unsupported("fma rowb: b/c"))
    } else if kind == TernaryFusedKind::ModRowb && !(row_ok(b.layout, d) && row_ok(c.layout, d)
        && whole_rows(dims, dtype)) {
        Some(KernelError::Unsupported("mod rowb: s/sh"))
    } else if !x.cuda {
        Some(KernelError::Unsupported("ternary fused: x cuda"))
    } else if !b.cuda {
        Some(KernelError::Unsupported("ternary fused: b cuda"))
    } else if !c.cuda {
        Some(KernelError::Unsupported("ternary fused: c cuda"))
    } else if !dst.cuda {
        Some(KernelError::Unsupported("ternary fused: dst cuda"))
    } else {
        None
    }
}

/// `p` is how the operation is run.
pub open spec fn is_ternary_plan(
    p: TernaryPlan,
    kind: TernaryFusedKind,
    x: Layout,
    b: Layout,
    c: Layout,
    dst: Layout,
) -> bool {
    &&& p.launch == cfg_launch(
        ternary_entry(kind, x.dtype)->0,
        ceil_div(dst.numel as int, lanes(x.dtype)),
    )
    &&& p.numel == dst.numel
    &&& p.x_offset == x.offset
    &&& p.b_offset == b.offset
    &&& p.c_offset == c.offset
    &&& p.d == (if kind == TernaryFusedKind::FmaFlat {
        None
    } else {
        Some(dst.dims@.last() as i32)
    })
}

fn is_whole(lo: &Layout, dims: &Vec<usize>) -> (r: bool)
    requires
        lo.wf(),
    ensures
        r == whole_ok(*lo, dims@),
{
    lo.contiguous && is_aligned(lo) && same_dims(&lo.dims, dims)
}

fn is_row_of(lo: &Layout, d: usize) -> (r: bool)
    requires
        lo.wf(),
    ensures
        r == row_ok(*lo, d as int),
{
    lo.dense && lo.numel == d && is_aligned(lo)
}

/// Plans an operation on three tensors; whatever the kernels cannot read sixteen bytes at a time
/// is refused.
pub fn run_ternary_fused(
    kind: TernaryFusedKind,
    x: &Operand,
    b: &Operand,
    c: &Operand,
    dst: &Operand,
) -> (r: Result<TernaryPlan, KernelError>)
    requires
        x.wf(),
        b.wf(),
        c.wf(),
        dst.wf(),
    ensures
        match ternary_error(kind, *x, *b, *c, *dst) {
            Some(e) => r == Err::<TernaryPlan, KernelError>(e),
            None => r matches Ok(p) && is_ternary_plan(
                p,
                kind,
                x.layout,
                b.layout,
                c.layout,
                dst.layout,
            ),
        },
{
    let dtype = x.layout.dtype;
    let dl = &dst.layout;
    if b.layout.dtype != dtype || c.layout.dtype != dtype || dl.dtype != dtype {
        return Err(KernelError::Unsupported("ternary fused: dtype"));
    }
    let entry = match kind {
        TernaryFusedKind::FmaFlat => float_entry(
            dtype,
            "fma_flat_f32",
            "fma_flat_f16",
            "fma_flat_bf16",
        ),
        TernaryFusedKind::FmaRowb => float_entry(
            dtype,
            "fma_rowb_f32",
            "fma_rowb_f16",
            "fma_rowb_bf16",
        ),
        TernaryFusedKind::ModRowb => float_entry(
            dtype,
            "mod_rowb_f32",
            "mod_rowb_f16",
            "mod_rowb_bf16",
        ),
    };
    let kernel = match entry {
        None => {
            return Err(KernelError::Unsupported("ternary fused: dtype"));
        },
        Some(k) => k,
    };
    if !same_dims(&x.layout.dims, &dl.dims) || dl.offset != 0 {
        return Err(KernelError::Unsupported("ternary fused: формы/offset"));
    }
    let lane: usize = lane_count(dtype);
    if !x.layout.contiguous || !is_aligned(&x.layout) || dl.numel % lane != 0 {
        return Err(KernelError::Unsupported("ternary fused: x"));
    }
    let rank: usize = dl.dims.len();
    let d: usize = if rank == 0 {
        0
    } else {
        dl.dims[rank - 1]
    };
    let rows = d > 0 && d % lane == 0;
    match kind {
        TernaryFusedKind::FmaFlat => {
            if !(is_whole(&b.layout, &dl.dims) && is_whole(&c.layout, &dl.dims)) {
                return Err(KernelError::Unsupported("fma flat: b/c"));
            }
        },
        TernaryFusedKind::FmaRowb => {
            if !(is_whole(&b.layout, &dl.dims) && is_row_of(&c.layout, d) && rows) {
                return Err(KernelError::Unsupported("fma rowb: b/c"));
            }
        },
        TernaryFusedKind::ModRowb => {
            if !(is_row_of(&b.layout, d) && is_row_of(&c.layout, d) && rows) {
                return Err(KernelError::Unsupported("mod rowb: s/sh"));
            }
        },
    }
    if !x.cuda {
        return Err(KernelError::Unsupported("ternary fused: x cuda"));
    }
    if !b.cuda {
        return Err(KernelError::Unsupported("ternary fused: b cuda"));
    }
    if !c.cuda {
        return Err(KernelError::Unsupported("ternary fused: c cuda"));
    }
    if !dst.cuda {
        return Err(KernelError::Unsupported("ternary fused: dst cuda"));
    }
    proof {
        lemma_volume_bounds(dl.dims@);
        lemma_volume_bounds(b.layout.dims@);
        lemma_volume_bounds(c.layout.dims@);
        lemma_ceil_div(dl.numel as int, lanes(dtype));
    }
    Ok(
        TernaryPlan {
            launch: launch_cfg(kernel, div_ceil_usize(dl.numel, lane) as i64),
            numel: dl.numel as i64,
            x_offset: x.layout.offset as i64,
            b_offset: b.layout.offset as i64,
            c_offset: c.layout.offset as i64,
            d: match kind {
                TernaryFusedKind::FmaFlat => None,
                _ => Some(d as i32),
            },
        },
    )
}

/// The integer parameters of a conversion of a tensor of any layout.
#[derive(Clone, Copy, Debug, PartialEq, Eq)]
pub struct CastParams {
    pub numel: i64,
    pub in_offset: i64,
    pub rank: i32,
    pub dims: [i32; 8],
    pub in_strides: [i32; 8],
}

/// How a conversion is run.
#[derive(Clone, Copy, Debug, PartialEq, Eq)]
pub enum CastPlan {
    /// Eight elements per thread along a contiguous tensor.
    Flat { launch: Launch, numel: i64, in_offset: i64 },
    /// One element per thread.
    Strided { launch: Launch, params: CastParams },
}

/// The entry that converts eight elements at a time.
pub open spec fn cast_flat_entry(from: DType, to: DType) -> Option<&'static str> {
    match (from, to) {
        (DType::F16, DType::BF16) => Some("cast_flat_f16_bf16"),
        (DType::BF16, DType::F16) => Some("cast_flat_bf16_f16"),
        (DType::F32, DType::BF16) => Some("cast_flat_f32_bf16"),
        (DType::BF16, DType::F32) => Some("cast_flat_bf16_f32"),
        (DType::F32, DType::F16) => Some("cast_flat_f32_f16"),
        (DType::F16, DType::F32) => Some("cast_flat_f16_f32"),
        _ => None,
    }
}

/// The entry that converts one element at a time.
pub open spec fn cast_entry(from: DType, to: DType) -> Option<&'static str> {
    match (from, to) {
        (DType::F32, DType::F16) => Some("cast_f32_f16"),
        (DType::F32, DType::BF16) => Some("cast_f32_bf16"),
        (DType::F32, DType::F64) => Some("cast_f32_f64"),
        (DType::F32, DType::U32) => Some("cast_f32_u32"),
        (DType::F16, DType::F32) => Some("cast_f16_f32"),
        (DType::F16, DType::BF16) => Some("cast_f16_bf16"),
        (DType::BF16, DType::F32) => Some("cast_bf16_f32"),
        (DType::BF16, DType::F16) => Some("cast_bf16_f16"),
        (DType::F64, DType::F32) => Some("cast_f64_f32"),
        (DType::U32, DType::F32) => Some("cast_u32_f32"),
        (DType::U32, DType::I64) => Some("cast_u32_i64"),
        (DType::I64, DType::U32) => Some("cast_i64_u32"),
        _ => None,
    }
}

/// Whatever is converted eight at a time is converted one at a time as well, so a layout that is
/// not contiguous is never the reason for a refusal.
pub proof fn flat_casts_are_casts(from: DType, to: DType)
    ensures
        cast_flat_entry(from, to) is Some ==> cast_entry(from, to) is Some,
        cast_flat_entry(from, to) is Some <==> is_float3(from) && is_float3(to) && from != to,
{
}

fn cast_flat_func(from: DType, to: DType) -> (r: Option<&'static str>)
    ensures
        r == cast_flat_entry(from, to),
{
    match (from, to) {
        (DType::F16, DType::BF16) => Some("cast_flat_f16_bf16"),
        (DType::BF16, DType::F16) => Some("cast_flat_bf16_f16"),
        (DType::F32, DType::BF16) => Some("cast_flat_f32_bf16"),
        (DType::BF16, DType::F32) => Some("cast_flat_bf16_f32"),
        (DType::F32, DType::F16) => Some("cast_flat_f32_f16"),
        (DType::F16, DType::F32) => Some("cast_flat_f16_f32"),
        _ => None,
    }
}

fn cast_func(from: DType, to: DType) -> (r: Option<&'static str>)
    ensures
        r == cast_entry(from, to),
{
    match (from, to) {
        (DType::F32, DType::F16) => Some("cast_f32_f16"),
        (DType::F32, DType::BF16) => Some("cast_f32_bf16"),
        (DType::F32, DType::F64) => Some("cast_f32_f64"),
        (DType::F32, DType::U32) => Some("cast_f32_u32"),
        (DType::F16, DType::F32) => Some("cast_f16_f32"),
        (DType::F16, DType::BF16) => Some("cast_f16_bf16"),
        (DType::BF16, DType::F32) => Some("cast_bf16_f32"),
        (DType::BF16, DType::F16) => Some("cast_bf16_f16"),
        (DType::F64, DType::F32) => Some("cast_f64_f32"),
        (DType::U32, DType::F32) => Some("cast_u32_f32"),
        (DType::U32, DType::I64) => Some("cast_u32_i64"),
        (DType::I64, DType::U32) => Some("cast_i64_u32"),
        _ => None,
    }
}

/// The conversion runs eight elements at a time.
pub open spec fn casts_flat(src: Layout, dst: Layout) -> bool {
    cast_flat_entry(src.dtype, dst.dtype) is Some && dst.offset == 0 && src.contiguous && aligned(
        src,
    )
}

/// What is wrong with a request, if anything.
pub open spec fn cast_error(src: Operand, dst: Operand) -> Option<KernelError> {
    if src.layout.dims@ != dst.layout.dims@ {
        Some(KernelError::ShapeMismatch)
    } else if !src.cuda {
        Some(KernelError::Unsupported("cuda cast: src non-cuda"))
    } else if !dst.cuda {
        Some(KernelError::Unsupported("cuda cast: dst non-cuda"))
    } else if casts_flat(src.layout, dst.layout) {
        None
    } else if pad_error(dims_wide(src.layout.dims@)) is Some {
        pad_error(dims_wide(src.layout.dims@))
    } else if pad_error(strides_wide(src.layout.strides@)) is Some {
        pad_error(strides_wide(src.layout.strides@))
    } else if cast_entry(src.layout.dtype, dst.layout.dtype) is None {
        Some(KernelError::Unsupported("cuda cast: dtype pair"))
    } else {
        None
    }
}

/// `p` is how the conversion is run.
pub open spec fn is_cast_plan(p: CastPlan, src: Layout, dst: Layout) -> bool {
    match p {
        CastPlan::Flat { launch, numel, in_offset } => {
            &&& casts_flat(src, dst)
            &&& launch == cfg_launch(
                cast_flat_entry(src.dtype, dst.dtype)->0,
                ceil_div(src.numel as int, 8),
            )
            &&& numel == src.numel
            &&& in_offset == src.offset
        },
        CastPlan::Strided { launch, params } => {
            &&& !casts_flat(src, dst)
            &&& launch == cfg_launch(cast_entry(src.dtype, dst.dtype)->0, src.numel as int)
            &&& params.numel == src.numel
            &&& params.in_offset == src.offset
            &&& params.rank == src.dims@.len()
            &&& params.dims@ == padded(dims_wide(src.dims@))
            &&& params.in_strides@ == padded(strides_wide(src.strides@))
        },
    }
}

/// The element of the source that the conversion reads for the element of the result at `index`.
pub open spec fn cast_reads(p: CastPlan, dims: Seq<usize>, index: Seq<int>) -> int {
    match p {
        CastPlan::Flat { in_offset, .. } => in_offset + flat_index(dims, index),
        CastPlan::Strided { params, .. } => params.in_offset + placed_index(
            params.in_strides@,
            params.rank as int,
            index,
        ),
    }
}

/// The plan has the kernel walk over a tensor of shape `dims`.
pub open spec fn cast_walks(p: CastPlan, dims: Seq<usize>) -> bool {
    match p {
        CastPlan::Flat { numel, .. } => numel == volume(dims),
        CastPlan::Strided { params, .. } => {
            &&& params.numel == volume(dims)
            &&& params.rank == dims.len()
            &&& holds_extents(params.dims@, dims)
        },
    }
}

/// Either path of a conversion walks over the shape of the source and reads for every element of the
/// result the element of the source that the strides name.
pub proof fn cast_paths_read_the_same(p: CastPlan, src: Operand, dst: Operand, index: Seq<int>)
    requires
        src.wf(),
        cast_error(src, dst) is None,
        is_cast_plan(p, src.layout, dst.layout),
        in_shape(src.layout.dims@, index),
    ensures
        cast_reads(p, src.layout.dims@, index) == src.layout.offset + strided_index(
            src.layout.strides@,
            index,
        ),
        cast_walks(p, src.layout.dims@),
{
    let lo = src.layout;
    lemma_some_element(lo.dims@, index);
    match p {
        CastPlan::Flat { .. } => {
            lemma_row_major_index(lo.dims@, lo.strides@, index);
        },
        CastPlan::Strided { .. } => {
            padded_strides_name_the_same(lo.strides@, index);
            padded_extents_are_the_same(lo.dims@);
        },
    }
}

/// Plans a conversion between element types.
pub fn run_cast(src: &Operand, dst: &Operand) -> (r: Result<CastPlan, KernelError>)
    requires
        src.wf(),
        dst.wf(),
    ensures
        match r {
            Ok(p) => cast_error(*src, *dst) is None && is_cast_plan(p, src.layout, dst.layout),
            Err(e) => cast_error(*src, *dst) == Some(e),
        },
{
    let (s, d): (&Layout, &Layout) = (&src.layout, &dst.layout);
    if !same_dims(&s.dims, &d.dims) {
        return Err(KernelError::ShapeMismatch);
    }
    if !src.cuda {
        return Err(KernelError::Unsupported("cuda cast: src non-cuda"));
    }
    if !dst.cuda {
        return Err(KernelError::Unsupported("cuda cast: dst non-cuda"));
    }
    proof {
        lemma_volume_bounds(s.dims@);
        lemma_ceil_div(s.numel as int, 8);
    }
    let numel: i64 = s.numel as i64;
    let in_offset: i64 = s.offset as i64;
    match cast_flat_func(s.dtype, d.dtype) {
        Some(kernel) => {
            if d.offset == 0 && s.contiguous && is_aligned(s) {
                return Ok(
                    CastPlan::Flat {
                        launch: launch_cfg(kernel, div_ceil_usize(s.numel, 8) as i64),
                        numel,
                        in_offset,
                    },
                );
            }
        },
        None => {},
    }
    let dims = match pad_to(&dims_i64(&s.dims)) {
        Ok(a) => a,
        Err(e) => {
            return Err(e);
        },
    };
    let in_strides = match pad_to(&strides_i64(&s.strides)) {
        Ok(a) => a,
        Err(e) => {
            return Err(e);
        },
    };
    match cast_func(s.dtype, d.dtype) {
        None => Err(KernelError::Unsupported("cuda cast: dtype pair")),
        Some(kernel) => Ok(
            CastPlan::Strided {
                launch: launch_cfg(kernel, numel),
                params: CastParams {
                    numel,
                    in_offset,
                    rank: s.dims.len() as i32,
                    dims,
                    in_strides,
                },
            },
        ),
    }
}

} // verus!
