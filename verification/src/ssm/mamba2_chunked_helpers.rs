//! The small kernels between the products of the chunked state-space dual.

use vstd::prelude::*;

use crate::arith::{ceil_div, div_ceil_u32, div_ceil_u64, lemma_ceil_div, min2, min_u32};
use crate::coverage::{covers_matrices, covers_positions, thread_each};
use crate::dtype::{float_entry, is_float3, spec_float_entry, DType};
use crate::error::KernelError;
use crate::launch::{launch1, spec_launch1, Call, Launch};

verus! {

/// The bound of the driver on the second and third grid axis.
pub const MAX_GRID_DIM_YZ: u32 = 65535;

/// The most blocks that the second and third grid axis hold together.
pub const MAX_BLOCKS_YZ: u32 = 4_294_836_225;

/// `blh` blocks as a second and a third grid axis, if the two hold that many.
pub open spec fn spec_split_blh(blh: int) -> Option<(int, int)> {
    if blh <= MAX_GRID_DIM_YZ {
        Some((blh, 1))
    } else if blh <= MAX_BLOCKS_YZ {
        Some((65535, ceil_div(blh, 65535)))
    } else {
        None
    }
}

/// Splits `blh` blocks over the second and third grid axis. There are none for more blocks than the
/// two hold.
pub fn split_blh(blh: u32) -> (r: Option<(u32, u32)>)
    ensures
        match r {
            Some((y, z)) => spec_split_blh(blh as int) == Some((y as int, z as int)),
            None => spec_split_blh(blh as int) is None,
        },
{
    if blh <= MAX_GRID_DIM_YZ {
        Some((blh, 1))
    } else if blh <= MAX_BLOCKS_YZ {
        Some((MAX_GRID_DIM_YZ, div_ceil_u32(blh, MAX_GRID_DIM_YZ)))
    } else {
        None
    }
}

/// A count is split just if it is at most the square of the bound. The two axes then hold every
/// block, and neither goes beyond the bound.
pub proof fn split_blh_covers(blh: u32)
    ensures
        spec_split_blh(blh as int) is Some <==> blh <= MAX_GRID_DIM_YZ * MAX_GRID_DIM_YZ,
        spec_split_blh(blh as int) matches Some((y, z)) ==> {
            &&& y * z >= blh
            &&& y <= MAX_GRID_DIM_YZ
            &&& z <= MAX_GRID_DIM_YZ
        },
{
    lemma_ceil_div(blh as int, 65535);
}

/// A grid of tiles of at most `tx` by `ty` over `cols` by `rows`, once per batch.
pub open spec fn tiled(kernel: &'static str, cols: u32, rows: u32, batch: u32) -> Launch {
    let tx = min2(16, cols as int);
    let ty = min2(16, rows as int);
    Launch {
        kernel,
        grid: (ceil_div(cols as int, tx) as u32, ceil_div(rows as int, ty) as u32, batch),
        block: (tx as u32, ty as u32, 1),
        shared_mem_bytes: 0,
    }
}

/// The tiles cover every element of every matrix.
pub proof fn tiled_covers(kernel: &'static str, cols: u32, rows: u32, batch: u32)
    requires
        cols > 0,
        rows > 0,
    ensures
        tiled(kernel, cols, rows, batch).grid.0 * tiled(kernel, cols, rows, batch).block.0 >= cols,
        tiled(kernel, cols, rows, batch).grid.1 * tiled(kernel, cols, rows, batch).block.1 >= rows,
{
    lemma_ceil_div(cols as int, min2(16, cols as int));
    lemma_ceil_div(rows as int, min2(16, rows as int));
}

fn tiled_launch(kernel: &'static str, cols: u32, rows: u32, batch: u32) -> (r: Launch)
    requires
        cols > 0,
        rows > 0,
    ensures
        r == tiled(kernel, cols, rows, batch),
{
    let tx: u32 = min_u32(16, cols);
    let ty: u32 = min_u32(16, rows);
    Launch {
        kernel,
        grid: (div_ceil_u32(cols, tx), div_ceil_u32(rows, ty), batch),
        block: (tx, ty, 1),
        shared_mem_bytes: 0,
    }
}

/// A row of threads of at most 32 over `x`, once for each of `blh` positions, if the grid holds them.
pub open spec fn per_position(kernel: &'static str, x: u32, blh: int) -> Option<Launch> {
    let tx = min2(32, x as int);
    match spec_split_blh(blh) {
        Some((y, z)) => Some(
            Launch {
                kernel,
                grid: (ceil_div(x as int, tx) as u32, y as u32, z as u32),
                block: (tx as u32, 1, 1),
                shared_mem_bytes: 0,
            },
        ),
        None => None,
    }
}

/// The threads take every element of every position.
pub proof fn per_position_covers(kernel: &'static str, x: u32, blh: u32)
    requires
        x > 0,
    ensures
        per_position(kernel, x, blh as int) matches Some(l) ==> {
            &&& l.grid.0 * l.block.0 >= x
            &&& l.grid.1 * l.grid.2 >= blh
            &&& l.grid.1 <= MAX_GRID_DIM_YZ
            &&& l.grid.2 <= MAX_GRID_DIM_YZ
        },
{
    lemma_ceil_div(x as int, min2(32, x as int));
    split_blh_covers(blh);
}

fn per_position_launch(kernel: &'static str, x: u32, blh: u32) -> (r: Option<Launch>)
    requires
        x > 0,
    ensures
        r == per_position(kernel, x, blh as int),
{
    let tx: u32 = min_u32(32, x);
    match split_blh(blh) {
        Some((y, z)) => Some(
            Launch { kernel, grid: (div_ceil_u32(x, tx), y, z), block: (tx, 1, 1), shared_mem_bytes: 0 },
        ),
        None => None,
    }
}

/// A launch per position, or the refusal of positions that the grid does not hold.
pub open spec fn positions_or<A>(launch: Option<Launch>, args: A, text: &'static str, blh: int) -> Result<
    Call<A>,
    KernelError,
> {
    match launch {
        Some(launch) => Ok(Call { launch, args }),
        None => Err(KernelError::Cuda1(text, blh as u64)),
    }
}

fn launch_or<A>(launch: Option<Launch>, args: A, text: &'static str, blh: u32) -> (r: Result<
    Call<A>,
    KernelError,
>)
    ensures
        r == positions_or(launch, args, text, blh as int),
{
    match launch {
        Some(launch) => Ok(Call { launch, args }),
        None => Err(KernelError::Cuda1(text, blh as u64)),
    }
}

proof fn lemma_tiled(cols: u32, rows: u32)
    requires
        cols > 0,
        rows > 0,
    ensures
        ({
            let (tx, ty) = (min2(16, cols as int), min2(16, rows as int));
            &&& 1 <= tx * ty <= 1024
            &&& cols <= (ceil_div(cols as int, tx) as u32) * (tx as u32) < cols + tx
            &&& rows <= (ceil_div(rows as int, ty) as u32) * (ty as u32) < rows + ty
        }),
{
    let (tx, ty) = (min2(16, cols as int), min2(16, rows as int));
    lemma_ceil_div(cols as int, tx);
    lemma_ceil_div(rows as int, ty);
    assert(1 <= tx * ty <= 256) by (nonlinear_arith)
        requires
            1 <= tx <= 16,
            1 <= ty <= 16,
    ;
}

proof fn lemma_positions(x: u32, b: u32, l: u32, h: u32)
    ensures
        0 <= b * l * h,
        b * l * h <= u32::MAX && x > 0 ==> {
            let tx = min2(32, x as int);
            &&& x <= (ceil_div(x as int, tx) as u32) * (tx as u32) < x + tx
            &&& spec_split_blh(b * l * h) matches Some((y, z)) ==> b * l * h <= y * z && 0 <= y <= 65535
                && 0 <= z <= 65535
        },
{
    let n = b * l * h;
    assert(0 <= b * l) by (nonlinear_arith);
    assert(0 <= (b * l) * h) by (nonlinear_arith)
        requires
            0 <= b * l,
    ;
    if n <= u32::MAX && x > 0 {
        lemma_ceil_div(x as int, min2(32, x as int));
        split_blh_covers(n as u32);
        lemma_ceil_div(n, 65535);
    }
}

/// The kernels between the products.
pub struct Mamba2ChunkedHelpersKernels;

impl Mamba2ChunkedHelpersKernels {
    /// Running decays: a block for each of `t` chunks of `b * h` heads, a thread for each of the
    /// `q` positions of a chunk.
    pub fn alpha_cum(&self, b: u32, h: u32, t: u32, q: u32, dtype: DType) -> (r: Result<
        Call<(i32, i32, i32, i32)>,
        KernelError,
    >)
        requires
            is_float3(dtype) ==> b * h <= u32::MAX && q * 4 <= u32::MAX,
        ensures
            r == (if !is_float3(dtype) {
                Err(KernelError::CudaDType("alpha_cum: unsupported dtype {}", dtype))
            } else {
                Ok(
                    Call {
                        launch: Launch {
                            kernel: spec_float_entry(
                                dtype,
                                "mamba2_alpha_cum_f32_in",
                                "mamba2_alpha_cum_f16_in",
                                "mamba2_alpha_cum_bf16_in",
                            )->0,
                            grid: ((b * h) as u32, t, 1),
                            block: (q, 1, 1),
                            shared_mem_bytes: (q * 4) as u32,
                        },
                        args: (b as i32, h as i32, t as i32, q as i32),
                    },
                )
            }),
    {
        match float_entry(
            dtype,
            "mamba2_alpha_cum_f32_in",
            "mamba2_alpha_cum_f16_in",
            "mamba2_alpha_cum_bf16_in",
        ) {
            None => Err(KernelError::CudaDType("alpha_cum: unsupported dtype {}", dtype)),
            Some(kernel) => Ok(
                Call {
                    launch: Launch {
                        kernel,
                        grid: (b * h, t, 1),
                        block: (q, 1, 1),
                        shared_mem_bytes: q * 4,
                    },
                    args: (b as i32, h as i32, t as i32, q as i32),
                },
            ),
        }
    }

    /// Moves the chunk axis outward, for `b * l * h` vectors of `x` elements in chunks of `q`
    /// positions.
    pub fn permute_blhx_to_bhtqx(
        &self,
        b: u32,
        l: u32,
        h: u32,
        x: u32,
        q: u32,
        dtype: DType,
    ) -> (r: Result<Call<(i32, i32, i32, i32, i32)>, KernelError>)
        requires
            is_float3(dtype) ==> b * l <= u32::MAX && b * l * h <= u32::MAX && x > 0,
        ensures
            r == (if !is_float3(dtype) {
                Err(KernelError::CudaDType("permute_blhx: unsupported dtype {}", dtype))
            } else {
                positions_or(
                    per_position(
                        spec_float_entry(
                            dtype,
                            "mamba2_permute_blhx_f32_to_bf16",
                            "mamba2_permute_blhx_f16_to_bf16",
                            "mamba2_permute_blhx_bf16_to_bf16",
                        )->0,
                        x,
                        b * l * h,
                    ),
                    (b as i32, l as i32, h as i32, x as i32, q as i32),
                    "permute_blhx: B*L*H={} does not fit grid.y*grid.z",
                    b * l * h,
                )
            }),
            r matches Ok(c) ==> {
                &&& covers_positions(c.launch, x as int, b * l * h)
                &&& c.args.0 == b as i32
                &&& c.args.1 == l as i32
                &&& c.args.2 == h as i32
                &&& c.args.3 == x as i32
                &&& c.args.4 == q as i32
            },
    {
        proof {
            lemma_positions(x, b, l, h);
        }
        match float_entry(
            dtype,
            "mamba2_permute_blhx_f32_to_bf16",
            "mamba2_permute_blhx_f16_to_bf16",
            "mamba2_permute_blhx_bf16_to_bf16",
        ) {
            None => Err(KernelError::CudaDType("permute_blhx: unsupported dtype {}", dtype)),
            Some(kernel) => {
                let blh: u32 = b * l * h;
                launch_or(
                    per_position_launch(kernel, x, blh),
                    (b as i32, l as i32, h as i32, x as i32, q as i32),
                    "permute_blhx: B*L*H={} does not fit grid.y*grid.z",
                    blh,
                )
            },
        }
    }

    /// Inputs times their time steps, for `b * l * h` vectors of `p` elements in chunks of `q`
    /// positions.
    pub fn compute_dt_x(
        &self,
        b: u32,
        l: u32,
        h: u32,
        p: u32,
        q: u32,
        dtype: DType,
    ) -> (r: Result<Call<(i32, i32, i32, i32, i32)>, KernelError>)
        requires
            is_float3(dtype) ==> b * l <= u32::MAX && b * l * h <= u32::MAX && p > 0,
        ensures
            r == (if !is_float3(dtype) {
                Err(KernelError::CudaDType("compute_dt_x: unsupported dtype {}", dtype))
            } else {
                positions_or(
                    per_position(
                        spec_float_entry(
                            dtype,
                            "mamba2_compute_dt_x_f32_to_bf16",
                            "mamba2_compute_dt_x_f16_to_bf16",
                            "mamba2_compute_dt_x_bf16_to_bf16",
                        )->0,
                        p,
                        b * l * h,
                    ),
                    (b as i32, l as i32, h as i32, p as i32, q as i32),
                    "compute_dt_x: B*L*H={} does not fit grid.y*grid.z",
                    b * l * h,
                )
            }),
            r matches Ok(c) ==> {
                &&& covers_positions(c.launch, p as int, b * l * h)
                &&& c.args.0 == b as i32
                &&& c.args.1 == l as i32
                &&& c.args.2 == h as i32
                &&& c.args.3 == p as i32
                &&& c.args.4 == q as i32
            },
    {
        proof {
            lemma_positions(p, b, l, h);
        }
        match float_entry(
            dtype,
            "mamba2_compute_dt_x_f32_to_bf16",
            "mamba2_compute_dt_x_f16_to_bf16",
            "mamba2_compute_dt_x_bf16_to_bf16",
        ) {
            None => Err(KernelError::CudaDType("compute_dt_x: unsupported dtype {}", dtype)),
            Some(kernel) => {
                let blh: u32 = b * l * h;
                launch_or(
                    per_position_launch(kernel, p, blh),
                    (b as i32, l as i32, h as i32, p as i32, q as i32),
                    "compute_dt_x: B*L*H={} does not fit grid.y*grid.z",
                    blh,
                )
            },
        }
    }

    /// Transposes `bat` matrices of `r` by `c`.
    pub fn transpose_bf16(&self, bat: u32, r: u32, c: u32) -> (res: Call<
        (i32, i32, i32),
    >)
        requires
            r > 0,
            c > 0,
        ensures
            res == (Call {
                launch: tiled("mamba2_transpose_bf16", c, r, bat),
                args: (bat as i32, r as i32, c as i32),
            }),
            covers_matrices(res.launch, c as int, r as int, bat as int),
            res.args.0 == bat as i32,
            res.args.1 == r as i32,
            res.args.2 == c as i32,
    {
        proof {
            lemma_tiled(c, r);
        }
        Call {
            launch: tiled_launch("mamba2_transpose_bf16", c, r, bat),
            args: (bat as i32, r as i32, c as i32),
        }
    }

    /// Applies decays and the causal mask to `bht` matrices of `q` by `q`.
    pub fn apply_decay_mask(&self, bht: u32, q: u32) -> (res: Call<
        (i32, i32),
    >)
        requires
            q > 0,
        ensures
            res == (Call {
                launch: tiled("mamba2_apply_decay_mask_to_bf16", q, q, bht),
                args: (bht as i32, q as i32),
            }),
            covers_matrices(res.launch, q as int, q as int, bht as int),
            res.args.0 == bht as i32,
            res.args.1 == q as i32,
    {
        proof {
            lemma_tiled(q, q);
        }
        Call {
            launch: tiled_launch("mamba2_apply_decay_mask_to_bf16", q, q, bht),
            args: (bht as i32, q as i32),
        }
    }

    /// Multiplies row `i` of `bat` matrices of `r` by `c` by the exponential of the row's decay, or
    /// with `from_end` of the last row's decay less that of row `i`.
    pub fn col_broadcast_exp_mul(&self, bat: u32, r: u32, c: u32, from_end: bool) -> (res: Call<
        (i32, i32, i32, bool),
    >)
        requires
            r > 0,
            c > 0,
        ensures
            res == (Call {
                launch: tiled("mamba2_col_broadcast_exp_mul_bf16", c, r, bat),
                args: (bat as i32, r as i32, c as i32, from_end),
            }),
            covers_matrices(res.launch, c as int, r as int, bat as int),
            res.args.0 == bat as i32,
            res.args.1 == r as i32,
            res.args.2 == c as i32,
            res.args.3 == from_end,
    {
        proof {
            lemma_tiled(c, r);
        }
        Call {
            launch: tiled_launch("mamba2_col_broadcast_exp_mul_bf16", c, r, bat),
            args: (bat as i32, r as i32, c as i32, from_end),
        }
    }

    /// Multiplies column `j` of `bat` matrices of `r` by `c` by the exponential of the column's decay,
    /// or with `from_end` of the last of `q_vec` decays less that of column `j`.
    pub fn row_broadcast_exp_mul(&self, bat: u32, r: u32, c: u32, q_vec: u32, from_end: bool) -> (res: Call<
        (i32, i32, i32, i32, bool),
    >)
        requires
            r > 0,
            c > 0,
        ensures
            res == (Call {
                launch: tiled("mamba2_row_broadcast_exp_mul_bf16", c, r, bat),
                args: (bat as i32, r as i32, c as i32, q_vec as i32, from_end),
            }),
            covers_matrices(res.launch, c as int, r as int, bat as int),
            res.args.0 == bat as i32,
            res.args.1 == r as i32,
            res.args.2 == c as i32,
            res.args.3 == q_vec as i32,
            res.args.4 == from_end,
    {
        proof {
            lemma_tiled(c, r);
        }
        Call {
            launch: tiled_launch("mamba2_row_broadcast_exp_mul_bf16", c, r, bat),
            args: (bat as i32, r as i32, c as i32, q_vec as i32, from_end),
        }
    }

    /// As `col_broadcast_exp_mul`, on parts of buffers.
    pub fn col_broadcast_exp_mul_view(&self, bat: u32, r: u32, c: u32, from_end: bool) -> (res: Call<
        (i32, i32, i32, bool),
    >)
        requires
            r > 0,
            c > 0,
        ensures
            res == (Call {
                launch: tiled("mamba2_col_broadcast_exp_mul_bf16", c, r, bat),
                args: (bat as i32, r as i32, c as i32, from_end),
            }),
            covers_matrices(res.launch, c as int, r as int, bat as int),
            res.args.0 == bat as i32,
            res.args.1 == r as i32,
            res.args.2 == c as i32,
            res.args.3 == from_end,
    {
        proof {
            lemma_tiled(c, r);
        }
        Call {
            launch: tiled_launch("mamba2_col_broadcast_exp_mul_bf16", c, r, bat),
            args: (bat as i32, r as i32, c as i32, from_end),
        }
    }

    /// As `row_broadcast_exp_mul`, on parts of buffers.
    pub fn row_broadcast_exp_mul_view(&self, bat: u32, r: u32, c: u32, q_vec: u32, from_end: bool) -> (res: Call<
        (i32, i32, i32, i32, bool),
    >)
        requires
            r > 0,
            c > 0,
        ensures
            res == (Call {
                launch: tiled("mamba2_row_broadcast_exp_mul_bf16", c, r, bat),
                args: (bat as i32, r as i32, c as i32, q_vec as i32, from_end),
            }),
            covers_matrices(res.launch, c as int, r as int, bat as int),
            res.args.0 == bat as i32,
            res.args.1 == r as i32,
            res.args.2 == c as i32,
            res.args.3 == q_vec as i32,
            res.args.4 == from_end,
    {
        proof {
            lemma_tiled(c, r);
        }
        Call {
            launch: tiled_launch("mamba2_row_broadcast_exp_mul_bf16", c, r, bat),
            args: (bat as i32, r as i32, c as i32, q_vec as i32, from_end),
        }
    }

    /// Decays `bh` states of `p` by `n` by chunk `chunk` of `t` chunks of `q` positions.
    pub fn state_linear_decay(&self, bh: u32, p: u32, n: u32, t: u32, q: u32, chunk: u32) -> (res: Call<
        (i32, i32, i32, i32, i32, i32),
    >)
        requires
            p > 0,
            n > 0,
        ensures
            res == (Call {
                launch: tiled("mamba2_state_linear_decay_f32", n, p, bh),
                args: (bh as i32, p as i32, n as i32, t as i32, q as i32, chunk as i32),
            }),
            covers_matrices(res.launch, n as int, p as int, bh as int),
            res.args.0 == bh as i32,
            res.args.1 == p as i32,
            res.args.2 == n as i32,
            res.args.3 == t as i32,
            res.args.4 == q as i32,
            res.args.5 == chunk as i32,
    {
        proof {
            lemma_tiled(n, p);
        }
        Call {
            launch: tiled_launch("mamba2_state_linear_decay_f32", n, p, bh),
            args: (bh as i32, p as i32, n as i32, t as i32, q as i32, chunk as i32),
        }
    }

    /// Adds `n` elements to as many; nothing is launched for none.
    pub fn add_inplace_f32(&self, n: u64) -> (res: Option<Call<u64>>)
        ensures
            res == (if n == 0 {
                None
            } else {
                Some(
                    Call {
                        launch: spec_launch1("mamba2_add_inplace_f32", ceil_div(n as int, 256), 256),
                        args: n,
                    },
                )
            }),
            res is None <==> n == 0,
            n <= u32::MAX ==> (res matches Some(c) ==> c.args == n && thread_each(c.launch, n as int)),
    {
        proof {
            lemma_ceil_div(n as int, 256);
        }
        if n == 0 {
            return None;
        }
        Some(
            Call {
                launch: launch1("mamba2_add_inplace_f32", div_ceil_u64(n, 256) as u32, 256),
                args: n,
            },
        )
    }

    /// Adds the contribution of the state to the output of chunk `chunk` of `t`: `bh` matrices of `q`
    /// by `p`.
    pub fn add_yoff_chunk(&self, bh: u32, t: u32, q: u32, p: u32, chunk: u32) -> (res: Call<
        (i32, i32, i32, i32, i32),
    >)
        requires
            q > 0,
            p > 0,
        ensures
            res == (Call {
                launch: tiled("mamba2_add_yoff_chunk_f32", p, q, bh),
                args: (bh as i32, t as i32, q as i32, p as i32, chunk as i32),
            }),
            covers_matrices(res.launch, p as int, q as int, bh as int),
            res.args.0 == bh as i32,
            res.args.1 == t as i32,
            res.args.2 == q as i32,
            res.args.3 == p as i32,
            res.args.4 == chunk as i32,
    {
        proof {
            lemma_tiled(p, q);
        }
        Call {
            launch: tiled_launch("mamba2_add_yoff_chunk_f32", p, q, bh),
            args: (bh as i32, t as i32, q as i32, p as i32, chunk as i32),
        }
    }

    /// Rounds `n` elements of the state; nothing is launched for none.
    pub fn state_cast_f32_to_bf16(&self, n: u64) -> (res: Option<Call<u64>>)
        ensures
            res == (if n == 0 {
                None
            } else {
                Some(
                    Call {
                        launch: spec_launch1("mamba2_state_cast_f32_to_bf16", ceil_div(n as int, 256), 256),
                        args: n,
                    },
                )
            }),
            res is None <==> n == 0,
            n <= u32::MAX ==> (res matches Some(c) ==> c.args == n && thread_each(c.launch, n as int)),
    {
        proof {
            lemma_ceil_div(n as int, 256);
        }
        if n == 0 {
            return None;
        }
        Some(
            Call {
                launch: launch1("mamba2_state_cast_f32_to_bf16", div_ceil_u64(n, 256) as u32, 256),
                args: n,
            },
        )
    }

    /// Moves the chunk axis back, for `b * l * h` vectors of `p` elements in chunks of `q` positions,
    /// and with `has_d` adds the skip connection.
    pub fn post(
        &self,
        has_d: bool,
        b: u32,
        l: u32,
        h: u32,
        p: u32,
        q: u32,
        dtype: DType,
    ) -> (r: Result<Call<(bool, i32, i32, i32, i32, i32)>, KernelError>)
        requires
            is_float3(dtype) ==> b * l <= u32::MAX && b * l * h <= u32::MAX && p > 0,
        ensures
            r == (if !is_float3(dtype) {
                Err(KernelError::CudaDType("post: unsupported dtype {}", dtype))
            } else {
                positions_or(
                    per_position(
                        spec_float_entry(
                            dtype,
                            "mamba2_post_f32",
                            "mamba2_post_f16",
                            "mamba2_post_bf16",
                        )->0,
                        p,
                        b * l * h,
                    ),
                    (has_d, b as i32, l as i32, h as i32, p as i32, q as i32),
                    "post: B*L*H={} does not fit grid.y*grid.z",
                    b * l * h,
                )
            }),
            r matches Ok(c) ==> {
                &&& covers_positions(c.launch, p as int, b * l * h)
                &&& c.args.0 == has_d
                &&& c.args.1 == b as i32
                &&& c.args.2 == l as i32
                &&& c.args.3 == h as i32
                &&& c.args.4 == p as i32
                &&& c.args.5 == q as i32
            },
    {
        proof {
            lemma_positions(p, b, l, h);
        }
        match float_entry(
            dtype,
            "mamba2_post_f32",
            "mamba2_post_f16",
            "mamba2_post_bf16",
        ) {
            None => Err(KernelError::CudaDType("post: unsupported dtype {}", dtype)),
            Some(kernel) => {
                let blh: u32 = b * l * h;
                launch_or(
                    per_position_launch(kernel, p, blh),
                    (has_d, b as i32, l as i32, h as i32, p as i32, q as i32),
                    "post: B*L*H={} does not fit grid.y*grid.z",
                    blh,
                )
            },
        }
    }
}

} // verus!
