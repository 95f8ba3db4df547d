//! Activations of dense vectors.

use vstd::prelude::*;

use crate::arith::{ceil_div, div_ceil_u32, lemma_ceil_div, min2, min_u32};
use crate::coverage::strides_over;
use crate::dtype::{float_bytes, float_entry, float_size, is_float3, spec_float_entry, DType};
use crate::error::KernelError;
use crate::launch::{launch1, span, spec_launch1, spec_span, Launch, Span};

verus! {

/// Threads of a block.
pub const BLOCK: u32 = 256;

#[derive(Clone, Copy, Debug, PartialEq, Eq, Structural)]
pub enum Activation {
    Silu,
    GeluExact,
    GeluTanh,
    QuickGelu,
    Softplus,
    Mish,
    Softsign,
}

#[derive(Clone, Copy, Debug, PartialEq, Eq, Structural)]
pub enum BiasActivation {
    Silu,
    GeluTanh,
    Relu,
}

/// Blocks for `n` elements: one thread each, but no more blocks than the grid has; the kernels
/// walk on from there.
pub open spec fn spec_grid(n: int) -> int {
    min2(ceil_div(n, 256), 65535)
}

pub fn grid_for(n: u32) -> (r: u32)
    ensures
        r == spec_grid(n as int),
{
    min_u32(div_ceil_u32(n, BLOCK), 65535)
}

/// There is a block as soon as there is an element, and up to the bound a thread per element.
pub proof fn grid_serves(n: u32)
    ensures
        0 < n ==> 1 <= spec_grid(n as int) <= 65535,
        n <= 65535 * 256 ==> spec_grid(n as int) * 256 >= n,
{
    lemma_ceil_div(n as int, 256);
}

/// The entry of an activation for an element type.
pub open spec fn act_entry(act: Activation, dtype: DType) -> Option<&'static str> {
    match act {
        Activation::Silu => spec_float_entry(dtype, "silu_act_f32", "silu_act_f16", "silu_act_bf16"),
        Activation::GeluExact => spec_float_entry(
            dtype,
            "gelu_exact_act_f32",
            "gelu_exact_act_f16",
            "gelu_exact_act_bf16",
        ),
        Activation::GeluTanh => spec_float_entry(
            dtype,
            "gelu_tanh_act_f32",
            "gelu_tanh_act_f16",
            "gelu_tanh_act_bf16",
        ),
        Activation::QuickGelu => spec_float_entry(
            dtype,
            "quick_gelu_act_f32",
            "quick_gelu_act_f16",
            "quick_gelu_act_bf16",
        ),
        Activation::Softplus => spec_float_entry(
            dtype,
            "softplus_act_f32",
            "softplus_act_f16",
            "softplus_act_bf16",
        ),
        Activation::Mish => spec_float_entry(dtype, "mish_act_f32", "mish_act_f16", "mish_act_bf16"),
        Activation::Softsign => spec_float_entry(
            dtype,
            "softsign_act_f32",
            "softsign_act_f16",
            "softsign_act_bf16",
        ),
    }
}

fn fn_of(act: Activation, dtype: DType) -> (r: Option<&'static str>)
    ensures
        r == act_entry(act, dtype),
        r is Some <==> is_float3(dtype),
{
    match act {
        Activation::Silu => float_entry(dtype, "silu_act_f32", "silu_act_f16", "silu_act_bf16"),
        Activation::GeluExact => float_entry(
            dtype,
            "gelu_exact_act_f32",
            "gelu_exact_act_f16",
            "gelu_exact_act_bf16",
        ),
        Activation::GeluTanh => float_entry(
            dtype,
            "gelu_tanh_act_f32",
            "gelu_tanh_act_f16",
            "gelu_tanh_act_bf16",
        ),
        Activation::QuickGelu => float_entry(
            dtype,
            "quick_gelu_act_f32",
            "quick_gelu_act_f16",
            "quick_gelu_act_bf16",
        ),
        Activation::Softplus => float_entry(
            dtype,
            "softplus_act_f32",
            "softplus_act_f16",
            "softplus_act_bf16",
        ),
        Activation::Mish => float_entry(dtype, "mish_act_f32", "mish_act_f16", "mish_act_bf16"),
        Activation::Softsign => float_entry(
            dtype,
            "softsign_act_f32",
            "softsign_act_f16",
            "softsign_act_bf16",
        ),
    }
}

/// An activation of `n` elements.
#[derive(Clone, Copy, Debug, PartialEq, Eq)]
pub struct ActLaunch {
    pub launch: Launch,
    pub n: i32,
}

/// The outcome of a request for an activation.
pub open spec fn activation_plan(
    n: u32,
    act: Activation,
    dtype: DType,
) -> Result<ActLaunch, KernelError> {
    if !is_float3(dtype) {
        Err(KernelError::Unsupported("activations: dtype must be F32/F16/BF16"))
    } else {
        Ok(
            ActLaunch {
                launch: spec_launch1(act_entry(act, dtype)->0, spec_grid(n as int), BLOCK),
                n: n as i32,
            },
        )
    }
}

/// Plans an activation of `n` elements.
pub fn run(n: u32, act: Activation, dtype: DType) -> (r: Result<ActLaunch, KernelError>)
    ensures
        r == activation_plan(n, act, dtype),
{
    match fn_of(act, dtype) {
        None => Err(KernelError::Unsupported("activations: dtype must be F32/F16/BF16")),
        Some(kernel) => Ok(ActLaunch { launch: launch1(kernel, grid_for(n), BLOCK), n: n as i32 }),
    }
}

/// As `run`, for single floats.
pub fn run_f32(n: u32, act: Activation) -> (r: Result<ActLaunch, KernelError>)
    ensures
        r == activation_plan(n, act, DType::F32),
{
    run(n, act, DType::F32)
}

/// As `run`, for half floats.
pub fn run_f16(n: u32, act: Activation) -> (r: Result<ActLaunch, KernelError>)
    ensures
        r == activation_plan(n, act, DType::F16),
{
    run(n, act, DType::F16)
}

/// As `run`, for brain floats.
pub fn run_bf16(n: u32, act: Activation) -> (r: Result<ActLaunch, KernelError>)
    ensures
        r == activation_plan(n, act, DType::BF16),
{
    run(n, act, DType::BF16)
}

/// Plans the swish with a factor inside, of `n` elements.
pub fn run_swish_beta(n: u32, dtype: DType) -> (r: Result<ActLaunch, KernelError>)
    ensures
        r == (if !is_float3(dtype) {
            Err(KernelError::Unsupported("activations: dtype must be F32/F16/BF16"))
        } else {
            Ok(
                ActLaunch {
                    launch: spec_launch1(
                        spec_float_entry(
                            dtype,
                            "swish_beta_act_f32",
                            "swish_beta_act_f16",
                            "swish_beta_act_bf16",
                        )->0,
                        spec_grid(n as int),
                        BLOCK,
                    ),
                    n: n as i32,
                },
            )
        }),
        r matches Ok(p) ==> n <= i32::MAX ==> p.n == n && (n > 0 ==> strides_over(
            p.launch,
            n as int,
            65535,
        )),
{
    proof {
        lemma_ceil_div(n as int, 256);
    }
    match float_entry(dtype, "swish_beta_act_f32", "swish_beta_act_f16", "swish_beta_act_bf16") {
        None => Err(KernelError::Unsupported("activations: dtype must be F32/F16/BF16")),
        Some(kernel) => Ok(ActLaunch { launch: launch1(kernel, grid_for(n), BLOCK), n: n as i32 }),
    }
}

/// A snake activation of given buffers.
#[derive(Clone, Copy, Debug, PartialEq, Eq)]
pub struct SnakeU8 {
    pub launch: Launch,
    pub x: Span,
    /// The frequencies, one float per channel.
    pub a: Span,
    /// The inverse amplitudes, one float per channel.
    pub binv: Span,
    pub y: Span,
    pub n: i32,
    pub chans: i32,
    pub t_len: i32,
}

/// The outcome of a request for the activation over buffers of bytes.
pub open spec fn snake_u8_plan(
    x_off: usize,
    a_off: usize,
    binv_off: usize,
    y_off: usize,
    n: usize,
    chans: u32,
    t_len: u32,
    dtype: DType,
) -> Result<Option<SnakeU8>, KernelError> {
    if n == 0 {
        Ok(None)
    } else if !is_float3(dtype) {
        Err(KernelError::Unsupported("activations: dtype must be F32/F16/BF16"))
    } else {
        Ok(
            Some(
                SnakeU8 {
                    launch: spec_launch1(
                        spec_float_entry(
                            dtype,
                            "snake_act_f32",
                            "snake_act_f16",
                            "snake_act_bf16",
                        )->0,
                        spec_grid((n as u32) as int),
                        BLOCK,
                    ),
                    x: spec_span(x_off as int, n as int, float_size(dtype)),
                    a: spec_span(a_off as int, chans as int, 4),
                    binv: spec_span(binv_off as int, chans as int, 4),
                    y: spec_span(y_off as int, n as int, float_size(dtype)),
                    n: n as i32,
                    chans: chans as i32,
                    t_len: t_len as i32,
                },
            ),
        )
    }
}

/// Plans the snake activation of `n` elements in channels of `t_len`; nothing is launched for no
/// elements.
pub fn run_snake_u8(
    x_off: usize,
    a_off: usize,
    binv_off: usize,
    y_off: usize,
    n: usize,
    chans: u32,
    t_len: u32,
    dtype: DType,
) -> (r: Result<Option<SnakeU8>, KernelError>)
    requires
        snake_u8_plan(x_off, a_off, binv_off, y_off, n, chans, t_len, dtype)
            matches Ok(Some(_)) ==> {
            &&& x_off + n * float_size(dtype) <= usize::MAX
            &&& y_off + n * float_size(dtype) <= usize::MAX
            &&& a_off + chans * 4 <= usize::MAX
            &&& binv_off + chans * 4 <= usize::MAX
        },
    ensures
        r == snake_u8_plan(x_off, a_off, binv_off, y_off, n, chans, t_len, dtype),
{
    if n == 0 {
        return Ok(None);
    }
    let kernel = match float_entry(dtype, "snake_act_f32", "snake_act_f16", "snake_act_bf16") {
        None => {
            return Err(KernelError::Unsupported("activations: dtype must be F32/F16/BF16"));
        },
        Some(k) => k,
    };
    let esz: usize = float_bytes(dtype);
    Ok(
        Some(
            SnakeU8 {
                launch: launch1(kernel, grid_for(n as u32), BLOCK),
                x: span(x_off, n, esz),
                a: span(a_off, chans as usize, 4),
                binv: span(binv_off, chans as usize, 4),
                y: span(y_off, n, esz),
                n: n as i32,
                chans: chans as i32,
                t_len: t_len as i32,
            },
        ),
    )
}

/// The entry of an activation with a bias for an element type.
pub open spec fn bias_entry(act: BiasActivation, dtype: DType) -> Option<&'static str> {
    match act {
        BiasActivation::Silu => spec_float_entry(
            dtype,
            "bias_silu_f32",
            "bias_silu_f16",
            "bias_silu_bf16",
        ),
        BiasActivation::GeluTanh => spec_float_entry(
            dtype,
            "bias_gelu_tanh_f32",
            "bias_gelu_tanh_f16",
            "bias_gelu_tanh_bf16",
        ),
        BiasActivation::Relu => spec_float_entry(
            dtype,
            "bias_relu_f32",
            "bias_relu_f16",
            "bias_relu_bf16",
        ),
    }
}

/// An activation of rows with a bias.
#[derive(Clone, Copy, Debug, PartialEq, Eq)]
pub struct BiasActLaunch {
    pub launch: Launch,
    pub rows: i32,
    pub cols: i32,
}

/// Plans an activation of `rows` by `cols` elements after a bias of `cols`.
pub fn run_bias_act(rows: u32, cols: u32, act: BiasActivation, dtype: DType) -> (r: Result<
    BiasActLaunch,
    KernelError,
>)
    requires
        is_float3(dtype) ==> rows * cols <= u32::MAX,
    ensures
        r == (if !is_float3(dtype) {
            Err(KernelError::Unsupported("activations: dtype must be F32/F16/BF16"))
        } else {
            Ok(
                BiasActLaunch {
                    launch: spec_launch1(bias_entry(act, dtype)->0, spec_grid(rows * cols), BLOCK),
                    rows: rows as i32,
                    cols: cols as i32,
                },
            )
        }),
        r matches Ok(p) ==> rows <= i32::MAX && cols <= i32::MAX ==> p.rows == rows && p.cols == cols
            && (rows * cols > 0 ==> strides_over(p.launch, rows * cols, 65535)),
{
    proof {
        lemma_ceil_div(rows * cols, 256);
    }
    let entry = match act {
        BiasActivation::Silu => float_entry(
            dtype,
            "bias_silu_f32",
            "bias_silu_f16",
            "bias_silu_bf16",
        ),
        BiasActivation::GeluTanh => float_entry(
            dtype,
            "bias_gelu_tanh_f32",
            "bias_gelu_tanh_f16",
            "bias_gelu_tanh_bf16",
        ),
        BiasActivation::Relu => float_entry(
            dtype,
            "bias_relu_f32",
            "bias_relu_f16",
            "bias_relu_bf16",
        ),
    };
    match entry {
        None => Err(KernelError::Unsupported("activations: dtype must be F32/F16/BF16")),
        Some(kernel) => Ok(
            BiasActLaunch {
                launch: launch1(kernel, grid_for(rows * cols), BLOCK),
                rows: rows as i32,
                cols: cols as i32,
            },
        ),
    }
}

} // verus!
