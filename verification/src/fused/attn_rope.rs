//! The three projections of attention for one token, followed by the rotation of two of them.

use vstd::prelude::*;

use crate::arith::fits3;
use crate::dtype::DType;
use crate::elementwise::rope::{apply_partial, apply_partial_plan};
use crate::error::KernelError;
use crate::fused::qkv_proj::{nvfp4_qkv_proj_shuf_f16, qkv_plan, QkvProj};
use crate::launch::Call;

verus! {

/// What runs for one token: the projection and, behind it, the rotation of the queries and then that
/// of the keys. A rotation that is refused is refused after what comes before it has run.
#[derive(Clone, Copy, Debug, PartialEq, Eq)]
pub struct QkvRope {
    pub qkv: QkvProj,
    pub rope_q: Result<Call<(u32, u32, u32, u32, u32)>, KernelError>,
    pub rope_k: Result<Call<(u32, u32, u32, u32, u32)>, KernelError>,
}

/// Plans projections to `h_q` query heads and twice `h_kv` heads of `head_dim` elements, and the
/// rotation of the queries and of the keys.
pub fn fused_qkv_rope_f16(
    h_q: u32,
    h_kv: u32,
    head_dim: u32,
    rotary_dim: u32,
    k: u32,
) -> (r: Result<
    QkvRope,
    KernelError,
>)
    requires
        h_q * head_dim <= u32::MAX,
        h_kv * head_dim <= u32::MAX,
    ensures
        r == (match qkv_plan(
            (h_q * head_dim) as u32,
            (h_kv * head_dim) as u32,
            (h_kv * head_dim) as u32,
            k,
        ) {
            Err(e) => Err(e),
            Ok(qkv) => Ok(
                QkvRope {
                    qkv,
                    rope_q: apply_partial_plan(1, h_q, 1, head_dim, rotary_dim, DType::F16),
                    rope_k: apply_partial_plan(1, h_kv, 1, head_dim, rotary_dim, DType::F16),
                },
            ),
        }),
{
    proof {
        assert(0 <= h_q * head_dim && 0 <= h_kv * head_dim) by (nonlinear_arith);
        assert(fits3(1, h_q as int, 1, u32::MAX as int)) by (nonlinear_arith)
            requires
                0 <= h_q <= u32::MAX,
        ;
        assert(fits3(1, h_kv as int, 1, u32::MAX as int)) by (nonlinear_arith)
            requires
                0 <= h_kv <= u32::MAX,
        ;
    }
    let n_q: u32 = h_q * head_dim;
    let n_kv: u32 = h_kv * head_dim;
    let qkv = match nvfp4_qkv_proj_shuf_f16(n_q, n_kv, n_kv, k) {
        Err(e) => {
            return Err(e);
        },
        Ok(p) => p,
    };
    let rope_q = apply_partial(1, h_q, 1, head_dim, rotary_dim, DType::F16);
    let rope_k = apply_partial(1, h_kv, 1, head_dim, rotary_dim, DType::F16);
    Ok(QkvRope { qkv, rope_q, rope_k })
}

} // verus!
