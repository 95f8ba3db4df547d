//! The entries of the modules that read weights in blocks, by format.

use vstd::prelude::*;

use crate::dtype::{DType, GgmlType};

verus! {

/// The entries for a format: its suffix, and by it the kernels that bring rows back to floats, look
/// rows up in a table, and multiply with a weight, one or one per expert.
#[derive(Clone, Copy, Debug, PartialEq, Eq)]
pub struct Entries {
    pub suffix: &'static str,
    pub dequant: &'static str,
    pub gather: Option<&'static str>,
    pub gemv: Option<&'static str>,
    pub gemv_batched: Option<&'static str>,
}

/// The formats with their scales in a buffer of their own.
pub open spec fn has_own_scales(dtype: DType) -> bool {
    dtype == DType::NVFP4 || dtype == DType::MXFP8
}

/// The formats of activations, which no product kernel takes as a weight.
pub open spec fn is_activation_format(dtype: DType) -> bool {
    dtype == DType::Ggml(GgmlType::Q8_1) || dtype == DType::Ggml(GgmlType::Q8K)
}

/// A weight in one buffer.
pub open spec fn spec_weight(
    suffix: &'static str,
    dequant: &'static str,
    gather: &'static str,
    gemv: &'static str,
    gemv_batched: &'static str,
) -> Entries {
    Entries {
        suffix,
        dequant,
        gather: Some(gather),
        gemv: Some(gemv),
        gemv_batched: Some(gemv_batched),
    }
}

fn weight(
    suffix: &'static str,
    dequant: &'static str,
    gather: &'static str,
    gemv: &'static str,
    gemv_batched: &'static str,
) -> (r: Entries)
    ensures
        r == spec_weight(suffix, dequant, gather, gemv, gemv_batched),
{
    Entries {
        suffix,
        dequant,
        gather: Some(gather),
        gemv: Some(gemv),
        gemv_batched: Some(gemv_batched),
    }
}

/// An activation in one buffer: no products.
pub open spec fn spec_activation(
    suffix: &'static str,
    dequant: &'static str,
    gather: &'static str,
) -> Entries {
    Entries {
        suffix,
        dequant,
        gather: Some(gather),
        gemv: None,
        gemv_batched: None,
    }
}

fn activation(
    suffix: &'static str,
    dequant: &'static str,
    gather: &'static str,
) -> (r: Entries)
    ensures
        r == spec_activation(suffix, dequant, gather),
{
    Entries {
        suffix,
        dequant,
        gather: Some(gather),
        gemv: None,
        gemv_batched: None,
    }
}

/// A weight with its scales apart: no look-up.
pub open spec fn spec_apart(
    suffix: &'static str,
    dequant: &'static str,
    gemv: &'static str,
    gemv_batched: &'static str,
) -> Entries {
    Entries {
        suffix,
        dequant,
        gather: None,
        gemv: Some(gemv),
        gemv_batched: Some(gemv_batched),
    }
}

fn apart(
    suffix: &'static str,
    dequant: &'static str,
    gemv: &'static str,
    gemv_batched: &'static str,
) -> (r: Entries)
    ensures
        r == spec_apart(suffix, dequant, gemv, gemv_batched),
{
    Entries {
        suffix,
        dequant,
        gather: None,
        gemv: Some(gemv),
        gemv_batched: Some(gemv_batched),
    }
}

/// The entries for super blocks of `bits` bits.
pub open spec fn spec_sq_entries(bits: u8) -> Option<Entries> {
    if bits == 1 {
        Some(spec_weight("sq1", "deq_sq1", "deqg_sq1", "gemv_sq1", "gemv_sq1_batched"))
    } else if bits == 2 {
        Some(spec_weight("sq2", "deq_sq2", "deqg_sq2", "gemv_sq2", "gemv_sq2_batched"))
    } else if bits == 3 {
        Some(spec_weight("sq3", "deq_sq3", "deqg_sq3", "gemv_sq3", "gemv_sq3_batched"))
    } else if bits == 4 {
        Some(spec_weight("sq4", "deq_sq4", "deqg_sq4", "gemv_sq4", "gemv_sq4_batched"))
    } else if bits == 5 {
        Some(spec_weight("sq5", "deq_sq5", "deqg_sq5", "gemv_sq5", "gemv_sq5_batched"))
    } else if bits == 6 {
        Some(spec_weight("sq6", "deq_sq6", "deqg_sq6", "gemv_sq6", "gemv_sq6_batched"))
    } else if bits == 7 {
        Some(spec_weight("sq7", "deq_sq7", "deqg_sq7", "gemv_sq7", "gemv_sq7_batched"))
    } else if bits == 8 {
        Some(spec_weight("sq8", "deq_sq8", "deqg_sq8", "gemv_sq8", "gemv_sq8_batched"))
    } else {
        None
    }
}

fn sq_entries(bits: u8) -> (r: Option<Entries>)
    ensures
        r == spec_sq_entries(bits),
{
    if bits == 1 {
        Some(weight("sq1", "deq_sq1", "deqg_sq1", "gemv_sq1", "gemv_sq1_batched"))
    } else if bits == 2 {
        Some(weight("sq2", "deq_sq2", "deqg_sq2", "gemv_sq2", "gemv_sq2_batched"))
    } else if bits == 3 {
        Some(weight("sq3", "deq_sq3", "deqg_sq3", "gemv_sq3", "gemv_sq3_batched"))
    } else if bits == 4 {
        Some(weight("sq4", "deq_sq4", "deqg_sq4", "gemv_sq4", "gemv_sq4_batched"))
    } else if bits == 5 {
        Some(weight("sq5", "deq_sq5", "deqg_sq5", "gemv_sq5", "gemv_sq5_batched"))
    } else if bits == 6 {
        Some(weight("sq6", "deq_sq6", "deqg_sq6", "gemv_sq6", "gemv_sq6_batched"))
    } else if bits == 7 {
        Some(weight("sq7", "deq_sq7", "deqg_sq7", "gemv_sq7", "gemv_sq7_batched"))
    } else if bits == 8 {
        Some(weight("sq8", "deq_sq8", "deqg_sq8", "gemv_sq8", "gemv_sq8_batched"))
    } else {
        None
    }
}

/// The entries for the formats of the ggml family.
pub open spec fn spec_ggml_entries(t: GgmlType) -> Option<Entries> {
    match t {
        GgmlType::Q4_0 => Some(spec_weight("q4_0", "deq_q4_0", "deqg_q4_0", "gemv_q4_0", "gemv_q4_0_batched")),
        GgmlType::Q4_1 => Some(spec_weight("q4_1", "deq_q4_1", "deqg_q4_1", "gemv_q4_1", "gemv_q4_1_batched")),
        GgmlType::Q5_0 => Some(spec_weight("q5_0", "deq_q5_0", "deqg_q5_0", "gemv_q5_0", "gemv_q5_0_batched")),
        GgmlType::Q5_1 => Some(spec_weight("q5_1", "deq_q5_1", "deqg_q5_1", "gemv_q5_1", "gemv_q5_1_batched")),
        GgmlType::Q8_0 => Some(spec_weight("q8_0", "deq_q8_0", "deqg_q8_0", "gemv_q8_0", "gemv_q8_0_batched")),
        GgmlType::Q8_1 => Some(spec_activation("q8_1", "deq_q8_1", "deqg_q8_1")),
        GgmlType::Q8K => Some(spec_activation("q8_k", "deq_q8_k", "deqg_q8_k")),
        GgmlType::Q1_0 => Some(spec_weight("q1_0", "deq_q1_0", "deqg_q1_0", "gemv_q1_0", "gemv_q1_0_batched")),
        GgmlType::Q2_0 => Some(spec_weight("q2_0", "deq_q2_0", "deqg_q2_0", "gemv_q2_0", "gemv_q2_0_batched")),
        GgmlType::Mxfp4 => Some(spec_weight("mxfp4", "deq_mxfp4", "deqg_mxfp4", "gemv_mxfp4", "gemv_mxfp4_batched")),
        GgmlType::Nvfp4 => Some(spec_weight("nvfp4", "deq_nvfp4", "deqg_nvfp4", "gemv_nvfp4", "gemv_nvfp4_batched")),
        GgmlType::Iq4Nl => Some(spec_weight("iq4_nl", "deq_iq4_nl", "deqg_iq4_nl", "gemv_iq4_nl", "gemv_iq4_nl_batched")),
        GgmlType::Q2K => Some(spec_weight("q2_k", "deq_q2_k", "deqg_q2_k", "gemv_q2_k", "gemv_q2_k_batched")),
        GgmlType::Q3K => Some(spec_weight("q3_k", "deq_q3_k", "deqg_q3_k", "gemv_q3_k", "gemv_q3_k_batched")),
        GgmlType::Q4K => Some(spec_weight("q4_k", "deq_q4_k", "deqg_q4_k", "gemv_q4_k", "gemv_q4_k_batched")),
        GgmlType::Q5K => Some(spec_weight("q5_k", "deq_q5_k", "deqg_q5_k", "gemv_q5_k", "gemv_q5_k_batched")),
        GgmlType::Q6K => Some(spec_weight("q6_k", "deq_q6_k", "deqg_q6_k", "gemv_q6_k", "gemv_q6_k_batched")),
        GgmlType::Iq4Xs => Some(spec_weight("iq4_xs", "deq_iq4_xs", "deqg_iq4_xs", "gemv_iq4_xs", "gemv_iq4_xs_batched")),
        GgmlType::Iq2Xxs => Some(spec_weight("iq2_xxs", "deq_iq2_xxs", "deqg_iq2_xxs", "gemv_iq2_xxs", "gemv_iq2_xxs_batched")),
        GgmlType::Iq2Xs => Some(spec_weight("iq2_xs", "deq_iq2_xs", "deqg_iq2_xs", "gemv_iq2_xs", "gemv_iq2_xs_batched")),
        GgmlType::Iq2S => Some(spec_weight("iq2_s", "deq_iq2_s", "deqg_iq2_s", "gemv_iq2_s", "gemv_iq2_s_batched")),
        GgmlType::Iq3Xxs => Some(spec_weight("iq3_xxs", "deq_iq3_xxs", "deqg_iq3_xxs", "gemv_iq3_xxs", "gemv_iq3_xxs_batched")),
        GgmlType::Iq3S => Some(spec_weight("iq3_s", "deq_iq3_s", "deqg_iq3_s", "gemv_iq3_s", "gemv_iq3_s_batched")),
        GgmlType::Iq1S => Some(spec_weight("iq1_s", "deq_iq1_s", "deqg_iq1_s", "gemv_iq1_s", "gemv_iq1_s_batched")),
        GgmlType::Iq1M => Some(spec_weight("iq1_m", "deq_iq1_m", "deqg_iq1_m", "gemv_iq1_m", "gemv_iq1_m_batched")),
        GgmlType::Tq1_0 => Some(spec_weight("tq1_0", "deq_tq1_0", "deqg_tq1_0", "gemv_tq1_0", "gemv_tq1_0_batched")),
        GgmlType::Tq2_0 => Some(spec_weight("tq2_0", "deq_tq2_0", "deqg_tq2_0", "gemv_tq2_0", "gemv_tq2_0_batched")),
        GgmlType::Other => None,
    }
}

fn ggml_entries(t: GgmlType) -> (r: Option<Entries>)
    ensures
        r == spec_ggml_entries(t),
{
    match t {
        GgmlType::Q4_0 => Some(weight("q4_0", "deq_q4_0", "deqg_q4_0", "gemv_q4_0", "gemv_q4_0_batched")),
        GgmlType::Q4_1 => Some(weight("q4_1", "deq_q4_1", "deqg_q4_1", "gemv_q4_1", "gemv_q4_1_batched")),
        GgmlType::Q5_0 => Some(weight("q5_0", "deq_q5_0", "deqg_q5_0", "gemv_q5_0", "gemv_q5_0_batched")),
        GgmlType::Q5_1 => Some(weight("q5_1", "deq_q5_1", "deqg_q5_1", "gemv_q5_1", "gemv_q5_1_batched")),
        GgmlType::Q8_0 => Some(weight("q8_0", "deq_q8_0", "deqg_q8_0", "gemv_q8_0", "gemv_q8_0_batched")),
        GgmlType::Q8_1 => Some(activation("q8_1", "deq_q8_1", "deqg_q8_1")),
        GgmlType::Q8K => Some(activation("q8_k", "deq_q8_k", "deqg_q8_k")),
        GgmlType::Q1_0 => Some(weight("q1_0", "deq_q1_0", "deqg_q1_0", "gemv_q1_0", "gemv_q1_0_batched")),
        GgmlType::Q2_0 => Some(weight("q2_0", "deq_q2_0", "deqg_q2_0", "gemv_q2_0", "gemv_q2_0_batched")),
        GgmlType::Mxfp4 => Some(weight("mxfp4", "deq_mxfp4", "deqg_mxfp4", "gemv_mxfp4", "gemv_mxfp4_batched")),
        GgmlType::Nvfp4 => Some(weight("nvfp4", "deq_nvfp4", "deqg_nvfp4", "gemv_nvfp4", "gemv_nvfp4_batched")),
        GgmlType::Iq4Nl => Some(weight("iq4_nl", "deq_iq4_nl", "deqg_iq4_nl", "gemv_iq4_nl", "gemv_iq4_nl_batched")),
        GgmlType::Q2K => Some(weight("q2_k", "deq_q2_k", "deqg_q2_k", "gemv_q2_k", "gemv_q2_k_batched")),
        GgmlType::Q3K => Some(weight("q3_k", "deq_q3_k", "deqg_q3_k", "gemv_q3_k", "gemv_q3_k_batched")),
        GgmlType::Q4K => Some(weight("q4_k", "deq_q4_k", "deqg_q4_k", "gemv_q4_k", "gemv_q4_k_batched")),
        GgmlType::Q5K => Some(weight("q5_k", "deq_q5_k", "deqg_q5_k", "gemv_q5_k", "gemv_q5_k_batched")),
        GgmlType::Q6K => Some(weight("q6_k", "deq_q6_k", "deqg_q6_k", "gemv_q6_k", "gemv_q6_k_batched")),
        GgmlType::Iq4Xs => Some(weight("iq4_xs", "deq_iq4_xs", "deqg_iq4_xs", "gemv_iq4_xs", "gemv_iq4_xs_batched")),
        GgmlType::Iq2Xxs => Some(weight("iq2_xxs", "deq_iq2_xxs", "deqg_iq2_xxs", "gemv_iq2_xxs", "gemv_iq2_xxs_batched")),
        GgmlType::Iq2Xs => Some(weight("iq2_xs", "deq_iq2_xs", "deqg_iq2_xs", "gemv_iq2_xs", "gemv_iq2_xs_batched")),
        GgmlType::Iq2S => Some(weight("iq2_s", "deq_iq2_s", "deqg_iq2_s", "gemv_iq2_s", "gemv_iq2_s_batched")),
        GgmlType::Iq3Xxs => Some(weight("iq3_xxs", "deq_iq3_xxs", "deqg_iq3_xxs", "gemv_iq3_xxs", "gemv_iq3_xxs_batched")),
        GgmlType::Iq3S => Some(weight("iq3_s", "deq_iq3_s", "deqg_iq3_s", "gemv_iq3_s", "gemv_iq3_s_batched")),
        GgmlType::Iq1S => Some(weight("iq1_s", "deq_iq1_s", "deqg_iq1_s", "gemv_iq1_s", "gemv_iq1_s_batched")),
        GgmlType::Iq1M => Some(weight("iq1_m", "deq_iq1_m", "deqg_iq1_m", "gemv_iq1_m", "gemv_iq1_m_batched")),
        GgmlType::Tq1_0 => Some(weight("tq1_0", "deq_tq1_0", "deqg_tq1_0", "gemv_tq1_0", "gemv_tq1_0_batched")),
        GgmlType::Tq2_0 => Some(weight("tq2_0", "deq_tq2_0", "deqg_tq2_0", "gemv_tq2_0", "gemv_tq2_0_batched")),
        GgmlType::Other => None,
    }
}

/// The entries for a format; none where it is not that of a quantised weight.
pub open spec fn spec_entries(dtype: DType) -> Option<Entries> {
    match dtype {
        DType::NVFP4 => Some(spec_apart("nvfp4_syn", "deq_nvfp4_syn", "gemv_nvfp4_syn", "gemv_nvfp4_syn_batched")),
        DType::MXFP8 => Some(spec_apart("mxfp8_syn", "deq_mxfp8_syn", "gemv_mxfp8_syn", "gemv_mxfp8_syn_batched")),
        DType::Sq(bits) => spec_sq_entries(bits),
        DType::Ggml(t) => spec_ggml_entries(t),
        _ => None,
    }
}

/// The entries for a format; none where it is not that of a quantised weight.
pub fn entries(dtype: DType) -> (r: Option<Entries>)
    ensures
        r == spec_entries(dtype),
{
    match dtype {
        DType::NVFP4 => Some(apart("nvfp4_syn", "deq_nvfp4_syn", "gemv_nvfp4_syn", "gemv_nvfp4_syn_batched")),
        DType::MXFP8 => Some(apart("mxfp8_syn", "deq_mxfp8_syn", "gemv_mxfp8_syn", "gemv_mxfp8_syn_batched")),
        DType::Sq(bits) => sq_entries(bits),
        DType::Ggml(t) => ggml_entries(t),
        _ => None,
    }
}

/// Every entry is named after its work and the suffix of the format.
pub open spec fn well_named(e: Entries) -> bool {
    &&& e.dequant@ =~= "deq_"@ + e.suffix@
    &&& e.gather matches Some(g) ==> g@ =~= "deqg_"@ + e.suffix@
    &&& e.gemv matches Some(g) ==> g@ =~= "gemv_"@ + e.suffix@
    &&& e.gemv_batched matches Some(g) ==> g@ =~= "gemv_"@ + e.suffix@ + "_batched"@
}

proof fn lemma_sq_named(bits: u8)
    ensures
        spec_sq_entries(bits) matches Some(e) ==> well_named(e),
{
    reveal_strlit("deq_");
    reveal_strlit("deqg_");
    reveal_strlit("gemv_");
    reveal_strlit("_batched");
    if bits == 1 {
        reveal_strlit("sq1");
        reveal_strlit("deq_sq1");
        reveal_strlit("deqg_sq1");
        reveal_strlit("gemv_sq1");
        reveal_strlit("gemv_sq1_batched");
    } else if bits == 2 {
        reveal_strlit("sq2");
        reveal_strlit("deq_sq2");
        reveal_strlit("deqg_sq2");
        reveal_strlit("gemv_sq2");
        reveal_strlit("gemv_sq2_batched");
    } else if bits == 3 {
        reveal_strlit("sq3");
        reveal_strlit("deq_sq3");
        reveal_strlit("deqg_sq3");
        reveal_strlit("gemv_sq3");
        reveal_strlit("gemv_sq3_batched");
    } else if bits == 4 {
        reveal_strlit("sq4");
        reveal_strlit("deq_sq4");
        reveal_strlit("deqg_sq4");
        reveal_strlit("gemv_sq4");
        reveal_strlit("gemv_sq4_batched");
    } else if bits == 5 {
        reveal_strlit("sq5");
        reveal_strlit("deq_sq5");
        reveal_strlit("deqg_sq5");
        reveal_strlit("gemv_sq5");
        reveal_strlit("gemv_sq5_batched");
    } else if bits == 6 {
        reveal_strlit("sq6");
        reveal_strlit("deq_sq6");
        reveal_strlit("deqg_sq6");
        reveal_strlit("gemv_sq6");
        reveal_strlit("gemv_sq6_batched");
    } else if bits == 7 {
        reveal_strlit("sq7");
        reveal_strlit("deq_sq7");
        reveal_strlit("deqg_sq7");
        reveal_strlit("gemv_sq7");
        reveal_strlit("gemv_sq7_batched");
    } else if bits == 8 {
        reveal_strlit("sq8");
        reveal_strlit("deq_sq8");
        reveal_strlit("deqg_sq8");
        reveal_strlit("gemv_sq8");
        reveal_strlit("gemv_sq8_batched");
    }
}

proof fn lemma_ggml_named(t: GgmlType)
    ensures
        spec_ggml_entries(t) matches Some(e) ==> well_named(e),
{
    reveal_strlit("deq_");
    reveal_strlit("deqg_");
    reveal_strlit("gemv_");
    reveal_strlit("_batched");
    match t {
        GgmlType::Q4_0 => {
            reveal_strlit("q4_0");
            reveal_strlit("deq_q4_0");
            reveal_strlit("deqg_q4_0");
            reveal_strlit("gemv_q4_0");
            reveal_strlit("gemv_q4_0_batched");
        },
        GgmlType::Q4_1 => {
            reveal_strlit("q4_1");
            reveal_strlit("deq_q4_1");
            reveal_strlit("deqg_q4_1");
            reveal_strlit("gemv_q4_1");
            reveal_strlit("gemv_q4_1_batched");
        },
        GgmlType::Q5_0 => {
            reveal_strlit("q5_0");
            reveal_strlit("deq_q5_0");
            reveal_strlit("deqg_q5_0");
            reveal_strlit("gemv_q5_0");
            reveal_strlit("gemv_q5_0_batched");
        },
        GgmlType::Q5_1 => {
            reveal_strlit("q5_1");
            reveal_strlit("deq_q5_1");
            reveal_strlit("deqg_q5_1");
            reveal_strlit("gemv_q5_1");
            reveal_strlit("gemv_q5_1_batched");
        },
        GgmlType::Q8_0 => {
            reveal_strlit("q8_0");
            reveal_strlit("deq_q8_0");
            reveal_strlit("deqg_q8_0");
            reveal_strlit("gemv_q8_0");
            reveal_strlit("gemv_q8_0_batched");
        },
        GgmlType::Q8_1 => {
            reveal_strlit("q8_1");
            reveal_strlit("deq_q8_1");
            reveal_strlit("deqg_q8_1");
        },
        GgmlType::Q8K => {
            reveal_strlit("q8_k");
            reveal_strlit("deq_q8_k");
            reveal_strlit("deqg_q8_k");
        },
        GgmlType::Q1_0 => {
            reveal_strlit("q1_0");
            reveal_strlit("deq_q1_0");
            reveal_strlit("deqg_q1_0");
            reveal_strlit("gemv_q1_0");
            reveal_strlit("gemv_q1_0_batched");
        },
        GgmlType::Q2_0 => {
            reveal_strlit("q2_0");
            reveal_strlit("deq_q2_0");
            reveal_strlit("deqg_q2_0");
            reveal_strlit("gemv_q2_0");
            reveal_strlit("gemv_q2_0_batched");
        },
        GgmlType::Mxfp4 => {
            reveal_strlit("mxfp4");
            reveal_strlit("deq_mxfp4");
            reveal_strlit("deqg_mxfp4");
            reveal_strlit("gemv_mxfp4");
            reveal_strlit("gemv_mxfp4_batched");
        },
        GgmlType::Nvfp4 => {
            reveal_strlit("nvfp4");
            reveal_strlit("deq_nvfp4");
            reveal_strlit("deqg_nvfp4");
            reveal_strlit("gemv_nvfp4");
            reveal_strlit("gemv_nvfp4_batched");
        },
        GgmlType::Iq4Nl => {
            reveal_strlit("iq4_nl");
            reveal_strlit("deq_iq4_nl");
            reveal_strlit("deqg_iq4_nl");
            reveal_strlit("gemv_iq4_nl");
            reveal_strlit("gemv_iq4_nl_batched");
        },
        GgmlType::Q2K => {
            reveal_strlit("q2_k");
            reveal_strlit("deq_q2_k");
            reveal_strlit("deqg_q2_k");
            reveal_strlit("gemv_q2_k");
            reveal_strlit("gemv_q2_k_batched");
        },
        GgmlType::Q3K => {
            reveal_strlit("q3_k");
            reveal_strlit("deq_q3_k");
            reveal_strlit("deqg_q3_k");
            reveal_strlit("gemv_q3_k");
            reveal_strlit("gemv_q3_k_batched");
        },
        GgmlType::Q4K => {
            reveal_strlit("q4_k");
            reveal_strlit("deq_q4_k");
            reveal_strlit("deqg_q4_k");
            reveal_strlit("gemv_q4_k");
            reveal_strlit("gemv_q4_k_batched");
        },
        GgmlType::Q5K => {
            reveal_strlit("q5_k");
            reveal_strlit("deq_q5_k");
            reveal_strlit("deqg_q5_k");
            reveal_strlit("gemv_q5_k");
            reveal_strlit("gemv_q5_k_batched");
        },
        GgmlType::Q6K => {
            reveal_strlit("q6_k");
            reveal_strlit("deq_q6_k");
            reveal_strlit("deqg_q6_k");
            reveal_strlit("gemv_q6_k");
            reveal_strlit("gemv_q6_k_batched");
        },
        GgmlType::Iq4Xs => {
            reveal_strlit("iq4_xs");
            reveal_strlit("deq_iq4_xs");
            reveal_strlit("deqg_iq4_xs");
            reveal_strlit("gemv_iq4_xs");
            reveal_strlit("gemv_iq4_xs_batched");
        },
        GgmlType::Iq2Xxs => {
            reveal_strlit("iq2_xxs");
            reveal_strlit("deq_iq2_xxs");
            reveal_strlit("deqg_iq2_xxs");
            reveal_strlit("gemv_iq2_xxs");
            reveal_strlit("gemv_iq2_xxs_batched");
        },
        GgmlType::Iq2Xs => {
            reveal_strlit("iq2_xs");
            reveal_strlit("deq_iq2_xs");
            reveal_strlit("deqg_iq2_xs");
            reveal_strlit("gemv_iq2_xs");
            reveal_strlit("gemv_iq2_xs_batched");
        },
        GgmlType::Iq2S => {
            reveal_strlit("iq2_s");
            reveal_strlit("deq_iq2_s");
            reveal_strlit("deqg_iq2_s");
            reveal_strlit("gemv_iq2_s");
            reveal_strlit("gemv_iq2_s_batched");
        },
        GgmlType::Iq3Xxs => {
            reveal_strlit("iq3_xxs");
            reveal_strlit("deq_iq3_xxs");
            reveal_strlit("deqg_iq3_xxs");
            reveal_strlit("gemv_iq3_xxs");
            reveal_strlit("gemv_iq3_xxs_batched");
        },
        GgmlType::Iq3S => {
            reveal_strlit("iq3_s");
            reveal_strlit("deq_iq3_s");
            reveal_strlit("deqg_iq3_s");
            reveal_strlit("gemv_iq3_s");
            reveal_strlit("gemv_iq3_s_batched");
        },
        GgmlType::Iq1S => {
            reveal_strlit("iq1_s");
            reveal_strlit("deq_iq1_s");
            reveal_strlit("deqg_iq1_s");
            reveal_strlit("gemv_iq1_s");
            reveal_strlit("gemv_iq1_s_batched");
        },
        GgmlType::Iq1M => {
            reveal_strlit("iq1_m");
            reveal_strlit("deq_iq1_m");
            reveal_strlit("deqg_iq1_m");
            reveal_strlit("gemv_iq1_m");
            reveal_strlit("gemv_iq1_m_batched");
        },
        GgmlType::Tq1_0 => {
            reveal_strlit("tq1_0");
            reveal_strlit("deq_tq1_0");
            reveal_strlit("deqg_tq1_0");
            reveal_strlit("gemv_tq1_0");
            reveal_strlit("gemv_tq1_0_batched");
        },
        GgmlType::Tq2_0 => {
            reveal_strlit("tq2_0");
            reveal_strlit("deq_tq2_0");
            reveal_strlit("deqg_tq2_0");
            reveal_strlit("gemv_tq2_0");
            reveal_strlit("gemv_tq2_0_batched");
        },
        GgmlType::Other => {},
    }
}

/// The kernels of every format bear the name of their work, `deq_`, `deqg_` or `gemv_`, with the suffix
/// of the format behind it, those that serve one product per expert `_batched` behind that.
pub proof fn entries_named_by_suffix(dtype: DType)
    ensures
        spec_entries(dtype) matches Some(e) ==> well_named(e),
{
    reveal_strlit("deq_");
    reveal_strlit("deqg_");
    reveal_strlit("gemv_");
    reveal_strlit("_batched");
    match dtype {
        DType::NVFP4 => {
            reveal_strlit("nvfp4_syn");
            reveal_strlit("deq_nvfp4_syn");
            reveal_strlit("gemv_nvfp4_syn");
            reveal_strlit("gemv_nvfp4_syn_batched");
        },
        DType::MXFP8 => {
            reveal_strlit("mxfp8_syn");
            reveal_strlit("deq_mxfp8_syn");
            reveal_strlit("gemv_mxfp8_syn");
            reveal_strlit("gemv_mxfp8_syn_batched");
        },
        DType::Sq(bits) => {
            lemma_sq_named(bits);
        },
        DType::Ggml(t) => {
            lemma_ggml_named(t);
        },
        _ => {},
    }
}

/// Every format of a quantised weight can be brought back to floats; all but those with their scales
/// apart can be looked up in a table, and all but those of activations can be multiplied with, alone
/// and one per expert.
pub proof fn entries_by_format(dtype: DType)
    ensures
        has_own_scales(dtype) || is_activation_format(dtype) ==> spec_entries(dtype) is Some,
        spec_entries(dtype) matches Some(e) ==> {
            &&& e.gather is None <==> has_own_scales(dtype)
            &&& e.gemv is None <==> is_activation_format(dtype)
            &&& e.gemv_batched is None <==> is_activation_format(dtype)
        },
{
}

} // verus!
