//! The parameters an engine is built with.
//!
//! Two of them are chosen by the caller; the others are fixed by the bridge.
//! Decibel values are held as the bit patterns of 32-bit IEEE-754 numbers.

use vstd::prelude::*;

verus! {

/// Number of audio channels. The bridge is mono only.
pub const CHANNELS: usize = 1;

/// Minimum threshold, -10 dB.
pub const MIN_DB_THRESH: u32 = 0xC120_0000;

/// Maximum threshold of the band decoder, 30 dB.
pub const MAX_DB_ERB_THRESH: u32 = 0x41F0_0000;

/// Maximum threshold of the deep filter, 20 dB.
pub const MAX_DB_DF_THRESH: u32 = 0x41A0_0000;

/// How the masks of several channels are reduced to one.
#[derive(Clone, Copy, Debug, PartialEq, Eq, Structural)]
pub enum MaskReduction {
    /// No reduction.
    Off,
    /// The largest mask.
    Max,
    /// The mean of the masks.
    Mean,
}

/// Everything an engine needs besides its model.
#[derive(Clone, Copy, Debug, PartialEq, Eq, Structural)]
pub struct RuntimeConfig {
    pub channels: usize,
    pub post_filter_beta: u32,
    pub atten_lim_db: u32,
    pub min_db_thresh: u32,
    pub max_db_erb_thresh: u32,
    pub max_db_df_thresh: u32,
    pub reduce_mask: MaskReduction,
}

/// The configuration for the given tuning values: mono, the fixed
/// thresholds, masks reduced by their mean.
pub open spec fn fixed_config(post_filter_beta: u32, atten_lim_db: u32) -> RuntimeConfig {
    RuntimeConfig {
        channels: CHANNELS,
        post_filter_beta,
        atten_lim_db,
        min_db_thresh: MIN_DB_THRESH,
        max_db_erb_thresh: MAX_DB_ERB_THRESH,
        max_db_df_thresh: MAX_DB_DF_THRESH,
        reduce_mask: MaskReduction::Mean,
    }
}

/// Decides whether an engine is to be built from a model of `model_length`
/// bytes, and with which configuration. An empty model is turned away before
/// anything is decoded.
pub fn plan_create(model_length: usize, post_filter_beta: u32, atten_lim_db: u32) -> (plan: Option<
    RuntimeConfig,
>)
    ensures
        plan == if model_length == 0 {
            None
        } else {
            Some(fixed_config(post_filter_beta, atten_lim_db))
        },
{
    if model_length == 0 {
        None
    } else {
        Some(
            RuntimeConfig {
                channels: CHANNELS,
                post_filter_beta,
                atten_lim_db,
                min_db_thresh: MIN_DB_THRESH,
                max_db_erb_thresh: MAX_DB_ERB_THRESH,
                max_db_df_thresh: MAX_DB_DF_THRESH,
                reduce_mask: MaskReduction::Mean,
            },
        )
    }
}

/// Decides the same for a model buffer that may be missing altogether: a
/// missing buffer is turned away like an empty one, whatever length came
/// with it, so that nothing is ever read through it.
pub fn plan_create_from(
    model_present: bool,
    model_length: usize,
    post_filter_beta: u32,
    atten_lim_db: u32,
) -> (plan: Option<RuntimeConfig>)
    ensures
        plan == if !model_present || model_length == 0 {
            None
        } else {
            Some(fixed_config(post_filter_beta, atten_lim_db))
        },
{
    if !model_present {
        None
    } else {
        plan_create(model_length, post_filter_beta, atten_lim_db)
    }
}

} // verus!
