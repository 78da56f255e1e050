//! The colour of a meter display: good, mixed or bad, by two thresholds.
use vstd::prelude::*;

verus! {

/// How a meter's value reads.
#[derive(Debug, Clone, Copy, PartialEq, Eq, Structural)]
pub enum MeterLevel {
    Positive,
    Mixed,
    Negative,
}

/// The reading of a meter. The low threshold separates the good readings from
/// the mixed ones, the high threshold the mixed readings from the bad ones.
/// With `low_threshold < high_threshold` low values are good: below the low
/// threshold the meter reads well, from the high threshold up badly. Otherwise
/// high values are good: from the low threshold up the meter reads well,
/// below the high threshold badly.
pub open spec fn meter_level_spec(value: u32, low_threshold: u32, high_threshold: u32) -> MeterLevel {
    if low_threshold < high_threshold {
        if value < low_threshold {
            MeterLevel::Positive
        } else if value < high_threshold {
            MeterLevel::Mixed
        } else {
            MeterLevel::Negative
        }
    } else {
        if value < high_threshold {
            MeterLevel::Negative
        } else if value < low_threshold {
            MeterLevel::Mixed
        } else {
            MeterLevel::Positive
        }
    }
}

/// How a meter showing `value` reads, given its thresholds.
pub fn meter_level(value: u32, low_threshold: u32, high_threshold: u32) -> (r: MeterLevel)
    ensures
        r == meter_level_spec(value, low_threshold, high_threshold),
{
    if low_threshold < high_threshold {
        if value < low_threshold {
            MeterLevel::Positive
        } else if value < high_threshold {
            MeterLevel::Mixed
        } else {
            MeterLevel::Negative
        }
    } else {
        if value < high_threshold {
            MeterLevel::Negative
        } else if value < low_threshold {
            MeterLevel::Mixed
        } else {
            MeterLevel::Positive
        }
    }
}

/// A rising value never reads worse on a meter where high values are good,
/// and never better on one where low values are good.
pub proof fn lemma_meter_monotone(v1: u32, v2: u32, low_threshold: u32, high_threshold: u32)
    requires
        v1 <= v2,
    ensures
        low_threshold < high_threshold ==> (meter_level_spec(v1, low_threshold, high_threshold)
            == MeterLevel::Negative ==> meter_level_spec(v2, low_threshold, high_threshold)
            == MeterLevel::Negative),
        low_threshold < high_threshold ==> (meter_level_spec(v2, low_threshold, high_threshold)
            == MeterLevel::Positive ==> meter_level_spec(v1, low_threshold, high_threshold)
            == MeterLevel::Positive),
        low_threshold >= high_threshold ==> (meter_level_spec(v1, low_threshold, high_threshold)
            == MeterLevel::Positive ==> meter_level_spec(v2, low_threshold, high_threshold)
            == MeterLevel::Positive),
        low_threshold >= high_threshold ==> (meter_level_spec(v2, low_threshold, high_threshold)
            == MeterLevel::Negative ==> meter_level_spec(v1, low_threshold, high_threshold)
            == MeterLevel::Negative),
{
}

} // verus!
