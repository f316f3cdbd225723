//! What the background workers of the cold tier are to do.

use vstd::prelude::*;
use crate::cold_config::ColdWorkerConfig;
use crate::duration::{duration_ms, Duration};
use crate::request::PlanGroupColdFlushRequest;

verus! {

/// How the flush worker goes about its work.
#[derive(Debug, PartialEq, Eq)]
pub struct ColdFlushPlan {
    pub interval_ms: usize,
    pub request: PlanGroupColdFlushRequest,
    pub max_concurrency: usize,
}

/// How the garbage worker goes about its work.
#[derive(Debug, Clone, Copy, PartialEq, Eq, Structural)]
pub struct ColdGcPlan {
    pub interval_ms: usize,
    pub max_entries: usize,
}

/// Settings of the compaction of cold chunks.
#[derive(Debug, Clone, Copy, PartialEq, Eq, Structural)]
pub struct ColdCompactionConfig {
    pub enabled: bool,
    pub interval: Duration,
    pub target_size: u64,
    pub max_size: u64,
    pub max_streams_per_pass: usize,
    pub gc_grace: Duration,
}

/// How the compaction worker goes about its work.
#[derive(Debug, Clone, Copy, PartialEq, Eq, Structural)]
pub struct ColdCompactionPlan {
    pub interval: Duration,
    pub target_bytes: u64,
    pub max_bytes: u64,
    pub max_streams: usize,
    pub gc_grace_ms: u64,
}

/// At least one.
pub open spec fn at_least_one(value: usize) -> usize {
    if value == 0 {
        1
    } else {
        value
    }
}

fn or_one(value: usize) -> (r: usize)
    ensures
        r == at_least_one(value),
        r >= 1,
        value >= 1 ==> r == value,
{
    if value == 0 {
        1
    } else {
        value
    }
}

/// What the flush worker is to do; without an interval there is none.
pub fn cold_flush_plan(config: &ColdWorkerConfig) -> (r: Option<ColdFlushPlan>)
    ensures
        r == if config.flush_interval_ms == 0 {
            None
        } else {
            Some(
                ColdFlushPlan {
                    interval_ms: config.flush_interval_ms,
                    request: PlanGroupColdFlushRequest {
                        min_hot_bytes: config.flush_min_hot_bytes,
                        max_flush_bytes: config.flush_max_bytes,
                    },
                    max_concurrency: at_least_one(config.flush_max_concurrency),
                },
            )
        },
        r matches Some(plan) ==> plan.max_concurrency >= 1 && (config.flush_max_concurrency >= 1
            ==> plan.max_concurrency == config.flush_max_concurrency),
{
    if config.flush_interval_ms == 0 {
        return None;
    }
    Some(
        ColdFlushPlan {
            interval_ms: config.flush_interval_ms,
            request: PlanGroupColdFlushRequest {
                min_hot_bytes: config.flush_min_hot_bytes,
                max_flush_bytes: config.flush_max_bytes,
            },
            max_concurrency: or_one(config.flush_max_concurrency),
        },
    )
}

/// What the garbage worker is to do; without an interval there is none.
pub fn cold_gc_plan(config: &ColdWorkerConfig) -> (r: Option<ColdGcPlan>)
    ensures
        r == if config.gc_interval_ms == 0 {
            None
        } else {
            Some(
                ColdGcPlan {
                    interval_ms: config.gc_interval_ms,
                    max_entries: at_least_one(config.gc_max_entries),
                },
            )
        },
        r matches Some(plan) ==> plan.max_entries >= 1 && (config.gc_max_entries >= 1
            ==> plan.max_entries == config.gc_max_entries),
{
    if config.gc_interval_ms == 0 {
        return None;
    }
    Some(
        ColdGcPlan {
            interval_ms: config.gc_interval_ms,
            max_entries: or_one(config.gc_max_entries),
        },
    )
}

/// What the compaction worker is to do; unless it is switched on there is none.
pub fn cold_compaction_plan(config: &ColdCompactionConfig) -> (r: Option<ColdCompactionPlan>)
    requires
        config.gc_grace.wf(),
    ensures
        if config.enabled {
            let grace = config.gc_grace.total_nanos() / 1_000_000;
            r == Some(
                ColdCompactionPlan {
                    interval: config.interval,
                    target_bytes: config.target_size,
                    max_bytes: config.max_size,
                    max_streams: at_least_one(config.max_streams_per_pass),
                    gc_grace_ms: if grace > u64::MAX {
                        u64::MAX
                    } else {
                        grace as u64
                    },
                },
            )
        } else {
            r is None
        },
{
    if !config.enabled {
        return None;
    }
    Some(
        ColdCompactionPlan {
            interval: config.interval,
            target_bytes: config.target_size,
            max_bytes: config.max_size,
            max_streams: or_one(config.max_streams_per_pass),
            gc_grace_ms: duration_ms(config.gc_grace),
        },
    )
}

} // verus!
