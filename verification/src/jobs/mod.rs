//! Background jobs: the health record each periodic job keeps, and the decisions of the
//! roster and statistics synchronization workers.
pub mod roster_sync;
pub mod stats_sync;
pub mod email_delivery;

use vstd::prelude::*;

use crate::timestamp::UtcTimestamp;

verus! {

/// Health/status record for a single periodic background job. `M` carries whatever
/// metrics are specific to that job.
#[derive(Debug)]
pub struct JobHealthRecord<M> {
    pub enabled: bool,
    pub last_started_at: Option<UtcTimestamp>,
    pub last_finished_at: Option<UtcTimestamp>,
    pub last_success_at: Option<UtcTimestamp>,
    pub last_result_ok: Option<bool>,
    pub last_error: Option<String>,
    pub metrics: M,
}

/// The outcome of a single run of a job.
pub struct TickOutcome<M> {
    pub metrics: M,
    pub ok: bool,
    pub error: Option<String>,
}

impl<M> TickOutcome<M> {
    /// A run that completed normally.
    pub fn success(metrics: M) -> (r: Self)
        ensures
            r.metrics == metrics,
            r.ok,
            r.error is None,
    {
        TickOutcome { metrics, ok: true, error: None }
    }

    /// A run that completed but reports a problem.
    pub fn degraded(metrics: M, error: String) -> (r: Self)
        ensures
            r.metrics == metrics,
            !r.ok,
            r.error == Some(error),
    {
        TickOutcome { metrics, ok: false, error: Some(error) }
    }
}

/// Records that a run of the job started at `started_at`; the previous error is cleared.
pub fn record_tick_started<M>(health: &mut JobHealthRecord<M>, started_at: UtcTimestamp)
    ensures
        final(health).last_started_at == Some(started_at),
        final(health).last_error is None,
        final(health).enabled == old(health).enabled,
        final(health).last_finished_at == old(health).last_finished_at,
        final(health).last_success_at == old(health).last_success_at,
        final(health).last_result_ok == old(health).last_result_ok,
        final(health).metrics == old(health).metrics,
{
    health.last_started_at = Some(started_at);
    health.last_error = None;
}

/// Records how a run of the job ended: a run that returned an outcome stores its metrics,
/// its verdict and its error, and counts as a success when the outcome is `ok`; a run that
/// failed outright keeps the old metrics and stores its message.
pub fn record_tick_finished<M>(
    health: &mut JobHealthRecord<M>,
    result: Result<TickOutcome<M>, String>,
    finished_at: UtcTimestamp,
    succeeded_at: UtcTimestamp,
)
    ensures
        final(health).enabled == old(health).enabled,
        final(health).last_started_at == old(health).last_started_at,
        final(health).last_finished_at == Some(finished_at),
        match result {
            Ok(outcome) => {
                &&& final(health).last_result_ok == Some(outcome.ok)
                &&& final(health).last_error == outcome.error
                &&& final(health).metrics == outcome.metrics
                &&& final(health).last_success_at == if outcome.ok {
                    Some(succeeded_at)
                } else {
                    old(health).last_success_at
                }
            },
            Err(message) => {
                &&& final(health).last_result_ok == Some(false)
                &&& final(health).last_error == Some(message)
                &&& final(health).metrics == old(health).metrics
                &&& final(health).last_success_at == old(health).last_success_at
            },
        },
{
    match result {
        Ok(outcome) => {
            health.last_finished_at = Some(finished_at);
            health.last_result_ok = Some(outcome.ok);
            health.last_error = outcome.error;
            health.metrics = outcome.metrics;
            if outcome.ok {
                health.last_success_at = Some(succeeded_at);
            }
        },
        Err(message) => {
            health.last_finished_at = Some(finished_at);
            health.last_result_ok = Some(false);
            health.last_error = Some(message);
        },
    }
}

} // verus!
