//! The e-mail delivery worker: whether it starts, and what one of its runs reports.
use vstd::prelude::*;

use crate::jobs::{JobHealthRecord, TickOutcome};

verus! {

/// The counts that the e-mail worker's health record shows.
#[derive(Debug, Clone, Copy, PartialEq, Eq, Structural)]
pub struct EmailWorkerMetrics {
    pub pending_count: Option<i64>,
}

/// A periodic background job: what it is called and how often it runs.
pub trait Job {
    fn name(&self) -> &'static str;

    fn interval_secs(&self) -> u64;
}

/// The job that sends queued e-mail.
#[derive(Debug)]
pub struct EmailDeliveryJob {
    pub interval_secs: u64,
}

impl Job for EmailDeliveryJob {
    fn name(&self) -> (r: &'static str)
        ensures
            r@ == "email_delivery"@,
    {
        "email_delivery"
    }

    fn interval_secs(&self) -> (r: u64)
        ensures
            r == self.interval_secs,
    {
        self.interval_secs
    }
}

/// Decides at start-up whether the e-mail worker runs: the health record shows whether it
/// is enabled, and the job runs only when it is enabled and a database is configured.
pub fn start_email_delivery_worker(
    health: &mut JobHealthRecord<EmailWorkerMetrics>,
    enabled: bool,
    has_database: bool,
    interval_secs: u64,
) -> (r: Option<EmailDeliveryJob>)
    ensures
        final(health).enabled == enabled,
        final(health).last_started_at == old(health).last_started_at,
        final(health).last_finished_at == old(health).last_finished_at,
        final(health).last_success_at == old(health).last_success_at,
        final(health).last_result_ok == old(health).last_result_ok,
        final(health).last_error == old(health).last_error,
        final(health).metrics == old(health).metrics,
        match r {
            Some(job) => enabled && has_database && job.interval_secs == interval_secs,
            None => !enabled || !has_database,
        },
{
    health.enabled = enabled;
    if !enabled || !has_database {
        return None;
    }
    Some(EmailDeliveryJob { interval_secs })
}

/// What one run of the e-mail worker reports: a success with the pending count when the
/// batch went out, else the batch's error.
pub fn email_tick_outcome(
    batch: Result<(), String>,
    pending_count: Option<i64>,
) -> (r: Result<TickOutcome<EmailWorkerMetrics>, String>)
    ensures
        match batch {
            Ok(()) => r matches Ok(o) && o.ok && o.error is None && o.metrics.pending_count == pending_count,
            Err(e) => r == Err::<TickOutcome<EmailWorkerMetrics>, String>(e),
        },
{
    match batch {
        Ok(()) => Ok(TickOutcome::success(EmailWorkerMetrics { pending_count })),
        Err(e) => Err(e),
    }
}

} // verus!
