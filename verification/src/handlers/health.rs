//! Health reports: whether the service is up, whether it is ready, and what each
//! background job last did.
use vstd::prelude::*;

use crate::jobs::email_delivery::EmailWorkerMetrics;
use crate::jobs::roster_sync::RosterSyncMetrics;
use crate::jobs::stats_sync::EnvironmentSyncHealth;
use crate::jobs::JobHealthRecord;
use crate::text::{clone_opt, opt_str_view, owned, parse_i64, parse_i64_spec};
use crate::timestamp::{elapsed, elapsed_between, span_above, UtcTimestamp};

verus! {

/// The answer to a liveness probe.
#[derive(Debug)]
pub struct HealthBody {
    pub status: &'static str,
}

/// The service is up.
pub fn health_body() -> (r: HealthBody)
    ensures
        r.status@ == "ok"@,
{
    HealthBody { status: "ok" }
}

/// The health of one environment of the statistics worker.
#[derive(Debug)]
pub struct StatsSyncEnvironmentHealthBody {
    pub stale: bool,
    pub last_started_at: Option<UtcTimestamp>,
    pub last_finished_at: Option<UtcTimestamp>,
    pub last_success_at: Option<UtcTimestamp>,
    pub last_result_ok: Option<bool>,
    pub last_error: Option<String>,
    pub processed: Option<usize>,
    pub online: Option<usize>,
    pub source_updated_at: Option<UtcTimestamp>,
}

/// The health of the roster worker.
#[derive(Debug)]
pub struct RosterSyncHealthBody {
    pub enabled: bool,
    pub last_started_at: Option<UtcTimestamp>,
    pub last_finished_at: Option<UtcTimestamp>,
    pub last_success_at: Option<UtcTimestamp>,
    pub last_result_ok: Option<bool>,
    pub last_error: Option<String>,
    pub processed: Option<usize>,
    pub matched: Option<usize>,
    pub updated: Option<usize>,
    pub demoted: Option<usize>,
    pub skipped: Option<usize>,
}

/// The health of the e-mail worker.
#[derive(Debug)]
pub struct EmailWorkerHealthBody {
    pub enabled: bool,
    pub last_started_at: Option<UtcTimestamp>,
    pub last_finished_at: Option<UtcTimestamp>,
    pub last_success_at: Option<UtcTimestamp>,
    pub last_result_ok: Option<bool>,
    pub last_error: Option<String>,
    pub pending_count: Option<i64>,
}

/// How long after its last success an environment counts as stale, from a
/// `STATS_SYNC_STALE_SECS` value: the number when it reads as one, else 300 seconds;
/// never below 30 seconds.
pub open spec fn stale_after_spec(raw: Option<Seq<char>>) -> int {
    let base = match raw {
        Some(v) => match parse_i64_spec(v) {
            Some(n) => n,
            None => 300,
        },
        None => 300,
    };
    if base < 30 {
        30
    } else {
        base
    }
}

/// Reads the `STATS_SYNC_STALE_SECS` setting.
pub fn stale_after_seconds_from(raw: Option<&str>) -> (r: i64)
    ensures
        r == stale_after_spec(opt_str_view(raw)),
{
    let base = match raw {
        Some(v) => match parse_i64(v) {
            Some(n) => n,
            None => 300,
        },
        None => 300,
    };
    if base < 30 {
        30
    } else {
        base
    }
}

/// Reads the `STATS_SYNC_STALE_SECS` setting when it is a threshold the staleness check
/// can use (a whole number of milliseconds that fits in an `i64`); none otherwise, where
/// chrono's `Duration::seconds` would stop the process.
pub fn usable_stale_after_seconds(raw: Option<&str>) -> (r: Option<i64>)
    ensures
        stale_after_spec(opt_str_view(raw)) <= i64::MAX / 1000 ==> r == Some(
            stale_after_spec(opt_str_view(raw)) as i64,
        ),
        stale_after_spec(opt_str_view(raw)) > i64::MAX / 1000 ==> r is None,
        r matches Some(s) ==> s <= i64::MAX / 1000,
{
    let s = stale_after_seconds_from(raw);
    if s <= i64::MAX / 1000 {
        Some(s)
    } else {
        None
    }
}

/// Whether an environment is stale at `now`: it never succeeded, or its last success is
/// more than `stale_after_seconds` ago.
pub open spec fn stale_spec(last_success_at: Option<UtcTimestamp>, now: UtcTimestamp, stale_after_seconds: i64) -> bool {
    match last_success_at {
        Some(last) => span_above(elapsed(last, now), stale_after_seconds as int),
        None => true,
    }
}

/// Whether an environment is stale at `now`. A threshold must be a whole number of
/// milliseconds that fits in an `i64`, as chrono's `Duration::seconds` asks.
pub fn is_stale(last_success_at: Option<UtcTimestamp>, now: UtcTimestamp, stale_after_seconds: i64) -> (r: bool)
    requires
        stale_after_seconds <= i64::MAX / 1000,
    ensures
        r == stale_spec(last_success_at, now, stale_after_seconds),
{
    match last_success_at {
        Some(last) => {
            let (secs, nanos) = elapsed_between(&last, &now);
            secs > stale_after_seconds || (secs == stale_after_seconds && nanos > 0)
        },
        None => true,
    }
}

/// The report of one environment of the statistics worker at `now`.
pub fn environment_health_body(
    stats: &EnvironmentSyncHealth,
    stale_after_seconds: i64,
    now: UtcTimestamp,
) -> (r: StatsSyncEnvironmentHealthBody)
    requires
        stale_after_seconds <= i64::MAX / 1000,
    ensures
        r.stale == stale_spec(stats.last_success_at, now, stale_after_seconds),
        r.last_started_at == stats.last_started_at,
        r.last_finished_at == stats.last_finished_at,
        r.last_success_at == stats.last_success_at,
        r.last_result_ok == stats.last_result_ok,
        r.last_error == stats.last_error,
        r.processed == stats.processed,
        r.online == stats.online,
        r.source_updated_at == stats.source_updated_at,
{
    StatsSyncEnvironmentHealthBody {
        stale: is_stale(stats.last_success_at, now, stale_after_seconds),
        last_started_at: stats.last_started_at,
        last_finished_at: stats.last_finished_at,
        last_success_at: stats.last_success_at,
        last_result_ok: stats.last_result_ok,
        last_error: clone_opt(&stats.last_error),
        processed: stats.processed,
        online: stats.online,
        source_updated_at: stats.source_updated_at,
    }
}

/// The report of an environment whose health record could not be read.
pub fn poisoned_health_body() -> (r: StatsSyncEnvironmentHealthBody)
    ensures
        r.stale,
        r.last_started_at is None && r.last_finished_at is None && r.last_success_at is None,
        r.last_result_ok is None,
        r.last_error matches Some(e) && e@ == "job health lock poisoned"@,
        r.processed is None && r.online is None && r.source_updated_at is None,
{
    StatsSyncEnvironmentHealthBody {
        stale: true,
        last_started_at: None,
        last_finished_at: None,
        last_success_at: None,
        last_result_ok: None,
        last_error: Some(owned("job health lock poisoned")),
        processed: None,
        online: None,
        source_updated_at: None,
    }
}

/// The report of the roster worker.
pub fn roster_health_body(stats: &JobHealthRecord<RosterSyncMetrics>) -> (r: RosterSyncHealthBody)
    ensures
        r.enabled == stats.enabled,
        r.last_started_at == stats.last_started_at,
        r.last_finished_at == stats.last_finished_at,
        r.last_success_at == stats.last_success_at,
        r.last_result_ok == stats.last_result_ok,
        r.last_error == stats.last_error,
        r.processed == stats.metrics.processed,
        r.matched == stats.metrics.matched,
        r.updated == stats.metrics.updated,
        r.demoted == stats.metrics.demoted,
        r.skipped == stats.metrics.skipped,
{
    RosterSyncHealthBody {
        enabled: stats.enabled,
        last_started_at: stats.last_started_at,
        last_finished_at: stats.last_finished_at,
        last_success_at: stats.last_success_at,
        last_result_ok: stats.last_result_ok,
        last_error: clone_opt(&stats.last_error),
        processed: stats.metrics.processed,
        matched: stats.metrics.matched,
        updated: stats.metrics.updated,
        demoted: stats.metrics.demoted,
        skipped: stats.metrics.skipped,
    }
}

/// The report of the roster worker when its health record could not be read.
pub fn poisoned_roster_health_body() -> (r: RosterSyncHealthBody)
    ensures
        !r.enabled,
        r.last_started_at is None && r.last_finished_at is None && r.last_success_at is None,
        r.last_result_ok is None,
        r.last_error matches Some(e) && e@ == "job health lock poisoned"@,
        r.processed is None && r.matched is None && r.updated is None && r.demoted is None
            && r.skipped is None,
{
    RosterSyncHealthBody {
        enabled: false,
        last_started_at: None,
        last_finished_at: None,
        last_success_at: None,
        last_result_ok: None,
        last_error: Some(owned("job health lock poisoned")),
        processed: None,
        matched: None,
        updated: None,
        demoted: None,
        skipped: None,
    }
}

/// The report of the e-mail worker.
pub fn email_health_body(stats: &JobHealthRecord<EmailWorkerMetrics>) -> (r: EmailWorkerHealthBody)
    ensures
        r.enabled == stats.enabled,
        r.last_started_at == stats.last_started_at,
        r.last_finished_at == stats.last_finished_at,
        r.last_success_at == stats.last_success_at,
        r.last_result_ok == stats.last_result_ok,
        r.last_error == stats.last_error,
        r.pending_count == stats.metrics.pending_count,
{
    EmailWorkerHealthBody {
        enabled: stats.enabled,
        last_started_at: stats.last_started_at,
        last_finished_at: stats.last_finished_at,
        last_success_at: stats.last_success_at,
        last_result_ok: stats.last_result_ok,
        last_error: clone_opt(&stats.last_error),
        pending_count: stats.metrics.pending_count,
    }
}

/// The report of the e-mail worker when its health record could not be read.
pub fn poisoned_email_health_body() -> (r: EmailWorkerHealthBody)
    ensures
        !r.enabled,
        r.last_started_at is None && r.last_finished_at is None && r.last_success_at is None,
        r.last_result_ok is None,
        r.last_error matches Some(e) && e@ == "email health lock poisoned"@,
        r.pending_count is None,
{
    EmailWorkerHealthBody {
        enabled: false,
        last_started_at: None,
        last_finished_at: None,
        last_success_at: None,
        last_result_ok: None,
        last_error: Some(owned("email health lock poisoned")),
        pending_count: None,
    }
}

/// The health of the statistics worker across its three environments.
#[derive(Debug)]
pub struct StatsSyncHealthBody {
    pub enabled: bool,
    pub stale_after_seconds: i64,
    pub live: StatsSyncEnvironmentHealthBody,
    pub sweatbox1: StatsSyncEnvironmentHealthBody,
    pub sweatbox2: StatsSyncEnvironmentHealthBody,
}

/// The health of every background job.
#[derive(Debug)]
pub struct JobsHealthBody {
    pub stats_sync: StatsSyncHealthBody,
    pub roster_sync: RosterSyncHealthBody,
    pub email_worker: EmailWorkerHealthBody,
}

/// The answer to a readiness probe.
#[derive(Debug)]
pub struct ReadyBody {
    pub status: &'static str,
    pub database: &'static str,
    pub docs: &'static str,
    pub jobs: JobsHealthBody,
}

/// The report of the statistics worker at `now`, from its record of each environment.
pub fn stats_sync_health_body(
    enabled: bool,
    live: &EnvironmentSyncHealth,
    sweatbox1: &EnvironmentSyncHealth,
    sweatbox2: &EnvironmentSyncHealth,
    stale_after_seconds: i64,
    now: UtcTimestamp,
) -> (r: StatsSyncHealthBody)
    requires
        stale_after_seconds <= i64::MAX / 1000,
    ensures
        r.enabled == enabled,
        r.stale_after_seconds == stale_after_seconds,
        r.live.stale == stale_spec(live.last_success_at, now, stale_after_seconds),
        r.sweatbox1.stale == stale_spec(sweatbox1.last_success_at, now, stale_after_seconds),
        r.sweatbox2.stale == stale_spec(sweatbox2.last_success_at, now, stale_after_seconds),
        r.live.last_success_at == live.last_success_at,
        r.sweatbox1.last_success_at == sweatbox1.last_success_at,
        r.sweatbox2.last_success_at == sweatbox2.last_success_at,
        r.live.last_error == live.last_error,
        r.sweatbox1.last_error == sweatbox1.last_error,
        r.sweatbox2.last_error == sweatbox2.last_error,
{
    StatsSyncHealthBody {
        enabled,
        stale_after_seconds,
        live: environment_health_body(live, stale_after_seconds, now),
        sweatbox1: environment_health_body(sweatbox1, stale_after_seconds, now),
        sweatbox2: environment_health_body(sweatbox2, stale_after_seconds, now),
    }
}

/// The report of the statistics worker when its health record could not be read: not
/// enabled, the default threshold of 300 seconds, and every environment poisoned.
pub fn poisoned_stats_sync_health_body() -> (r: StatsSyncHealthBody)
    ensures
        !r.enabled,
        r.stale_after_seconds == 300,
        r.live.stale && r.sweatbox1.stale && r.sweatbox2.stale,
        r.live.last_error matches Some(e) && e@ == "job health lock poisoned"@,
        r.sweatbox1.last_error matches Some(e) && e@ == "job health lock poisoned"@,
        r.sweatbox2.last_error matches Some(e) && e@ == "job health lock poisoned"@,
{
    StatsSyncHealthBody {
        enabled: false,
        stale_after_seconds: 300,
        live: poisoned_health_body(),
        sweatbox1: poisoned_health_body(),
        sweatbox2: poisoned_health_body(),
    }
}

/// The verdicts of a readiness probe: the service is `ready` when the database answers
/// and the live statistics are not stale while the worker is enabled, else `degraded`;
/// the database is `ready` when it answers.
pub fn readiness(database_ready: bool, stats_enabled: bool, live_stale: bool) -> (r: (&'static str, &'static str))
    ensures
        r.0@ == (if database_ready && !(stats_enabled && live_stale) {
            "ready"@
        } else {
            "degraded"@
        }),
        r.1@ == (if database_ready {
            "ready"@
        } else {
            "degraded"@
        }),
{
    let status = if database_ready && !(stats_enabled && live_stale) {
        "ready"
    } else {
        "degraded"
    };
    let database = if database_ready {
        "ready"
    } else {
        "degraded"
    };
    (status, database)
}

/// The answer to a readiness probe, from whether the database answered and the jobs'
/// reports: the verdicts of `readiness` on the statistics worker's live environment, and
/// the documentation always `ready`.
pub fn ready_body(database_ready: bool, jobs: JobsHealthBody) -> (r: ReadyBody)
    ensures
        r.status@ == (if database_ready && !(jobs.stats_sync.enabled && jobs.stats_sync.live.stale) {
            "ready"@
        } else {
            "degraded"@
        }),
        r.database@ == (if database_ready {
            "ready"@
        } else {
            "degraded"@
        }),
        r.docs@ == "ready"@,
        r.jobs == jobs,
{
    let (status, database) = readiness(database_ready, jobs.stats_sync.enabled, jobs.stats_sync.live.stale);
    ReadyBody { status, database, docs: "ready", jobs }
}

} // verus!
