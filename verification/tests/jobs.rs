use osmium::handlers::health::{
    email_health_body, environment_health_body, health_body, is_stale, poisoned_email_health_body,
    poisoned_health_body, poisoned_roster_health_body, poisoned_stats_sync_health_body, readiness,
    ready_body, roster_health_body, stale_after_seconds_from, stats_sync_health_body, JobsHealthBody,
    usable_stale_after_seconds,
};
use osmium::jobs::email_delivery::{email_tick_outcome, start_email_delivery_worker, EmailWorkerMetrics, Job};
use osmium::jobs::roster_sync::RosterSyncMetrics;
use osmium::jobs::stats_sync::{
    record_environment_result, record_environment_started, record_environment_unavailable,
    EnvironmentSyncHealth, EnvironmentSyncResult, StatsEnvironment,
};
use osmium::jobs::{record_tick_finished, record_tick_started, JobHealthRecord, TickOutcome};
use osmium::timestamp::UtcTimestamp;

fn t(secs: i64) -> UtcTimestamp {
    UtcTimestamp::new(secs, 0).unwrap()
}

fn email_record() -> JobHealthRecord<EmailWorkerMetrics> {
    JobHealthRecord {
        enabled: false,
        last_started_at: None,
        last_finished_at: None,
        last_success_at: None,
        last_result_ok: None,
        last_error: None,
        metrics: EmailWorkerMetrics { pending_count: None },
    }
}

#[test]
fn tick_bookkeeping() {
    let mut h = email_record();
    h.last_error = Some("old".to_string());
    record_tick_started(&mut h, t(10));
    assert_eq!(h.last_started_at, Some(t(10)));
    assert!(h.last_error.is_none());
    let outcome = TickOutcome::success(EmailWorkerMetrics { pending_count: Some(4) });
    record_tick_finished(&mut h, Ok(outcome), t(11), t(12));
    assert_eq!(h.last_finished_at, Some(t(11)));
    assert_eq!(h.last_success_at, Some(t(12)));
    assert_eq!(h.metrics.pending_count, Some(4));
    record_tick_finished(&mut h, Err("down".to_string()), t(20), t(21));
    assert_eq!(h.last_result_ok, Some(false));
    assert_eq!(h.last_success_at, Some(t(12)));
    assert_eq!(h.last_error.as_deref(), Some("down"));
    let degraded = TickOutcome::degraded(EmailWorkerMetrics { pending_count: None }, "slow".to_string());
    record_tick_finished(&mut h, Ok(degraded), t(30), t(31));
    assert_eq!(h.last_result_ok, Some(false));
    assert_eq!(h.last_success_at, Some(t(12)));
    assert_eq!(h.last_error.as_deref(), Some("slow"));
}

#[test]
fn email_worker_start_and_tick() {
    let mut h = email_record();
    let job = start_email_delivery_worker(&mut h, true, true, 30).expect("job should start");
    assert!(h.enabled);
    assert_eq!(job.interval_secs(), 30);
    assert_eq!(job.name(), "email_delivery");
    let mut h = email_record();
    assert!(start_email_delivery_worker(&mut h, true, false, 30).is_none());
    assert!(h.enabled);
    assert!(start_email_delivery_worker(&mut h, false, true, 30).is_none());
    assert!(!h.enabled);
    let ok = email_tick_outcome(Ok(()), Some(2)).unwrap();
    assert!(ok.ok && ok.metrics.pending_count == Some(2));
    assert_eq!(email_tick_outcome(Err("smtp".to_string()), Some(2)).err().as_deref(), Some("smtp"));
}

fn env_health() -> EnvironmentSyncHealth {
    EnvironmentSyncHealth {
        last_started_at: None,
        last_finished_at: None,
        last_success_at: None,
        last_result_ok: None,
        last_error: None,
        processed: None,
        online: None,
        source_updated_at: None,
    }
}

#[test]
fn environment_health_records() {
    let mut h = env_health();
    record_environment_started(&mut h, t(100));
    let result = EnvironmentSyncResult {
        environment: StatsEnvironment::Live,
        ok: true,
        processed: 7,
        online: 3,
        source_updated_at: Some(t(90)),
    };
    record_environment_result(&mut h, &result, t(101), t(102));
    assert_eq!(h.processed, Some(7));
    assert_eq!(h.last_success_at, Some(t(102)));
    record_environment_unavailable(&mut h, t(100), t(103));
    assert_eq!(h.last_result_ok, Some(false));
    assert_eq!(h.last_error.as_deref(), Some("database unavailable for stats sync"));
    let mut other = env_health();
    record_environment_started(&mut other, t(50));
    record_environment_unavailable(&mut other, t(100), t(103));
    assert_eq!(other.last_result_ok, None);
}

#[test]
fn health_reports() {
    assert_eq!(health_body().status, "ok");
    assert_eq!(stale_after_seconds_from(None), 300);
    assert_eq!(stale_after_seconds_from(Some("10")), 30);
    assert_eq!(stale_after_seconds_from(Some("600")), 600);
    assert!(is_stale(None, t(1000), 300));
    assert!(!is_stale(Some(t(800)), t(1000), 300));
    assert!(is_stale(Some(t(600)), t(1000), 300));
    assert!(!is_stale(Some(t(700)), t(1000), 300));
    let mut h = env_health();
    h.last_success_at = Some(t(990));
    h.online = Some(4);
    let body = environment_health_body(&h, 300, t(1000));
    assert!(!body.stale);
    assert_eq!(body.online, Some(4));
    assert!(poisoned_health_body().stale);
    assert_eq!(poisoned_roster_health_body().last_error.as_deref(), Some("job health lock poisoned"));
    assert_eq!(poisoned_email_health_body().last_error.as_deref(), Some("email health lock poisoned"));
    let roster = JobHealthRecord {
        enabled: true,
        last_started_at: None,
        last_finished_at: None,
        last_success_at: None,
        last_result_ok: Some(true),
        last_error: None,
        metrics: RosterSyncMetrics { processed: Some(1), matched: Some(1), updated: None, demoted: None, skipped: None },
    };
    let body = roster_health_body(&roster);
    assert!(body.enabled);
    assert_eq!(body.matched, Some(1));
    let mut e = email_record();
    e.metrics.pending_count = Some(9);
    assert_eq!(email_health_body(&e).pending_count, Some(9));
    assert_eq!(readiness(true, true, false), ("ready", "ready"));
    assert_eq!(readiness(true, true, true), ("degraded", "ready"));
    assert_eq!(readiness(true, false, true), ("ready", "ready"));
    assert_eq!(readiness(false, false, false), ("degraded", "degraded"));
}

#[test]
fn readiness_follows_live_statistics() {
    let mut live = env_health();
    live.last_success_at = Some(t(100));
    let mut fresh = env_health();
    fresh.last_success_at = Some(t(990));
    let stats = stats_sync_health_body(true, &live, &fresh, &env_health(), 300, t(1000));
    assert!(stats.enabled && stats.stale_after_seconds == 300);
    assert!(stats.live.stale && !stats.sweatbox1.stale && stats.sweatbox2.stale);
    let jobs = JobsHealthBody {
        stats_sync: stats,
        roster_sync: poisoned_roster_health_body(),
        email_worker: poisoned_email_health_body(),
    };
    let body = ready_body(true, jobs);
    assert_eq!((body.status, body.database, body.docs), ("degraded", "ready", "ready"));
    let poisoned = poisoned_stats_sync_health_body();
    assert!(!poisoned.enabled && poisoned.stale_after_seconds == 300 && poisoned.live.stale);
    let jobs = JobsHealthBody {
        stats_sync: poisoned,
        roster_sync: poisoned_roster_health_body(),
        email_worker: poisoned_email_health_body(),
    };
    let body = ready_body(true, jobs);
    assert_eq!((body.status, body.database), ("ready", "ready"));
    assert_eq!(body.jobs.stats_sync.sweatbox2.last_error.as_deref(), Some("job health lock poisoned"));
}

#[test]
fn stale_threshold_must_fit_a_duration() {
    assert_eq!(usable_stale_after_seconds(None), Some(300));
    assert_eq!(usable_stale_after_seconds(Some("9223372036854775")), Some(9223372036854775));
    assert_eq!(usable_stale_after_seconds(Some("9223372036854776")), None);
}
