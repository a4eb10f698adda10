//! Controller statistics from the vNAS controller feeds: which environments exist, how a
//! poll of a feed is matched against the sessions and position activations still open,
//! the lifecycle events a poll emits, and how time online is split into monthly rollups.
use vstd::prelude::*;

use crate::error::ApiError;
use crate::text::{clone_opt, 
    is_ws, lemma_plain_lower_text,
    is_key_matching, keyed_before, last_of_key, match_keys, matched_entries_are_taken_once_or_left, taken_by, parse_i64, parse_i64_spec, repeats_earlier,
    stable_order_by_text, views_of, i64_to_decimal, lower, opt_str_view, owned, parse_unsigned, parse_unsigned_max,
    signed_decimal, str_eq, to_ascii_lowercase, trim, trimmed,
};
use crate::timestamp::{
    chrono_elapsed, chrono_month, chrono_month_start, chrono_year, elapsed_between, instant_parts,
    is_before, month_start, year_and_month, UtcTimestamp,
};

verus! {

pub const DEFAULT_SYNC_INTERVAL_SECS: u64 = 5;

/// The ARTCC whose controllers are watched.
pub const TARGET_ARTCC_ID: &'static str = "ZDC";

// ---------------------------------------------------------------------------
// Environments
// ---------------------------------------------------------------------------

/// A vNAS environment with a controller feed of its own.
#[derive(Debug, Clone, Copy, PartialEq, Eq, Structural)]
pub enum StatsEnvironment {
    Live,
    Sweatbox1,
    Sweatbox2,
}

/// The name of an environment, as stored and as accepted in queries.
pub open spec fn environment_text(env: StatsEnvironment) -> Seq<char> {
    match env {
        StatsEnvironment::Live => "live"@,
        StatsEnvironment::Sweatbox1 => "sweatbox1"@,
        StatsEnvironment::Sweatbox2 => "sweatbox2"@,
    }
}

/// The public feed of an environment, used when no URL is configured for it.
pub open spec fn default_feed_url(env: StatsEnvironment) -> Seq<char> {
    match env {
        StatsEnvironment::Live => "https://live.env.vnas.vatsim.net/data-feed/controllers.json"@,
        StatsEnvironment::Sweatbox1 => "https://sweatbox1.env.vnas.vatsim.net/data-feed/controllers.json"@,
        StatsEnvironment::Sweatbox2 => "https://sweatbox2.env.vnas.vatsim.net/data-feed/controllers.json"@,
    }
}

impl StatsEnvironment {
    /// Every environment, in the order they are polled.
    pub fn all() -> (r: [StatsEnvironment; 3])
        ensures
            r@ == seq![StatsEnvironment::Live, StatsEnvironment::Sweatbox1, StatsEnvironment::Sweatbox2],
    {
        [StatsEnvironment::Live, StatsEnvironment::Sweatbox1, StatsEnvironment::Sweatbox2]
    }

    /// The name of the environment.
    pub fn as_str(self) -> (r: &'static str)
        ensures
            r@ == environment_text(self),
    {
        match self {
            StatsEnvironment::Live => "live",
            StatsEnvironment::Sweatbox1 => "sweatbox1",
            StatsEnvironment::Sweatbox2 => "sweatbox2",
        }
    }

    /// The setting that overrides the feed URL of the environment.
    pub fn endpoint_setting(self) -> (r: &'static str)
        ensures
            r@ == match self {
                StatsEnvironment::Live => "VNAS_CONTROLLER_FEED_URL_LIVE"@,
                StatsEnvironment::Sweatbox1 => "VNAS_CONTROLLER_FEED_URL_SWEATBOX1"@,
                StatsEnvironment::Sweatbox2 => "VNAS_CONTROLLER_FEED_URL_SWEATBOX2"@,
            },
    {
        match self {
            StatsEnvironment::Live => "VNAS_CONTROLLER_FEED_URL_LIVE",
            StatsEnvironment::Sweatbox1 => "VNAS_CONTROLLER_FEED_URL_SWEATBOX1",
            StatsEnvironment::Sweatbox2 => "VNAS_CONTROLLER_FEED_URL_SWEATBOX2",
        }
    }

    /// The feed URL of the environment: the configured one when its setting is present,
    /// else the public feed.
    pub fn endpoint_url(self, configured: Option<&str>) -> (r: String)
        ensures
            r@ == match configured {
                Some(url) => url@,
                None => default_feed_url(self),
            },
    {
        match configured {
            Some(url) => owned(url),
            None => match self {
                StatsEnvironment::Live => owned(
                    "https://live.env.vnas.vatsim.net/data-feed/controllers.json",
                ),
                StatsEnvironment::Sweatbox1 => owned(
                    "https://sweatbox1.env.vnas.vatsim.net/data-feed/controllers.json",
                ),
                StatsEnvironment::Sweatbox2 => owned(
                    "https://sweatbox2.env.vnas.vatsim.net/data-feed/controllers.json",
                ),
            },
        }
    }
}

/// The environment a name denotes.
pub open spec fn environment_named(name: Seq<char>) -> Option<StatsEnvironment> {
    if name == "live"@ {
        Some(StatsEnvironment::Live)
    } else if name == "sweatbox1"@ {
        Some(StatsEnvironment::Sweatbox1)
    } else if name == "sweatbox2"@ {
        Some(StatsEnvironment::Sweatbox2)
    } else {
        None
    }
}

/// The environment an `environment` query value asks for: trimmed and lower-cased, the
/// live environment when absent.
pub open spec fn requested_environment(value: Option<Seq<char>>) -> Option<StatsEnvironment> {
    environment_named(
        lower(
            trimmed(
                match value {
                    Some(v) => v,
                    None => "live"@,
                },
            ),
        ),
    )
}

/// An environment's name reads back as that environment.
pub proof fn environment_name_round_trip(env: StatsEnvironment)
    ensures
        requested_environment(Some(environment_text(env))) == Some(env),
{
    reveal_strlit("live");
    reveal_strlit("sweatbox1");
    reveal_strlit("sweatbox2");
    let s = environment_text(env);
    assert(!is_ws(s[0]) && !is_ws(s[s.len() - 1]));
    assert(forall|k: int| 0 <= k < s.len() ==> !('A' <= #[trigger] s[k] && s[k] <= 'Z'));
    lemma_plain_lower_text(s);
}

/// Reads an `environment` query value; an unknown name is a bad request.
pub fn parse_environment(value: Option<&str>) -> (r: Result<StatsEnvironment, ApiError>)
    ensures
        match requested_environment(opt_str_view(value)) {
            Some(env) => r == Ok::<StatsEnvironment, ApiError>(env),
            None => r == Err::<StatsEnvironment, ApiError>(ApiError::BadRequest),
        },
{
    let raw = match value {
        Some(v) => v,
        None => "live",
    };
    let name = to_ascii_lowercase(trim(raw));
    if str_eq(name.as_str(), "live") {
        Ok(StatsEnvironment::Live)
    } else if str_eq(name.as_str(), "sweatbox1") {
        Ok(StatsEnvironment::Sweatbox1)
    } else if str_eq(name.as_str(), "sweatbox2") {
        Ok(StatsEnvironment::Sweatbox2)
    } else {
        Err(ApiError::BadRequest)
    }
}

// ---------------------------------------------------------------------------
// Worker settings
// ---------------------------------------------------------------------------

/// Whether a `STATS_SYNC_ENABLED` value turns the worker on: `1`, `true`, `yes` or `on`
/// after trimming, in any case; an absent value does too.
pub open spec fn stats_sync_enabled_spec(raw: Option<Seq<char>>) -> bool {
    match raw {
        None => true,
        Some(v) => {
            let t = lower(trimmed(v));
            t == "1"@ || t == "true"@ || t == "yes"@ || t == "on"@
        },
    }
}

/// Reads the `STATS_SYNC_ENABLED` setting.
pub fn stats_sync_enabled_from(raw: Option<&str>) -> (r: bool)
    ensures
        r == stats_sync_enabled_spec(opt_str_view(raw)),
{
    match raw {
        None => true,
        Some(value) => {
            let t = to_ascii_lowercase(trim(value));
            let t = t.as_str();
            str_eq(t, "1") || str_eq(t, "true") || str_eq(t, "yes") || str_eq(t, "on")
        },
    }
}

/// The poll interval a `STATS_SYNC_INTERVAL_SECS` value gives: the number when it reads
/// as one, else 5 seconds; never below 5 seconds.
pub open spec fn stats_sync_interval_spec(raw: Option<Seq<char>>) -> int {
    let base = match raw {
        Some(v) => match parse_unsigned(v, u64::MAX as int) {
            Some(n) => n,
            None => 5,
        },
        None => 5,
    };
    if base < 5 {
        5
    } else {
        base
    }
}

/// Reads the `STATS_SYNC_INTERVAL_SECS` setting.
pub fn stats_sync_interval_from(raw: Option<&str>) -> (r: u64)
    ensures
        r as int == stats_sync_interval_spec(opt_str_view(raw)),
{
    let base = match raw {
        Some(value) => match parse_unsigned_max(value, u64::MAX) {
            Some(n) => n,
            None => DEFAULT_SYNC_INTERVAL_SECS,
        },
        None => DEFAULT_SYNC_INTERVAL_SECS,
    };
    if base < 5 {
        5
    } else {
        base
    }
}

// ---------------------------------------------------------------------------
// Position kinds and rollup columns
// ---------------------------------------------------------------------------

/// The column of the monthly rollup that time on a position counts toward.
#[derive(Debug, Clone, Copy, PartialEq, Eq, Structural)]
pub enum PositionBucket {
    Delivery,
    Ground,
    Tower,
    Tracon,
    Center,
    Unknown,
}

/// The bucket of a vNAS position type.
pub open spec fn position_bucket(value: Seq<char>) -> PositionBucket {
    if value == "Delivery"@ || value == "ClearanceDelivery"@ {
        PositionBucket::Delivery
    } else if value == "Ground"@ {
        PositionBucket::Ground
    } else if value == "Tower"@ {
        PositionBucket::Tower
    } else if value == "Tracon"@ || value == "ApproachDeparture"@ {
        PositionBucket::Tracon
    } else if value == "Artcc"@ || value == "Center"@ {
        PositionBucket::Center
    } else {
        PositionBucket::Unknown
    }
}

/// Sorts a vNAS position type into its rollup bucket.
pub fn map_position_type(value: &str) -> (r: PositionBucket)
    ensures
        r == position_bucket(value@),
{
    if str_eq(value, "Delivery") || str_eq(value, "ClearanceDelivery") {
        PositionBucket::Delivery
    } else if str_eq(value, "Ground") {
        PositionBucket::Ground
    } else if str_eq(value, "Tower") {
        PositionBucket::Tower
    } else if str_eq(value, "Tracon") || str_eq(value, "ApproachDeparture") {
        PositionBucket::Tracon
    } else if str_eq(value, "Artcc") || str_eq(value, "Center") {
        PositionBucket::Center
    } else {
        PositionBucket::Unknown
    }
}

/// The vNAS position types and the rollup columns their time counts toward: `Delivery`
/// and `ClearanceDelivery` are delivery (column 1), `Ground` ground (2), `Tower` tower
/// (3), `Tracon` and `ApproachDeparture` TRACON (4), `Artcc` and `Center` center (5);
/// any other type is unknown and counts in no column.
pub proof fn position_type_table(t: Seq<char>)
    ensures
        (position_bucket(t) == PositionBucket::Delivery) <==> (t == "Delivery"@ || t == "ClearanceDelivery"@),
        (position_bucket(t) == PositionBucket::Ground) <==> t == "Ground"@,
        (position_bucket(t) == PositionBucket::Tower) <==> t == "Tower"@,
        (position_bucket(t) == PositionBucket::Tracon) <==> (t == "Tracon"@ || t == "ApproachDeparture"@),
        (position_bucket(t) == PositionBucket::Center) <==> (t == "Artcc"@ || t == "Center"@),
        (position_bucket(t) == PositionBucket::Unknown) <==> !(t == "Delivery"@ || t == "ClearanceDelivery"@
            || t == "Ground"@ || t == "Tower"@ || t == "Tracon"@ || t == "ApproachDeparture"@ || t
            == "Artcc"@ || t == "Center"@),
{
    reveal_strlit("Delivery");
    reveal_strlit("ClearanceDelivery");
    reveal_strlit("Ground");
    reveal_strlit("Tower");
    reveal_strlit("Tracon");
    reveal_strlit("ApproachDeparture");
    reveal_strlit("Artcc");
    reveal_strlit("Center");
    let names = seq![
        "Delivery"@,
        "ClearanceDelivery"@,
        "Ground"@,
        "Tower"@,
        "Tracon"@,
        "ApproachDeparture"@,
        "Artcc"@,
        "Center"@,
    ];
    assert forall|a: int, b: int| 0 <= a < b < 8 implies #[trigger] names[a] != #[trigger] names[b] by {
        assert(names[a][0] != names[b][0] || names[a][1] != names[b][1]);
    }
    assert(names[0] != names[1] && names[0] != names[2] && names[0] != names[3] && names[0] != names[4]);
    assert(names[0] != names[5] && names[0] != names[6] && names[0] != names[7]);
    assert(names[1] != names[2] && names[1] != names[3] && names[1] != names[4] && names[1] != names[5]);
    assert(names[1] != names[6] && names[1] != names[7] && names[2] != names[3] && names[2] != names[4]);
    assert(names[2] != names[5] && names[2] != names[6] && names[2] != names[7] && names[3] != names[4]);
    assert(names[3] != names[5] && names[3] != names[6] && names[3] != names[7] && names[4] != names[5]);
    assert(names[4] != names[6] && names[4] != names[7] && names[5] != names[6] && names[5] != names[7]);
    assert(names[6] != names[7]);
}

/// What a stretch of time is counted as: time online, or time on a position of a type.
pub enum RollupKind<'a> {
    Online,
    Position(&'a str),
}

/// The six rollup columns, in order: online, delivery, ground, tower, tracon, center.
#[derive(Debug, Clone, Copy, PartialEq, Eq, Structural)]
pub struct RollupColumns {
    pub online_seconds: i64,
    pub delivery_seconds: i64,
    pub ground_seconds: i64,
    pub tower_seconds: i64,
    pub tracon_seconds: i64,
    pub center_seconds: i64,
}

/// The column that a kind of time counts toward: 0 for online, 1 to 5 for the position
/// buckets, none for a position of unknown type.
pub open spec fn rollup_column(kind: RollupKind) -> Option<int> {
    match kind {
        RollupKind::Online => Some(0),
        RollupKind::Position(t) => match position_bucket(t@) {
            PositionBucket::Delivery => Some(1),
            PositionBucket::Ground => Some(2),
            PositionBucket::Tower => Some(3),
            PositionBucket::Tracon => Some(4),
            PositionBucket::Center => Some(5),
            PositionBucket::Unknown => None,
        },
    }
}

/// The rollup column each kind of time counts toward: online time in column 0, and time
/// on a position by the table of `position_type_table` (delivery 1, ground 2, tower 3,
/// TRACON 4, center 5); time on a position of unknown type in none.
pub proof fn rollup_column_table(kind: RollupKind)
    ensures
        (rollup_column(kind) == Some(0int)) <==> kind is Online,
        (rollup_column(kind) == Some(1int)) <==> (kind matches RollupKind::Position(t) && (t@ == "Delivery"@
            || t@ == "ClearanceDelivery"@)),
        (rollup_column(kind) == Some(2int)) <==> (kind matches RollupKind::Position(t) && t@ == "Ground"@),
        (rollup_column(kind) == Some(3int)) <==> (kind matches RollupKind::Position(t) && t@ == "Tower"@),
        (rollup_column(kind) == Some(4int)) <==> (kind matches RollupKind::Position(t) && (t@ == "Tracon"@
            || t@ == "ApproachDeparture"@)),
        (rollup_column(kind) == Some(5int)) <==> (kind matches RollupKind::Position(t) && (t@ == "Artcc"@
            || t@ == "Center"@)),
{
    if let RollupKind::Position(t) = kind {
        position_type_table(t@);
    }
}


/// The columns as a sequence, online first.
pub open spec fn columns_seq(c: RollupColumns) -> Seq<i64> {
    seq![
        c.online_seconds,
        c.delivery_seconds,
        c.ground_seconds,
        c.tower_seconds,
        c.tracon_seconds,
        c.center_seconds,
    ]
}

/// The rollup increments for `seconds` of one kind of time: the seconds in the kind's
/// column and zero elsewhere.
pub fn rollup_columns(kind: &RollupKind, seconds: i64) -> (r: RollupColumns)
    ensures
        forall|k: int|
            0 <= k < 6 ==> #[trigger] columns_seq(r)[k] == (if rollup_column(*kind) == Some(k) {
                seconds
            } else {
                0
            }),
{
    let bucket = match kind {
        RollupKind::Online => None,
        RollupKind::Position(t) => Some(map_position_type(t)),
    };
    let z: i64 = 0;
    match bucket {
        None => RollupColumns {
            online_seconds: seconds,
            delivery_seconds: z,
            ground_seconds: z,
            tower_seconds: z,
            tracon_seconds: z,
            center_seconds: z,
        },
        Some(PositionBucket::Delivery) => RollupColumns {
            online_seconds: z,
            delivery_seconds: seconds,
            ground_seconds: z,
            tower_seconds: z,
            tracon_seconds: z,
            center_seconds: z,
        },
        Some(PositionBucket::Ground) => RollupColumns {
            online_seconds: z,
            delivery_seconds: z,
            ground_seconds: seconds,
            tower_seconds: z,
            tracon_seconds: z,
            center_seconds: z,
        },
        Some(PositionBucket::Tower) => RollupColumns {
            online_seconds: z,
            delivery_seconds: z,
            ground_seconds: z,
            tower_seconds: seconds,
            tracon_seconds: z,
            center_seconds: z,
        },
        Some(PositionBucket::Tracon) => RollupColumns {
            online_seconds: z,
            delivery_seconds: z,
            ground_seconds: z,
            tower_seconds: z,
            tracon_seconds: seconds,
            center_seconds: z,
        },
        Some(PositionBucket::Center) => RollupColumns {
            online_seconds: z,
            delivery_seconds: z,
            ground_seconds: z,
            tower_seconds: z,
            tracon_seconds: z,
            center_seconds: seconds,
        },
        Some(PositionBucket::Unknown) => RollupColumns {
            online_seconds: z,
            delivery_seconds: z,
            ground_seconds: z,
            tower_seconds: z,
            tracon_seconds: z,
            center_seconds: z,
        },
    }
}

// ---------------------------------------------------------------------------
// Session keys
// ---------------------------------------------------------------------------

/// The key that ties a feed entry to an open session: the CID and the feed's raw login
/// time, as `cid:login_time`.
pub open spec fn session_key_spec(cid: int, login_time_raw: Seq<char>) -> Seq<char> {
    signed_decimal(cid) + ":"@ + login_time_raw
}

/// Builds the key of a session.
pub fn session_key(cid: i64, login_time_raw: &str) -> (r: String)
    ensures
        r@ == session_key_spec(cid as int, login_time_raw@),
{
    let mut out = i64_to_decimal(cid);
    out.append(":");
    out.append(login_time_raw);
    out
}

// ---------------------------------------------------------------------------
// Sessions, activations and lifecycle events
// ---------------------------------------------------------------------------

/// A controller's session in an environment, as the events about it describe it.
#[derive(Debug)]
pub struct SessionRecord {
    pub id: String,
    pub environment: String,
    pub artcc_id: String,
    pub cid: i64,
    pub user_id: Option<String>,
    pub real_name: Option<String>,
    pub role: Option<String>,
    pub user_rating: Option<String>,
    pub requested_rating: Option<String>,
    pub primary_facility_id: Option<String>,
    pub primary_position_id: Option<String>,
}

/// A stretch of time on one position within a session that has not ended yet.
#[derive(Debug)]
pub struct OpenActivation {
    pub id: String,
    pub environment: String,
    pub cid: i64,
    pub position_id: String,
    pub facility_id: Option<String>,
    pub facility_name: String,
    pub position_name: String,
    pub position_type: String,
    pub radio_name: Option<String>,
    pub default_callsign: Option<String>,
    pub frequency: Option<i64>,
    pub is_primary: bool,
    pub started_at: UtcTimestamp,
}

/// A controller logging on or off.
#[derive(Debug)]
pub struct ControllerSessionEvent {
    pub environment: String,
    pub artcc_id: String,
    pub cid: i64,
    pub user_id: Option<String>,
    pub session_id: String,
    pub occurred_at: UtcTimestamp,
    pub real_name: Option<String>,
    pub role: Option<String>,
    pub user_rating: Option<String>,
    pub requested_rating: Option<String>,
    pub primary_facility_id: Option<String>,
    pub primary_position_id: Option<String>,
}

/// A controller opening or closing a position.
#[derive(Debug)]
pub struct ControllerPositionEvent {
    pub environment: String,
    pub artcc_id: String,
    pub cid: i64,
    pub user_id: Option<String>,
    pub session_id: String,
    pub activation_id: String,
    pub occurred_at: UtcTimestamp,
    pub real_name: Option<String>,
    pub role: Option<String>,
    pub user_rating: Option<String>,
    pub requested_rating: Option<String>,
    pub position_id: String,
    pub facility_id: Option<String>,
    pub facility_name: String,
    pub position_name: String,
    pub position_type: String,
    pub radio_name: Option<String>,
    pub default_callsign: Option<String>,
    pub frequency: Option<i64>,
    pub is_primary: bool,
}

/// Something that happened to a controller between two polls of a feed.
#[derive(Debug)]
pub enum ControllerLifecycleEvent {
    ControllerLoggedOn(ControllerSessionEvent),
    ControllerLoggedOff(ControllerSessionEvent),
    PositionActivated(ControllerPositionEvent),
    PositionDeactivated(ControllerPositionEvent),
}

/// The name of an event's kind, as stored with it.
pub open spec fn event_type_text(event: ControllerLifecycleEvent) -> Seq<char> {
    match event {
        ControllerLifecycleEvent::ControllerLoggedOn(_) => "controller_logged_on"@,
        ControllerLifecycleEvent::ControllerLoggedOff(_) => "controller_logged_off"@,
        ControllerLifecycleEvent::PositionActivated(_) => "position_activated"@,
        ControllerLifecycleEvent::PositionDeactivated(_) => "position_deactivated"@,
    }
}

/// The fields that every event has: environment, CID, user, session and time.
pub open spec fn event_common(event: ControllerLifecycleEvent) -> (Seq<char>, i64, Option<String>, Seq<char>, UtcTimestamp) {
    match event {
        ControllerLifecycleEvent::ControllerLoggedOn(e) | ControllerLifecycleEvent::ControllerLoggedOff(e) => (
            e.environment@,
            e.cid,
            e.user_id,
            e.session_id@,
            e.occurred_at,
        ),
        ControllerLifecycleEvent::PositionActivated(e) | ControllerLifecycleEvent::PositionDeactivated(e) => (
            e.environment@,
            e.cid,
            e.user_id,
            e.session_id@,
            e.occurred_at,
        ),
    }
}

impl ControllerLifecycleEvent {
    /// The name of the event's kind.
    pub fn event_type(&self) -> (r: &'static str)
        ensures
            r@ == event_type_text(*self),
    {
        match self {
            ControllerLifecycleEvent::ControllerLoggedOn(_) => "controller_logged_on",
            ControllerLifecycleEvent::ControllerLoggedOff(_) => "controller_logged_off",
            ControllerLifecycleEvent::PositionActivated(_) => "position_activated",
            ControllerLifecycleEvent::PositionDeactivated(_) => "position_deactivated",
        }
    }

    /// The environment the event happened in.
    pub fn environment(&self) -> (r: &str)
        ensures
            r@ == event_common(*self).0,
    {
        match self {
            ControllerLifecycleEvent::ControllerLoggedOn(e) => e.environment.as_str(),
            ControllerLifecycleEvent::ControllerLoggedOff(e) => e.environment.as_str(),
            ControllerLifecycleEvent::PositionActivated(e) => e.environment.as_str(),
            ControllerLifecycleEvent::PositionDeactivated(e) => e.environment.as_str(),
        }
    }

    /// The controller's CID.
    pub fn cid(&self) -> (r: i64)
        ensures
            r == event_common(*self).1,
    {
        match self {
            ControllerLifecycleEvent::ControllerLoggedOn(e) => e.cid,
            ControllerLifecycleEvent::ControllerLoggedOff(e) => e.cid,
            ControllerLifecycleEvent::PositionActivated(e) => e.cid,
            ControllerLifecycleEvent::PositionDeactivated(e) => e.cid,
        }
    }

    /// The local user the controller is, when known.
    pub fn user_id(&self) -> (r: Option<&str>)
        ensures
            opt_str_view(r) == crate::text::opt_view(event_common(*self).2),
    {
        let id = match self {
            ControllerLifecycleEvent::ControllerLoggedOn(e) => &e.user_id,
            ControllerLifecycleEvent::ControllerLoggedOff(e) => &e.user_id,
            ControllerLifecycleEvent::PositionActivated(e) => &e.user_id,
            ControllerLifecycleEvent::PositionDeactivated(e) => &e.user_id,
        };
        match id {
            Some(s) => Some(s.as_str()),
            None => None,
        }
    }

    /// The session the event belongs to.
    pub fn session_id(&self) -> (r: &str)
        ensures
            r@ == event_common(*self).3,
    {
        match self {
            ControllerLifecycleEvent::ControllerLoggedOn(e) => e.session_id.as_str(),
            ControllerLifecycleEvent::ControllerLoggedOff(e) => e.session_id.as_str(),
            ControllerLifecycleEvent::PositionActivated(e) => e.session_id.as_str(),
            ControllerLifecycleEvent::PositionDeactivated(e) => e.session_id.as_str(),
        }
    }

    /// The activation a position event belongs to; none for a session event.
    pub fn activation_id(&self) -> (r: Option<&str>)
        ensures
            opt_str_view(r) == match *self {
                ControllerLifecycleEvent::PositionActivated(e) => Some(e.activation_id@),
                ControllerLifecycleEvent::PositionDeactivated(e) => Some(e.activation_id@),
                _ => None,
            },
    {
        match self {
            ControllerLifecycleEvent::PositionActivated(e) => Some(e.activation_id.as_str()),
            ControllerLifecycleEvent::PositionDeactivated(e) => Some(e.activation_id.as_str()),
            _ => None,
        }
    }

    /// When the event happened.
    pub fn occurred_at(&self) -> (r: UtcTimestamp)
        ensures
            r == event_common(*self).4,
    {
        match self {
            ControllerLifecycleEvent::ControllerLoggedOn(e) => e.occurred_at,
            ControllerLifecycleEvent::ControllerLoggedOff(e) => e.occurred_at,
            ControllerLifecycleEvent::PositionActivated(e) => e.occurred_at,
            ControllerLifecycleEvent::PositionDeactivated(e) => e.occurred_at,
        }
    }
}

/// The event of a session starting or ending at `occurred_at`.
pub fn build_session_event(session: &SessionRecord, occurred_at: UtcTimestamp) -> (r: ControllerSessionEvent)
    ensures
        r.environment == session.environment,
        r.artcc_id == session.artcc_id,
        r.cid == session.cid,
        r.user_id == session.user_id,
        r.session_id == session.id,
        r.occurred_at == occurred_at,
        r.real_name == session.real_name,
        r.role == session.role,
        r.user_rating == session.user_rating,
        r.requested_rating == session.requested_rating,
        r.primary_facility_id == session.primary_facility_id,
        r.primary_position_id == session.primary_position_id,
{
    ControllerSessionEvent {
        environment: session.environment.clone(),
        artcc_id: session.artcc_id.clone(),
        cid: session.cid,
        user_id: clone_opt(&session.user_id),
        session_id: session.id.clone(),
        occurred_at,
        real_name: clone_opt(&session.real_name),
        role: clone_opt(&session.role),
        user_rating: clone_opt(&session.user_rating),
        requested_rating: clone_opt(&session.requested_rating),
        primary_facility_id: clone_opt(&session.primary_facility_id),
        primary_position_id: clone_opt(&session.primary_position_id),
    }
}

/// The event of an activation starting or ending at `occurred_at`: the controller from the
/// session, the position from the activation.
pub fn build_position_event(
    session: &SessionRecord,
    activation: &OpenActivation,
    occurred_at: UtcTimestamp,
) -> (r: ControllerPositionEvent)
    ensures
        r.environment == session.environment,
        r.artcc_id == session.artcc_id,
        r.cid == session.cid,
        r.user_id == session.user_id,
        r.session_id == session.id,
        r.activation_id == activation.id,
        r.occurred_at == occurred_at,
        r.real_name == session.real_name,
        r.role == session.role,
        r.user_rating == session.user_rating,
        r.requested_rating == session.requested_rating,
        r.position_id == activation.position_id,
        r.facility_id == activation.facility_id,
        r.facility_name == activation.facility_name,
        r.position_name == activation.position_name,
        r.position_type == activation.position_type,
        r.radio_name == activation.radio_name,
        r.default_callsign == activation.default_callsign,
        r.frequency == activation.frequency,
        r.is_primary == activation.is_primary,
{
    ControllerPositionEvent {
        environment: session.environment.clone(),
        artcc_id: session.artcc_id.clone(),
        cid: session.cid,
        user_id: clone_opt(&session.user_id),
        session_id: session.id.clone(),
        activation_id: activation.id.clone(),
        occurred_at,
        real_name: clone_opt(&session.real_name),
        role: clone_opt(&session.role),
        user_rating: clone_opt(&session.user_rating),
        requested_rating: clone_opt(&session.requested_rating),
        position_id: activation.position_id.clone(),
        facility_id: clone_opt(&activation.facility_id),
        facility_name: activation.facility_name.clone(),
        position_name: activation.position_name.clone(),
        position_type: activation.position_type.clone(),
        radio_name: clone_opt(&activation.radio_name),
        default_callsign: clone_opt(&activation.default_callsign),
        frequency: activation.frequency,
        is_primary: activation.is_primary,
    }
}

// ---------------------------------------------------------------------------
// Monthly segments
// ---------------------------------------------------------------------------

/// The part of a stretch of time that falls in one calendar month: its year, its month
/// counted from 0, and its whole seconds.
#[derive(Debug, Clone, Copy, PartialEq, Eq, Structural)]
pub struct MonthlySegment {
    pub year: i32,
    pub month0: i32,
    pub seconds: i64,
}

/// An instant as its seconds and nanoseconds.
pub open spec fn parts(t: UtcTimestamp) -> (i64, u32) {
    (t.spec_secs(), t.spec_nanos())
}

/// Whether one instant, given by its parts, is strictly earlier than another.
pub open spec fn parts_lt(a: (i64, u32), b: (i64, u32)) -> bool {
    a.0 < b.0 || (a.0 == b.0 && a.1 < b.1)
}

/// A number that orders instants as time does.
pub open spec fn parts_key(a: (i64, u32)) -> int {
    a.0 * 4294967296 + a.1
}

/// Earlier instants have smaller keys.
pub proof fn lemma_parts_key(a: (i64, u32), b: (i64, u32))
    ensures
        parts_lt(a, b) ==> parts_key(a) < parts_key(b),
        !parts_lt(b, a) ==> parts_key(a) <= parts_key(b),
{
}

/// Midnight on the first day of the month after the one an instant falls in.
pub open spec fn next_month_start(c: (i64, u32)) -> Option<(i64, u32)> {
    let y = chrono_year(c.0, c.1);
    let m = chrono_month(c.0, c.1);
    if m == 12 {
        chrono_month_start((y + 1) as i32, 1)
    } else {
        chrono_month_start(y, (m + 1) as u32)
    }
}

/// Where the segment that starts at `c` ends, for a stretch ending at `e`: the start of
/// the next month when that comes before `e`, else `e`. In the last month chrono can
/// represent there is no next month, and the segment runs to `e`.
pub open spec fn segment_end(c: (i64, u32), e: (i64, u32)) -> (i64, u32) {
    match next_month_start(c) {
        Some(n) => if parts_lt(n, e) && parts_lt(c, n) {
            n
        } else {
            e
        },
        None => e,
    }
}

/// The monthly segments of the stretch from `c` to `e`, earliest first; a month in which
/// the stretch has no whole second gives none.
pub open spec fn segments_between(c: (i64, u32), e: (i64, u32)) -> Seq<MonthlySegment>
    decreases parts_key(e) - parts_key(c),
{
    if !parts_lt(c, e) {
        Seq::empty()
    } else {
        let s = segment_end(c, e);
        proof {
            lemma_parts_key(c, s);
            lemma_parts_key(s, e);
        }
        let secs = chrono_elapsed(c.0, c.1, s.0, s.1).0;
        let rest = segments_between(s, e);
        if secs > 0 {
            seq![
                MonthlySegment {
                    year: chrono_year(c.0, c.1),
                    month0: (chrono_month(c.0, c.1) - 1) as i32,
                    seconds: secs,
                },
            ] + rest
        } else {
            rest
        }
    }
}

/// Every monthly segment of a stretch holds at least one whole second.
pub proof fn monthly_segments_are_nonempty(c: (i64, u32), e: (i64, u32))
    ensures
        forall|k: int| 0 <= k < segments_between(c, e).len() ==> #[trigger] segments_between(c, e)[k].seconds > 0,
    decreases parts_key(e) - parts_key(c),
{
    if parts_lt(c, e) {
        let s = segment_end(c, e);
        lemma_parts_key(c, s);
        lemma_parts_key(s, e);
        monthly_segments_are_nonempty(s, e);
        let secs = chrono_elapsed(c.0, c.1, s.0, s.1).0;
        let rest = segments_between(s, e);
        if secs > 0 {
            let head = seq![
                MonthlySegment {
                    year: chrono_year(c.0, c.1),
                    month0: (chrono_month(c.0, c.1) - 1) as i32,
                    seconds: secs,
                },
            ];
            assert(segments_between(c, e) == head + rest);
            assert forall|k: int| 0 <= k < segments_between(c, e).len() implies #[trigger] segments_between(c, e)[k].seconds > 0 by {
                if k > 0 {
                    assert(segments_between(c, e)[k] == rest[k - 1]);
                }
            }
        }
    }
}

/// The start of the month after the one `value` falls in, when chrono can represent it.
fn next_month_boundary(value: &UtcTimestamp) -> (r: Option<UtcTimestamp>)
    ensures
        instant_parts(r) == next_month_start(parts(*value)),
{
    let (year, month) = year_and_month(value);
    if month == 12 {
        month_start(year + 1, 1)
    } else {
        month_start(year, month + 1)
    }
}

/// Splits the stretch from `started_at` to `ended_at` at month boundaries (midnight UTC
/// on the first of each month) and gives the whole seconds of each part; an empty or
/// reversed stretch has none.
pub fn monthly_segments(started_at: UtcTimestamp, ended_at: UtcTimestamp) -> (r: Vec<MonthlySegment>)
    ensures
        r@ == segments_between(parts(started_at), parts(ended_at)),
{
    let mut segments: Vec<MonthlySegment> = Vec::new();
    if !is_before(started_at, ended_at) {
        return segments;
    }
    let mut cursor = started_at;
    while is_before(cursor, ended_at)
        invariant
            segments@ + segments_between(parts(cursor), parts(ended_at)) == segments_between(
                parts(started_at),
                parts(ended_at),
            ),
        decreases parts_key(parts(ended_at)) - parts_key(parts(cursor)),
    {
        let (year, month) = year_and_month(&cursor);
        let next = next_month_boundary(&cursor);
        let end = match next {
            Some(n) => if is_before(n, ended_at) && is_before(cursor, n) {
                n
            } else {
                ended_at
            },
            None => ended_at,
        };
        let ghost c = parts(cursor);
        let ghost e = parts(ended_at);
        assert(parts(end) == segment_end(c, e));
        let (secs, _) = elapsed_between(&cursor, &end);
        let ghost before = segments@;
        if secs > 0 {
            segments.push(MonthlySegment { year, month0: (month - 1) as i32, seconds: secs });
        }
        proof {
            lemma_parts_key(c, parts(end));
            lemma_parts_key(parts(end), e);
            assert(segments@ + segments_between(parts(end), e) =~= before + segments_between(c, e));
        }
        cursor = end;
    }
    segments
}

// ---------------------------------------------------------------------------
// The feed and the snapshots taken from it
// ---------------------------------------------------------------------------

/// A position listed for a controller in a feed.
#[derive(Debug)]
pub struct FeedPosition {
    pub facility_id: Option<String>,
    pub facility_name: String,
    pub position_id: String,
    pub position_name: String,
    pub position_type: String,
    pub radio_name: Option<String>,
    pub default_callsign: Option<String>,
    pub frequency: Option<i64>,
    pub is_primary: bool,
    pub is_active: bool,
}

/// A controller listed in a feed, with the VATSIM data the feed carries for them.
#[derive(Debug)]
pub struct FeedController {
    pub artcc_id: String,
    pub primary_facility_id: Option<String>,
    pub primary_position_id: Option<String>,
    pub role: Option<String>,
    pub positions: Vec<FeedPosition>,
    pub is_active: bool,
    pub is_observer: bool,
    pub login_time: String,
    pub cid: String,
    pub real_name: Option<String>,
    pub user_rating: Option<String>,
    pub requested_rating: Option<String>,
}

/// A position a controller has open at the time of a poll.
#[derive(Debug)]
pub struct ActivePositionSnapshot {
    pub position_id: String,
    pub facility_id: Option<String>,
    pub facility_name: String,
    pub position_name: String,
    pub position_type: String,
    pub radio_name: Option<String>,
    pub default_callsign: Option<String>,
    pub frequency: Option<i64>,
    pub is_primary: bool,
}

/// A watched controller as a poll sees them.
#[derive(Debug)]
pub struct ControllerSnapshot {
    pub artcc_id: String,
    pub cid: i64,
    pub user_id: Option<String>,
    pub real_name: Option<String>,
    pub role: Option<String>,
    pub user_rating: Option<String>,
    pub requested_rating: Option<String>,
    pub login_at: UtcTimestamp,
    pub login_time_raw: String,
    pub primary_facility_id: Option<String>,
    pub primary_position_id: Option<String>,
    pub is_active: bool,
    pub positions: Vec<ActivePositionSnapshot>,
}

/// The snapshot of a feed position.
pub open spec fn position_snapshot_of(p: FeedPosition) -> ActivePositionSnapshot {
    ActivePositionSnapshot {
        position_id: p.position_id,
        facility_id: p.facility_id,
        facility_name: p.facility_name,
        position_name: p.position_name,
        position_type: p.position_type,
        radio_name: p.radio_name,
        default_callsign: p.default_callsign,
        frequency: p.frequency,
        is_primary: p.is_primary,
    }
}

/// The positions a controller counts as holding: the active ones, and none at all when
/// the controller is not active.
pub open spec fn active_positions(positions: Seq<FeedPosition>, controller_active: bool) -> Seq<ActivePositionSnapshot>
    decreases positions.len(),
{
    if positions.len() == 0 {
        Seq::empty()
    } else {
        let rest = active_positions(positions.drop_last(), controller_active);
        if controller_active && positions.last().is_active {
            rest.push(position_snapshot_of(positions.last()))
        } else {
            rest
        }
    }
}

/// When a controller logged on: the feed's login time when it reads as RFC 3339, else the
/// time of the poll.
pub open spec fn login_instant(login_time: Seq<char>, poll_time: UtcTimestamp) -> (i64, u32) {
    match crate::timestamp::parsed_instant(login_time) {
        Some(p) => p,
        None => parts(poll_time),
    }
}

/// Whether `s` is the snapshot of feed entry `c` for the controller `cid`, known locally
/// as `user_id`, in a poll at `poll_time`.
pub open spec fn is_snapshot_of(
    s: ControllerSnapshot,
    c: FeedController,
    cid: i64,
    user_id: Option<String>,
    poll_time: UtcTimestamp,
) -> bool {
    &&& s.artcc_id == c.artcc_id
    &&& s.cid == cid
    &&& s.user_id == user_id
    &&& s.real_name == c.real_name
    &&& s.role == c.role
    &&& s.user_rating == c.user_rating
    &&& s.requested_rating == c.requested_rating
    &&& parts(s.login_at) == login_instant(c.login_time@, poll_time)
    &&& s.login_time_raw == c.login_time
    &&& s.primary_facility_id == c.primary_facility_id
    &&& s.primary_position_id == c.primary_position_id
    &&& s.is_active == c.is_active
    &&& s.positions@ == active_positions(c.positions@, c.is_active)
}

fn snapshot_position(p: &FeedPosition) -> (r: ActivePositionSnapshot)
    ensures
        r == position_snapshot_of(*p),
{
    ActivePositionSnapshot {
        position_id: p.position_id.clone(),
        facility_id: clone_opt(&p.facility_id),
        facility_name: p.facility_name.clone(),
        position_name: p.position_name.clone(),
        position_type: p.position_type.clone(),
        radio_name: clone_opt(&p.radio_name),
        default_callsign: clone_opt(&p.default_callsign),
        frequency: p.frequency,
        is_primary: p.is_primary,
    }
}

/// Takes the snapshot of a watched controller in a poll at `poll_time`.
pub fn build_controller_snapshot(
    controller: &FeedController,
    cid: i64,
    user_id: Option<String>,
    poll_time: UtcTimestamp,
) -> (r: ControllerSnapshot)
    ensures
        is_snapshot_of(r, *controller, cid, user_id, poll_time),
{
    let login_at = match crate::timestamp::parse_rfc3339(controller.login_time.as_str()) {
        Some(t) => t,
        None => poll_time,
    };
    let mut positions: Vec<ActivePositionSnapshot> = Vec::new();
    let mut i: usize = 0;
    while i < controller.positions.len()
        invariant
            i <= controller.positions@.len(),
            positions@ == active_positions(controller.positions@.subrange(0, i as int), controller.is_active),
        decreases controller.positions@.len() - i,
    {
        let p = &controller.positions[i];
        assert(controller.positions@.subrange(0, i + 1).drop_last() =~= controller.positions@.subrange(0, i as int));
        if controller.is_active && p.is_active {
            positions.push(snapshot_position(p));
        }
        i = i + 1;
    }
    assert(controller.positions@.subrange(0, controller.positions@.len() as int) =~= controller.positions@);
    ControllerSnapshot {
        artcc_id: controller.artcc_id.clone(),
        cid,
        user_id,
        real_name: clone_opt(&controller.real_name),
        role: clone_opt(&controller.role),
        user_rating: clone_opt(&controller.user_rating),
        requested_rating: clone_opt(&controller.requested_rating),
        login_at,
        login_time_raw: controller.login_time.clone(),
        primary_facility_id: clone_opt(&controller.primary_facility_id),
        primary_position_id: clone_opt(&controller.primary_position_id),
        is_active: controller.is_active,
        positions,
    }
}

// ---------------------------------------------------------------------------
// Planning a poll
// ---------------------------------------------------------------------------

/// Whether a feed entry is a controller of the watched ARTCC who is not an observer.
pub open spec fn is_watched(c: FeedController) -> bool {
    c.artcc_id@ == "ZDC"@ && !c.is_observer
}

/// The positions of the watched controllers in a feed, in feed order.
pub open spec fn watched_positions(cs: Seq<FeedController>) -> Seq<usize>
    decreases cs.len(),
{
    if cs.len() == 0 {
        Seq::empty()
    } else {
        let rest = watched_positions(cs.drop_last());
        if is_watched(cs.last()) {
            rest.push((cs.len() - 1) as usize)
        } else {
            rest
        }
    }
}

/// How many watched controllers are active.
pub open spec fn online_count(cs: Seq<FeedController>) -> nat
    decreases cs.len(),
{
    if cs.len() == 0 {
        0
    } else {
        online_count(cs.drop_last()) + if is_watched(cs.last()) && cs.last().is_active {
            1nat
        } else {
            0nat
        }
    }
}

/// The CIDs of the watched controllers whose CID reads as a number, in feed order.
pub open spec fn watched_cids(cs: Seq<FeedController>) -> Seq<int>
    decreases cs.len(),
{
    if cs.len() == 0 {
        Seq::empty()
    } else {
        let rest = watched_cids(cs.drop_last());
        if is_watched(cs.last()) && parse_i64_spec(cs.last().cid@) is Some {
            rest.push(parse_i64_spec(cs.last().cid@)->0)
        } else {
            rest
        }
    }
}

/// What a poll first reads off a feed: how many controllers it lists, which of them are
/// watched, how many of those are active, and the CIDs among them that read as numbers.
#[derive(Debug)]
pub struct FeedSummary {
    pub snapshot_count: usize,
    pub watched: Vec<usize>,
    pub online: usize,
    pub cids: Vec<i64>,
}

/// Reads the counts and the watched controllers off a feed.
pub fn summarize_feed(controllers: &[FeedController]) -> (r: FeedSummary)
    ensures
        r.snapshot_count == controllers@.len(),
        r.watched@ == watched_positions(controllers@),
        r.online == online_count(controllers@),
        r.cids@.len() == watched_cids(controllers@).len(),
        forall|k: int| 0 <= k < r.cids@.len() ==> r.cids@[k] as int == #[trigger] watched_cids(controllers@)[k],
{
    let mut watched: Vec<usize> = Vec::new();
    let mut online: usize = 0;
    let mut cids: Vec<i64> = Vec::new();
    let mut i: usize = 0;
    while i < controllers.len()
        invariant
            i <= controllers@.len(),
            watched@ == watched_positions(controllers@.subrange(0, i as int)),
            online == online_count(controllers@.subrange(0, i as int)),
            online <= i,
            cids@.len() == watched_cids(controllers@.subrange(0, i as int)).len(),
            forall|k: int|
                0 <= k < cids@.len() ==> cids@[k] as int == #[trigger] watched_cids(
                    controllers@.subrange(0, i as int),
                )[k],
        decreases controllers@.len() - i,
    {
        let c = &controllers[i];
        let ghost prev = controllers@.subrange(0, i as int);
        let ghost next = controllers@.subrange(0, i + 1);
        assert(next.drop_last() =~= prev);
        assert(next.last() == *c);
        let watched_here = str_eq(c.artcc_id.as_str(), TARGET_ARTCC_ID) && !c.is_observer;
        proof {
            reveal_strlit("ZDC");
        }
        if watched_here {
            watched.push(i);
            if c.is_active {
                online = online + 1;
            }
            match parse_i64(c.cid.as_str()) {
                Some(cid) => {
                    cids.push(cid);
                    assert forall|k: int| 0 <= k < cids@.len() implies cids@[k] as int == #[trigger] watched_cids(next)[k] by {
                        if k < cids@.len() - 1 {
                            assert(watched_cids(next)[k] == watched_cids(prev)[k]);
                        }
                    }
                },
                None => {},
            }
        }
        i = i + 1;
    }
    assert(controllers@.subrange(0, controllers@.len() as int) =~= controllers@);
    FeedSummary { snapshot_count: controllers.len(), watched, online, cids }
}

/// A session that has not ended, as stored.
#[derive(Debug)]
pub struct OpenSession {
    pub id: String,
    pub cid: i64,
    pub user_id: Option<String>,
    pub artcc_id: String,
    pub real_name: Option<String>,
    pub role: Option<String>,
    pub user_rating: Option<String>,
    pub requested_rating: Option<String>,
    pub primary_facility_id: Option<String>,
    pub primary_position_id: Option<String>,
    pub login_at: UtcTimestamp,
    pub source_login_time_raw: String,
}

/// The local user a CID belongs to, from the rows `(cid, user id)` that the user table
/// gave; a later row wins over an earlier one.
pub open spec fn user_for(rows: Seq<(i64, String)>, cid: i64) -> Option<String>
    decreases rows.len(),
{
    if rows.len() == 0 {
        None
    } else if rows.last().0 == cid {
        Some(rows.last().1)
    } else {
        user_for(rows.drop_last(), cid)
    }
}

/// Looks up the local user of a CID.
pub fn lookup_user_id(rows: &[(i64, String)], cid: i64) -> (r: Option<String>)
    ensures
        r == user_for(rows@, cid),
{
    let mut i: usize = rows.len();
    assert(rows@.subrange(0, rows@.len() as int) =~= rows@);
    while i > 0
        invariant
            i <= rows@.len(),
            user_for(rows@, cid) == user_for(rows@.subrange(0, i as int), cid),
        decreases i,
    {
        let ghost s = rows@.subrange(0, i as int);
        assert(s.drop_last() =~= rows@.subrange(0, i - 1));
        if rows[i - 1].0 == cid {
            return Some(rows[i - 1].1.clone());
        }
        i = i - 1;
    }
    None
}

/// The CID texts of the watched controllers, in feed order.
pub open spec fn watched_cid_texts(cs: Seq<FeedController>, watched: Seq<usize>) -> Seq<Seq<char>> {
    Seq::new(watched.len(), |k: int| cs[watched[k] as int].cid@)
}

/// The feed positions a poll works through, in its order: the watched controllers taken
/// in `order`, those whose CID does not read as a number left out.
pub open spec fn processing_positions(cs: Seq<FeedController>, watched: Seq<usize>, order: Seq<usize>) -> Seq<usize>
    decreases order.len(),
{
    if order.len() == 0 {
        Seq::empty()
    } else {
        let rest = processing_positions(cs, watched, order.drop_last());
        let p = watched[order.last() as int];
        if parse_i64_spec(cs[p as int].cid@) is Some {
            rest.push(p)
        } else {
            rest
        }
    }
}

/// The CID of a feed entry whose CID reads as a number.
pub open spec fn cid_of(c: FeedController) -> i64 {
    parse_i64_spec(c.cid@)->0 as i64
}

/// The session key of a feed entry.
pub open spec fn feed_session_key(c: FeedController) -> Seq<char> {
    session_key_spec(cid_of(c) as int, c.login_time@)
}

/// The session keys of the feed entries at `processed`.
pub open spec fn processing_keys(cs: Seq<FeedController>, processed: Seq<usize>) -> Seq<Seq<char>> {
    Seq::new(processed.len(), |q: int| feed_session_key(cs[processed[q] as int]))
}

/// The session keys of the open sessions.
pub open spec fn open_session_keys(open: Seq<OpenSession>) -> Seq<Seq<char>> {
    Seq::new(open.len(), |i: int| session_key_spec(open[i].cid as int, open[i].source_login_time_raw@))
}

/// What a poll does with the watched controllers once it knows their local users and the
/// open sessions: the order in which it takes them (positions in `watched`, by CID text,
/// ties in feed order), the feed positions it works through, a snapshot of each, the open
/// session each one continues (none for a new session), and the open sessions that no
/// controller continues, which end.
#[derive(Debug)]
pub struct SessionPlan {
    pub order: Vec<usize>,
    pub processed: Vec<usize>,
    pub snapshots: Vec<ControllerSnapshot>,
    pub existing_sessions: Vec<Option<usize>>,
    pub stale_sessions: Vec<usize>,
}

/// Plans the sessions of a poll at `poll_time` (see `SessionPlan`). Open sessions are
/// matched by session key as a map from key to session does: where two open sessions
/// share a key the later one counts, and a key that comes up twice in the feed continues
/// a session only the first time.
pub fn plan_sessions(
    controllers: &[FeedController],
    watched: &[usize],
    user_rows: &[(i64, String)],
    open_sessions: &[OpenSession],
    poll_time: UtcTimestamp,
) -> (r: SessionPlan)
    requires
        watched@ == watched_positions(controllers@),
    ensures
        r.order@.len() == watched@.len(),
        forall|k: int| 0 <= k < r.order@.len() ==> r.order@[k] < watched@.len(),
        forall|k1: int, k2: int|
            0 <= k1 < k2 < r.order@.len() ==> keyed_before(
                watched_cid_texts(controllers@, watched@),
                #[trigger] r.order@[k1] as int,
                #[trigger] r.order@[k2] as int,
            ),
        r.processed@ == processing_positions(controllers@, watched@, r.order@),
        r.snapshots@.len() == r.processed@.len(),
        forall|k: int|
            0 <= k < r.snapshots@.len() ==> {
                let c = controllers@[r.processed@[k] as int];
                is_snapshot_of(#[trigger] r.snapshots@[k], c, cid_of(c), user_for(user_rows@, cid_of(c)), poll_time)
            },
        is_key_matching(
            processing_keys(controllers@, r.processed@),
            open_session_keys(open_sessions@),
            r.existing_sessions@,
            r.stale_sessions@,
        ),
{
    proof {
        lemma_watched_positions_bounded(controllers@);
    }
    let mut keys: Vec<String> = Vec::new();
    let mut t: usize = 0;
    while t < watched.len()
        invariant
            watched@ == watched_positions(controllers@),
            forall|k: int| 0 <= k < watched@.len() ==> watched@[k] < controllers@.len(),
            t <= watched@.len(),
            views_of(keys@) == watched_cid_texts(controllers@, watched@).subrange(0, t as int),
        decreases watched@.len() - t,
    {
        let ghost before = keys@;
        let key = controllers[watched[t]].cid.clone();
        assert(key@ == watched_cid_texts(controllers@, watched@)[t as int]);
        keys.push(key);
        assert(views_of(keys@) =~= views_of(before).push(key@));
        assert(views_of(keys@) =~= watched_cid_texts(controllers@, watched@).subrange(0, t + 1));
        t = t + 1;
    }
    assert(views_of(keys@) =~= watched_cid_texts(controllers@, watched@));
    let order = stable_order_by_text(keys.as_slice());
    let mut processed: Vec<usize> = Vec::new();
    let mut snapshots: Vec<ControllerSnapshot> = Vec::new();
    let mut wanted: Vec<String> = Vec::new();
    let mut k: usize = 0;
    while k < order.len()
        invariant
            watched@ == watched_positions(controllers@),
            forall|q: int| 0 <= q < watched@.len() ==> watched@[q] < controllers@.len(),
            order@.len() == watched@.len(),
            forall|q: int| 0 <= q < order@.len() ==> order@[q] < watched@.len(),
            k <= order@.len(),
            processed@ == processing_positions(controllers@, watched@, order@.subrange(0, k as int)),
            forall|q: int| 0 <= q < processed@.len() ==> processed@[q] < controllers@.len(),
            snapshots@.len() == processed@.len(),
            forall|q: int|
                0 <= q < snapshots@.len() ==> {
                    let c = controllers@[processed@[q] as int];
                    is_snapshot_of(#[trigger] snapshots@[q], c, cid_of(c), user_for(user_rows@, cid_of(c)), poll_time)
                },
            views_of(wanted@) == processing_keys(controllers@, processed@),
        decreases order@.len() - k,
    {
        let p = watched[order[k]];
        let c = &controllers[p];
        let ghost prev = order@.subrange(0, k as int);
        let ghost next = order@.subrange(0, k + 1);
        assert(next.drop_last() =~= prev);
        match parse_i64(c.cid.as_str()) {
            Some(cid) => {
                let user = lookup_user_id(user_rows, cid);
                let snapshot = build_controller_snapshot(c, cid, user, poll_time);
                snapshots.push(snapshot);
                processed.push(p);
                let ghost before = wanted@;
                let key = session_key(cid, c.login_time.as_str());
                assert(cid_of(*c) == cid);
                assert(key@ == feed_session_key(*c));
                wanted.push(key);
                assert(views_of(wanted@) =~= views_of(before).push(key@));
                assert(views_of(wanted@) =~= processing_keys(controllers@, processed@));
            },
            None => {},
        }
        k = k + 1;
    }
    assert(order@.subrange(0, order@.len() as int) =~= order@);
    let mut avail: Vec<String> = Vec::new();
    let mut i: usize = 0;
    while i < open_sessions.len()
        invariant
            i <= open_sessions@.len(),
            views_of(avail@) == open_session_keys(open_sessions@).subrange(0, i as int),
        decreases open_sessions@.len() - i,
    {
        let s = &open_sessions[i];
        let ghost before = avail@;
        let key = session_key(s.cid, s.source_login_time_raw.as_str());
        avail.push(key);
        assert(views_of(avail@) =~= views_of(before).push(key@));
        assert(views_of(avail@) =~= open_session_keys(open_sessions@).subrange(0, i + 1));
        i = i + 1;
    }
    assert(views_of(avail@) =~= open_session_keys(open_sessions@));
    let matching = match_keys(wanted.as_slice(), avail.as_slice());
    SessionPlan {
        order,
        processed,
        snapshots,
        existing_sessions: matching.matches,
        stale_sessions: matching.leftover,
    }
}

/// Every watched position lies within the feed.
pub proof fn lemma_watched_positions_bounded(cs: Seq<FeedController>)
    ensures
        forall|k: int| 0 <= k < watched_positions(cs).len() ==> #[trigger] watched_positions(cs)[k] < cs.len(),
    decreases cs.len(),
{
    if cs.len() > 0 {
        lemma_watched_positions_bounded(cs.drop_last());
        let rest = watched_positions(cs.drop_last());
        assert forall|k: int| 0 <= k < watched_positions(cs).len() implies #[trigger] watched_positions(cs)[k] < cs.len() by {
            if k < rest.len() {
                assert(watched_positions(cs)[k] == rest[k]);
            }
        }
    }
}

// ---------------------------------------------------------------------------
// Records of a poll
// ---------------------------------------------------------------------------

/// The record of a session that a snapshot continues or starts: its id, the environment,
/// and the controller as the snapshot shows them.
pub open spec fn is_record_of_snapshot(
    r: SessionRecord,
    id: String,
    env: StatsEnvironment,
    snapshot: ControllerSnapshot,
) -> bool {
    &&& r.id == id
    &&& r.environment@ == environment_text(env)
    &&& r.artcc_id == snapshot.artcc_id
    &&& r.cid == snapshot.cid
    &&& r.user_id == snapshot.user_id
    &&& r.real_name == snapshot.real_name
    &&& r.role == snapshot.role
    &&& r.user_rating == snapshot.user_rating
    &&& r.requested_rating == snapshot.requested_rating
    &&& r.primary_facility_id == snapshot.primary_facility_id
    &&& r.primary_position_id == snapshot.primary_position_id
}

/// The record of the session with id `id` as a snapshot shows the controller.
pub fn session_record_from_snapshot(id: String, env: StatsEnvironment, snapshot: &ControllerSnapshot) -> (r: SessionRecord)
    ensures
        is_record_of_snapshot(r, id, env, *snapshot),
{
    SessionRecord {
        id,
        environment: owned(env.as_str()),
        artcc_id: snapshot.artcc_id.clone(),
        cid: snapshot.cid,
        user_id: clone_opt(&snapshot.user_id),
        real_name: clone_opt(&snapshot.real_name),
        role: clone_opt(&snapshot.role),
        user_rating: clone_opt(&snapshot.user_rating),
        requested_rating: clone_opt(&snapshot.requested_rating),
        primary_facility_id: clone_opt(&snapshot.primary_facility_id),
        primary_position_id: clone_opt(&snapshot.primary_position_id),
    }
}

/// The record of an open session that is about to end, as it was stored.
pub fn session_record_from_open(session: &OpenSession, env: StatsEnvironment) -> (r: SessionRecord)
    ensures
        r.id == session.id,
        r.environment@ == environment_text(env),
        r.artcc_id == session.artcc_id,
        r.cid == session.cid,
        r.user_id == session.user_id,
        r.real_name == session.real_name,
        r.role == session.role,
        r.user_rating == session.user_rating,
        r.requested_rating == session.requested_rating,
        r.primary_facility_id == session.primary_facility_id,
        r.primary_position_id == session.primary_position_id,
{
    SessionRecord {
        id: session.id.clone(),
        environment: owned(env.as_str()),
        artcc_id: session.artcc_id.clone(),
        cid: session.cid,
        user_id: clone_opt(&session.user_id),
        real_name: clone_opt(&session.real_name),
        role: clone_opt(&session.role),
        user_rating: clone_opt(&session.user_rating),
        requested_rating: clone_opt(&session.requested_rating),
        primary_facility_id: clone_opt(&session.primary_facility_id),
        primary_position_id: clone_opt(&session.primary_position_id),
    }
}

/// The activation that starts when a session opens a position at `started_at`.
pub fn new_activation(
    id: String,
    session: &SessionRecord,
    position: &ActivePositionSnapshot,
    started_at: UtcTimestamp,
) -> (r: OpenActivation)
    ensures
        r.id == id,
        r.environment == session.environment,
        r.cid == session.cid,
        r.position_id == position.position_id,
        r.facility_id == position.facility_id,
        r.facility_name == position.facility_name,
        r.position_name == position.position_name,
        r.position_type == position.position_type,
        r.radio_name == position.radio_name,
        r.default_callsign == position.default_callsign,
        r.frequency == position.frequency,
        r.is_primary == position.is_primary,
        r.started_at == started_at,
{
    OpenActivation {
        id,
        environment: session.environment.clone(),
        cid: session.cid,
        position_id: position.position_id.clone(),
        facility_id: clone_opt(&position.facility_id),
        facility_name: position.facility_name.clone(),
        position_name: position.position_name.clone(),
        position_type: position.position_type.clone(),
        radio_name: clone_opt(&position.radio_name),
        default_callsign: clone_opt(&position.default_callsign),
        frequency: position.frequency,
        is_primary: position.is_primary,
        started_at,
    }
}

/// What a poll does with the positions of a continuing session: for each position it
/// holds, the open activation it continues (none for a new one), and the open
/// activations that no position continues, which end.
#[derive(Debug)]
pub struct ActivationPlan {
    pub existing: Vec<Option<usize>>,
    pub closing: Vec<usize>,
}

/// The position ids of some snapshots of positions.
pub open spec fn snapshot_position_ids(positions: Seq<ActivePositionSnapshot>) -> Seq<Seq<char>> {
    Seq::new(positions.len(), |k: int| positions[k].position_id@)
}

/// The position ids of some open activations.
pub open spec fn activation_position_ids(open: Seq<OpenActivation>) -> Seq<Seq<char>> {
    Seq::new(open.len(), |k: int| open[k].position_id@)
}

/// Matches the positions a controller holds with the session's open activations by
/// position id, as a map from position id to activation does: where two open activations
/// share a position the later one counts, and a position listed twice continues an
/// activation only the first time.
pub fn plan_activations(positions: &[ActivePositionSnapshot], open: &[OpenActivation]) -> (r: ActivationPlan)
    ensures
        is_key_matching(
            snapshot_position_ids(positions@),
            activation_position_ids(open@),
            r.existing@,
            r.closing@,
        ),
{
    let mut wanted: Vec<String> = Vec::new();
    let mut j: usize = 0;
    while j < positions.len()
        invariant
            j <= positions@.len(),
            views_of(wanted@) == snapshot_position_ids(positions@).subrange(0, j as int),
        decreases positions@.len() - j,
    {
        let ghost before = wanted@;
        let key = positions[j].position_id.clone();
        wanted.push(key);
        assert(views_of(wanted@) =~= views_of(before).push(key@));
        assert(views_of(wanted@) =~= snapshot_position_ids(positions@).subrange(0, j + 1));
        j = j + 1;
    }
    assert(views_of(wanted@) =~= snapshot_position_ids(positions@));
    let mut avail: Vec<String> = Vec::new();
    let mut i: usize = 0;
    while i < open.len()
        invariant
            i <= open@.len(),
            views_of(avail@) == activation_position_ids(open@).subrange(0, i as int),
        decreases open@.len() - i,
    {
        let ghost before = avail@;
        let key = open[i].position_id.clone();
        avail.push(key);
        assert(views_of(avail@) =~= views_of(before).push(key@));
        assert(views_of(avail@) =~= activation_position_ids(open@).subrange(0, i + 1));
        i = i + 1;
    }
    assert(views_of(avail@) =~= activation_position_ids(open@));
    let matching = match_keys(wanted.as_slice(), avail.as_slice());
    ActivationPlan { existing: matching.matches, closing: matching.leftover }
}

/// The whole seconds from `from` to `to`, zero when `to` is not later.
pub open spec fn clamped_seconds_spec(from: UtcTimestamp, to: UtcTimestamp) -> int {
    let s = crate::timestamp::elapsed(from, to).0;
    if s > 0 {
        s as int
    } else {
        0
    }
}

/// The whole seconds from `from` to `to`, zero when `to` is not later; what an ended
/// session or activation is credited with.
pub fn clamped_seconds(from: &UtcTimestamp, to: &UtcTimestamp) -> (r: i64)
    ensures
        r == clamped_seconds_spec(*from, *to),
{
    let (secs, _) = elapsed_between(from, to);
    if secs > 0 {
        secs
    } else {
        0
    }
}

/// When the feed says it was last updated: its `updatedAt` when that reads as RFC 3339,
/// else the time of the poll.
pub fn source_updated_at(updated_at: &str, poll_time: UtcTimestamp) -> (r: UtcTimestamp)
    ensures
        parts(r) == login_instant(updated_at@, poll_time),
{
    match crate::timestamp::parse_rfc3339(updated_at) {
        Some(t) => t,
        None => poll_time,
    }
}

/// Whether the feed has not changed since the last poll that was stored: the stored
/// update time is the same instant.
pub fn feed_unchanged(stored: Option<UtcTimestamp>, source: UtcTimestamp) -> (r: bool)
    ensures
        r == (stored == Some(source)),
{
    match stored {
        Some(t) => t == source,
        None => false,
    }
}

/// What one poll of an environment reports.
#[derive(Debug)]
pub struct EnvironmentSyncResult {
    pub environment: StatsEnvironment,
    pub ok: bool,
    pub processed: usize,
    pub online: usize,
    pub source_updated_at: Option<UtcTimestamp>,
}

/// What a poll does once the feed is read: skip the rest when the feed is unchanged,
/// reporting what it read, or go on to plan sessions and activations.
#[derive(Debug)]
pub enum PollDecision {
    Skip(EnvironmentSyncResult),
    Process,
}

/// Decides one poll of an environment from the stored update time and the feed's: an
/// unchanged feed is skipped with a successful result that counts the watched
/// controllers and those online; a changed one is processed.
pub fn decide_poll(
    environment: StatsEnvironment,
    stored: Option<UtcTimestamp>,
    source: UtcTimestamp,
    summary: &FeedSummary,
) -> (r: PollDecision)
    ensures
        (r is Skip) == (stored == Some(source)),
        r matches PollDecision::Skip(res) ==> {
            &&& res.environment == environment
            &&& res.ok
            &&& res.processed == summary.watched@.len()
            &&& res.online == summary.online
            &&& res.source_updated_at == Some(source)
        },
{
    if feed_unchanged(stored, source) {
        PollDecision::Skip(
            EnvironmentSyncResult {
                environment,
                ok: true,
                processed: summary.watched.len(),
                online: summary.online,
                source_updated_at: Some(source),
            },
        )
    } else {
        PollDecision::Process
    }
}

/// The result of a poll that processed the feed: successful, counting the watched
/// controllers whose CID reads as a number and those online.
pub fn processed_poll_result(environment: StatsEnvironment, source: UtcTimestamp, summary: &FeedSummary) -> (r: EnvironmentSyncResult)
    ensures
        r.environment == environment,
        r.ok,
        r.processed == summary.cids@.len(),
        r.online == summary.online,
        r.source_updated_at == Some(source),
{
    EnvironmentSyncResult {
        environment,
        ok: true,
        processed: summary.cids.len(),
        online: summary.online,
        source_updated_at: Some(source),
    }
}

/// The increments of one monthly rollup row.
#[derive(Debug)]
pub struct MonthlyRollupRow {
    pub year: i32,
    pub month0: i32,
    pub columns: RollupColumns,
}

/// The rollup rows for the segments of a stretch of time of one kind: a row per segment
/// with the segment's seconds in the kind's column, rows that add nothing left out.
pub open spec fn rollup_rows_spec(segments: Seq<MonthlySegment>, column: Option<int>) -> Seq<(i32, i32, int, i64)>
    decreases segments.len(),
{
    if segments.len() == 0 {
        Seq::empty()
    } else {
        let rest = rollup_rows_spec(segments.drop_last(), column);
        let seg = segments.last();
        match column {
            Some(k) => if seg.seconds != 0 {
                rest.push((seg.year, seg.month0, k, seg.seconds))
            } else {
                rest
            },
            None => rest,
        }
    }
}

/// A rollup row as year, month, column and seconds, when exactly one column is set.
pub open spec fn row_view(r: MonthlyRollupRow) -> (i32, i32, int, i64) {
    let c = columns_seq(r.columns);
    let k = if c[0] != 0 {
        0int
    } else if c[1] != 0 {
        1int
    } else if c[2] != 0 {
        2int
    } else if c[3] != 0 {
        3int
    } else if c[4] != 0 {
        4int
    } else {
        5int
    };
    (r.year, r.month0, k, c[k])
}

/// The monthly rollup rows for the stretch from `started_at` to `ended_at` of one kind of
/// time; each row has only the kind's column set.
pub fn monthly_rollup_rows(started_at: UtcTimestamp, ended_at: UtcTimestamp, kind: &RollupKind) -> (r: Vec<MonthlyRollupRow>)
    ensures
        forall|k: int, j: int|
            0 <= k < r@.len() && 0 <= j < 6 && rollup_column(*kind) != Some(j) ==> #[trigger] columns_seq(
                r@[k].columns,
            )[j] == 0,
        r@.len() == rollup_rows_spec(segments_between(parts(started_at), parts(ended_at)), rollup_column(*kind)).len(),
        forall|k: int|
            0 <= k < r@.len() ==> row_view(#[trigger] r@[k]) == rollup_rows_spec(
                segments_between(parts(started_at), parts(ended_at)),
                rollup_column(*kind),
            )[k],
{
    let segments = monthly_segments(started_at, ended_at);
    let ghost all = segments@;
    let ghost col = rollup_column(*kind);
    let mut rows: Vec<MonthlyRollupRow> = Vec::new();
    let mut i: usize = 0;
    while i < segments.len()
        invariant
            all == segments@,
            col == rollup_column(*kind),
            i <= segments@.len(),
            rows@.len() == rollup_rows_spec(all.subrange(0, i as int), col).len(),
            forall|k: int| 0 <= k < rows@.len() ==> row_view(#[trigger] rows@[k]) == rollup_rows_spec(all.subrange(0, i as int), col)[k],
            forall|k: int, j: int|
                0 <= k < rows@.len() && 0 <= j < 6 && col != Some(j) ==> #[trigger] columns_seq(rows@[k].columns)[j] == 0,
        decreases segments@.len() - i,
    {
        let seg = segments[i];
        let ghost prev = all.subrange(0, i as int);
        let ghost next = all.subrange(0, i + 1);
        assert(next.drop_last() =~= prev);
        assert(next.last() == seg);
        let columns = rollup_columns(kind, seg.seconds);
        let total: i128 = columns.online_seconds as i128 + columns.delivery_seconds as i128
            + columns.ground_seconds as i128 + columns.tower_seconds as i128 + columns.tracon_seconds as i128
            + columns.center_seconds as i128;
        proof {
            assert(columns_seq(columns)[0] == columns.online_seconds);
            assert(columns_seq(columns)[1] == columns.delivery_seconds);
            assert(columns_seq(columns)[2] == columns.ground_seconds);
            assert(columns_seq(columns)[3] == columns.tower_seconds);
            assert(columns_seq(columns)[4] == columns.tracon_seconds);
            assert(columns_seq(columns)[5] == columns.center_seconds);
        }
        if total != 0 {
            let row = MonthlyRollupRow { year: seg.year, month0: seg.month0, columns };
            rows.push(row);
            assert(row_view(row) == (seg.year, seg.month0, col->0, seg.seconds));
        }
        i = i + 1;
    }
    assert(all.subrange(0, all.len() as int) =~= all);
    rows
}

// ---------------------------------------------------------------------------
// Health of the worker
// ---------------------------------------------------------------------------

/// The health the worker reports for one environment.
#[derive(Debug)]
pub struct EnvironmentSyncHealth {
    pub last_started_at: Option<UtcTimestamp>,
    pub last_finished_at: Option<UtcTimestamp>,
    pub last_success_at: Option<UtcTimestamp>,
    pub last_result_ok: Option<bool>,
    pub last_error: Option<String>,
    pub processed: Option<usize>,
    pub online: Option<usize>,
    pub source_updated_at: Option<UtcTimestamp>,
}

/// Records that a poll of the environment started at `started_at`; the previous error is
/// cleared.
pub fn record_environment_started(health: &mut EnvironmentSyncHealth, started_at: UtcTimestamp)
    ensures
        final(health).last_started_at == Some(started_at),
        final(health).last_error is None,
        final(health).last_finished_at == old(health).last_finished_at,
        final(health).last_success_at == old(health).last_success_at,
        final(health).last_result_ok == old(health).last_result_ok,
        final(health).processed == old(health).processed,
        final(health).online == old(health).online,
        final(health).source_updated_at == old(health).source_updated_at,
{
    health.last_started_at = Some(started_at);
    health.last_error = None;
}

/// Records a poll that completed at `finished_at`; a successful one also sets the time of
/// the last success to `succeeded_at`.
pub fn record_environment_result(
    health: &mut EnvironmentSyncHealth,
    result: &EnvironmentSyncResult,
    finished_at: UtcTimestamp,
    succeeded_at: UtcTimestamp,
)
    ensures
        final(health).last_finished_at == Some(finished_at),
        final(health).last_result_ok == Some(result.ok),
        final(health).processed == Some(result.processed),
        final(health).online == Some(result.online),
        final(health).source_updated_at == result.source_updated_at,
        final(health).last_success_at == if result.ok {
            Some(succeeded_at)
        } else {
            old(health).last_success_at
        },
        final(health).last_started_at == old(health).last_started_at,
        final(health).last_error == old(health).last_error,
{
    health.last_finished_at = Some(finished_at);
    health.last_result_ok = Some(result.ok);
    health.processed = Some(result.processed);
    health.online = Some(result.online);
    health.source_updated_at = result.source_updated_at;
    if result.ok {
        health.last_success_at = Some(succeeded_at);
    }
}

/// Records that the database was unavailable for the poll that started at `started_at`:
/// an environment whose last poll started then is marked failed at `finished_at`; one
/// whose last poll started at another time is left as it is.
pub fn record_environment_unavailable(
    health: &mut EnvironmentSyncHealth,
    started_at: UtcTimestamp,
    finished_at: UtcTimestamp,
)
    ensures
        old(health).last_started_at == Some(started_at) ==> {
            &&& final(health).last_finished_at == Some(finished_at)
            &&& final(health).last_result_ok == Some(false)
            &&& final(health).last_error matches Some(e) && e@ == "database unavailable for stats sync"@
        },
        old(health).last_started_at != Some(started_at) ==> {
            &&& final(health).last_finished_at == old(health).last_finished_at
            &&& final(health).last_result_ok == old(health).last_result_ok
            &&& final(health).last_error == old(health).last_error
        },
        final(health).last_started_at == old(health).last_started_at,
        final(health).last_success_at == old(health).last_success_at,
        final(health).processed == old(health).processed,
        final(health).online == old(health).online,
        final(health).source_updated_at == old(health).source_updated_at,
{
    let same = match health.last_started_at {
        Some(t) => t == started_at,
        None => false,
    };
    if same {
        health.last_finished_at = Some(finished_at);
        health.last_result_ok = Some(false);
        health.last_error = Some(owned("database unavailable for stats sync"));
    }
}

// ---------------------------------------------------------------------------
// What a poll does with open sessions and activations
// ---------------------------------------------------------------------------

/// A poll accounts for every open session once: each open session that counts (the last
/// one stored under its key) is either continued by exactly one controller of the feed or
/// ended, never both, and no session is continued by two controllers.
pub proof fn open_sessions_continue_or_end(
    controllers: Seq<FeedController>,
    processed: Seq<usize>,
    open_sessions: Seq<OpenSession>,
    existing: Seq<Option<usize>>,
    stale: Seq<usize>,
)
    requires
        is_key_matching(processing_keys(controllers, processed), open_session_keys(open_sessions), existing, stale),
        open_sessions.len() <= usize::MAX,
    ensures
        forall|i: int|
            #![trigger last_of_key(open_session_keys(open_sessions), i)]
            last_of_key(open_session_keys(open_sessions), i) ==> (taken_by(existing, i) != stale.contains(i as usize)),
        forall|j1: int, j2: int|
            0 <= j1 < j2 < existing.len() && #[trigger] existing[j1] is Some ==> #[trigger] existing[j2] != existing[j1],
{
    matched_entries_are_taken_once_or_left(
        processing_keys(controllers, processed),
        open_session_keys(open_sessions),
        existing,
        stale,
    );
}

/// A poll accounts for every open activation of a continuing session once: each that
/// counts (the last one stored for its position) is either continued by exactly one
/// position the controller holds or ended, never both, and none is continued twice.
pub proof fn open_activations_continue_or_end(
    positions: Seq<ActivePositionSnapshot>,
    open: Seq<OpenActivation>,
    existing: Seq<Option<usize>>,
    closing: Seq<usize>,
)
    requires
        is_key_matching(snapshot_position_ids(positions), activation_position_ids(open), existing, closing),
        open.len() <= usize::MAX,
    ensures
        forall|i: int|
            #![trigger last_of_key(activation_position_ids(open), i)]
            last_of_key(activation_position_ids(open), i) ==> (taken_by(existing, i) != closing.contains(i as usize)),
        forall|j1: int, j2: int|
            0 <= j1 < j2 < existing.len() && #[trigger] existing[j1] is Some ==> #[trigger] existing[j2] != existing[j1],
{
    matched_entries_are_taken_once_or_left(
        snapshot_position_ids(positions),
        activation_position_ids(open),
        existing,
        closing,
    );
}

} // verus!
