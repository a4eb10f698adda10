//! Roster synchronization with VATUSA: which membership each roster entry asks for, how a
//! matched local user is updated, how an off-roster one is demoted, and what a run reports.
use std::collections::HashMap;

use vstd::prelude::*;

use crate::error::ApiError;
use crate::jobs::JobHealthRecord;
use crate::text::{
    concat3, lower, opt_str_view, opt_string_eq, opt_view, owned, str_eq, strip_trailing,
    to_ascii_lowercase, to_ascii_uppercase, trim, trim_end_char, trimmed, u64_to_decimal, upper,
    decimal, parse_unsigned, parse_unsigned_max,
};
use crate::timestamp::{instant_parts, parse_rfc3339, parsed_instant, UtcTimestamp};

verus! {

broadcast use vstd::std_specs::hash::group_hash_axioms;

pub const DEFAULT_INTERVAL_SECS: u64 = 900;

/// Where a controller belongs on the facility roster.
#[derive(Debug, Clone, Copy, PartialEq, Eq, Structural)]
pub enum MembershipStatus {
    Home,
    Visitor,
}

pub open spec fn membership_db_value(status: MembershipStatus) -> Seq<char> {
    match status {
        MembershipStatus::Home => "HOME"@,
        MembershipStatus::Visitor => "VISITOR"@,
    }
}

impl MembershipStatus {
    /// The value stored for this status in the membership table.
    pub fn as_db_value(&self) -> (r: &'static str)
        ensures
            r@ == membership_db_value(*self),
    {
        match self {
            MembershipStatus::Home => "HOME",
            MembershipStatus::Visitor => "VISITOR",
        }
    }
}

/// One entry of a VATUSA facility roster.
#[derive(Debug)]
pub struct VatusaRosterUser {
    pub cid: i64,
    pub facility: String,
    pub facility_join: Option<String>,
}

/// The VATUSA record of one controller.
#[derive(Debug)]
pub struct VatusaUserDetail {
    pub cid: i64,
    pub fname: String,
    pub lname: String,
    pub email: Option<String>,
    pub facility: String,
    pub rating: i32,
    pub rating_short: Option<String>,
}

/// A local user that roster synchronization considers, with its current membership.
#[derive(Debug)]
pub struct LocalRosterUser {
    pub user_id: String,
    pub cid: i64,
    pub has_membership: bool,
    pub rating: Option<String>,
    pub controller_status: Option<String>,
    pub membership_status: Option<String>,
    pub home_facility: Option<String>,
    pub visitor_home_facility: Option<String>,
}

/// The membership a roster entry asks for.
#[derive(Debug)]
pub struct DesiredMembership {
    pub status: MembershipStatus,
    pub roster_user: VatusaRosterUser,
}

/// The new state of a user found on a roster.
#[derive(Debug)]
pub struct MatchedUserUpdate {
    pub user_id: String,
    pub cid: i64,
    pub first_name: String,
    pub last_name: String,
    pub full_name: String,
    pub display_name: String,
    pub email: Option<String>,
    pub rating: String,
    pub controller_status: String,
    pub join_date: Option<UtcTimestamp>,
    pub home_facility: Option<String>,
    pub visitor_home_facility: Option<String>,
}

/// The demotion of a member that no roster lists any more.
#[derive(Debug)]
pub struct OffRosterUpdate {
    pub user_id: String,
    pub cid: i64,
    pub controller_status: &'static str,
    pub membership_status: &'static str,
    pub is_active: bool,
}

/// Which parts of a membership a matched update changes.
#[derive(Debug, Clone, Copy, PartialEq, Eq, Structural)]
pub struct MembershipChangeSummary {
    pub created_membership: bool,
    pub rating_changed: bool,
    pub controller_status_changed: bool,
    pub membership_status_changed: bool,
    pub home_facility_changed: bool,
    pub visitor_home_facility_changed: bool,
}

impl MembershipChangeSummary {
    /// Whether any part of the membership changes.
    pub fn has_meaningful_change(&self) -> (r: bool)
        ensures
            r == (self.created_membership || self.rating_changed || self.controller_status_changed
                || self.membership_status_changed || self.home_facility_changed
                || self.visitor_home_facility_changed),
    {
        self.created_membership || self.rating_changed || self.controller_status_changed
            || self.membership_status_changed || self.home_facility_changed
            || self.visitor_home_facility_changed
    }
}

// ---------------------------------------------------------------------------
// Desired memberships
// ---------------------------------------------------------------------------

/// The map after inserting each roster entry in turn under its CID; a later entry with
/// the same CID replaces an earlier one.
pub open spec fn insert_members(
    m: Map<i64, DesiredMembership>,
    users: Seq<VatusaRosterUser>,
    status: MembershipStatus,
) -> Map<i64, DesiredMembership>
    decreases users.len(),
{
    if users.len() == 0 {
        m
    } else {
        insert_members(m, users.drop_last(), status).insert(
            users.last().cid,
            DesiredMembership { status, roster_user: users.last() },
        )
    }
}

/// The desired memberships: the visiting roster first, then the home roster over it.
pub open spec fn desired_memberships(
    home: Seq<VatusaRosterUser>,
    visiting: Seq<VatusaRosterUser>,
) -> Map<i64, DesiredMembership> {
    insert_members(
        insert_members(Map::empty(), visiting, MembershipStatus::Visitor),
        home,
        MembershipStatus::Home,
    )
}

pub open spec fn lists_cid(users: Seq<VatusaRosterUser>, cid: i64) -> bool {
    exists|i: int| 0 <= i < users.len() && #[trigger] users[i].cid == cid
}

/// Builds the map from CID to the membership the rosters ask for.
pub fn build_desired_memberships(
    home_roster: Vec<VatusaRosterUser>,
    visiting_roster: Vec<VatusaRosterUser>,
) -> (r: HashMap<i64, DesiredMembership>)
    ensures
        r@ == desired_memberships(home_roster@, visiting_roster@),
{
    let mut desired: HashMap<i64, DesiredMembership> = HashMap::new();
    insert_all(&mut desired, visiting_roster, MembershipStatus::Visitor);
    insert_all(&mut desired, home_roster, MembershipStatus::Home);
    desired
}

fn insert_all(
    desired: &mut HashMap<i64, DesiredMembership>,
    users: Vec<VatusaRosterUser>,
    status: MembershipStatus,
)
    ensures
        final(desired)@ == insert_members(old(desired)@, users@, status),
{
    let ghost base = desired@;
    let ghost all = users@;
    let mut rest = users;
    let mut taken: usize = 0;
    assert(all.len() == users.len());
    assert(all.subrange(0, 0) =~= Seq::<VatusaRosterUser>::empty());
    assert(all.subrange(0, all.len() as int) =~= all);
    while rest.len() > 0
        invariant
            taken + rest@.len() == all.len(),
            all.len() <= usize::MAX,
            rest@ == all.subrange(taken as int, all.len() as int),
            desired@ == insert_members(base, all.subrange(0, taken as int), status),
        decreases rest@.len(),
    {
        let user = rest.remove(0);
        assert(user == all[taken as int]);
        assert(all.subrange(0, taken + 1).drop_last() =~= all.subrange(0, taken as int));
        let cid = user.cid;
        desired.insert(cid, DesiredMembership { status, roster_user: user });
        taken = taken + 1;
        assert(rest@ =~= all.subrange(taken as int, all.len() as int));
    }
    assert(all.subrange(0, taken as int) =~= all);
}

proof fn lemma_insert_members(
    m: Map<i64, DesiredMembership>,
    users: Seq<VatusaRosterUser>,
    status: MembershipStatus,
    cid: i64,
)
    ensures
        insert_members(m, users, status).contains_key(cid) <==> (m.contains_key(cid) || lists_cid(
            users,
            cid,
        )),
        lists_cid(users, cid) ==> insert_members(m, users, status)[cid].status == status,
        !lists_cid(users, cid) ==> insert_members(m, users, status)[cid] == m[cid],
    decreases users.len(),
{
    if users.len() > 0 {
        let t = users.drop_last();
        lemma_insert_members(m, t, status, cid);
        if lists_cid(users, cid) && users.last().cid != cid {
            let i = choose|i: int| 0 <= i < users.len() && #[trigger] users[i].cid == cid;
            assert(t[i].cid == cid);
        }
        if lists_cid(t, cid) {
            let i = choose|i: int| 0 <= i < t.len() && #[trigger] t[i].cid == cid;
            assert(users[i].cid == cid);
        }
        if users.last().cid == cid {
            assert(users[users.len() - 1].cid == cid);
        }
    }
}

/// A CID on the home roster gets a home membership whatever the visiting roster says; a
/// CID on the visiting roster alone gets a visitor membership; no other CID gets one.
pub proof fn home_roster_wins(home: Seq<VatusaRosterUser>, visiting: Seq<VatusaRosterUser>, cid: i64)
    ensures
        desired_memberships(home, visiting).contains_key(cid) <==> (lists_cid(home, cid) || lists_cid(
            visiting,
            cid,
        )),
        lists_cid(home, cid) ==> desired_memberships(home, visiting)[cid].status
            == MembershipStatus::Home,
        !lists_cid(home, cid) && lists_cid(visiting, cid) ==> desired_memberships(
            home,
            visiting,
        )[cid].status == MembershipStatus::Visitor,
{
    let v = insert_members(Map::empty(), visiting, MembershipStatus::Visitor);
    lemma_insert_members(Map::empty(), visiting, MembershipStatus::Visitor, cid);
    lemma_insert_members(v, home, MembershipStatus::Home, cid);
}

// ---------------------------------------------------------------------------
// Ratings
// ---------------------------------------------------------------------------

/// The short code a rating name stands for on the roster; an unknown name is kept as
/// written (upper-cased).
pub open spec fn roster_rating_alias(u: Seq<char>) -> Seq<char> {
    if u == "OBS"@ || u == "OBSERVER"@ {
        "OBS"@
    } else if u == "S1"@ || u == "STUDENT1"@ {
        "S1"@
    } else if u == "S2"@ || u == "STUDENT2"@ {
        "S2"@
    } else if u == "S3"@ || u == "STUDENT3"@ || u == "SENIORSTUDENT"@ {
        "S3"@
    } else if u == "C1"@ || u == "CONTROLLER1"@ {
        "C1"@
    } else if u == "C2"@ || u == "CONTROLLER2"@ {
        "C2"@
    } else if u == "C3"@ || u == "CONTROLLER3"@ {
        "C3"@
    } else if u == "I1"@ || u == "INSTRUCTOR1"@ {
        "I1"@
    } else if u == "I2"@ || u == "INSTRUCTOR2"@ {
        "I2"@
    } else if u == "I3"@ || u == "INS"@ || u == "INSTRUCTOR"@ || u == "INSTRUCTOR3"@ {
        "I3"@
    } else if u == "SUP"@ || u == "SUPERVISOR"@ {
        "SUP"@
    } else if u == "ADM"@ || u == "ADMIN"@ || u == "ADMINISTRATOR"@ {
        "ADM"@
    } else {
        u
    }
}

/// The short code of a rating name: none for a missing or blank name.
pub open spec fn roster_rating_code(value: Option<Seq<char>>) -> Option<Seq<char>> {
    match value {
        None => None,
        Some(v) => if trimmed(v).len() == 0 {
            None
        } else {
            Some(roster_rating_alias(upper(trimmed(v))))
        },
    }
}

/// Normalizes a rating name to its short code.
pub fn normalize_rating_code(value: Option<&str>) -> (r: Option<String>)
    ensures
        opt_view(r) == roster_rating_code(opt_str_view(value)),
{
    let raw = match value {
        Some(v) => trim(v),
        None => return None,
    };
    if raw.unicode_len() == 0 {
        return None;
    }
    let up = to_ascii_uppercase(raw);
    let u = up.as_str();
    let normalized = if str_eq(u, "OBS") || str_eq(u, "OBSERVER") {
        "OBS"
    } else if str_eq(u, "S1") || str_eq(u, "STUDENT1") {
        "S1"
    } else if str_eq(u, "S2") || str_eq(u, "STUDENT2") {
        "S2"
    } else if str_eq(u, "S3") || str_eq(u, "STUDENT3") || str_eq(u, "SENIORSTUDENT") {
        "S3"
    } else if str_eq(u, "C1") || str_eq(u, "CONTROLLER1") {
        "C1"
    } else if str_eq(u, "C2") || str_eq(u, "CONTROLLER2") {
        "C2"
    } else if str_eq(u, "C3") || str_eq(u, "CONTROLLER3") {
        "C3"
    } else if str_eq(u, "I1") || str_eq(u, "INSTRUCTOR1") {
        "I1"
    } else if str_eq(u, "I2") || str_eq(u, "INSTRUCTOR2") {
        "I2"
    } else if str_eq(u, "I3") || str_eq(u, "INS") || str_eq(u, "INSTRUCTOR") || str_eq(
        u,
        "INSTRUCTOR3",
    ) {
        "I3"
    } else if str_eq(u, "SUP") || str_eq(u, "SUPERVISOR") {
        "SUP"
    } else if str_eq(u, "ADM") || str_eq(u, "ADMIN") || str_eq(u, "ADMINISTRATOR") {
        "ADM"
    } else {
        return Some(up);
    };
    Some(owned(normalized))
}

/// The short code of a numeric VATSIM rating; `SUS` for an unknown number.
pub open spec fn numeric_rating_code(value: int) -> Seq<char> {
    if value == 1 {
        "OBS"@
    } else if value == 2 {
        "S1"@
    } else if value == 3 {
        "S2"@
    } else if value == 4 {
        "S3"@
    } else if value == 5 {
        "C1"@
    } else if value == 6 {
        "C2"@
    } else if value == 7 {
        "C3"@
    } else if value == 8 {
        "I1"@
    } else if value == 9 {
        "I2"@
    } else if value == 10 {
        "I3"@
    } else if value == 11 {
        "SUP"@
    } else if value == 12 {
        "ADM"@
    } else {
        "SUS"@
    }
}

/// The short codes of the VATSIM ratings 1 to 12, in order.
pub open spec fn vatsim_rating_codes() -> Seq<Seq<char>> {
    seq!["OBS"@, "S1"@, "S2"@, "S3"@, "C1"@, "C2"@, "C3"@, "I1"@, "I2"@, "I3"@, "SUP"@, "ADM"@]
}

/// The numeric VATSIM ratings 1 to 12 map, in order, onto OBS, S1, S2, S3, C1, C2, C3,
/// I1, I2, I3, SUP and ADM, distinct ratings onto distinct codes; any other number reads
/// as SUS, which no rating from 1 to 12 gives.
pub proof fn numeric_rating_table(a: int, b: int)
    ensures
        1 <= a <= 12 ==> numeric_rating_code(a) == vatsim_rating_codes()[a - 1],
        !(1 <= a <= 12) ==> numeric_rating_code(a) == "SUS"@,
        1 <= a <= 12 && 1 <= b <= 12 && a != b ==> numeric_rating_code(a) != numeric_rating_code(b),
        1 <= a <= 12 ==> numeric_rating_code(a) != "SUS"@,
{
    reveal_strlit("OBS");
    reveal_strlit("S1");
    reveal_strlit("S2");
    reveal_strlit("S3");
    reveal_strlit("C1");
    reveal_strlit("C2");
    reveal_strlit("C3");
    reveal_strlit("I1");
    reveal_strlit("I2");
    reveal_strlit("I3");
    reveal_strlit("SUP");
    reveal_strlit("ADM");
    reveal_strlit("SUS");
    let codes = vatsim_rating_codes().push("SUS"@);
    assert forall|x: int, y: int| 0 <= x < y < 13 implies #[trigger] codes[x] != #[trigger] codes[y] by {
        assert(codes[x][0] != codes[y][0] || codes[x][1] != codes[y][1] || codes[x][2] != codes[y][2]);
    }
    if 1 <= a <= 12 {
        assert(numeric_rating_code(a) == codes[a - 1]);
        assert(codes[12] == "SUS"@);
        assert(codes[a - 1] != codes[12]);
        if 1 <= b <= 12 && a != b {
            assert(numeric_rating_code(b) == codes[b - 1]);
            if a < b {
                assert(codes[a - 1] != codes[b - 1]);
            } else {
                assert(codes[b - 1] != codes[a - 1]);
            }
        }
    }
}

/// Maps a numeric VATSIM rating to its short code (`cid` names the controller in logs).
pub fn numeric_rating_to_short_code(value: i32, cid: i64) -> (r: &'static str)
    ensures
        r@ == numeric_rating_code(value as int),
{
    match value {
        1 => "OBS",
        2 => "S1",
        3 => "S2",
        4 => "S3",
        5 => "C1",
        6 => "C2",
        7 => "C3",
        8 => "I1",
        9 => "I2",
        10 => "I3",
        11 => "SUP",
        12 => "ADM",
        _ => "SUS",
    }
}

/// The rating stored for a controller: the short rating name when it is given and not
/// blank, else the code of the numeric rating.
pub open spec fn resolved_rating(rating_short: Option<Seq<char>>, rating: int) -> Seq<char> {
    match roster_rating_code(rating_short) {
        Some(code) => code,
        None => numeric_rating_code(rating),
    }
}

/// Chooses the rating code to store for a controller.
pub fn resolve_rating_code(rating_short: Option<&str>, rating: i32, cid: i64) -> (r: String)
    ensures
        r@ == resolved_rating(opt_str_view(rating_short), rating as int),
{
    if let Some(code) = normalize_rating_code(rating_short) {
        return code;
    }
    owned(numeric_rating_to_short_code(rating, cid))
}

// ---------------------------------------------------------------------------
// Matched and off-roster updates
// ---------------------------------------------------------------------------

/// First and last name joined by a space, without surrounding whitespace.
pub open spec fn full_name_spec(first: Seq<char>, last: Seq<char>) -> Seq<char> {
    trimmed(trimmed(first) + " "@ + trimmed(last))
}

/// Joins a first and last name.
pub fn build_full_name(first_name: &str, last_name: &str) -> (r: String)
    ensures
        r@ == full_name_spec(first_name@, last_name@),
{
    let joined = concat3(trim(first_name), " ", trim(last_name));
    owned(trim(joined.as_str()))
}

/// Reads a roster join timestamp; a text that is not RFC 3339 gives none.
pub fn parse_timestamp(value: &str, cid: i64) -> (r: Option<UtcTimestamp>)
    ensures
        instant_parts(r) == parsed_instant(value@),
{
    parse_rfc3339(value)
}

/// An e-mail address as stored: trimmed, and none when blank.
pub open spec fn cleaned_email(email: Option<Seq<char>>) -> Option<Seq<char>> {
    match email {
        Some(e) => if trimmed(e).len() == 0 {
            None
        } else {
            Some(trimmed(e))
        },
        None => None,
    }
}

/// The join date a roster entry carries, when it carries a readable one.
pub open spec fn join_date_of(facility_join: Option<Seq<char>>) -> Option<(i64, u32)> {
    match facility_join {
        Some(text) => parsed_instant(text),
        None => None,
    }
}

/// The update of a local user that a roster lists: names and rating from the VATUSA
/// record, status from the roster, the home facility from the roster for a home member
/// and from the VATUSA record for a visitor.
pub fn build_matched_update(
    local_user: &LocalRosterUser,
    desired: &DesiredMembership,
    detail: VatusaUserDetail,
) -> (r: MatchedUserUpdate)
    ensures
        r.user_id@ == local_user.user_id@,
        r.cid == local_user.cid,
        r.first_name@ == trimmed(detail.fname@),
        r.last_name@ == trimmed(detail.lname@),
        r.full_name@ == full_name_spec(trimmed(detail.fname@), trimmed(detail.lname@)),
        r.display_name@ == r.full_name@,
        opt_view(r.email) == cleaned_email(opt_view(detail.email)),
        r.rating@ == resolved_rating(opt_view(detail.rating_short), detail.rating as int),
        r.controller_status@ == membership_db_value(desired.status),
        instant_parts(r.join_date) == join_date_of(opt_view(desired.roster_user.facility_join)),
        opt_view(r.home_facility) == match desired.status {
            MembershipStatus::Home => Some(desired.roster_user.facility@),
            MembershipStatus::Visitor => None,
        },
        opt_view(r.visitor_home_facility) == match desired.status {
            MembershipStatus::Home => None,
            MembershipStatus::Visitor => Some(trimmed(detail.facility@)),
        },
{
    let first_name = owned(trim(detail.fname.as_str()));
    let last_name = owned(trim(detail.lname.as_str()));
    let full_name = build_full_name(first_name.as_str(), last_name.as_str());
    let join_date = match &desired.roster_user.facility_join {
        Some(value) => parse_timestamp(value.as_str(), local_user.cid),
        None => None,
    };
    let (home_facility, visitor_home_facility) = match desired.status {
        MembershipStatus::Home => (Some(desired.roster_user.facility.clone()), None),
        MembershipStatus::Visitor => (None, Some(owned(trim(detail.facility.as_str())))),
    };
    let email = match &detail.email {
        Some(value) => {
            let t = trim(value.as_str());
            if t.unicode_len() == 0 {
                None
            } else {
                Some(owned(t))
            }
        },
        None => None,
    };
    let rating = match &detail.rating_short {
        Some(s) => resolve_rating_code(Some(s.as_str()), detail.rating, local_user.cid),
        None => resolve_rating_code(None, detail.rating, local_user.cid),
    };
    let display_name = full_name.clone();
    MatchedUserUpdate {
        user_id: local_user.user_id.clone(),
        cid: local_user.cid,
        first_name,
        last_name,
        full_name,
        display_name,
        email,
        rating,
        controller_status: owned(desired.status.as_db_value()),
        join_date,
        home_facility,
        visitor_home_facility,
    }
}

/// The demotion of a member that no roster lists: no controller status, an inactive
/// membership.
pub fn build_off_roster_update(local_user: &LocalRosterUser) -> (r: OffRosterUpdate)
    ensures
        r.user_id@ == local_user.user_id@,
        r.cid == local_user.cid,
        r.controller_status@ == "NONE"@,
        r.membership_status@ == "INACTIVE"@,
        !r.is_active,
{
    OffRosterUpdate {
        user_id: local_user.user_id.clone(),
        cid: local_user.cid,
        controller_status: "NONE",
        membership_status: "INACTIVE",
        is_active: false,
    }
}

/// Which parts of a local membership a matched update changes. A matched update always
/// leaves the membership `ACTIVE`.
pub fn summarize_membership_change(
    local_user: &LocalRosterUser,
    update: &MatchedUserUpdate,
) -> (r: MembershipChangeSummary)
    ensures
        r.created_membership == !local_user.has_membership,
        r.rating_changed == (opt_view(local_user.rating) != Some(update.rating@)),
        r.controller_status_changed == (opt_view(local_user.controller_status) != Some(
            update.controller_status@,
        )),
        r.membership_status_changed == (opt_view(local_user.membership_status) != Some(
            "ACTIVE"@,
        )),
        r.home_facility_changed == (opt_view(local_user.home_facility) != opt_view(
            update.home_facility,
        )),
        r.visitor_home_facility_changed == (opt_view(local_user.visitor_home_facility)
            != opt_view(update.visitor_home_facility)),
{
    let rating_changed = match &local_user.rating {
        Some(value) => !str_eq(value.as_str(), update.rating.as_str()),
        None => true,
    };
    let controller_status_changed = match &local_user.controller_status {
        Some(value) => !str_eq(value.as_str(), update.controller_status.as_str()),
        None => true,
    };
    let membership_status_changed = match &local_user.membership_status {
        Some(value) => !str_eq(value.as_str(), "ACTIVE"),
        None => true,
    };
    MembershipChangeSummary {
        created_membership: !local_user.has_membership,
        rating_changed,
        controller_status_changed,
        membership_status_changed,
        home_facility_changed: !opt_string_eq(&local_user.home_facility, &update.home_facility),
        visitor_home_facility_changed: !opt_string_eq(
            &local_user.visitor_home_facility,
            &update.visitor_home_facility,
        ),
    }
}

/// A matched update that restates an existing active membership changes nothing.
pub proof fn restating_membership_is_no_change(
    local_user: LocalRosterUser,
    update: MatchedUserUpdate,
    summary: MembershipChangeSummary,
)
    requires
        local_user.has_membership,
        opt_view(local_user.rating) == Some(update.rating@),
        opt_view(local_user.controller_status) == Some(update.controller_status@),
        opt_view(local_user.membership_status) == Some("ACTIVE"@),
        opt_view(local_user.home_facility) == opt_view(update.home_facility),
        opt_view(local_user.visitor_home_facility) == opt_view(update.visitor_home_facility),
        summary.created_membership == !local_user.has_membership,
        summary.rating_changed == (opt_view(local_user.rating) != Some(update.rating@)),
        summary.controller_status_changed == (opt_view(local_user.controller_status) != Some(
            update.controller_status@,
        )),
        summary.membership_status_changed == (opt_view(local_user.membership_status) != Some(
            "ACTIVE"@,
        )),
        summary.home_facility_changed == (opt_view(local_user.home_facility) != opt_view(
            update.home_facility,
        )),
        summary.visitor_home_facility_changed == (opt_view(local_user.visitor_home_facility)
            != opt_view(update.visitor_home_facility)),
    ensures
        !(summary.created_membership || summary.rating_changed || summary.controller_status_changed
            || summary.membership_status_changed || summary.home_facility_changed
            || summary.visitor_home_facility_changed),
{
}

// ---------------------------------------------------------------------------
// Run bookkeeping
// ---------------------------------------------------------------------------

/// The warning a run reports when some VATUSA records could not be fetched.
pub open spec fn warning_summary(failed: nat) -> Option<Seq<char>> {
    if failed == 0 {
        None
    } else {
        Some("detail fetch failed for "@ + decimal(failed) + " users"@)
    }
}

/// Describes the controllers whose VATUSA record could not be fetched.
pub fn build_warning_summary(failed_detail_cids: &[i64]) -> (r: Option<String>)
    ensures
        opt_view(r) == warning_summary(failed_detail_cids@.len()),
{
    if failed_detail_cids.len() == 0 {
        None
    } else {
        let count = u64_to_decimal(failed_detail_cids.len() as u64);
        Some(concat3("detail fetch failed for ", count.as_str(), " users"))
    }
}

/// Why a synchronization run failed.
pub enum RosterSyncError {
    DatabaseUnavailable,
    Api(ApiError),
}

/// The text stored for an error that ended a run.
pub open spec fn api_error_text(err: ApiError) -> Seq<char> {
    match err {
        ApiError::BadRequest => "bad request"@,
        ApiError::NotFound => "not found"@,
        ApiError::OAuthLoginOriginMismatch => "oauth login origin mismatch"@,
        ApiError::OAuthStateCookieMissing => "oauth state cookie missing"@,
        ApiError::OAuthStateMismatch => "oauth state mismatch"@,
        ApiError::Unauthorized => "unauthorized"@,
        ApiError::ServiceUnavailable => "service unavailable"@,
        ApiError::Internal => "internal error"@,
    }
}

/// Describes an error that ended a run.
pub fn format_roster_sync_error(err: &ApiError) -> (r: String)
    ensures
        r@ == api_error_text(*err),
{
    let text = match err {
        ApiError::BadRequest => "bad request",
        ApiError::NotFound => "not found",
        ApiError::OAuthLoginOriginMismatch => "oauth login origin mismatch",
        ApiError::OAuthStateCookieMissing => "oauth state cookie missing",
        ApiError::OAuthStateMismatch => "oauth state mismatch",
        ApiError::Unauthorized => "unauthorized",
        ApiError::ServiceUnavailable => "service unavailable",
        ApiError::Internal => "internal error",
    };
    owned(text)
}

// ---------------------------------------------------------------------------
// Configuration
// ---------------------------------------------------------------------------

/// The settings of the roster synchronization worker.
#[derive(Debug)]
pub struct RosterSyncConfig {
    pub api_key: String,
    pub facility_id: String,
    pub api_base_url: String,
    pub interval_secs: u64,
}

/// Whether a `ROSTER_SYNC_ENABLED` value turns the worker on; an absent value does.
pub open spec fn roster_sync_enabled_spec(raw: Option<Seq<char>>) -> bool {
    match raw {
        None => true,
        Some(v) => lower(v) == "1"@ || lower(v) == "true"@ || lower(v) == "yes"@,
    }
}

/// Reads the `ROSTER_SYNC_ENABLED` setting.
pub fn roster_sync_enabled_from(raw: Option<&str>) -> (r: bool)
    ensures
        r == roster_sync_enabled_spec(opt_str_view(raw)),
{
    match raw {
        None => true,
        Some(value) => {
            let v = to_ascii_lowercase(value);
            str_eq(v.as_str(), "1") || str_eq(v.as_str(), "true") || str_eq(v.as_str(), "yes")
        },
    }
}

/// The run interval a `ROSTER_SYNC_INTERVAL_SECS` value gives: the number when it reads
/// as one, else 900 seconds; never below 60 seconds.
pub open spec fn roster_sync_interval_spec(raw: Option<Seq<char>>) -> int {
    let base = match raw {
        Some(v) => match parse_unsigned(v, u64::MAX as int) {
            Some(n) => n,
            None => 900,
        },
        None => 900,
    };
    if base < 60 {
        60
    } else {
        base
    }
}

/// Reads the `ROSTER_SYNC_INTERVAL_SECS` setting.
pub fn roster_sync_interval_from(raw: Option<&str>) -> (r: u64)
    ensures
        r as int == roster_sync_interval_spec(opt_str_view(raw)),
{
    let base = match raw {
        Some(value) => match parse_unsigned_max(value, u64::MAX) {
            Some(n) => n,
            None => DEFAULT_INTERVAL_SECS,
        },
        None => DEFAULT_INTERVAL_SECS,
    };
    if base < 60 {
        60
    } else {
        base
    }
}

/// The facility a `VATUSA_FACILITY_ID` value names: trimmed and upper-cased, `ZDC` when
/// absent or blank.
pub open spec fn facility_id_spec(raw: Option<Seq<char>>) -> Seq<char> {
    match raw {
        Some(v) => if trimmed(v).len() > 0 {
            upper(trimmed(v))
        } else {
            "ZDC"@
        },
        None => "ZDC"@,
    }
}

/// The API root a `VATUSA_API_BASE_URL` value names: trimmed, without trailing slashes,
/// the public VATUSA API when absent or empty.
pub open spec fn api_base_url_spec(raw: Option<Seq<char>>) -> Seq<char> {
    match raw {
        Some(v) => if strip_trailing(trimmed(v), '/').len() > 0 {
            strip_trailing(trimmed(v), '/')
        } else {
            "https://api.vatusa.net/v2"@
        },
        None => "https://api.vatusa.net/v2"@,
    }
}

/// Reads the facility setting.
pub fn facility_id_from(raw: Option<&str>) -> (r: String)
    ensures
        r@ == facility_id_spec(opt_str_view(raw)),
{
    match raw {
        Some(value) => {
            let t = trim(value);
            if t.unicode_len() > 0 {
                to_ascii_uppercase(t)
            } else {
                owned("ZDC")
            }
        },
        None => owned("ZDC"),
    }
}

/// Reads the API root setting.
pub fn api_base_url_from(raw: Option<&str>) -> (r: String)
    ensures
        r@ == api_base_url_spec(opt_str_view(raw)),
{
    match raw {
        Some(value) => {
            let t = trim_end_char(trim(value), '/');
            if t.unicode_len() > 0 {
                owned(t)
            } else {
                owned("https://api.vatusa.net/v2")
            }
        },
        None => owned("https://api.vatusa.net/v2"),
    }
}

/// Builds the worker settings from the raw environment values: none when the worker is
/// switched off, an error when it is on but no API key is set (a blank key counts as none).
pub fn roster_sync_config_from_values(
    enabled: Option<&str>,
    api_key: Option<&str>,
    facility_id: Option<&str>,
    api_base_url: Option<&str>,
    interval_secs: Option<&str>,
) -> (r: Result<Option<RosterSyncConfig>, String>)
    ensures
        !roster_sync_enabled_spec(opt_str_view(enabled)) ==> r matches Ok(None),
        roster_sync_enabled_spec(opt_str_view(enabled)) ==> match api_key {
            Some(k) if trimmed(k@).len() > 0 => r matches Ok(Some(c)) && c.api_key@ == k@
                && c.facility_id@ == facility_id_spec(opt_str_view(facility_id))
                && c.api_base_url@ == api_base_url_spec(opt_str_view(api_base_url))
                && c.interval_secs as int == roster_sync_interval_spec(opt_str_view(interval_secs)),
            _ => r matches Err(m) && m@ == "missing VATUSA_API_KEY"@,
        },
{
    if !roster_sync_enabled_from(enabled) {
        return Ok(None);
    }
    let key = match api_key {
        Some(value) => {
            if trim(value).unicode_len() > 0 {
                owned(value)
            } else {
                return Err(owned("missing VATUSA_API_KEY"));
            }
        },
        None => return Err(owned("missing VATUSA_API_KEY")),
    };
    Ok(
        Some(
            RosterSyncConfig {
                api_key: key,
                facility_id: facility_id_from(facility_id),
                api_base_url: api_base_url_from(api_base_url),
                interval_secs: roster_sync_interval_from(interval_secs),
            },
        ),
    )
}

// ---------------------------------------------------------------------------
// Planning a run
// ---------------------------------------------------------------------------

/// What a run does with the local users before contacting VATUSA again: the positions of
/// the users that some roster lists (their VATUSA record is fetched next), and the
/// demotion of every member that no roster lists.
pub struct RosterSyncPlan {
    pub detail_fetches: Vec<usize>,
    pub off_roster_updates: Vec<OffRosterUpdate>,
    pub processed: usize,
    pub matched: usize,
    pub desired_missing_local_users: usize,
}

/// The CIDs of the local users.
pub open spec fn local_cids(users: Seq<LocalRosterUser>) -> Set<i64> {
    Set::new(|c: i64| exists|i: int| 0 <= i < users.len() && #[trigger] users[i].cid == c)
}

/// How many CIDs the rosters list that no local user has.
pub open spec fn desired_missing(users: Seq<LocalRosterUser>, desired: Map<i64, DesiredMembership>) -> nat {
    desired.dom().difference(local_cids(users)).len()
}

/// Counts the CIDs the rosters list that no local user has.
fn count_desired_missing(local_users: &Vec<LocalRosterUser>, desired: &HashMap<i64, DesiredMembership>) -> (r: usize)
    ensures
        r == desired_missing(local_users@, desired@),
{
    let ghost dom = desired@.dom();
    let total = desired.len();
    assert(total == dom.len());
    let mut known: usize = 0;
    let ghost mut seen: Set<i64> = Set::empty();
    let mut i: usize = 0;
    while i < local_users.len()
        invariant
            dom == desired@.dom(),
            dom.finite(),
            total == dom.len(),
            i <= local_users@.len(),
            seen.finite(),
            seen =~= dom.intersect(local_cids(local_users@.subrange(0, i as int))),
            known == seen.len(),
            seen.subset_of(dom),
        decreases local_users@.len() - i,
    {
        let cid = local_users[i].cid;
        let mut earlier = false;
        let mut j: usize = 0;
        while j < i
            invariant
                i < local_users@.len(),
                j <= i,
                cid == local_users@[i as int].cid,
                earlier == exists|q: int| 0 <= q < j && #[trigger] local_users@[q].cid == cid,
            decreases i - j,
        {
            if local_users[j].cid == cid {
                earlier = true;
            }
            j = j + 1;
        }
        let ghost prev = local_users@.subrange(0, i as int);
        let ghost next = local_users@.subrange(0, i + 1);
        proof {
            assert(local_cids(next) =~= local_cids(prev).insert(cid)) by {
                assert forall|c: i64| local_cids(next).contains(c) implies local_cids(prev).insert(cid).contains(c) by {
                    let q = choose|q: int| 0 <= q < next.len() && #[trigger] next[q].cid == c;
                    if q < i {
                        assert(prev[q].cid == c);
                    }
                }
                assert forall|c: i64| local_cids(prev).insert(cid).contains(c) implies local_cids(next).contains(c) by {
                    if c == cid {
                        assert(next[i as int].cid == c);
                    } else {
                        let q = choose|q: int| 0 <= q < prev.len() && #[trigger] prev[q].cid == c;
                        assert(next[q].cid == c);
                    }
                }
            }
            vstd::set_lib::lemma_len_subset(seen, dom);
        }
        if desired.contains_key(&cid) && !earlier {
            proof {
                assert(!seen.contains(cid)) by {
                    if seen.contains(cid) {
                        let q = choose|q: int| 0 <= q < prev.len() && #[trigger] prev[q].cid == cid;
                        assert(local_users@[q].cid == cid);
                    }
                }
                vstd::set_lib::lemma_len_subset(seen.insert(cid), dom);
            }
            known = known + 1;
            proof {
                seen = seen.insert(cid);
            }
        } else {
            proof {
                if earlier {
                    let q = choose|q: int| 0 <= q < i && #[trigger] local_users@[q].cid == cid;
                    assert(prev[q].cid == cid);
                }
            }
        }
        i = i + 1;
    }
    assert(local_users@.subrange(0, local_users@.len() as int) =~= local_users@);
    proof {
        vstd::set_lib::lemma_set_difference_len(dom, seen);
        assert(dom.intersect(seen) =~= seen);
        assert(dom.difference(local_cids(local_users@)) =~= dom.difference(seen));
        vstd::set_lib::lemma_len_subset(seen, dom);
    }
    total - known
}

/// The positions of the local users that the desired memberships list, in order.
pub open spec fn listed_positions(users: Seq<LocalRosterUser>, desired: Map<i64, DesiredMembership>) -> Seq<usize>
    decreases users.len(),
{
    if users.len() == 0 {
        Seq::empty()
    } else {
        let p = listed_positions(users.drop_last(), desired);
        if desired.contains_key(users.last().cid) {
            p.push((users.len() - 1) as usize)
        } else {
            p
        }
    }
}

/// The local users that are members but that the desired memberships do not list.
pub open spec fn unlisted_members(users: Seq<LocalRosterUser>, desired: Map<i64, DesiredMembership>) -> Seq<LocalRosterUser>
    decreases users.len(),
{
    if users.len() == 0 {
        Seq::empty()
    } else {
        let p = unlisted_members(users.drop_last(), desired);
        if !desired.contains_key(users.last().cid) && users.last().has_membership {
            p.push(users.last())
        } else {
            p
        }
    }
}

/// Sorts the local users into those to update from VATUSA and those to demote.
pub fn plan_roster_sync(
    local_users: &Vec<LocalRosterUser>,
    desired: &HashMap<i64, DesiredMembership>,
) -> (r: RosterSyncPlan)
    ensures
        r.processed == local_users@.len(),
        r.desired_missing_local_users == desired_missing(local_users@, desired@),
        r.detail_fetches@ == listed_positions(local_users@, desired@),
        r.matched == r.detail_fetches@.len(),
        r.off_roster_updates@.len() == unlisted_members(local_users@, desired@).len(),
        forall|k: int|
            0 <= k < r.off_roster_updates@.len() ==> {
                let u = #[trigger] r.off_roster_updates@[k];
                let m = unlisted_members(local_users@, desired@)[k];
                &&& u.user_id@ == m.user_id@
                &&& u.cid == m.cid
                &&& u.controller_status@ == "NONE"@
                &&& u.membership_status@ == "INACTIVE"@
                &&& !u.is_active
            },
{
    let mut detail_fetches: Vec<usize> = Vec::new();
    let mut off_roster_updates: Vec<OffRosterUpdate> = Vec::new();
    let mut i: usize = 0;
    while i < local_users.len()
        invariant
            i <= local_users@.len(),
            detail_fetches@ == listed_positions(local_users@.subrange(0, i as int), desired@),
            off_roster_updates@.len() == unlisted_members(
                local_users@.subrange(0, i as int),
                desired@,
            ).len(),
            forall|k: int|
                0 <= k < off_roster_updates@.len() ==> {
                    let u = #[trigger] off_roster_updates@[k];
                    let m = unlisted_members(local_users@.subrange(0, i as int), desired@)[k];
                    &&& u.user_id@ == m.user_id@
                    &&& u.cid == m.cid
                    &&& u.controller_status@ == "NONE"@
                    &&& u.membership_status@ == "INACTIVE"@
                    &&& !u.is_active
                },
        decreases local_users@.len() - i,
    {
        let user = &local_users[i];
        let ghost prev = local_users@.subrange(0, i as int);
        let ghost next = local_users@.subrange(0, i + 1);
        assert(next.drop_last() =~= prev);
        assert(next.last() == *user);
        if desired.contains_key(&user.cid) {
            detail_fetches.push(i);
        } else if user.has_membership {
            let update = build_off_roster_update(user);
            off_roster_updates.push(update);
            assert(unlisted_members(next, desired@) == unlisted_members(prev, desired@).push(*user));
        }
        i = i + 1;
    }
    assert(local_users@.subrange(0, local_users@.len() as int) =~= local_users@);
    let matched = detail_fetches.len();
    let desired_missing_local_users = count_desired_missing(local_users, desired);
    RosterSyncPlan { detail_fetches, off_roster_updates, processed: local_users.len(), matched, desired_missing_local_users }
}

// ---------------------------------------------------------------------------
// Finishing a run
// ---------------------------------------------------------------------------

/// What a completed run reports.
#[derive(Debug)]
pub struct RosterSyncRunResult {
    pub processed: usize,
    pub matched: usize,
    pub updated: usize,
    pub demoted: usize,
    pub skipped: usize,
    pub created_memberships: usize,
    pub changed_ratings: usize,
    pub detail_failures: usize,
    pub desired_missing_local_users: usize,
    pub warning: Option<String>,
}

/// How many of the changes create a membership.
pub open spec fn count_created(s: Seq<MembershipChangeSummary>) -> nat
    decreases s.len(),
{
    if s.len() == 0 {
        0
    } else {
        count_created(s.drop_last()) + if s.last().created_membership {
            1nat
        } else {
            0nat
        }
    }
}

/// How many of the changes change a rating.
pub open spec fn count_rating_changes(s: Seq<MembershipChangeSummary>) -> nat
    decreases s.len(),
{
    if s.len() == 0 {
        0
    } else {
        count_rating_changes(s.drop_last()) + if s.last().rating_changed {
            1nat
        } else {
            0nat
        }
    }
}

proof fn lemma_counts_bounded(s: Seq<MembershipChangeSummary>)
    ensures
        count_created(s) <= s.len(),
        count_rating_changes(s) <= s.len(),
    decreases s.len(),
{
    if s.len() > 0 {
        lemma_counts_bounded(s.drop_last());
    }
}

/// Sums up a completed run: the plan's counts, one update per fetched record, one
/// demotion per unlisted member, one skip per record that could not be fetched. Every
/// listed member's record is either fetched and applied or skipped, and each change
/// summarizes one applied update.
pub fn finish_roster_sync_run(
    plan: &RosterSyncPlan,
    applied_updates: usize,
    failed_detail_cids: &[i64],
    changes: &[MembershipChangeSummary],
) -> (r: RosterSyncRunResult)
    requires
        applied_updates + failed_detail_cids@.len() == plan.matched,
        changes@.len() == applied_updates,
    ensures
        r.updated + r.skipped == r.matched,
        r.created_memberships <= r.updated,
        r.changed_ratings <= r.updated,
        r.processed == plan.processed,
        r.matched == plan.matched,
        r.updated == applied_updates,
        r.demoted == plan.off_roster_updates@.len(),
        r.skipped == failed_detail_cids@.len(),
        r.detail_failures == failed_detail_cids@.len(),
        r.created_memberships == count_created(changes@),
        r.changed_ratings == count_rating_changes(changes@),
        r.desired_missing_local_users == plan.desired_missing_local_users,
        opt_view(r.warning) == warning_summary(failed_detail_cids@.len()),
{
    let mut created: usize = 0;
    let mut changed: usize = 0;
    let mut i: usize = 0;
    while i < changes.len()
        invariant
            i <= changes@.len(),
            created == count_created(changes@.subrange(0, i as int)),
            changed == count_rating_changes(changes@.subrange(0, i as int)),
        decreases changes@.len() - i,
    {
        let ghost prev = changes@.subrange(0, i as int);
        assert(changes@.subrange(0, i + 1).drop_last() =~= prev);
        proof {
            lemma_counts_bounded(prev);
        }
        if changes[i].created_membership {
            created = created + 1;
        }
        if changes[i].rating_changed {
            changed = changed + 1;
        }
        i = i + 1;
    }
    assert(changes@.subrange(0, changes@.len() as int) =~= changes@);
    proof {
        lemma_counts_bounded(changes@);
    }
    RosterSyncRunResult {
        processed: plan.processed,
        matched: plan.matched,
        updated: applied_updates,
        demoted: plan.off_roster_updates.len(),
        skipped: failed_detail_cids.len(),
        created_memberships: created,
        changed_ratings: changed,
        detail_failures: failed_detail_cids.len(),
        desired_missing_local_users: plan.desired_missing_local_users,
        warning: build_warning_summary(failed_detail_cids),
    }
}

// ---------------------------------------------------------------------------
// Health bookkeeping
// ---------------------------------------------------------------------------

/// The counts that the roster job's health record shows.
#[derive(Debug)]
pub struct RosterSyncMetrics {
    pub processed: Option<usize>,
    pub matched: Option<usize>,
    pub updated: Option<usize>,
    pub demoted: Option<usize>,
    pub skipped: Option<usize>,
}

/// Records the worker's settings at start-up: enabled with a configuration, disabled
/// without one, disabled and failed when the configuration is refused.
pub fn record_roster_sync_setup(
    health: &mut JobHealthRecord<RosterSyncMetrics>,
    config: &Result<Option<RosterSyncConfig>, String>,
)
    ensures
        final(health).metrics == old(health).metrics,
        final(health).last_started_at == old(health).last_started_at,
        final(health).last_finished_at == old(health).last_finished_at,
        final(health).last_success_at == old(health).last_success_at,
        match config {
            Ok(Some(_)) => final(health).enabled && final(health).last_error is None
                && final(health).last_result_ok == old(health).last_result_ok,
            Ok(None) => !final(health).enabled && final(health).last_error is None
                && final(health).last_result_ok == old(health).last_result_ok,
            Err(message) => !final(health).enabled && opt_view(final(health).last_error) == Some(
                message@,
            ) && final(health).last_result_ok == Some(false),
        },
{
    match config {
        Ok(Some(_)) => {
            health.enabled = true;
            health.last_error = None;
        },
        Ok(None) => {
            health.enabled = false;
            health.last_error = None;
        },
        Err(message) => {
            health.enabled = false;
            health.last_result_ok = Some(false);
            health.last_error = Some(message.clone());
        },
    }
}

/// Decides at start-up whether the roster worker runs: the health record takes the
/// settings as `record_roster_sync_setup` does, and the worker runs, with its
/// configuration, only when one was read.
pub fn start_roster_sync_worker(
    health: &mut JobHealthRecord<RosterSyncMetrics>,
    config: Result<Option<RosterSyncConfig>, String>,
) -> (r: Option<RosterSyncConfig>)
    ensures
        r == match config {
            Ok(Some(c)) => Some(c),
            _ => None::<RosterSyncConfig>,
        },
        final(health).last_started_at == old(health).last_started_at,
        final(health).last_finished_at == old(health).last_finished_at,
        final(health).last_success_at == old(health).last_success_at,
        final(health).metrics == old(health).metrics,
        match config {
            Ok(Some(_)) => final(health).enabled && final(health).last_error is None
                && final(health).last_result_ok == old(health).last_result_ok,
            Ok(None) => !final(health).enabled && final(health).last_error is None
                && final(health).last_result_ok == old(health).last_result_ok,
            Err(message) => !final(health).enabled && opt_view(final(health).last_error) == Some(
                message@,
            ) && final(health).last_result_ok == Some(false),
        },
{
    record_roster_sync_setup(health, &config);
    match config {
        Ok(Some(c)) => Some(c),
        _ => None,
    }
}

/// Records how a run ended: a completed run is a success whose verdict is whether it
/// had no warning; a failed run keeps the old counts and stores why it failed.
pub fn record_roster_sync_outcome(
    health: &mut JobHealthRecord<RosterSyncMetrics>,
    outcome: &Result<RosterSyncRunResult, RosterSyncError>,
    finished_at: UtcTimestamp,
    succeeded_at: UtcTimestamp,
)
    ensures
        final(health).enabled == old(health).enabled,
        final(health).last_started_at == old(health).last_started_at,
        final(health).last_finished_at == Some(finished_at),
        match outcome {
            Ok(result) => {
                &&& final(health).last_success_at == Some(succeeded_at)
                &&& final(health).last_result_ok == Some(result.warning is None)
                &&& opt_view(final(health).last_error) == opt_view(result.warning)
                &&& final(health).metrics.processed == Some(result.processed)
                &&& final(health).metrics.matched == Some(result.matched)
                &&& final(health).metrics.updated == Some(result.updated)
                &&& final(health).metrics.demoted == Some(result.demoted)
                &&& final(health).metrics.skipped == Some(result.skipped)
            },
            Err(err) => {
                &&& final(health).last_success_at == old(health).last_success_at
                &&& final(health).last_result_ok == Some(false)
                &&& final(health).metrics == old(health).metrics
                &&& opt_view(final(health).last_error) == Some(
                    match err {
                        RosterSyncError::DatabaseUnavailable => "database unavailable for roster sync"@,
                        RosterSyncError::Api(e) => api_error_text(*e),
                    },
                )
            },
        },
{
    match outcome {
        Ok(result) => {
            let last_error = match &result.warning {
                Some(w) => Some(w.clone()),
                None => None,
            };
            health.last_finished_at = Some(finished_at);
            health.last_success_at = Some(succeeded_at);
            health.last_result_ok = Some(last_error.is_none());
            health.last_error = last_error;
            health.metrics = RosterSyncMetrics {
                processed: Some(result.processed),
                matched: Some(result.matched),
                updated: Some(result.updated),
                demoted: Some(result.demoted),
                skipped: Some(result.skipped),
            };
        },
        Err(RosterSyncError::DatabaseUnavailable) => {
            health.last_finished_at = Some(finished_at);
            health.last_result_ok = Some(false);
            health.last_error = Some(owned("database unavailable for roster sync"));
        },
        Err(RosterSyncError::Api(err)) => {
            let message = format_roster_sync_error(err);
            health.last_finished_at = Some(finished_at);
            health.last_result_ok = Some(false);
            health.last_error = Some(message);
        },
    }
}

} // verus!
