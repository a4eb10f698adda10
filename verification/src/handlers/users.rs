//! The user directory: how a controller's name is shown, what everyone and what only
//! privileged viewers see, and the facility codes a visitor gives.
use vstd::prelude::*;

use crate::error::ApiError;
use crate::handlers::api_keys::{contains_permission, holds_permission, PermissionAction, PermissionPath};
use crate::handlers::files::utf8_len;
use crate::jobs::roster_sync::{build_full_name, full_name_spec};
use crate::text::{clone_opt, opt_view, owned, to_ascii_uppercase, trim, trimmed, upper};
use crate::timestamp::UtcTimestamp;

verus! {

/// A controller on the roster, as the directory reads them.
#[derive(Debug)]
pub struct RosterUserRow {
    pub id: String,
    pub cid: i64,
    pub email: Option<String>,
    pub display_name: String,
    pub role: Option<String>,
    pub first_name: Option<String>,
    pub last_name: Option<String>,
    pub rating: Option<String>,
    pub artcc: Option<String>,
    pub division: Option<String>,
    pub status: Option<String>,
    pub controller_status: Option<String>,
    pub membership_status: Option<String>,
    pub join_date: Option<UtcTimestamp>,
    pub home_facility: Option<String>,
    pub visitor_home_facility: Option<String>,
    pub is_active: bool,
}

/// What everyone may see of a controller.
#[derive(Debug)]
pub struct UserBasicInfo {
    pub cid: i64,
    pub name: String,
    pub rating: Option<String>,
}

/// What only the controller and privileged viewers may see.
#[derive(Debug)]
pub struct UserPrivateInfo {
    pub id: String,
    pub email: Option<String>,
    pub display_name: String,
    pub role: Option<String>,
    pub first_name: Option<String>,
    pub last_name: Option<String>,
    pub artcc: Option<String>,
    pub division: Option<String>,
    pub status: Option<String>,
    pub controller_status: Option<String>,
    pub membership_status: Option<String>,
    pub join_date: Option<UtcTimestamp>,
    pub home_facility: Option<String>,
    pub visitor_home_facility: Option<String>,
    pub is_active: bool,
}

/// An optional name part, empty when absent.
pub open spec fn part(value: Option<String>) -> Seq<char> {
    match value {
        Some(v) => v@,
        None => Seq::empty(),
    }
}

/// The name the directory shows: first and last name joined, else the display name.
pub open spec fn shown_name(row: RosterUserRow) -> Seq<char> {
    let joined = full_name_spec(part(row.first_name), part(row.last_name));
    if joined.len() == 0 {
        row.display_name@
    } else {
        joined
    }
}

/// The name the directory shows for a controller.
pub fn display_name(row: &RosterUserRow) -> (r: String)
    ensures
        r@ == shown_name(*row),
{
    let first = match &row.first_name {
        Some(v) => v.as_str(),
        None => "",
    };
    let last = match &row.last_name {
        Some(v) => v.as_str(),
        None => "",
    };
    proof {
        reveal_strlit("");
    }
    let joined = build_full_name(first, last);
    if joined.as_str().unicode_len() == 0 {
        row.display_name.clone()
    } else {
        joined
    }
}

/// What everyone may see of a controller.
pub fn basic_info_from_row(row: &RosterUserRow) -> (r: UserBasicInfo)
    ensures
        r.cid == row.cid,
        r.name@ == shown_name(*row),
        r.rating == row.rating,
{
    UserBasicInfo { cid: row.cid, name: display_name(row), rating: clone_opt(&row.rating) }
}

/// What privileged viewers see of a controller: the stored profile as it is.
pub fn private_info_from_row(row: &RosterUserRow) -> (r: UserPrivateInfo)
    ensures
        r.id == row.id,
        r.email == row.email,
        r.display_name == row.display_name,
        r.role == row.role,
        r.first_name == row.first_name,
        r.last_name == row.last_name,
        r.artcc == row.artcc,
        r.division == row.division,
        r.status == row.status,
        r.controller_status == row.controller_status,
        r.membership_status == row.membership_status,
        r.join_date == row.join_date,
        r.home_facility == row.home_facility,
        r.visitor_home_facility == row.visitor_home_facility,
        r.is_active == row.is_active,
{
    UserPrivateInfo {
        id: row.id.clone(),
        email: clone_opt(&row.email),
        display_name: row.display_name.clone(),
        role: clone_opt(&row.role),
        first_name: clone_opt(&row.first_name),
        last_name: clone_opt(&row.last_name),
        artcc: clone_opt(&row.artcc),
        division: clone_opt(&row.division),
        status: clone_opt(&row.status),
        controller_status: clone_opt(&row.controller_status),
        membership_status: clone_opt(&row.membership_status),
        join_date: row.join_date,
        home_facility: clone_opt(&row.home_facility),
        visitor_home_facility: clone_opt(&row.visitor_home_facility),
        is_active: row.is_active,
    }
}

/// Whether a user's permissions include reading the private directory
/// (`users.directory_private`).
pub fn can_view_private_directory(permissions: &[PermissionPath]) -> (r: bool)
    ensures
        r == holds_permission(permissions@, (seq!["users"@, "directory_private"@], PermissionAction::Read)),
{
    let wanted = PermissionPath {
        segments: vec![owned("users"), owned("directory_private")],
        action: PermissionAction::Read,
    };
    assert(crate::text::views_of(wanted.segments@) =~= seq!["users"@, "directory_private"@]);
    contains_permission(permissions, &wanted)
}

/// Whether a viewer sees a controller's full profile: their own, or any with the private
/// directory permission.
pub fn can_view_full_profile(row_cid: i64, viewer_cid: i64, can_view_private: bool) -> (r: bool)
    ensures
        r == (can_view_private || row_cid == viewer_cid),
{
    can_view_private || row_cid == viewer_cid
}

/// A facility code as given by a visitor: trimmed and upper-cased, one to eight bytes.
pub open spec fn facility_code_spec(value: Seq<char>) -> Result<Seq<char>, ApiError> {
    let v = upper(trimmed(value));
    if v.len() == 0 || utf8_len(v) > 8 {
        Err(ApiError::BadRequest)
    } else {
        Ok(v)
    }
}

/// Reads a facility code given by a visitor.
pub fn normalize_facility_code(value: &str) -> (r: Result<String, ApiError>)
    ensures
        match facility_code_spec(value@) {
            Ok(v) => r matches Ok(s) && s@ == v,
            Err(e) => r == Err::<String, ApiError>(e),
        },
{
    let v = to_ascii_uppercase(trim(value));
    if v.as_str().unicode_len() == 0 || v.as_str().as_bytes().len() > 8 {
        return Err(ApiError::BadRequest);
    }
    Ok(v)
}

/// Checks a visitor application: a facility code and a reason to visit (trimmed, not
/// blank); gives both as stored.
pub fn validate_visitor_application(home_facility: &str, why_visit: &str) -> (r: Result<(String, String), ApiError>)
    ensures
        match facility_code_spec(home_facility@) {
            Err(e) => r == Err::<(String, String), ApiError>(e),
            Ok(code) => if trimmed(why_visit@).len() == 0 {
                r == Err::<(String, String), ApiError>(ApiError::BadRequest)
            } else {
                r matches Ok((c, w)) && c@ == code && w@ == trimmed(why_visit@)
            },
        },
{
    let code = normalize_facility_code(home_facility)?;
    let why = trim(why_visit);
    if why.unicode_len() == 0 {
        return Err(ApiError::BadRequest);
    }
    Ok((code, owned(why)))
}

} // verus!
