//! Sign-in rules: the OAuth `prompt` and callback checks, the origin a login request must
//! come from, the server administrator named in the configuration, the access a login
//! grants, and the settings that are flags.
use std::str::FromStr;

use vstd::prelude::*;

use crate::error::ApiError;
use crate::handlers::files::{header_key, header_text, header_text_in, lemma_plain_header_key, visible_ascii_text};
use crate::text::{optional_text, 
    concat3, lower, opt_str_view, opt_view, owned, parse_i64, parse_i64_spec, str_eq,
    to_ascii_lowercase, trim, trimmed, u64_to_decimal, decimal,
};

verus! {

/// The query of a login request.
#[derive(Debug)]
pub struct LoginQuery {
    pub prompt: Option<String>,
}

/// The query VATSIM's OAuth service sends back to the callback.
#[derive(Debug)]
pub struct CallbackQuery {
    pub code: Option<String>,
    pub state: Option<String>,
}

/// The name of the cookie that holds the OAuth state between login and callback.
pub const OAUTH_STATE_COOKIE: &'static str = "osmium_oauth_state";

// ---------------------------------------------------------------------------
// Login and callback
// ---------------------------------------------------------------------------

fn present_str(value: Option<&str>) -> (r: Option<&str>)
    ensures
        opt_str_view(r) == optional_text(opt_str_view(value)),
{
    match value {
        Some(v) => {
            let t = trim(v);
            if t.unicode_len() > 0 {
                Some(t)
            } else {
                None
            }
        },
        None => None,
    }
}

/// The `prompt` a login passes on to VATSIM: none when absent or blank, else `none`,
/// `login` or `consent` after trimming; anything else is a bad request.
pub open spec fn prompt_spec(raw: Option<Seq<char>>) -> Result<Option<Seq<char>>, ApiError> {
    match optional_text(raw) {
        None => Ok(None),
        Some(p) => if p == "none"@ || p == "login"@ || p == "consent"@ {
            Ok(Some(p))
        } else {
            Err(ApiError::BadRequest)
        },
    }
}

/// Reads the `prompt` of a login request.
pub fn parse_prompt(raw_prompt: Option<&str>) -> (r: Result<Option<&str>, ApiError>)
    ensures
        match prompt_spec(opt_str_view(raw_prompt)) {
            Ok(p) => r matches Ok(q) && opt_str_view(q) == p,
            Err(e) => r == Err::<Option<&str>, ApiError>(e),
        },
{
    match present_str(raw_prompt) {
        None => Ok(None),
        Some(p) => {
            if str_eq(p, "none") || str_eq(p, "login") || str_eq(p, "consent") {
                Ok(Some(p))
            } else {
                Err(ApiError::BadRequest)
            }
        },
    }
}

/// What the callback accepts: a code and a state, both present once trimmed (else a bad
/// request), a state cookie (else `OAuthStateCookieMissing`) that holds exactly the
/// state (else `OAuthStateMismatch`); the code then goes on to the token exchange.
pub open spec fn callback_spec(
    code: Option<Seq<char>>,
    state: Option<Seq<char>>,
    cookie: Option<Seq<char>>,
) -> Result<Seq<char>, ApiError> {
    match optional_text(code) {
        None => Err(ApiError::BadRequest),
        Some(c) => match optional_text(state) {
            None => Err(ApiError::BadRequest),
            Some(s) => match cookie {
                None => Err(ApiError::OAuthStateCookieMissing),
                Some(k) => if k == s {
                    Ok(c)
                } else {
                    Err(ApiError::OAuthStateMismatch)
                },
            },
        },
    }
}

/// Checks an OAuth callback against the state cookie and gives the code to exchange.
pub fn check_oauth_callback<'a>(
    query: &'a CallbackQuery,
    cookie_state: Option<&str>,
) -> (r: Result<&'a str, ApiError>)
    ensures
        match callback_spec(opt_view(query.code), opt_view(query.state), opt_str_view(cookie_state)) {
            Ok(c) => r matches Ok(t) && t@ == c,
            Err(e) => r == Err::<&str, ApiError>(e),
        },
{
    let code = match &query.code {
        Some(c) => present_str(Some(c.as_str())),
        None => None,
    };
    let code = match code {
        Some(c) => c,
        None => return Err(ApiError::BadRequest),
    };
    let state = match &query.state {
        Some(s) => present_str(Some(s.as_str())),
        None => None,
    };
    let state = match state {
        Some(s) => s,
        None => return Err(ApiError::BadRequest),
    };
    match cookie_state {
        None => Err(ApiError::OAuthStateCookieMissing),
        Some(cookie) => {
            if str_eq(cookie, state) {
                Ok(code)
            } else {
                Err(ApiError::OAuthStateMismatch)
            }
        },
    }
}

// ---------------------------------------------------------------------------
// Profile fields
// ---------------------------------------------------------------------------

/// An optional profile text as stored: trimmed, none when blank.
pub fn normalize_optional_text(value: Option<String>) -> (r: Option<String>)
    ensures
        opt_view(r) == optional_text(opt_view(value)),
{
    match value {
        Some(inner) => {
            let t = trim(inner.as_str());
            if t.unicode_len() > 0 {
                Some(owned(t))
            } else {
                None
            }
        },
        None => None,
    }
}

/// Whether `chrono_tz` knows a time zone by this name (`Tz::from_str`).
pub uninterp spec fn is_time_zone_name(name: Seq<char>) -> bool;

/// Calls `chrono_tz::Tz::from_str` and reports whether it found a zone. The contract
/// names the answer, a function of the name alone as the zone database is compiled into
/// the crate.
#[verifier::external_body]
fn time_zone_exists(name: &str) -> (r: bool)
    ensures
        r == is_time_zone_name(name@),
{
    chrono_tz::Tz::from_str(name).is_ok()
}

/// A time zone setting as stored: trimmed, and a zone that `chrono_tz` knows.
pub open spec fn timezone_spec(value: Seq<char>) -> Result<Seq<char>, ApiError> {
    if trimmed(value).len() == 0 || !is_time_zone_name(trimmed(value)) {
        Err(ApiError::BadRequest)
    } else {
        Ok(trimmed(value))
    }
}

/// Checks a time zone setting.
pub fn validate_timezone(value: &str) -> (r: Result<String, ApiError>)
    ensures
        match timezone_spec(value@) {
            Ok(t) => r matches Ok(s) && s@ == t,
            Err(e) => r == Err::<String, ApiError>(e),
        },
{
    let normalized = trim(value);
    if normalized.unicode_len() == 0 {
        return Err(ApiError::BadRequest);
    }
    if !time_zone_exists(normalized) {
        return Err(ApiError::BadRequest);
    }
    Ok(owned(normalized))
}

// ---------------------------------------------------------------------------
// Settings
// ---------------------------------------------------------------------------

/// The server administrator an `OSMIUM_SERVER_ADMIN_CID` value names: a positive CID
/// once trimmed; none when absent, blank or not such a number.
pub open spec fn server_admin_cid_spec(raw: Option<Seq<char>>) -> Option<int> {
    match raw {
        None => None,
        Some(v) => match parse_i64_spec(trimmed(v)) {
            Some(cid) => if trimmed(v).len() > 0 && cid > 0 {
                Some(cid)
            } else {
                None
            },
            None => None,
        },
    }
}

/// Reads the `OSMIUM_SERVER_ADMIN_CID` setting.
pub fn configured_server_admin_cid(raw: Option<&str>) -> (r: Option<i64>)
    ensures
        match server_admin_cid_spec(opt_str_view(raw)) {
            Some(c) => r == Some(c as i64),
            None => r is None,
        },
{
    match raw {
        None => None,
        Some(value) => {
            let t = trim(value);
            if t.unicode_len() == 0 {
                return None;
            }
            match parse_i64(t) {
                Some(cid) => if cid > 0 {
                    Some(cid)
                } else {
                    None
                },
                None => None,
            }
        },
    }
}

/// Whether a login of the controller `cid` is one of the configured server
/// administrator, who gets that role; everyone else gets the default permissions.
pub fn grants_server_admin(configured: Option<i64>, cid: i64) -> (r: bool)
    ensures
        r == (configured == Some(cid)),
{
    match configured {
        Some(admin) => admin == cid,
        None => false,
    }
}

/// The permissions every other user is given at login.
pub fn default_login_permissions() -> (r: Vec<&'static str>)
    ensures
        r@.len() == 13,
        r@[0]@ == "auth.profile.read"@,
        r@[1]@ == "auth.profile.update"@,
        r@[2]@ == "auth.teamspeak_uids.read"@,
        r@[3]@ == "auth.teamspeak_uids.create"@,
        r@[4]@ == "auth.teamspeak_uids.delete"@,
        r@[5]@ == "auth.sessions.delete"@,
        r@[6]@ == "users.vatusa_refresh.self.request"@,
        r@[7]@ == "users.visit_artcc.request"@,
        r@[8]@ == "users.visitor_applications.self.read"@,
        r@[9]@ == "users.visitor_applications.self.request"@,
        r@[10]@ == "feedback.items.self.read"@,
        r@[11]@ == "feedback.items.create"@,
        r@[12]@ == "events.positions.self.request"@,
{
    let mut v: Vec<&'static str> = Vec::new();
    v.push("auth.profile.read");
    v.push("auth.profile.update");
    v.push("auth.teamspeak_uids.read");
    v.push("auth.teamspeak_uids.create");
    v.push("auth.teamspeak_uids.delete");
    v.push("auth.sessions.delete");
    v.push("users.vatusa_refresh.self.request");
    v.push("users.visit_artcc.request");
    v.push("users.visitor_applications.self.read");
    v.push("users.visitor_applications.self.request");
    v.push("feedback.items.self.read");
    v.push("feedback.items.create");
    v.push("events.positions.self.request");
    v
}

/// Whether a flag setting is on: `1`, `true`, `yes` or `on` after trimming, in any
/// case; an absent setting is off.
pub open spec fn flag_on(raw: Option<Seq<char>>) -> bool {
    match raw {
        None => false,
        Some(v) => {
            let t = lower(trimmed(v));
            t == "1"@ || t == "true"@ || t == "yes"@ || t == "on"@
        },
    }
}

/// Reads a flag setting.
pub fn env_flag_enabled(raw: Option<&str>) -> (r: bool)
    ensures
        r == flag_on(opt_str_view(raw)),
{
    match raw {
        None => false,
        Some(value) => {
            let t = to_ascii_lowercase(trim(value));
            let t = t.as_str();
            str_eq(t, "1") || str_eq(t, "true") || str_eq(t, "yes") || str_eq(t, "on")
        },
    }
}

/// Whether development mode is on: `API_DEV_MODE` or `VATSIM_DEV_MODE` is a flag that
/// is on.
pub fn api_dev_mode_enabled(api_dev_mode: Option<&str>, vatsim_dev_mode: Option<&str>) -> (r: bool)
    ensures
        r == (flag_on(opt_str_view(api_dev_mode)) || flag_on(opt_str_view(vatsim_dev_mode))),
{
    env_flag_enabled(api_dev_mode) || env_flag_enabled(vatsim_dev_mode)
}

/// Whether a `COOKIE_SECURE` value asks for secure cookies: `1`, `true` or `yes` after
/// trimming, in any case; an absent value does not.
pub open spec fn cookie_secure_spec(raw: Option<Seq<char>>) -> bool {
    match raw {
        None => false,
        Some(v) => {
            let t = lower(trimmed(v));
            t == "1"@ || t == "true"@ || t == "yes"@
        },
    }
}

/// Reads the `COOKIE_SECURE` setting.
pub fn cookie_secure(raw: Option<&str>) -> (r: bool)
    ensures
        r == cookie_secure_spec(opt_str_view(raw)),
{
    match raw {
        None => false,
        Some(value) => {
            let t = to_ascii_lowercase(trim(value));
            let t = t.as_str();
            str_eq(t, "1") || str_eq(t, "true") || str_eq(t, "yes")
        },
    }
}

// ---------------------------------------------------------------------------
// Origins
// ---------------------------------------------------------------------------

/// The value of a header, trimmed, when it is present, readable and not blank.
pub fn header_value(headers: &http::HeaderMap, name: &str) -> (r: Option<String>)
    ensures
        header_key(name@) is Some ==> opt_view(r) == optional_text(header_text_in(*headers, name@)),
        exists|raw: Option<Seq<char>>|
            (raw matches Some(t) ==> visible_ascii_text(t)) && opt_view(r) == #[trigger] optional_text(raw),
{
    let raw = header_text(headers, name);
    match present_str(raw) {
        Some(v) => Some(owned(v)),
        None => None,
    }
}

/// The origin a request comes from, given its header values (each trimmed and present):
/// its `Origin`, else the forwarded protocol (`http` by default) and the forwarded host
/// or `Host`.
pub open spec fn origin_spec(
    origin: Option<Seq<char>>,
    forwarded_host: Option<Seq<char>>,
    host: Option<Seq<char>>,
    forwarded_proto: Option<Seq<char>>,
) -> Option<Seq<char>> {
    match origin {
        Some(o) => Some(o),
        None => {
            let h = match forwarded_host {
                Some(f) => Some(f),
                None => host,
            };
            match h {
                None => None,
                Some(hv) => Some(
                    match forwarded_proto {
                        Some(p) => p,
                        None => "http"@,
                    } + "://"@ + hv,
                ),
            }
        },
    }
}

/// The origin of a request from its header values.
pub fn request_origin_from(
    origin: Option<String>,
    forwarded_host: Option<String>,
    host: Option<String>,
    forwarded_proto: Option<String>,
) -> (r: Option<String>)
    ensures
        opt_view(r) == origin_spec(opt_view(origin), opt_view(forwarded_host), opt_view(host), opt_view(forwarded_proto)),
{
    if let Some(o) = origin {
        return Some(o);
    }
    let h = match forwarded_host {
        Some(f) => Some(f),
        None => host,
    };
    match h {
        None => None,
        Some(hv) => {
            let proto = match forwarded_proto {
                Some(p) => p,
                None => owned("http"),
            };
            Some(concat3(proto.as_str(), "://", hv.as_str()))
        },
    }
}

/// The origin a request's headers show: `origin_spec` of the present, trimmed texts of
/// its `Origin`, `X-Forwarded-Host`, `Host` and `X-Forwarded-Proto` headers.
pub open spec fn request_origin_in(headers: http::HeaderMap) -> Option<Seq<char>> {
    origin_spec(
        optional_text(header_text_in(headers, "origin"@)),
        optional_text(header_text_in(headers, "x-forwarded-host"@)),
        optional_text(header_text_in(headers, "host"@)),
        optional_text(header_text_in(headers, "x-forwarded-proto"@)),
    )
}

/// The origin of a request, read from its `Origin`, `X-Forwarded-Host`, `Host` and
/// `X-Forwarded-Proto` headers.
pub fn request_origin(headers: &http::HeaderMap) -> (r: Option<String>)
    ensures
        opt_view(r) == request_origin_in(*headers),
{
    proof {
        reveal_strlit("origin");
        reveal_strlit("x-forwarded-host");
        reveal_strlit("host");
        reveal_strlit("x-forwarded-proto");
        lemma_plain_header_key("origin"@);
        lemma_plain_header_key("x-forwarded-host"@);
        lemma_plain_header_key("host"@);
        lemma_plain_header_key("x-forwarded-proto"@);
    }
    let origin = header_value(headers, "origin");
    let forwarded_host = header_value(headers, "x-forwarded-host");
    let host = header_value(headers, "host");
    let forwarded_proto = header_value(headers, "x-forwarded-proto");
    request_origin_from(origin, forwarded_host, host, forwarded_proto)
}

/// What `url::Url::parse` reads from a text: its scheme, its host, and its port (the
/// scheme's known default when none is written); none when the text is not a URL.
pub uninterp spec fn url_parts(raw: Seq<char>) -> Option<(Seq<char>, Option<Seq<char>>, Option<u16>)>;

/// Calls `url::Url::parse` and reads `scheme`, `host_str` and `port_or_known_default`
/// off the result. The contract names what is read, a function of the text alone.
#[verifier::external_body]
fn parse_url_parts(raw: &str) -> (r: Option<(String, Option<String>, Option<u16>)>)
    ensures
        match r {
            Some((s, h, p)) => url_parts(raw@) == Some((s@, opt_view(h), p)),
            None => url_parts(raw@) is None,
        },
{
    match url::Url::parse(raw) {
        Ok(url) => {
            let host = match url.host_str() {
                Some(h) => Some(h.to_string()),
                None => None,
            };
            Some((url.scheme().to_string(), host, url.port_or_known_default()))
        },
        Err(_) => None,
    }
}

/// The origin of a URL: `scheme://host`, with `:port` unless the port is the default of
/// `http` (80) or `https` (443); none without a host or a port.
pub open spec fn url_origin_spec(raw: Seq<char>) -> Option<Seq<char>> {
    match url_parts(raw) {
        Some((scheme, Some(host), Some(port))) => if (scheme == "http"@ && port == 80) || (scheme
            == "https"@ && port == 443) {
            Some(scheme + "://"@ + host)
        } else {
            Some(scheme + "://"@ + host + ":"@ + decimal(port as nat))
        },
        _ => None,
    }
}

/// The origin of a URL.
pub fn url_origin(raw: &str) -> (r: Option<String>)
    ensures
        opt_view(r) == url_origin_spec(raw@),
{
    match parse_url_parts(raw) {
        Some((scheme, Some(host), Some(port))) => {
            let is_default_port = (str_eq(scheme.as_str(), "http") && port == 80) || (str_eq(
                scheme.as_str(),
                "https",
            ) && port == 443);
            let mut out = concat3(scheme.as_str(), "://", host.as_str());
            if !is_default_port {
                out.append(":");
                let digits = u64_to_decimal(port as u64);
                out.append(digits.as_str());
            }
            Some(out)
        },
        _ => None,
    }
}

/// What a login request's origin decides, given the configured redirect URI: the URI
/// must have an origin (else an internal error), and the request must come from it.
pub open spec fn login_origin_spec(request: Option<Seq<char>>, redirect_uri: Seq<char>) -> Result<(), ApiError> {
    match url_origin_spec(redirect_uri) {
        None => Err(ApiError::Internal),
        Some(expected) => match request {
            Some(o) => if o == expected {
                Ok(())
            } else {
                Err(ApiError::OAuthLoginOriginMismatch)
            },
            None => Err(ApiError::OAuthLoginOriginMismatch),
        },
    }
}

/// Checks that a login request comes from the origin of the configured redirect URI.
pub fn check_login_origin(request: Option<&str>, redirect_uri: &str) -> (r: Result<(), ApiError>)
    ensures
        r == login_origin_spec(opt_str_view(request), redirect_uri@),
{
    let expected = match url_origin(redirect_uri) {
        Some(e) => e,
        None => return Err(ApiError::Internal),
    };
    match request {
        Some(o) => if str_eq(o, expected.as_str()) {
            Ok(())
        } else {
            Err(ApiError::OAuthLoginOriginMismatch)
        },
        None => Err(ApiError::OAuthLoginOriginMismatch),
    }
}

/// Checks that a login request, by its headers, comes from the origin of the
/// configured redirect URI.
pub fn validate_oauth_login_origin(headers: &http::HeaderMap, redirect_uri: &str) -> (r: Result<(), ApiError>)
    ensures
        r == login_origin_spec(request_origin_in(*headers), redirect_uri@),
{
    let origin = request_origin(headers);
    let r = match &origin {
        Some(o) => check_login_origin(Some(o.as_str()), redirect_uri),
        None => check_login_origin(None, redirect_uri),
    };
    r
}

} // verus!
