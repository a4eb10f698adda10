//! API keys: the encoding of a key's secret, the checks on a key's fields, and who may
//! grant or manage which permissions.
use vstd::prelude::*;
use vstd::string::StringSliceAdditionalSpecFns;
use vstd::arithmetic::div_mod::{
    lemma_div_denominator, lemma_div_multiples_vanish_fancy, lemma_mod_multiples_vanish,
};

use crate::error::ApiError;
use crate::text::{optional_text, concat2, has_prefix, opt_view, owned, str_eq, trim, trimmed, views_of};

verus! {

pub const API_KEY_PREFIX: &'static str = "osm_";

pub const API_KEY_SUFFIX_LEN: usize = 32;

pub const API_KEY_TOTAL_LEN: usize = 36;

pub const API_KEY_DISPLAY_PREFIX_LEN: usize = 8;

pub const API_KEY_LAST_FOUR_LEN: usize = 4;

// ---------------------------------------------------------------------------
// Base-62 encoding
// ---------------------------------------------------------------------------

/// The number a sequence of bytes denotes, most significant byte first.
pub open spec fn be_value(s: Seq<u32>) -> nat
    decreases s.len(),
{
    if s.len() == 0 {
        0
    } else {
        be_value(s.drop_last()) * 256 + (s.last() as nat)
    }
}

pub open spec fn bytes_as_digits(b: Seq<u8>) -> Seq<u32> {
    b.map_values(|x: u8| x as u32)
}

pub open spec fn pow62(j: nat) -> nat
    decreases j,
{
    if j == 0 {
        1
    } else {
        62 * pow62((j - 1) as nat)
    }
}

/// The base-62 digit of `n` in position `j`, counting from the least significant.
pub open spec fn base62_digit(n: nat, j: nat) -> nat {
    (n / pow62(j)) % 62
}

/// The character of a base-62 digit: `0`-`9`, then `A`-`Z`, then `a`-`z`.
pub open spec fn base62_char(d: nat) -> char {
    if d < 10 {
        (48 + d) as char
    } else if d < 36 {
        (55 + d) as char
    } else {
        (61 + d) as char
    }
}

/// The `width` least significant base-62 digits of the number the bytes denote, most
/// significant first, with leading zeros.
pub open spec fn base62_fixed(bytes: Seq<u8>, width: nat) -> Seq<char> {
    Seq::new(
        width,
        |i: int| base62_char(base62_digit(be_value(bytes_as_digits(bytes)), (width - 1 - i) as nat)),
    )
}

/// The number that base-62 digits denote, least significant first.
pub open spec fn lsb_value(d: Seq<u8>) -> nat
    decreases d.len(),
{
    if d.len() == 0 {
        0
    } else {
        (d[0] as nat) + 62 * lsb_value(d.drop_first())
    }
}

proof fn lemma_pow62_positive(j: nat)
    ensures
        pow62(j) > 0,
    decreases j,
{
    if j > 0 {
        lemma_pow62_positive((j - 1) as nat);
    }
}

proof fn lemma_lsb_push(d: Seq<u8>, r: u8)
    ensures
        lsb_value(d.push(r)) == lsb_value(d) + r * pow62(d.len()),
    decreases d.len(),
{
    if d.len() == 0 {
        assert(d.push(r).drop_first() =~= Seq::<u8>::empty());
        assert(lsb_value(Seq::<u8>::empty()) == 0);
        assert(d.push(r)[0] == r);
        assert(pow62(0) == 1);
        assert(lsb_value(d.push(r)) == r);
    } else {
        let rest = d.drop_first();
        assert(d.push(r).drop_first() =~= rest.push(r));
        assert(d.push(r)[0] == d[0]);
        lemma_lsb_push(rest, r);
        let p = pow62(rest.len());
        assert(pow62(d.len()) == 62 * pow62((d.len() - 1) as nat));
        assert(pow62(d.len()) == 62 * p);
        let x = lsb_value(rest);
        assert(lsb_value(rest.push(r)) == x + r * p);
        assert(lsb_value(d.push(r)) == d[0] + 62 * lsb_value(rest.push(r)));
        assert(62 * (x + r * p) == 62 * x + r * (62 * p)) by (nonlinear_arith);
    }
}

proof fn lemma_lsb_digit(d: Seq<u8>, j: nat)
    requires
        forall|k: int| 0 <= k < d.len() ==> #[trigger] d[k] < 62,
    ensures
        base62_digit(lsb_value(d), j) == if j < d.len() {
            d[j as int] as nat
        } else {
            0nat
        },
    decreases d.len(),
{
    lemma_pow62_positive(j);
    if d.len() == 0 {
        assert(lsb_value(d) == 0);
        assert(0nat / pow62(j) == 0) by (nonlinear_arith)
            requires
                pow62(j) > 0,
        ;
    } else {
        let rest = d.drop_first();
        let x = lsb_value(rest);
        let n = lsb_value(d);
        assert(n == d[0] + 62 * x);
        if j == 0 {
            assert(n / 1 == n) by (nonlinear_arith);
            lemma_mod_multiples_vanish(x as int, d[0] as int, 62);
            assert((62 * x + d[0]) % 62 == d[0] % 62);
        } else {
            assert forall|k: int| 0 <= k < rest.len() implies #[trigger] rest[k] < 62 by {
                assert(rest[k] == d[k + 1]);
            }
            lemma_lsb_digit(rest, (j - 1) as nat);
            lemma_pow62_positive((j - 1) as nat);
            lemma_div_denominator(n as int, 62, pow62((j - 1) as nat) as int);
            lemma_div_multiples_vanish_fancy(x as int, d[0] as int, 62);
            assert(n / 62 == x);
            assert(pow62(j) == 62 * pow62((j - 1) as nat));
            if j - 1 < rest.len() {
                assert(rest[(j - 1) as int] == d[j as int]);
            }
        }
    }
}

/// The character of a base-62 digit.
fn base62_digit_char(d: u8) -> (c: char)
    requires
        d < 62,
    ensures
        c == base62_char(d as nat),
{
    if d < 10 {
        (48 + d) as char
    } else if d < 36 {
        (55 + d) as char
    } else {
        (61 + d) as char
    }
}

/// Divides a big-endian base-256 number by 62: the quotient without leading zeros, and
/// the remainder.
fn divide_by_62(value: &Vec<u32>) -> (r: (Vec<u32>, u8))
    requires
        forall|k: int| 0 <= k < value@.len() ==> #[trigger] value@[k] < 256,
    ensures
        be_value(value@) == be_value(r.0@) * 62 + r.1,
        r.1 < 62,
        r.0@.len() <= value@.len(),
        forall|k: int| 0 <= k < r.0@.len() ==> #[trigger] r.0@[k] < 256,
        be_value(value@) == 0 ==> r.0@.len() == 0,
{
    let mut remainder: u32 = 0;
    let mut next: Vec<u32> = Vec::new();
    let mut i: usize = 0;
    while i < value.len()
        invariant
            i <= value@.len(),
            forall|k: int| 0 <= k < value@.len() ==> #[trigger] value@[k] < 256,
            remainder < 62,
            be_value(value@.subrange(0, i as int)) == be_value(next@) * 62 + remainder,
            next@.len() <= i,
            forall|k: int| 0 <= k < next@.len() ==> #[trigger] next@[k] < 256,
            next@.len() == 0 ==> be_value(next@) == 0,
            be_value(value@.subrange(0, i as int)) == 0 ==> next@.len() == 0,
        decreases value@.len() - i,
    {
        let digit = value[i];
        let acc = remainder * 256 + digit;
        let quotient = acc / 62;
        let ghost old_next = next@;
        let ghost q_old = be_value(old_next);
        let ghost rem_old = remainder as int;
        remainder = acc % 62;
        assert(value@.subrange(0, i + 1).drop_last() =~= value@.subrange(0, i as int));
        assert(quotient < 256);
        if next.len() > 0 || quotient != 0 {
            next.push(quotient);
            assert(next@.drop_last() =~= old_next);
        }
        let ghost pv = be_value(value@.subrange(0, i as int));
        assert(be_value(value@.subrange(0, i + 1)) == pv * 256 + digit);
        assert(acc == quotient * 62 + remainder);
        assert(be_value(next@) == q_old * 256 + quotient);
        assert((q_old * 62 + rem_old) * 256 + digit == (q_old * 256 + quotient) * 62 + remainder)
            by (nonlinear_arith)
            requires
                acc == rem_old * 256 + digit,
                acc == quotient * 62 + remainder,
        ;
        i = i + 1;
    }
    assert(value@.subrange(0, value@.len() as int) =~= value@);
    (next, remainder as u8)
}

/// The value of a base-62 digit character: `0`-`9` are 0 to 9, `A`-`Z` 10 to 35, `a`-`z`
/// 36 to 61.
pub open spec fn base62_char_value(c: char) -> int {
    if '0' <= c <= '9' {
        c as int - 48
    } else if 'A' <= c <= 'Z' {
        c as int - 55
    } else {
        c as int - 61
    }
}

/// The number base-62 digit characters denote, most significant first.
pub open spec fn base62_text_value(t: Seq<char>) -> int
    decreases t.len(),
{
    if t.len() == 0 {
        0
    } else {
        base62_text_value(t.drop_last()) * 62 + base62_char_value(t.last())
    }
}

/// The `width` least significant base-62 digits of `n`, most significant first.
pub open spec fn base62_digits_text(n: nat, width: nat) -> Seq<char> {
    Seq::new(width, |i: int| base62_char(base62_digit(n, (width - 1 - i) as nat)))
}

/// Each digit of `n` beyond the last is a digit of `n / 62`, and the last is `n % 62`.
proof fn lemma_base62_digits_step(n: nat, width: nat)
    requires
        width > 0,
    ensures
        base62_digits_text(n, width).drop_last() == base62_digits_text(n / 62, (width - 1) as nat),
        base62_digits_text(n, width).last() == base62_char(n % 62),
{
    let t = base62_digits_text(n, width);
    let u = base62_digits_text(n / 62, (width - 1) as nat);
    assert forall|i: int| 0 <= i < width - 1 implies t[i] == u[i] by {
        let k = (width - 2 - i) as nat;
        lemma_pow62_positive(k);
        vstd::arithmetic::div_mod::lemma_div_denominator(n as int, 62, pow62(k) as int);
        assert(pow62(k + 1) == 62 * pow62(k));
        assert((width - 1 - i) as nat == k + 1);
    }
    assert(t.drop_last() =~= u);
    assert(pow62(0) == 1);
    assert(t.last() == t[width - 1]);
    assert(n as int / 1 == n);
}

/// A base-62 digit character reads back as its digit.
proof fn lemma_base62_char_value(d: nat)
    requires
        d < 62,
    ensures
        base62_char_value(base62_char(d)) == d,
        is_ascii_alphanumeric(base62_char(d)),
{
}

/// Base-62 text reads back: the `width` characters that `base62_encode_fixed` writes for
/// some bytes are ASCII letters and digits, and the number they denote is the number the
/// bytes denote (most significant byte first), modulo 62 to the power `width`.
pub proof fn base62_text_reads_back(bytes: Seq<u8>, width: nat)
    ensures
        base62_fixed(bytes, width).len() == width,
        forall|i: int| 0 <= i < width ==> is_ascii_alphanumeric(#[trigger] base62_fixed(bytes, width)[i]),
        base62_text_value(base62_fixed(bytes, width)) == be_value(bytes_as_digits(bytes)) % pow62(width),
{
    let n = be_value(bytes_as_digits(bytes));
    assert(base62_fixed(bytes, width) =~= base62_digits_text(n, width));
    assert forall|i: int| 0 <= i < width implies is_ascii_alphanumeric(#[trigger] base62_fixed(bytes, width)[i]) by {
        let k = (width - 1 - i) as nat;
        lemma_pow62_positive(k);
        lemma_base62_char_value(base62_digit(n, k));
    }
    lemma_digits_text_value(n, width);
}

/// The number the `width` least significant base-62 digits of `n` denote is `n` modulo 62
/// to the power `width`.
proof fn lemma_digits_text_value(n: nat, width: nat)
    ensures
        base62_text_value(base62_digits_text(n, width)) == n % pow62(width),
    decreases width,
{
    if width == 0 {
        assert(base62_digits_text(n, 0) =~= Seq::<char>::empty());
    } else {
        let w1 = (width - 1) as nat;
        lemma_base62_digits_step(n, width);
        lemma_digits_text_value(n / 62, w1);
        lemma_base62_char_value(n % 62);
        lemma_pow62_positive(w1);
        vstd::arithmetic::div_mod::lemma_breakdown(n as int, 62, pow62(w1) as int);
        assert(pow62(width) == 62 * pow62(w1));
    }
}

/// Writes the `width` least significant base-62 digits of the number that `bytes` denote
/// (most significant byte first), most significant digit first, padded with `0`.
pub fn base62_encode_fixed(bytes: &[u8], width: usize) -> (r: String)
    ensures
        r@ == base62_fixed(bytes@, width as nat),
{
    let ghost n = be_value(bytes_as_digits(bytes@));
    let mut value: Vec<u32> = Vec::new();
    let mut i: usize = 0;
    while i < bytes.len()
        invariant
            i <= bytes@.len(),
            value@ == bytes_as_digits(bytes@.subrange(0, i as int)),
        decreases bytes@.len() - i,
    {
        value.push(bytes[i] as u32);
        i = i + 1;
        assert(value@ =~= bytes_as_digits(bytes@.subrange(0, i as int)));
    }
    assert(bytes@.subrange(0, bytes@.len() as int) =~= bytes@);
    let mut digits: Vec<u8> = Vec::new();
    assert(lsb_value(digits@) == 0);
    assert(pow62(0) == 1);
    while value.len() > 0
        invariant
            forall|k: int| 0 <= k < value@.len() ==> #[trigger] value@[k] < 256,
            forall|k: int| 0 <= k < digits@.len() ==> #[trigger] digits@[k] < 62,
            n == be_value(value@) * pow62(digits@.len()) + lsb_value(digits@),
            n == be_value(bytes_as_digits(bytes@)),
        decreases be_value(value@) + value@.len(),
    {
        let ghost v = be_value(value@);
        let ghost d_old = digits@;
        let (next, remainder) = divide_by_62(&value);
        let ghost q = be_value(next@);
        digits.push(remainder);
        proof {
            lemma_lsb_push(d_old, remainder);
            let p = pow62(d_old.len());
            assert(pow62(digits@.len()) == 62 * p);
            assert(v * p == q * (62 * p) + remainder * p) by (nonlinear_arith)
                requires
                    v == q * 62 + remainder,
            ;
            if v > 0 {
                assert(q < v);
            }
        }
        value = next;
    }
    proof {
        assert(be_value(value@) == 0);
        let pw = pow62(digits@.len());
        assert(0 * pw == 0) by (nonlinear_arith);
        assert(n == lsb_value(digits@));
    }
    let mut out = String::new();
    let mut k: usize = 0;
    while k < width
        invariant
            k <= width,
            n == lsb_value(digits@),
            n == be_value(bytes_as_digits(bytes@)),
            forall|j: int| 0 <= j < digits@.len() ==> #[trigger] digits@[j] < 62,
            out@ == base62_fixed(bytes@, width as nat).subrange(0, k as int),
        decreases width - k,
    {
        let j = width - 1 - k;
        let digit: u8 = if j < digits.len() {
            digits[j]
        } else {
            0
        };
        proof {
            lemma_lsb_digit(digits@, j as nat);
        }
        let c = base62_digit_char(digit);
        assert(c == base62_fixed(bytes@, width as nat)[k as int]);
        out.push(c);
        k = k + 1;
        assert(out@ =~= base62_fixed(bytes@, width as nat).subrange(0, k as int));
    }
    assert(base62_fixed(bytes@, width as nat).subrange(0, width as int) =~= base62_fixed(
        bytes@,
        width as nat,
    ));
    out
}

// ---------------------------------------------------------------------------
// Secrets
// ---------------------------------------------------------------------------

/// Calls `getrandom::fill` on `dest`. The contract claims only that the buffer keeps its
/// length; what the bytes are is chance.
#[verifier::external_body]
pub(crate) fn fill_random(dest: &mut [u8]) -> (ok: bool)
    ensures
        final(dest)@.len() == old(dest)@.len(),
{
    getrandom::fill(dest).is_ok()
}

/// Whether a character is an ASCII letter or digit.
pub open spec fn is_ascii_alphanumeric(c: char) -> bool {
    ('0' <= c && c <= '9') || ('A' <= c && c <= 'Z') || ('a' <= c && c <= 'z')
}

/// A new API key secret: `osm_` followed by 32 base-62 digits of 24 random bytes.
pub fn generate_api_key_secret() -> (r: Result<String, ApiError>)
    ensures
        match r {
            Ok(secret) => {
                &&& exists|bytes: Seq<u8>|
                    bytes.len() == 24 && secret@ == "osm_"@ + base62_fixed(bytes, 32)
                &&& secret@.len() == API_KEY_TOTAL_LEN
                &&& has_prefix(secret@, "osm_"@)
                &&& forall|k: int| 4 <= k < secret@.len() ==> is_ascii_alphanumeric(#[trigger] secret@[k])
            },
            Err(e) => e == ApiError::Internal,
        },
{
    let mut bytes = [0u8; 24];
    if !fill_random(&mut bytes) {
        return Err(ApiError::Internal);
    }
    let suffix = base62_encode_fixed(&bytes, API_KEY_SUFFIX_LEN);
    let secret = concat2(API_KEY_PREFIX, suffix.as_str());
    proof {
        reveal_strlit("osm_");
        let b = bytes@;
        assert(secret@ == "osm_"@ + base62_fixed(b, 32));
        assert(secret@.subrange(0, 4) =~= "osm_"@);
        assert forall|k: int| 4 <= k < secret@.len() implies is_ascii_alphanumeric(#[trigger] secret@[k]) by {
            assert(secret@[k] == base62_fixed(b, 32)[k - 4]);
            let d = base62_digit(be_value(bytes_as_digits(b)), (32 - 1 - (k - 4)) as nat);
            assert(d < 62);
        }
    }
    Ok(secret)
}

// ---------------------------------------------------------------------------
// Field normalization
// ---------------------------------------------------------------------------

/// A required text field: trimmed, and refused when blank.
pub fn normalize_required_text(value: &str) -> (r: Result<String, ApiError>)
    ensures
        match r {
            Ok(s) => trimmed(value@).len() > 0 && s@ == trimmed(value@),
            Err(e) => trimmed(value@).len() == 0 && e == ApiError::BadRequest,
        },
{
    let normalized = trim(value);
    if normalized.unicode_len() == 0 {
        return Err(ApiError::BadRequest);
    }
    Ok(owned(normalized))
}


/// Trims an optional text field; a blank one becomes none.
pub fn normalize_optional_text(value: Option<String>) -> (r: Option<String>)
    ensures
        opt_view(r) == optional_text(opt_view(value)),
{
    match value {
        Some(raw) => normalize_optional_text_value(raw),
        None => None,
    }
}

/// Trims a text; a blank one becomes none.
pub fn normalize_optional_text_value(raw: String) -> (r: Option<String>)
    ensures
        opt_view(r) == optional_text(Some(raw@)),
{
    let normalized = trim(raw.as_str());
    if normalized.unicode_len() == 0 {
        None
    } else {
        Some(owned(normalized))
    }
}

/// What an audit entry about an API key records.
#[derive(Debug, Clone, Copy, PartialEq, Eq, Structural)]
pub enum AuditAction {
    Create,
    Update,
    Revoke,
}

impl AuditAction {
    pub fn as_str(self) -> (r: &'static str)
        ensures
            r@ == match self {
                AuditAction::Create => "CREATE"@,
                AuditAction::Update => "UPDATE"@,
                AuditAction::Revoke => "REVOKE"@,
            },
    {
        match self {
            AuditAction::Create => "CREATE",
            AuditAction::Update => "UPDATE",
            AuditAction::Revoke => "REVOKE",
        }
    }
}

// ---------------------------------------------------------------------------
// Permissions
// ---------------------------------------------------------------------------

/// The role that holds every permission.
pub const SERVER_ADMIN_ROLE: &'static str = "SERVER_ADMIN";

/// What a permission allows on its resource.
#[derive(Debug, Clone, Copy, PartialEq, Eq, Structural)]
pub enum PermissionAction {
    Read,
    Create,
    Update,
    Delete,
}

/// A permission: the path of the resource, segment by segment, and the action.
#[derive(Debug)]
pub struct PermissionPath {
    pub segments: Vec<String>,
    pub action: PermissionAction,
}

pub open spec fn perm_view(p: PermissionPath) -> (Seq<Seq<char>>, PermissionAction) {
    (views_of(p.segments@), p.action)
}

pub open spec fn holds_permission(set: Seq<PermissionPath>, p: (Seq<Seq<char>>, PermissionAction)) -> bool {
    exists|k: int| 0 <= k < set.len() && perm_view(#[trigger] set[k]) == p
}

/// Whether two permissions name the same action on the same resource.
pub fn permission_eq(a: &PermissionPath, b: &PermissionPath) -> (r: bool)
    ensures
        r == (perm_view(*a) == perm_view(*b)),
{
    if a.action != b.action || a.segments.len() != b.segments.len() {
        proof {
            if a.segments.len() != b.segments.len() {
                assert(views_of(a.segments@).len() != views_of(b.segments@).len());
            }
        }
        return false;
    }
    let mut i: usize = 0;
    while i < a.segments.len()
        invariant
            a.segments@.len() == b.segments@.len(),
            i <= a.segments@.len(),
            forall|k: int| 0 <= k < i ==> a.segments@[k]@ == b.segments@[k]@,
        decreases a.segments@.len() - i,
    {
        if !str_eq(a.segments[i].as_str(), b.segments[i].as_str()) {
            assert(views_of(a.segments@)[i as int] != views_of(b.segments@)[i as int]);
            return false;
        }
        i = i + 1;
    }
    assert(views_of(a.segments@) =~= views_of(b.segments@));
    true
}

/// Whether a set of permissions holds `p`.
pub fn contains_permission(set: &[PermissionPath], p: &PermissionPath) -> (r: bool)
    ensures
        r == holds_permission(set@, perm_view(*p)),
{
    let mut i: usize = 0;
    while i < set.len()
        invariant
            i <= set@.len(),
            forall|k: int| 0 <= k < i ==> perm_view(#[trigger] set@[k]) != perm_view(*p),
        decreases set@.len() - i,
    {
        if permission_eq(&set[i], p) {
            return true;
        }
        i = i + 1;
    }
    false
}

/// Whether the roles include the server administrator role.
pub fn is_server_admin(roles: &[String]) -> (r: bool)
    ensures
        r == exists|k: int| 0 <= k < roles@.len() && #[trigger] roles@[k]@ == "SERVER_ADMIN"@,
{
    let mut i: usize = 0;
    while i < roles.len()
        invariant
            i <= roles@.len(),
            forall|k: int| 0 <= k < i ==> #[trigger] roles@[k]@ != "SERVER_ADMIN"@,
        decreases roles@.len() - i,
    {
        if str_eq(roles[i].as_str(), SERVER_ADMIN_ROLE) {
            return true;
        }
        i = i + 1;
    }
    false
}

/// Checks that a key asks for at least one permission and that its creator holds every
/// permission it asks for (a server administrator holds them all).
pub fn check_permissions_subset(
    requested: &[PermissionPath],
    creator_roles: &[String],
    creator_permissions: &[PermissionPath],
) -> (r: Result<(), ApiError>)
    ensures
        requested@.len() == 0 ==> r == Err::<(), ApiError>(ApiError::BadRequest),
        requested@.len() > 0 ==> (r is Ok <==> ((exists|k: int|
            0 <= k < creator_roles@.len() && #[trigger] creator_roles@[k]@ == "SERVER_ADMIN"@)
            || forall|k: int|
            0 <= k < requested@.len() ==> holds_permission(
                creator_permissions@,
                perm_view(#[trigger] requested@[k]),
            ))),
        r matches Err(e) ==> e == ApiError::BadRequest || e == ApiError::Unauthorized,
        requested@.len() > 0 && r is Err ==> r == Err::<(), ApiError>(ApiError::Unauthorized),
{
    if requested.len() == 0 {
        return Err(ApiError::BadRequest);
    }
    if is_server_admin(creator_roles) {
        return Ok(());
    }
    let mut i: usize = 0;
    while i < requested.len()
        invariant
            i <= requested@.len(),
            !exists|k: int|
                0 <= k < creator_roles@.len() && #[trigger] creator_roles@[k]@ == "SERVER_ADMIN"@,
            forall|k: int|
                0 <= k < i ==> holds_permission(
                    creator_permissions@,
                    perm_view(#[trigger] requested@[k]),
                ),
        decreases requested@.len() - i,
    {
        if !contains_permission(creator_permissions, &requested[i]) {
            assert(!holds_permission(creator_permissions@, perm_view(requested@[i as int])));
            return Err(ApiError::Unauthorized);
        }
        i = i + 1;
    }
    Ok(())
}

/// Whether a user may act on a key: its creator may; anyone else needs the
/// `api_keys` permission for the action.
pub fn can_manage_api_key(
    created_by_user_id: Option<&str>,
    user_id: &str,
    user_permissions: &[PermissionPath],
    action: PermissionAction,
) -> (r: Result<(), ApiError>)
    ensures
        r is Ok <==> ((created_by_user_id matches Some(c) && c@ == user_id@) || holds_permission(
            user_permissions@,
            (seq!["api_keys"@], action),
        )),
        r matches Err(e) ==> e == ApiError::Unauthorized,
{
    if let Some(creator_id) = created_by_user_id {
        if str_eq(creator_id, user_id) {
            return Ok(());
        }
    }
    let mut segments: Vec<String> = Vec::new();
    segments.push(owned("api_keys"));
    let required = PermissionPath { segments, action };
    assert(views_of(required.segments@) =~= seq!["api_keys"@]);
    if contains_permission(user_permissions, &required) {
        return Ok(());
    }
    Err(ApiError::Unauthorized)
}

// ---------------------------------------------------------------------------
// Display parts of a key
// ---------------------------------------------------------------------------

/// What is shown of a secret: its first eight characters (all of it when shorter) and
/// its last four.
pub fn api_key_secret_parts(secret: &str) -> (r: (String, String))
    requires
        secret@.len() >= 4,
    ensures
        r.0@ == secret@.subrange(0, if secret@.len() < 8 { secret@.len() as int } else { 8 }),
        r.1@ == secret@.subrange(secret@.len() - 4, secret@.len() as int),
{
    let n = secret.unicode_len();
    let take = if n < 8 {
        n
    } else {
        8
    };
    let mut prefix = String::new();
    let mut i: usize = 0;
    while i < take
        invariant
            n == secret@.len(),
            take <= n,
            i <= take,
            prefix@ == secret@.subrange(0, i as int),
        decreases take - i,
    {
        prefix.push(secret.get_char(i));
        assert(prefix@ =~= secret@.subrange(0, i + 1));
        i = i + 1;
    }
    let mut last_four = String::new();
    let mut j: usize = n - 4;
    while j < n
        invariant
            n == secret@.len(),
            n >= 4,
            n - 4 <= j <= n,
            last_four@ == secret@.subrange(n - 4, j as int),
        decreases n - j,
    {
        last_four.push(secret.get_char(j));
        assert(last_four@ =~= secret@.subrange(n - 4, j + 1));
        j = j + 1;
    }
    (prefix, last_four)
}

/// The public handle of a key: `apk_` and the first eight bytes of its id.
pub fn api_key_handle(id: &str) -> (r: String)
    requires
        id.spec_bytes().len() >= 8,
        vstd::utf8::is_char_boundary(id.spec_bytes(), 8),
    ensures
        exists|head: Seq<char>|
            vstd::utf8::encode_utf8(head) == id.spec_bytes().subrange(0, 8) && r@ == "apk_"@ + head,
{
    let (head, _) = id.split_at(8);
    concat2("apk_", head)
}

/// How an update changes a key's description: not at all when none is given, else to
/// the given text trimmed, or to none when it is blank.
pub fn description_update(description: Option<String>) -> (r: Option<Option<String>>)
    ensures
        match description {
            None => r is None,
            Some(d) => r matches Some(v) && opt_view(v) == optional_text(Some(d@)),
        },
{
    match description {
        None => None,
        Some(d) => Some(normalize_optional_text_value(d)),
    }
}

} // verus!
