//! Stored files: byte ranges, query lists, names and content types, signed download
//! links, encryption at rest, and who may read or change a file.
use aes_gcm::aead::{Aead, KeyInit};
use hmac::Mac;
use sha2::Digest;
use vstd::prelude::*;
use vstd::string::StringSliceAdditionalSpecFns;

use crate::error::ApiError;
use crate::handlers::api_keys::fill_random;
use crate::timestamp::{instant_parts, utc_now, UtcTimestamp};
use crate::text::{
    all_digits, concat2, concat3, i64_to_decimal, is_ws, signed_decimal, contains_char, contains_pair, digits_value, has_pair, has_prefix,
    opt_str_view, owned, parse_i64, parse_i64_spec, parse_unsigned, parse_usize, split_char,
    split_on, split_once_at, split_once_char, starts_with, str_eq, trim, trimmed, views_of,
    opt_view, parse_unsigned_max, strip_trailing, to_ascii_uppercase, trim_end_char, upper,
    contains_str, decimal, u64_to_decimal, lower,
};

verus! {

// ---------------------------------------------------------------------------
// Outside types
// ---------------------------------------------------------------------------

#[verifier::external_type_specification]
#[verifier::external_body]
pub struct ExHeaderValue(http::HeaderValue);

#[verifier::external_type_specification]
#[verifier::external_body]
#[verifier::reject_recursive_types(T)]
pub struct ExHeaderMap<T>(http::HeaderMap<T>);

/// Whether every character of a text is visible ASCII or a tab, as header text must be.
pub open spec fn visible_ascii_text(s: Seq<char>) -> bool {
    forall|i: int| 0 <= i < s.len() ==> (32 <= #[trigger] (s[i] as u32) < 127 || s[i] == '\t')
}

/// The bytes a header value holds.
pub uninterp spec fn header_bytes(value: http::HeaderValue) -> Seq<u8>;

/// What a header map holds: under each header name, in lower case, the bytes of the
/// values stored under it, in the order they were stored.
pub uninterp spec fn header_entries(headers: http::HeaderMap) -> Map<Seq<char>, Seq<Seq<u8>>>;

/// Whether a character may stand in a header name: an ASCII letter or digit, or one of
/// ``!#$%&'*+-.^_`|~``.
pub open spec fn header_name_char(c: char) -> bool {
    ||| 'a' <= c <= 'z'
    ||| 'A' <= c <= 'Z'
    ||| '0' <= c <= '9'
    ||| c == '!' || c == '#' || c == '$' || c == '%' || c == '&' || c == '\'' || c == '*'
    ||| c == '+' || c == '-' || c == '.' || c == '^' || c == '_' || c == '`' || c == '|' || c == '~'
}

/// The key under which a header name is looked up: the name in lower case, for a name
/// of one to 64 header name characters. Longer names are looked up otherwise, and are
/// not described here.
pub open spec fn header_key(name: Seq<char>) -> Option<Seq<char>> {
    if 1 <= name.len() <= 64 && forall|i: int| 0 <= i < name.len() ==> header_name_char(#[trigger] name[i]) {
        Some(lower(name))
    } else {
        None
    }
}

/// The first value stored under a key, if any.
pub open spec fn first_header_value(entries: Map<Seq<char>, Seq<Seq<u8>>>, key: Seq<char>) -> Option<Seq<u8>> {
    if entries.contains_key(key) && entries[key].len() > 0 {
        Some(entries[key][0])
    } else {
        None
    }
}

/// Whether every byte is visible ASCII or a tab.
pub open spec fn visible_ascii_bytes(b: Seq<u8>) -> bool {
    forall|i: int| 0 <= i < b.len() ==> (32 <= #[trigger] b[i] < 127 || b[i] == 9)
}

/// The text of a header value: its bytes as characters when all are visible ASCII or a
/// tab, else none.
pub open spec fn header_value_str(b: Seq<u8>) -> Option<Seq<char>> {
    if visible_ascii_bytes(b) {
        Some(b.map_values(|x: u8| x as char))
    } else {
        None
    }
}

/// The text of the first value stored in `headers` under `name`, when the value is
/// visible ASCII.
pub open spec fn header_text_in(headers: http::HeaderMap, name: Seq<char>) -> Option<Seq<char>> {
    match header_key(name) {
        Some(k) => match first_header_value(header_entries(headers), k) {
            Some(b) => header_value_str(b),
            None => None,
        },
        None => None,
    }
}

/// A name made of lower-case letters and `-`, of one to 64 characters, is its own key.
pub proof fn lemma_plain_header_key(name: Seq<char>)
    requires
        1 <= name.len() <= 64,
        forall|i: int| 0 <= i < name.len() ==> ('a' <= #[trigger] name[i] <= 'z' || name[i] == '-'),
    ensures
        header_key(name) == Some(name),
{
    assert forall|i: int| 0 <= i < name.len() implies header_name_char(#[trigger] name[i]) by {
        assert('a' <= name[i] <= 'z' || name[i] == '-');
    }
    assert(lower(name) =~= name);
}

/// Calls `http::HeaderValue::to_str`: the value's bytes as text when every one of them
/// is visible ASCII or a tab, else none.
#[verifier::external_body]
pub(crate) fn header_value_text(value: &http::HeaderValue) -> (r: Option<&str>)
    ensures
        opt_str_view(r) == header_value_str(header_bytes(*value)),
        r matches Some(s) ==> visible_ascii_text(s@),
{
    value.to_str().ok()
}

/// Calls `http::HeaderMap::get`: the first value stored under `name`, if any. For a
/// name of one to 64 header name characters that is the first value under the name in
/// lower case; what it gives for other names is not stated.
#[verifier::external_body]
pub(crate) fn header_get<'a>(headers: &'a http::HeaderMap, name: &str) -> (r: Option<&'a http::HeaderValue>)
    ensures
        header_key(name@) matches Some(k) ==> match r {
            Some(v) => first_header_value(header_entries(*headers), k) == Some(header_bytes(*v)),
            None => first_header_value(header_entries(*headers), k) is None,
        },
{
    headers.get(name)
}

/// The text of the first value of a header, when the value is visible ASCII.
pub fn header_text<'a>(headers: &'a http::HeaderMap, name: &str) -> (r: Option<&'a str>)
    ensures
        header_key(name@) is Some ==> opt_str_view(r) == header_text_in(*headers, name@),
        r matches Some(s) ==> visible_ascii_text(s@),
{
    match header_get(headers, name) {
        Some(value) => header_value_text(value),
        None => None,
    }
}

// ---------------------------------------------------------------------------
// Byte ranges
// ---------------------------------------------------------------------------

/// The byte range a `Range` header value asks for within a body of `total` bytes, as
/// first and last position; none when the value is malformed or unsatisfiable. One range
/// only: `bytes=a-b`, `bytes=a-` (to the end) or `bytes=-n` (the last `n` bytes).
pub open spec fn range_spec(raw: Seq<char>, total: int) -> Option<(int, int)> {
    if !has_prefix(raw, "bytes="@) {
        None
    } else {
        let value = raw.subrange(6, raw.len() as int);
        if value.contains(',') || !value.contains('-') || total == 0 {
            None
        } else {
            let k = choose|k: int| split_once_at(value, '-', k);
            let start = value.subrange(0, k);
            let end = value.subrange(k + 1, value.len() as int);
            if start.len() == 0 {
                match parse_unsigned(end, usize::MAX as int) {
                    Some(n) => if n == 0 {
                        None
                    } else {
                        let clamped = if n < total {
                            n
                        } else {
                            total
                        };
                        Some((total - clamped, total - 1))
                    },
                    None => None,
                }
            } else {
                match parse_unsigned(start, usize::MAX as int) {
                    None => None,
                    Some(first) => {
                        let last = if end.len() == 0 {
                            Some(total - 1)
                        } else {
                            parse_unsigned(end, usize::MAX as int)
                        };
                        match last {
                            None => None,
                            Some(last) => if first >= total || first > last {
                                None
                            } else {
                                Some(
                                    (
                                        first,
                                        if last < total - 1 {
                                            last
                                        } else {
                                            total - 1
                                        },
                                    ),
                                )
                            },
                        }
                    },
                }
            }
        }
    }
}

proof fn lemma_split_once_unique(s: Seq<char>, c: char, k: int, j: int)
    requires
        split_once_at(s, c, k),
        split_once_at(s, c, j),
    ensures
        k == j,
{
    if k < j {
        assert(s[k] != c);
    } else if j < k {
        assert(s[j] != c);
    }
}

/// Reads the text of a `Range` header value.
pub fn parse_range_value(raw: &str, total_len: usize) -> (r: Result<(usize, usize), ()>)
    ensures
        match r {
            Ok((a, b)) => range_spec(raw@, total_len as int) == Some((a as int, b as int)),
            Err(_) => range_spec(raw@, total_len as int) is None,
        },
{
    if !starts_with(raw, "bytes=") {
        proof {
            reveal_strlit("bytes=");
        }
        return Err(());
    }
    proof {
        reveal_strlit("bytes=");
    }
    let n = raw.unicode_len();
    let value = raw.substring_char(6, n);
    if contains_char(value, ',') {
        return Err(());
    }
    let (start, end) = match split_once_char(value, '-') {
        Some(parts) => parts,
        None => return Err(()),
    };
    if total_len == 0 {
        return Err(());
    }
    proof {
        let k = choose|k: int|
            split_once_at(value@, '-', k) && start@ == value@.subrange(0, k) && end@
                == value@.subrange(k + 1, value@.len() as int);
        let kk = choose|kk: int| split_once_at(value@, '-', kk);
        lemma_split_once_unique(value@, '-', k, kk);
    }
    if start.unicode_len() == 0 {
        let suffix_len = match parse_usize(end) {
            Some(v) => v,
            None => return Err(()),
        };
        if suffix_len == 0 {
            return Err(());
        }
        let clamped = if suffix_len < total_len {
            suffix_len
        } else {
            total_len
        };
        return Ok((total_len - clamped, total_len - 1));
    }
    let range_start = match parse_usize(start) {
        Some(v) => v,
        None => return Err(()),
    };
    let range_end = if end.unicode_len() == 0 {
        total_len - 1
    } else {
        match parse_usize(end) {
            Some(v) => v,
            None => return Err(()),
        }
    };
    if range_start >= total_len || range_start > range_end {
        return Err(());
    }
    let last = if range_end < total_len - 1 {
        range_end
    } else {
        total_len - 1
    };
    Ok((range_start, last))
}

/// Reads a `Range` header: none when there is no header; an error when it is not
/// readable text or asks for no satisfiable single range.
pub fn parse_range_header(range_header: Option<&http::HeaderValue>, total_len: usize) -> (r: Result<
    Option<(usize, usize)>,
    (),
>)
    ensures
        match range_header {
            None => r == Ok::<Option<(usize, usize)>, ()>(None),
            Some(h) => match header_value_str(header_bytes(*h)) {
                None => r == Err::<Option<(usize, usize)>, ()>(()),
                Some(t) => match range_spec(t, total_len as int) {
                    Some((a, b)) => r == Ok::<Option<(usize, usize)>, ()>(Some((a as usize, b as usize))),
                    None => r == Err::<Option<(usize, usize)>, ()>(()),
                },
            },
        },
{
    let header = match range_header {
        Some(h) => h,
        None => return Ok(None),
    };
    let raw = match header_value_text(header) {
        Some(text) => text,
        None => return Err(()),
    };
    match parse_range_value(raw, total_len) {
        Ok((a, b)) => {
            assert(range_spec(raw@, total_len as int) matches Some((x, y)) && x == a && y == b);
            Ok(Some((a, b)))
        },
        Err(_) => Err(()),
    }
}

/// A satisfiable range lies inside the body: its first byte is not after its last, and
/// its last byte is a byte of the body.
pub proof fn range_lies_within_body(raw: Seq<char>, total: int)
    requires
        total >= 0,
    ensures
        range_spec(raw, total) matches Some((a, b)) ==> 0 <= a <= b < total,
{
}

// ---------------------------------------------------------------------------
// Query lists
// ---------------------------------------------------------------------------

/// The non-blank entries of a comma-separated list, trimmed.
pub open spec fn csv_entries(raw: Seq<char>) -> Seq<Seq<char>> {
    split_on(raw, ',').map_values(|p: Seq<char>| trimmed(p)).filter(|p: Seq<char>| p.len() > 0)
}

/// The integers of a comma-separated list, in order of first appearance; none when an
/// entry is not an `i64`.
pub open spec fn csv_i64_values(entries: Seq<Seq<char>>) -> Option<Seq<i64>>
    decreases entries.len(),
{
    if entries.len() == 0 {
        Some(Seq::empty())
    } else {
        match csv_i64_values(entries.drop_last()) {
            None => None,
            Some(prev) => match parse_i64_spec(entries.last()) {
                None => None,
                Some(v) => if prev.contains(v as i64) {
                    Some(prev)
                } else {
                    Some(prev.push(v as i64))
                },
            },
        }
    }
}

/// The distinct entries of a list, in order of first appearance.
pub open spec fn distinct_entries(entries: Seq<Seq<char>>) -> Seq<Seq<char>>
    decreases entries.len(),
{
    if entries.len() == 0 {
        Seq::empty()
    } else {
        let prev = distinct_entries(entries.drop_last());
        if prev.contains(entries.last()) {
            prev
        } else {
            prev.push(entries.last())
        }
    }
}

proof fn lemma_filter_push(s: Seq<Seq<char>>, x: Seq<char>)
    ensures
        s.push(x).filter(|p: Seq<char>| p.len() > 0) == if x.len() > 0 {
            s.filter(|p: Seq<char>| p.len() > 0).push(x)
        } else {
            s.filter(|p: Seq<char>| p.len() > 0)
        },
{
    reveal(Seq::filter);
    assert(s.push(x).drop_last() =~= s);
}

/// The trimmed non-blank pieces of `raw` between commas.
fn csv_pieces(raw: &str) -> (r: Vec<String>)
    ensures
        views_of(r@) == csv_entries(raw@),
{
    let parts = split_char(raw, ',');
    let ghost all = split_on(raw@, ',').map_values(|p: Seq<char>| trimmed(p));
    let mut out: Vec<String> = Vec::new();
    let mut i: usize = 0;
    assert(all.subrange(0, 0).filter(|p: Seq<char>| p.len() > 0) =~= Seq::<Seq<char>>::empty())
        by {
        reveal(Seq::filter);
    }
    while i < parts.len()
        invariant
            i <= parts@.len(),
            views_of(parts@) == split_on(raw@, ','),
            all == split_on(raw@, ',').map_values(|p: Seq<char>| trimmed(p)),
            views_of(out@) == all.subrange(0, i as int).filter(|p: Seq<char>| p.len() > 0),
        decreases parts@.len() - i,
    {
        let t = trim(parts[i].as_str());
        assert(all[i as int] == t@);
        assert(all.subrange(0, i + 1) =~= all.subrange(0, i as int).push(t@));
        proof {
            lemma_filter_push(all.subrange(0, i as int), t@);
        }
        if t.unicode_len() > 0 {
            let ghost before = views_of(out@);
            out.push(owned(t));
            assert(views_of(out@) =~= before.push(t@));
        }
        i = i + 1;
    }
    assert(all.subrange(0, parts@.len() as int) =~= all);
    out
}

/// Reads a comma-separated list of CIDs; repeats are dropped, blank entries ignored.
pub fn parse_csv_i64(raw: Option<&str>) -> (r: Result<Vec<i64>, ApiError>)
    ensures
        match raw {
            None => r matches Ok(v) && v@.len() == 0,
            Some(text) => match csv_i64_values(csv_entries(text@)) {
                Some(values) => r matches Ok(v) && v@ == values,
                None => r == Err::<Vec<i64>, ApiError>(ApiError::BadRequest),
            },
        },
{
    let text = match raw {
        Some(t) => t,
        None => return Ok(Vec::new()),
    };
    let entries = csv_pieces(text);
    let ghost all = views_of(entries@);
    let mut values: Vec<i64> = Vec::new();
    let mut i: usize = 0;
    while i < entries.len()
        invariant
            i <= entries@.len(),
            raw == Some(text),
            all == views_of(entries@),
            all == csv_entries(text@),
            csv_i64_values(all.subrange(0, i as int)) == Some(values@),
        decreases entries@.len() - i,
    {
        assert(all.subrange(0, i + 1).drop_last() =~= all.subrange(0, i as int));
        assert(all.subrange(0, i + 1).last() == entries@[i as int]@);
        let parsed = match parse_i64(entries[i].as_str()) {
            Some(v) => v,
            None => {
                proof {
                    lemma_csv_none_extends(all, i as int + 1);
                }
                return Err(ApiError::BadRequest);
            },
        };
        if !vec_contains_i64(&values, parsed) {
            values.push(parsed);
        }
        i = i + 1;
    }
    assert(all.subrange(0, entries@.len() as int) =~= all);
    Ok(values)
}

proof fn lemma_csv_none_extends(all: Seq<Seq<char>>, i: int)
    requires
        0 <= i <= all.len(),
        csv_i64_values(all.subrange(0, i)) is None,
    ensures
        csv_i64_values(all) is None,
    decreases all.len() - i,
{
    if i < all.len() {
        assert(all.subrange(0, i + 1).drop_last() =~= all.subrange(0, i));
        lemma_csv_none_extends(all, i + 1);
    } else {
        assert(all.subrange(0, i) =~= all);
    }
}

fn vec_contains_i64(v: &Vec<i64>, x: i64) -> (r: bool)
    ensures
        r == v@.contains(x),
{
    let mut i: usize = 0;
    while i < v.len()
        invariant
            i <= v@.len(),
            forall|k: int| 0 <= k < i ==> v@[k] != x,
        decreases v@.len() - i,
    {
        if v[i] == x {
            return true;
        }
        i = i + 1;
    }
    false
}

/// Reads a comma-separated list of texts; repeats are dropped, blank entries ignored.
pub fn parse_csv_strings(raw: Option<&str>) -> (r: Result<Vec<String>, ApiError>)
    ensures
        match raw {
            None => r matches Ok(v) && v@.len() == 0,
            Some(text) => r matches Ok(v) && views_of(v@) == distinct_entries(csv_entries(text@)),
        },
{
    let text = match raw {
        Some(t) => t,
        None => return Ok(Vec::new()),
    };
    let entries = csv_pieces(text);
    let ghost all = views_of(entries@);
    let mut values: Vec<String> = Vec::new();
    let mut i: usize = 0;
    while i < entries.len()
        invariant
            i <= entries@.len(),
            raw == Some(text),
            all == views_of(entries@),
            all == csv_entries(text@),
            views_of(values@) == distinct_entries(all.subrange(0, i as int)),
        decreases entries@.len() - i,
    {
        assert(all.subrange(0, i + 1).drop_last() =~= all.subrange(0, i as int));
        assert(all.subrange(0, i + 1).last() == entries@[i as int]@);
        if !crate::text::contains_str(&values, entries[i].as_str()) {
            let ghost before = views_of(values@);
            values.push(owned(entries[i].as_str()));
            assert(views_of(values@) =~= before.push(entries@[i as int]@));
        }
        i = i + 1;
    }
    assert(all.subrange(0, entries@.len() as int) =~= all);
    Ok(values)
}

// ---------------------------------------------------------------------------
// Names, content types and storage keys
// ---------------------------------------------------------------------------

/// The number of bytes a text takes in UTF-8.
pub open spec fn utf8_len(s: Seq<char>) -> nat {
    vstd::utf8::encode_utf8(s).len()
}

/// Checks an uploaded file name: trimmed, not blank, at most 255 bytes, and free of
/// `/`, `\` and `..`.
pub fn sanitize_filename(raw: &str) -> (r: Result<String, ApiError>)
    ensures
        ({
            let t = trimmed(raw@);
            let ok = t.len() > 0 && utf8_len(t) <= 255 && !t.contains('/') && !t.contains('\\')
                && !has_pair(t, '.', '.');
            match r {
                Ok(s) => ok && s@ == t,
                Err(e) => !ok && e == ApiError::BadRequest,
            }
        }),
{
    let trimmed_name = trim(raw);
    if trimmed_name.unicode_len() == 0 || trimmed_name.as_bytes().len() > 255 || contains_char(
        trimmed_name,
        '/',
    ) || contains_char(trimmed_name, '\\') || contains_pair(trimmed_name, '.', '.') {
        return Err(ApiError::BadRequest);
    }
    Ok(owned(trimmed_name))
}

/// Whether `r` is what checking the content type `text` gives: the trimmed text when it
/// is not blank, at most 255 bytes and on one line, else a refusal.
pub open spec fn content_type_result(text: Seq<char>, r: Result<String, ApiError>) -> bool {
    let t = trimmed(text);
    let ok = t.len() > 0 && utf8_len(t) <= 255 && !t.contains('\n');
    match r {
        Ok(s) => ok && s@ == t,
        Err(e) => !ok && e == ApiError::BadRequest,
    }
}

/// Checks a content type: trimmed, not blank, at most 255 bytes, on one line.
pub fn normalize_content_type_str(value: &str) -> (r: Result<String, ApiError>)
    ensures
        content_type_result(value@, r),
{
    let normalized = trim(value);
    if normalized.unicode_len() == 0 || normalized.as_bytes().len() > 255 || contains_char(
        normalized,
        '\n',
    ) {
        return Err(ApiError::BadRequest);
    }
    Ok(owned(normalized))
}

/// Checks the content type of an upload; without a readable `Content-Type` header the
/// upload counts as `application/octet-stream`.
pub fn normalize_content_type(value: Option<&http::HeaderValue>) -> (r: Result<String, ApiError>)
    ensures
        content_type_result(
            match value {
                Some(v) => match header_value_str(header_bytes(*v)) {
                    Some(t) => t,
                    None => "application/octet-stream"@,
                },
                None => "application/octet-stream"@,
            },
            r,
        ),
{
    let text = match value {
        Some(header) => match header_value_text(header) {
            Some(t) => t,
            None => "application/octet-stream",
        },
        None => "application/octet-stream",
    };
    normalize_content_type_str(text)
}

// ---------------------------------------------------------------------------
// Storage keys
// ---------------------------------------------------------------------------

/// The key under which a file's bytes are stored: a directory named after the first two
/// bytes of its identifier, then the identifier with `.bin` appended.
pub fn storage_key_for_id(file_id: &str) -> (r: String)
    requires
        file_id.spec_bytes().len() >= 2,
        vstd::utf8::is_char_boundary(file_id.spec_bytes(), 2),
    ensures
        exists|shard: Seq<char>|
            vstd::utf8::encode_utf8(shard) == file_id.spec_bytes().subrange(0, 2) && r@ == shard
                + "/"@ + file_id@ + ".bin"@,
{
    let (shard, _) = file_id.split_at(2);
    let mut out = concat3(shard, "/", file_id);
    out.append(".bin");
    out
}

// ---------------------------------------------------------------------------
// Hex and byte comparison
// ---------------------------------------------------------------------------

/// The lowercase hexadecimal digit of a value below 16.
pub open spec fn hex_char(d: nat) -> char {
    if d < 10 {
        (48 + d) as char
    } else {
        (87 + d) as char
    }
}

/// Two lowercase hexadecimal digits per byte, high digit first.
pub open spec fn hex_text(bytes: Seq<u8>) -> Seq<char> {
    Seq::new(
        2 * bytes.len(),
        |i: int|
            if i % 2 == 0 {
                hex_char((bytes[i / 2] / 16) as nat)
            } else {
                hex_char((bytes[i / 2] % 16) as nat)
            },
    )
}

fn hex_digit_char(d: u8) -> (c: char)
    requires
        d < 16,
    ensures
        c == hex_char(d as nat),
{
    if d < 10 {
        (48 + d) as char
    } else {
        (87 + d) as char
    }
}

/// Writes bytes as lowercase hexadecimal.
pub fn hex_encode(bytes: &[u8]) -> (r: String)
    ensures
        r@ == hex_text(bytes@),
{
    let mut out = String::new();
    let mut i: usize = 0;
    while i < bytes.len()
        invariant
            i <= bytes@.len(),
            out@ == hex_text(bytes@).subrange(0, 2 * i),
        decreases bytes@.len() - i,
    {
        let b = bytes[i];
        let hi = hex_digit_char(b / 16);
        let lo = hex_digit_char(b % 16);
        assert(hex_text(bytes@)[2 * i] == hi);
        assert(hex_text(bytes@)[2 * i + 1] == lo);
        out.push(hi);
        out.push(lo);
        i = i + 1;
        assert(out@ =~= hex_text(bytes@).subrange(0, 2 * i));
    }
    assert(hex_text(bytes@).subrange(0, 2 * bytes@.len() as int) =~= hex_text(bytes@));
    out
}

/// Whether two texts have the same bytes, comparing every byte whatever the outcome.
pub fn constant_time_eq(a: &str, b: &str) -> (r: bool)
    ensures
        r == (a.spec_bytes() == b.spec_bytes()),
{
    let ab = a.as_bytes();
    let bb = b.as_bytes();
    if ab.len() != bb.len() {
        return false;
    }
    let mut mismatch: u8 = 0;
    let mut i: usize = 0;
    while i < ab.len()
        invariant
            ab@ == a.spec_bytes(),
            bb@ == b.spec_bytes(),
            ab@.len() == bb@.len(),
            i <= ab@.len(),
            (mismatch == 0) == (forall|k: int| 0 <= k < i ==> ab@[k] == bb@[k]),
        decreases ab@.len() - i,
    {
        let x = ab[i];
        let y = bb[i];
        let m = mismatch;
        let next = m | (x ^ y);
        assert((next == 0) == (m == 0 && x == y)) by (bit_vector)
            requires
                next == m | (x ^ y),
        ;
        mismatch = next;
        i = i + 1;
    }
    proof {
        if mismatch == 0 {
            assert(ab@ =~= bb@);
        }
    }
    mismatch == 0
}

/// The value of a hexadecimal digit byte, either case.
pub open spec fn nibble_value(v: u8) -> Option<u8> {
    if 48 <= v <= 57 {
        Some((v - 48) as u8)
    } else if 97 <= v <= 102 {
        Some((v - 87) as u8)
    } else if 65 <= v <= 70 {
        Some((v - 55) as u8)
    } else {
        None
    }
}

/// Reads one hexadecimal digit.
pub fn hex_nibble(value: u8) -> (r: Option<u8>)
    ensures
        r == nibble_value(value),
{
    if 48 <= value && value <= 57 {
        Some(value - 48)
    } else if 97 <= value && value <= 102 {
        Some(value - 97 + 10)
    } else if 65 <= value && value <= 70 {
        Some(value - 65 + 10)
    } else {
        None
    }
}

/// The byte two hexadecimal digits denote.
pub open spec fn hex_pair_value(high: u8, low: u8) -> Option<u8> {
    match (nibble_value(high), nibble_value(low)) {
        (Some(h), Some(l)) => Some((h * 16 + l) as u8),
        _ => None,
    }
}

/// Reads a byte from two hexadecimal digits.
pub fn parse_hex_pair(high: u8, low: u8) -> (r: Option<u8>)
    ensures
        r == hex_pair_value(high, low),
{
    let h = match hex_nibble(high) {
        Some(v) => v,
        None => return None,
    };
    let l = match hex_nibble(low) {
        Some(v) => v,
        None => return None,
    };
    let v = (h << 4) | l;
    assert(v == h * 16 + l) by (bit_vector)
        requires
            h < 16,
            l < 16,
            v == (h << 4) | l,
    ;
    Some(v)
}

/// The 32-byte key that 64 hexadecimal digits denote.
pub open spec fn key_from_hex(b: Seq<u8>) -> Option<Seq<u8>> {
    if b.len() == 64 && forall|i: int| 0 <= i < 32 ==> #[trigger] hex_pair_value(b[2 * i], b[2 * i + 1]) is Some {
        Some(Seq::new(32, |i: int| hex_pair_value(b[2 * i], b[2 * i + 1])->0))
    } else {
        None
    }
}

/// Reads the file encryption key setting: no key when the setting is absent or blank;
/// a refusal unless it is exactly 64 hexadecimal digits.
pub fn parse_encryption_key_hex(raw: Option<&str>) -> (r: Result<Option<[u8; 32]>, ApiError>)
    ensures
        match raw {
            None => r == Ok::<Option<[u8; 32]>, ApiError>(None),
            Some(text) => if trimmed(text@).len() == 0 {
                r == Ok::<Option<[u8; 32]>, ApiError>(None)
            } else {
                match key_from_hex(vstd::utf8::encode_utf8(trimmed(text@))) {
                    Some(k) => r matches Ok(Some(key)) && key@ == k,
                    None => r == Err::<Option<[u8; 32]>, ApiError>(ApiError::ServiceUnavailable),
                }
            },
        },
{
    let text = match raw {
        Some(t) => t,
        None => return Ok(None),
    };
    let normalized = trim(text);
    if normalized.unicode_len() == 0 {
        return Ok(None);
    }
    let bytes = normalized.as_bytes();
    if bytes.len() != 64 {
        return Err(ApiError::ServiceUnavailable);
    }
    let mut key = [0u8; 32];
    let mut index: usize = 0;
    while index < 32
        invariant
            bytes@ == vstd::utf8::encode_utf8(trimmed(text@)),
            bytes@.len() == 64,
            raw == Some(text),
            index <= 32,
            forall|i: int| 0 <= i < index ==> #[trigger] hex_pair_value(bytes@[2 * i], bytes@[2 * i + 1]) == Some(key@[i]),
        decreases 32 - index,
    {
        match parse_hex_pair(bytes[2 * index], bytes[2 * index + 1]) {
            Some(v) => {
                key[index] = v;
            },
            None => {
                assert(hex_pair_value(bytes@[2 * index as int], bytes@[2 * index as int + 1]) is None);
                return Err(ApiError::ServiceUnavailable);
            },
        }
        index = index + 1;
    }
    proof {
        let k = Seq::new(32, |i: int| hex_pair_value(bytes@[2 * i], bytes@[2 * i + 1])->0);
        assert(key@ =~= k);
    }
    Ok(Some(key))
}

// ---------------------------------------------------------------------------
// Digests and signed links
// ---------------------------------------------------------------------------

/// The SHA-256 digest of some bytes.
pub uninterp spec fn sha256_of(data: Seq<u8>) -> Seq<u8>;

/// Calls `sha2::Sha256::digest`. The contract names the digest and gives its length,
/// 32 bytes, as the type of the digest fixes it.
#[verifier::external_body]
fn sha256_digest(data: &[u8]) -> (r: Vec<u8>)
    ensures
        r@ == sha256_of(data@),
        r@.len() == 32,
{
    sha2::Sha256::digest(data).to_vec()
}

/// The SHA-256 digest of some bytes, in lowercase hexadecimal.
pub fn sha256_hex(bytes: &[u8]) -> (r: String)
    ensures
        r@ == hex_text(sha256_of(bytes@)),
        r@.len() == 64,
{
    let digest = sha256_digest(bytes);
    hex_encode(digest.as_slice())
}

/// The HMAC-SHA256 tag of a message under a key.
pub uninterp spec fn hmac_sha256_of(key: Seq<u8>, message: Seq<u8>) -> Seq<u8>;

/// Computes an HMAC-SHA256 tag with the `hmac` crate (`new_from_slice`, `update`,
/// `finalize`). The contract names the tag; it also states that a tag always comes back,
/// as `new_from_slice` accepts a key of any length in the `hmac` source.
#[verifier::external_body]
fn hmac_sha256(key: &[u8], message: &[u8]) -> (r: Option<Vec<u8>>)
    ensures
        r is Some,
        r->0@ == hmac_sha256_of(key@, message@),
{
    match <hmac::Hmac<sha2::Sha256> as Mac>::new_from_slice(key) {
        Ok(mut mac) => {
            mac.update(message);
            Some(mac.finalize().into_bytes().to_vec())
        },
        Err(_) => None,
    }
}

/// What a download link for a file is signed over: `file_id:expires`.
pub open spec fn signed_payload(file_id: Seq<char>, expires: int) -> Seq<char> {
    file_id + ":"@ + signed_decimal(expires)
}

/// The signature of a download link, when a signing secret is configured.
pub open spec fn download_signature(secret: Option<Seq<char>>, file_id: Seq<char>, expires: int) -> Result<Seq<char>, ApiError> {
    match secret {
        None => Err(ApiError::ServiceUnavailable),
        Some(s) => if trimmed(s).len() == 0 {
            Err(ApiError::ServiceUnavailable)
        } else {
            Ok(
                hex_text(
                    hmac_sha256_of(
                        vstd::utf8::encode_utf8(s),
                        vstd::utf8::encode_utf8(signed_payload(file_id, expires)),
                    ),
                ),
            )
        },
    }
}

/// Signs a download link for `file_id` valid until `expires` (0: for ever) with the
/// configured signing secret.
pub fn sign_download_token(secret: Option<&str>, file_id: &str, expires: i64) -> (r: Result<String, ApiError>)
    ensures
        match r {
            Ok(s) => download_signature(opt_str_view(secret), file_id@, expires as int) == Ok::<Seq<char>, ApiError>(s@),
            Err(e) => download_signature(opt_str_view(secret), file_id@, expires as int) == Err::<Seq<char>, ApiError>(e),
        },
{
    let secret = match secret {
        Some(s) => s,
        None => return Err(ApiError::ServiceUnavailable),
    };
    if trim(secret).unicode_len() == 0 {
        return Err(ApiError::ServiceUnavailable);
    }
    let expires_text = i64_to_decimal(expires);
    let payload = concat3(file_id, ":", expires_text.as_str());
    let digest = match hmac_sha256(secret.as_bytes(), payload.as_str().as_bytes()) {
        Some(d) => d,
        None => return Err(ApiError::Internal),
    };
    Ok(hex_encode(digest.as_slice()))
}

/// Whether a download link is valid at the instant `now` (seconds since the epoch): it
/// carries an expiry and a signature, has not expired (an expiry of 0 never does), and its
/// signature, trimmed, is the expected one byte for byte.
pub open spec fn token_check(
    secret: Option<Seq<char>>,
    file_id: Seq<char>,
    expires: Option<i64>,
    sig: Option<Seq<char>>,
    now: int,
) -> Result<bool, ApiError> {
    match (expires, sig) {
        (Some(e), Some(s)) => if e != 0 && e < now {
            Ok(false)
        } else {
            match download_signature(secret, file_id, e as int) {
                Err(err) => Err(err),
                Ok(expected) => Ok(vstd::utf8::encode_utf8(trimmed(s)) == vstd::utf8::encode_utf8(expected)),
            }
        },
        _ => Ok(false),
    }
}

/// Checks a download link at the instant `now` (seconds since the epoch).
pub fn token_is_valid_at(
    secret: Option<&str>,
    file_id: &str,
    expires: Option<i64>,
    sig: Option<&str>,
    now: i64,
) -> (r: Result<bool, ApiError>)
    ensures
        r == token_check(opt_str_view(secret), file_id@, expires, opt_str_view(sig), now as int),
{
    let expires = match expires {
        Some(e) => e,
        None => return Ok(false),
    };
    let sig = match sig {
        Some(s) => s,
        None => return Ok(false),
    };
    if expires != 0 && expires < now {
        return Ok(false);
    }
    let expected = sign_download_token(secret, file_id, expires)?;
    Ok(constant_time_eq(trim(sig), expected.as_str()))
}

/// Whether a download link is valid now, by the system clock. A link without an expiry
/// or a signature, or one that never expires, is checked without the clock; a clock that
/// cannot be read is an internal error.
pub fn token_is_valid(
    secret: Option<&str>,
    file_id: &str,
    expires: Option<i64>,
    sig: Option<&str>,
) -> (r: Result<bool, ApiError>)
    ensures
        (expires is None || sig is None || expires == Some(0i64)) ==> r == token_check(
            opt_str_view(secret),
            file_id@,
            expires,
            opt_str_view(sig),
            0,
        ),
        expires matches Some(e) && e != 0 && sig is Some ==> (r == Err::<bool, ApiError>(ApiError::Internal)
            || exists|now: i64| r == #[trigger] token_check(opt_str_view(secret), file_id@, expires, opt_str_view(sig), now as int)),
{
    let e = match expires {
        Some(e) => e,
        None => return token_is_valid_at(secret, file_id, expires, sig, 0),
    };
    if sig.is_none() || e == 0 {
        return token_is_valid_at(secret, file_id, expires, sig, 0);
    }
    match utc_now() {
        Some(now) => token_is_valid_at(secret, file_id, expires, sig, now.secs()),
        None => Err(ApiError::Internal),
    }
}

/// No hexadecimal digit is whitespace, so trimming leaves a hexadecimal text alone.
proof fn lemma_hex_text_trimmed(bytes: Seq<u8>)
    ensures
        trimmed(hex_text(bytes)) == hex_text(bytes),
{
    let h = hex_text(bytes);
    assert forall|k: int| 0 <= k < h.len() implies !is_ws(#[trigger] h[k]) by {
        let d: nat = if k % 2 == 0 {
            (bytes[k / 2] / 16) as nat
        } else {
            (bytes[k / 2] % 16) as nat
        };
        assert(h[k] == hex_char(d));
    }
    if h.len() == 0 {
        crate::text::lemma_trimmed_bounds(h, 0, 0);
    } else {
        crate::text::lemma_trimmed_bounds(h, 0, h.len() as int);
    }
    assert(h.subrange(0, h.len() as int) =~= h);
}

/// A hexadecimal digit written by `hex_text` reads back as its value.
proof fn lemma_hex_char_nibble(d: nat)
    requires
        d < 16,
    ensures
        '\0' <= hex_char(d) <= '\u{7f}',
        nibble_value(hex_char(d) as u8) == Some(d as u8),
{
}

/// An encryption key written as lowercase hexadecimal reads back: the setting holding
/// the 64 hexadecimal digits of 32 bytes is not blank and denotes those bytes.
pub proof fn hex_key_reads_back(key: Seq<u8>)
    requires
        key.len() == 32,
    ensures
        trimmed(hex_text(key)).len() == 64,
        key_from_hex(vstd::utf8::encode_utf8(trimmed(hex_text(key)))) == Some(key),
{
    let h = hex_text(key);
    lemma_hex_text_trimmed(key);
    assert forall|k: int| 0 <= k < h.len() implies '\0' <= #[trigger] h[k] <= '\u{7f}' by {
        if k % 2 == 0 {
            lemma_hex_char_nibble((key[k / 2] / 16) as nat);
        } else {
            lemma_hex_char_nibble((key[k / 2] % 16) as nat);
        }
    }
    assert(vstd::utf8::is_ascii_chars(h));
    vstd::utf8::is_ascii_chars_encode_utf8(h);
    let b = vstd::utf8::encode_utf8(h);
    assert forall|i: int| 0 <= i < 32 implies #[trigger] hex_pair_value(b[2 * i], b[2 * i + 1]) == Some(key[i]) by {
        let hi = (key[i] / 16) as nat;
        let lo = (key[i] % 16) as nat;
        assert(h[2 * i] == hex_char(hi));
        assert(h[2 * i + 1] == hex_char(lo));
        assert(b[2 * i] == h[2 * i] as u8);
        assert(b[2 * i + 1] == h[2 * i + 1] as u8);
        lemma_hex_char_nibble(hi);
        lemma_hex_char_nibble(lo);
        assert(hi * 16 + lo == key[i]);
    }
    assert(Seq::new(32, |i: int| hex_pair_value(b[2 * i], b[2 * i + 1])->0) =~= key);
}

/// A link signed with the configured secret is valid until it expires: checking the
/// signature it was given, at any instant up to its expiry, answers yes.
pub proof fn signed_link_is_accepted(secret: Seq<char>, file_id: Seq<char>, expires: i64, now: i64)
    requires
        trimmed(secret).len() > 0,
        expires == 0 || expires >= now,
    ensures
        download_signature(Some(secret), file_id, expires as int) matches Ok(sig) && vstd::utf8::encode_utf8(
            trimmed(sig),
        ) == vstd::utf8::encode_utf8(sig),
{
    let tag = hmac_sha256_of(
        vstd::utf8::encode_utf8(secret),
        vstd::utf8::encode_utf8(signed_payload(file_id, expires as int)),
    );
    lemma_hex_text_trimmed(tag);
}

// ---------------------------------------------------------------------------
// Encryption at rest
// ---------------------------------------------------------------------------

/// The bytes that mark an encrypted blob: `OSMENC1`.
pub open spec fn encryption_magic() -> Seq<u8> {
    seq![79u8, 83u8, 77u8, 69u8, 78u8, 67u8, 49u8]
}

/// The AES-256-GCM ciphertext (with its tag) of a plaintext under a key and nonce.
pub uninterp spec fn aes256gcm_seal(key: Seq<u8>, nonce: Seq<u8>, plaintext: Seq<u8>) -> Option<Seq<u8>>;

/// The plaintext an AES-256-GCM ciphertext opens to under a key and nonce; none when the
/// tag does not check.
pub uninterp spec fn aes256gcm_open(key: Seq<u8>, nonce: Seq<u8>, ciphertext: Seq<u8>) -> Option<Seq<u8>>;

/// Encrypts with `aes_gcm::Aes256Gcm` (built from the key with `KeyInit::new`, then
/// `Aead::encrypt`). The contract names the ciphertext and states the defining property
/// of the authenticated cipher: decrypting it with the same key and nonce gives the
/// plaintext back.
#[verifier::external_body]
fn aes_seal(key: &[u8; 32], nonce: &[u8; 12], plaintext: &[u8]) -> (r: Option<Vec<u8>>)
    ensures
        match r {
            Some(ct) => aes256gcm_seal(key@, nonce@, plaintext@) == Some(ct@) && aes256gcm_open(
                key@,
                nonce@,
                ct@,
            ) == Some(plaintext@),
            None => aes256gcm_seal(key@, nonce@, plaintext@) is None,
        },
{
    let cipher = aes_gcm::Aes256Gcm::new(key.into());
    cipher.encrypt(nonce.into(), plaintext).ok()
}

/// Decrypts with `aes_gcm::Aes256Gcm` (built from the key with `KeyInit::new`, then
/// `Aead::decrypt`). The contract names the outcome.
#[verifier::external_body]
fn aes_open(key: &[u8; 32], nonce: &[u8; 12], ciphertext: &[u8]) -> (r: Option<Vec<u8>>)
    ensures
        match r {
            Some(pt) => aes256gcm_open(key@, nonce@, ciphertext@) == Some(pt@),
            None => aes256gcm_open(key@, nonce@, ciphertext@) is None,
        },
{
    let cipher = aes_gcm::Aes256Gcm::new(key.into());
    cipher.decrypt(nonce.into(), ciphertext).ok()
}

fn copy_bytes(bytes: &[u8]) -> (r: Vec<u8>)
    ensures
        r@ == bytes@,
{
    let mut out: Vec<u8> = Vec::new();
    let mut i: usize = 0;
    while i < bytes.len()
        invariant
            i <= bytes@.len(),
            out@ == bytes@.subrange(0, i as int),
        decreases bytes@.len() - i,
    {
        out.push(bytes[i]);
        i = i + 1;
        assert(out@ =~= bytes@.subrange(0, i as int));
    }
    assert(bytes@.subrange(0, bytes@.len() as int) =~= bytes@);
    out
}

fn starts_with_magic(bytes: &[u8]) -> (r: bool)
    ensures
        r == (bytes@.len() >= 7 && bytes@.subrange(0, 7) == encryption_magic()),
{
    if bytes.len() < 7 {
        return false;
    }
    let ok = bytes[0] == 79 && bytes[1] == 83 && bytes[2] == 77 && bytes[3] == 69 && bytes[4] == 78
        && bytes[5] == 67 && bytes[6] == 49;
    proof {
        if ok {
            assert(bytes@.subrange(0, 7) =~= encryption_magic());
        } else if bytes@.subrange(0, 7) == encryption_magic() {
            assert(forall|j: int| 0 <= j < 7 ==> #[trigger] bytes@.subrange(0, 7)[j] == bytes@[j]);
        }
    }
    ok
}

/// What reading a stored blob gives: a blob without the marker is legacy plaintext and
/// comes back as it is; a marked blob too short for a nonce is refused; a marked blob
/// needs the key, and opens to its plaintext or is refused.
pub open spec fn decrypted_blob(bytes: Seq<u8>, key: Result<Option<Seq<u8>>, ApiError>) -> Result<Seq<u8>, ApiError> {
    if !(bytes.len() >= 7 && bytes.subrange(0, 7) == encryption_magic()) {
        Ok(bytes)
    } else if bytes.len() < 19 {
        Err(ApiError::Internal)
    } else {
        match key {
            Err(e) => Err(e),
            Ok(None) => Err(ApiError::ServiceUnavailable),
            Ok(Some(k)) => match aes256gcm_open(k, bytes.subrange(7, 19), bytes.subrange(19, bytes.len() as int)) {
                Some(pt) => Ok(pt),
                None => Err(ApiError::Internal),
            },
        }
    }
}

pub open spec fn key_view(key: &Result<Option<[u8; 32]>, ApiError>) -> Result<Option<Seq<u8>>, ApiError> {
    match key {
        Ok(Some(k)) => Ok(Some(k@)),
        Ok(None) => Ok(None),
        Err(e) => Err(*e),
    }
}

/// Reads a stored blob, decrypting it when it carries the encryption marker.
pub fn maybe_decrypt_blob(bytes: &[u8], key: &Result<Option<[u8; 32]>, ApiError>) -> (r: Result<Vec<u8>, ApiError>)
    ensures
        match r {
            Ok(v) => decrypted_blob(bytes@, key_view(key)) == Ok::<Seq<u8>, ApiError>(v@),
            Err(e) => decrypted_blob(bytes@, key_view(key)) == Err::<Seq<u8>, ApiError>(e),
        },
{
    if !starts_with_magic(bytes) {
        return Ok(copy_bytes(bytes));
    }
    if bytes.len() < 19 {
        return Err(ApiError::Internal);
    }
    let k = match key {
        Err(e) => return Err(*e),
        Ok(None) => return Err(ApiError::ServiceUnavailable),
        Ok(Some(k)) => k,
    };
    let mut nonce = [0u8; 12];
    let mut i: usize = 0;
    while i < 12
        invariant
            bytes@.len() >= 19,
            i <= 12,
            forall|j: int| 0 <= j < i ==> nonce@[j] == bytes@[7 + j],
        decreases 12 - i,
    {
        nonce[i] = bytes[7 + i];
        i = i + 1;
    }
    assert(nonce@ =~= bytes@.subrange(7, 19));
    let mut ciphertext: Vec<u8> = Vec::new();
    let mut j: usize = 19;
    while j < bytes.len()
        invariant
            19 <= j <= bytes@.len(),
            ciphertext@ == bytes@.subrange(19, j as int),
        decreases bytes@.len() - j,
    {
        ciphertext.push(bytes[j]);
        j = j + 1;
        assert(ciphertext@ =~= bytes@.subrange(19, j as int));
    }
    match aes_open(k, &nonce, ciphertext.as_slice()) {
        Some(pt) => Ok(pt),
        None => Err(ApiError::Internal),
    }
}

/// Seals a blob under a key and a nonce: the encryption marker, the nonce and the
/// AES-256-GCM ciphertext; an internal error when the cipher refuses the plaintext.
pub fn seal_blob(plaintext: &[u8], key: &[u8; 32], nonce: &[u8; 12]) -> (r: Result<Vec<u8>, ApiError>)
    ensures
        match aes256gcm_seal(key@, nonce@, plaintext@) {
            Some(ct) => r matches Ok(v) && v@ == encryption_magic() + nonce@ + ct,
            None => r == Err::<Vec<u8>, ApiError>(ApiError::Internal),
        },
        aes256gcm_seal(key@, nonce@, plaintext@) matches Some(ct) ==> aes256gcm_open(key@, nonce@, ct) == Some(
            plaintext@,
        ),
{
    let encrypted = match aes_seal(key, nonce, plaintext) {
        Some(ct) => ct,
        None => return Err(ApiError::Internal),
    };
    let mut out: Vec<u8> = Vec::new();
    out.push(79);
    out.push(83);
    out.push(77);
    out.push(69);
    out.push(78);
    out.push(67);
    out.push(49);
    assert(out@ =~= encryption_magic());
    let mut i: usize = 0;
    while i < 12
        invariant
            i <= 12,
            out@ == encryption_magic() + nonce@.subrange(0, i as int),
        decreases 12 - i,
    {
        out.push(nonce[i]);
        i = i + 1;
        assert(out@ =~= encryption_magic() + nonce@.subrange(0, i as int));
    }
    assert(nonce@.subrange(0, 12) =~= nonce@);
    let mut j: usize = 0;
    while j < encrypted.len()
        invariant
            j <= encrypted@.len(),
            out@ == encryption_magic() + nonce@ + encrypted@.subrange(0, j as int),
        decreases encrypted@.len() - j,
    {
        out.push(encrypted[j]);
        j = j + 1;
        assert(out@ =~= encryption_magic() + nonce@ + encrypted@.subrange(0, j as int));
    }
    assert(encrypted@.subrange(0, encrypted@.len() as int) =~= encrypted@);
    Ok(out)
}


/// Prepares a blob for storage: encrypted under a fresh random nonce and marked when a
/// key is configured (`seal_blob`), as it is otherwise. Whether the random source gives a
/// nonce, and which, is not stated.
pub fn maybe_encrypt_blob(plaintext: &[u8], key: &Result<Option<[u8; 32]>, ApiError>) -> (r: Result<Vec<u8>, ApiError>)
    ensures
        match key {
            Err(e) => r == Err::<Vec<u8>, ApiError>(*e),
            Ok(None) => r matches Ok(v) && v@ == plaintext@,
            Ok(Some(k)) => match r {
                Ok(v) => exists|nonce: Seq<u8>, ct: Seq<u8>|
                    nonce.len() == 12 && aes256gcm_seal(k@, nonce, plaintext@) == Some(ct)
                        && aes256gcm_open(k@, nonce, ct) == Some(plaintext@) && v@
                        == encryption_magic() + nonce + ct,
                Err(e) => e == ApiError::Internal,
            },
        },
{
    let k = match key {
        Err(e) => return Err(*e),
        Ok(None) => return Ok(copy_bytes(plaintext)),
        Ok(Some(k)) => k,
    };
    let mut nonce = [0u8; 12];
    if !fill_random(&mut nonce) {
        return Err(ApiError::Internal);
    }
    let r = seal_blob(plaintext, k, &nonce);
    proof {
        if let Some(ct) = aes256gcm_seal(k@, nonce@, plaintext@) {
            assert(nonce@.len() == 12);
            assert(r matches Ok(v) && v@ == encryption_magic() + nonce@ + ct);
        }
    }
    r
}

/// A blob stored encrypted under a key reads back, under the same key, as the plaintext
/// that was stored.
pub proof fn encrypted_blob_reads_back(key: Seq<u8>, nonce: Seq<u8>, ct: Seq<u8>, plaintext: Seq<u8>)
    requires
        nonce.len() == 12,
        aes256gcm_open(key, nonce, ct) == Some(plaintext),
    ensures
        decrypted_blob(encryption_magic() + nonce + ct, Ok(Some(key))) == Ok::<Seq<u8>, ApiError>(plaintext),
{
    let blob = encryption_magic() + nonce + ct;
    assert(blob.subrange(0, 7) =~= encryption_magic());
    assert(blob.subrange(7, 19) =~= nonce);
    assert(blob.subrange(19, blob.len() as int) =~= ct);
}

/// Without a key, a blob that does not begin with the encryption marker is stored and
/// read back unchanged.
pub proof fn plaintext_blob_reads_back(bytes: Seq<u8>)
    requires
        !(bytes.len() >= 7 && bytes.subrange(0, 7) == encryption_magic()),
    ensures
        decrypted_blob(bytes, Ok(None)) == Ok::<Seq<u8>, ApiError>(bytes),
{
}

// ---------------------------------------------------------------------------
// Client address and access decisions
// ---------------------------------------------------------------------------

/// The address a request is logged under: the first entry of `X-Forwarded-For` when it
/// is not blank, else `X-Real-IP` when it is not blank, else `unknown`.
pub open spec fn client_ip_spec(forwarded_for: Option<Seq<char>>, real_ip: Option<Seq<char>>) -> Seq<char> {
    let first = match forwarded_for {
        Some(v) => trimmed(split_on(v, ',')[0]),
        None => Seq::empty(),
    };
    if first.len() > 0 {
        first
    } else {
        match real_ip {
            Some(v) => if trimmed(v).len() > 0 {
                trimmed(v)
            } else {
                "unknown"@
            },
            None => "unknown"@,
        }
    }
}

/// Chooses the address a request is logged under from its proxy headers.
pub fn client_ip_from(forwarded_for: Option<&str>, real_ip: Option<&str>) -> (r: String)
    ensures
        r@ == client_ip_spec(opt_str_view(forwarded_for), opt_str_view(real_ip)),
{
    if let Some(value) = forwarded_for {
        let parts = split_char(value, ',');
        proof {
            crate::text::lemma_split_on_nonempty(value@, ',');
        }
        assert(parts@[0]@ == views_of(parts@)[0]);
        let parsed = trim(parts[0].as_str());
        if parsed.unicode_len() > 0 {
            return owned(parsed);
        }
    }
    if let Some(value) = real_ip {
        let parsed = trim(value);
        if parsed.unicode_len() > 0 {
            return owned(parsed);
        }
    }
    owned("unknown")
}

/// The address a request is logged under, read from its headers.
pub fn client_ip(headers: &http::HeaderMap) -> (r: String)
    ensures
        r@ == client_ip_spec(header_text_in(*headers, "x-forwarded-for"@), header_text_in(*headers, "x-real-ip"@)),
{
    proof {
        reveal_strlit("x-forwarded-for");
        reveal_strlit("x-real-ip");
        lemma_plain_header_key("x-forwarded-for"@);
        lemma_plain_header_key("x-real-ip"@);
    }
    let forwarded = header_text(headers, "x-forwarded-for");
    let real_ip = header_text(headers, "x-real-ip");
    client_ip_from(forwarded, real_ip)
}

/// Whether some role of the user is one of the roles allowed to view a file.
pub open spec fn roles_overlap(roles: Seq<String>, allowed: Seq<String>) -> bool {
    exists|i: int, j: int| 0 <= i < roles.len() && 0 <= j < allowed.len() && #[trigger] roles[i]@ == #[trigger] allowed[j]@
}

/// Whether some role of the user is one of the roles allowed to view a file.
pub fn any_role_allowed(roles: &[String], allowed: &[String]) -> (r: bool)
    ensures
        r == roles_overlap(roles@, allowed@),
{
    let mut i: usize = 0;
    while i < roles.len()
        invariant
            i <= roles@.len(),
            forall|a: int, b: int| 0 <= a < i && 0 <= b < allowed@.len() ==> #[trigger] roles@[a]@ != #[trigger] allowed@[b]@,
        decreases roles@.len() - i,
    {
        let mut j: usize = 0;
        while j < allowed.len()
            invariant
                i < roles@.len(),
                j <= allowed@.len(),
                forall|a: int, b: int| 0 <= a < i && 0 <= b < allowed@.len() ==> #[trigger] roles@[a]@ != #[trigger] allowed@[b]@,
                forall|b: int| 0 <= b < j ==> roles@[i as int]@ != #[trigger] allowed@[b]@,
            decreases allowed@.len() - j,
        {
            if str_eq(allowed[j].as_str(), roles[i].as_str()) {
                return true;
            }
            j = j + 1;
        }
        i = i + 1;
    }
    false
}

/// Whether a user may upload files: with the files update or create permission.
pub fn ensure_can_upload(has_files_update: bool, has_files_create: bool) -> (r: Result<(), ApiError>)
    ensures
        r is Ok <==> (has_files_update || has_files_create),
        r matches Err(e) ==> e == ApiError::Unauthorized,
{
    if has_files_update || has_files_create {
        Ok(())
    } else {
        Err(ApiError::Unauthorized)
    }
}

/// Whether a user may change a file: with the files update permission, or as its
/// uploader with the files create permission.
pub fn ensure_can_mutate_file(
    has_files_update: bool,
    has_files_create: bool,
    uploaded_by: &str,
    user_id: &str,
) -> (r: Result<(), ApiError>)
    ensures
        r is Ok <==> (has_files_update || (uploaded_by@ == user_id@ && has_files_create)),
        r matches Err(e) ==> e == ApiError::Unauthorized,
{
    if has_files_update {
        return Ok(());
    }
    if str_eq(uploaded_by, user_id) && has_files_create {
        return Ok(());
    }
    Err(ApiError::Unauthorized)
}

/// Whether a user may read a file before any permission is looked up: a public file,
/// or one the user uploaded or owns.
pub fn file_readable_without_lookup(
    is_public: bool,
    uploaded_by: &str,
    owner_user_id: Option<&str>,
    user_id: &str,
) -> (r: bool)
    ensures
        r == (is_public || user_id@ == uploaded_by@ || (owner_user_id matches Some(o) && o@ == user_id@)),
{
    if is_public || str_eq(user_id, uploaded_by) {
        return true;
    }
    match owner_user_id {
        Some(owner) => str_eq(owner, user_id),
        None => false,
    }
}

/// Whether a user may read a file given the user's access: the files update permission,
/// or a role among the file's viewer roles. Otherwise only a direct grant (looked up
/// next) allows it.
pub fn file_readable_by_access(has_files_update: bool, roles: &[String], viewer_roles: &[String]) -> (r: bool)
    ensures
        r == (has_files_update || roles_overlap(roles@, viewer_roles@)),
{
    has_files_update || any_role_allowed(roles, viewer_roles)
}

/// Whether a user may change who can see a file without a direct grant: with the files
/// update permission, as its uploader or owner, or with one of its viewer roles.
pub fn file_policy_editable_without_grant(
    has_files_update: bool,
    uploaded_by: &str,
    owner_user_id: Option<&str>,
    user_id: &str,
    roles: &[String],
    viewer_roles: &[String],
) -> (r: bool)
    ensures
        r == (has_files_update || uploaded_by@ == user_id@ || (owner_user_id matches Some(o) && o@ == user_id@) || roles_overlap(roles@, viewer_roles@)),
{
    if has_files_update || str_eq(uploaded_by, user_id) {
        return true;
    }
    if let Some(owner) = owner_user_id {
        if str_eq(owner, user_id) {
            return true;
        }
    }
    any_role_allowed(roles, viewer_roles)
}

// ---------------------------------------------------------------------------
// Queries and settings
// ---------------------------------------------------------------------------

/// The query of a file audit listing.
#[derive(Debug)]
pub struct FileAuditQuery {
    pub file_id: Option<String>,
    pub limit: Option<i64>,
    pub offset: Option<i64>,
}

/// The query of a signed download link request.
#[derive(Debug)]
pub struct SignedUrlQuery {
    pub expires_in: Option<i64>,
    pub never_expire: Option<bool>,
}

/// The query of a download through a signed link.
#[derive(Debug)]
pub struct CdnTokenQuery {
    pub expires: Option<i64>,
    pub sig: Option<String>,
}

/// A value, or `default` when absent, kept within `lo` to `hi`.
pub open spec fn clamped_or(v: Option<i64>, default: int, lo: int, hi: int) -> int {
    let x = match v {
        Some(n) => n as int,
        None => default,
    };
    if x < lo {
        lo
    } else if x > hi {
        hi
    } else {
        x
    }
}

fn clamp_or(v: Option<i64>, default: i64, lo: i64, hi: i64) -> (r: i64)
    requires
        lo <= hi,
    ensures
        r == clamped_or(v, default as int, lo as int, hi as int),
{
    let x = match v {
        Some(n) => n,
        None => default,
    };
    if x < lo {
        lo
    } else if x > hi {
        hi
    } else {
        x
    }
}

/// The page of a file audit listing: up to `limit` entries (50 by default, 1 to 250)
/// from `offset` (0 by default, never negative).
pub fn audit_log_page(query: &FileAuditQuery) -> (r: (i64, i64))
    ensures
        r.0 == clamped_or(query.limit, 50, 1, 250),
        r.1 == clamped_or(query.offset, 0, 0, i64::MAX as int),
{
    (clamp_or(query.limit, 50, 1, 250), clamp_or(query.offset, 0, 0, i64::MAX))
}

/// The page of a file listing: up to `limit` files (50 by default, 1 to 200) from
/// `offset` (0 by default, never negative).
pub fn file_list_page(limit: Option<i64>, offset: Option<i64>) -> (r: (i64, i64))
    ensures
        r.0 == clamped_or(limit, 50, 1, 200),
        r.1 == clamped_or(offset, 0, 0, i64::MAX as int),
{
    (clamp_or(limit, 50, 1, 200), clamp_or(offset, 0, 0, i64::MAX))
}

/// The largest upload a `FILE_MAX_UPLOAD_BYTES` value allows: the number when it reads
/// as one, else 25 MiB.
pub open spec fn max_upload_spec(raw: Option<Seq<char>>) -> int {
    match raw {
        Some(v) => match parse_unsigned(v, u64::MAX as int) {
            Some(n) => n,
            None => 26214400int,
        },
        None => 26214400int,
    }
}

/// Reads the `FILE_MAX_UPLOAD_BYTES` setting.
pub fn max_upload_bytes(raw: Option<&str>) -> (r: u64)
    ensures
        r as int == max_upload_spec(opt_str_view(raw)),
{
    match raw {
        Some(v) => match parse_unsigned_max(v, u64::MAX) {
            Some(n) => n,
            None => 25 * 1024 * 1024,
        },
        None => 25 * 1024 * 1024,
    }
}

/// Where file bodies are stored: the `FILE_STORAGE_ROOT` value, `./storage/files` when
/// it is absent.
pub fn storage_root(raw: Option<&str>) -> (r: String)
    ensures
        r@ == match raw {
            Some(v) => v@,
            None => "./storage/files"@,
        },
{
    match raw {
        Some(v) => owned(v),
        None => owned("./storage/files"),
    }
}

/// Why an upload body is refused: it is empty, or larger than `max_size` bytes.
pub fn upload_body_problem(len: usize, max_size: u64) -> (r: Option<&'static str>)
    ensures
        len == 0 ==> (r matches Some(why) && why@ == "empty_body"@),
        len != 0 && len > max_size ==> (r matches Some(why) && why@ == "max_size_exceeded"@),
        len != 0 && len <= max_size ==> r is None,
{
    if len == 0 {
        Some("empty_body")
    } else if len as u64 > max_size {
        Some("max_size_exceeded")
    } else {
        None
    }
}

/// The name an upload is stored under: the requested one, else the file's id with
/// `.bin`; either way checked as `sanitize_filename` does.
pub fn upload_filename(requested: Option<&str>, file_id: &str) -> (r: Result<String, ApiError>)
    ensures
        ({
            let raw = match requested {
                Some(n) => n@,
                None => file_id@ + ".bin"@,
            };
            let t = trimmed(raw);
            let ok = t.len() > 0 && utf8_len(t) <= 255 && !t.contains('/') && !t.contains('\\')
                && !has_pair(t, '.', '.');
            match r {
                Ok(s) => ok && s@ == t,
                Err(e) => !ok && e == ApiError::BadRequest,
            }
        }),
{
    match requested {
        Some(n) => sanitize_filename(n),
        None => {
            let fallback = concat2(file_id, ".bin");
            sanitize_filename(fallback.as_str())
        },
    }
}

/// The roles allowed to view a file, as given: each trimmed and upper-cased, blanks left
/// out, each once, in order of first appearance.
pub open spec fn role_list_spec(roles: Seq<Seq<char>>) -> Seq<Seq<char>>
    decreases roles.len(),
{
    if roles.len() == 0 {
        Seq::empty()
    } else {
        let rest = role_list_spec(roles.drop_last());
        let r = upper(trimmed(roles.last()));
        if r.len() == 0 || rest.contains(r) {
            rest
        } else {
            rest.push(r)
        }
    }
}

/// Normalizes the viewer roles of a file.
pub fn normalize_role_list(roles: &[String]) -> (r: Vec<String>)
    ensures
        views_of(r@) == role_list_spec(views_of(roles@)),
{
    let mut out: Vec<String> = Vec::new();
    let mut i: usize = 0;
    while i < roles.len()
        invariant
            i <= roles@.len(),
            views_of(out@) == role_list_spec(views_of(roles@.subrange(0, i as int))),
        decreases roles@.len() - i,
    {
        let ghost prev = views_of(roles@.subrange(0, i as int));
        let ghost next = views_of(roles@.subrange(0, i + 1));
        assert(next.drop_last() =~= prev);
        assert(next.last() == roles@[i as int]@);
        let role = to_ascii_uppercase(trim(roles[i].as_str()));
        if role.as_str().unicode_len() > 0 && !contains_str(&out, role.as_str()) {
            let ghost before = out@;
            out.push(role);
            assert(views_of(out@) =~= views_of(before).push(out@[before.len() as int]@));
        }
        i = i + 1;
    }
    assert(roles@.subrange(0, roles@.len() as int) =~= roles@);
    out
}

/// Checks that every role is one the access catalog knows.
pub fn check_roles_known(roles: &[String], catalog: &[String]) -> (r: Result<(), ApiError>)
    ensures
        (forall|k: int| 0 <= k < roles@.len() ==> views_of(catalog@).contains(#[trigger] roles@[k]@)) ==> r is Ok,
        !(forall|k: int| 0 <= k < roles@.len() ==> views_of(catalog@).contains(#[trigger] roles@[k]@)) ==> r
            == Err::<(), ApiError>(ApiError::BadRequest),
{
    let catalog_vec = copy_strings(catalog);
    let mut i: usize = 0;
    while i < roles.len()
        invariant
            views_of(catalog_vec@) == views_of(catalog@),
            i <= roles@.len(),
            forall|k: int| 0 <= k < i ==> views_of(catalog@).contains(#[trigger] roles@[k]@),
        decreases roles@.len() - i,
    {
        if !contains_str(&catalog_vec, roles[i].as_str()) {
            return Err(ApiError::BadRequest);
        }
        i = i + 1;
    }
    Ok(())
}

fn copy_strings(v: &[String]) -> (r: Vec<String>)
    ensures
        views_of(r@) == views_of(v@),
{
    let mut out: Vec<String> = Vec::new();
    let mut i: usize = 0;
    while i < v.len()
        invariant
            i <= v@.len(),
            views_of(out@) == views_of(v@.subrange(0, i as int)),
        decreases v@.len() - i,
    {
        let ghost before = out@;
        out.push(v[i].clone());
        assert(views_of(out@) =~= views_of(before).push(v@[i as int]@));
        assert(views_of(v@.subrange(0, i + 1)) =~= views_of(v@.subrange(0, i as int)).push(v@[i as int]@));
        i = i + 1;
    }
    assert(v@.subrange(0, v@.len() as int) =~= v@);
    out
}

/// When a signed link expires: a link that never expires carries `expires` 0 and shows
/// 9999-12-31T23:59:59Z; any other expires `expires_in` seconds (900 by default, 60 to
/// 86400) after `now`. An instant chrono cannot represent is an internal error.
pub fn signed_url_expiry(query: &SignedUrlQuery, now: UtcTimestamp) -> (r: Result<(i64, UtcTimestamp), ApiError>)
    ensures
        match query.never_expire {
            Some(true) => match r {
                Ok((e, at)) => e == 0 && at.spec_secs() == 253402300799 && at.spec_nanos() == 0,
                Err(err) => err == ApiError::Internal && !crate::timestamp::chrono_instant_valid(253402300799, 0),
            },
            _ => {
                let secs = now.spec_secs() + clamped_or(query.expires_in, 900, 60, 86400);
                match r {
                    Ok((e, at)) => e == secs && at.spec_secs() == secs && at.spec_nanos() == now.spec_nanos(),
                    Err(err) => err == ApiError::Internal && (secs > i64::MAX || !crate::timestamp::chrono_instant_valid(
                        secs as i64,
                        now.spec_nanos(),
                    )),
                }
            },
        },
{
    let never = match query.never_expire {
        Some(b) => b,
        None => false,
    };
    if never {
        match UtcTimestamp::new(253402300799, 0) {
            Some(at) => Ok((0, at)),
            None => Err(ApiError::Internal),
        }
    } else {
        let expires_in = clamp_or(query.expires_in, 900, 60, 86400);
        let base = now.secs();
        if base > i64::MAX - expires_in {
            return Err(ApiError::Internal);
        }
        let secs = base + expires_in;
        match UtcTimestamp::new(secs, now.subsec_nanos()) {
            Some(at) => Ok((secs, at)),
            None => Err(ApiError::Internal),
        }
    }
}

/// The signed download link of a file: the CDN base (`CDN_BASE_URL`, else
/// `http://localhost:3000`) without trailing slashes, then `/cdn/<id>?expires=<e>&sig=<s>`.
pub fn signed_download_url(cdn_base_url: Option<&str>, file_id: &str, expires: i64, sig: &str) -> (r: String)
    ensures
        r@ == strip_trailing(
            match cdn_base_url {
                Some(b) => b@,
                None => "http://localhost:3000"@,
            },
            '/',
        ) + "/cdn/"@ + file_id@ + "?expires="@ + signed_decimal(expires as int) + "&sig="@ + sig@,
{
    let base = match cdn_base_url {
        Some(b) => b,
        None => "http://localhost:3000",
    };
    let mut out = owned(trim_end_char(base, '/'));
    out.append("/cdn/");
    out.append(file_id);
    out.append("?expires=");
    let e = i64_to_decimal(expires);
    out.append(e.as_str());
    out.append("&sig=");
    out.append(sig);
    out
}


/// A signed download link and when it stops working.
#[derive(Debug)]
pub struct SignedUrlResponse {
    pub url: String,
    pub expires_at: UtcTimestamp,
}

/// The expiry a link request asks for at `now`: the value carried in the link, then the
/// seconds and nanoseconds of the instant it shows.
pub open spec fn requested_expiry(query: SignedUrlQuery, now: UtcTimestamp) -> (int, int, u32) {
    match query.never_expire {
        Some(true) => (0, 253402300799, 0),
        _ => {
            let secs = now.spec_secs() + clamped_or(query.expires_in, 900, 60, 86400);
            (secs, secs, now.spec_nanos())
        },
    }
}

/// Whether chrono can represent the instant a link request asks for.
pub open spec fn expiry_representable(query: SignedUrlQuery, now: UtcTimestamp) -> bool {
    let (_, secs, nanos) = requested_expiry(query, now);
    secs <= i64::MAX && crate::timestamp::chrono_instant_valid(secs as i64, nanos)
}

/// Issues a signed download link for `file_id` at `now`: the expiry of
/// `signed_url_expiry`, signed with the configured secret, in the link of
/// `signed_download_url`. An expiry chrono cannot represent is an internal error; a
/// signing failure is that of `sign_download_token`.
pub fn signed_url_response(
    secret: Option<&str>,
    cdn_base_url: Option<&str>,
    file_id: &str,
    query: &SignedUrlQuery,
    now: UtcTimestamp,
) -> (r: Result<SignedUrlResponse, ApiError>)
    ensures
        ({
            let (e, secs, nanos) = requested_expiry(*query, now);
            match r {
                Ok(resp) => {
                    &&& expiry_representable(*query, now)
                    &&& resp.expires_at.spec_secs() == secs && resp.expires_at.spec_nanos() == nanos
                    &&& download_signature(opt_str_view(secret), file_id@, e) matches Ok(sig)
                        && resp.url@ == strip_trailing(
                            match cdn_base_url {
                                Some(b) => b@,
                                None => "http://localhost:3000"@,
                            },
                            '/',
                        ) + "/cdn/"@ + file_id@ + "?expires="@ + signed_decimal(e) + "&sig="@ + sig
                },
                Err(err) => if expiry_representable(*query, now) {
                    download_signature(opt_str_view(secret), file_id@, e) == Err::<Seq<char>, ApiError>(err)
                } else {
                    err == ApiError::Internal
                },
            }
        }),
{
    let (expires, expires_at) = match signed_url_expiry(query, now) {
        Ok(p) => p,
        Err(e) => return Err(e),
    };
    // Every instant the library holds is one chrono can represent.
    let _ = expires_at.representable_parts();
    let sig = match sign_download_token(secret, file_id, expires) {
        Ok(s) => s,
        Err(e) => return Err(e),
    };
    let url = signed_download_url(cdn_base_url, file_id, expires, sig.as_str());
    Ok(SignedUrlResponse { url, expires_at })
}

} // verus!
