//! Character-level text primitives with their meaning stated over `Seq<char>`:
//! trimming, ASCII case mapping, comparison, splitting, and decimal integers.
use vstd::prelude::*;

verus! {

/// Appending one character to a `String` extends its character sequence by that character.
pub assume_specification[ String::push ](s: &mut String, ch: char)
    ensures
        final(s)@ == old(s)@.push(ch),
;

// ---------------------------------------------------------------------------
// Whitespace and trimming
// ---------------------------------------------------------------------------

/// The characters with the Unicode `White_Space` property.
pub open spec fn is_ws(c: char) -> bool {
    let v = c as u32;
    ||| 0x09 <= v <= 0x0D
    ||| v == 0x20
    ||| v == 0x85
    ||| v == 0xA0
    ||| v == 0x1680
    ||| 0x2000 <= v <= 0x200A
    ||| v == 0x2028
    ||| v == 0x2029
    ||| v == 0x202F
    ||| v == 0x205F
    ||| v == 0x3000
}

/// Drops the leading whitespace of a sequence.
pub open spec fn trim_start(s: Seq<char>) -> Seq<char>
    decreases s.len(),
{
    if s.len() > 0 && is_ws(s[0]) {
        trim_start(s.drop_first())
    } else {
        s
    }
}

/// Drops the trailing whitespace of a sequence.
pub open spec fn trim_end(s: Seq<char>) -> Seq<char>
    decreases s.len(),
{
    if s.len() > 0 && is_ws(s.last()) {
        trim_end(s.drop_last())
    } else {
        s
    }
}

/// A sequence with leading and trailing whitespace removed.
pub open spec fn trimmed(s: Seq<char>) -> Seq<char> {
    trim_end(trim_start(s))
}

/// Whether every character of a sequence is whitespace.
pub open spec fn all_ws(s: Seq<char>) -> bool {
    forall|k: int| 0 <= k < s.len() ==> is_ws(#[trigger] s[k])
}

/// Whether a character has the Unicode `White_Space` property.
pub fn char_is_whitespace(c: char) -> (b: bool)
    ensures
        b == is_ws(c),
{
    let v = c as u32;
    (0x09 <= v && v <= 0x0D) || v == 0x20 || v == 0x85 || v == 0xA0 || v == 0x1680 || (0x2000
        <= v && v <= 0x200A) || v == 0x2028 || v == 0x2029 || v == 0x202F || v == 0x205F || v
        == 0x3000
}

proof fn lemma_trim_start_at(s: Seq<char>, lo: int)
    requires
        0 <= lo <= s.len(),
        forall|k: int| 0 <= k < lo ==> is_ws(#[trigger] s[k]),
        lo < s.len() ==> !is_ws(s[lo]),
    ensures
        trim_start(s) == s.subrange(lo, s.len() as int),
    decreases lo,
{
    if lo == 0 {
        assert(s.subrange(0, s.len() as int) =~= s);
    } else {
        let t = s.drop_first();
        assert forall|k: int| 0 <= k < lo - 1 implies is_ws(#[trigger] t[k]) by {
            assert(t[k] == s[k + 1]);
        }
        if lo - 1 < t.len() {
            assert(t[lo - 1] == s[lo]);
        }
        lemma_trim_start_at(t, lo - 1);
        assert(t.subrange(lo - 1, t.len() as int) =~= s.subrange(lo, s.len() as int));
    }
}

proof fn lemma_trim_end_at(s: Seq<char>, hi: int)
    requires
        0 <= hi <= s.len(),
        forall|k: int| hi <= k < s.len() ==> is_ws(#[trigger] s[k]),
        hi > 0 ==> !is_ws(s[hi - 1]),
    ensures
        trim_end(s) == s.subrange(0, hi),
    decreases s.len() - hi,
{
    if hi == s.len() {
        assert(s.subrange(0, hi) =~= s);
    } else {
        let t = s.drop_last();
        assert forall|k: int| hi <= k < t.len() implies is_ws(#[trigger] t[k]) by {
            assert(t[k] == s[k]);
        }
        if hi > 0 {
            assert(t[hi - 1] == s[hi - 1]);
        }
        lemma_trim_end_at(t, hi);
        assert(t.subrange(0, hi) =~= s.subrange(0, hi));
    }
}

/// Trimming keeps exactly the characters between the first and the last non-whitespace one.
pub proof fn lemma_trimmed_bounds(s: Seq<char>, lo: int, hi: int)
    requires
        0 <= lo <= hi <= s.len(),
        forall|k: int| 0 <= k < lo ==> is_ws(#[trigger] s[k]),
        forall|k: int| hi <= k < s.len() ==> is_ws(#[trigger] s[k]),
        lo < s.len() ==> !is_ws(s[lo]),
        hi > lo ==> !is_ws(s[hi - 1]),
        lo == s.len() ==> hi == lo,
    ensures
        trimmed(s) == s.subrange(lo, hi),
{
    lemma_trim_start_at(s, lo);
    let t = s.subrange(lo, s.len() as int);
    assert forall|k: int| hi - lo <= k < t.len() implies is_ws(#[trigger] t[k]) by {
        assert(t[k] == s[k + lo]);
    }
    if hi - lo > 0 {
        assert(t[hi - lo - 1] == s[hi - 1]);
    }
    lemma_trim_end_at(t, hi - lo);
    assert(t.subrange(0, hi - lo) =~= s.subrange(lo, hi));
}

proof fn lemma_trim_start_props(s: Seq<char>)
    ensures
        (trim_start(s).len() == 0) == all_ws(s),
        trim_start(s).len() > 0 ==> !is_ws(trim_start(s)[0]),
        trim_start(s).len() <= s.len(),
        trim_start(s) == s.subrange(s.len() - trim_start(s).len(), s.len() as int),
    decreases s.len(),
{
    if s.len() > 0 && is_ws(s[0]) {
        let t = s.drop_first();
        lemma_trim_start_props(t);
        if all_ws(t) {
            assert forall|k: int| 0 <= k < s.len() implies is_ws(#[trigger] s[k]) by {
                if k > 0 {
                    assert(s[k] == t[k - 1]);
                }
            }
        } else {
            let k = choose|k: int| 0 <= k < t.len() && !is_ws(t[k]);
            assert(s[k + 1] == t[k]);
        }
        assert(t.subrange(t.len() - trim_start(t).len(), t.len() as int) =~= s.subrange(
            s.len() - trim_start(t).len(),
            s.len() as int,
        ));
    } else {
        assert(s.subrange(0, s.len() as int) =~= s);
        if s.len() > 0 {
            assert(!is_ws(s[0]));
        }
    }
}

proof fn lemma_trim_end_props(s: Seq<char>)
    ensures
        (trim_end(s).len() == 0) == all_ws(s),
        trim_end(s).len() > 0 ==> !is_ws(trim_end(s).last()),
        trim_end(s).len() <= s.len(),
        trim_end(s) == s.subrange(0, trim_end(s).len() as int),
    decreases s.len(),
{
    if s.len() > 0 && is_ws(s.last()) {
        let t = s.drop_last();
        lemma_trim_end_props(t);
        if all_ws(t) {
            assert forall|k: int| 0 <= k < s.len() implies is_ws(#[trigger] s[k]) by {
                if k < t.len() {
                    assert(s[k] == t[k]);
                }
            }
        } else {
            let k = choose|k: int| 0 <= k < t.len() && !is_ws(t[k]);
            assert(s[k] == t[k]);
        }
        assert(t.subrange(0, trim_end(t).len() as int) =~= s.subrange(
            0,
            trim_end(t).len() as int,
        ));
    } else {
        assert(s.subrange(0, s.len() as int) =~= s);
        if s.len() > 0 {
            assert(!is_ws(s[s.len() - 1]));
        }
    }
}

/// Removes leading and trailing whitespace.
pub fn trim(s: &str) -> (r: &str)
    ensures
        r@ == trimmed(s@),
{
    let n = s.unicode_len();
    let mut lo: usize = 0;
    while lo < n && char_is_whitespace(s.get_char(lo))
        invariant
            n == s@.len(),
            lo <= n,
            forall|k: int| 0 <= k < lo ==> is_ws(#[trigger] s@[k]),
        decreases n - lo,
    {
        lo = lo + 1;
    }
    let mut hi: usize = n;
    while hi > lo && char_is_whitespace(s.get_char(hi - 1))
        invariant
            n == s@.len(),
            lo <= hi <= n,
            lo < n ==> !is_ws(s@[lo as int]),
            forall|k: int| 0 <= k < lo ==> is_ws(#[trigger] s@[k]),
            forall|k: int| hi <= k < n ==> is_ws(#[trigger] s@[k]),
        decreases hi,
    {
        hi = hi - 1;
    }
    proof {
        lemma_trimmed_bounds(s@, lo as int, hi as int);
    }
    s.substring_char(lo, hi)
}

// ---------------------------------------------------------------------------
// ASCII case mapping and comparison
// ---------------------------------------------------------------------------

/// Maps `a`..`z` to `A`..`Z` and leaves every other character alone.
pub open spec fn ascii_upper(c: char) -> char {
    if 'a' <= c && c <= 'z' {
        ((c as u32) - 32) as char
    } else {
        c
    }
}

/// Maps `A`..`Z` to `a`..`z` and leaves every other character alone.
pub open spec fn ascii_lower(c: char) -> char {
    if 'A' <= c && c <= 'Z' {
        ((c as u32) + 32) as char
    } else {
        c
    }
}

pub open spec fn upper(s: Seq<char>) -> Seq<char> {
    s.map_values(|c: char| ascii_upper(c))
}

pub open spec fn lower(s: Seq<char>) -> Seq<char> {
    s.map_values(|c: char| ascii_lower(c))
}

pub fn char_to_ascii_upper(c: char) -> (r: char)
    ensures
        r == ascii_upper(c),
{
    if 'a' <= c && c <= 'z' {
        let b = (c as u32 - 32) as u8;
        b as char
    } else {
        c
    }
}

pub fn char_to_ascii_lower(c: char) -> (r: char)
    ensures
        r == ascii_lower(c),
{
    if 'A' <= c && c <= 'Z' {
        let b = (c as u32 + 32) as u8;
        b as char
    } else {
        c
    }
}

/// A copy of `s` with ASCII letters in upper case.
pub fn to_ascii_uppercase(s: &str) -> (r: String)
    ensures
        r@ == upper(s@),
{
    let n = s.unicode_len();
    let mut out = String::new();
    let mut i: usize = 0;
    while i < n
        invariant
            n == s@.len(),
            i <= n,
            out@ == upper(s@.subrange(0, i as int)),
        decreases n - i,
    {
        let c = char_to_ascii_upper(s.get_char(i));
        out.push(c);
        i = i + 1;
        assert(upper(s@.subrange(0, i as int)) =~= upper(s@.subrange(0, i - 1)).push(c));
    }
    assert(s@.subrange(0, n as int) =~= s@);
    out
}

/// A copy of `s` with ASCII letters in lower case.
pub fn to_ascii_lowercase(s: &str) -> (r: String)
    ensures
        r@ == lower(s@),
{
    let n = s.unicode_len();
    let mut out = String::new();
    let mut i: usize = 0;
    while i < n
        invariant
            n == s@.len(),
            i <= n,
            out@ == lower(s@.subrange(0, i as int)),
        decreases n - i,
    {
        let c = char_to_ascii_lower(s.get_char(i));
        out.push(c);
        i = i + 1;
        assert(lower(s@.subrange(0, i as int)) =~= lower(s@.subrange(0, i - 1)).push(c));
    }
    assert(s@.subrange(0, n as int) =~= s@);
    out
}

/// Whether two strings hold the same characters.
pub fn str_eq(a: &str, b: &str) -> (r: bool)
    ensures
        r == (a@ == b@),
{
    let n = a.unicode_len();
    if n != b.unicode_len() {
        return false;
    }
    let mut i: usize = 0;
    while i < n
        invariant
            n == a@.len(),
            n == b@.len(),
            i <= n,
            forall|k: int| 0 <= k < i ==> a@[k] == b@[k],
        decreases n - i,
    {
        if a.get_char(i) != b.get_char(i) {
            return false;
        }
        i = i + 1;
    }
    assert(a@ =~= b@);
    true
}

/// A `String` holding the characters of `s`.
pub fn owned(s: &str) -> (r: String)
    ensures
        r@ == s@,
{
    String::from_str(s)
}

/// A `String` holding the characters of `a` followed by those of `b`.
pub fn concat2(a: &str, b: &str) -> (r: String)
    ensures
        r@ == a@ + b@,
{
    let mut out = String::from_str(a);
    out.append(b);
    out
}

/// A `String` holding the characters of `a`, `b` and `c` in turn.
pub fn concat3(a: &str, b: &str, c: &str) -> (r: String)
    ensures
        r@ == a@ + b@ + c@,
{
    let mut out = String::from_str(a);
    out.append(b);
    out.append(c);
    out
}

// ---------------------------------------------------------------------------
// Searching
// ---------------------------------------------------------------------------

/// Whether `c` occurs in `s`.
pub fn contains_char(s: &str, c: char) -> (r: bool)
    ensures
        r == s@.contains(c),
{
    let n = s.unicode_len();
    let mut i: usize = 0;
    while i < n
        invariant
            n == s@.len(),
            i <= n,
            forall|k: int| 0 <= k < i ==> s@[k] != c,
        decreases n - i,
    {
        if s.get_char(i) == c {
            assert(s@[i as int] == c);
            return true;
        }
        i = i + 1;
    }
    false
}

/// Whether two adjacent characters `c`, `d` occur in `s`.
pub open spec fn has_pair(s: Seq<char>, c: char, d: char) -> bool {
    exists|k: int| 0 <= k && k + 1 < s.len() && s[k] == c && #[trigger] s[k + 1] == d
}

/// Whether the two-character substring `c` `d` occurs in `s`.
pub fn contains_pair(s: &str, c: char, d: char) -> (r: bool)
    ensures
        r == has_pair(s@, c, d),
{
    let n = s.unicode_len();
    if n < 2 {
        return false;
    }
    let mut i: usize = 0;
    while i + 1 < n
        invariant
            n == s@.len(),
            n >= 2,
            i + 1 <= n,
            forall|k: int| 0 <= k < i ==> !(s@[k] == c && #[trigger] s@[k + 1] == d),
        decreases n - i,
    {
        if s.get_char(i) == c && s.get_char(i + 1) == d {
            assert(s@[i + 1] == d);
            return true;
        }
        i = i + 1;
    }
    false
}

/// Whether `prefix` is a prefix of `s`.
pub open spec fn has_prefix(s: Seq<char>, prefix: Seq<char>) -> bool {
    prefix.len() <= s.len() && s.subrange(0, prefix.len() as int) == prefix
}

/// Whether `s` begins with `prefix`.
pub fn starts_with(s: &str, prefix: &str) -> (r: bool)
    ensures
        r == has_prefix(s@, prefix@),
{
    let n = s.unicode_len();
    let m = prefix.unicode_len();
    if m > n {
        return false;
    }
    let mut i: usize = 0;
    while i < m
        invariant
            n == s@.len(),
            m == prefix@.len(),
            m <= n,
            i <= m,
            forall|k: int| 0 <= k < i ==> s@[k] == prefix@[k],
        decreases m - i,
    {
        if s.get_char(i) != prefix.get_char(i) {
            assert(s@.subrange(0, m as int)[i as int] != prefix@[i as int]);
            return false;
        }
        i = i + 1;
    }
    assert(s@.subrange(0, m as int) =~= prefix@);
    true
}

// ---------------------------------------------------------------------------
// Splitting
// ---------------------------------------------------------------------------

/// The pieces of `s` between occurrences of `sep`, as `str::split` yields them:
/// `n` separators give `n + 1` pieces, empty ones included.
pub open spec fn split_on(s: Seq<char>, sep: char) -> Seq<Seq<char>>
    decreases s.len(),
{
    if s.len() == 0 {
        seq![Seq::<char>::empty()]
    } else {
        let p = split_on(s.drop_last(), sep);
        if s.last() == sep {
            p.push(Seq::<char>::empty())
        } else {
            p.update(p.len() - 1, p.last().push(s.last()))
        }
    }
}

pub proof fn lemma_split_on_nonempty(s: Seq<char>, sep: char)
    ensures
        split_on(s, sep).len() >= 1,
    decreases s.len(),
{
    if s.len() > 0 {
        lemma_split_on_nonempty(s.drop_last(), sep);
    }
}

pub open spec fn views_of(v: Seq<String>) -> Seq<Seq<char>> {
    v.map_values(|p: String| p@)
}

/// The pieces of `s` between occurrences of `sep`.
pub fn split_char(s: &str, sep: char) -> (r: Vec<String>)
    ensures
        views_of(r@) == split_on(s@, sep),
{
    let n = s.unicode_len();
    let mut pieces: Vec<String> = Vec::new();
    let mut current = String::new();
    let mut i: usize = 0;
    assert(s@.subrange(0, 0) =~= Seq::<char>::empty());
    assert(views_of(pieces@).push(current@) =~= split_on(s@.subrange(0, 0), sep));
    while i < n
        invariant
            n == s@.len(),
            i <= n,
            views_of(pieces@).push(current@) == split_on(s@.subrange(0, i as int), sep),
        decreases n - i,
    {
        let c = s.get_char(i);
        let ghost prev = s@.subrange(0, i as int);
        let ghost old_pieces = views_of(pieces@);
        let ghost old_current = current@;
        proof {
            lemma_split_on_nonempty(prev, sep);
        }
        i = i + 1;
        assert(s@.subrange(0, i as int).drop_last() =~= prev);
        if c == sep {
            let done = current;
            pieces.push(done);
            current = String::new();
            assert(views_of(pieces@) =~= old_pieces.push(old_current));
        } else {
            current.push(c);
            assert(views_of(pieces@).push(current@) =~= old_pieces.push(old_current).update(
                old_pieces.len() as int,
                old_current.push(c),
            ));
        }
    }
    pieces.push(current);
    assert(s@.subrange(0, n as int) =~= s@);
    pieces
}

/// The part of `s` before its first `sep` and the part after it, when `sep` occurs.
pub open spec fn split_once_at(s: Seq<char>, sep: char, k: int) -> bool {
    0 <= k < s.len() && s[k] == sep && forall|j: int| 0 <= j < k ==> s[j] != sep
}

/// Splits `s` at its first `sep`, as `splitn(2, sep)` does when it yields two pieces.
pub fn split_once_char<'a>(s: &'a str, sep: char) -> (r: Option<(&'a str, &'a str)>)
    ensures
        r is None <==> !s@.contains(sep),
        r matches Some((a, b)) ==> exists|k: int|
            split_once_at(s@, sep, k) && a@ == s@.subrange(0, k) && b@ == s@.subrange(
                k + 1,
                s@.len() as int,
            ),
{
    let n = s.unicode_len();
    let mut i: usize = 0;
    while i < n
        invariant
            n == s@.len(),
            i <= n,
            forall|j: int| 0 <= j < i ==> s@[j] != sep,
        decreases n - i,
    {
        if s.get_char(i) == sep {
            let a = s.substring_char(0, i);
            let b = s.substring_char(i + 1, n);
            assert(split_once_at(s@, sep, i as int));
            return Some((a, b));
        }
        i = i + 1;
    }
    None
}

// ---------------------------------------------------------------------------
// Decimal integers
// ---------------------------------------------------------------------------

pub open spec fn is_digit(c: char) -> bool {
    '0' <= c && c <= '9'
}

pub open spec fn all_digits(s: Seq<char>) -> bool {
    forall|k: int| 0 <= k < s.len() ==> is_digit(#[trigger] s[k])
}

pub open spec fn digit_value(c: char) -> nat {
    ((c as u32) - 48) as nat
}

/// The number a string of decimal digits denotes.
pub open spec fn digits_value(s: Seq<char>) -> nat
    decreases s.len(),
{
    if s.len() == 0 {
        0
    } else {
        digits_value(s.drop_last()) * 10 + digit_value(s.last())
    }
}

/// The digits that follow an optional leading `+`.
pub open spec fn unsigned_body(s: Seq<char>) -> Seq<char> {
    if s.len() > 0 && s[0] == '+' {
        s.drop_first()
    } else {
        s
    }
}

/// What an unsigned integer type's `from_str` gives for `s` when the type's largest
/// value is `max`: an optional `+`, then one or more decimal digits whose value fits.
pub open spec fn parse_unsigned(s: Seq<char>, max: int) -> Option<int> {
    let b = unsigned_body(s);
    if b.len() > 0 && all_digits(b) && digits_value(b) <= max {
        Some(digits_value(b) as int)
    } else {
        None
    }
}

/// What `i64::from_str` gives for `s`: an optional sign, then one or more decimal
/// digits whose signed value fits in an `i64`.
pub open spec fn parse_i64_spec(s: Seq<char>) -> Option<int> {
    if s.len() > 0 && s[0] == '-' {
        let b = s.drop_first();
        if b.len() > 0 && all_digits(b) && digits_value(b) <= 0x8000_0000_0000_0000 {
            Some(-(digits_value(b) as int))
        } else {
            None
        }
    } else {
        parse_unsigned(s, 0x7fff_ffff_ffff_ffff)
    }
}

proof fn lemma_digits_value_prefix(s: Seq<char>, i: int)
    requires
        0 <= i <= s.len(),
        all_digits(s),
    ensures
        digits_value(s.subrange(0, i)) <= digits_value(s),
    decreases s.len() - i,
{
    if i < s.len() {
        let t = s.drop_last();
        assert forall|k: int| 0 <= k < t.len() implies is_digit(#[trigger] t[k]) by {
            assert(t[k] == s[k]);
        }
        lemma_digits_value_prefix(t, i);
        assert(t.subrange(0, i) =~= s.subrange(0, i));
    } else {
        assert(s.subrange(0, i) =~= s);
    }
}

/// Reads the decimal digits of `s` from `start` on, failing on anything but a digit and
/// on a value above `max`.
fn digits_from(s: &str, start: usize, max: u64) -> (r: Option<u64>)
    requires
        start <= s@.len(),
    ensures
        ({
            let b = s@.subrange(start as int, s@.len() as int);
            r == if all_digits(b) && digits_value(b) <= max {
                Some(digits_value(b) as u64)
            } else {
                None::<u64>
            }
        }),
{
    let n = s.unicode_len();
    let ghost b = s@.subrange(start as int, n as int);
    let mut acc: u64 = 0;
    let mut i: usize = start;
    while i < n
        invariant
            n == s@.len(),
            start <= i <= n,
            b == s@.subrange(start as int, n as int),
            all_digits(b.subrange(0, i - start)),
            acc as nat == digits_value(b.subrange(0, i - start)),
            acc <= max,
        decreases n - i,
    {
        let c = s.get_char(i);
        let ghost pre = b.subrange(0, i - start);
        let ghost next = b.subrange(0, i + 1 - start);
        assert(next.drop_last() =~= pre);
        assert(next.last() == c);
        if !('0' <= c && c <= '9') {
            assert(!is_digit(b[i - start]));
            return None;
        }
        let d = (c as u32 - 48) as u64;
        let wide: u128 = (acc as u128) * 10 + (d as u128);
        assert(wide == digits_value(next));
        assert forall|k: int| 0 <= k < next.len() implies is_digit(#[trigger] next[k]) by {
            if k < pre.len() {
                assert(next[k] == pre[k]);
            }
        }
        if wide > max as u128 {
            proof {
                if all_digits(b) {
                    lemma_digits_value_prefix(b, i + 1 - start);
                }
            }
            return None;
        }
        acc = wide as u64;
        i = i + 1;
    }
    assert(b.subrange(0, n - start) =~= b);
    Some(acc)
}

/// Parses an unsigned decimal integer no larger than `max`, as `from_str` does for an
/// unsigned type whose largest value is `max`.
pub fn parse_unsigned_max(s: &str, max: u64) -> (r: Option<u64>)
    ensures
        r matches Some(v) ==> parse_unsigned(s@, max as int) == Some(v as int),
        r is None ==> parse_unsigned(s@, max as int) is None,
{
    let n = s.unicode_len();
    let start: usize = if n > 0 && s.get_char(0) == '+' {
        1
    } else {
        0
    };
    assert(s@.subrange(start as int, n as int) =~= unsigned_body(s@));
    if start >= n {
        return None;
    }
    digits_from(s, start, max)
}

/// Parses a `usize`, as `str::parse::<usize>` does.
pub fn parse_usize(s: &str) -> (r: Option<usize>)
    ensures
        r matches Some(v) ==> parse_unsigned(s@, usize::MAX as int) == Some(v as int),
        r is None ==> parse_unsigned(s@, usize::MAX as int) is None,
{
    match parse_unsigned_max(s, usize::MAX as u64) {
        Some(v) => Some(v as usize),
        None => None,
    }
}

/// Parses an `i64`, as `str::parse::<i64>` does.
pub fn parse_i64(s: &str) -> (r: Option<i64>)
    ensures
        r matches Some(v) ==> parse_i64_spec(s@) == Some(v as int),
        r is None ==> parse_i64_spec(s@) is None,
{
    let n = s.unicode_len();
    if n > 0 && s.get_char(0) == '-' {
        assert(s@.subrange(1, n as int) =~= s@.drop_first());
        if n == 1 {
            return None;
        }
        match digits_from(s, 1, 0x8000_0000_0000_0000u64) {
            Some(v) => {
                let w: i128 = -(v as i128);
                Some(w as i64)
            },
            None => None,
        }
    } else {
        match parse_unsigned_max(s, 0x7fff_ffff_ffff_ffffu64) {
            Some(v) => Some(v as i64),
            None => None,
        }
    }
}

pub open spec fn digit_char(d: nat) -> char {
    (48 + d) as char
}

/// The decimal digits of `n`, most significant first, without leading zeros.
pub open spec fn decimal(n: nat) -> Seq<char>
    decreases n,
{
    if n < 10 {
        seq![digit_char(n)]
    } else {
        decimal(n / 10).push(digit_char(n % 10))
    }
}

/// How `Display` writes an integer: a `-` before the digits of a negative value.
pub open spec fn signed_decimal(n: int) -> Seq<char> {
    if n < 0 {
        seq!['-'] + decimal((-n) as nat)
    } else {
        decimal(n as nat)
    }
}

fn digit_to_char(d: u64) -> (c: char)
    requires
        d < 10,
    ensures
        c == digit_char(d as nat),
{
    let b: u8 = 48 + (d as u8);
    b as char
}

/// Writes `n` in decimal.
pub fn u64_to_decimal(n: u64) -> (r: String)
    ensures
        r@ == decimal(n as nat),
    decreases n,
{
    if n < 10 {
        let mut out = String::new();
        out.push(digit_to_char(n));
        assert(out@ =~= decimal(n as nat));
        out
    } else {
        let mut out = u64_to_decimal(n / 10);
        out.push(digit_to_char(n % 10));
        out
    }
}

/// Writes `n` in decimal, as `i64`'s `Display` does.
pub fn i64_to_decimal(n: i64) -> (r: String)
    ensures
        r@ == signed_decimal(n as int),
{
    if n < 0 {
        let m: u64 = (-(n as i128)) as u64;
        let digits = u64_to_decimal(m);
        let mut out = String::new();
        out.push('-');
        out.append(digits.as_str());
        assert(out@ =~= signed_decimal(n as int));
        out
    } else {
        u64_to_decimal(n as u64)
    }
}

// ---------------------------------------------------------------------------
// Collections of strings
// ---------------------------------------------------------------------------

pub open spec fn opt_view(o: Option<String>) -> Option<Seq<char>> {
    match o {
        Some(s) => Some(s@),
        None => None,
    }
}

pub open spec fn opt_str_view(o: Option<&str>) -> Option<Seq<char>> {
    match o {
        Some(s) => Some(s@),
        None => None,
    }
}

/// An optional text as stored: trimmed, and none when blank.
pub open spec fn optional_text(value: Option<Seq<char>>) -> Option<Seq<char>> {
    match value {
        Some(v) => if trimmed(v).len() == 0 {
            None
        } else {
            Some(trimmed(v))
        },
        None => None,
    }
}

/// A copy of an optional text.
pub fn clone_opt(value: &Option<String>) -> (r: Option<String>)
    ensures
        r == *value,
{
    match value {
        Some(s) => Some(s.clone()),
        None => None,
    }
}

/// Whether one of the strings in `v` holds the characters of `s`.
pub fn contains_str(v: &Vec<String>, s: &str) -> (r: bool)
    ensures
        r == views_of(v@).contains(s@),
{
    let mut i: usize = 0;
    while i < v.len()
        invariant
            i <= v@.len(),
            forall|k: int| 0 <= k < i ==> v@[k]@ != s@,
        decreases v@.len() - i,
    {
        if str_eq(v[i].as_str(), s) {
            assert(views_of(v@)[i as int] == s@);
            return true;
        }
        i = i + 1;
    }
    assert forall|k: int| 0 <= k < views_of(v@).len() implies views_of(v@)[k] != s@ by {
        assert(views_of(v@)[k] == v@[k]@);
    }
    false
}

/// The first occurrence of each element, in order of first appearance.
pub open spec fn dedup(s: Seq<Seq<char>>) -> Seq<Seq<char>>
    decreases s.len(),
{
    if s.len() == 0 {
        Seq::empty()
    } else {
        let d = dedup(s.drop_last());
        if d.contains(s.last()) {
            d
        } else {
            d.push(s.last())
        }
    }
}

/// `dedup` keeps every element, adds none, and repeats none.
pub proof fn lemma_dedup(s: Seq<Seq<char>>)
    ensures
        dedup(s).no_duplicates(),
        forall|x: Seq<char>| #[trigger] dedup(s).contains(x) <==> s.contains(x),
    decreases s.len(),
{
    if s.len() > 0 {
        let t = s.drop_last();
        lemma_dedup(t);
        assert forall|x: Seq<char>| #[trigger] s.contains(x) <==> (t.contains(x) || x == s.last()) by {
            if s.contains(x) {
                let k = choose|k: int| 0 <= k < s.len() && s[k] == x;
                if k < t.len() {
                    assert(t[k] == x);
                }
            }
            if t.contains(x) {
                let k = choose|k: int| 0 <= k < t.len() && t[k] == x;
                assert(s[k] == x);
            }
            if x == s.last() {
                assert(s[s.len() - 1] == x);
            }
        }
        let d = dedup(t);
        if !d.contains(s.last()) {
            let e = d.push(s.last());
            assert forall|x: Seq<char>| #[trigger] e.contains(x) <==> (d.contains(x) || x == s.last()) by {
                if e.contains(x) {
                    let k = choose|k: int| 0 <= k < e.len() && e[k] == x;
                    if k < d.len() {
                        assert(d[k] == x);
                    }
                }
                if d.contains(x) {
                    let k = choose|k: int| 0 <= k < d.len() && d[k] == x;
                    assert(e[k] == x);
                }
                if x == s.last() {
                    assert(e[e.len() - 1] == x);
                }
            }
            assert forall|i: int, j: int| 0 <= i < e.len() && 0 <= j < e.len() && i != j implies e[i] != e[j] by {
                if i < d.len() && j < d.len() {
                    assert(e[i] == d[i] && e[j] == d[j]);
                } else if i < d.len() {
                    assert(e[i] == d[i]);
                } else if j < d.len() {
                    assert(e[j] == d[j]);
                }
            }
        }
    }
}

/// Drops every trailing occurrence of `c`.
pub open spec fn strip_trailing(s: Seq<char>, c: char) -> Seq<char>
    decreases s.len(),
{
    if s.len() > 0 && s.last() == c {
        strip_trailing(s.drop_last(), c)
    } else {
        s
    }
}

proof fn lemma_strip_trailing_at(s: Seq<char>, c: char, hi: int)
    requires
        0 <= hi <= s.len(),
        forall|k: int| hi <= k < s.len() ==> #[trigger] s[k] == c,
        hi > 0 ==> s[hi - 1] != c,
    ensures
        strip_trailing(s, c) == s.subrange(0, hi),
    decreases s.len() - hi,
{
    if hi == s.len() {
        assert(s.subrange(0, hi) =~= s);
    } else {
        let t = s.drop_last();
        assert forall|k: int| hi <= k < t.len() implies #[trigger] t[k] == c by {
            assert(t[k] == s[k]);
        }
        if hi > 0 {
            assert(t[hi - 1] == s[hi - 1]);
        }
        lemma_strip_trailing_at(t, c, hi);
        assert(t.subrange(0, hi) =~= s.subrange(0, hi));
    }
}

/// Removes every trailing occurrence of `c`, as `trim_end_matches(c)` does.
pub fn trim_end_char(s: &str, c: char) -> (r: &str)
    ensures
        r@ == strip_trailing(s@, c),
{
    let n = s.unicode_len();
    let mut hi: usize = n;
    while hi > 0 && s.get_char(hi - 1) == c
        invariant
            n == s@.len(),
            hi <= n,
            forall|k: int| hi <= k < n ==> #[trigger] s@[k] == c,
        decreases hi,
    {
        hi = hi - 1;
    }
    proof {
        lemma_strip_trailing_at(s@, c, hi as int);
    }
    s.substring_char(0, hi)
}

/// Whether two optional strings hold the same characters, or are both absent.
pub fn opt_string_eq(a: &Option<String>, b: &Option<String>) -> (r: bool)
    ensures
        r == (opt_view(*a) == opt_view(*b)),
{
    match (a, b) {
        (Some(x), Some(y)) => str_eq(x.as_str(), y.as_str()),
        (None, None) => true,
        _ => false,
    }
}

} // verus!

verus! {

// ---------------------------------------------------------------------------
// Ordering of texts
// ---------------------------------------------------------------------------

/// The order of `String`s: character by character, a proper prefix first. As UTF-8 keeps
/// the order of code points, this is the byte order that `Ord` for `String` uses.
pub open spec fn text_lt(a: Seq<char>, b: Seq<char>) -> bool
    decreases a.len(),
{
    if a.len() == 0 {
        b.len() > 0
    } else if b.len() == 0 {
        false
    } else if a[0] != b[0] {
        (a[0] as int) < (b[0] as int)
    } else {
        text_lt(a.drop_first(), b.drop_first())
    }
}

/// `text_lt` is a strict total order.
pub proof fn lemma_text_lt_order(a: Seq<char>, b: Seq<char>, c: Seq<char>)
    ensures
        !text_lt(a, a),
        text_lt(a, b) ==> !text_lt(b, a),
        text_lt(a, b) && text_lt(b, c) ==> text_lt(a, c),
        a != b ==> text_lt(a, b) || text_lt(b, a),
    decreases a.len(),
{
    if a.len() > 0 && b.len() > 0 && c.len() > 0 {
        lemma_text_lt_order(a.drop_first(), b.drop_first(), c.drop_first());
    } else if a.len() > 0 && b.len() > 0 {
        lemma_text_lt_order(a.drop_first(), b.drop_first(), b.drop_first());
    } else if a.len() > 0 {
        lemma_text_lt_order(a.drop_first(), a.drop_first(), a.drop_first());
    }
    if a.len() > 0 && b.len() > 0 && a[0] != b[0] {
        assert((a[0] as int) != (b[0] as int));
    }
    if a.len() > 0 && b.len() > 0 && a[0] == b[0] && !text_lt(a, b) && !text_lt(b, a) {
        assert(a.drop_first() == b.drop_first());
        assert(a =~= seq![a[0]] + a.drop_first());
        assert(b =~= seq![b[0]] + b.drop_first());
    }
    if a.len() == 0 && b.len() == 0 {
        assert(a =~= b);
    }
}

/// Whether `a` comes before `b` in the order of `String`s.
pub fn text_less(a: &str, b: &str) -> (r: bool)
    ensures
        r == text_lt(a@, b@),
{
    let n = a.unicode_len();
    let m = b.unicode_len();
    let mut i: usize = 0;
    assert(a@.skip(0) =~= a@ && b@.skip(0) =~= b@);
    while i < n && i < m
        invariant
            n == a@.len(),
            m == b@.len(),
            i <= n,
            i <= m,
            text_lt(a@, b@) == text_lt(a@.skip(i as int), b@.skip(i as int)),
        decreases n - i,
    {
        let x = a.get_char(i);
        let y = b.get_char(i);
        assert(a@.skip(i as int)[0] == x && b@.skip(i as int)[0] == y);
        if x != y {
            return (x as u32) < (y as u32);
        }
        assert(a@.skip(i as int).drop_first() =~= a@.skip(i + 1));
        assert(b@.skip(i as int).drop_first() =~= b@.skip(i + 1));
        i = i + 1;
    }
    i < m && i == n
}

/// The order of positions in a list sorted stably by text key: by key, then by position.
pub open spec fn keyed_before(keys: Seq<Seq<char>>, i: int, j: int) -> bool {
    text_lt(keys[i], keys[j]) || (keys[i] == keys[j] && i < j)
}

/// The positions of `keys` in the order a stable sort by key leaves them: each position
/// once, by key, equal keys in the order they had.
pub fn stable_order_by_text(keys: &[String]) -> (r: Vec<usize>)
    ensures
        r@.len() == keys@.len(),
        forall|k: int| 0 <= k < r@.len() ==> r@[k] < keys@.len(),
        forall|j: usize| j < keys@.len() ==> r@.contains(j),
        forall|k1: int, k2: int|
            0 <= k1 < k2 < r@.len() ==> keyed_before(views_of(keys@), #[trigger] r@[k1] as int, #[trigger] r@[k2] as int),
{
    let ghost kv = views_of(keys@);
    let mut r: Vec<usize> = Vec::new();
    let mut i: usize = 0;
    while i < keys.len()
        invariant
            kv == views_of(keys@),
            i <= keys@.len(),
            r@.len() == i,
            forall|k: int| 0 <= k < r@.len() ==> r@[k] < i,
            forall|j: usize| j < i ==> r@.contains(j),
            forall|k1: int, k2: int|
                0 <= k1 < k2 < r@.len() ==> keyed_before(kv, #[trigger] r@[k1] as int, #[trigger] r@[k2] as int),
        decreases keys@.len() - i,
    {
        let key = keys[i].as_str();
        assert(kv[i as int] == key@);
        let mut p: usize = 0;
        while p < r.len() && !text_less(key, keys[r[p]].as_str())
            invariant
                kv == views_of(keys@),
                i < keys@.len(),
                key@ == kv[i as int],
                p <= r@.len(),
                forall|k: int| 0 <= k < r@.len() ==> r@[k] < i,
                forall|q: int| 0 <= q < p ==> !text_lt(kv[i as int], #[trigger] kv[r@[q] as int]),
            decreases r@.len() - p,
        {
            assert(kv[r@[p as int] as int] == keys@[r@[p as int] as int]@);
            p = p + 1;
        }
        proof {
            if p < r@.len() {
                assert(kv[r@[p as int] as int] == keys@[r@[p as int] as int]@);
                assert(text_lt(kv[i as int], kv[r@[p as int] as int]));
            }
        }
        let ghost old_r = r@;
        r.insert(p, i);
        proof {
            assert(r@ == old_r.insert(p as int, i));
            assert forall|j: usize| j <= i implies r@.contains(j) by {
                if j == i {
                    assert(r@[p as int] == i);
                } else {
                    assert(old_r.contains(j));
                    let q = choose|q: int| 0 <= q < old_r.len() && old_r[q] == j;
                    if q < p {
                        assert(r@[q] == j);
                    } else {
                        assert(r@[q + 1] == j);
                    }
                }
            }
            assert forall|k1: int, k2: int| 0 <= k1 < k2 < r@.len() implies keyed_before(kv, #[trigger] r@[k1] as int, #[trigger] r@[k2] as int) by {
                if k1 < p && k2 < p {
                    assert(r@[k1] == old_r[k1] && r@[k2] == old_r[k2]);
                } else if k1 < p && k2 == p {
                    let a = old_r[k1] as int;
                    assert(r@[k1] == old_r[k1]);
                    lemma_text_lt_order(kv[a], kv[i as int], kv[a]);
                } else if k1 < p {
                    assert(r@[k1] == old_r[k1] && r@[k2] == old_r[k2 - 1]);
                } else if k1 == p {
                    let b = old_r[k2 - 1] as int;
                    assert(r@[k2] == old_r[k2 - 1]);
                    let f = old_r[p as int] as int;
                    if k2 - 1 > p {
                        assert(keyed_before(kv, f, b));
                        lemma_text_lt_order(kv[i as int], kv[f], kv[b]);
                    }
                } else {
                    assert(r@[k1] == old_r[k1 - 1] && r@[k2] == old_r[k2 - 1]);
                }
            }
        }
        i = i + 1;
    }
    r
}

} // verus!

verus! {

// ---------------------------------------------------------------------------
// Matching by text key
// ---------------------------------------------------------------------------

/// Whether position `i` of `keys` holds the last occurrence of its key.
pub open spec fn last_of_key(keys: Seq<Seq<char>>, i: int) -> bool {
    0 <= i < keys.len() && forall|k: int| i < k < keys.len() ==> #[trigger] keys[k] != keys[i]
}

/// Whether the key at position `j` of `wanted` already occurs before it.
pub open spec fn repeats_earlier(wanted: Seq<Seq<char>>, j: int) -> bool {
    exists|k: int| 0 <= k < j && #[trigger] wanted[k] == wanted[j]
}

/// The pairing of wanted keys with available ones that a map from key to entry gives
/// when it is built from the available entries (a later entry replacing an earlier one
/// with the same key) and each wanted key then takes its entry out of the map: for each
/// wanted key the available position it took, and the positions left in the map, in
/// increasing order.
pub struct KeyMatching {
    pub matches: Vec<Option<usize>>,
    pub leftover: Vec<usize>,
}

/// Whether `matches` and `leftover` pair `wanted` with `avail` as a map from key to entry
/// does (see `KeyMatching`).
pub open spec fn is_key_matching(
    wanted: Seq<Seq<char>>,
    avail: Seq<Seq<char>>,
    matches: Seq<Option<usize>>,
    leftover: Seq<usize>,
) -> bool {
    &&& matches.len() == wanted.len()
    &&& forall|j: int|
        0 <= j < wanted.len() ==> match #[trigger] matches[j] {
            Some(i) => last_of_key(avail, i as int) && avail[i as int] == wanted[j] && !repeats_earlier(wanted, j),
            None => repeats_earlier(wanted, j) || !avail.contains(wanted[j]),
        }
    &&& forall|k1: int, k2: int| 0 <= k1 < k2 < leftover.len() ==> #[trigger] leftover[k1] < #[trigger] leftover[k2]
    &&& forall|k: int|
        0 <= k < leftover.len() ==> last_of_key(avail, #[trigger] leftover[k] as int) && !wanted.contains(
            avail[leftover[k] as int],
        )
    &&& forall|i: int|
        #![trigger avail[i]]
        last_of_key(avail, i) && !wanted.contains(avail[i]) ==> leftover.contains(i as usize)
}

/// Whether some wanted key took the available entry `i`.
pub open spec fn taken_by(matches: Seq<Option<usize>>, i: int) -> bool {
    exists|j: int| 0 <= j < matches.len() && #[trigger] matches[j] == Some(i as usize)
}

/// A key occurs in a sequence only if it has a first occurrence.
proof fn lemma_first_occurrence(w: Seq<Seq<char>>, x: Seq<char>, j: int)
    requires
        0 <= j < w.len(),
        w[j] == x,
    ensures
        exists|f: int| 0 <= f <= j && w[f] == x && !repeats_earlier(w, f),
    decreases j,
{
    if repeats_earlier(w, j) {
        let k = choose|k: int| 0 <= k < j && #[trigger] w[k] == w[j];
        lemma_first_occurrence(w, x, k);
    } else {
        assert(w[j] == x && !repeats_earlier(w, j));
    }
}

/// One entry that the map keeps is taken by some wanted key exactly when it is not left
/// over.
proof fn lemma_entry_taken_or_left(
    wanted: Seq<Seq<char>>,
    avail: Seq<Seq<char>>,
    matches: Seq<Option<usize>>,
    leftover: Seq<usize>,
    i: int,
)
    requires
        is_key_matching(wanted, avail, matches, leftover),
        avail.len() <= usize::MAX,
        last_of_key(avail, i),
    ensures
        taken_by(matches, i) != leftover.contains(
            i as usize,
        ),
{
    assert(i as usize as int == i);
    let taken = taken_by(matches, i);
    if taken {
        let j = choose|j: int| 0 <= j < matches.len() && #[trigger] matches[j] == Some(i as usize);
        assert(avail[i] == wanted[j]);
        assert(wanted.contains(avail[i]));
        if leftover.contains(i as usize) {
            let k = choose|k: int| 0 <= k < leftover.len() && leftover[k] == i as usize;
            assert(!wanted.contains(avail[leftover[k] as int]));
        }
    } else {
        if wanted.contains(avail[i]) {
            let j = choose|j: int| 0 <= j < wanted.len() && wanted[j] == avail[i];
            lemma_first_occurrence(wanted, avail[i], j);
            let f = choose|f: int| 0 <= f <= j && wanted[f] == avail[i] && !repeats_earlier(wanted, f);
            match matches[f] {
                Some(i2) => {
                    assert(last_of_key(avail, i2 as int) && avail[i2 as int] == avail[i]);
                    if (i2 as int) < i {
                        assert(avail[i] != avail[i2 as int]);
                    } else if (i2 as int) > i {
                        assert(avail[i2 as int] != avail[i]);
                    }
                    assert(matches[f] == Some(i as usize));
                    assert(false);
                },
                None => {
                    assert(wanted[f] == avail[i]);
                    assert(avail.contains(wanted[f]));
                    assert(false);
                },
            }
        }
        assert(!wanted.contains(avail[i]));
        assert(leftover.contains(i as usize));
    }
}

/// Matching by key through a map: every entry that the map keeps (the last with its key)
/// is either taken by exactly one wanted key or left over, never both, and no entry is
/// taken twice.
pub proof fn matched_entries_are_taken_once_or_left(
    wanted: Seq<Seq<char>>,
    avail: Seq<Seq<char>>,
    matches: Seq<Option<usize>>,
    leftover: Seq<usize>,
)
    requires
        is_key_matching(wanted, avail, matches, leftover),
        avail.len() <= usize::MAX,
    ensures
        forall|i: int|
            #![trigger last_of_key(avail, i)]
            last_of_key(avail, i) ==> (taken_by(matches, i)
                != leftover.contains(i as usize)),
        forall|j1: int, j2: int|
            0 <= j1 < j2 < matches.len() && #[trigger] matches[j1] is Some ==> #[trigger] matches[j2] != matches[j1],
{
    assert forall|i: int|
        #![trigger last_of_key(avail, i)]
        last_of_key(avail, i) implies (taken_by(matches, i)
            != leftover.contains(i as usize)) by {
        lemma_entry_taken_or_left(wanted, avail, matches, leftover, i);
    }
    assert forall|j1: int, j2: int|
        0 <= j1 < j2 < matches.len() && #[trigger] matches[j1] is Some implies #[trigger] matches[j2] != matches[j1] by {
        if matches[j2] == matches[j1] {
            let i = matches[j1]->0;
            assert(wanted[j1] == avail[i as int] && wanted[j2] == avail[i as int]);
            assert(repeats_earlier(wanted, j2));
        }
    }
}

/// The position of the last occurrence of `key` in `keys`.
fn last_index_of(keys: &[String], key: &str) -> (r: Option<usize>)
    ensures
        match r {
            Some(i) => last_of_key(views_of(keys@), i as int) && views_of(keys@)[i as int] == key@,
            None => !views_of(keys@).contains(key@),
        },
{
    let ghost kv = views_of(keys@);
    let mut i: usize = keys.len();
    while i > 0
        invariant
            kv == views_of(keys@),
            i <= keys@.len(),
            forall|k: int| i <= k < keys@.len() ==> #[trigger] kv[k] != key@,
        decreases i,
    {
        i = i - 1;
        assert(kv[i as int] == keys@[i as int]@);
        if str_eq(keys[i].as_str(), key) {
            return Some(i);
        }
    }
    None
}

/// Pairs wanted keys with available keys as a map from key to entry does (see
/// `KeyMatching`).
pub fn match_keys(wanted: &[String], available: &[String]) -> (r: KeyMatching)
    ensures
        is_key_matching(views_of(wanted@), views_of(available@), r.matches@, r.leftover@),
{
    let ghost av = views_of(available@);
    let ghost wv = views_of(wanted@);
    let n = available.len();
    let mut claimed: Vec<bool> = Vec::new();
    while claimed.len() < n
        invariant
            claimed@.len() <= n,
            forall|i: int| 0 <= i < claimed@.len() ==> !claimed@[i],
        decreases n - claimed@.len(),
    {
        claimed.push(false);
    }
    let mut matches: Vec<Option<usize>> = Vec::new();
    let mut j: usize = 0;
    while j < wanted.len()
        invariant
            av == views_of(available@),
            wv == views_of(wanted@),
            n == available@.len(),
            claimed@.len() == n,
            j <= wanted@.len(),
            matches@.len() == j,
            forall|i: int|
                0 <= i < n ==> (#[trigger] claimed@[i] <==> (last_of_key(av, i) && exists|k: int|
                    0 <= k < j && #[trigger] wv[k] == av[i])),
            forall|q: int|
                0 <= q < j ==> match #[trigger] matches@[q] {
                    Some(i) => last_of_key(av, i as int) && av[i as int] == wv[q] && !repeats_earlier(wv, q),
                    None => repeats_earlier(wv, q) || !av.contains(wv[q]),
                },
        decreases wanted@.len() - j,
    {
        let key = wanted[j].as_str();
        assert(wv[j as int] == key@);
        match last_index_of(available, key) {
            Some(i) => {
                if claimed[i] {
                    proof {
                        let k = choose|k: int| 0 <= k < j && #[trigger] wv[k] == av[i as int];
                        assert(repeats_earlier(wv, j as int));
                    }
                    matches.push(None);
                } else {
                    assert(!repeats_earlier(wv, j as int));
                    let ghost before = claimed@;
                    claimed.set(i, true);
                    matches.push(Some(i));
                    assert forall|x: int| 0 <= x < n implies (#[trigger] claimed@[x] <==> (last_of_key(av, x) && exists|k: int|
                        0 <= k < j + 1 && #[trigger] wv[k] == av[x])) by {
                        if x != i && last_of_key(av, x) && wv[j as int] == av[x] {
                            if x < i {
                                assert(av[i as int] != av[x]);
                            } else {
                                assert(av[x] != av[i as int]);
                            }
                        }
                        if x == i {
                            assert(wv[j as int] == av[x]);
                        }
                        if x != i && last_of_key(av, x) && (exists|k: int| 0 <= k < j + 1 && #[trigger] wv[k] == av[x]) {
                            let k = choose|k: int| 0 <= k < j + 1 && #[trigger] wv[k] == av[x];
                            if k < j {
                                assert(before[x]);
                            }
                        }
                    }
                }
            },
            None => {
                matches.push(None);
                assert forall|x: int| 0 <= x < n implies (#[trigger] claimed@[x] <==> (last_of_key(av, x) && exists|k: int|
                    0 <= k < j + 1 && #[trigger] wv[k] == av[x])) by {
                    if exists|k: int| 0 <= k < j + 1 && #[trigger] wv[k] == av[x] {
                        let k = choose|k: int| 0 <= k < j + 1 && #[trigger] wv[k] == av[x];
                        if k == j {
                            assert(av[x] == wv[j as int]);
                            assert(av.contains(wv[j as int]));
                        }
                    }
                }
            },
        }
        j = j + 1;
    }
    let mut leftover: Vec<usize> = Vec::new();
    let mut i: usize = 0;
    while i < n
        invariant
            av == views_of(available@),
            wv == views_of(wanted@),
            n == available@.len(),
            claimed@.len() == n,
            i <= n,
            forall|x: int|
                0 <= x < n ==> (#[trigger] claimed@[x] <==> (last_of_key(av, x) && exists|k: int|
                    0 <= k < wanted@.len() && #[trigger] wv[k] == av[x])),
            forall|k1: int, k2: int|
                0 <= k1 < k2 < leftover@.len() ==> #[trigger] leftover@[k1] < #[trigger] leftover@[k2],
            forall|k: int| 0 <= k < leftover@.len() ==> #[trigger] leftover@[k] < i,
            forall|k: int|
                0 <= k < leftover@.len() ==> last_of_key(av, #[trigger] leftover@[k] as int) && !wv.contains(
                    av[leftover@[k] as int],
                ),
            forall|x: int|
                #![trigger av[x]]
                0 <= x < i && last_of_key(av, x) && !wv.contains(av[x]) ==> leftover@.contains(x as usize),
        decreases n - i,
    {
        let key = available[i].as_str();
        assert(av[i as int] == key@);
        let last = last_index_of(available, key);
        let is_last = match last {
            Some(p) => p == i,
            None => false,
        };
        proof {
            match last {
                Some(p) => {
                    if p < i {
                        assert(av[i as int] != av[p as int]);
                    }
                    if p > i {
                        assert(!last_of_key(av, i as int));
                    }
                },
                None => {
                    assert(av.contains(key@));
                },
            }
            assert(is_last == last_of_key(av, i as int));
        }
        if is_last && !claimed[i] {
            proof {
                if wv.contains(av[i as int]) {
                    let k = choose|k: int| 0 <= k < wv.len() && wv[k] == av[i as int];
                    assert(claimed@[i as int]);
                }
            }
            let ghost before = leftover@;
            leftover.push(i);
            assert forall|x: int|
                #![trigger av[x]]
                0 <= x < i + 1 && last_of_key(av, x) && !wv.contains(av[x]) implies leftover@.contains(x as usize) by {
                if x < i {
                    let k = choose|k: int| 0 <= k < before.len() && before[k] == x as usize;
                    assert(leftover@[k] == x as usize);
                } else {
                    assert(leftover@[before.len() as int] == x as usize);
                }
            }
        } else {
            proof {
                if last_of_key(av, i as int) && !wv.contains(av[i as int]) {
                    assert(claimed@[i as int]);
                    let k = choose|k: int| 0 <= k < wanted@.len() && #[trigger] wv[k] == av[i as int];
                    assert(wv.contains(av[i as int]));
                }
            }
        }
        i = i + 1;
    }
    KeyMatching { matches, leftover }
}

} // verus!

verus! {

/// A text with no whitespace at either end and no upper-case ASCII letter is its own
/// lower-cased, trimmed form.
pub proof fn lemma_plain_lower_text(s: Seq<char>)
    requires
        s.len() > 0,
        !is_ws(s[0]),
        !is_ws(s[s.len() - 1]),
        forall|k: int| 0 <= k < s.len() ==> !('A' <= #[trigger] s[k] && s[k] <= 'Z'),
    ensures
        lower(trimmed(s)) == s,
{
    lemma_trimmed_bounds(s, 0, s.len() as int);
    assert(s.subrange(0, s.len() as int) =~= s);
    assert(lower(s) =~= s);
}

} // verus!
