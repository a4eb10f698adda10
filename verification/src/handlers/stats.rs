//! Statistics responses: controller names, rating codes, labels and prefix lists.
use vstd::prelude::*;

use crate::error::ApiError;
use crate::text::{
    concat3, contains_str, dedup, i64_to_decimal, lemma_dedup, opt_str_view, opt_view, owned,
    signed_decimal, str_eq, to_ascii_uppercase, trim, trimmed, upper, views_of,
};

verus! {

/// The short code a rating name stands for in statistics: every instructor level
/// collapses to `INS`; an unknown name is kept as written (upper-cased).
pub open spec fn stats_rating_alias(u: Seq<char>) -> Seq<char> {
    if u == "OBS"@ || u == "OBSERVER"@ {
        "OBS"@
    } else if u == "S1"@ || u == "STUDENT1"@ {
        "S1"@
    } else if u == "S2"@ || u == "STUDENT2"@ {
        "S2"@
    } else if u == "S3"@ || u == "STUDENT3"@ || u == "SENIORSTUDENT"@ {
        "S3"@
    } else if u == "C1"@ || u == "CONTROLLER1"@ {
        "C1"@
    } else if u == "C2"@ || u == "CONTROLLER2"@ {
        "C2"@
    } else if u == "C3"@ || u == "CONTROLLER3"@ {
        "C3"@
    } else if u == "I1"@ || u == "I2"@ || u == "I3"@ || u == "INS"@ || u == "INSTRUCTOR"@
        || u == "INSTRUCTOR1"@ || u == "INSTRUCTOR2"@ || u == "INSTRUCTOR3"@ {
        "INS"@
    } else if u == "SUP"@ || u == "SUPERVISOR"@ {
        "SUP"@
    } else if u == "ADM"@ || u == "ADMIN"@ || u == "ADMINISTRATOR"@ {
        "ADM"@
    } else {
        u
    }
}

/// The rating code shown for a stored rating: none for a missing or blank value.
pub open spec fn stats_rating_code(value: Option<Seq<char>>) -> Option<Seq<char>> {
    match value {
        None => None,
        Some(v) => if trimmed(v).len() == 0 {
            None
        } else {
            Some(stats_rating_alias(upper(trimmed(v))))
        },
    }
}

/// Normalizes a stored rating to the short code used in statistics responses.
pub fn normalize_rating_code(value: Option<&str>) -> (r: Option<String>)
    ensures
        opt_view(r) == stats_rating_code(opt_str_view(value)),
{
    let raw = match value {
        Some(v) => trim(v),
        None => return None,
    };
    if raw.unicode_len() == 0 {
        return None;
    }
    let up = to_ascii_uppercase(raw);
    let u = up.as_str();
    let normalized = if str_eq(u, "OBS") || str_eq(u, "OBSERVER") {
        "OBS"
    } else if str_eq(u, "S1") || str_eq(u, "STUDENT1") {
        "S1"
    } else if str_eq(u, "S2") || str_eq(u, "STUDENT2") {
        "S2"
    } else if str_eq(u, "S3") || str_eq(u, "STUDENT3") || str_eq(u, "SENIORSTUDENT") {
        "S3"
    } else if str_eq(u, "C1") || str_eq(u, "CONTROLLER1") {
        "C1"
    } else if str_eq(u, "C2") || str_eq(u, "CONTROLLER2") {
        "C2"
    } else if str_eq(u, "C3") || str_eq(u, "CONTROLLER3") {
        "C3"
    } else if str_eq(u, "I1") || str_eq(u, "I2") || str_eq(u, "I3") || str_eq(u, "INS")
        || str_eq(u, "INSTRUCTOR") || str_eq(u, "INSTRUCTOR1") || str_eq(u, "INSTRUCTOR2")
        || str_eq(u, "INSTRUCTOR3") {
        "INS"
    } else if str_eq(u, "SUP") || str_eq(u, "SUPERVISOR") {
        "SUP"
    } else if str_eq(u, "ADM") || str_eq(u, "ADMIN") || str_eq(u, "ADMINISTRATOR") {
        "ADM"
    } else {
        return Some(up);
    };
    Some(owned(normalized))
}

pub open spec fn or_empty(o: Option<Seq<char>>) -> Seq<char> {
    match o {
        Some(s) => s,
        None => Seq::empty(),
    }
}

/// The name shown for a controller: the trimmed first and last name joined by a space
/// when either is present, else the display name when it is not blank, else the CID.
pub open spec fn user_name_spec(
    display_name: Option<Seq<char>>,
    first_name: Option<Seq<char>>,
    last_name: Option<Seq<char>>,
    cid: int,
) -> Seq<char> {
    let combined = trimmed(trimmed(or_empty(first_name)) + " "@ + trimmed(or_empty(last_name)));
    if combined.len() > 0 {
        combined
    } else if display_name is Some && trimmed(display_name->0).len() > 0 {
        display_name->0
    } else {
        signed_decimal(cid)
    }
}

/// Chooses the display name of a controller from its identity fields.
pub fn user_name(
    display_name: Option<&str>,
    first_name: Option<&str>,
    last_name: Option<&str>,
    cid: i64,
) -> (r: String)
    ensures
        r@ == user_name_spec(
            opt_str_view(display_name),
            opt_str_view(first_name),
            opt_str_view(last_name),
            cid as int,
        ),
{
    let first = trim(first_name.unwrap_or(""));
    let last = trim(last_name.unwrap_or(""));
    proof {
        reveal_strlit("");
        assert(or_empty(opt_str_view(first_name)) == first_name.unwrap_or("")@);
        assert(or_empty(opt_str_view(last_name)) == last_name.unwrap_or("")@);
    }
    let joined = concat3(first, " ", last);
    let combined = trim(joined.as_str());
    if combined.unicode_len() > 0 {
        return owned(combined);
    }
    if let Some(display_name) = display_name {
        if trim(display_name).unicode_len() > 0 {
            return owned(display_name);
        }
    }
    i64_to_decimal(cid)
}

/// The English name of a month numbered 1 to 12.
pub open spec fn month_name_spec(month: int) -> Seq<char> {
    if month == 1 {
        "January"@
    } else if month == 2 {
        "February"@
    } else if month == 3 {
        "March"@
    } else if month == 4 {
        "April"@
    } else if month == 5 {
        "May"@
    } else if month == 6 {
        "June"@
    } else if month == 7 {
        "July"@
    } else if month == 8 {
        "August"@
    } else if month == 9 {
        "September"@
    } else if month == 10 {
        "October"@
    } else if month == 11 {
        "November"@
    } else if month == 12 {
        "December"@
    } else {
        "Unknown"@
    }
}

/// The English month names, January to December.
pub open spec fn english_months() -> Seq<Seq<char>> {
    seq![
        "January"@,
        "February"@,
        "March"@,
        "April"@,
        "May"@,
        "June"@,
        "July"@,
        "August"@,
        "September"@,
        "October"@,
        "November"@,
        "December"@,
    ]
}

/// Months 1 to 12 are named, in calendar order, January to December, distinct months
/// by distinct names; any other number is `Unknown`, which names no month.
pub proof fn month_names_in_order(a: int, b: int)
    ensures
        1 <= a <= 12 ==> month_name_spec(a) == english_months()[a - 1],
        !(1 <= a <= 12) ==> month_name_spec(a) == "Unknown"@,
        1 <= a <= 12 && 1 <= b <= 12 && a != b ==> month_name_spec(a) != month_name_spec(b),
        1 <= a <= 12 ==> month_name_spec(a) != "Unknown"@,
{
    reveal_strlit("January");
    reveal_strlit("February");
    reveal_strlit("March");
    reveal_strlit("April");
    reveal_strlit("May");
    reveal_strlit("June");
    reveal_strlit("July");
    reveal_strlit("August");
    reveal_strlit("September");
    reveal_strlit("October");
    reveal_strlit("November");
    reveal_strlit("December");
    reveal_strlit("Unknown");
    let names = english_months().push("Unknown"@);
    assert forall|x: int, y: int| 0 <= x < y < 13 implies #[trigger] names[x] != #[trigger] names[y] by {
        assert(names[x][0] != names[y][0] || names[x][1] != names[y][1] || names[x][2] != names[y][2]);
    }
    if 1 <= a <= 12 {
        assert(month_name_spec(a) == names[a - 1]);
        assert(names[12] == "Unknown"@);
        assert(names[a - 1] != names[12]);
        if 1 <= b <= 12 && a != b {
            assert(month_name_spec(b) == names[b - 1]);
            if a < b {
                assert(names[a - 1] != names[b - 1]);
            } else {
                assert(names[b - 1] != names[a - 1]);
            }
        }
    }
}

/// The English name of a month numbered 1 to 12, or `Unknown`.
pub fn month_name(month: i32) -> (r: &'static str)
    ensures
        r@ == month_name_spec(month as int),
{
    match month {
        1 => "January",
        2 => "February",
        3 => "March",
        4 => "April",
        5 => "May",
        6 => "June",
        7 => "July",
        8 => "August",
        9 => "September",
        10 => "October",
        11 => "November",
        12 => "December",
        _ => "Unknown",
    }
}

/// The heading of a statistics response.
pub open spec fn stats_label_spec(all_time: bool, month: Option<int>, year: int) -> Seq<char> {
    if all_time {
        "All-Time Statistics"@
    } else {
        match month {
            Some(m) => month_name_spec(m) + ", "@ + signed_decimal(year) + " Statistics"@,
            None => "All Months, "@ + signed_decimal(year) + " Statistics"@,
        }
    }
}

/// Builds the heading of a statistics response.
pub fn stats_label(all_time: bool, month: Option<i32>, year: i32) -> (r: String)
    ensures
        r@ == stats_label_spec(
            all_time,
            match month {
                Some(m) => Some(m as int),
                None => None,
            },
            year as int,
        ),
{
    if all_time {
        return owned("All-Time Statistics");
    }
    let year_text = i64_to_decimal(year as i64);
    match month {
        Some(value) => {
            let mut out = concat3(month_name(value), ", ", year_text.as_str());
            out.append(" Statistics");
            out
        },
        None => concat3("All Months, ", year_text.as_str(), " Statistics"),
    }
}

/// What a statistics prefix list normalizes to: each entry trimmed and upper-cased,
/// repeats dropped; refused when an entry is blank.
pub open spec fn normalized_prefixes(prefixes: Seq<Seq<char>>) -> Result<Seq<Seq<char>>, ApiError> {
    if exists|k: int| 0 <= k < prefixes.len() && #[trigger] trimmed(prefixes[k]).len() == 0 {
        Err(ApiError::BadRequest)
    } else {
        Ok(dedup(prefixes.map_values(|p: Seq<char>| upper(trimmed(p)))))
    }
}

/// Normalizes the callsign prefixes that count toward statistics.
pub fn normalize_prefixes(prefixes: &[String]) -> (r: Result<Vec<String>, ApiError>)
    ensures
        match r {
            Ok(v) => normalized_prefixes(prefixes@.map_values(|p: String| p@)) == Ok::<
                Seq<Seq<char>>,
                ApiError,
            >(views_of(v@)),
            Err(e) => normalized_prefixes(prefixes@.map_values(|p: String| p@)) == Err::<
                Seq<Seq<char>>,
                ApiError,
            >(e),
        },
{
    let ghost input = prefixes@.map_values(|p: String| p@);
    let ghost mapped = input.map_values(|p: Seq<char>| upper(trimmed(p)));
    let mut normalized: Vec<String> = Vec::new();
    let mut i: usize = 0;
    while i < prefixes.len()
        invariant
            i <= prefixes@.len(),
            input == prefixes@.map_values(|p: String| p@),
            mapped == input.map_values(|p: Seq<char>| upper(trimmed(p))),
            forall|k: int| 0 <= k < i ==> trimmed(#[trigger] input[k]).len() > 0,
            views_of(normalized@) == dedup(mapped.subrange(0, i as int)),
        decreases prefixes@.len() - i,
    {
        let trimmed_prefix = trim(prefixes[i].as_str());
        let prefix = to_ascii_uppercase(trimmed_prefix);
        assert(input[i as int] == prefixes@[i as int]@);
        if prefix.unicode_len() == 0 {
            assert(trimmed(input[i as int]).len() == 0);
            return Err(ApiError::BadRequest);
        }
        let ghost before = mapped.subrange(0, i as int);
        assert(mapped.subrange(0, i + 1).drop_last() =~= before);
        assert(mapped[i as int] == prefix@);
        if !contains_str(&normalized, prefix.as_str()) {
            normalized.push(prefix);
            assert(views_of(normalized@) =~= dedup(before).push(mapped[i as int]));
        }
        i = i + 1;
    }
    assert(mapped.subrange(0, prefixes@.len() as int) =~= mapped);
    Ok(normalized)
}

/// A normalized prefix list never repeats an entry, and holds exactly the normalized
/// forms of the entries given.
pub proof fn normalized_prefixes_are_distinct(prefixes: Seq<Seq<char>>)
    ensures
        normalized_prefixes(prefixes) matches Ok(v) ==> v.no_duplicates() && forall|x: Seq<char>|
            #[trigger] v.contains(x) <==> exists|k: int|
                0 <= k < prefixes.len() && x == upper(trimmed(#[trigger] prefixes[k])),
{
    let mapped = prefixes.map_values(|p: Seq<char>| upper(trimmed(p)));
    lemma_dedup(mapped);
    assert forall|x: Seq<char>| mapped.contains(x) <==> exists|k: int|
        0 <= k < prefixes.len() && x == upper(trimmed(#[trigger] prefixes[k])) by {
        if mapped.contains(x) {
            let k = choose|k: int| 0 <= k < mapped.len() && mapped[k] == x;
            assert(x == upper(trimmed(prefixes[k])));
        }
        if exists|k: int| 0 <= k < prefixes.len() && x == upper(trimmed(#[trigger] prefixes[k])) {
            let k = choose|k: int| 0 <= k < prefixes.len() && x == upper(trimmed(#[trigger] prefixes[k]));
            assert(mapped[k] == x);
        }
    }
}

// ---------------------------------------------------------------------------
// Queries
// ---------------------------------------------------------------------------

/// A controller's identity as the statistics tables keep it.
#[derive(Debug)]
pub struct ControllerIdentityRow {
    pub cid: i64,
    pub display_name: Option<String>,
    pub first_name: Option<String>,
    pub last_name: Option<String>,
    pub rating: Option<String>,
}

fn opt_as_str(value: &Option<String>) -> (r: Option<&str>)
    ensures
        opt_str_view(r) == opt_view(*value),
{
    match value {
        Some(s) => Some(s.as_str()),
        None => None,
    }
}

/// The name shown for a controller in the statistics.
pub fn identity_name(row: &ControllerIdentityRow) -> (r: String)
    ensures
        r@ == user_name_spec(opt_view(row.display_name), opt_view(row.first_name), opt_view(row.last_name), row.cid as int),
{
    user_name(opt_as_str(&row.display_name), opt_as_str(&row.first_name), opt_as_str(&row.last_name), row.cid)
}

/// The selection an ARTCC statistics query makes.
#[derive(Debug, Clone, Copy, PartialEq, Eq, Structural)]
pub struct ArtccStatsSelection {
    pub all_time: bool,
    pub year: i32,
    pub month: Option<i32>,
    pub month_zero_based: Option<i32>,
    pub top: usize,
    pub limit: i64,
    pub query_limit: i64,
}

/// A number kept within `lo` to `hi`.
pub open spec fn clamp_spec(v: int, lo: int, hi: int) -> int {
    if v < lo {
        lo
    } else if v > hi {
        hi
    } else {
        v
    }
}

/// What an ARTCC statistics query selects in `current_year`: all time, or a year (the
/// current one by default, from 2000 to 2100) and optionally a month (1 to 12), with the
/// number of leaders (3 by default, 1 to 25) and of listed controllers (100 by default,
/// 1 to 500); anything out of range is a bad request. The month is ignored for all time.
pub open spec fn stats_selection_spec(
    all_time: Option<bool>,
    year: Option<i32>,
    month: Option<i32>,
    top: Option<i64>,
    limit: Option<i64>,
    current_year: i32,
) -> Result<ArtccStatsSelection, ApiError> {
    let at = match all_time {
        Some(b) => b,
        None => false,
    };
    let y = match year {
        Some(v) => v,
        None => current_year,
    };
    let m = if at {
        None
    } else {
        month
    };
    let t = clamp_spec(
        match top {
            Some(v) => v as int,
            None => 3,
        },
        1,
        25,
    );
    let l = clamp_spec(
        match limit {
            Some(v) => v as int,
            None => 100,
        },
        1,
        500,
    );
    if !at && !(2000 <= y <= 2100) {
        Err(ApiError::BadRequest)
    } else if m matches Some(mv) && !(1 <= mv <= 12) {
        Err(ApiError::BadRequest)
    } else {
        Ok(
            ArtccStatsSelection {
                all_time: at,
                year: y,
                month: m,
                month_zero_based: match m {
                    Some(mv) => Some((mv - 1) as i32),
                    None => None,
                },
                top: t as usize,
                limit: l as i64,
                query_limit: if l > t {
                    l as i64
                } else {
                    t as i64
                },
            },
        )
    }
}

/// Reads an ARTCC statistics query in `current_year`.
pub fn resolve_artcc_stats_query(
    all_time: Option<bool>,
    year: Option<i32>,
    month: Option<i32>,
    top: Option<i64>,
    limit: Option<i64>,
    current_year: i32,
) -> (r: Result<ArtccStatsSelection, ApiError>)
    ensures
        r == stats_selection_spec(all_time, year, month, top, limit, current_year),
{
    let at = match all_time {
        Some(b) => b,
        None => false,
    };
    let y = match year {
        Some(v) => v,
        None => current_year,
    };
    if !at && !(2000 <= y && y <= 2100) {
        return Err(ApiError::BadRequest);
    }
    let m = if at {
        None
    } else {
        month
    };
    let month_zero_based = match m {
        Some(mv) => if 1 <= mv && mv <= 12 {
            Some(mv - 1)
        } else {
            return Err(ApiError::BadRequest);
        },
        None => None,
    };
    let t: i64 = match top {
        Some(v) => v,
        None => 3,
    };
    let t: i64 = if t < 1 {
        1
    } else if t > 25 {
        25
    } else {
        t
    };
    let l: i64 = match limit {
        Some(v) => v,
        None => 100,
    };
    let l: i64 = if l < 1 {
        1
    } else if l > 500 {
        500
    } else {
        l
    };
    let query_limit = if l > t {
        l
    } else {
        t
    };
    Ok(
        ArtccStatsSelection {
            all_time: at,
            year: y,
            month: m,
            month_zero_based,
            top: t as usize,
            limit: l,
            query_limit,
        },
    )
}

/// The year of a controller history query in `current_year`: the given one or the
/// current one, from 2000 to 2100, else a bad request.
pub fn resolve_history_year(year: Option<i32>, current_year: i32) -> (r: Result<i32, ApiError>)
    ensures
        ({
            let y = match year {
                Some(v) => v,
                None => current_year,
            };
            if 2000 <= y <= 2100 {
                r == Ok::<i32, ApiError>(y)
            } else {
                r == Err::<i32, ApiError>(ApiError::BadRequest)
            }
        }),
{
    let y = match year {
        Some(v) => v,
        None => current_year,
    };
    if 2000 <= y && y <= 2100 {
        Ok(y)
    } else {
        Err(ApiError::BadRequest)
    }
}

/// The page of a controller event listing: events after `after_id` (0 by default), at
/// most `limit` of them (100 by default, 1 to 500).
pub fn resolve_events_page(after_id: Option<i64>, limit: Option<i64>) -> (r: (i64, i64))
    ensures
        r.0 == match after_id {
            Some(v) => v,
            None => 0,
        },
        r.1 == clamp_spec(
            match limit {
                Some(v) => v as int,
                None => 100,
            },
            1,
            500,
        ),
{
    let a = match after_id {
        Some(v) => v,
        None => 0,
    };
    let l: i64 = match limit {
        Some(v) => v,
        None => 100,
    };
    let l: i64 = if l < 1 {
        1
    } else if l > 500 {
        500
    } else {
        l
    };
    (a, l)
}

/// A leader of an ARTCC statistics answer: its rank and the position of its row among
/// the controller totals, best first.
#[derive(Debug)]
pub struct LeaderSlot {
    pub rank: i32,
    pub row: usize,
}

/// How an ARTCC statistics answer is laid out over the controller totals read for it
/// (best first): its heading, whether it covers all time, its month and year, how many
/// of the rows it lists as controllers, and its leaders.
#[derive(Debug)]
pub struct ArtccStatsLayout {
    pub label: String,
    pub all_time: bool,
    pub month: Option<i32>,
    pub year: Option<i32>,
    pub controllers: usize,
    pub leaders: Vec<LeaderSlot>,
}

/// Lays out the answer to a resolved ARTCC statistics query over `row_count` controller
/// totals: the first `limit` rows are listed; the first `top` rows are the leaders,
/// ranked from 1; there is no year for all time.
pub fn artcc_stats_layout(selection: &ArtccStatsSelection, row_count: usize) -> (r: ArtccStatsLayout)
    requires
        1 <= selection.top <= 25,
        1 <= selection.limit <= 500,
    ensures
        r.label@ == stats_label_spec(
            selection.all_time,
            match selection.month {
                Some(m) => Some(m as int),
                None => None,
            },
            selection.year as int,
        ),
        r.all_time == selection.all_time,
        r.month == selection.month,
        r.year == (if selection.all_time {
            None
        } else {
            Some(selection.year)
        }),
        r.controllers == (if row_count < selection.limit {
            row_count as int
        } else {
            selection.limit as int
        }),
        r.leaders@.len() == (if row_count < selection.top {
            row_count as int
        } else {
            selection.top as int
        }),
        forall|i: int| 0 <= i < r.leaders@.len() ==> #[trigger] r.leaders@[i].rank == i + 1 && r.leaders@[i].row == i,
{
    let controllers: usize = if row_count < selection.limit as usize {
        row_count
    } else {
        selection.limit as usize
    };
    let n: usize = if row_count < selection.top {
        row_count
    } else {
        selection.top
    };
    let mut leaders: Vec<LeaderSlot> = Vec::new();
    let mut i: usize = 0;
    while i < n
        invariant
            n <= 25,
            i <= n,
            leaders@.len() == i,
            forall|k: int| 0 <= k < i ==> #[trigger] leaders@[k].rank == k + 1 && leaders@[k].row == k,
        decreases n - i,
    {
        leaders.push(LeaderSlot { rank: (i + 1) as i32, row: i });
        i = i + 1;
    }
    ArtccStatsLayout {
        label: stats_label(selection.all_time, selection.month, selection.year),
        all_time: selection.all_time,
        month: selection.month,
        year: if selection.all_time {
            None
        } else {
            Some(selection.year)
        },
        controllers,
        leaders,
    }
}

} // verus!
