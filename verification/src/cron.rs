//! Five-field cron expressions: minute, hour, day of month, month and day of
//! week, each a comma-separated list of `*`, `N`, `A-B`, with an optional
//! `/STEP`. Times are read in UTC.
use vstd::prelude::*;
use crate::scheduler::first_index_of;
use crate::text::{chars_of, chars_eq, slice_chars, parse_u64, parse_u64_spec};

verus! {

pub proof fn lemma_first_index_bounds(s: Seq<char>, c: char)
    ensures
        0 <= first_index_of(s, c) <= s.len(),
        first_index_of(s, c) < s.len() ==> s[first_index_of(s, c)] == c,
        forall|k: int| 0 <= k < first_index_of(s, c) ==> s[k] != c,
    decreases s.len(),
{
    if s.len() > 0 && s[0] != c {
        lemma_first_index_bounds(s.skip(1), c);
        let j = first_index_of(s.skip(1), c);
        assert forall|k: int| 0 <= k < 1 + j implies s[k] != c by {
            if k > 0 {
                assert(s[k] == s.skip(1)[k - 1]);
            }
        }
        if j < s.len() - 1 {
            assert(s[1 + j] == s.skip(1)[j]);
        }
    }
}

proof fn lemma_first_index_is(s: Seq<char>, c: char, i: int)
    requires
        0 <= i <= s.len(),
        forall|k: int| 0 <= k < i ==> s[k] != c,
        i < s.len() ==> s[i] == c,
    ensures
        first_index_of(s, c) == i,
    decreases i,
{
    if i > 0 {
        assert forall|k: int| 0 <= k < i - 1 implies s.skip(1)[k] != c by {
            assert(s.skip(1)[k] == s[k + 1]);
        }
        if i < s.len() {
            assert(s.skip(1)[i - 1] == s[i]);
        }
        lemma_first_index_is(s.skip(1), c, i - 1);
    }
}

/// The index of the first `c` in `s`, or the length of `s`.
pub fn index_of_char(s: &Vec<char>, c: char) -> (k: usize)
    ensures
        k == first_index_of(s@, c),
        k <= s.len(),
{
    let mut i: usize = 0;
    while i < s.len()
        invariant
            i <= s.len(),
            forall|k: int| 0 <= k < i ==> s@[k] != c,
        decreases s.len() - i,
    {
        if s[i] == c {
            proof { lemma_first_index_is(s@, c, i as int); }
            return i;
        }
        i = i + 1;
    }
    proof { lemma_first_index_is(s@, c, i as int); }
    i
}

/// The words of `s`: the runs of characters between spaces.
pub open spec fn words(s: Seq<char>) -> Seq<Seq<char>>
    decreases s.len(),
{
    if s.len() == 0 {
        Seq::empty()
    } else {
        let k = first_index_of(s, ' ');
        proof {
            lemma_first_index_bounds(s, ' ');
        }
        if k == 0 {
            words(s.skip(1))
        } else if k < s.len() {
            seq![s.take(k)] + words(s.skip(k + 1))
        } else {
            seq![s]
        }
    }
}

/// Splits `s` into its words.
pub fn split_words(s: &Vec<char>) -> (r: Vec<Vec<char>>)
    ensures
        r@.len() == words(s@).len(),
        forall|i: int| 0 <= i < r@.len() ==> #[trigger] r@[i]@ == words(s@)[i],
    decreases s.len(),
{
    if s.len() == 0 {
        return Vec::new();
    }
    let k = index_of_char(s, ' ');
    proof { lemma_first_index_bounds(s@, ' '); }
    if k == 0 {
        let rest = slice_chars(s, 1, s.len());
        assert(rest@ == s@.skip(1));
        return split_words(&rest);
    }
    let mut r: Vec<Vec<char>> = Vec::new();
    r.push(slice_chars(s, 0, k));
    if k < s.len() {
        let rest_chars = slice_chars(s, k + 1, s.len());
        assert(rest_chars@ == s@.skip(k + 1));
        let rest = split_words(&rest_chars);
        let ghost w = words(s@);
        let mut i: usize = 0;
        while i < rest.len()
            invariant
                i <= rest.len(),
                rest@.len() == words(s@.skip(k + 1)).len(),
                forall|j: int| 0 <= j < rest@.len() ==> #[trigger] rest@[j]@ == words(s@.skip(k + 1))[j],
                r@.len() == 1 + i,
                r@[0]@ == s@.take(k as int),
                forall|j: int| 1 <= j < r@.len() ==> #[trigger] r@[j]@ == words(s@.skip(k + 1))[j - 1],
            decreases rest.len() - i,
        {
            let wd = slice_chars(&rest[i], 0, rest[i].len());
            assert(wd@ == rest@[i as int]@);
            r.push(wd);
            i = i + 1;
        }
        assert(w == seq![s@.take(k as int)] + words(s@.skip(k + 1)));
    } else {
        assert(s@.take(k as int) == s@);
    }
    r
}

/// The values `lo` to `hi` of a field that one item names: `*` all of them,
/// `A-B` those from A to B, `A` only A, or, followed by a step, A to `hi`.
pub open spec fn item_range(base: Seq<char>, stepped: bool, lo: int, hi: int) -> Option<(int, int)> {
    if base == seq!['*'] {
        Some((lo, hi))
    } else {
        let d = first_index_of(base, '-');
        if d < base.len() {
            match (parse_u64_spec(base.take(d)), parse_u64_spec(base.skip(d + 1))) {
                (Some(a), Some(b)) => Some((a as int, b as int)),
                _ => None,
            }
        } else {
            match parse_u64_spec(base) {
                Some(a) => Some((a as int, if stepped { hi } else { a as int })),
                None => None,
            }
        }
    }
}

/// Whether one item of a field, with an optional `/STEP`, takes the value
/// `v`; `None` when the item is malformed or leaves `lo` to `hi`.
pub open spec fn item_matches(it: Seq<char>, v: int, lo: int, hi: int) -> Option<bool> {
    let k = first_index_of(it, '/');
    let stepped = k < it.len();
    let step: Option<u64> = if stepped { parse_u64_spec(it.skip(k + 1)) } else { Some(1u64) };
    match (item_range(it.take(k), stepped, lo, hi), step) {
        (Some((a, b)), Some(st)) => if st > 0 && lo <= a && a <= b && b <= hi {
            Some(a <= v && v <= b && (v - a) % (st as int) == 0)
        } else {
            None
        },
        _ => None,
    }
}

/// Whether a comma-separated field takes the value `v`; `None` when an item
/// is malformed.
pub open spec fn list_matches(f: Seq<char>, v: int, lo: int, hi: int) -> Option<bool>
    decreases f.len(),
{
    let k = first_index_of(f, ',');
    proof {
        lemma_first_index_bounds(f, ',');
    }
    let head = item_matches(f.take(k), v, lo, hi);
    if k < f.len() {
        match (head, list_matches(f.skip(k + 1), v, lo, hi)) {
            (Some(a), Some(b)) => Some(a || b),
            _ => None,
        }
    } else {
        head
    }
}

fn item_range_exec(base: &Vec<char>, stepped: bool, lo: u64, hi: u64) -> (r: Option<(u64, u64)>)
    ensures
        match r {
            Some((a, b)) => item_range(base@, stepped, lo as int, hi as int) == Some((a as int, b as int)),
            None => item_range(base@, stepped, lo as int, hi as int) is None,
        },
{
    let star = chars_of("*");
    proof { reveal_strlit("*"); assert(star@ == seq!['*']); }
    if chars_eq(base, &star) {
        return Some((lo, hi));
    }
    let d = index_of_char(base, '-');
    if d < base.len() {
        let a = parse_u64(&slice_chars(base, 0, d));
        let b = parse_u64(&slice_chars(base, d + 1, base.len()));
        assert(base@.subrange(0, d as int) == base@.take(d as int));
        assert(base@.subrange(d + 1, base@.len() as int) == base@.skip(d + 1));
        match (a, b) {
            (Some(a), Some(b)) => Some((a, b)),
            _ => None,
        }
    } else {
        match parse_u64(base) {
            Some(a) => Some((a, if stepped { hi } else { a })),
            None => None,
        }
    }
}

fn item_matches_exec(it: &Vec<char>, v: u64, lo: u64, hi: u64) -> (r: Option<bool>)
    ensures
        r == item_matches(it@, v as int, lo as int, hi as int),
{
    let k = index_of_char(it, '/');
    let stepped = k < it.len();
    let step: Option<u64> = if stepped {
        let t = slice_chars(it, k + 1, it.len());
        assert(t@ == it@.skip(k + 1));
        parse_u64(&t)
    } else {
        Some(1u64)
    };
    let base = slice_chars(it, 0, k);
    assert(base@ == it@.take(k as int));
    match (item_range_exec(&base, stepped, lo, hi), step) {
        (Some((a, b)), Some(st)) => {
            if st > 0 && lo <= a && a <= b && b <= hi {
                Some(a <= v && v <= b && (v - a) % st == 0)
            } else {
                None
            }
        },
        _ => None,
    }
}

fn list_matches_exec(f: &Vec<char>, v: u64, lo: u64, hi: u64) -> (r: Option<bool>)
    ensures
        r == list_matches(f@, v as int, lo as int, hi as int),
    decreases f.len(),
{
    let k = index_of_char(f, ',');
    proof { lemma_first_index_bounds(f@, ','); }
    let it = slice_chars(f, 0, k);
    assert(it@ == f@.take(k as int));
    let head = item_matches_exec(&it, v, lo, hi);
    if k < f.len() {
        let rest = slice_chars(f, k + 1, f.len());
        assert(rest@ == f@.skip(k + 1));
        match (head, list_matches_exec(&rest, v, lo, hi)) {
            (Some(a), Some(b)) => Some(a || b),
            _ => None,
        }
    } else {
        head
    }
}

// ── The calendar ─────────────────────────────────────────────────────────────

pub open spec fn is_leap(y: int) -> bool {
    (y % 4 == 0 && y % 100 != 0) || y % 400 == 0
}

pub open spec fn year_days(y: int) -> int {
    if is_leap(y) { 366 } else { 365 }
}

pub open spec fn month_days(y: int, m: int) -> int {
    if m == 2 {
        if is_leap(y) { 29 } else { 28 }
    } else if m == 4 || m == 6 || m == 9 || m == 11 {
        30
    } else {
        31
    }
}

/// Month and day of month of the day `d` (from 0) of year `y`, counting the
/// months from `m`.
pub open spec fn month_day_in(y: int, m: int, d: int) -> (int, int)
    decreases 12 - m,
{
    if m >= 12 || d < month_days(y, m) {
        (m, d + 1)
    } else {
        month_day_in(y, m + 1, d - month_days(y, m))
    }
}

/// Month and day of month of the day `days` days into year `y` (possibly in
/// a later year).
pub open spec fn date_from(y: int, days: nat) -> (int, int)
    decreases days,
{
    if days < year_days(y) {
        month_day_in(y, 1, days as int)
    } else {
        date_from(y + 1, (days - year_days(y)) as nat)
    }
}

/// Month (1 to 12) and day of month of the UTC day `days` days after
/// 1970-01-01.
pub open spec fn month_day(days: nat) -> (int, int) {
    date_from(1970, days)
}

fn is_leap_exec(y: u64) -> (r: bool)
    ensures
        r == is_leap(y as int),
{
    (y % 4 == 0 && y % 100 != 0) || y % 400 == 0
}

fn month_days_exec(y: u64, m: u64) -> (r: u64)
    ensures
        r == month_days(y as int, m as int),
{
    if m == 2 {
        if is_leap_exec(y) { 29 } else { 28 }
    } else if m == 4 || m == 6 || m == 9 || m == 11 {
        30
    } else {
        31
    }
}

/// Month and day of month of the UTC day `days` days after 1970-01-01.
pub fn month_day_exec(days: u64) -> (r: (u64, u64))
    requires
        days <= 0x1_0000_0000_0000,
    ensures
        (r.0 as int, r.1 as int) == month_day(days as nat),
{
    let mut y: u64 = 1970;
    let mut d: u64 = days;
    loop
        invariant
            date_from(y as int, d as nat) == month_day(days as nat),
            1970 <= y <= 1970 + (days - d),
            d <= days,
            days <= 0x1_0000_0000_0000,
        ensures
            date_from(y as int, d as nat) == month_day(days as nat),
            (d as int) < year_days(y as int),
        decreases d,
    {
        let yd: u64 = if is_leap_exec(y) { 366 } else { 365 };
        if d < yd {
            break;
        }
        d = d - yd;
        y = y + 1;
    }
    let mut m: u64 = 1;
    while m < 12 && d >= month_days_exec(y, m)
        invariant
            1 <= m <= 12,
            d < 366,
            month_day_in(y as int, m as int, d as int) == month_day(days as nat),
        decreases 12 - m,
    {
        d = d - month_days_exec(y, m);
        m = m + 1;
    }
    (m, d + 1)
}

// ── Matching a minute ────────────────────────────────────────────────────────

/// The field starts with `*`: it does not restrict the day.
pub open spec fn starred(f: Seq<char>) -> bool {
    f.len() > 0 && f[0] == '*'
}

/// Whether the five fields take the UTC minute `minute` (minutes since
/// 1970-01-01 00:00): minute, hour and month must match; of day of month and
/// day of week (0 or 7 for Sunday), both must match when either field starts
/// with `*`, else one of them. `None` when a field is malformed.
pub open spec fn cron_matches_at(w: Seq<Seq<char>>, minute: nat) -> Option<bool> {
    let mi = minute % 60;
    let hr = (minute / 60) % 24;
    let days = minute / 1440;
    let (mon, dom) = month_day(days);
    let dow = (days + 4) % 7;
    match (
        list_matches(w[0], mi as int, 0, 59),
        list_matches(w[1], hr as int, 0, 23),
        list_matches(w[2], dom, 1, 31),
        list_matches(w[3], mon, 1, 12),
        list_matches(w[4], dow as int, 0, 7),
        list_matches(w[4], 7, 0, 7),
    ) {
        (Some(a), Some(b), Some(c), Some(d), Some(e), Some(e7)) => {
            let dow_ok = e || (dow == 0 && e7);
            let day_ok = if starred(w[2]) || starred(w[4]) { c && dow_ok } else { c || dow_ok };
            Some(a && b && d && day_ok)
        },
        _ => None,
    }
}

/// A cron schedule is due at `now` (unix milliseconds) when it has five
/// well-formed fields that take the current UTC minute and no run happened
/// since that minute began.
pub open spec fn cron_due(s: Seq<char>, last_run_ms: Option<u64>, now: u64) -> bool {
    let w = words(s);
    let minute = (now / 60000) as nat;
    &&& w.len() == 5
    &&& cron_matches_at(w, minute) == Some(true)
    &&& match last_run_ms {
        None => true,
        Some(last) => last < minute * 60000,
    }
}

fn starred_exec(f: &Vec<char>) -> (r: bool)
    ensures
        r == starred(f@),
{
    f.len() > 0 && f[0] == '*'
}

/// Decides whether a cron schedule is due at `now`.
pub fn cron_due_exec(s: &Vec<char>, last_run_ms: Option<u64>, now: u64) -> (r: bool)
    ensures
        r == cron_due(s@, last_run_ms, now),
{
    let w = split_words(s);
    if w.len() != 5 {
        return false;
    }
    let minute = now / 60000;
    let mi = minute % 60;
    let hr = (minute / 60) % 24;
    let days = minute / 1440;
    let (mon, dom) = month_day_exec(days);
    let dow = (days + 4) % 7;
    let a = list_matches_exec(&w[0], mi, 0, 59);
    let b = list_matches_exec(&w[1], hr, 0, 23);
    let c = list_matches_exec(&w[2], dom, 1, 31);
    let d = list_matches_exec(&w[3], mon, 1, 12);
    let e = list_matches_exec(&w[4], dow, 0, 7);
    let e7 = list_matches_exec(&w[4], 7, 0, 7);
    let ghost ws = words(s@);
    assert(w@[0]@ == ws[0] && w@[1]@ == ws[1] && w@[2]@ == ws[2] && w@[3]@ == ws[3] && w@[4]@ == ws[4]);
    let matched = match (a, b, c, d, e, e7) {
        (Some(a), Some(b), Some(c), Some(d), Some(e), Some(e7)) => {
            let dow_ok = e || (dow == 0 && e7);
            let day_ok = if starred_exec(&w[2]) || starred_exec(&w[4]) { c && dow_ok } else { c || dow_ok };
            a && b && d && day_ok
        },
        _ => false,
    };
    matched && match last_run_ms {
        None => true,
        Some(last) => last < minute * 60000,
    }
}

} // verus!
