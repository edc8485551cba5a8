//! Text helpers over sequences of characters: literal comparison, prefixes
//! and suffixes, search, replacement, and decimal numbers.
use vstd::prelude::*;

verus! {

/// The characters of `s`, in order.
pub fn chars_of(s: &str) -> (res: Vec<char>)
    ensures
        res@ == s@,
{
    let mut res: Vec<char> = Vec::new();
    for c in it: s.chars()
        invariant
            res@ == it.seq().take(it.index() as int),
            it.seq() == s@,
    {
        res.push(c);
    }
    res
}

/// Builds a `String` holding exactly the characters of `v`.
#[verifier::external_body]
pub(crate) fn string_from_chars(v: &Vec<char>) -> (res: String)
    ensures
        res@ == v@,
{
    v.iter().collect()
}

/// Equality of two character sequences, element by element.
pub fn chars_eq(a: &Vec<char>, b: &Vec<char>) -> (r: bool)
    ensures
        r == (a@ == b@),
{
    if a.len() != b.len() {
        return false;
    }
    let mut i: usize = 0;
    while i < a.len()
        invariant
            a.len() == b.len(),
            i <= a.len(),
            forall|k: int| 0 <= k < i ==> a@[k] == b@[k],
        decreases a.len() - i,
    {
        if a[i] != b[i] {
            return false;
        }
        i = i + 1;
    }
    assert(a@ =~= b@);
    true
}

/// Equality of two strings, character by character.
pub fn str_eq(a: &str, b: &str) -> (r: bool)
    ensures
        r == (a@ == b@),
{
    let va = chars_of(a);
    let vb = chars_of(b);
    chars_eq(&va, &vb)
}

pub open spec fn starts_with(s: Seq<char>, p: Seq<char>) -> bool {
    p.len() <= s.len() && s.take(p.len() as int) == p
}

pub open spec fn ends_with(s: Seq<char>, p: Seq<char>) -> bool {
    p.len() <= s.len() && s.skip(s.len() - p.len()) == p
}

pub fn has_prefix(s: &Vec<char>, p: &Vec<char>) -> (r: bool)
    ensures
        r == starts_with(s@, p@),
{
    if p.len() > s.len() {
        return false;
    }
    let mut i: usize = 0;
    while i < p.len()
        invariant
            p.len() <= s.len(),
            i <= p.len(),
            forall|k: int| 0 <= k < i ==> s@[k] == p@[k],
        decreases p.len() - i,
    {
        if s[i] != p[i] {
            assert(s@.take(p.len() as int)[i as int] != p@[i as int]);
            return false;
        }
        i = i + 1;
    }
    assert(s@.take(p.len() as int) =~= p@);
    true
}

pub fn has_suffix(s: &Vec<char>, p: &Vec<char>) -> (r: bool)
    ensures
        r == ends_with(s@, p@),
{
    if p.len() > s.len() {
        return false;
    }
    let off = s.len() - p.len();
    let mut i: usize = 0;
    while i < p.len()
        invariant
            p.len() <= s.len(),
            off == s.len() - p.len(),
            i <= p.len(),
            forall|k: int| 0 <= k < i ==> s@[off + k] == p@[k],
        decreases p.len() - i,
    {
        if s[off + i] != p[i] {
            assert(s@.skip(off as int)[i as int] != p@[i as int]);
            return false;
        }
        i = i + 1;
    }
    assert(s@.skip(off as int) =~= p@);
    true
}

/// The characters of `s` from `from` (inclusive) to `to` (exclusive).
pub fn slice_chars(s: &Vec<char>, from: usize, to: usize) -> (res: Vec<char>)
    requires
        from <= to <= s.len(),
    ensures
        res@ == s@.subrange(from as int, to as int),
{
    let mut res: Vec<char> = Vec::new();
    let mut i = from;
    while i < to
        invariant
            from <= i <= to <= s.len(),
            res@ == s@.subrange(from as int, i as int),
        decreases to - i,
    {
        res.push(s[i]);
        i = i + 1;
        assert(res@ =~= s@.subrange(from as int, i as int));
    }
    res
}

// ── Decimal numbers ───────────────────────────────────────────────────────────

pub open spec fn is_digit(c: char) -> bool {
    '0' <= c && c <= '9'
}

pub open spec fn digit_value(c: char) -> nat {
    ((c as u32) - ('0' as u32)) as nat
}

pub open spec fn all_digits(s: Seq<char>) -> bool {
    forall|i: int| 0 <= i < s.len() ==> is_digit(#[trigger] s[i])
}

/// The number that a string of decimal digits denotes.
pub open spec fn digits_value(s: Seq<char>) -> nat
    decreases s.len(),
{
    if s.len() == 0 {
        0
    } else {
        digits_value(s.drop_last()) * 10 + digit_value(s.last())
    }
}

/// What `str::parse::<u64>` gives: an optional `+`, then at least one decimal
/// digit and nothing else, denoting a number that fits in a `u64`.
pub open spec fn parse_u64_spec(s: Seq<char>) -> Option<u64> {
    let d = if s.len() > 0 && s[0] == '+' { s.skip(1) } else { s };
    if d.len() > 0 && all_digits(d) && digits_value(d) <= u64::MAX {
        Some(digits_value(d) as u64)
    } else {
        None
    }
}

proof fn lemma_digits_value_prefix(s: Seq<char>, k: int)
    requires
        0 <= k <= s.len(),
        all_digits(s),
    ensures
        digits_value(s.take(k)) <= digits_value(s),
    decreases s.len(),
{
    if k < s.len() {
        let t = s.drop_last();
        assert(all_digits(t)) by {
            assert forall|i: int| 0 <= i < t.len() implies is_digit(#[trigger] t[i]) by {
                assert(t[i] == s[i]);
            }
        }
        lemma_digits_value_prefix(t, k);
        assert(t.take(k) == s.take(k));
    } else {
        assert(s.take(k) == s);
    }
}

/// Parses a decimal `u64` as `str::parse::<u64>` does.
pub fn parse_u64(s: &Vec<char>) -> (res: Option<u64>)
    ensures
        res == parse_u64_spec(s@),
{
    let mut start: usize = 0;
    if s.len() > 0 && s[0] == '+' {
        start = 1;
    }
    let ghost d = if s@.len() > 0 && s@[0] == '+' { s@.skip(1) } else { s@ };
    assert(d == s@.skip(start as int));
    if start >= s.len() {
        return None;
    }
    let mut val: u64 = 0;
    let mut i = start;
    while i < s.len()
        invariant
            start <= i <= s.len(),
            d == s@.skip(start as int),
            d == (if s@.len() > 0 && s@[0] == '+' { s@.skip(1) } else { s@ }),
            all_digits(d.take(i - start)),
            val as nat == digits_value(d.take(i - start)),
        decreases s.len() - i,
    {
        let c = s[i];
        let ghost k = i - start;
        assert(d[k] == c);
        if !('0' <= c && c <= '9') {
            assert(!is_digit(d[k]));
            return None;
        }
        let dv = (c as u32 - '0' as u32) as u64;
        assert(d.take(k + 1).drop_last() == d.take(k));
        assert(d.take(k + 1).last() == c);
        assert(all_digits(d.take(k + 1))) by {
            assert forall|j: int| 0 <= j < k + 1 implies is_digit(#[trigger] d.take(k + 1)[j]) by {
                if j < k {
                    assert(d.take(k + 1)[j] == d.take(k)[j]);
                }
            }
        }
        if val > (u64::MAX - dv) / 10 {
            proof {
                assert(val * 10 + dv > u64::MAX) by (nonlinear_arith)
                    requires
                        val > (u64::MAX - dv) / 10,
                        dv <= 9,
                ;
                // Every further digit only makes the number larger.
                assert(digits_value(d.take(k + 1)) == val * 10 + dv);
                if all_digits(d) {
                    lemma_digits_value_prefix(d, k + 1);
                }
            }
            return None;
        }
        assert(val * 10 + dv <= u64::MAX) by (nonlinear_arith)
            requires
                val <= (u64::MAX - dv) / 10,
                dv <= 9,
        ;
        val = val * 10 + dv;
        i = i + 1;
    }
    assert(d.take(i - start) == d);
    Some(val)
}

/// The decimal digits of `n`, without leading zeros ("0" for zero).
pub open spec fn decimal(n: nat) -> Seq<char>
    decreases n,
{
    if n < 10 {
        seq![digit_char(n)]
    } else {
        decimal(n / 10).push(digit_char(n % 10))
    }
}

pub open spec fn digit_char(d: nat) -> char {
    (('0' as nat) + d) as char
}

/// The decimal representation of `n`, as `u64::to_string` writes it.
pub fn decimal_chars(n: u64) -> (res: Vec<char>)
    ensures
        res@ == decimal(n as nat),
    decreases n,
{
    let d = n % 10;
    let c = char_of_digit(d);
    if n < 10 {
        let mut v: Vec<char> = Vec::new();
        v.push(c);
        assert(v@ =~= seq![digit_char(n as nat)]);
        v
    } else {
        let mut v = decimal_chars(n / 10);
        v.push(c);
        v
    }
}

fn char_of_digit(d: u64) -> (c: char)
    requires
        d < 10,
    ensures
        c == digit_char(d as nat),
{
    if d == 0 { '0' }
    else if d == 1 { '1' }
    else if d == 2 { '2' }
    else if d == 3 { '3' }
    else if d == 4 { '4' }
    else if d == 5 { '5' }
    else if d == 6 { '6' }
    else if d == 7 { '7' }
    else if d == 8 { '8' }
    else { '9' }
}

} // verus!

verus! {

// ── Search and replacement ────────────────────────────────────────────────────

/// `p` occurs in `s` starting at index `i`.
pub open spec fn occurs_at(s: Seq<char>, p: Seq<char>, i: int) -> bool {
    0 <= i && i + p.len() <= s.len() && s.subrange(i, i + p.len()) == p
}

pub open spec fn contains(s: Seq<char>, p: Seq<char>) -> bool {
    exists|i: int| occurs_at(s, p, i)
}

/// What `str::replace` gives for a non-empty pattern: the leftmost
/// occurrences, none overlapping another, each replaced by `r`.
pub open spec fn replace_all(s: Seq<char>, p: Seq<char>, r: Seq<char>) -> Seq<char>
    decreases s.len(),
{
    if p.len() == 0 || s.len() < p.len() {
        s
    } else if s.take(p.len() as int) == p {
        r + replace_all(s.skip(p.len() as int), p, r)
    } else {
        seq![s[0]] + replace_all(s.skip(1), p, r)
    }
}

/// How often `c` occurs in `s`.
pub open spec fn count_char(s: Seq<char>, c: char) -> nat
    decreases s.len(),
{
    if s.len() == 0 {
        0
    } else {
        count_char(s.drop_last(), c) + if s.last() == c { 1nat } else { 0nat }
    }
}

pub proof fn lemma_count_char_concat(a: Seq<char>, b: Seq<char>, c: char)
    ensures
        count_char(a + b, c) == count_char(a, c) + count_char(b, c),
    decreases b.len(),
{
    if b.len() == 0 {
        assert(a + b == a);
    } else {
        lemma_count_char_concat(a, b.drop_last(), c);
        assert((a + b).drop_last() == a + b.drop_last());
    }
}

/// Whether `p` occurs in `s` at `i`, checked character by character.
fn matches_at(s: &Vec<char>, p: &Vec<char>, i: usize) -> (r: bool)
    ensures
        r == occurs_at(s@, p@, i as int),
{
    if i > s.len() || p.len() > s.len() - i {
        return false;
    }
    let mut k: usize = 0;
    while k < p.len()
        invariant
            i + p.len() <= s.len(),
            k <= p.len(),
            forall|j: int| 0 <= j < k ==> s@[i + j] == p@[j],
        decreases p.len() - k,
    {
        if s[i + k] != p[k] {
            assert(s@.subrange(i as int, i + p.len())[k as int] != p@[k as int]);
            return false;
        }
        k = k + 1;
    }
    assert(s@.subrange(i as int, i + p.len()) =~= p@);
    true
}

/// The first index at or after `from` where `p` occurs in `s`.
pub fn find_from(s: &Vec<char>, p: &Vec<char>, from: usize) -> (res: Option<usize>)
    ensures
        match res {
            Some(i) => from <= i && occurs_at(s@, p@, i as int)
                && forall|j: int| from <= j < i ==> !occurs_at(s@, p@, j),
            None => forall|j: int| from <= j ==> !occurs_at(s@, p@, j),
        },
{
    if from > s.len() {
        return None;
    }
    let mut i = from;
    while i < s.len()
        invariant
            from <= i <= s.len(),
            forall|j: int| from <= j < i ==> !occurs_at(s@, p@, j),
        decreases s.len() - i,
    {
        if matches_at(s, p, i) {
            return Some(i);
        }
        i = i + 1;
    }
    if matches_at(s, p, i) {
        return Some(i);
    }
    None
}

/// Whether `p` occurs in `s`.
pub fn contains_chars(s: &Vec<char>, p: &Vec<char>) -> (r: bool)
    ensures
        r == contains(s@, p@),
{
    match find_from(s, p, 0) {
        Some(i) => true,
        None => {
            assert forall|j: int| !occurs_at(s@, p@, j) by {
                if 0 <= j {
                }
            }
            false
        }
    }
}

/// Replaces every occurrence of the non-empty pattern `p`, as `str::replace`
/// does.
pub fn replace_all_chars(s: &Vec<char>, p: &Vec<char>, r: &Vec<char>) -> (res: Vec<char>)
    requires
        p.len() > 0,
    ensures
        res@ == replace_all(s@, p@, r@),
{
    let mut res: Vec<char> = Vec::new();
    let mut i: usize = 0;
    assert(s@.skip(0) == s@);
    while i < s.len()
        invariant
            i <= s.len(),
            p.len() > 0,
            res@ + replace_all(s@.skip(i as int), p@, r@) == replace_all(s@, p@, r@),
        decreases s.len() - i,
    {
        let ghost rest = s@.skip(i as int);
        if matches_at(s, p, i) {
            assert(rest.take(p.len() as int) == s@.subrange(i as int, i + p.len()));
            assert(rest.skip(p.len() as int) == s@.skip(i + p.len()));
            let ghost before = res@;
            let mut k: usize = 0;
            while k < r.len()
                invariant
                    k <= r.len(),
                    res@ == before + r@.take(k as int),
                decreases r.len() - k,
            {
                res.push(r[k]);
                k = k + 1;
                assert(res@ =~= before + r@.take(k as int));
            }
            assert(r@.take(r.len() as int) == r@);
            assert(before + (r@ + replace_all(s@.skip(i + p.len()), p@, r@))
                == (before + r@) + replace_all(s@.skip(i + p.len()), p@, r@));
            i = i + p.len();
        } else {
            proof {
                if rest.len() >= p@.len() {
                    assert(rest.take(p.len() as int) == s@.subrange(i as int, i + p.len()));
                }
            }
            assert(rest.skip(1) == s@.skip(i + 1));
            let ghost before = res@;
            res.push(s[i]);
            assert(before + (seq![s@[i as int]] + replace_all(s@.skip(i + 1), p@, r@))
                == before.push(s@[i as int]) + replace_all(s@.skip(i + 1), p@, r@));
            i = i + 1;
        }
    }
    assert(s@.skip(i as int).len() == 0);
    assert(res@ + s@.skip(i as int) == res@);
    res
}

} // verus!

verus! {

/// The first index at or after `from` where `p` occurs in `s`.
pub open spec fn first_from(s: Seq<char>, p: Seq<char>, from: int) -> Option<int>
    decreases s.len() + 1 - from,
{
    if from < 0 || from > s.len() {
        None
    } else if occurs_at(s, p, from) {
        Some(from)
    } else {
        first_from(s, p, from + 1)
    }
}

pub proof fn lemma_first_from_found(s: Seq<char>, p: Seq<char>, from: int, i: int)
    requires
        0 <= from <= i,
        occurs_at(s, p, i),
        forall|j: int| from <= j < i ==> !occurs_at(s, p, j),
    ensures
        first_from(s, p, from) == Some(i),
    decreases i - from,
{
    if from < i {
        lemma_first_from_found(s, p, from + 1, i);
    }
}

pub proof fn lemma_first_from_absent(s: Seq<char>, p: Seq<char>, from: int)
    requires
        0 <= from,
        forall|j: int| from <= j ==> !occurs_at(s, p, j),
    ensures
        first_from(s, p, from) is None,
    decreases s.len() + 1 - from,
{
    if from <= s.len() {
        lemma_first_from_absent(s, p, from + 1);
    }
}

/// `find_from`, stated through `first_from`.
pub fn find_first(s: &Vec<char>, p: &Vec<char>, from: usize) -> (res: Option<usize>)
    ensures
        match res {
            Some(i) => first_from(s@, p@, from as int) == Some(i as int),
            None => first_from(s@, p@, from as int) is None,
        },
        res matches Some(i) ==> occurs_at(s@, p@, i as int),
{
    let r = find_from(s, p, from);
    proof {
        match r {
            Some(i) => lemma_first_from_found(s@, p@, from as int, i as int),
            None => lemma_first_from_absent(s@, p@, from as int),
        }
    }
    r
}

pub proof fn lemma_decimal_digits(n: nat)
    ensures
        forall|i: int| 0 <= i < decimal(n).len() ==> is_digit(#[trigger] decimal(n)[i]),
        decimal(n).len() > 0,
    decreases n,
{
    if n >= 10 {
        lemma_decimal_digits(n / 10);
    }
}

pub proof fn lemma_no_char_count(s: Seq<char>, c: char)
    requires
        forall|i: int| 0 <= i < s.len() ==> s[i] != c,
    ensures
        count_char(s, c) == 0,
    decreases s.len(),
{
    if s.len() > 0 {
        lemma_no_char_count(s.drop_last(), c);
    }
}

/// Appends the characters of `b` to `a`.
pub fn append_chars(a: &mut Vec<char>, b: &Vec<char>)
    ensures
        final(a)@ == old(a)@ + b@,
{
    let ghost start = a@;
    let mut k: usize = 0;
    while k < b.len()
        invariant
            k <= b.len(),
            a@ == start + b@.take(k as int),
        decreases b.len() - k,
    {
        a.push(b[k]);
        k = k + 1;
        assert(a@ =~= start + b@.take(k as int));
    }
    assert(b@.take(b.len() as int) == b@);
}

} // verus!

verus! {

/// Replacing a pattern that does not occur changes nothing.
pub proof fn lemma_replace_absent(s: Seq<char>, p: Seq<char>, r: Seq<char>)
    requires
        !contains(s, p),
    ensures
        replace_all(s, p, r) == s,
    decreases s.len(),
{
    if p.len() > 0 && s.len() >= p.len() {
        assert(!occurs_at(s, p, 0));
        assert(s.subrange(0, p.len() as int) == s.take(p.len() as int));
        let t = s.skip(1);
        assert forall|i: int| !occurs_at(t, p, i) by {
            if occurs_at(t, p, i) {
                assert(t.subrange(i, i + p.len()) =~= s.subrange(i + 1, i + 1 + p.len()));
                assert(occurs_at(s, p, i + 1));
            }
        }
        lemma_replace_absent(t, p, r);
        assert(seq![s[0]] + t =~= s);
    }
}

/// A pattern that begins with `c` does not occur in a text without `c`.
pub proof fn lemma_absent_first_char(s: Seq<char>, p: Seq<char>, c: char)
    requires
        p.len() > 0,
        p[0] == c,
        forall|i: int| 0 <= i < s.len() ==> s[i] != c,
    ensures
        !contains(s, p),
{
    assert forall|i: int| !occurs_at(s, p, i) by {
        if occurs_at(s, p, i) {
            assert(s.subrange(i, i + p.len())[0] == s[i]);
        }
    }
}

} // verus!

verus! {

/// A `String` with the characters of `s`.
pub fn owned(s: &str) -> (r: String)
    ensures
        r@ == s@,
{
    let v = chars_of(s);
    string_from_chars(&v)
}

} // verus!

verus! {

// ── Brace tokens under replacement ───────────────────────────────────────────

/// A token such as `{date}`: an opening brace, then no other.
pub open spec fn brace_token(t: Seq<char>) -> bool {
    &&& t.len() >= 2
    &&& t[0] == '{'
    &&& forall|j: int| 1 <= j < t.len() ==> #[trigger] t[j] != '{'
}

pub open spec fn no_brace(s: Seq<char>) -> bool {
    forall|i: int| 0 <= i < s.len() ==> #[trigger] s[i] != '{'
}

/// Two tokens that cannot occur at the same place: they differ somewhere in
/// their common length.
pub open spec fn clash_free(p: Seq<char>, t: Seq<char>) -> bool {
    exists|j: int| 0 <= j < p.len() && j < t.len() && #[trigger] p[j] != t[j]
}

/// One of the tokens `ts` occurs at `i`.
pub open spec fn starts_one_of(s: Seq<char>, i: int, ts: Seq<Seq<char>>) -> bool {
    exists|k: int| 0 <= k < ts.len() && #[trigger] occurs_at(s, ts[k], i)
}

/// Every opening brace of `s` begins one of the tokens `ts`.
pub open spec fn only_tokens(s: Seq<char>, ts: Seq<Seq<char>>) -> bool {
    forall|i: int| 0 <= i < s.len() && #[trigger] s[i] == '{' ==> starts_one_of(s, i, ts)
}

proof fn lemma_occurs_shift(a: Seq<char>, b: Seq<char>, t: Seq<char>, j: int)
    requires
        occurs_at(b, t, j),
    ensures
        occurs_at(a + b, t, a.len() + j),
{
    assert((a + b).subrange(a.len() + j, a.len() + j + t.len()) =~= b.subrange(j, j + t.len()));
}

proof fn lemma_occurs_skip(s: Seq<char>, t: Seq<char>, n: int, i: int)
    requires
        0 <= n <= s.len(),
        n <= i,
        occurs_at(s, t, i),
    ensures
        occurs_at(s.skip(n), t, i - n),
{
    assert(s.skip(n).subrange(i - n, i - n + t.len()) =~= s.subrange(i, i + t.len()));
}

/// Replacing a brace token leaves a brace-free prefix as it is.
proof fn lemma_replace_keeps_prefix(u: Seq<char>, p: Seq<char>, r: Seq<char>, k: int)
    requires
        p.len() > 0,
        p[0] == '{',
        0 <= k <= u.len(),
        forall|i: int| 0 <= i < k ==> #[trigger] u[i] != '{',
    ensures
        replace_all(u, p, r).len() >= k,
        replace_all(u, p, r).take(k) == u.take(k),
    decreases u.len(),
{
    if u.len() < p.len() {
    } else if u.take(p.len() as int) == p {
        assert(u[0] == u.take(p.len() as int)[0]);
        assert(k == 0);
        assert(replace_all(u, p, r).take(0) =~= u.take(0));
    } else if k > 0 {
        let t = u.skip(1);
        assert forall|i: int| 0 <= i < k - 1 implies #[trigger] t[i] != '{' by {
            assert(t[i] == u[i + 1]);
        }
        lemma_replace_keeps_prefix(t, p, r, k - 1);
        let out = replace_all(u, p, r);
        assert(out == seq![u[0]] + replace_all(t, p, r));
        assert(out.take(k) =~= seq![u[0]] + replace_all(t, p, r).take(k - 1));
        assert(u.take(k) =~= seq![u[0]] + t.take(k - 1));
    } else {
        assert(replace_all(u, p, r).take(0) =~= u.take(0));
    }
}

/// A token at `0` of `s` that differs from `p` survives the replacement of
/// `p` in place.
proof fn lemma_token_at_front_kept(s: Seq<char>, p: Seq<char>, r: Seq<char>, q: Seq<char>)
    requires
        brace_token(p),
        brace_token(q),
        occurs_at(s, q, 0),
        s.len() >= p.len(),
        s.take(p.len() as int) != p,
    ensures
        occurs_at(replace_all(s, p, r), q, 0),
{
    let u = s.skip(1);
    assert forall|i: int| 0 <= i < q.len() - 1 implies #[trigger] u[i] != '{' by {
        assert(u[i] == s.subrange(0, q.len() as int)[i + 1]);
        assert(q[i + 1] != '{');
    }
    lemma_replace_keeps_prefix(u, p, r, q.len() - 1);
    let out = replace_all(s, p, r);
    assert(out == seq![s[0]] + replace_all(u, p, r));
    assert(out.subrange(0, q.len() as int) =~= seq![s[0]] + replace_all(u, p, r).take(q.len() - 1));
    assert(s.subrange(0, q.len() as int) =~= seq![s[0]] + u.take(q.len() - 1));
}

/// Replacing `p` keeps every occurrence of another brace token `q`.
pub proof fn lemma_replace_keeps_token(s: Seq<char>, p: Seq<char>, r: Seq<char>, q: Seq<char>, i: int)
    requires
        brace_token(p),
        brace_token(q),
        clash_free(p, q),
        occurs_at(s, q, i),
    ensures
        contains(replace_all(s, p, r), q),
    decreases s.len(),
{
    if s.len() < p.len() {
        assert(occurs_at(replace_all(s, p, r), q, i));
    } else if s.take(p.len() as int) == p {
        let n = p.len() as int;
        if i == 0 {
            let j = choose|j: int| 0 <= j < p.len() && j < q.len() && #[trigger] p[j] != q[j];
            assert(s.take(n)[j] == s.subrange(0, q.len() as int)[j]);
            assert(false);
        } else if i < n {
            assert(s.take(n)[i] == s.subrange(i, i + q.len())[0]);
            assert(false);
        }
        lemma_occurs_skip(s, q, n, i);
        lemma_replace_keeps_token(s.skip(n), p, r, q, i - n);
        let rest = replace_all(s.skip(n), p, r);
        let w = choose|w: int| occurs_at(rest, q, w);
        lemma_occurs_shift(r, rest, q, w);
    } else if i == 0 {
        lemma_token_at_front_kept(s, p, r, q);
    } else {
        lemma_occurs_skip(s, q, 1, i);
        lemma_replace_keeps_token(s.skip(1), p, r, q, i - 1);
        let rest = replace_all(s.skip(1), p, r);
        let w = choose|w: int| occurs_at(rest, q, w);
        lemma_occurs_shift(seq![s[0]], rest, q, w);
    }
}

/// Replacing the token `p` by brace-free text, in a text whose braces all
/// begin `p` or one of `ts`, leaves a text whose braces all begin one of `ts`.
pub proof fn lemma_replace_only_tokens(s: Seq<char>, p: Seq<char>, r: Seq<char>, ts: Seq<Seq<char>>)
    requires
        brace_token(p),
        no_brace(r),
        forall|k: int| 0 <= k < ts.len() ==> brace_token(#[trigger] ts[k]) && clash_free(p, ts[k]),
        only_tokens(s, ts.push(p)),
    ensures
        only_tokens(replace_all(s, p, r), ts),
    decreases s.len(),
{
    let all = ts.push(p);
    let out = replace_all(s, p, r);
    if s.len() < p.len() {
        assert forall|i: int| 0 <= i < out.len() && #[trigger] out[i] == '{' implies starts_one_of(out, i, ts) by {
            let k = choose|k: int| 0 <= k < all.len() && #[trigger] occurs_at(s, all[k], i);
            if k == ts.len() {
                assert(false);
            }
            assert(occurs_at(out, ts[k], i));
        }
    } else if s.take(p.len() as int) == p {
        let n = p.len() as int;
        let t = s.skip(n);
        assert forall|i: int| 0 <= i < t.len() && #[trigger] t[i] == '{' implies starts_one_of(t, i, all) by {
            assert(s[i + n] == t[i]);
            let k = choose|k: int| 0 <= k < all.len() && #[trigger] occurs_at(s, all[k], i + n);
            lemma_occurs_skip(s, all[k], n, i + n);
        }
        lemma_replace_only_tokens(t, p, r, ts);
        let rest = replace_all(t, p, r);
        assert(out == r + rest);
        assert forall|i: int| 0 <= i < out.len() && #[trigger] out[i] == '{' implies starts_one_of(out, i, ts) by {
            if i < r.len() {
                assert(out[i] == r[i]);
            } else {
                assert(out[i] == rest[i - r.len()]);
                let k = choose|k: int| 0 <= k < ts.len() && #[trigger] occurs_at(rest, ts[k], i - r.len());
                lemma_occurs_shift(r, rest, ts[k], i - r.len());
            }
        }
    } else {
        let t = s.skip(1);
        assert forall|i: int| 0 <= i < t.len() && #[trigger] t[i] == '{' implies starts_one_of(t, i, all) by {
            assert(s[i + 1] == t[i]);
            let k = choose|k: int| 0 <= k < all.len() && #[trigger] occurs_at(s, all[k], i + 1);
            lemma_occurs_skip(s, all[k], 1, i + 1);
        }
        lemma_replace_only_tokens(t, p, r, ts);
        let rest = replace_all(t, p, r);
        assert(out == seq![s[0]] + rest);
        assert forall|i: int| 0 <= i < out.len() && #[trigger] out[i] == '{' implies starts_one_of(out, i, ts) by {
            if i == 0 {
                let k = choose|k: int| 0 <= k < all.len() && #[trigger] occurs_at(s, all[k], 0);
                if k == ts.len() {
                    assert(s.subrange(0, p.len() as int) == s.take(p.len() as int));
                    assert(false);
                }
                lemma_token_at_front_kept(s, p, r, ts[k]);
            } else {
                assert(out[i] == rest[i - 1]);
                let k = choose|k: int| 0 <= k < ts.len() && #[trigger] occurs_at(rest, ts[k], i - 1);
                lemma_occurs_shift(seq![s[0]], rest, ts[k], i - 1);
            }
        }
    }
}

} // verus!
