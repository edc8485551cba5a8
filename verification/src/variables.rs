//! `{variable}` substitution in typed text: date and time, counters, the
//! clipboard and variables that the user defines.
use vstd::prelude::*;
use crate::assoc::{keys_distinct, assoc_map, lemma_assoc_update, lemma_assoc_push, lemma_assoc_remove, lemma_assoc_map, assoc_position};
use crate::text::{
    is_digit, brace_token, no_brace, clash_free, only_tokens, starts_one_of, lemma_replace_only_tokens, lemma_replace_keeps_token,
    chars_of, string_from_chars, contains, contains_chars, replace_all, replace_all_chars, first_from,
    find_first, occurs_at, count_char, lemma_first_from_absent, lemma_count_char_concat, decimal, decimal_chars, lemma_decimal_digits,
    lemma_no_char_count, append_chars, slice_chars, lemma_replace_absent, lemma_absent_first_char,
};

verus! {

pub open spec fn date_token() -> Seq<char> { seq!['{', 'd', 'a', 't', 'e', '}'] }
pub open spec fn time_token() -> Seq<char> { seq!['{', 't', 'i', 'm', 'e', '}'] }
pub open spec fn datetime_token() -> Seq<char> { seq!['{', 'd', 'a', 't', 'e', 't', 'i', 'm', 'e', '}'] }
pub open spec fn counter_token() -> Seq<char> { seq!['{', 'c', 'o', 'u', 'n', 't', 'e', 'r', '}'] }
pub open spec fn counter_prefix() -> Seq<char> { seq!['{', 'c', 'o', 'u', 'n', 't', 'e', 'r', ':'] }
pub open spec fn clipboard_token() -> Seq<char> { seq!['{', 'c', 'l', 'i', 'p', 'b', 'o', 'a', 'r', 'd', '}'] }
pub open spec fn closing_brace() -> Seq<char> { seq!['}'] }
/// The name under which `{counter}` counts.
pub open spec fn default_counter() -> Seq<char> {
    seq!['_', '_', 'd', 'e', 'f', 'a', 'u', 'l', 't', '_', '_']
}

/// `{name}`
pub open spec fn braced(name: Seq<char>) -> Seq<char> {
    seq!['{'] + name + seq!['}']
}

/// A counter's next value (a counter wraps around to zero after the largest `u64`).
pub open spec fn next_count(x: u64) -> u64 {
    if x == u64::MAX { 0 } else { (x + 1) as u64 }
}

/// The value a counter takes when it is bumped: one more than before, a
/// counter that was never used or reset starting from zero.
pub open spec fn bumped(counters: Map<Seq<char>, u64>, name: Seq<char>) -> u64 {
    next_count(if counters.contains_key(name) { counters[name] } else { 0 })
}

/// Replaces, from left to right, each `{counter:NAME}` (up to the first `}`
/// after it) by the bumped value of counter NAME; a `{counter:` without a
/// closing brace after it ends the replacement.
pub open spec fn named_counters(s: Seq<char>, counters: Map<Seq<char>, u64>) -> (Seq<char>, Map<Seq<char>, u64>)
    decreases count_char(s, '{'),
{
    match first_from(s, counter_prefix(), 0) {
        None => (s, counters),
        Some(a) => match first_from(s, closing_brace(), a) {
            None => (s, counters),
            Some(b) => {
                let name = s.subrange(a + 9, b);
                let v = bumped(counters, name);
                let s2 = s.take(a) + decimal(v as nat) + s.skip(b + 1);
                proof {
                    lemma_splice_fewer_braces(s, a, b, v);
                }
                named_counters(s2, counters.insert(name, v))
            }
        },
    }
}

pub proof fn lemma_first_from_bounds(s: Seq<char>, p: Seq<char>, from: int)
    ensures
        first_from(s, p, from) matches Some(i) ==> from <= i && occurs_at(s, p, i),
    decreases s.len() + 1 - from,
{
    if 0 <= from <= s.len() && !occurs_at(s, p, from) {
        lemma_first_from_bounds(s, p, from + 1);
    }
}

/// Replacing `{counter:...}` at `a..=b` by digits removes at least one `{`.
pub proof fn lemma_splice_fewer_braces(s: Seq<char>, a: int, b: int, v: u64)
    requires
        first_from(s, counter_prefix(), 0) == Some(a),
        first_from(s, closing_brace(), a) == Some(b),
    ensures
        count_char(s.take(a) + decimal(v as nat) + s.skip(b + 1), '{') < count_char(s, '{'),
{
    lemma_first_from_bounds(s, counter_prefix(), 0);
    lemma_first_from_bounds(s, closing_brace(), a);
    assert(s.subrange(a, a + 9) == counter_prefix());
    assert(s[a] == '{') by {
        assert(s.subrange(a, a + 9)[0] == s[a]);
    }
    lemma_decimal_digits(v as nat);
    lemma_no_char_count(decimal(v as nat), '{');
    let mid = s.subrange(a, b + 1);
    assert(s == s.take(a) + mid + s.skip(b + 1));
    lemma_count_char_concat(s.take(a) + mid, s.skip(b + 1), '{');
    lemma_count_char_concat(s.take(a), mid, '{');
    lemma_count_char_concat(s.take(a) + decimal(v as nat), s.skip(b + 1), '{');
    lemma_count_char_concat(s.take(a), decimal(v as nat), '{');
    assert(mid == seq![s[a]] + mid.skip(1));
    lemma_count_char_concat(seq![s[a]], mid.skip(1), '{');
    assert(seq![s[a]].drop_last() == Seq::<char>::empty());
}

/// Replaces each user variable, in the order given, by its value.
pub open spec fn replace_vars(s: Seq<char>, vars: Seq<(String, String)>) -> Seq<char>
    decreases vars.len(),
{
    if vars.len() == 0 {
        s
    } else {
        replace_vars(replace_all(s, braced(vars[0].0@), vars[0].1@), vars.skip(1))
    }
}

/// The text that substitution produces, and the counters after it:
/// `{date}`, `{time}`, `{datetime}` by the strings given; `{counter}` by the
/// bumped default counter (bumped once, whatever the number of occurrences);
/// each `{counter:NAME}` by the bumped counter NAME; `{clipboard}` by the
/// clipboard text; then each user variable `{NAME}` by its value.
pub open spec fn substitution(
    text: Seq<char>,
    date: Seq<char>,
    time: Seq<char>,
    datetime: Seq<char>,
    clipboard: Seq<char>,
    counters: Map<Seq<char>, u64>,
    vars: Seq<(String, String)>,
) -> (Seq<char>, Map<Seq<char>, u64>) {
    let s1 = replace_all(replace_all(replace_all(text, date_token(), date), time_token(), time), datetime_token(), datetime);
    let (s2, c2) = if contains(s1, counter_token()) {
        let v = bumped(counters, default_counter());
        (replace_all(s1, counter_token(), decimal(v as nat)), counters.insert(default_counter(), v))
    } else {
        (s1, counters)
    };
    let (s3, c3) = named_counters(s2, c2);
    let s4 = if contains(s3, clipboard_token()) { replace_all(s3, clipboard_token(), clipboard) } else { s3 };
    (replace_vars(s4, vars), c3)
}

fn literal(s: &str) -> (res: Vec<char>)
    ensures
        res@ == s@,
{
    chars_of(s)
}

fn to_owned_string(s: &str) -> (res: String)
    ensures
        res@ == s@,
{
    let v = chars_of(s);
    string_from_chars(&v)
}

/// Counters and user variables that substitution reads and updates.
///
/// Both are kept as lists of (name, value) pairs with distinct names rather
/// than as hash maps: Verus gives a `HashMap` with `String` keys no usable
/// contract for lookups and updates, whereas these lists are proved to act
/// as maps (`counters`, `vars`). The variables are substituted in the order
/// in which they were first set.
pub struct VariableStore {
    counters: Vec<(String, u64)>,
    vars: Vec<(String, String)>,
}

impl VariableStore {
    #[verifier::type_invariant]
    spec fn well_formed(self) -> bool {
        keys_distinct(self.counters@) && keys_distinct(self.vars@)
    }

    /// The counters, by name.
    pub closed spec fn counters(self) -> Map<Seq<char>, u64> {
        assoc_map(self.counters@)
    }

    /// The user variables, in the order in which they were first set.
    pub closed spec fn var_list(self) -> Seq<(String, String)> {
        self.vars@
    }

    /// The user variables, by name.
    pub open spec fn vars(self) -> Map<Seq<char>, String> {
        assoc_map(self.var_list())
    }

    pub fn new() -> (r: VariableStore)
        ensures
            r.counters() == Map::<Seq<char>, u64>::empty(),
            r.var_list() == Seq::<(String, String)>::empty(),
    {
        VariableStore { counters: Vec::new(), vars: Vec::new() }
    }

    fn set_counter(&mut self, name: &str, value: u64)
        ensures
            final(self).counters() == old(self).counters().insert(name@, value),
            final(self).var_list() == old(self).var_list(),
    {
        proof { use_type_invariant(&*self); }
        let i = assoc_position(&self.counters, name);
        if i < self.counters.len() {
            proof { lemma_assoc_update(self.counters@, i as int, value); }
            let key = self.counters[i].0.clone();
            let mut counters: Vec<(String, u64)> = Vec::new();
            std::mem::swap(&mut counters, &mut self.counters);
            counters.set(i, (key, value));
            self.counters = counters;
        } else {
            let key = to_owned_string(name);
            proof { lemma_assoc_push(self.counters@, key, value); }
            let mut counters: Vec<(String, u64)> = Vec::new();
            std::mem::swap(&mut counters, &mut self.counters);
            counters.push((key, value));
            self.counters = counters;
        }
    }

    /// The current value of a counter (zero for one never used).
    pub fn counter(&self, name: &str) -> (v: u64)
        ensures
            v == (if self.counters().contains_key(name@) { self.counters()[name@] } else { 0 }),
    {
        proof {
            use_type_invariant(self);
            lemma_assoc_map(self.counters@);
        }
        let i = assoc_position(&self.counters, name);
        if i < self.counters.len() {
            self.counters[i].1
        } else {
            0
        }
    }

    /// Advances a counter and returns its new value.
    pub fn bump_counter(&mut self, name: &str) -> (v: u64)
        ensures
            v == bumped(old(self).counters(), name@),
            final(self).counters() == old(self).counters().insert(name@, v),
            final(self).var_list() == old(self).var_list(),
    {
        let cur = self.counter(name);
        let v = cur.wrapping_add(1);
        self.set_counter(name, v);
        v
    }

    /// Sets a counter back to zero; without a name, the default counter.
    pub fn reset_counter(&mut self, name: Option<String>)
        ensures
            final(self).counters() == old(self).counters().insert(
                match name {
                    Some(n) => n@,
                    None => default_counter(),
                },
                0,
            ),
            final(self).var_list() == old(self).var_list(),
    {
        let key = match name {
            Some(n) => n,
            None => {
                let s = to_owned_string("__default__");
                proof {
                    reveal_strlit("__default__");
                    assert(s@ =~= default_counter());
                }
                s
            },
        };
        self.set_counter(key.as_str(), 0);
    }

    /// Sets a user variable; a new name goes after the existing ones.
    pub fn set_variable(&mut self, name: String, value: String)
        ensures
            final(self).vars() == old(self).vars().insert(name@, value),
            final(self).counters() == old(self).counters(),
    {
        proof { use_type_invariant(&*self); }
        let i = assoc_position(&self.vars, name.as_str());
        if i < self.vars.len() {
            proof { lemma_assoc_update(self.vars@, i as int, value); }
            let key = self.vars[i].0.clone();
            let mut vars: Vec<(String, String)> = Vec::new();
            std::mem::swap(&mut vars, &mut self.vars);
            vars.set(i, (key, value));
            self.vars = vars;
        } else {
            proof { lemma_assoc_push(self.vars@, name, value); }
            let mut vars: Vec<(String, String)> = Vec::new();
            std::mem::swap(&mut vars, &mut self.vars);
            vars.push((name, value));
            self.vars = vars;
        }
    }

    /// Removes a user variable, if it is set.
    pub fn delete_variable(&mut self, name: &str)
        ensures
            final(self).vars() == old(self).vars().remove(name@),
            final(self).counters() == old(self).counters(),
    {
        proof { use_type_invariant(&*self); }
        let i = assoc_position(&self.vars, name);
        if i < self.vars.len() {
            proof { lemma_assoc_remove(self.vars@, i as int); }
            let mut vars: Vec<(String, String)> = Vec::new();
            std::mem::swap(&mut vars, &mut self.vars);
            vars.remove(i);
            self.vars = vars;
        } else {
            proof {
                lemma_assoc_map(self.vars@);
                assert(self.vars() =~= self.vars().remove(name@));
            }
        }
    }
}

} // verus!

verus! {

impl VariableStore {
    /// Replaces the `{counter:NAME}` tokens, bumping each named counter once
    /// per token.
    pub fn replace_named_counters(&mut self, s: Vec<char>) -> (res: Vec<char>)
        ensures
            (res@, final(self).counters()) == named_counters(s@, old(self).counters()),
            final(self).var_list() == old(self).var_list(),
    {
        let prefix = literal("{counter:");
        let close = literal("}");
        proof {
            reveal_strlit("{counter:");
            reveal_strlit("}");
            assert(prefix@ =~= counter_prefix());
            assert(close@ =~= closing_brace());
        }
        let ghost goal = named_counters(s@, self.counters());
        let ghost vars0 = self.var_list();
        let mut s = s;
        loop
            invariant
                prefix@ == counter_prefix(),
                close@ == closing_brace(),
                named_counters(s@, self.counters()) == goal,
                self.var_list() == vars0,
            ensures
                goal == (s@, self.counters()),
                self.var_list() == vars0,
            decreases count_char(s@, '{'),
        {
            let a = match find_first(&s, &prefix, 0) {
                Some(a) => a,
                None => break,
            };
            let b = match find_first(&s, &close, a) {
                Some(b) => b,
                None => break,
            };
            proof {
                lemma_first_from_bounds(s@, close@, a as int);
                if b < a + 9 {
                    assert(s@.subrange(a as int, a + 9)[b - a] == s@[b as int]);
                    assert(s@.subrange(b as int, b + 1)[0] == s@[b as int]);
                }
                lemma_splice_fewer_braces(s@, a as int, b as int, 0);
            }
            let name_chars = slice_chars(&s, a + 9, b);
            let name = string_from_chars(&name_chars);
            let v = self.bump_counter(name.as_str());
            let mut next = slice_chars(&s, 0, a);
            let digits = decimal_chars(v);
            append_chars(&mut next, &digits);
            let tail = slice_chars(&s, b + 1, s.len());
            append_chars(&mut next, &tail);
            proof {
                assert(next@ == s@.take(a as int) + decimal(v as nat) + s@.skip(b + 1));
                lemma_splice_fewer_braces(s@, a as int, b as int, v);
            }
            s = next;
        }
        s
    }

    /// Expands the `{variable}` tokens of `text`, given the current date, time
    /// and clipboard text, updating the counters it uses.
    pub fn substitute_with(
        &mut self,
        text: &str,
        date: &str,
        time: &str,
        datetime: &str,
        clipboard: &str,
    ) -> (res: String)
        ensures
            (res@, final(self).counters()) == substitution(
                text@, date@, time@, datetime@, clipboard@, old(self).counters(), old(self).var_list(),
            ),
            final(self).var_list() == old(self).var_list(),
    {
        let date_t = literal("{date}");
        let time_t = literal("{time}");
        let datetime_t = literal("{datetime}");
        let counter_t = literal("{counter}");
        let clipboard_t = literal("{clipboard}");
        let default_name = literal("__default__");
        proof {
            reveal_strlit("{date}");
            reveal_strlit("{time}");
            reveal_strlit("{datetime}");
            reveal_strlit("{counter}");
            reveal_strlit("{clipboard}");
            reveal_strlit("__default__");
            assert(date_t@ =~= date_token());
            assert(time_t@ =~= time_token());
            assert(datetime_t@ =~= datetime_token());
            assert(counter_t@ =~= counter_token());
            assert(clipboard_t@ =~= clipboard_token());
            assert(default_name@ =~= default_counter());
        }
        let mut result = chars_of(text);
        result = replace_all_chars(&result, &date_t, &chars_of(date));
        result = replace_all_chars(&result, &time_t, &chars_of(time));
        result = replace_all_chars(&result, &datetime_t, &chars_of(datetime));

        // {counter}: the default counter, bumped once.
        if contains_chars(&result, &counter_t) {
            let name = string_from_chars(&default_name);
            let val = self.bump_counter(name.as_str());
            result = replace_all_chars(&result, &counter_t, &decimal_chars(val));
        }

        // {counter:name}: named counters.
        result = self.replace_named_counters(result);

        // {clipboard}
        if contains_chars(&result, &clipboard_t) {
            result = replace_all_chars(&result, &clipboard_t, &chars_of(clipboard));
        }

        // User variables.
        proof { use_type_invariant(&*self); }
        let ghost s4 = result@;
        let mut i: usize = 0;
        assert(self.vars@.skip(0) == self.vars@);
        while i < self.vars.len()
            invariant
                i <= self.vars.len(),
                replace_vars(s4, self.vars@) == replace_vars(result@, self.vars@.skip(i as int)),
            decreases self.vars.len() - i,
        {
            let mut pattern = literal("{");
            proof { reveal_strlit("{"); }
            append_chars(&mut pattern, &chars_of(self.vars[i].0.as_str()));
            append_chars(&mut pattern, &literal("}"));
            proof {
                reveal_strlit("}");
                assert(pattern@ =~= braced(self.vars@[i as int].0@));
                assert(self.vars@.skip(i as int).skip(1) == self.vars@.skip(i + 1));
                assert(self.vars@.skip(i as int)[0] == self.vars@[i as int]);
            }
            result = replace_all_chars(&result, &pattern, &chars_of(self.vars[i].1.as_str()));
            i = i + 1;
        }
        proof {
            assert(self.vars@.skip(0) == self.vars@);
        }
        string_from_chars(&result)
    }
}

} // verus!

verus! {

/// What `%Y-%m-%d` writes: the year, at least four digits and signed when
/// outside 0 to 9999, then `-`, two digits of month, `-`, two digits of day.
pub open spec fn date_shape(s: Seq<char>) -> bool {
    let n = s.len() as int;
    &&& n >= 10
    &&& s[n - 6] == '-' && s[n - 3] == '-'
    &&& is_digit(s[n - 5]) && is_digit(s[n - 4]) && is_digit(s[n - 2]) && is_digit(s[n - 1])
    &&& forall|i: int| 0 <= i < n - 6 ==> is_digit(#[trigger] s[i]) || (i == 0 && (s[0] == '+' || s[0] == '-'))
    &&& is_digit(s[0]) ==> n == 10
}

/// What `%H:%M:%S` writes: two digits each of hour, minute and second,
/// separated by colons.
pub open spec fn time_shape(s: Seq<char>) -> bool {
    &&& s.len() == 8
    &&& s[2] == ':' && s[5] == ':'
    &&& is_digit(s[0]) && is_digit(s[1]) && is_digit(s[3]) && is_digit(s[4]) && is_digit(s[6]) && is_digit(s[7])
}

/// What `%Y-%m-%d %H:%M:%S` writes: a date, a space and a time.
pub open spec fn datetime_shape(s: Seq<char>) -> bool {
    let n = s.len() as int;
    &&& n >= 19
    &&& date_shape(s.take(n - 9))
    &&& s[n - 9] == ' '
    &&& time_shape(s.skip(n - 8))
}

/// The current local date or time, written by `chrono` with one of the
/// formats `%Y-%m-%d`, `%H:%M:%S` and `%Y-%m-%d %H:%M:%S`; which moment is
/// read is not stated, only the shape of what is written.
#[verifier::external_body]
fn local_now_formatted(format: &str) -> (r: String)
    requires
        format@ == "%Y-%m-%d"@ || format@ == "%H:%M:%S"@ || format@ == "%Y-%m-%d %H:%M:%S"@,
    ensures
        format@ == "%Y-%m-%d"@ ==> date_shape(r@),
        format@ == "%H:%M:%S"@ ==> time_shape(r@),
        format@ == "%Y-%m-%d %H:%M:%S"@ ==> datetime_shape(r@),
{
    chrono::Local::now().format(format).to_string()
}

fn now_date() -> (r: String)
    ensures
        date_shape(r@),
{
    let f = "%Y-%m-%d";
    proof { reveal_strlit("%Y-%m-%d"); reveal_strlit("%H:%M:%S"); reveal_strlit("%Y-%m-%d %H:%M:%S"); }
    local_now_formatted(f)
}

fn now_time() -> (r: String)
    ensures
        time_shape(r@),
{
    let f = "%H:%M:%S";
    proof { reveal_strlit("%Y-%m-%d"); reveal_strlit("%H:%M:%S"); reveal_strlit("%Y-%m-%d %H:%M:%S"); }
    local_now_formatted(f)
}

fn now_datetime() -> (r: String)
    ensures
        datetime_shape(r@),
{
    let f = "%Y-%m-%d %H:%M:%S";
    proof { reveal_strlit("%Y-%m-%d"); reveal_strlit("%H:%M:%S"); reveal_strlit("%Y-%m-%d %H:%M:%S"); }
    local_now_formatted(f)
}

/// The built-in variables that `get_variables` lists, before the user's.
pub open spec fn builtin_vars(date: Seq<char>, time: Seq<char>, datetime: Seq<char>, clipboard: Seq<char>) -> Map<Seq<char>, Seq<char>> {
    map![
        seq!['d', 'a', 't', 'e'] => date,
        seq!['t', 'i', 'm', 'e'] => time,
        seq!['d', 'a', 't', 'e', 't', 'i', 'm', 'e'] => datetime,
        seq!['c', 'l', 'i', 'p', 'b', 'o', 'a', 'r', 'd'] => clipboard
    ]
}

/// The values of a map of strings, as character sequences.
pub open spec fn string_values(m: Map<Seq<char>, String>) -> Map<Seq<char>, Seq<char>> {
    Map::new(|k: Seq<char>| m.contains_key(k), |k: Seq<char>| m[k]@)
}

impl VariableStore {
    /// Expands the `{variable}` tokens of `text` at the current local time;
    /// `clipboard` is the clipboard text.
    pub fn substitute(&mut self, text: &str, clipboard: &str) -> (res: String)
        ensures
            exists|date: Seq<char>, time: Seq<char>, datetime: Seq<char>|
                date_shape(date) && time_shape(time) && datetime_shape(datetime)
                && (res@, final(self).counters()) == substitution(
                    text@, date, time, datetime, clipboard@, old(self).counters(), old(self).var_list(),
                ),
            final(self).var_list() == old(self).var_list(),
    {
        let date = now_date();
        let time = now_time();
        let datetime = now_datetime();
        self.substitute_with(text, date.as_str(), time.as_str(), datetime.as_str(), clipboard)
    }

    /// What a text expands to now; counters it names advance, as they do
    /// when the text is typed.
    pub fn preview_variable(&mut self, text: String, clipboard: &str) -> (res: String)
        ensures
            exists|date: Seq<char>, time: Seq<char>, datetime: Seq<char>|
                date_shape(date) && time_shape(time) && datetime_shape(datetime)
                && (res@, final(self).counters()) == substitution(
                    text@, date, time, datetime, clipboard@, old(self).counters(), old(self).var_list(),
                ),
            final(self).var_list() == old(self).var_list(),
    {
        self.substitute(text.as_str(), clipboard)
    }

    /// The variables a text can use and their current values: date, time,
    /// datetime and clipboard, then the user's variables, which take
    /// precedence over a built-in one of the same name.
    pub fn get_variables_with(&self, date: &str, time: &str, datetime: &str, clipboard: &str) -> (res: Vec<(String, String)>)
        ensures
            keys_distinct(res@),
            string_values(assoc_map(res@)) == builtin_vars(date@, time@, datetime@, clipboard@).union_prefer_right(
                string_values(self.vars()),
            ),
    {
        proof { use_type_invariant(self); }
        let kd = to_owned_string("date");
        let kt = to_owned_string("time");
        let kdt = to_owned_string("datetime");
        let kc = to_owned_string("clipboard");
        proof {
            reveal_strlit("date");
            reveal_strlit("time");
            reveal_strlit("datetime");
            reveal_strlit("clipboard");
            assert(kd@ =~= seq!['d', 'a', 't', 'e']);
            assert(kt@ =~= seq!['t', 'i', 'm', 'e']);
            assert(kdt@ =~= seq!['d', 'a', 't', 'e', 't', 'i', 'm', 'e']);
            assert(kc@ =~= seq!['c', 'l', 'i', 'p', 'b', 'o', 'a', 'r', 'd']);
            assert(kd@ != kt@) by { assert(kd@[0] != kt@[0]); }
        }
        let mut res: Vec<(String, String)> = Vec::new();
        res.push((kd, to_owned_string(date)));
        res.push((kt, to_owned_string(time)));
        res.push((kdt, to_owned_string(datetime)));
        res.push((kc, to_owned_string(clipboard)));
        proof {
            assert(keys_distinct(res@));
            reveal_with_fuel(assoc_map, 5);
            assert(res@.drop_last().drop_last().drop_last().drop_last() =~= Seq::<(String, String)>::empty());
            assert(string_values(assoc_map(res@)) =~= builtin_vars(date@, time@, datetime@, clipboard@));
            assert(self.vars@.take(0) =~= Seq::<(String, String)>::empty());
            assert(string_values(assoc_map(self.vars@.take(0))) =~= Map::<Seq<char>, Seq<char>>::empty());
            assert(builtin_vars(date@, time@, datetime@, clipboard@).union_prefer_right(Map::empty())
                =~= builtin_vars(date@, time@, datetime@, clipboard@));
        }
        let mut i: usize = 0;
        while i < self.vars.len()
            invariant
                i <= self.vars.len(),
                keys_distinct(self.vars@),
                keys_distinct(res@),
                string_values(assoc_map(res@)) == builtin_vars(date@, time@, datetime@, clipboard@).union_prefer_right(
                    string_values(assoc_map(self.vars@.take(i as int))),
                ),
            decreases self.vars.len() - i,
        {
            let k = self.vars[i].0.clone();
            let v = self.vars[i].1.clone();
            let ghost before = res@;
            let j = assoc_position(&res, k.as_str());
            if j < res.len() {
                proof { lemma_assoc_update(res@, j as int, v); }
                let key = res[j].0.clone();
                res.set(j, (key, v));
            } else {
                proof { lemma_assoc_push(res@, k, v); }
                res.push((k, v));
            }
            proof {
                let t = self.vars@.take(i + 1);
                assert(t.drop_last() == self.vars@.take(i as int));
                assert(assoc_map(t) == assoc_map(self.vars@.take(i as int)).insert(self.vars@[i as int].0@, self.vars@[i as int].1));
                assert(assoc_map(res@) == assoc_map(before).insert(self.vars@[i as int].0@, self.vars@[i as int].1));
                let kk = self.vars@[i as int].0@;
                let vv = self.vars@[i as int].1@;
                assert(string_values(assoc_map(t)) =~= string_values(assoc_map(self.vars@.take(i as int))).insert(kk, vv));
                assert(string_values(assoc_map(res@)) =~= string_values(assoc_map(before)).insert(kk, vv));
                assert(string_values(assoc_map(res@)) =~= builtin_vars(date@, time@, datetime@, clipboard@).union_prefer_right(
                    string_values(assoc_map(t))));
            }
            i = i + 1;
        }
        proof {
            assert(self.vars@.take(self.vars@.len() as int) == self.vars@);
        }
        res
    }

    /// The variables a text can use now; `clipboard` is the clipboard text.
    pub fn get_variables(&self, clipboard: &str) -> (res: Vec<(String, String)>)
        ensures
            keys_distinct(res@),
            exists|date: Seq<char>, time: Seq<char>, datetime: Seq<char>|
                date_shape(date) && time_shape(time) && datetime_shape(datetime)
                && string_values(assoc_map(res@)) == builtin_vars(date, time, datetime, clipboard@).union_prefer_right(
                    string_values(self.vars()),
                ),
    {
        let date = now_date();
        let time = now_time();
        let datetime = now_datetime();
        self.get_variables_with(date.as_str(), time.as_str(), datetime.as_str(), clipboard)
    }
}

} // verus!

verus! {

proof fn lemma_vars_no_brace(s: Seq<char>, vars: Seq<(String, String)>)
    requires
        forall|i: int| 0 <= i < s.len() ==> s[i] != '{',
    ensures
        replace_vars(s, vars) == s,
    decreases vars.len(),
{
    if vars.len() > 0 {
        lemma_absent_first_char(s, braced(vars[0].0@), '{');
        lemma_replace_absent(s, braced(vars[0].0@), vars[0].1@);
        lemma_vars_no_brace(s, vars.skip(1));
    }
}

/// Text without a `{` passes through substitution unchanged, and no counter
/// moves.
pub proof fn law_plain_text_unchanged(
    text: Seq<char>,
    date: Seq<char>,
    time: Seq<char>,
    datetime: Seq<char>,
    clipboard: Seq<char>,
    counters: Map<Seq<char>, u64>,
    vars: Seq<(String, String)>,
)
    requires
        forall|i: int| 0 <= i < text.len() ==> text[i] != '{',
    ensures
        substitution(text, date, time, datetime, clipboard, counters, vars) == (text, counters),
{
    lemma_absent_first_char(text, date_token(), '{');
    lemma_replace_absent(text, date_token(), date);
    lemma_absent_first_char(text, time_token(), '{');
    lemma_replace_absent(text, time_token(), time);
    lemma_absent_first_char(text, datetime_token(), '{');
    lemma_replace_absent(text, datetime_token(), datetime);
    lemma_absent_first_char(text, counter_token(), '{');
    lemma_absent_first_char(text, counter_prefix(), '{');
    lemma_first_from_absent(text, counter_prefix(), 0);
    lemma_absent_first_char(text, clipboard_token(), '{');
    lemma_vars_no_brace(text, vars);
}

/// Bumping a counter twice yields consecutive values, and a counter that was
/// reset counts again from one.
pub proof fn law_counter_counts_up(counters: Map<Seq<char>, u64>, name: Seq<char>)
    ensures
        bumped(counters.insert(name, bumped(counters, name)), name) == next_count(bumped(counters, name)),
        bumped(counters.insert(name, 0), name) == 1,
{
}

/// The built-in tokens, in the order opposite to that in which substitution
/// replaces them.
pub open spec fn builtin_tokens() -> Seq<Seq<char>> {
    seq![clipboard_token(), counter_token(), datetime_token(), time_token(), date_token()]
}

proof fn lemma_builtin_tokens_shape()
    ensures
        brace_token(date_token()),
        brace_token(time_token()),
        brace_token(datetime_token()),
        brace_token(counter_token()),
        brace_token(clipboard_token()),
        clash_free(date_token(), clipboard_token()),
        clash_free(date_token(), counter_token()),
        clash_free(date_token(), datetime_token()),
        clash_free(date_token(), time_token()),
        clash_free(time_token(), clipboard_token()),
        clash_free(time_token(), counter_token()),
        clash_free(time_token(), datetime_token()),
        clash_free(datetime_token(), clipboard_token()),
        clash_free(datetime_token(), counter_token()),
        clash_free(counter_token(), clipboard_token()),
{
    assert(date_token()[1] != clipboard_token()[1]);
    assert(date_token()[1] != counter_token()[1]);
    assert(date_token()[5] != datetime_token()[5]);
    assert(date_token()[1] != time_token()[1]);
    assert(time_token()[1] != clipboard_token()[1]);
    assert(time_token()[1] != counter_token()[1]);
    assert(time_token()[1] != datetime_token()[1]);
    assert(datetime_token()[1] != clipboard_token()[1]);
    assert(datetime_token()[1] != counter_token()[1]);
    assert(counter_token()[2] != clipboard_token()[2]);
}

proof fn lemma_shapes_no_brace(date: Seq<char>, time: Seq<char>, datetime: Seq<char>)
    requires
        date_shape(date),
        time_shape(time),
        datetime_shape(datetime),
    ensures
        no_brace(date),
        no_brace(time),
        no_brace(datetime),
{
    let n = datetime.len() as int;
    let d = datetime.take(n - 9);
    let t = datetime.skip(n - 8);
    assert forall|i: int| 0 <= i < datetime.len() implies #[trigger] datetime[i] != '{' by {
        if i < n - 9 {
            assert(datetime[i] == d[i]);
        } else if i > n - 9 {
            assert(datetime[i] == t[i - (n - 8)]);
        }
    }
}

/// A text whose tokens are all `{counter:`-free, as the built-in ones are,
/// leaves the named counters untouched.
proof fn lemma_no_named_counters(s: Seq<char>, counters: Map<Seq<char>, u64>)
    requires
        only_tokens(s, seq![clipboard_token(), counter_token()]),
    ensures
        named_counters(s, counters) == (s, counters),
{
    let ts = seq![clipboard_token(), counter_token()];
    assert forall|j: int| 0 <= j implies !occurs_at(s, counter_prefix(), j) by {
        if occurs_at(s, counter_prefix(), j) {
            assert(s[j] == s.subrange(j, j + 9)[0]);
            let k = choose|k: int| 0 <= k < ts.len() && #[trigger] occurs_at(s, ts[k], j);
            if k == 0 {
                // "{clipboard}" and "{counter:" differ in their third character.
                assert(s.subrange(j, j + 9)[2] == s.subrange(j, j + 11)[2]);
            } else {
                // "{counter}" and "{counter:" differ in their ninth character.
                assert(s.subrange(j, j + 9)[8] == s[j + 8]);
            }
        }
    }
    lemma_first_from_absent(s, counter_prefix(), 0);
}

/// With the date and time in their usual shapes, a text whose only tokens
/// are the built-in ones moves the default counter at most once per
/// substitution, and exactly once when it names `{counter}`, however often;
/// no other counter moves.
pub proof fn law_default_counter_bumped_once(
    text: Seq<char>,
    date: Seq<char>,
    time: Seq<char>,
    datetime: Seq<char>,
    clipboard: Seq<char>,
    counters: Map<Seq<char>, u64>,
    vars: Seq<(String, String)>,
)
    requires
        only_tokens(text, builtin_tokens()),
        date_shape(date),
        time_shape(time),
        datetime_shape(datetime),
    ensures
        ({
            let after = substitution(text, date, time, datetime, clipboard, counters, vars).1;
            let once = counters.insert(default_counter(), bumped(counters, default_counter()));
            &&& after == counters || after == once
            &&& contains(text, counter_token()) ==> after == once
        }),
{
    lemma_builtin_tokens_shape();
    lemma_shapes_no_brace(date, time, datetime);
    let t4 = seq![clipboard_token(), counter_token(), datetime_token(), time_token()];
    let t3 = seq![clipboard_token(), counter_token(), datetime_token()];
    let t2 = seq![clipboard_token(), counter_token()];
    let t1 = seq![clipboard_token()];
    assert(builtin_tokens() == t4.push(date_token()));
    assert(t4 == t3.push(time_token()));
    assert(t3 == t2.push(datetime_token()));
    assert(t2 == t1.push(counter_token()));
    let sa = replace_all(text, date_token(), date);
    lemma_replace_only_tokens(text, date_token(), date, t4);
    let sb = replace_all(sa, time_token(), time);
    lemma_replace_only_tokens(sa, time_token(), time, t3);
    let s1 = replace_all(sb, datetime_token(), datetime);
    lemma_replace_only_tokens(sb, datetime_token(), datetime, t2);
    if contains(text, counter_token()) {
        let i = choose|i: int| occurs_at(text, counter_token(), i);
        lemma_replace_keeps_token(text, date_token(), date, counter_token(), i);
        let ia = choose|i: int| occurs_at(sa, counter_token(), i);
        lemma_replace_keeps_token(sa, time_token(), time, counter_token(), ia);
        let ib = choose|i: int| occurs_at(sb, counter_token(), i);
        lemma_replace_keeps_token(sb, datetime_token(), datetime, counter_token(), ib);
    }
    if contains(s1, counter_token()) {
        let v = bumped(counters, default_counter());
        lemma_decimal_digits(v as nat);
        assert forall|i: int| 0 <= i < decimal(v as nat).len() implies #[trigger] decimal(v as nat)[i] != '{' by {
            assert(is_digit(decimal(v as nat)[i]));
        }
        let s2 = replace_all(s1, counter_token(), decimal(v as nat));
        lemma_replace_only_tokens(s1, counter_token(), decimal(v as nat), t1);
        assert forall|i: int| 0 <= i < s2.len() && #[trigger] s2[i] == '{' implies starts_one_of(s2, i, t2) by {
            assert(starts_one_of(s2, i, t1));
            assert(occurs_at(s2, t1[0], i));
            assert(t2[0] == t1[0]);
        }
        lemma_no_named_counters(s2, counters.insert(default_counter(), v));
    } else {
        lemma_no_named_counters(s1, counters);
    }
}

} // verus!
