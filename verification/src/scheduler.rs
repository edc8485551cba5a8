//! When scheduled macros are due, and the list of scheduled tasks.
use vstd::prelude::*;
use crate::cron::{cron_due, cron_due_exec};
use crate::text::{count_char, chars_of, str_eq, string_from_chars, has_prefix, has_suffix, slice_chars, parse_u64, parse_u64_spec, starts_with, ends_with};

verus! {

// ── Schedule expressions ──────────────────────────────────────────────────────

pub open spec fn every_prefix() -> Seq<char> { seq!['e', 'v', 'e', 'r', 'y', '_'] }
pub open spec fn seconds_suffix() -> Seq<char> { seq!['_', 's', 'e', 'c', 'o', 'n', 'd', 's'] }
pub open spec fn minutes_suffix() -> Seq<char> { seq!['_', 'm', 'i', 'n', 'u', 't', 'e', 's'] }
pub open spec fn once_prefix() -> Seq<char> { seq!['o', 'n', 'c', 'e', '_'] }
pub open spec fn once_colon_prefix() -> Seq<char> { seq!['o', 'n', 'c', 'e', ':'] }
pub open spec fn daily_prefix() -> Seq<char> { seq!['d', 'a', 'i', 'l', 'y', '_'] }

pub open spec fn strip_suffix(s: Seq<char>, p: Seq<char>) -> Seq<char> {
    s.take(s.len() - p.len())
}

/// The index of the first `c` in `s`, or the length of `s` if there is none.
pub open spec fn first_index_of(s: Seq<char>, c: char) -> int
    decreases s.len(),
{
    if s.len() == 0 {
        0
    } else if s[0] == c {
        0
    } else {
        1 + first_index_of(s.skip(1), c)
    }
}

pub open spec fn sat_sub(a: u64, b: u64) -> int {
    if a >= b { a - b } else { 0 }
}

/// A repeating schedule is due when it never ran, or when at least the
/// interval has passed since it last did.
pub open spec fn interval_due(last_run_ms: Option<u64>, now: u64, interval_ms: int) -> bool {
    match last_run_ms {
        None => true,
        Some(last) => sat_sub(now, last) >= interval_ms,
    }
}

/// The number of seconds in `every_<N>_seconds`, if the schedule has that form.
pub open spec fn every_seconds_arg(s: Seq<char>) -> Option<u64> {
    if starts_with(s, every_prefix()) && ends_with(s.skip(6), seconds_suffix()) {
        parse_u64_spec(strip_suffix(s.skip(6), seconds_suffix()))
    } else {
        None
    }
}

/// The number of minutes in `every_<N>_minutes`, if the schedule has that form.
pub open spec fn every_minutes_arg(s: Seq<char>) -> Option<u64> {
    if starts_with(s, every_prefix()) && ends_with(s.skip(6), minutes_suffix()) {
        parse_u64_spec(strip_suffix(s.skip(6), minutes_suffix()))
    } else {
        None
    }
}

/// The instant in `once_<unix ms>` or `once:<unix ms>`, if the schedule has
/// that form.
pub open spec fn once_arg(s: Seq<char>) -> Option<u64> {
    if starts_with(s, once_prefix()) || starts_with(s, once_colon_prefix()) {
        parse_u64_spec(s.skip(5))
    } else {
        None
    }
}

/// Hour and minute of `daily_<H>:<M>`, if the schedule has that form: exactly
/// one colon, and a decimal number on each side of it.
pub open spec fn daily_arg(s: Seq<char>) -> Option<(u64, u64)> {
    if starts_with(s, daily_prefix()) && count_char(s.skip(6), ':') == 1 {
        let rest = s.skip(6);
        let k = first_index_of(rest, ':');
        match (parse_u64_spec(rest.take(k)), parse_u64_spec(rest.skip(k + 1))) {
            (Some(h), Some(m)) => Some((h, m)),
            _ => None,
        }
    } else {
        None
    }
}

/// The start, in unix milliseconds, of the minute `h`:`m` on the UTC day of `now`.
pub open spec fn daily_target_ms(h: u64, m: u64, now: u64) -> int {
    ((now / 1000) / 86400 * 86400 + h * 3600 + m * 60) * 1000
}

/// Whether a task with this schedule, last run at `last_run_ms`, is due at
/// unix time `now` (milliseconds):
/// - `every_<N>_seconds`, `every_<N>_minutes`: the interval has passed since
///   the last run, or it never ran;
/// - `once_<T>`: it never ran and `T` has come;
/// - `once:<T>`: the same as `once_<T>`;
/// - `daily_<H>:<M>`: `now` lies in that minute of the current UTC day and no
///   run happened since the minute began;
/// - a five-field cron expression: the current UTC minute matches it and no
///   run happened since the minute began (see `cron_due`);
/// - anything else: never.
pub open spec fn schedule_due(s: Seq<char>, last_run_ms: Option<u64>, now: u64) -> bool {
    if every_seconds_arg(s) is Some {
        interval_due(last_run_ms, now, every_seconds_arg(s)->0 * 1000)
    } else if every_minutes_arg(s) is Some {
        interval_due(last_run_ms, now, every_minutes_arg(s)->0 * 60000)
    } else if once_arg(s) is Some {
        last_run_ms is None && now >= once_arg(s)->0
    } else if daily_arg(s) is Some {
        let (h, m) = daily_arg(s)->0;
        let target = daily_target_ms(h, m, now);
        if now >= target && now < target + 60000 {
            match last_run_ms {
                None => true,
                Some(last) => last < target,
            }
        } else {
            false
        }
    } else {
        cron_due(s, last_run_ms, now)
    }
}

/// Whether the arithmetic that evaluating the schedule at `now` performs
/// stays within `u64`.
pub open spec fn schedule_in_range(s: Seq<char>, now: u64) -> bool {
    if every_seconds_arg(s) is Some {
        every_seconds_arg(s)->0 * 1000 <= u64::MAX
    } else if every_minutes_arg(s) is Some {
        every_minutes_arg(s)->0 * 60000 <= u64::MAX
    } else if once_arg(s) is Some {
        true
    } else if daily_arg(s) is Some {
        let (h, m) = daily_arg(s)->0;
        let target = daily_target_ms(h, m, now);
        &&& h * 3600 <= u64::MAX
        &&& m * 60 <= u64::MAX
        &&& h * 3600 + m * 60 <= u64::MAX
        &&& (now / 1000) / 86400 * 86400 + h * 3600 + m * 60 <= u64::MAX
        &&& target <= u64::MAX
        &&& now >= target ==> target + 60000 <= u64::MAX
    } else {
        true
    }
}

fn count_colons(s: &Vec<char>) -> (res: (usize, usize))
    ensures
        res.0 == count_char(s@, ':'),
        res.1 == first_index_of(s@, ':'),
        res.1 <= s.len(),
        res.0 > 0 ==> res.1 < s.len(),
{
    let mut count: usize = 0;
    let mut first: usize = s.len();
    let mut i: usize = 0;
    while i < s.len()
        invariant
            i <= s.len(),
            count == count_char(s@.take(i as int), ':'),
            count <= i,
            first == (if count == 0 { s.len() as int } else { first_index_of(s@, ':') }),
            count > 0 ==> first < i && s@[first as int] == ':',
            count == 0 ==> forall|k: int| 0 <= k < i ==> s@[k] != ':',
        decreases s.len() - i,
    {
        assert(s@.take(i + 1).drop_last() == s@.take(i as int));
        if s[i] == ':' {
            if count == 0 {
                first = i;
                proof { lemma_first_index_of(s@, i as int); }
            }
            count = count + 1;
        }
        i = i + 1;
    }
    assert(s@.take(i as int) == s@);
    if count == 0 {
        proof { lemma_first_index_absent(s@); }
    }
    (count, first)
}

proof fn lemma_first_index_of(s: Seq<char>, i: int)
    requires
        0 <= i < s.len(),
        s[i] == ':',
        forall|k: int| 0 <= k < i ==> s[k] != ':',
    ensures
        first_index_of(s, ':') == i,
    decreases i,
{
    if i > 0 {
        lemma_first_index_of(s.skip(1), i - 1);
    }
}

proof fn lemma_first_index_absent(s: Seq<char>)
    requires
        forall|k: int| 0 <= k < s.len() ==> s[k] != ':',
    ensures
        first_index_of(s, ':') == s.len(),
    decreases s.len(),
{
    if s.len() > 0 {
        lemma_first_index_absent(s.skip(1));
    }
}

fn literal(s: &str) -> (res: Vec<char>)
    ensures
        res@ == s@,
{
    chars_of(s)
}

/// What evaluating the schedule at `now` gives: `None` where the arithmetic
/// would leave `u64`, whether the task is due otherwise.
pub open spec fn schedule_outcome(s: Seq<char>, last_run_ms: Option<u64>, now: u64) -> Option<bool> {
    if schedule_in_range(s, now) {
        Some(schedule_due(s, last_run_ms, now))
    } else {
        None
    }
}

/// Evaluates a schedule at `now`, reporting with `None` the schedules whose
/// arithmetic leaves `u64`.
pub fn evaluate_schedule(schedule: &str, last_run_ms: Option<u64>, now: u64) -> (res: Option<bool>)
    ensures
        res == schedule_outcome(schedule@, last_run_ms, now),
{
    let s = chars_of(schedule);
    let every = literal("every_");
    let seconds = literal("_seconds");
    let minutes = literal("_minutes");
    let once = literal("once_");
    let once_colon = literal("once:");
    let daily = literal("daily_");
    proof {
        reveal_strlit("every_");
        reveal_strlit("_seconds");
        reveal_strlit("_minutes");
        reveal_strlit("once_");
        reveal_strlit("once:");
        reveal_strlit("daily_");
        assert(every@ == every_prefix());
        assert(seconds@ == seconds_suffix());
        assert(minutes@ == minutes_suffix());
        assert(once@ == once_prefix());
        assert(once_colon@ == once_colon_prefix());
        assert(daily@ == daily_prefix());
    }
    if has_prefix(&s, &every) {
        let rest = slice_chars(&s, 6, s.len());
        assert(rest@ == s@.skip(6));
        if has_suffix(&rest, &seconds) {
            let arg = slice_chars(&rest, 0, rest.len() - 8);
            assert(arg@ == strip_suffix(rest@, seconds_suffix()));
            if let Some(secs) = parse_u64(&arg) {
                let interval_ms = match secs.checked_mul(1000) {
                    Some(v) => v,
                    None => return None,
                };
                return Some(match last_run_ms {
                    None => true,
                    Some(last) => now.saturating_sub(last) >= interval_ms,
                });
            }
        }
        if has_suffix(&rest, &minutes) {
            let arg = slice_chars(&rest, 0, rest.len() - 8);
            assert(arg@ == strip_suffix(rest@, minutes_suffix()));
            if let Some(mins) = parse_u64(&arg) {
                let interval_ms = match mins.checked_mul(60_000) {
                    Some(v) => v,
                    None => return None,
                };
                return Some(match last_run_ms {
                    None => true,
                    Some(last) => now.saturating_sub(last) >= interval_ms,
                });
            }
        }
    }
    if has_prefix(&s, &once) || has_prefix(&s, &once_colon) {
        let arg = slice_chars(&s, 5, s.len());
        assert(arg@ == s@.skip(5));
        if let Some(target_ms) = parse_u64(&arg) {
            return Some(last_run_ms.is_none() && now >= target_ms);
        }
    }
    if has_prefix(&s, &daily) {
        let rest = slice_chars(&s, 6, s.len());
        assert(rest@ == s@.skip(6));
        let (count, k) = count_colons(&rest);
        if count == 1 {
            let hs = slice_chars(&rest, 0, k);
            let ms = slice_chars(&rest, k + 1, rest.len());
            assert(hs@ == rest@.take(k as int));
            assert(ms@ == rest@.skip(k + 1));
            if let (Some(h), Some(m)) = (parse_u64(&hs), parse_u64(&ms)) {
                let hour_secs = match h.checked_mul(3600) {
                    Some(v) => v,
                    None => return None,
                };
                let minute_secs = match m.checked_mul(60) {
                    Some(v) => v,
                    None => return None,
                };
                let target_secs_since_midnight = match hour_secs.checked_add(minute_secs) {
                    Some(v) => v,
                    None => return None,
                };
                let now_secs = now / 1000;
                let midnight_today = (now_secs / 86400) * 86400;
                let target_today = match midnight_today.checked_add(target_secs_since_midnight) {
                    Some(v) => v,
                    None => return None,
                };
                let target_ms = match target_today.checked_mul(1000) {
                    Some(v) => v,
                    None => return None,
                };
                if now >= target_ms {
                    let window_end = match target_ms.checked_add(60_000) {
                        Some(v) => v,
                        None => return None,
                    };
                    if now < window_end {
                        return Some(match last_run_ms {
                            None => true,
                            Some(last) => last < target_ms,
                        });
                    }
                }
                return Some(false);
            }
        }
    }
    Some(cron_due_exec(&s, last_run_ms, now))
}

/// Decides whether a task is due at `now`, as the scheduler does on each tick.
pub fn should_run_at(schedule: &str, last_run_ms: Option<u64>, now: u64) -> (due: bool)
    requires
        schedule_in_range(schedule@, now),
    ensures
        due == schedule_due(schedule@, last_run_ms, now),
{
    match evaluate_schedule(schedule, last_run_ms, now) {
        Some(due) => due,
        None => false,
    }
}

#[verifier::external_type_specification]
#[verifier::external_body]
pub struct ExSystemTime(std::time::SystemTime);

#[verifier::external_type_specification]
#[verifier::external_body]
pub struct ExSystemTimeError(std::time::SystemTimeError);

/// Calls `SystemTime::now`: the system clock; nothing is stated of the time
/// it reads.
#[verifier::external_body]
fn system_now() -> std::time::SystemTime {
    std::time::SystemTime::now()
}

/// Calls `SystemTime::duration_since` with the unix epoch; it fails for a
/// time before the epoch. Nothing is stated of the duration.
#[verifier::external_body]
fn since_unix_epoch(t: &std::time::SystemTime) -> Result<std::time::Duration, std::time::SystemTimeError> {
    t.duration_since(std::time::UNIX_EPOCH)
}

/// Calls `Duration::as_millis`: the whole milliseconds of the duration.
#[verifier::external_body]
fn duration_millis(d: &std::time::Duration) -> u128 {
    d.as_millis()
}

/// The current unix time in milliseconds, read from the system clock; 0 for
/// a clock set before the epoch, and the low 64 bits of the count.
fn now_ms() -> u64 {
    match since_unix_epoch(&system_now()) {
        Ok(d) => duration_millis(&d) as u64,
        Err(_) => 0,
    }
}

/// Decides whether a task is due now, reading the clock once; `None` for a
/// schedule whose arithmetic would leave `u64` at the time read.
pub fn should_run_now(schedule: &str, last_run_ms: Option<u64>) -> (res: Option<bool>)
    ensures
        exists|now: u64| res == schedule_outcome(schedule@, last_run_ms, now),
{
    let now = now_ms();
    evaluate_schedule(schedule, last_run_ms, now)
}

} // verus!

verus! {

// ── Scheduled tasks ───────────────────────────────────────────────────────────

/// A macro that the scheduler plays when its schedule comes due. `speed_bits`
/// holds the bit pattern of the `f64` playback speed.
#[derive(Debug)]
pub struct ScheduledTask {
    pub id: String,
    pub macro_name: String,
    /// `every_<N>_seconds`, `every_<N>_minutes`, `once_<unix ms>`, `once:<unix ms>`,
    /// `daily_<H>:<M>` or a five-field cron expression such as `0 9 * * 1-5`.
    pub schedule: String,
    pub speed_bits: u64,
    pub loops: u32,
    pub enabled: bool,
    pub last_run_ms: Option<u64>,
}

impl Clone for ScheduledTask {
    fn clone(&self) -> (r: Self)
        ensures
            r == *self,
    {
        ScheduledTask {
            id: self.id.clone(),
            macro_name: self.macro_name.clone(),
            schedule: self.schedule.clone(),
            speed_bits: self.speed_bits,
            loops: self.loops,
            enabled: self.enabled,
            last_run_ms: self.last_run_ms,
        }
    }
}

/// Whether the task is due at `now`; `None` for a schedule whose arithmetic
/// does not fit in `u64`.
pub open spec fn task_outcome(task: ScheduledTask, now: u64) -> Option<bool> {
    if !task.enabled {
        Some(false)
    } else {
        schedule_outcome(task.schedule@, task.last_run_ms, now)
    }
}

pub fn task_is_due(task: &ScheduledTask, now: u64) -> (res: Option<bool>)
    ensures
        res == task_outcome(*task, now),
{
    if !task.enabled {
        return Some(false);
    }
    evaluate_schedule(task.schedule.as_str(), task.last_run_ms, now)
}

/// The index of the first task with this id, or the number of tasks if none
/// has it.
pub open spec fn index_of_id(tasks: Seq<ScheduledTask>, id: Seq<char>) -> int
    decreases tasks.len(),
{
    if tasks.len() == 0 {
        0
    } else if tasks[0].id@ == id {
        0
    } else {
        1 + index_of_id(tasks.skip(1), id)
    }
}

pub open spec fn has_id(tasks: Seq<ScheduledTask>, id: Seq<char>) -> bool {
    exists|i: int| 0 <= i < tasks.len() && #[trigger] tasks[i].id@ == id
}

proof fn lemma_index_of_id(tasks: Seq<ScheduledTask>, id: Seq<char>, i: int)
    requires
        0 <= i <= tasks.len(),
        forall|k: int| 0 <= k < i ==> tasks[k].id@ != id,
        i < tasks.len() ==> tasks[i].id@ == id,
    ensures
        index_of_id(tasks, id) == i,
    decreases i,
{
    if i > 0 {
        lemma_index_of_id(tasks.skip(1), id, i - 1);
    } else if tasks.len() == 0 {
    }
}

/// The error text for an id that no task has.
pub open spec fn not_found_message() -> Seq<char> {
    seq!['T', 'a', 's', 'k', ' ', 'n', 'o', 't', ' ', 'f', 'o', 'u', 'n', 'd']
}

fn task_not_found() -> (s: String)
    ensures
        s@ == not_found_message(),
{
    let v = chars_of("Task not found");
    proof {
        reveal_strlit("Task not found");
    }
    string_from_chars(&v)
}

/// A lower-case hexadecimal digit.
pub open spec fn hex_lower_digit(c: char) -> bool {
    ('0' <= c && c <= '9') || ('a' <= c && c <= 'f')
}

/// The hyphenated form of a UUID: 36 characters, hyphens at 8, 13, 18 and
/// 23, lower-case hexadecimal digits elsewhere.
pub open spec fn uuid_shape(s: Seq<char>) -> bool {
    &&& s.len() == 36
    &&& forall|i: int| 0 <= i < 36 ==> if i == 8 || i == 13 || i == 18 || i == 23 {
        #[trigger] s[i] == '-'
    } else {
        hex_lower_digit(s[i])
    }
}

/// A version-4 UUID: the version digit (index 14) is `4` and the variant
/// digit (index 19) is one of `8`, `9`, `a`, `b`.
pub open spec fn uuid_v4(s: Seq<char>) -> bool {
    &&& uuid_shape(s)
    &&& s[14] == '4'
    &&& (s[19] == '8' || s[19] == '9' || s[19] == 'a' || s[19] == 'b')
}

/// A fresh random version-4 UUID from `Uuid::new_v4` of the `uuid` crate,
/// written in its hyphenated lower-case form; which UUID comes is not stated.
#[verifier::external_body]
fn new_task_id() -> (r: String)
    ensures
        uuid_v4(r@),
{
    uuid::Uuid::new_v4().to_string()
}

/// The tasks the scheduler knows, in the order they were added.
pub struct TaskList {
    pub tasks: Vec<ScheduledTask>,
}

impl TaskList {
    pub fn new() -> (r: TaskList)
        ensures
            r.tasks@ == Seq::<ScheduledTask>::empty(),
    {
        TaskList { tasks: Vec::new() }
    }

    fn position(&self, id: &str) -> (i: usize)
        ensures
            i == index_of_id(self.tasks@, id@),
            i <= self.tasks.len(),
            i < self.tasks.len() <==> has_id(self.tasks@, id@),
    {
        let mut i: usize = 0;
        while i < self.tasks.len()
            invariant
                i <= self.tasks.len(),
                forall|k: int| 0 <= k < i ==> self.tasks@[k].id@ != id@,
            decreases self.tasks.len() - i,
        {
            if str_eq(self.tasks[i].id.as_str(), id) {
                proof { lemma_index_of_id(self.tasks@, id@, i as int); }
                return i;
            }
            i = i + 1;
        }
        proof { lemma_index_of_id(self.tasks@, id@, i as int); }
        i
    }

    /// Adds an enabled task that never ran, under a fresh random id, and
    /// returns it.
    pub fn add_scheduled_task(&mut self, macro_name: String, schedule: String, speed_bits: u64, loops: u32) -> (task: ScheduledTask)
        ensures
            task.macro_name == macro_name,
            task.schedule == schedule,
            task.speed_bits == speed_bits,
            task.loops == loops,
            task.enabled,
            task.last_run_ms is None,
            uuid_v4(task.id@),
            final(self).tasks@ == old(self).tasks@.push(task),
    {
        let task = ScheduledTask {
            id: new_task_id(),
            macro_name,
            schedule,
            speed_bits,
            loops,
            enabled: true,
            last_run_ms: None,
        };
        self.tasks.push(task.clone());
        task
    }

    /// Enables or disables the first task with this id.
    pub fn toggle_scheduled_task(&mut self, id: &str, enabled: bool) -> (res: Result<(), String>)
        ensures
            has_id(old(self).tasks@, id@) ==> res is Ok && final(self).tasks@ == old(self).tasks@.update(
                index_of_id(old(self).tasks@, id@),
                ScheduledTask { enabled, ..old(self).tasks@[index_of_id(old(self).tasks@, id@)] },
            ),
            !has_id(old(self).tasks@, id@) ==> res is Err && res->Err_0@ == not_found_message()
                && final(self).tasks@ == old(self).tasks@,
    {
        let i = self.position(id);
        if i == self.tasks.len() {
            return Err(task_not_found());
        }
        let mut t = self.tasks[i].clone();
        t.enabled = enabled;
        self.tasks.set(i, t);
        Ok(())
    }

    /// Removes the first task with this id.
    pub fn delete_scheduled_task(&mut self, id: &str) -> (res: Result<(), String>)
        ensures
            has_id(old(self).tasks@, id@) ==> res is Ok && final(self).tasks@ == old(self).tasks@.remove(
                index_of_id(old(self).tasks@, id@),
            ),
            !has_id(old(self).tasks@, id@) ==> res is Err && res->Err_0@ == not_found_message()
                && final(self).tasks@ == old(self).tasks@,
    {
        let i = self.position(id);
        if i == self.tasks.len() {
            return Err(task_not_found());
        }
        self.tasks.remove(i);
        Ok(())
    }

    /// The first task with this id.
    pub fn find(&self, id: &str) -> (res: Result<ScheduledTask, String>)
        ensures
            has_id(self.tasks@, id@) ==> res == Ok::<ScheduledTask, String>(self.tasks@[index_of_id(self.tasks@, id@)]),
            !has_id(self.tasks@, id@) ==> res is Err && res->Err_0@ == not_found_message(),
    {
        let i = self.position(id);
        if i == self.tasks.len() {
            return Err(task_not_found());
        }
        Ok(self.tasks[i].clone())
    }

    /// Notes that the first task with this id ran at `now`; does nothing when
    /// no task has the id.
    pub fn record_run(&mut self, id: &str, now: u64)
        ensures
            has_id(old(self).tasks@, id@) ==> final(self).tasks@ == old(self).tasks@.update(
                index_of_id(old(self).tasks@, id@),
                ScheduledTask { last_run_ms: Some(now), ..old(self).tasks@[index_of_id(old(self).tasks@, id@)] },
            ),
            !has_id(old(self).tasks@, id@) ==> final(self).tasks@ == old(self).tasks@,
    {
        let i = self.position(id);
        if i < self.tasks.len() {
            let mut t = self.tasks[i].clone();
            t.last_run_ms = Some(now);
            self.tasks.set(i, t);
        }
    }
}

} // verus!

verus! {

proof fn lemma_prefix_first_char(s: Seq<char>, p: Seq<char>)
    requires
        starts_with(s, p),
        p.len() > 0,
    ensures
        s[0] == p[0],
{
    assert(s.take(p.len() as int)[0] == s[0]);
}

/// A `once_<T>` or `once:<T>` task runs at most once: after a run it is
/// never due again.
pub proof fn law_once_runs_at_most_once(s: Seq<char>, last: u64, now: u64)
    requires
        once_arg(s) is Some,
    ensures
        !schedule_due(s, Some(last), now),
{
    if starts_with(s, once_prefix()) {
        lemma_prefix_first_char(s, once_prefix());
    } else {
        lemma_prefix_first_char(s, once_colon_prefix());
    }
    if starts_with(s, every_prefix()) {
        lemma_prefix_first_char(s, every_prefix());
    }
}

/// A repeating task that ran at `last` is not due again until its interval
/// has passed, and is due from then on.
pub proof fn law_every_seconds_interval(s: Seq<char>, last: u64, now: u64)
    requires
        every_seconds_arg(s) is Some,
        last <= now,
    ensures
        schedule_due(s, Some(last), now) <==> now - last >= every_seconds_arg(s)->0 * 1000,
{
}

/// A repeating task that ran at `last` is not due again until its interval
/// has passed, and is due from then on.
pub proof fn law_every_minutes_interval(s: Seq<char>, last: u64, now: u64)
    requires
        every_minutes_arg(s) is Some,
        last <= now,
    ensures
        schedule_due(s, Some(last), now) <==> now - last >= every_minutes_arg(s)->0 * 60000,
{
    if every_seconds_arg(s) is Some {
        // A schedule cannot end in both "_seconds" and "_minutes".
        let r = s.skip(6);
        assert(r.skip(r.len() - 8)[1] == seconds_suffix()[1]);
        assert(r.skip(r.len() - 8)[1] == minutes_suffix()[1]);
    }
}

/// The start of the minute that a `daily_<H>:<M>` schedule names, on the UTC
/// day of `now`.
pub open spec fn daily_window_start(s: Seq<char>, now: u64) -> int {
    match daily_arg(s) {
        Some((h, m)) => daily_target_ms(h, m, now),
        None => 0,
    }
}

/// A daily task runs at most once in its minute of a day: once it ran at a
/// time when it was due, it is not due again at any time of the same window.
pub proof fn law_daily_runs_once_per_window(s: Seq<char>, last: u64, run_at: u64, now: u64)
    requires
        daily_arg(s) is Some,
        schedule_due(s, Some(last), run_at),
        daily_window_start(s, run_at) == daily_window_start(s, now),
    ensures
        !schedule_due(s, Some(run_at), now),
{
    lemma_prefix_first_char(s, daily_prefix());
    if starts_with(s, every_prefix()) {
        lemma_prefix_first_char(s, every_prefix());
    }
    if starts_with(s, once_prefix()) {
        lemma_prefix_first_char(s, once_prefix());
    }
}

proof fn lemma_index_of_id_props(tasks: Seq<ScheduledTask>, id: Seq<char>)
    ensures
        0 <= index_of_id(tasks, id) <= tasks.len(),
        index_of_id(tasks, id) < tasks.len() <==> has_id(tasks, id),
        index_of_id(tasks, id) < tasks.len() ==> tasks[index_of_id(tasks, id)].id@ == id,
        forall|k: int| 0 <= k < index_of_id(tasks, id) ==> #[trigger] tasks[k].id@ != id,
    decreases tasks.len(),
{
    if tasks.len() > 0 && tasks[0].id@ != id {
        let rest = tasks.skip(1);
        lemma_index_of_id_props(rest, id);
        let j = index_of_id(rest, id);
        assert forall|k: int| 0 <= k < 1 + j implies #[trigger] tasks[k].id@ != id by {
            if k > 0 {
                assert(tasks[k] == rest[k - 1]);
            }
        }
        if has_id(tasks, id) {
            let w = choose|i: int| 0 <= i < tasks.len() && #[trigger] tasks[i].id@ == id;
            assert(rest[w - 1].id@ == id);
        }
        if has_id(rest, id) {
            let w = choose|i: int| 0 <= i < rest.len() && #[trigger] rest[i].id@ == id;
            assert(tasks[w + 1].id@ == id);
        }
        if j < rest.len() {
            assert(tasks[1 + j] == rest[j]);
        }
    } else if tasks.len() > 0 {
        assert(has_id(tasks, id)) by {
            assert(tasks[0].id@ == id);
        }
    }
}

/// An edit that keeps a task's id, as enabling, disabling and noting a run
/// do, is what a later lookup of that id returns.
pub proof fn law_edit_then_find(tasks: Seq<ScheduledTask>, id: Seq<char>, edited: ScheduledTask)
    requires
        has_id(tasks, id),
        edited.id@ == id,
    ensures
        has_id(tasks.update(index_of_id(tasks, id), edited), id),
        tasks.update(index_of_id(tasks, id), edited)[index_of_id(tasks.update(index_of_id(tasks, id), edited), id)]
            == edited,
{
    lemma_index_of_id_props(tasks, id);
    let i = index_of_id(tasks, id);
    let t2 = tasks.update(i, edited);
    lemma_index_of_id(t2, id, i);
    assert(t2[i].id@ == id);
}

/// A task added under an id that no task has is the one a lookup of that id
/// returns.
pub proof fn law_add_then_find(tasks: Seq<ScheduledTask>, task: ScheduledTask)
    requires
        !has_id(tasks, task.id@),
    ensures
        has_id(tasks.push(task), task.id@),
        index_of_id(tasks.push(task), task.id@) == tasks.len(),
        tasks.push(task)[index_of_id(tasks.push(task), task.id@)] == task,
{
    let t2 = tasks.push(task);
    assert forall|k: int| 0 <= k < tasks.len() implies t2[k].id@ != task.id@ by {
        assert(t2[k] == tasks[k]);
    }
    lemma_index_of_id(t2, task.id@, tasks.len() as int);
    assert(t2[tasks.len() as int].id@ == task.id@);
}

/// When no two tasks share an id, deleting an id leaves no task with it.
pub proof fn law_delete_removes_id(tasks: Seq<ScheduledTask>, id: Seq<char>)
    requires
        has_id(tasks, id),
        forall|i: int, j: int| 0 <= i < j < tasks.len() ==> #[trigger] tasks[i].id@ != #[trigger] tasks[j].id@,
    ensures
        !has_id(tasks.remove(index_of_id(tasks, id)), id),
{
    lemma_index_of_id_props(tasks, id);
    let i = index_of_id(tasks, id);
    let t2 = tasks.remove(i);
    if has_id(t2, id) {
        let w = choose|k: int| 0 <= k < t2.len() && #[trigger] t2[k].id@ == id;
        if w < i {
            assert(t2[w] == tasks[w]);
        } else {
            assert(t2[w] == tasks[w + 1]);
            assert(tasks[i].id@ != tasks[w + 1].id@);
        }
    }
}

/// A task that ran at `now` is not due again at that same time, unless it
/// repeats with a zero interval: one tick of the scheduler never runs a task
/// twice.
pub proof fn law_not_due_right_after_run(s: Seq<char>, now: u64)
    requires
        every_seconds_arg(s) != Some(0u64),
        every_minutes_arg(s) != Some(0u64),
    ensures
        !schedule_due(s, Some(now), now),
{
    let minute = (now / 60000) as nat;
    assert(minute * 60000 <= now) by (nonlinear_arith)
        requires
            minute == now / 60000,
    ;
}

/// A repeating task that never ran is due at once, whatever the time.
pub proof fn law_never_run_repeating_task_is_due(s: Seq<char>, now: u64)
    requires
        every_seconds_arg(s) is Some || every_minutes_arg(s) is Some,
    ensures
        schedule_due(s, None, now),
{
}

/// A disabled task is never played.
pub proof fn law_disabled_never_due(task: ScheduledTask, now: u64)
    requires
        !task.enabled,
    ensures
        task_outcome(task, now) == Some(false),
{
}

} // verus!
