//! The session engine: a Pomodoro phase state machine with duration
//! bookkeeping, per-date statistics and an alarm lifecycle.
//!
//! All time values are plain non-negative integers: timestamps and durations
//! are seconds, statistics are minutes, volumes are percentages (0..=100).
//! The host reads its clock and calendar and passes `now` and `today` in.

use vstd::prelude::*;

use crate::text::dec_str;
use crate::text::digit_str;
use crate::text::push_u64;

verus! {

/// Two-or-more-digit decimal: a single leading zero pads values below ten.
pub open spec fn zero_pad2(n: nat) -> Seq<char> {
    if n < 10 {
        seq!['0'] + dec_str(n)
    } else {
        dec_str(n)
    }
}

/// The `MM:SS` clock face for a duration in seconds; minutes may take more
/// than two digits.
pub open spec fn duration_str(total_secs: u64) -> Seq<char> {
    zero_pad2((total_secs / 60) as nat) + seq![':'] + zero_pad2((total_secs % 60) as nat)
}

/// Format a duration in seconds as `MM:SS`.
pub fn format_duration(total_secs: u64) -> (r: String)
    ensures
        r@ == duration_str(total_secs),
{
    let minutes = total_secs / 60;
    let seconds = total_secs % 60;
    let mut s = String::new();
    if minutes < 10 {
        s.append(digit_str(0));
    }
    push_u64(&mut s, minutes);
    proof {
        reveal_strlit(":");
        assert(":"@ =~= seq![':']);
        assert(s@ =~= zero_pad2(minutes as nat));
    }
    s.append(":");
    if seconds < 10 {
        s.append(digit_str(0));
    }
    push_u64(&mut s, seconds);
    proof {
        assert(s@ =~= duration_str(total_secs));
    }
    s
}

/// A calendar date as plain year/month/day fields.
#[derive(Clone, Copy, Debug, PartialEq, Eq, Structural)]
pub struct Date {
    pub year: u32,
    pub month: u32,
    pub day: u32,
}

impl Date {
    /// A date this engine accepts: four-digit year, plausible month and day.
    pub open spec fn wf(self) -> bool {
        self.year <= 9999 && 1 <= self.month <= 12 && 1 <= self.day <= 31
    }

    pub fn is_wf(&self) -> (r: bool)
        ensures
            r == self.wf(),
    {
        self.year <= 9999 && 1 <= self.month && self.month <= 12 && 1 <= self.day && self.day
            <= 31
    }
}

#[derive(Debug, Clone, Copy, PartialEq, Eq, Structural)]
pub enum PomodoroPhase {
    Work,
    ShortBreak,
    LongBreak,
}

#[derive(Debug, Clone, Copy, PartialEq, Eq, Structural)]
pub enum TimerState {
    Stopped,
    Running,
    Paused,
}

/// Per-date aggregate of completed sessions and the task names touched.
#[derive(Debug, Clone)]
pub struct PomodoroSession {
    pub date: Date,
    pub work_sessions: u32,
    pub total_work_minutes: u32,
    pub break_sessions: u32,
    pub total_break_minutes: u32,
    pub tasks_worked_on: Vec<String>,
}

/// The mathematical model of a `PomodoroSession`: task names as `Seq<char>`.
#[verifier::ext_equal]
pub struct SessionRec {
    pub date: Date,
    pub work_sessions: u32,
    pub total_work_minutes: u32,
    pub break_sessions: u32,
    pub total_break_minutes: u32,
    pub tasks: Seq<Seq<char>>,
}

impl View for PomodoroSession {
    type V = SessionRec;

    open spec fn view(&self) -> SessionRec {
        SessionRec {
            date: self.date,
            work_sessions: self.work_sessions,
            total_work_minutes: self.total_work_minutes,
            break_sessions: self.break_sessions,
            total_break_minutes: self.total_break_minutes,
            tasks: self.tasks_worked_on.deep_view(),
        }
    }
}

/// The model of a stored history sequence: one record per entry, in order.
pub open spec fn sv_seq(v: Seq<PomodoroSession>) -> Seq<SessionRec> {
    v.map_values(|s: PomodoroSession| s@)
}

/// The model of a whole history: one record per stored entry, in order.
pub open spec fn sessions_view(v: Vec<PomodoroSession>) -> Seq<SessionRec> {
    sv_seq(v@)
}

/// Index of the first record for date `d`, or `ss.len()` if there is none.
pub open spec fn date_index(ss: Seq<SessionRec>, d: Date) -> int
    decreases ss.len(),
{
    if ss.len() == 0 {
        0
    } else if ss[0].date == d {
        0
    } else {
        1 + date_index(ss.drop_first(), d)
    }
}

pub open spec fn has_date(ss: Seq<SessionRec>, d: Date) -> bool {
    date_index(ss, d) < ss.len()
}

/// How many records carry date `d`.
pub open spec fn count_date(ss: Seq<SessionRec>, d: Date) -> int
    decreases ss.len(),
{
    if ss.len() == 0 {
        0
    } else {
        (if ss[0].date == d {
            1int
        } else {
            0int
        }) + count_date(ss.drop_first(), d)
    }
}

/// No two records share a date.
pub open spec fn dates_unique(ss: Seq<SessionRec>) -> bool {
    forall|i: int, j: int|
        0 <= i < j < ss.len() ==> (#[trigger] ss[i]).date != (#[trigger] ss[j]).date
}

/// A fresh, all-zero record for date `d`.
pub open spec fn empty_rec(d: Date) -> SessionRec {
    SessionRec {
        date: d,
        work_sessions: 0,
        total_work_minutes: 0,
        break_sessions: 0,
        total_break_minutes: 0,
        tasks: Seq::empty(),
    }
}

/// The history with a (possibly fresh) record for date `d` present.
pub open spec fn ensure_date(ss: Seq<SessionRec>, d: Date) -> Seq<SessionRec> {
    if has_date(ss, d) {
        ss
    } else {
        ss.push(empty_rec(d))
    }
}

/// Credit one completed work session of `mins` minutes to date `d`.
pub open spec fn credit_work(ss: Seq<SessionRec>, d: Date, mins: u32) -> Seq<SessionRec> {
    let t = ensure_date(ss, d);
    let i = date_index(t, d);
    t.update(
        i,
        SessionRec {
            work_sessions: (t[i].work_sessions + 1) as u32,
            total_work_minutes: (t[i].total_work_minutes + mins) as u32,
            ..t[i]
        },
    )
}

/// Credit one completed break of `mins` minutes to date `d`.
pub open spec fn credit_break(ss: Seq<SessionRec>, d: Date, mins: u32) -> Seq<SessionRec> {
    let t = ensure_date(ss, d);
    let i = date_index(t, d);
    t.update(
        i,
        SessionRec {
            break_sessions: (t[i].break_sessions + 1) as u32,
            total_break_minutes: (t[i].total_break_minutes + mins) as u32,
            ..t[i]
        },
    )
}

/// Record that task `name` was touched on date `d` (set semantics).
pub open spec fn record_task(ss: Seq<SessionRec>, d: Date, name: Seq<char>) -> Seq<SessionRec> {
    let t = ensure_date(ss, d);
    let i = date_index(t, d);
    if t[i].tasks.contains(name) {
        t
    } else {
        t.update(i, SessionRec { tasks: t[i].tasks.push(name), ..t[i] })
    }
}

/// Total work minutes recorded for date `d`, over the whole history.
pub open spec fn date_work_minutes(ss: Seq<SessionRec>, d: Date) -> int
    decreases ss.len(),
{
    if ss.len() == 0 {
        0
    } else {
        (if ss[0].date == d {
            ss[0].total_work_minutes as int
        } else {
            0
        }) + date_work_minutes(ss.drop_first(), d)
    }
}

proof fn lemma_date_work_minutes_take(ss: Seq<SessionRec>, d: Date, i: int)
    requires
        0 <= i < ss.len(),
    ensures
        date_work_minutes(ss.take(i + 1), d) == date_work_minutes(ss.take(i), d) + (if ss[i].date
            == d {
            ss[i].total_work_minutes as int
        } else {
            0
        }),
    decreases i,
{
    if i == 0 {
        assert(ss.take(1)[0] == ss[0]);
        assert(ss.take(1).drop_first() =~= Seq::<SessionRec>::empty());
        assert(ss.take(0) =~= Seq::<SessionRec>::empty());
    } else {
        assert(ss.take(i + 1)[0] == ss[0]);
        assert(ss.take(i)[0] == ss[0]);
        assert(ss.take(i + 1).drop_first() =~= ss.drop_first().take(i));
        assert(ss.take(i).drop_first() =~= ss.drop_first().take(i - 1));
        lemma_date_work_minutes_take(ss.drop_first(), d, i - 1);
        assert(ss.drop_first()[i - 1] == ss[i]);
    }
}

proof fn lemma_date_work_minutes_nonneg(ss: Seq<SessionRec>, d: Date)
    ensures
        date_work_minutes(ss, d) >= 0,
    decreases ss.len(),
{
    if ss.len() > 0 {
        lemma_date_work_minutes_nonneg(ss.drop_first(), d);
    }
}

/// Total work minutes the history records for date `d`, saturating at
/// `u32::MAX`.
pub fn minutes_on_date(history: &Vec<PomodoroSession>, d: Date) -> (r: u32)
    ensures
        date_work_minutes(sessions_view(*history), d) <= u32::MAX ==> r == date_work_minutes(
            sessions_view(*history),
            d,
        ),
        date_work_minutes(sessions_view(*history), d) > u32::MAX ==> r == u32::MAX,
{
    let ghost ss = sessions_view(*history);
    proof {
        assert(ss.take(0) =~= Seq::<SessionRec>::empty());
    }
    let n = history.len();
    let mut acc: u32 = 0;
    let mut j: usize = 0;
    while j < n
        invariant
            n == history@.len(),
            j <= n,
            ss == sessions_view(*history),
            date_work_minutes(ss.take(j as int), d) <= u32::MAX ==> acc == date_work_minutes(
                ss.take(j as int),
                d,
            ),
            date_work_minutes(ss.take(j as int), d) > u32::MAX ==> acc == u32::MAX,
        decreases n - j,
    {
        proof {
            lemma_date_work_minutes_take(ss, d, j as int);
            lemma_date_work_minutes_nonneg(ss.take(j as int), d);
            assert(ss[j as int] == history@[j as int]@);
        }
        if history[j].date == d {
            let m = history[j].total_work_minutes;
            if acc > u32::MAX - m {
                acc = u32::MAX;
            } else {
                acc = acc + m;
            }
        }
        j = j + 1;
    }
    proof {
        assert(ss.take(n as int) =~= ss);
    }
    acc
}

proof fn lemma_date_index_char(ss: Seq<SessionRec>, d: Date)
    ensures
        0 <= date_index(ss, d) <= ss.len(),
        date_index(ss, d) < ss.len() ==> ss[date_index(ss, d)].date == d,
        forall|k: int| 0 <= k < date_index(ss, d) ==> (#[trigger] ss[k]).date != d,
    decreases ss.len(),
{
    if ss.len() > 0 && ss[0].date != d {
        lemma_date_index_char(ss.drop_first(), d);
        assert forall|k: int| 0 <= k < date_index(ss, d) implies (#[trigger] ss[k]).date
            != d by {
            if k > 0 {
                assert(ss.drop_first()[k - 1] == ss[k]);
            }
        }
        if date_index(ss, d) < ss.len() {
            assert(ss.drop_first()[date_index(ss.drop_first(), d)] == ss[date_index(ss, d)]);
        }
    }
}

pub(crate) proof fn lemma_sv_push(v: Seq<PomodoroSession>, s: PomodoroSession)
    ensures
        sv_seq(v.push(s)) =~= sv_seq(v).push(s@),
{
}

proof fn lemma_sv_remove_insert(v: Seq<PomodoroSession>, i: int, s: PomodoroSession)
    requires
        0 <= i < v.len(),
    ensures
        sv_seq(v.remove(i).insert(i, s)) =~= sv_seq(v).update(i, s@),
{
    let r = v.remove(i).insert(i, s);
    assert forall|j: int| 0 <= j < r.len() implies sv_seq(r)[j] == sv_seq(v).update(i, s@)[j] by {
        if j < i {
            assert(v.remove(i)[j] == v[j]);
            assert(r[j] == v[j]);
        } else if j == i {
            assert(r[j] == s);
        } else {
            assert(v.remove(i)[j - 1] == v[j]);
            assert(r[j] == v[j]);
        }
    }
}

proof fn lemma_date_index_same_dates(s1: Seq<SessionRec>, s2: Seq<SessionRec>, d: Date)
    requires
        s1.len() == s2.len(),
        forall|k: int| 0 <= k < s1.len() ==> (#[trigger] s1[k]).date == (#[trigger] s2[k]).date,
    ensures
        date_index(s1, d) == date_index(s2, d),
    decreases s1.len(),
{
    if s1.len() > 0 && s1[0].date != d {
        assert forall|k: int|
            0 <= k < s1.drop_first().len() implies (#[trigger] s1.drop_first()[k]).date == (
        #[trigger] s2.drop_first()[k]).date by {
            assert(s1.drop_first()[k] == s1[k + 1]);
            assert(s2.drop_first()[k] == s2[k + 1]);
        }
        lemma_date_index_same_dates(s1.drop_first(), s2.drop_first(), d);
    }
}

proof fn lemma_count_date_none(ss: Seq<SessionRec>, d: Date)
    ensures
        (count_date(ss, d) == 0) <==> (forall|k: int|
            0 <= k < ss.len() ==> (#[trigger] ss[k]).date != d),
        count_date(ss, d) >= 0,
    decreases ss.len(),
{
    if ss.len() > 0 {
        let tail = ss.drop_first();
        lemma_count_date_none(tail, d);
        if count_date(ss, d) == 0 {
            assert(ss[0].date != d);
            assert(count_date(tail, d) == 0);
            assert forall|k: int| 0 <= k < ss.len() implies (#[trigger] ss[k]).date != d by {
                if k > 0 {
                    assert(tail[k - 1] == ss[k]);
                    assert(tail[k - 1].date != d);
                }
            }
        }
        if forall|k: int| 0 <= k < ss.len() ==> (#[trigger] ss[k]).date != d {
            assert forall|k: int| 0 <= k < tail.len() implies (#[trigger] tail[k]).date != d by {
                assert(tail[k] == ss[k + 1]);
                assert(ss[k + 1].date != d);
            }
            assert(count_date(tail, d) == 0);
            assert(count_date(ss, d) == 0);
        }
    }
}

proof fn lemma_count_date_one(ss: Seq<SessionRec>, d: Date, i: int)
    requires
        dates_unique(ss),
        0 <= i < ss.len(),
        ss[i].date == d,
    ensures
        count_date(ss, d) == 1,
    decreases ss.len(),
{
    assert forall|k: int| 0 <= k < ss.drop_first().len() implies #[trigger] ss.drop_first()[k]
        == ss[k + 1] by {}
    if i == 0 {
        lemma_count_date_none(ss.drop_first(), d);
        assert forall|k: int|
            0 <= k < ss.drop_first().len() implies (#[trigger] ss.drop_first()[k]).date != d by {
            assert(ss[0].date != ss[k + 1].date);
        }
    } else {
        assert(ss[0].date != d);
        lemma_count_date_one(ss.drop_first(), d, i - 1);
    }
}

/// The one record that `credit_work` touches, and how: an exact description
/// of the history after crediting a work session to date `d`.
proof fn lemma_credit_work_shape(ss: Seq<SessionRec>, d: Date, m: u32)
    requires
        dates_unique(ss),
    ensures
        credit_work(ss, d, m).len() == ensure_date(ss, d).len(),
        has_date(credit_work(ss, d, m), d),
        date_index(credit_work(ss, d, m), d) == date_index(ensure_date(ss, d), d),
        credit_work(ss, d, m)[date_index(credit_work(ss, d, m), d)] == (SessionRec {
            work_sessions: (ensure_date(ss, d)[date_index(ensure_date(ss, d), d)].work_sessions
                + 1) as u32,
            total_work_minutes: (ensure_date(ss, d)[date_index(
                ensure_date(ss, d),
                d,
            )].total_work_minutes + m) as u32,
            ..ensure_date(ss, d)[date_index(ensure_date(ss, d), d)]
        }),
        forall|k: int|
            0 <= k < credit_work(ss, d, m).len() && k != date_index(ensure_date(ss, d), d)
                ==> #[trigger] credit_work(ss, d, m)[k] == ensure_date(ss, d)[k],
        dates_unique(credit_work(ss, d, m)),
        count_date(credit_work(ss, d, m), d) == 1,
{
    let t = ensure_date(ss, d);
    lemma_date_index_char(ss, d);
    lemma_date_index_char(t, d);
    if !has_date(ss, d) {
        lemma_date_index_char(t, d);
        assert(t[t.len() - 1].date == d);
        assert(date_index(t, d) < t.len());
    }
    let i = date_index(t, d);
    assert(t[i].date == d);
    assert(dates_unique(t));
    let r = credit_work(ss, d, m);
    assert(r[i].date == d);
    lemma_date_index_same_dates(t, r, d);
    lemma_count_date_one(r, d, i);
}

/// Daily aggregates are idempotent-additive: crediting work to the same date
/// twice accumulates both amounts in the single record for that date (totals
/// sum, the session count rises by two), no second record for the date ever
/// appears, and every other record is untouched.
pub proof fn lemma_daily_aggregates_additive(ss: Seq<SessionRec>, d: Date, a: u32, b: u32)
    requires
        dates_unique(ss),
        ensure_date(ss, d)[date_index(ensure_date(ss, d), d)].work_sessions + 2 <= u32::MAX,
        ensure_date(ss, d)[date_index(ensure_date(ss, d), d)].total_work_minutes + a + b
            <= u32::MAX,
    ensures
        credit_work(credit_work(ss, d, a), d, b).len() == ensure_date(ss, d).len(),
        dates_unique(credit_work(credit_work(ss, d, a), d, b)),
        count_date(credit_work(credit_work(ss, d, a), d, b), d) == 1,
        credit_work(credit_work(ss, d, a), d, b)[date_index(
            credit_work(credit_work(ss, d, a), d, b),
            d,
        )] == (SessionRec {
            work_sessions: (ensure_date(ss, d)[date_index(ensure_date(ss, d), d)].work_sessions
                + 2) as u32,
            total_work_minutes: (ensure_date(ss, d)[date_index(
                ensure_date(ss, d),
                d,
            )].total_work_minutes + a + b) as u32,
            ..ensure_date(ss, d)[date_index(ensure_date(ss, d), d)]
        }),
        forall|k: int|
            0 <= k < credit_work(credit_work(ss, d, a), d, b).len() && k != date_index(
                ensure_date(ss, d),
                d,
            ) ==> #[trigger] credit_work(credit_work(ss, d, a), d, b)[k] == ensure_date(ss, d)[k],
{
    lemma_credit_work_shape(ss, d, a);
    let s1 = credit_work(ss, d, a);
    lemma_credit_work_shape(s1, d, b);
    assert(ensure_date(s1, d) == s1);
}

/// Whether `name`'s character sequence already occurs in `v`.
fn contains_name(v: &Vec<String>, name: &String) -> (r: bool)
    ensures
        r == v.deep_view().contains(name@),
{
    let n = v.len();
    let mut j: usize = 0;
    while j < n
        invariant
            n == v@.len(),
            j <= n,
            forall|k: int| 0 <= k < j ==> v.deep_view()[k] != name@,
        decreases n - j,
    {
        if v[j].eq(name) {
            assert(v.deep_view()[j as int] == name@);
            return true;
        }
        assert(v.deep_view()[j as int] != name@);
        j = j + 1;
    }
    assert(forall|k: int| 0 <= k < v.deep_view().len() ==> v.deep_view()[k] != name@);
    false
}

/// A field-for-field copy of a stored record.
fn clone_session(s: &PomodoroSession) -> (r: PomodoroSession)
    ensures
        r@ == s@,
        r.date == s.date,
{
    let n = s.tasks_worked_on.len();
    let mut tasks: Vec<String> = Vec::new();
    let mut j: usize = 0;
    while j < n
        invariant
            n == s.tasks_worked_on@.len(),
            j <= n,
            tasks@.len() == j,
            forall|k: int| 0 <= k < j ==> (#[trigger] tasks@[k])@ == s.tasks_worked_on@[k]@,
        decreases n - j,
    {
        let c = s.tasks_worked_on[j].clone();
        let ghost prev = tasks@;
        tasks.push(c);
        proof {
            assert forall|k: int|
                0 <= k < j + 1 implies (#[trigger] tasks@[k])@ == s.tasks_worked_on@[k]@ by {
                if k < j {
                    assert(tasks@[k] == prev[k]);
                } else {
                    assert(tasks@[k] == c);
                }
            }
        }
        j = j + 1;
    }
    proof {
        assert(tasks.deep_view() =~= s.tasks_worked_on.deep_view());
    }
    let r = PomodoroSession {
        date: s.date,
        work_sessions: s.work_sessions,
        total_work_minutes: s.total_work_minutes,
        break_sessions: s.break_sessions,
        total_break_minutes: s.total_break_minutes,
        tasks_worked_on: tasks,
    };
    proof {
        assert(r@.tasks =~= s@.tasks);
        assert(r@ =~= s@);
    }
    r
}

/// What completing a phase does: the alarm starts, the timer stops, a work
/// completion credits work minutes to `today`, bumps the pomodoro count and
/// picks the next break (long exactly on every N-th count); a break
/// completion credits break minutes and returns to Work.
pub open spec fn completes_to(pre: Timer, post: Timer, now: u64, today: Date) -> bool {
    &&& post.state == TimerState::Stopped
    &&& post.last_tick is None
    &&& post.alarm_active
    &&& post.alarm_end_time == Some((now + pre.alarm_duration_seconds) as u64)
    &&& post.work_duration == pre.work_duration
    &&& post.short_break_duration == pre.short_break_duration
    &&& post.long_break_duration == pre.long_break_duration
    &&& post.long_break_interval == pre.long_break_interval
    &&& post.alarm_volume == pre.alarm_volume
    &&& post.alarm_duration_seconds == pre.alarm_duration_seconds
    &&& post.selected_todo_index == pre.selected_todo_index
    &&& (pre.phase == PomodoroPhase::Work ==> {
        &&& post.pomodoro_count == pre.pomodoro_count + 1
        &&& (post.phase == PomodoroPhase::LongBreak <==> (pre.pomodoro_count + 1) % (
        pre.long_break_interval as int) == 0)
        &&& (post.phase == PomodoroPhase::ShortBreak <==> (pre.pomodoro_count + 1) % (
        pre.long_break_interval as int) != 0)
        &&& post.time_remaining == post.spec_phase_duration()
        &&& post.current_session_start is None
        &&& post.work_completed_flag == (pre.work_completed_flag || pre.selected_todo_index is Some)
        &&& sessions_view(post.daily_sessions) == credit_work(
            sessions_view(pre.daily_sessions),
            today,
            pre.spec_work_minutes(),
        )
    })
    &&& (pre.phase == PomodoroPhase::ShortBreak ==> {
        &&& post.phase == PomodoroPhase::Work
        &&& post.time_remaining == pre.work_duration
        &&& post.pomodoro_count == pre.pomodoro_count
        &&& post.current_session_start == pre.current_session_start
        &&& post.work_completed_flag == pre.work_completed_flag
        &&& sessions_view(post.daily_sessions) == credit_break(
            sessions_view(pre.daily_sessions),
            today,
            (pre.short_break_duration / 60) as u32,
        )
    })
    &&& (pre.phase == PomodoroPhase::LongBreak ==> {
        &&& post.phase == PomodoroPhase::Work
        &&& post.time_remaining == pre.work_duration
        &&& post.pomodoro_count == pre.pomodoro_count
        &&& post.current_session_start == pre.current_session_start
        &&& post.work_completed_flag == pre.work_completed_flag
        &&& sessions_view(post.daily_sessions) == credit_break(
            sessions_view(pre.daily_sessions),
            today,
            (pre.long_break_duration / 60) as u32,
        )
    })
}

/// The session engine itself.
pub struct Timer {
    pub state: TimerState,
    pub phase: PomodoroPhase,
    pub pomodoro_count: u32,
    /// Seconds left in the current phase.
    pub time_remaining: u64,
    /// Timestamp of the last `update`, present exactly while Running.
    pub last_tick: Option<u64>,
    /// Which external task is being timed, if any.
    pub selected_todo_index: Option<usize>,
    /// Set when a work phase completes while a task is selected.
    pub work_completed_flag: bool,
    pub work_duration: u64,
    pub short_break_duration: u64,
    pub long_break_duration: u64,
    /// A long break follows every N-th completed work session; at least 1.
    pub long_break_interval: u32,
    pub daily_sessions: Vec<PomodoroSession>,
    /// Timestamp at which the open work session started, if one is open.
    pub current_session_start: Option<u64>,
    /// Volume (percent) the music is ducked to while the alarm sounds.
    pub alarm_volume: u32,
    pub alarm_duration_seconds: u64,
    pub alarm_active: bool,
    /// Timestamp at which the alarm stops, present exactly while it sounds.
    pub alarm_end_time: Option<u64>,
}

impl Timer {
    /// Structural invariant: every operation preserves it.
    pub open spec fn wf(self) -> bool {
        &&& self.long_break_interval >= 1
    &&& (self.state == TimerState::Running <==> self.last_tick is Some)
    &&& (self.alarm_active ==> self.alarm_end_time is Some)
    &&& dates_unique(sessions_view(self.daily_sessions))
    &&& forall|i: int|
        0 <= i < self.daily_sessions@.len() ==> (#[trigger] self.daily_sessions@[i]).date.wf()
    }

    /// The configured duration (seconds) of the current phase.
    pub open spec fn spec_phase_duration(self) -> u64 {
        match self.phase {
            PomodoroPhase::Work => self.work_duration,
            PomodoroPhase::ShortBreak => self.short_break_duration,
            PomodoroPhase::LongBreak => self.long_break_duration,
        }
    }

    /// The last-tick timestamp; meaningful only while Running.
    pub open spec fn spec_last_tick(self) -> u64 {
        self.last_tick->0
    }

    /// The alarm-end timestamp; meaningful only while the alarm is active.
    pub open spec fn spec_alarm_end(self) -> u64 {
        self.alarm_end_time->0
    }

    /// The work-session length in whole minutes, remainder discarded.
    pub open spec fn spec_work_minutes(self) -> u32 {
        (self.work_duration / 60) as u32
    }

    pub fn new(
        work_minutes: u64,
        short_break_minutes: u64,
        long_break_minutes: u64,
        sessions_until_long_break: u32,
        alarm_volume: u32,
        alarm_duration_seconds: u64,
    ) -> (t: Timer)
        requires
            work_minutes * 60 <= u64::MAX,
            short_break_minutes * 60 <= u64::MAX,
            long_break_minutes * 60 <= u64::MAX,
            sessions_until_long_break >= 1,
        ensures
            t.wf(),
            t == (Timer {
                state: TimerState::Stopped,
                phase: PomodoroPhase::Work,
                pomodoro_count: 0,
                time_remaining: (work_minutes * 60) as u64,
                last_tick: None::<u64>,
                selected_todo_index: None::<usize>,
                work_completed_flag: false,
                work_duration: (work_minutes * 60) as u64,
                short_break_duration: (short_break_minutes * 60) as u64,
                long_break_duration: (long_break_minutes * 60) as u64,
                long_break_interval: sessions_until_long_break,
                daily_sessions: t.daily_sessions,
                current_session_start: None::<u64>,
                alarm_volume: alarm_volume,
                alarm_duration_seconds: alarm_duration_seconds,
                alarm_active: false,
                alarm_end_time: None::<u64>,
            }),
            t.daily_sessions@.len() == 0,
    {
        Timer {
            state: TimerState::Stopped,
            phase: PomodoroPhase::Work,
            pomodoro_count: 0,
            time_remaining: work_minutes * 60,
            last_tick: None,
            selected_todo_index: None,
            work_completed_flag: false,
            work_duration: work_minutes * 60,
            short_break_duration: short_break_minutes * 60,
            long_break_duration: long_break_minutes * 60,
            long_break_interval: sessions_until_long_break,
            daily_sessions: Vec::new(),
            current_session_start: None,
            alarm_volume,
            alarm_duration_seconds,
            alarm_active: false,
            alarm_end_time: None,
        }
    }

    /// Stopped or Paused become Running; Running becomes Paused, keeping the
    /// remaining time. Entering Running in a Work phase opens a work session
    /// if none is open.
    pub fn start(&mut self, now: u64)
        requires
            old(self).wf(),
        ensures
            final(self).wf(),
            old(self).state != TimerState::Running ==> *final(self) == (Timer {
                state: TimerState::Running,
                last_tick: Some(now),
                current_session_start: if old(self).phase == PomodoroPhase::Work && old(self).current_session_start is None {
                    Some(now)
                } else {
                    old(self).current_session_start
                },
                ..*old(self)
            }),
            old(self).state == TimerState::Running ==> *final(self) == (Timer {
                state: TimerState::Paused,
                last_tick: None::<u64>,
                ..*old(self)
            }),
    {
        match self.state {
            TimerState::Stopped | TimerState::Paused => {
                self.state = TimerState::Running;
                self.last_tick = Some(now);
                if self.phase == PomodoroPhase::Work && self.current_session_start.is_none() {
                    self.current_session_start = Some(now);
                }
            },
            TimerState::Running => {
                self.state = TimerState::Paused;
                self.last_tick = None;
            },
        }
    }

    /// Same toggle as `start`.
    pub fn toggle_start_pause(&mut self, now: u64)
        requires
            old(self).wf(),
        ensures
            final(self).wf(),
            old(self).state != TimerState::Running ==> *final(self) == (Timer {
                state: TimerState::Running,
                last_tick: Some(now),
                current_session_start: if old(self).phase == PomodoroPhase::Work && old(self).current_session_start is None {
                    Some(now)
                } else {
                    old(self).current_session_start
                },
                ..*old(self)
            }),
            old(self).state == TimerState::Running ==> *final(self) == (Timer {
                state: TimerState::Paused,
                last_tick: None::<u64>,
                ..*old(self)
            }),
    {
        self.start(now);
    }

    pub fn stop(&mut self)
        requires
            old(self).wf(),
        ensures
            final(self).wf(),
            *final(self) == (Timer { state: TimerState::Stopped, last_tick: None::<u64>, ..*old(self) }),
    {
        self.state = TimerState::Stopped;
        self.last_tick = None;
    }

    /// Stop and restore the current phase's full duration; counters untouched.
    pub fn reset(&mut self)
        requires
            old(self).wf(),
        ensures
            final(self).wf(),
            *final(self) == (Timer {
                state: TimerState::Stopped,
                last_tick: None::<u64>,
                time_remaining: old(self).spec_phase_duration(),
                ..*old(self)
            }),
    {
        self.state = TimerState::Stopped;
        self.last_tick = None;
        self.time_remaining = match self.phase {
            PomodoroPhase::Work => self.work_duration,
            PomodoroPhase::ShortBreak => self.short_break_duration,
            PomodoroPhase::LongBreak => self.long_break_duration,
        };
    }

    pub fn set_selected_todo(&mut self, index: Option<usize>)
        requires
            old(self).wf(),
        ensures
            final(self).wf(),
            *final(self) == (Timer { selected_todo_index: index, ..*old(self) }),
    {
        self.selected_todo_index = index;
    }

    pub fn get_selected_todo(&self) -> (r: Option<usize>)
        ensures
            r == self.selected_todo_index,
    {
        self.selected_todo_index
    }

    /// Minutes credited to a task when a work phase completes.
    pub fn get_work_session_minutes(&self) -> (r: u32)
        requires
            self.work_duration / 60 <= u32::MAX,
        ensures
            r == self.spec_work_minutes(),
    {
        (self.work_duration / 60) as u32
    }

    /// True when a work phase just completed with a task selected.
    pub fn work_phase_just_completed(&self) -> (r: bool)
        ensures
            r == (self.work_completed_flag && self.selected_todo_index is Some),
    {
        self.work_completed_flag && self.selected_todo_index.is_some()
    }

    pub fn clear_work_completed_flag(&mut self)
        requires
            old(self).wf(),
        ensures
            final(self).wf(),
            *final(self) == (Timer { work_completed_flag: false, ..*old(self) }),
    {
        self.work_completed_flag = false;
    }

    pub fn is_alarm_active(&self) -> (r: bool)
        ensures
            r == self.alarm_active,
    {
        self.alarm_active
    }

    /// The ducking volume (percent) configured for the alarm.
    pub fn get_alarm_volume(&self) -> (r: u32)
        ensures
            r == self.alarm_volume,
    {
        self.alarm_volume
    }

    /// Room left in the counters that completing the current phase bumps.
    /// Machine limits only: callers with realistic values always satisfy it.
    pub open spec fn complete_headroom(self, today: Date) -> bool {
        let t = ensure_date(sessions_view(self.daily_sessions), today);
        let i = date_index(t, today);
        &&& (self.phase == PomodoroPhase::Work ==> {
            &&& self.pomodoro_count < u32::MAX
            &&& self.work_duration / 60 <= u32::MAX
            &&& t[i].work_sessions < u32::MAX
            &&& t[i].total_work_minutes + self.work_duration / 60 <= u32::MAX
        })
        &&& (self.phase == PomodoroPhase::ShortBreak ==> {
            &&& self.short_break_duration / 60 <= u32::MAX
            &&& t[i].break_sessions < u32::MAX
            &&& t[i].total_break_minutes + self.short_break_duration / 60 <= u32::MAX
        })
        &&& (self.phase == PomodoroPhase::LongBreak ==> {
            &&& self.long_break_duration / 60 <= u32::MAX
            &&& t[i].break_sessions < u32::MAX
            &&& t[i].total_break_minutes + self.long_break_duration / 60 <= u32::MAX
        })
    }

    /// Index of this engine's record for date `d`, if one exists.
    fn find_date_index(&self, d: Date) -> (r: Option<usize>)
        ensures
            r matches Some(i) ==> i as int == date_index(sessions_view(self.daily_sessions), d)
                && (i as int) < self.daily_sessions@.len(),
            r is None ==> !has_date(sessions_view(self.daily_sessions), d),
    {
        proof {
            lemma_date_index_char(sessions_view(self.daily_sessions), d);
        }
        let n = self.daily_sessions.len();
        let mut j: usize = 0;
        while j < n
            invariant
                n == self.daily_sessions@.len(),
                j <= n,
                forall|k: int|
                    0 <= k < j ==> (#[trigger] sessions_view(self.daily_sessions)[k]).date != d,
                0 <= date_index(sessions_view(self.daily_sessions), d) <= n,
                date_index(sessions_view(self.daily_sessions), d) < n ==> sessions_view(
                    self.daily_sessions,
                )[date_index(sessions_view(self.daily_sessions), d)].date == d,
                forall|k: int|
                    0 <= k < date_index(sessions_view(self.daily_sessions), d) ==> (
                    #[trigger] sessions_view(self.daily_sessions)[k]).date != d,
            decreases n - j,
        {
            if self.daily_sessions[j].date == d {
                assert(sessions_view(self.daily_sessions)[j as int].date == d);
                return Some(j);
            }
            assert(sessions_view(self.daily_sessions)[j as int].date != d);
            j = j + 1;
        }
        None
    }

    /// Make sure a record for `today` exists and return its index; all fields
    /// but the history are untouched.
    fn ensure_today(&mut self, today: Date) -> (i: usize)
        requires
            old(self).wf(),
            today.wf(),
        ensures
            final(self).wf(),
            sessions_view(final(self).daily_sessions) == ensure_date(
                sessions_view(old(self).daily_sessions),
                today,
            ),
            i as int == date_index(sessions_view(final(self).daily_sessions), today),
            (i as int) < final(self).daily_sessions@.len(),
            final(self).daily_sessions@[i as int].date == today,
            *final(self) == (Timer { daily_sessions: final(self).daily_sessions, ..*old(self) }),
    {
        proof {
            lemma_date_index_char(sessions_view(self.daily_sessions), today);
        }
        match self.find_date_index(today) {
            Some(i) => {
                assert(sessions_view(self.daily_sessions)[i as int].date == today);
                i
            },
            None => {
                let i = self.daily_sessions.len();
                let fresh = PomodoroSession {
                    date: today,
                    work_sessions: 0,
                    total_work_minutes: 0,
                    break_sessions: 0,
                    total_break_minutes: 0,
                    tasks_worked_on: Vec::new(),
                };
                proof {
                    assert(fresh@.tasks =~= empty_rec(today).tasks);
                    assert(fresh@ =~= empty_rec(today));
                    lemma_sv_push(old(self).daily_sessions@, fresh);
                }
                self.daily_sessions.push(fresh);
                proof {
                    let nsv = sessions_view(self.daily_sessions);
                    assert(nsv =~= sessions_view(old(self).daily_sessions).push(
                        empty_rec(today),
                    ));
                    lemma_date_index_char(nsv, today);
                    assert(nsv[i as int].date == today);
                }
                i
            },
        }
    }

    /// Complete the current phase: trigger the alarm, credit today's record,
    /// advance the phase cycle, and stop the timer.
    fn complete_phase(&mut self, now: u64, today: Date)
        requires
            old(self).wf(),
            today.wf(),
            old(self).complete_headroom(today),
            now + old(self).alarm_duration_seconds <= u64::MAX,
        ensures
            final(self).wf(),
            completes_to(*old(self), *final(self), now, today),
    {
        self.alarm_active = true;
        self.alarm_end_time = Some(now + self.alarm_duration_seconds);
        let ghost old_sv = sessions_view(old(self).daily_sessions);
        let i = self.ensure_today(today);
        let ghost mid = *self;
        let ghost t = sessions_view(self.daily_sessions);
        proof {
            assert(t == ensure_date(old_sv, today));
            lemma_date_index_char(t, today);
            assert(t[i as int] == self.daily_sessions@[i as int]@);
        }
        let mut entry = self.daily_sessions.remove(i);
        match self.phase {
            PomodoroPhase::Work => {
                let wm = (self.work_duration / 60) as u32;
                entry.work_sessions = entry.work_sessions + 1;
                entry.total_work_minutes = entry.total_work_minutes + wm;
            },
            PomodoroPhase::ShortBreak => {
                let bm = (self.short_break_duration / 60) as u32;
                entry.break_sessions = entry.break_sessions + 1;
                entry.total_break_minutes = entry.total_break_minutes + bm;
            },
            PomodoroPhase::LongBreak => {
                let bm = (self.long_break_duration / 60) as u32;
                entry.break_sessions = entry.break_sessions + 1;
                entry.total_break_minutes = entry.total_break_minutes + bm;
            },
        }
        self.daily_sessions.insert(i, entry);
        proof {
            lemma_sv_remove_insert(mid.daily_sessions@, i as int, entry);
            assert(sessions_view(self.daily_sessions) =~= t.update(i as int, entry@));
            if self.phase == PomodoroPhase::Work {
                assert(entry@ =~= (SessionRec {
                    work_sessions: (t[i as int].work_sessions + 1) as u32,
                    total_work_minutes: (t[i as int].total_work_minutes
                        + self.spec_work_minutes()) as u32,
                    ..t[i as int]
                }));
                assert(sessions_view(self.daily_sessions) == credit_work(
                    old_sv,
                    today,
                    self.spec_work_minutes(),
                ));
            } else if self.phase == PomodoroPhase::ShortBreak {
                assert(entry@ =~= (SessionRec {
                    break_sessions: (t[i as int].break_sessions + 1) as u32,
                    total_break_minutes: (t[i as int].total_break_minutes
                        + (self.short_break_duration / 60) as u32) as u32,
                    ..t[i as int]
                }));
                assert(sessions_view(self.daily_sessions) == credit_break(
                    old_sv,
                    today,
                    (self.short_break_duration / 60) as u32,
                ));
            } else {
                assert(entry@ =~= (SessionRec {
                    break_sessions: (t[i as int].break_sessions + 1) as u32,
                    total_break_minutes: (t[i as int].total_break_minutes
                        + (self.long_break_duration / 60) as u32) as u32,
                    ..t[i as int]
                }));
                assert(sessions_view(self.daily_sessions) == credit_break(
                    old_sv,
                    today,
                    (self.long_break_duration / 60) as u32,
                ));
            }
            assert forall|a: int, b: int|
                0 <= a < b < sessions_view(self.daily_sessions).len() implies (
            #[trigger] sessions_view(self.daily_sessions)[a]).date != (#[trigger] sessions_view(
                self.daily_sessions,
            )[b]).date by {
                assert(sessions_view(self.daily_sessions)[a].date == t[a].date);
                assert(sessions_view(self.daily_sessions)[b].date == t[b].date);
            }
            assert forall|k: int|
                0 <= k < self.daily_sessions@.len() implies (
            #[trigger] self.daily_sessions@[k]).date.wf() by {
                assert(self.daily_sessions@[k]@.date == sessions_view(self.daily_sessions)[k].date);
                assert(t[k].date.wf());
            }
        }
        match self.phase {
            PomodoroPhase::Work => {
                if self.selected_todo_index.is_some() {
                    self.work_completed_flag = true;
                }
                self.pomodoro_count = self.pomodoro_count + 1;
                self.current_session_start = None;
                if self.pomodoro_count % self.long_break_interval == 0 {
                    self.phase = PomodoroPhase::LongBreak;
                    self.time_remaining = self.long_break_duration;
                } else {
                    self.phase = PomodoroPhase::ShortBreak;
                    self.time_remaining = self.short_break_duration;
                }
            },
            PomodoroPhase::ShortBreak => {
                self.phase = PomodoroPhase::Work;
                self.time_remaining = self.work_duration;
            },
            PomodoroPhase::LongBreak => {
                self.phase = PomodoroPhase::Work;
                self.time_remaining = self.work_duration;
            },
        }
        self.state = TimerState::Stopped;
        self.last_tick = None;
    }

    /// One scheduler tick. While Running, `now - last_tick` seconds elapse:
    /// strictly less than the remaining time just counts down; at least the
    /// remaining time completes the phase.
    pub fn update(&mut self, now: u64, today: Date)
        requires
            old(self).wf(),
            today.wf(),
            old(self).state == TimerState::Running ==> now >= old(self).spec_last_tick(),
            old(self).state == TimerState::Running ==> old(self).complete_headroom(today),
            old(self).state == TimerState::Running ==> now + old(self).alarm_duration_seconds
                <= u64::MAX,
        ensures
            final(self).wf(),
            old(self).state != TimerState::Running ==> *final(self) == *old(self),
            old(self).state == TimerState::Running && now - old(self).spec_last_tick() < old(self).time_remaining ==> *final(self) == (Timer {
                time_remaining: (old(self).time_remaining - (now - old(self).spec_last_tick())) as u64,
                last_tick: Some(now),
                ..*old(self)
            }),
            old(self).state == TimerState::Running && now - old(self).spec_last_tick() >= old(self).time_remaining ==> completes_to(*old(self), *final(self), now, today),
    {
        if !matches!(self.state, TimerState::Running) {
            return ;
        }
        if let Some(last_tick) = self.last_tick {
            let elapsed = now - last_tick;
            if elapsed >= self.time_remaining {
                self.time_remaining = 0;
                self.complete_phase(now, today);
                return ;
            } else {
                self.time_remaining = self.time_remaining - elapsed;
            }
        }
        self.last_tick = Some(now);
    }

    /// Force the current phase to complete, regardless of remaining time.
    pub fn skip_phase(&mut self, now: u64, today: Date)
        requires
            old(self).wf(),
            today.wf(),
            old(self).complete_headroom(today),
            now + old(self).alarm_duration_seconds <= u64::MAX,
        ensures
            final(self).wf(),
            completes_to(*old(self), *final(self), now, today),
    {
        self.complete_phase(now, today);
    }

    /// Record which task is timed; a provided name is also added (once) to
    /// today's record.
    pub fn set_selected_todo_with_task_name(
        &mut self,
        index: Option<usize>,
        task_name: Option<String>,
        today: Date,
    )
        requires
            old(self).wf(),
            today.wf(),
        ensures
            final(self).wf(),
            final(self).selected_todo_index == index,
            task_name is None ==> *final(self) == (Timer {
                selected_todo_index: index,
                ..*old(self)
            }),
            task_name matches Some(nm) ==> sessions_view(final(self).daily_sessions)
                == record_task(sessions_view(old(self).daily_sessions), today, nm@),
            task_name is Some ==> *final(self) == (Timer {
                selected_todo_index: index,
                daily_sessions: final(self).daily_sessions,
                ..*old(self)
            }),
    {
        self.selected_todo_index = index;
        if let Some(name) = task_name {
            let ghost old_sv = sessions_view(old(self).daily_sessions);
            let i = self.ensure_today(today);
            let ghost mid = *self;
            let ghost t = sessions_view(self.daily_sessions);
            proof {
                lemma_date_index_char(t, today);
                assert(t[i as int] == self.daily_sessions@[i as int]@);
            }
            let mut entry = self.daily_sessions.remove(i);
            let known = contains_name(&entry.tasks_worked_on, &name);
            if !known {
                let ghost old_tasks = entry.tasks_worked_on@;
                entry.tasks_worked_on.push(name);
                proof {
                    assert(entry.tasks_worked_on.deep_view() =~= old_tasks.map_values(
                        |s: String| s@,
                    ).push(entry.tasks_worked_on@[old_tasks.len() as int]@));
                    assert(entry@ =~= (SessionRec {
                        tasks: t[i as int].tasks.push(entry.tasks_worked_on@[old_tasks.len() as int]@),
                        ..t[i as int]
                    }));
                }
            }
            self.daily_sessions.insert(i, entry);
            proof {
                lemma_sv_remove_insert(mid.daily_sessions@, i as int, entry);
                assert(sessions_view(self.daily_sessions) =~= t.update(i as int, entry@));
                if known {
                    assert(t.update(i as int, entry@) =~= t);
                }
                assert(sessions_view(self.daily_sessions) == record_task(old_sv, today, name@));
                assert forall|a: int, b: int|
                    0 <= a < b < sessions_view(self.daily_sessions).len() implies (
                #[trigger] sessions_view(self.daily_sessions)[a]).date != (#[trigger] sessions_view(
                    self.daily_sessions,
                )[b]).date by {
                    assert(sessions_view(self.daily_sessions)[a].date == t[a].date);
                    assert(sessions_view(self.daily_sessions)[b].date == t[b].date);
                }
                assert forall|k: int|
                    0 <= k < self.daily_sessions@.len() implies (
                #[trigger] self.daily_sessions@[k]).date.wf() by {
                    assert(self.daily_sessions@[k]@.date == sessions_view(
                        self.daily_sessions,
                    )[k].date);
                    assert(t[k].date.wf());
                }
            }
        }
    }

    /// A copy of today's record, created fresh if none existed yet.
    pub fn get_today_session(&mut self, today: Date) -> (s: PomodoroSession)
        requires
            old(self).wf(),
            today.wf(),
        ensures
            final(self).wf(),
            sessions_view(final(self).daily_sessions) == ensure_date(
                sessions_view(old(self).daily_sessions),
                today,
            ),
            *final(self) == (Timer { daily_sessions: final(self).daily_sessions, ..*old(self) }),
            s@ == sessions_view(final(self).daily_sessions)[date_index(
                sessions_view(final(self).daily_sessions),
                today,
            )],
            s.date == today,
    {
        let i = self.ensure_today(today);
        clone_session(&self.daily_sessions[i])
    }

    pub fn get_daily_sessions(&self) -> (r: &Vec<PomodoroSession>)
        ensures
            *r == self.daily_sessions,
    {
        &self.daily_sessions
    }

    /// Replace the whole history, restoring today's pomodoro count from the
    /// loaded record for `today` when one exists.
    pub fn load_daily_sessions(&mut self, sessions: Vec<PomodoroSession>, today: Date)
        requires
            old(self).wf(),
            dates_unique(sv_seq(sessions@)),
            forall|i: int| 0 <= i < sessions@.len() ==> (#[trigger] sessions@[i]).date.wf(),
        ensures
            final(self).wf(),
            final(self).daily_sessions == sessions,
            has_date(sv_seq(sessions@), today) ==> final(self).pomodoro_count == sv_seq(
                sessions@,
            )[date_index(sv_seq(sessions@), today)].work_sessions,
            !has_date(sv_seq(sessions@), today) ==> final(self).pomodoro_count == old(self).pomodoro_count,
            *final(self) == (Timer {
                daily_sessions: sessions,
                pomodoro_count: final(self).pomodoro_count,
                ..*old(self)
            }),
    {
        self.daily_sessions = sessions;
        match self.find_date_index(today) {
            Some(i) => {
                self.pomodoro_count = self.daily_sessions[i].work_sessions;
                proof {
                    assert(self.daily_sessions@[i as int]@.work_sessions == sv_seq(
                        self.daily_sessions@,
                    )[i as int].work_sessions);
                }
            },
            None => {},
        }
    }

    /// The alarm is reported active exactly while `now` lies strictly before
    /// its end; reaching the end clears it.
    pub fn update_alarm_state(&mut self, now: u64) -> (r: bool)
        requires
            old(self).wf(),
        ensures
            final(self).wf(),
            r == (old(self).alarm_active && now < old(self).spec_alarm_end()),
            r == final(self).alarm_active,
            (old(self).alarm_active && now >= old(self).spec_alarm_end()) ==> *final(self) == (Timer {
                alarm_active: false,
                alarm_end_time: None::<u64>,
                ..*old(self)
            }),
            !(old(self).alarm_active && now >= old(self).spec_alarm_end()) ==> *final(self) == *old(self),
    {
        if self.alarm_active {
            if let Some(end_time) = self.alarm_end_time {
                if now >= end_time {
                    self.alarm_active = false;
                    self.alarm_end_time = None;
                    return false;
                }
                return true;
            }
        }
        false
    }
}

} // verus!
