//! Detection of schedules that would command two effects at once.
use vstd::prelude::*;
use crate::models::{BasicResponse, CalendarSchedule, DailySchedule, ScheduleDate, ScheduleTime};
use crate::text::{append_str, int_text, push_int, string_of};

verus! {

/// Minutes since midnight.
pub open spec fn minute_of(t: ScheduleTime) -> int {
    t.hours * 60 + t.minutes
}

/// The coarse ordinal `month * 31 + day` that dates are compared by.
pub open spec fn ordinal_of(d: ScheduleDate) -> int {
    d.month * 31 + d.day
}

/// Whether the closed ranges `[s1, e1]` and `[s2, e2]` meet.
pub open spec fn ranges_overlap(s1: int, e1: int, s2: int, e2: int) -> bool {
    (s1 <= e2 && e1 >= s2) || (s2 <= e1 && e2 >= s1)
}

/// Whether two repetitions can fall on one day: today-only never does,
/// every-day always does, weekdays meet weekdays and weekends meet weekends.
pub open spec fn days_overlap(r1: int, r2: int) -> bool {
    if r1 == 0 || r2 == 0 {
        false
    } else if r1 == 1 || r2 == 1 {
        true
    } else {
        (r1 == 2 && r2 == 2) || (r1 == 3 && r2 == 3)
    }
}

/// Two enabled daily schedules whose days and times both meet.
pub open spec fn daily_conflict(a: DailySchedule, b: DailySchedule) -> bool {
    &&& a.enable
    &&& b.enable
    &&& days_overlap(a.repetition as int, b.repetition as int)
    &&& ranges_overlap(
        minute_of(a.start_time),
        minute_of(a.end_time),
        minute_of(b.start_time),
        minute_of(b.end_time),
    )
}

/// Two calendar schedules whose date ranges and time ranges both meet.
pub open spec fn calendar_conflict(a: CalendarSchedule, b: CalendarSchedule) -> bool {
    &&& ranges_overlap(
        ordinal_of(a.start_date),
        ordinal_of(a.end_date),
        ordinal_of(b.start_date),
        ordinal_of(b.end_date),
    )
    &&& ranges_overlap(
        minute_of(a.start_time),
        minute_of(a.end_time),
        minute_of(b.start_time),
        minute_of(b.end_time),
    )
}

/// The pairs `(i, k)` with `i < k < j` whose daily schedules conflict, by `k`.
pub open spec fn daily_row(d: Seq<DailySchedule>, i: int, j: int) -> Seq<(int, int)>
    decreases j - i,
{
    if j <= i + 1 {
        seq![]
    } else {
        let p = daily_row(d, i, j - 1);
        if daily_conflict(d[i], d[j - 1]) {
            p.push((i, j - 1))
        } else {
            p
        }
    }
}

/// The conflicting daily pairs whose first index is below `n`, in index order.
pub open spec fn daily_pairs_below(d: Seq<DailySchedule>, n: int) -> Seq<(int, int)>
    decreases n,
{
    if n <= 0 {
        seq![]
    } else {
        daily_pairs_below(d, n - 1) + daily_row(d, n - 1, d.len() as int)
    }
}

/// Every conflicting pair of daily schedules, as index pairs `i < j`.
pub open spec fn daily_pairs(d: Seq<DailySchedule>) -> Seq<(int, int)> {
    daily_pairs_below(d, d.len() as int)
}

/// The pairs `(i, k)` with `i < k < j` whose calendar schedules conflict.
pub open spec fn calendar_row(c: Seq<CalendarSchedule>, i: int, j: int) -> Seq<(int, int)>
    decreases j - i,
{
    if j <= i + 1 {
        seq![]
    } else {
        let p = calendar_row(c, i, j - 1);
        if calendar_conflict(c[i], c[j - 1]) {
            p.push((i, j - 1))
        } else {
            p
        }
    }
}

/// The conflicting calendar pairs whose first index is below `n`.
pub open spec fn calendar_pairs_below(c: Seq<CalendarSchedule>, n: int) -> Seq<(int, int)>
    decreases n,
{
    if n <= 0 {
        seq![]
    } else {
        calendar_pairs_below(c, n - 1) + calendar_row(c, n - 1, c.len() as int)
    }
}

/// Every conflicting pair of calendar schedules, as index pairs `i < j`.
pub open spec fn calendar_pairs(c: Seq<CalendarSchedule>) -> Seq<(int, int)> {
    calendar_pairs_below(c, c.len() as int)
}

pub open spec fn daily_message(a: DailySchedule, b: DailySchedule) -> Seq<char> {
    "Daily schedules "@ + int_text(a.id as int) + " and "@ + int_text(b.id as int)
        + " have overlapping times"@
}

pub open spec fn calendar_message(a: CalendarSchedule, b: CalendarSchedule) -> Seq<char> {
    "Calendar schedules "@ + int_text(a.id as int) + " and "@ + int_text(b.id as int)
        + " have overlapping dates and times"@
}

pub open spec fn daily_messages(d: Seq<DailySchedule>, pairs: Seq<(int, int)>) -> Seq<Seq<char>> {
    pairs.map_values(|p: (int, int)| daily_message(d[p.0], d[p.1]))
}

pub open spec fn calendar_messages(c: Seq<CalendarSchedule>, pairs: Seq<(int, int)>) -> Seq<
    Seq<char>,
> {
    pairs.map_values(|p: (int, int)| calendar_message(c[p.0], c[p.1]))
}

/// One description per conflict: the daily pairs, then the calendar pairs.
pub open spec fn conflict_messages(d: Seq<DailySchedule>, c: Seq<CalendarSchedule>) -> Seq<
    Seq<char>,
> {
    daily_messages(d, daily_pairs(d)) + calendar_messages(c, calendar_pairs(c))
}

/// The lines joined with a newline between each two.
pub open spec fn join_lines(ls: Seq<Seq<char>>) -> Seq<char>
    decreases ls.len(),
{
    if ls.len() == 0 {
        seq![]
    } else if ls.len() == 1 {
        ls[0]
    } else {
        join_lines(ls.drop_last()) + seq!['\n'] + ls.last()
    }
}

fn minutes(t: ScheduleTime) -> (r: i64)
    ensures
        r == minute_of(t),
{
    t.hours as i64 * 60 + t.minutes as i64
}

fn ordinal(d: ScheduleDate) -> (r: i64)
    ensures
        r == ordinal_of(d),
{
    d.month as i64 * 31 + d.day as i64
}

fn overlap(s1: i64, e1: i64, s2: i64, e2: i64) -> (r: bool)
    ensures
        r == ranges_overlap(s1 as int, e1 as int, s2 as int, e2 as int),
{
    (s1 <= e2 && e1 >= s2) || (s2 <= e1 && e2 >= s1)
}

/// Whether two daily schedules conflict.
pub fn daily_schedules_conflict(a: &DailySchedule, b: &DailySchedule) -> (r: bool)
    ensures
        r == daily_conflict(*a, *b),
{
    if !a.enable || !b.enable {
        return false;
    }
    let days = if a.repetition == 0 || b.repetition == 0 {
        false
    } else if a.repetition == 1 || b.repetition == 1 {
        true
    } else {
        (a.repetition == 2 && b.repetition == 2) || (a.repetition == 3 && b.repetition == 3)
    };
    days && overlap(
        minutes(a.start_time),
        minutes(a.end_time),
        minutes(b.start_time),
        minutes(b.end_time),
    )
}

/// Whether two calendar schedules conflict.
pub fn calendar_schedules_conflict(a: &CalendarSchedule, b: &CalendarSchedule) -> (r: bool)
    ensures
        r == calendar_conflict(*a, *b),
{
    overlap(ordinal(a.start_date), ordinal(a.end_date), ordinal(b.start_date), ordinal(b.end_date))
        && overlap(
        minutes(a.start_time),
        minutes(a.end_time),
        minutes(b.start_time),
        minutes(b.end_time),
    )
}

/// Appends `line` to the text of `ls`, joined as `join_lines` joins.
proof fn lemma_join_push(ls: Seq<Seq<char>>, line: Seq<char>)
    ensures
        join_lines(ls.push(line)) == if ls.len() == 0 {
            line
        } else {
            join_lines(ls) + seq!['\n'] + line
        },
{
    assert(ls.push(line).drop_last() =~= ls);
}

/// Appends the description of one daily conflict to `text`, after a newline
/// unless `text` is empty.
fn push_daily_line(text: &mut Vec<char>, first: bool, a: &DailySchedule, b: &DailySchedule)
    ensures
        final(text)@ == if first {
            old(text)@ + daily_message(*a, *b)
        } else {
            old(text)@ + seq!['\n'] + daily_message(*a, *b)
        },
{
    let ghost start = text@;
    if !first {
        text.push('\n');
    }
    let ghost base = text@;
    append_str(text, "Daily schedules ");
    push_int(text, a.id as i64);
    append_str(text, " and ");
    push_int(text, b.id as i64);
    append_str(text, " have overlapping times");
    assert(text@ =~= base + daily_message(*a, *b));
    assert(!first ==> base =~= start + seq!['\n']);
}

/// Appends the description of one calendar conflict to `text`.
fn push_calendar_line(
    text: &mut Vec<char>,
    first: bool,
    a: &CalendarSchedule,
    b: &CalendarSchedule,
)
    ensures
        final(text)@ == if first {
            old(text)@ + calendar_message(*a, *b)
        } else {
            old(text)@ + seq!['\n'] + calendar_message(*a, *b)
        },
{
    let ghost start = text@;
    if !first {
        text.push('\n');
    }
    let ghost base = text@;
    append_str(text, "Calendar schedules ");
    push_int(text, a.id as i64);
    append_str(text, " and ");
    push_int(text, b.id as i64);
    append_str(text, " have overlapping dates and times");
    assert(text@ =~= base + calendar_message(*a, *b));
    assert(!first ==> base =~= start + seq!['\n']);
}

/// Reports every conflicting pair among the daily schedules (enabled ones
/// whose days and times meet) and among the calendar schedules (those whose
/// dates and times meet): code 0 with "No conflicts found" when there is none,
/// otherwise code 1 with one line per conflict, daily pairs first, each pass
/// in index order.
pub fn find_conflicts(daily: &Vec<DailySchedule>, calendar: &Vec<CalendarSchedule>) -> (r:
    BasicResponse)
    ensures
        ({
            let m = conflict_messages(daily@, calendar@);
            if m.len() == 0 {
                r.code == 0 && r.desc@ == "No conflicts found"@
            } else {
                r.code == 1 && r.desc@ == join_lines(m)
            }
        }),
{
    let ghost d = daily@;
    let ghost c = calendar@;
    let mut text: Vec<char> = Vec::new();
    let mut found = false;
    let ghost mut msgs: Seq<Seq<char>> = seq![];
    let n = daily.len();
    let mut i: usize = 0;
    while i < n
        invariant
            n == d.len(),
            d == daily@,
            i <= n,
            msgs == daily_messages(d, daily_pairs_below(d, i as int)),
            text@ == join_lines(msgs),
            found == (msgs.len() > 0),
        decreases n - i,
    {
        let mut j: usize = i + 1;
        assert(daily_messages(d, daily_pairs_below(d, i as int) + daily_row(d, i as int, j as int))
            =~= msgs);
        while j < n
            invariant
                n == d.len(),
                d == daily@,
                i < n,
                i + 1 <= j <= n,
                msgs == daily_messages(
                    d,
                    daily_pairs_below(d, i as int) + daily_row(d, i as int, j as int),
                ),
                text@ == join_lines(msgs),
                found == (msgs.len() > 0),
            decreases n - j,
        {
            let ghost pairs = daily_pairs_below(d, i as int) + daily_row(d, i as int, j as int);
            if daily_schedules_conflict(&daily[i], &daily[j]) {
                push_daily_line(&mut text, !found, &daily[i], &daily[j]);
                proof {
                    lemma_join_push(msgs, daily_message(d[i as int], d[j as int]));
                    msgs = msgs.push(daily_message(d[i as int], d[j as int]));
                    assert(daily_pairs_below(d, i as int) + daily_row(d, i as int, j + 1)
                        =~= pairs.push((i as int, j as int)));
                    assert(daily_messages(d, pairs.push((i as int, j as int))) =~= msgs);
                }
                found = true;
            } else {
                assert(daily_pairs_below(d, i as int) + daily_row(d, i as int, j + 1) =~= pairs);
            }
            j = j + 1;
        }
        i = i + 1;
    }
    let ghost daily_msgs = msgs;
    assert(daily_msgs == daily_messages(d, daily_pairs(d)));
    let m = calendar.len();
    let mut i: usize = 0;
    assert(msgs =~= daily_msgs + calendar_messages(c, calendar_pairs_below(c, 0)));
    while i < m
        invariant
            m == c.len(),
            c == calendar@,
            i <= m,
            msgs == daily_msgs + calendar_messages(c, calendar_pairs_below(c, i as int)),
            text@ == join_lines(msgs),
            found == (msgs.len() > 0),
        decreases m - i,
    {
        let mut j: usize = i + 1;
        assert(daily_msgs + calendar_messages(
            c,
            calendar_pairs_below(c, i as int) + calendar_row(c, i as int, j as int),
        ) =~= msgs);
        while j < m
            invariant
                m == c.len(),
                c == calendar@,
                i < m,
                i + 1 <= j <= m,
                msgs == daily_msgs + calendar_messages(
                    c,
                    calendar_pairs_below(c, i as int) + calendar_row(c, i as int, j as int),
                ),
                text@ == join_lines(msgs),
                found == (msgs.len() > 0),
            decreases m - j,
        {
            let ghost pairs = calendar_pairs_below(c, i as int) + calendar_row(
                c,
                i as int,
                j as int,
            );
            if calendar_schedules_conflict(&calendar[i], &calendar[j]) {
                push_calendar_line(&mut text, !found, &calendar[i], &calendar[j]);
                proof {
                    lemma_join_push(msgs, calendar_message(c[i as int], c[j as int]));
                    msgs = msgs.push(calendar_message(c[i as int], c[j as int]));
                    assert(calendar_pairs_below(c, i as int) + calendar_row(c, i as int, j + 1)
                        =~= pairs.push((i as int, j as int)));
                    assert(daily_msgs + calendar_messages(c, pairs.push((i as int, j as int)))
                        =~= msgs);
                }
                found = true;
            } else {
                assert(calendar_pairs_below(c, i as int) + calendar_row(c, i as int, j + 1)
                    =~= pairs);
            }
            j = j + 1;
        }
        i = i + 1;
    }
    assert(msgs == conflict_messages(d, c));
    if !found {
        BasicResponse { code: 0, desc: "No conflicts found".to_string() }
    } else {
        BasicResponse { code: 1, desc: string_of(&text) }
    }
}

proof fn lemma_daily_row_conflicts(d: Seq<DailySchedule>, i: int, j: int)
    requires
        0 <= i,
        j <= d.len(),
    ensures
        forall|q: int|
            0 <= q < daily_row(d, i, j).len() ==> {
                let p = #[trigger] daily_row(d, i, j)[q];
                p.0 == i && i < p.1 < j && daily_conflict(d[p.0], d[p.1])
            },
    decreases j - i,
{
    if j > i + 1 {
        lemma_daily_row_conflicts(d, i, j - 1);
        let p = daily_row(d, i, j - 1);
        if daily_conflict(d[i], d[j - 1]) {
            assert forall|q: int| 0 <= q < p.len() implies #[trigger] p.push((i, j - 1))[q]
                == p[q] by {}
        }
    }
}

proof fn lemma_daily_pairs_conflict(d: Seq<DailySchedule>, n: int)
    requires
        n <= d.len(),
    ensures
        forall|q: int|
            0 <= q < daily_pairs_below(d, n).len() ==> {
                let p = #[trigger] daily_pairs_below(d, n)[q];
                0 <= p.0 < p.1 < d.len() && daily_conflict(d[p.0], d[p.1])
            },
    decreases n,
{
    if n > 0 {
        lemma_daily_pairs_conflict(d, n - 1);
        lemma_daily_row_conflicts(d, n - 1, d.len() as int);
        let a = daily_pairs_below(d, n - 1);
        let b = daily_row(d, n - 1, d.len() as int);
        assert forall|q: int| 0 <= q < (a + b).len() implies {
            let p = #[trigger] (a + b)[q];
            0 <= p.0 < p.1 < d.len() && daily_conflict(d[p.0], d[p.1])
        } by {
            if q >= a.len() {
                assert((a + b)[q] == b[q - a.len()]);
            } else {
                assert((a + b)[q] == a[q]);
            }
        }
    }
}

/// A disabled daily schedule takes part in no reported conflict: neither
/// index of any reported daily pair is that of a disabled schedule, whatever
/// the times.
pub proof fn lemma_disabled_schedule_never_conflicts(d: Seq<DailySchedule>, k: int)
    requires
        0 <= k < d.len(),
        !d[k].enable,
    ensures
        forall|q: int|
            0 <= q < daily_pairs(d).len() ==> (#[trigger] daily_pairs(d)[q]).0 != k
                && daily_pairs(d)[q].1 != k,
{
    lemma_daily_pairs_conflict(d, d.len() as int);
}

proof fn lemma_pair_of_daily(a: DailySchedule, b: DailySchedule)
    ensures
        daily_pairs(seq![a, b]) == if daily_conflict(a, b) {
            seq![(0int, 1int)]
        } else {
            seq![]
        },
{
    let d = seq![a, b];
    assert(daily_row(d, 0, 1) == Seq::<(int, int)>::empty());
    assert(daily_row(d, 1, 2) == Seq::<(int, int)>::empty());
    assert(daily_pairs_below(d, 0) == Seq::<(int, int)>::empty());
    assert(daily_pairs_below(d, 1) =~= daily_row(d, 0, 2));
    assert(daily_pairs_below(d, 2) =~= daily_row(d, 0, 2));
    if daily_conflict(a, b) {
        assert(daily_row(d, 0, 2) =~= seq![(0int, 1int)]);
    } else {
        assert(daily_row(d, 0, 2) =~= Seq::<(int, int)>::empty());
    }
}

proof fn lemma_pair_of_calendar(a: CalendarSchedule, b: CalendarSchedule)
    ensures
        calendar_pairs(seq![a, b]) == if calendar_conflict(a, b) {
            seq![(0int, 1int)]
        } else {
            seq![]
        },
{
    let c = seq![a, b];
    assert(calendar_row(c, 0, 1) == Seq::<(int, int)>::empty());
    assert(calendar_row(c, 1, 2) == Seq::<(int, int)>::empty());
    assert(calendar_pairs_below(c, 0) == Seq::<(int, int)>::empty());
    assert(calendar_pairs_below(c, 1) =~= calendar_row(c, 0, 2));
    assert(calendar_pairs_below(c, 2) =~= calendar_row(c, 0, 2));
    if calendar_conflict(a, b) {
        assert(calendar_row(c, 0, 2) =~= seq![(0int, 1int)]);
    } else {
        assert(calendar_row(c, 0, 2) =~= Seq::<(int, int)>::empty());
    }
}

/// Two enabled every-day schedules whose times meet are reported as one
/// conflict that names both.
pub proof fn lemma_everyday_overlap_reported(a: DailySchedule, b: DailySchedule)
    requires
        a.enable && b.enable,
        a.repetition == 1 && b.repetition == 1,
        ranges_overlap(
            minute_of(a.start_time),
            minute_of(a.end_time),
            minute_of(b.start_time),
            minute_of(b.end_time),
        ),
    ensures
        conflict_messages(seq![a, b], seq![]) == seq![daily_message(a, b)],
{
    lemma_no_pairs_without_schedules();
    lemma_pair_of_daily(a, b);
    let d = seq![a, b];
    assert(daily_messages(d, seq![(0int, 1int)]) =~= seq![daily_message(a, b)]);
    assert(conflict_messages(d, seq![]) =~= seq![daily_message(a, b)]);
}

/// A weekday schedule and a weekend schedule never conflict, whatever their
/// times.
pub proof fn lemma_weekdays_and_weekend_never_conflict(a: DailySchedule, b: DailySchedule)
    requires
        a.repetition == 2,
        b.repetition == 3,
    ensures
        conflict_messages(seq![a, b], seq![]).len() == 0,
{
    lemma_no_pairs_without_schedules();
    lemma_pair_of_daily(a, b);
}

proof fn lemma_no_pairs_without_schedules()
    ensures
        calendar_pairs(Seq::<CalendarSchedule>::empty()) == Seq::<(int, int)>::empty(),
        daily_pairs(Seq::<DailySchedule>::empty()) == Seq::<(int, int)>::empty(),
{
}

/// Two calendar schedules whose dates meet but whose times do not are no
/// conflict.
pub proof fn lemma_calendar_disjoint_times_no_conflict(a: CalendarSchedule, b: CalendarSchedule)
    requires
        ranges_overlap(
            ordinal_of(a.start_date),
            ordinal_of(a.end_date),
            ordinal_of(b.start_date),
            ordinal_of(b.end_date),
        ),
        !ranges_overlap(
            minute_of(a.start_time),
            minute_of(a.end_time),
            minute_of(b.start_time),
            minute_of(b.end_time),
        ),
    ensures
        conflict_messages(seq![], seq![a, b]).len() == 0,
{
    lemma_no_pairs_without_schedules();
    lemma_pair_of_calendar(a, b);
}

/// Two calendar schedules whose dates and times both meet are reported as
/// one conflict that names both.
pub proof fn lemma_calendar_overlap_reported(a: CalendarSchedule, b: CalendarSchedule)
    requires
        ranges_overlap(
            ordinal_of(a.start_date),
            ordinal_of(a.end_date),
            ordinal_of(b.start_date),
            ordinal_of(b.end_date),
        ),
        ranges_overlap(
            minute_of(a.start_time),
            minute_of(a.end_time),
            minute_of(b.start_time),
            minute_of(b.end_time),
        ),
    ensures
        conflict_messages(seq![], seq![a, b]) == seq![calendar_message(a, b)],
{
    lemma_no_pairs_without_schedules();
    lemma_pair_of_calendar(a, b);
    let c = seq![a, b];
    assert(calendar_messages(c, seq![(0int, 1int)]) =~= seq![calendar_message(a, b)]);
    assert(conflict_messages(seq![], c) =~= seq![calendar_message(a, b)]);
}

} // verus!
