use trimlight::{find_conflicts, CalendarSchedule, DailySchedule, ScheduleDate, ScheduleTime};

fn t(hours: i32, minutes: i32) -> ScheduleTime {
    ScheduleTime { hours, minutes }
}

fn d(month: i32, day: i32) -> ScheduleDate {
    ScheduleDate { month, day }
}

fn daily(id: i32, enable: bool, repetition: i32, start: ScheduleTime, end: ScheduleTime) -> DailySchedule {
    DailySchedule { id, enable, effect_id: id, repetition, start_time: start, end_time: end }
}

fn calendar(id: i32, sd: ScheduleDate, ed: ScheduleDate, st: ScheduleTime, et: ScheduleTime) -> CalendarSchedule {
    CalendarSchedule { id, effect_id: id, start_date: sd, end_date: ed, start_time: st, end_time: et }
}

#[test]
fn no_schedules_no_conflicts() {
    let r = find_conflicts(&vec![], &vec![]);
    assert_eq!(r.code, 0);
    assert_eq!(r.desc, "No conflicts found");
}

#[test]
fn test_check_schedule_conflicts() {
    let ds = vec![daily(1, true, 1, t(8, 0), t(12, 0)), daily(2, true, 1, t(10, 0), t(14, 0))];
    let r = find_conflicts(&ds, &vec![]);
    assert_eq!(r.code, 1);
    assert!(r.desc.contains("Daily schedules 1 and 2 have overlapping times"));
}

#[test]
fn everyday_overlap_names_both_ids() {
    let ds = vec![daily(1, true, 1, t(8, 0), t(12, 0)), daily(2, true, 1, t(10, 0), t(14, 0))];
    let r = find_conflicts(&ds, &vec![]);
    assert_eq!(r.code, 1);
    assert_eq!(r.desc, "Daily schedules 1 and 2 have overlapping times");
}

#[test]
fn weekdays_and_weekend_never_conflict() {
    let ds = vec![daily(1, true, 2, t(8, 0), t(12, 0)), daily(2, true, 3, t(8, 0), t(12, 0))];
    let r = find_conflicts(&ds, &vec![]);
    assert_eq!(r.code, 0);
    assert_eq!(r.desc, "No conflicts found");
}

#[test]
fn today_only_never_conflicts() {
    let ds = vec![daily(1, true, 0, t(8, 0), t(12, 0)), daily(2, true, 1, t(8, 0), t(12, 0))];
    assert_eq!(find_conflicts(&ds, &vec![]).code, 0);
}

#[test]
fn same_weekly_pattern_conflicts() {
    let ds = vec![daily(4, true, 2, t(8, 0), t(9, 0)), daily(5, true, 2, t(9, 0), t(10, 0))];
    let r = find_conflicts(&ds, &vec![]);
    assert_eq!(r.desc, "Daily schedules 4 and 5 have overlapping times");
    let ws = vec![daily(6, true, 3, t(8, 0), t(9, 0)), daily(7, true, 3, t(8, 30), t(8, 45))];
    assert_eq!(find_conflicts(&ws, &vec![]).code, 1);
}

#[test]
fn disabled_schedule_never_reported() {
    let ds = vec![
        daily(1, false, 1, t(8, 0), t(12, 0)),
        daily(2, true, 1, t(8, 0), t(12, 0)),
        daily(3, true, 1, t(11, 0), t(13, 0)),
    ];
    let r = find_conflicts(&ds, &vec![]);
    assert_eq!(r.code, 1);
    assert_eq!(r.desc, "Daily schedules 2 and 3 have overlapping times");
    let only_disabled = vec![daily(1, false, 1, t(8, 0), t(12, 0)), daily(2, true, 1, t(8, 0), t(12, 0))];
    assert_eq!(find_conflicts(&only_disabled, &vec![]).code, 0);
}

#[test]
fn calendar_dates_overlap_but_times_do_not() {
    let cs = vec![
        calendar(1, d(12, 1), d(12, 31), t(8, 0), t(10, 0)),
        calendar(2, d(12, 20), d(12, 25), t(18, 0), t(22, 0)),
    ];
    let r = find_conflicts(&vec![], &cs);
    assert_eq!(r.code, 0);
    assert_eq!(r.desc, "No conflicts found");
}

#[test]
fn calendar_dates_and_times_overlap() {
    let cs = vec![
        calendar(1, d(12, 1), d(12, 31), t(17, 0), t(23, 0)),
        calendar(2, d(12, 20), d(12, 25), t(18, 0), t(22, 0)),
    ];
    let r = find_conflicts(&vec![], &cs);
    assert_eq!(r.code, 1);
    assert_eq!(r.desc, "Calendar schedules 1 and 2 have overlapping dates and times");
}

#[test]
fn calendar_ordinal_is_month_times_31_plus_day() {
    // Feb 0 does not exist but 2*31+0 == 1*31+31: the coarse ordinal treats them as one day.
    let cs = vec![
        calendar(1, d(1, 1), d(1, 31), t(8, 0), t(9, 0)),
        calendar(2, d(2, 0), d(2, 5), t(8, 0), t(9, 0)),
    ];
    assert_eq!(find_conflicts(&vec![], &cs).code, 1);
    let apart = vec![
        calendar(1, d(1, 1), d(1, 30), t(8, 0), t(9, 0)),
        calendar(2, d(2, 1), d(2, 5), t(8, 0), t(9, 0)),
    ];
    assert_eq!(find_conflicts(&vec![], &apart).code, 0);
}

#[test]
fn report_lists_daily_then_calendar_in_index_order() {
    let ds = vec![
        daily(10, true, 1, t(8, 0), t(12, 0)),
        daily(-3, true, 1, t(9, 0), t(10, 0)),
        daily(12, true, 1, t(11, 0), t(11, 30)),
    ];
    let cs = vec![
        calendar(7, d(3, 1), d(3, 9), t(0, 0), t(23, 59)),
        calendar(8, d(3, 9), d(3, 12), t(12, 0), t(12, 0)),
    ];
    let r = find_conflicts(&ds, &cs);
    assert_eq!(r.code, 1);
    assert_eq!(
        r.desc,
        "Daily schedules 10 and -3 have overlapping times\n\
         Daily schedules 10 and 12 have overlapping times\n\
         Calendar schedules 7 and 8 have overlapping dates and times"
    );
}

#[test]
fn touching_ranges_overlap() {
    let ds = vec![daily(1, true, 1, t(8, 0), t(10, 0)), daily(2, true, 1, t(10, 0), t(11, 0))];
    assert_eq!(find_conflicts(&ds, &vec![]).code, 1);
    let apart = vec![daily(1, true, 1, t(8, 0), t(9, 59)), daily(2, true, 1, t(10, 0), t(11, 0))];
    assert_eq!(find_conflicts(&apart, &vec![]).code, 0);
}
