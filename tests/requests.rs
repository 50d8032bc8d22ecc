use trimlight::{
    calendar_schedule_payload, daily_schedule_payload, find_effect, first_device_id,
    modified_daily_schedule, schedule_endpoint, schedule_endpoint_for, updated_effect,
    ApiResponse, BasicResponse, DailySchedule, Device, DeviceListResponse, Effect, Pixel,
    ScheduleDate, ScheduleOp, ScheduleTime, TrimlightError,
};

fn api_error<T>(r: &Result<T, TrimlightError>) -> Option<(i32, String)> {
    match r {
        Err(TrimlightError::ApiError { code, message }) => Some((*code, message.clone())),
        _ => None,
    }
}

#[test]
fn endpoints_by_kind() {
    assert_eq!(
        schedule_endpoint("daily", ScheduleOp::Delete).unwrap(),
        "/v1/oauth/resources/device/schedule/daily/delete"
    );
    assert_eq!(
        schedule_endpoint("Calendar", ScheduleOp::Update).unwrap(),
        "/v1/oauth/resources/device/schedule/calendar/update"
    );
    assert_eq!(
        schedule_endpoint("DAILY", ScheduleOp::Update).unwrap(),
        "/v1/oauth/resources/device/schedule/daily/update"
    );
    assert_eq!(
        schedule_endpoint_for("calendar", ScheduleOp::Delete).unwrap(),
        "/v1/oauth/resources/device/schedule/calendar/delete"
    );
    assert!(schedule_endpoint_for("Daily", ScheduleOp::Delete).is_err());
    let bad = schedule_endpoint("weekly", ScheduleOp::Delete);
    assert_eq!(
        api_error(&bad),
        Some((400, "Invalid schedule type. Must be 'daily' or 'calendar'".to_string()))
    );
}

#[test]
fn daily_payload() {
    let p = daily_schedule_payload(3, "08:00", "20:00", 1).unwrap();
    assert_eq!(
        p,
        DailySchedule {
            id: -1,
            enable: true,
            effect_id: 3,
            repetition: 1,
            start_time: ScheduleTime { hours: 8, minutes: 0 },
            end_time: ScheduleTime { hours: 20, minutes: 0 },
        }
    );
    let bad = daily_schedule_payload(3, "08:00", "25:00", 1);
    assert_eq!(api_error(&bad), Some((400, "Invalid time values".to_string())));
    let bad_start = daily_schedule_payload(3, "8", "25:00", 1);
    assert_eq!(api_error(&bad_start), Some((400, "Invalid time format. Use HH:MM".to_string())));
}

#[test]
fn calendar_payload() {
    let p = calendar_schedule_payload(2, "12-25", "12-31", "17:00", "23:00").unwrap();
    assert_eq!(p.id, 0);
    assert_eq!(p.effect_id, 2);
    assert_eq!(p.start_date, ScheduleDate { month: 12, day: 25 });
    assert_eq!(p.end_date, ScheduleDate { month: 12, day: 31 });
    assert_eq!(p.start_time, ScheduleTime { hours: 17, minutes: 0 });
    assert_eq!(p.end_time, ScheduleTime { hours: 23, minutes: 0 });
    let bad = calendar_schedule_payload(2, "12-25", "13-31", "17:00", "x");
    assert_eq!(api_error(&bad), Some((400, "Invalid date values".to_string())));
}

fn effect(id: i32, name: &str) -> Effect {
    Effect {
        id,
        name: name.to_string(),
        category: 2,
        mode: 14,
        speed: 100,
        brightness: 50,
        pixel_len: Some(30),
        reverse: Some(false),
        pixels: Some(vec![Pixel { index: 0, count: 1, color: 255, disable: false }]),
    }
}

#[test]
fn finding_effects() {
    let effects = vec![effect(1, "a"), effect(2, "b"), effect(2, "c")];
    assert_eq!(find_effect(&effects, 2).unwrap(), 1);
    let missing = find_effect(&effects, 9);
    assert_eq!(api_error(&missing), Some((404, "Effect 9 not found".to_string())));
}

#[test]
fn updating_effects() {
    let current = effect(1, "Original Effect");
    let u = updated_effect(&current, 1, Some("Updated Effect"), None, Some(20), None, None, Some(true), None);
    assert_eq!(u.id, 1);
    assert_eq!(u.name, "Updated Effect");
    assert_eq!(u.category, 2);
    assert_eq!(u.mode, 14);
    assert_eq!(u.speed, 20);
    assert_eq!(u.brightness, 50);
    assert_eq!(u.pixel_len, Some(30));
    assert_eq!(u.reverse, Some(true));
    assert_eq!(u.pixels, current.pixels);
    let new_pixels = vec![Pixel { index: 0, count: 2, color: 1, disable: true }];
    let v = updated_effect(&current, 1, None, Some(3), None, Some(9), Some(5), None, Some(new_pixels.clone()));
    assert_eq!(v.name, "Original Effect");
    assert_eq!(v.mode, 3);
    assert_eq!(v.brightness, 9);
    assert_eq!(v.pixel_len, Some(5));
    assert_eq!(v.pixels, Some(new_pixels));
}

fn schedule(id: i32) -> DailySchedule {
    DailySchedule {
        id,
        enable: false,
        effect_id: 4,
        repetition: 2,
        start_time: ScheduleTime { hours: 7, minutes: 15 },
        end_time: ScheduleTime { hours: 8, minutes: 0 },
    }
}

#[test]
fn modifying_daily_schedules() {
    let list = vec![schedule(1), schedule(2)];
    let m = modified_daily_schedule(&list, 2, "daily", Some(9), Some("09:00"), "21:00", None).unwrap();
    assert_eq!(
        m,
        DailySchedule {
            id: 2,
            enable: false,
            effect_id: 9,
            repetition: 2,
            start_time: ScheduleTime { hours: 9, minutes: 0 },
            end_time: ScheduleTime { hours: 21, minutes: 0 },
        }
    );
    let kept = modified_daily_schedule(&list, 1, "daily", None, None, "10:30", Some(1)).unwrap();
    assert_eq!(kept.start_time, ScheduleTime { hours: 7, minutes: 15 });
    assert_eq!(kept.repetition, 1);
    assert_eq!(kept.effect_id, 4);
    let missing = modified_daily_schedule(&list, 5, "daily", None, None, "10:30", None);
    assert_eq!(api_error(&missing), Some((404, "Schedule 5 not found".to_string())));
    let other_kind = modified_daily_schedule(&list, 1, "calendar", None, None, "10:30", None);
    assert_eq!(api_error(&other_kind), Some((404, "Schedule 1 not found".to_string())));
    let bad_end = modified_daily_schedule(&list, 1, "daily", None, None, "10:3x", None);
    assert_eq!(api_error(&bad_end), Some((400, "Invalid minutes".to_string())));
}

#[test]
fn default_device() {
    let empty = DeviceListResponse { total: 0, current: 0, data: vec![] };
    assert_eq!(first_device_id(&empty), None);
    let one = DeviceListResponse {
        total: 1,
        current: 1,
        data: vec![Device { device_id: "test123".to_string(), ..Default::default() }],
    };
    assert_eq!(first_device_id(&one), Some("test123".to_string()));
}

#[test]
fn envelope_handling() {
    let ok = ApiResponse { code: 0, desc: "Success".to_string(), payload: Some(BasicResponse { code: 7, desc: "x".to_string() }) };
    assert_eq!(ok.into_payload().unwrap().code, 7);
    let empty: ApiResponse<BasicResponse> = ApiResponse { code: 0, desc: "Success".to_string(), payload: None };
    assert_eq!(empty.into_payload().unwrap().desc, "");
    let err: ApiResponse<BasicResponse> = ApiResponse { code: 1001, desc: "Device not found".to_string(), payload: None };
    let r = err.into_payload();
    assert_eq!(api_error(&r), Some((1001, "Device not found".to_string())));
}
