//! The decisions the client makes around its network calls: which endpoint
//! a schedule operation goes to, the payloads it sends, the records it looks
//! up, and how it reads the answer's envelope.
use vstd::prelude::*;
use crate::error::{rejected_with, TrimlightError};
use crate::models::{ApiResponse, CalendarSchedule, DailySchedule, DeviceListResponse, Effect, Pixel, ScheduleDate, ScheduleTime};
use crate::text::{append_str, chars_of, int_text, push_int, string_of};
use crate::utils::{date_spec, parse_date, parse_time, time_spec};

verus! {

/// The lower-case form of a text, as `str::to_lowercase` gives it.
pub uninterp spec fn lower_of(s: Seq<char>) -> Seq<char>;

/// Relies on `str::to_lowercase`: the result depends on the characters alone.
#[verifier::external_body]
fn lowercase(s: &str) -> (r: String)
    ensures
        r@ == lower_of(s@),
{
    s.to_lowercase()
}

/// What is done to a schedule.
#[derive(Debug, Clone, Copy, PartialEq, Eq, Structural)]
pub enum ScheduleOp {
    Delete,
    Update,
}

/// The endpoint for `op` on schedules of the kind named `kind`, if the kind
/// is `daily` or `calendar`.
pub open spec fn endpoint_spec(kind: Seq<char>, op: ScheduleOp) -> Option<Seq<char>> {
    if kind == "daily"@ {
        Some(
            match op {
                ScheduleOp::Delete => "/v1/oauth/resources/device/schedule/daily/delete"@,
                ScheduleOp::Update => "/v1/oauth/resources/device/schedule/daily/update"@,
            },
        )
    } else if kind == "calendar"@ {
        Some(
            match op {
                ScheduleOp::Delete => "/v1/oauth/resources/device/schedule/calendar/delete"@,
                ScheduleOp::Update => "/v1/oauth/resources/device/schedule/calendar/update"@,
            },
        )
    } else {
        None
    }
}

pub open spec fn endpoint_result_is(
    r: Result<&'static str, TrimlightError>,
    expected: Option<Seq<char>>,
) -> bool {
    match expected {
        Some(path) => r matches Ok(e) && e@ == path,
        None => rejected_with(r, 400, "Invalid schedule type. Must be 'daily' or 'calendar'"@),
    }
}

/// Whether two texts hold the same characters.
pub fn same_text(a: &str, b: &str) -> (r: bool)
    ensures
        r == (a@ == b@),
{
    let x = chars_of(a);
    let y = chars_of(b);
    if x.len() != y.len() {
        return false;
    }
    let mut i: usize = 0;
    while i < x.len()
        invariant
            x@ == a@,
            y@ == b@,
            x@.len() == y@.len(),
            i <= x@.len(),
            forall|j: int| 0 <= j < i ==> x@[j] == y@[j],
        decreases x.len() - i,
    {
        if x[i] != y[i] {
            return false;
        }
        i = i + 1;
    }
    assert(x@ =~= y@);
    true
}

/// The endpoint for `op` on schedules of an already lower-cased kind.
pub fn schedule_endpoint_for(kind: &str, op: ScheduleOp) -> (r: Result<&'static str, TrimlightError>)
    ensures
        endpoint_result_is(r, endpoint_spec(kind@, op)),
{
    if same_text(kind, "daily") {
        match op {
            ScheduleOp::Delete => Ok("/v1/oauth/resources/device/schedule/daily/delete"),
            ScheduleOp::Update => Ok("/v1/oauth/resources/device/schedule/daily/update"),
        }
    } else if same_text(kind, "calendar") {
        match op {
            ScheduleOp::Delete => Ok("/v1/oauth/resources/device/schedule/calendar/delete"),
            ScheduleOp::Update => Ok("/v1/oauth/resources/device/schedule/calendar/update"),
        }
    } else {
        Err(
            TrimlightError::api_error(400, "Invalid schedule type. Must be 'daily' or 'calendar'"),
        )
    }
}

/// The endpoint for `op` on schedules of the kind named `schedule_type`, in
/// any letter case.
pub fn schedule_endpoint(schedule_type: &str, op: ScheduleOp) -> (r: Result<
    &'static str,
    TrimlightError,
>)
    ensures
        endpoint_result_is(r, endpoint_spec(lower_of(schedule_type@), op)),
{
    let lowered = lowercase(schedule_type);
    schedule_endpoint_for(lowered.as_str(), op)
}

pub open spec fn time_of(v: (int, int)) -> ScheduleTime {
    ScheduleTime { hours: v.0 as i32, minutes: v.1 as i32 }
}

pub open spec fn date_of(v: (int, int)) -> ScheduleDate {
    ScheduleDate { month: v.0 as i32, day: v.1 as i32 }
}

/// The daily schedule that adding one sends: enabled, with the id -1 that
/// asks the device to choose one; or the error of the first of `start` and
/// `end` that is not a valid `HH:MM`.
pub fn daily_schedule_payload(effect_id: i32, start: &str, end: &str, repetition: i32) -> (r:
    Result<DailySchedule, TrimlightError>)
    ensures
        match time_spec(start@) {
            Err(m) => rejected_with(r, 400, m),
            Ok(s) => match time_spec(end@) {
                Err(m) => rejected_with(r, 400, m),
                Ok(e) => r == Ok::<DailySchedule, TrimlightError>(
                    DailySchedule {
                        id: -1i32,
                        enable: true,
                        effect_id,
                        repetition,
                        start_time: time_of(s),
                        end_time: time_of(e),
                    },
                ),
            },
        },
{
    let (start_hours, start_minutes) = match parse_time(start) {
        Ok(v) => v,
        Err(e) => {
            return Err(e);
        },
    };
    let (end_hours, end_minutes) = match parse_time(end) {
        Ok(v) => v,
        Err(e) => {
            return Err(e);
        },
    };
    Ok(
        DailySchedule {
            id: -1,
            enable: true,
            effect_id,
            repetition,
            start_time: ScheduleTime { hours: start_hours, minutes: start_minutes },
            end_time: ScheduleTime { hours: end_hours, minutes: end_minutes },
        },
    )
}

/// The calendar schedule that adding one sends, with id 0; or the error of
/// the first of its two dates and two times that does not read.
pub fn calendar_schedule_payload(
    effect_id: i32,
    start_date: &str,
    end_date: &str,
    start_time: &str,
    end_time: &str,
) -> (r: Result<CalendarSchedule, TrimlightError>)
    ensures
        match date_spec(start_date@) {
            Err(m) => rejected_with(r, 400, m),
            Ok(sd) => match date_spec(end_date@) {
                Err(m) => rejected_with(r, 400, m),
                Ok(ed) => match time_spec(start_time@) {
                    Err(m) => rejected_with(r, 400, m),
                    Ok(st) => match time_spec(end_time@) {
                        Err(m) => rejected_with(r, 400, m),
                        Ok(et) => r == Ok::<CalendarSchedule, TrimlightError>(
                            CalendarSchedule {
                                id: 0,
                                effect_id,
                                start_date: date_of(sd),
                                end_date: date_of(ed),
                                start_time: time_of(st),
                                end_time: time_of(et),
                            },
                        ),
                    },
                },
            },
        },
{
    let (start_month, start_day) = match parse_date(start_date) {
        Ok(v) => v,
        Err(e) => {
            return Err(e);
        },
    };
    let (end_month, end_day) = match parse_date(end_date) {
        Ok(v) => v,
        Err(e) => {
            return Err(e);
        },
    };
    let (start_hours, start_minutes) = match parse_time(start_time) {
        Ok(v) => v,
        Err(e) => {
            return Err(e);
        },
    };
    let (end_hours, end_minutes) = match parse_time(end_time) {
        Ok(v) => v,
        Err(e) => {
            return Err(e);
        },
    };
    Ok(
        CalendarSchedule {
            id: 0,
            effect_id,
            start_date: ScheduleDate { month: start_month, day: start_day },
            end_date: ScheduleDate { month: end_month, day: end_day },
            start_time: ScheduleTime { hours: start_hours, minutes: start_minutes },
            end_time: ScheduleTime { hours: end_hours, minutes: end_minutes },
        },
    )
}

/// `"<what> <id> not found"`.
pub open spec fn not_found_message(what: Seq<char>, id: int) -> Seq<char> {
    what + " "@ + int_text(id) + " not found"@
}

fn not_found(what: &str, id: i32) -> (r: TrimlightError)
    ensures
        r.is_api_error(404, not_found_message(what@, id as int)),
{
    let mut text: Vec<char> = Vec::new();
    append_str(&mut text, what);
    append_str(&mut text, " ");
    push_int(&mut text, id as i64);
    append_str(&mut text, " not found");
    assert(text@ =~= not_found_message(what@, id as int));
    TrimlightError::ApiError { code: 404, message: string_of(&text) }
}

/// The place of the first effect with id `effect_id`, or the 404 error
/// "Effect <id> not found" when there is none.
pub fn find_effect(effects: &Vec<Effect>, effect_id: i32) -> (r: Result<usize, TrimlightError>)
    ensures
        match r {
            Ok(i) => i < effects@.len() && effects@[i as int].id == effect_id && forall|j: int|
                0 <= j < i ==> (#[trigger] effects@[j]).id != effect_id,
            Err(e) => e.is_api_error(404, not_found_message("Effect"@, effect_id as int))
                && forall|j: int| 0 <= j < effects@.len() ==> (#[trigger] effects@[j]).id != effect_id,
        },
{
    let mut i: usize = 0;
    while i < effects.len()
        invariant
            i <= effects@.len(),
            forall|j: int| 0 <= j < i ==> (#[trigger] effects@[j]).id != effect_id,
        decreases effects.len() - i,
    {
        if effects[i].id == effect_id {
            return Ok(i);
        }
        i = i + 1;
    }
    Err(not_found("Effect", effect_id))
}

pub open spec fn opt_pixels_view(o: Option<Vec<Pixel>>) -> Option<Seq<Pixel>> {
    match o {
        Some(v) => Some(v@),
        None => None,
    }
}

fn copy_pixels(v: &Vec<Pixel>) -> (r: Vec<Pixel>)
    ensures
        r@ == v@,
{
    let mut r: Vec<Pixel> = Vec::new();
    let mut i: usize = 0;
    while i < v.len()
        invariant
            i <= v@.len(),
            r@ == v@.take(i as int),
        decreases v.len() - i,
    {
        r.push(v[i]);
        i = i + 1;
        assert(r@ =~= v@.take(i as int));
    }
    assert(v@.take(v@.len() as int) =~= v@);
    r
}

/// The effect that an update sends: each given field replaces that of
/// `current`, each absent one keeps it; the category is always kept.
pub fn updated_effect(
    current: &Effect,
    effect_id: i32,
    name: Option<&str>,
    mode: Option<i32>,
    speed: Option<i32>,
    brightness: Option<i32>,
    pixel_len: Option<i32>,
    reverse: Option<bool>,
    pixels: Option<Vec<Pixel>>,
) -> (r: Effect)
    ensures
        r.id == effect_id,
        r.name@ == match name {
            Some(n) => n@,
            None => current.name@,
        },
        r.category == current.category,
        r.mode == match mode {
            Some(m) => m,
            None => current.mode,
        },
        r.speed == match speed {
            Some(s) => s,
            None => current.speed,
        },
        r.brightness == match brightness {
            Some(b) => b,
            None => current.brightness,
        },
        r.pixel_len == if pixel_len is Some {
            pixel_len
        } else {
            current.pixel_len
        },
        r.reverse == if reverse is Some {
            reverse
        } else {
            current.reverse
        },
        opt_pixels_view(r.pixels) == if pixels is Some {
            opt_pixels_view(pixels)
        } else {
            opt_pixels_view(current.pixels)
        },
{
    let new_name = match name {
        Some(n) => n.to_string(),
        None => current.name.clone(),
    };
    let new_pixels = match pixels {
        Some(p) => Some(p),
        None => match &current.pixels {
            Some(p) => Some(copy_pixels(p)),
            None => None,
        },
    };
    Effect {
        id: effect_id,
        name: new_name,
        category: current.category,
        mode: match mode {
            Some(m) => m,
            None => current.mode,
        },
        speed: match speed {
            Some(s) => s,
            None => current.speed,
        },
        brightness: match brightness {
            Some(b) => b,
            None => current.brightness,
        },
        pixel_len: match pixel_len {
            Some(l) => Some(l),
            None => current.pixel_len,
        },
        reverse: match reverse {
            Some(x) => Some(x),
            None => current.reverse,
        },
        pixels: new_pixels,
    }
}

/// The first daily schedule with id `id`, if any.
pub open spec fn first_with_id(s: Seq<DailySchedule>, id: int) -> Option<int> {
    if exists|i: int| 0 <= i < s.len() && s[i].id == id {
        Some(
            choose|i: int|
                0 <= i < s.len() && s[i].id == id && forall|j: int|
                    0 <= j < i ==> (#[trigger] s[j]).id != id,
        )
    } else {
        None
    }
}

/// The daily schedule that a modification sends. Only a schedule type
/// written exactly `daily` is looked up; with another type, or no schedule of
/// that id, the answer is the 404 error "Schedule <id> not found". A given
/// start, then the end, must read as `HH:MM`; the enable flag is kept, and
/// the effect, start and repetition are kept where none is given.
pub fn modified_daily_schedule(
    schedules: &Vec<DailySchedule>,
    schedule_id: i32,
    schedule_type: &str,
    effect_id: Option<i32>,
    start: Option<&str>,
    end: &str,
    repetition: Option<i32>,
) -> (r: Result<DailySchedule, TrimlightError>)
    ensures
        ({
            let found = first_with_id(schedules@, schedule_id as int);
            if schedule_type@ != "daily"@ || found is None {
                rejected_with(r, 404, not_found_message("Schedule"@, schedule_id as int))
            } else {
                let s = schedules@[found->0];
                let start_value = match start {
                    Some(t) => time_spec(t@),
                    None => Ok((s.start_time.hours as int, s.start_time.minutes as int)),
                };
                match start_value {
                    Err(m) => rejected_with(r, 400, m),
                    Ok(st) => match time_spec(end@) {
                        Err(m) => rejected_with(r, 400, m),
                        Ok(et) => r == Ok::<DailySchedule, TrimlightError>(
                            DailySchedule {
                                id: schedule_id,
                                enable: s.enable,
                                effect_id: match effect_id {
                                    Some(e) => e,
                                    None => s.effect_id,
                                },
                                repetition: match repetition {
                                    Some(x) => x,
                                    None => s.repetition,
                                },
                                start_time: time_of(st),
                                end_time: time_of(et),
                            },
                        ),
                    },
                }
            }
        }),
{
    if !same_text(schedule_type, "daily") {
        return Err(not_found("Schedule", schedule_id));
    }
    let mut i: usize = 0;
    while i < schedules.len() && schedules[i].id != schedule_id
        invariant
            i <= schedules@.len(),
            forall|j: int| 0 <= j < i ==> (#[trigger] schedules@[j]).id != schedule_id,
        decreases schedules.len() - i,
    {
        i = i + 1;
    }
    if i == schedules.len() {
        return Err(not_found("Schedule", schedule_id));
    }
    let s = schedules[i];
    proof {
        let f = first_with_id(schedules@, schedule_id as int);
        assert(schedules@[i as int].id == schedule_id);
        let k = f->0;
        assert(k == i as int) by {
            if k < i {
                assert(schedules@[k].id != schedule_id);
            }
            if k > i {
                assert(schedules@[i as int].id != schedule_id);
            }
        }
    }
    let (start_hours, start_minutes) = match start {
        Some(t) => match parse_time(t) {
            Ok(v) => v,
            Err(e) => {
                return Err(e);
            },
        },
        None => (s.start_time.hours, s.start_time.minutes),
    };
    let (end_hours, end_minutes) = match parse_time(end) {
        Ok(v) => v,
        Err(e) => {
            return Err(e);
        },
    };
    Ok(
        DailySchedule {
            id: schedule_id,
            enable: s.enable,
            effect_id: match effect_id {
                Some(e) => e,
                None => s.effect_id,
            },
            repetition: match repetition {
                Some(x) => x,
                None => s.repetition,
            },
            start_time: ScheduleTime { hours: start_hours, minutes: start_minutes },
            end_time: ScheduleTime { hours: end_hours, minutes: end_minutes },
        },
    )
}

/// The id of the first listed device, if the list holds any.
pub fn first_device_id(devices: &DeviceListResponse) -> (r: Option<String>)
    ensures
        devices.data@.len() == 0 ==> r is None,
        devices.data@.len() > 0 ==> (r matches Some(id) && id@ == devices.data@[0].device_id@),
{
    if devices.data.len() == 0 {
        None
    } else {
        Some(devices.data[0].device_id.clone())
    }
}

impl<T: Default> ApiResponse<T> {
    /// The payload of a successful answer (code 0), or the type's default
    /// when it carries none; an answer with another code is the API error
    /// with that code and description.
    pub fn into_payload(self) -> (r: Result<T, TrimlightError>)
        ensures
            self.code != 0 ==> rejected_with(r, self.code as int, self.desc@),
            self.code == 0 ==> r is Ok,
            self.code == 0 && self.payload is Some ==> r == Ok::<T, TrimlightError>(
                self.payload->0,
            ),
    {
        if self.code != 0 {
            return Err(TrimlightError::ApiError { code: self.code, message: self.desc });
        }
        Ok(self.payload.unwrap_or_default())
    }
}

} // verus!
