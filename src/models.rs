//! The data that the API sends and receives.
use vstd::prelude::*;

verus! {

/// The envelope around every answer of the API: a status code (zero on
/// success), its description, and the payload, if any.
#[derive(Debug, Default)]
pub struct ApiResponse<T> {
    pub code: i32,
    pub desc: String,
    pub payload: Option<T>,
}

/// A status code and its description.
#[derive(Debug, Clone, Default)]
pub struct BasicResponse {
    pub code: i32,
    pub desc: String,
}

/// A controller as the device list shows it.
#[derive(Debug, Clone, Default)]
pub struct Device {
    pub device_id: String,
    pub name: String,
    pub switch_state: i32,
    pub connectivity: i32,
    pub state: i32,
    pub fw_version_name: String,
}

/// One page of the device list.
#[derive(Debug, Clone, Default)]
pub struct DeviceListResponse {
    pub total: i32,
    pub current: i32,
    pub data: Vec<Device>,
}

/// A range of LEDs driven by one output of a controller.
#[derive(Debug, Clone, Copy, Default, PartialEq, Eq)]
pub struct Port {
    pub id: i32,
    pub start: i32,
    pub end: i32,
}

/// A lighting effect: a built-in animation or a custom pixel pattern.
#[derive(Debug, Clone, Default)]
pub struct Effect {
    pub id: i32,
    pub name: String,
    pub category: i32,
    pub mode: i32,
    pub speed: i32,
    pub brightness: i32,
    pub pixel_len: Option<i32>,
    pub reverse: Option<bool>,
    pub pixels: Option<Vec<Pixel>>,
}

/// A run of `count` LEDs of one colour (`0xRRGGBB`) in a custom pattern.
#[derive(Debug, Clone, Copy, Default, PartialEq, Eq)]
pub struct Pixel {
    pub index: i32,
    pub count: i32,
    pub color: i32,
    pub disable: bool,
}

/// The clock of a controller.
#[derive(Debug, Clone, Copy, Default, PartialEq, Eq)]
pub struct DeviceDateTime {
    pub year: i32,
    pub month: i32,
    pub day: i32,
    pub weekday: i32,
    pub hours: i32,
    pub minutes: i32,
    pub seconds: i32,
}

/// A time of day.
#[derive(Debug, Clone, Copy, Default, PartialEq, Eq)]
pub struct ScheduleTime {
    pub hours: i32,
    pub minutes: i32,
}

/// A day of the year, without a year.
#[derive(Debug, Clone, Copy, Default, PartialEq, Eq)]
pub struct ScheduleDate {
    pub month: i32,
    pub day: i32,
}

/// A time-of-day window that recurs on the days its repetition names
/// (0 today only, 1 every day, 2 weekdays, 3 weekends).
#[derive(Debug, Clone, Copy, Default, PartialEq, Eq)]
pub struct DailySchedule {
    pub id: i32,
    pub enable: bool,
    pub effect_id: i32,
    pub repetition: i32,
    pub start_time: ScheduleTime,
    pub end_time: ScheduleTime,
}

/// A time-of-day window on each day of a range of dates.
#[derive(Debug, Clone, Copy, Default, PartialEq, Eq)]
pub struct CalendarSchedule {
    pub id: i32,
    pub effect_id: i32,
    pub start_date: ScheduleDate,
    pub end_date: ScheduleDate,
    pub start_time: ScheduleTime,
    pub end_time: ScheduleTime,
}

/// The schedules of a controller.
#[derive(Debug, Clone, Default)]
pub struct DeviceSchedules {
    pub daily: Vec<DailySchedule>,
    pub calendar: Vec<CalendarSchedule>,
}

/// Effects played in turn, each for `interval` seconds.
#[derive(Debug, Clone, Default)]
pub struct CombinedEffect {
    pub effect_ids: Vec<i32>,
    pub interval: i32,
}

/// A transient effect shown over a target effect.
#[derive(Debug, Clone, Copy, Default, PartialEq, Eq)]
pub struct OverlayEffect {
    pub overlay_type: i32,
    pub target_effect: i32,
}

/// Everything a controller reports about itself.
#[derive(Debug, Clone, Default)]
pub struct DeviceDetails {
    pub name: String,
    pub switch_state: i32,
    pub connectivity: i32,
    pub state: i32,
    pub color_order: i32,
    pub ic: i32,
    pub ports: Vec<Port>,
    pub fw_version_name: String,
    pub effects: Vec<Effect>,
    pub combined_effect: Option<CombinedEffect>,
    pub daily: Vec<DailySchedule>,
    pub calendar: Vec<CalendarSchedule>,
    pub current_effect: Option<Effect>,
    pub overlay_effects: Vec<OverlayEffect>,
    pub current_datetime: DeviceDateTime,
}

} // verus!
