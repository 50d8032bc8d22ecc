//! Signing of API requests and detection of conflicting lighting schedules
//! for networked LED controllers, with the typed data the API exchanges.

pub mod auth;
pub mod commands;
pub mod conflicts;
pub mod error;
pub mod models;
pub mod pixels;
pub mod requests;
pub mod text;
pub mod utils;

pub use auth::{headers_from_tag, message_to_sign, sign, SignedHeaders};
pub use commands::{effect_mode, overlay_type, parse_effect_ids, switch_state, ModeError};
pub use conflicts::find_conflicts;
pub use error::TrimlightError;
pub use models::{
    ApiResponse, BasicResponse, CalendarSchedule, CombinedEffect, DailySchedule, Device,
    DeviceDateTime, DeviceDetails, DeviceListResponse, DeviceSchedules, Effect, OverlayEffect,
    Pixel, Port, ScheduleDate, ScheduleTime,
};
pub use pixels::{parse_pixels, PixelError};
pub use requests::{
    calendar_schedule_payload, daily_schedule_payload, find_effect, first_device_id,
    modified_daily_schedule, schedule_endpoint, schedule_endpoint_for, updated_effect,
    ScheduleOp,
};
pub use utils::{parse_date, parse_time};
