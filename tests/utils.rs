use trimlight::{parse_date, parse_time, TrimlightError};

fn rejected(r: Result<(i32, i32), TrimlightError>, msg: &str) -> bool {
    matches!(r, Err(TrimlightError::ApiError { code: 400, message }) if message == msg)
}

#[test]
fn test_parse_time_valid() {
    assert_eq!(parse_time("00:00").unwrap(), (0, 0));
    assert_eq!(parse_time("23:59").unwrap(), (23, 59));
    assert_eq!(parse_time("12:30").unwrap(), (12, 30));
    assert_eq!(parse_time("09:05").unwrap(), (9, 5));
}

#[test]
fn test_parse_time_invalid_format() {
    assert!(matches!(
        parse_time("12:30:00"),
        Err(TrimlightError::ApiError {
            code: 400,
            message
        }) if message == "Invalid time format. Use HH:MM"
    ));
    assert!(matches!(
        parse_time("12"),
        Err(TrimlightError::ApiError {
            code: 400,
            message
        }) if message == "Invalid time format. Use HH:MM"
    ));
    assert!(matches!(
        parse_time("12:"),
        Err(TrimlightError::ApiError {
            code: 400,
            message
        }) if message == "Invalid minutes"
    ));
    assert!(matches!(
        parse_time(":30"),
        Err(TrimlightError::ApiError {
            code: 400,
            message
        }) if message == "Invalid hours"
    ));
}

#[test]
fn test_parse_time_invalid_values() {
    assert!(matches!(
        parse_time("24:00"),
        Err(TrimlightError::ApiError {
            code: 400,
            message
        }) if message == "Invalid time values"
    ));
    assert!(matches!(
        parse_time("-1:00"),
        Err(TrimlightError::ApiError {
            code: 400,
            message
        }) if message == "Invalid time values"
    ));
    assert!(matches!(
        parse_time("12:60"),
        Err(TrimlightError::ApiError {
            code: 400,
            message
        }) if message == "Invalid time values"
    ));
    assert!(matches!(
        parse_time("12:-1"),
        Err(TrimlightError::ApiError {
            code: 400,
            message
        }) if message == "Invalid time values"
    ));
}

#[test]
fn test_parse_date_valid() {
    assert_eq!(parse_date("01-01").unwrap(), (1, 1));
    assert_eq!(parse_date("12-31").unwrap(), (12, 31));
    assert_eq!(parse_date("02-28").unwrap(), (2, 28));
    assert_eq!(parse_date("09-05").unwrap(), (9, 5));
}

#[test]
fn test_parse_date_invalid_format() {
    assert!(matches!(
        parse_date("2024-01-01"),
        Err(TrimlightError::ApiError {
            code: 400,
            message
        }) if message == "Invalid date format. Use MM-DD"
    ));
    assert!(matches!(
        parse_date("12"),
        Err(TrimlightError::ApiError {
            code: 400,
            message
        }) if message == "Invalid date format. Use MM-DD"
    ));
    assert!(matches!(
        parse_date("12-"),
        Err(TrimlightError::ApiError {
            code: 400,
            message
        }) if message == "Invalid day"
    ));
    assert!(matches!(
        parse_date("-31"),
        Err(TrimlightError::ApiError {
            code: 400,
            message
        }) if message == "Invalid month"
    ));
}

#[test]
fn test_parse_date_invalid_values() {
    assert!(matches!(
        parse_date("00-01"),
        Err(TrimlightError::ApiError {
            code: 400,
            message
        }) if message == "Invalid date values"
    ));
    assert!(matches!(
        parse_date("13-01"),
        Err(TrimlightError::ApiError {
            code: 400,
            message
        }) if message == "Invalid date values"
    ));
    assert!(matches!(
        parse_date("01-00"),
        Err(TrimlightError::ApiError {
            code: 400,
            message
        }) if message == "Invalid date values"
    ));
    assert!(matches!(
        parse_date("01-32"),
        Err(TrimlightError::ApiError {
            code: 400,
            message
        }) if message == "Invalid date values"
    ));
}

#[test]
fn time_parser_accepts_and_rejects_listed_inputs() {
    assert_eq!(parse_time("08:00").unwrap(), (8, 0));
    assert!(rejected(parse_time("24:00"), "Invalid time values"));
    assert!(rejected(parse_time("12:60"), "Invalid time values"));
    assert!(rejected(parse_time("8:0:0"), "Invalid time format. Use HH:MM"));
    assert!(rejected(parse_time("8"), "Invalid time format. Use HH:MM"));
}

#[test]
fn date_parser_accepts_and_rejects_listed_inputs() {
    assert_eq!(parse_date("01-01").unwrap(), (1, 1));
    assert!(rejected(parse_date("00-01"), "Invalid date values"));
    assert!(rejected(parse_date("13-01"), "Invalid date values"));
    assert!(rejected(parse_date("01-32"), "Invalid date values"));
    assert!(rejected(parse_date("2024-01-01"), "Invalid date format. Use MM-DD"));
}

#[test]
fn time_fields_may_carry_white_space_and_signs() {
    assert_eq!(parse_time(" 7 : 45 ").unwrap(), (7, 45));
    assert_eq!(parse_time("+7:+5").unwrap(), (7, 5));
    assert_eq!(parse_time("\t23:\u{3000}59").unwrap(), (23, 59));
    assert!(rejected(parse_time("1 2:00"), "Invalid hours"));
    assert!(rejected(parse_time("12:3x"), "Invalid minutes"));
    assert!(rejected(parse_time("99999999999:00"), "Invalid hours"));
    assert!(rejected(parse_time("-:00"), "Invalid hours"));
}

#[test]
fn date_fields_are_not_trimmed() {
    assert!(rejected(parse_date(" 01-01"), "Invalid month"));
    assert!(rejected(parse_date("01- 01"), "Invalid day"));
    assert_eq!(parse_date("2-30").unwrap(), (2, 30));
}
