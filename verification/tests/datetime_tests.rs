use utilities::datetime::{
    default_to_local, default_to_utc, rfc3339_to_local, rfc3339_to_utc, to_local, to_utc,
    FormatDateTime,
};

#[test]
fn test_default_to_local() {
    let text = "2023-09-01 12:00:00";
    let res = default_to_local(text).ok().unwrap();
    assert_eq!(res.display_string(), "2023-09-01 12:00:00 +08:00");
}

#[test]
fn test_default_to_utc() {
    let text = "2023-09-01 12:00:00";
    let res = default_to_utc(text).ok().unwrap();
    assert_eq!(res.display_string(), "2023-09-01 04:00:00 UTC");
}

#[test]
fn test_rfc3339_to_local() {
    let text = "2023-09-01T12:00:00+00:00";
    let res = rfc3339_to_local(text).ok().unwrap();
    assert_eq!(res.display_string(), "2023-09-01 12:00:00 +08:00");
}

#[test]
fn test_rfc3339_to_utc() {
    let text = "2023-09-01T12:00:00+00:00";
    let res = rfc3339_to_utc(text).ok().unwrap();
    assert_eq!(res.display_string(), "2023-09-01 04:00:00 UTC");
}

#[test]
fn test_to_local() {
    let text = "2023-09-01AA12:00:00";
    let res = to_local(text, "%Y-%m-%dAA%H:%M:%S").ok().unwrap();
    assert_eq!(res.display_string(), "2023-09-01 12:00:00 +08:00");
}

#[test]
fn test_to_utc() {
    let text = "2023-09-01AA12:00:00";
    let res = to_utc(text, "%Y-%m-%dAA%H:%M:%S").ok().unwrap();
    assert_eq!(res.display_string(), "2023-09-01 04:00:00 UTC");
}

#[test]
fn day_rollover_to_utc() {
    // Eight hours back across a midnight, a month edge and a year edge.
    let res = default_to_utc("2024-01-01 05:30:15").ok().unwrap();
    assert_eq!(res.display_string(), "2023-12-31 21:30:15 UTC");
}

#[test]
fn leap_day_accepted_and_shifted() {
    let res = default_to_utc("2024-03-01 07:59:59").ok().unwrap();
    assert_eq!(res.display_string(), "2024-02-29 23:59:59 UTC");
}

#[test]
fn non_leap_february_rejected() {
    assert!(default_to_local("2023-02-29 01:00:00").is_err());
}

#[test]
fn malformed_text_rejected() {
    assert!(default_to_local("not a date").is_err());
    assert!(rfc3339_to_local("2023-09-01 12:00:00").is_err());
}

#[test]
fn machine_local_rendering_has_the_fixed_shape() {
    let u = utilities::datetime::default_to_utc("2023-06-15 12:00:00").ok().unwrap();
    let d = u.to_default();
    assert_eq!(d.len(), 19);
    let r = u.to_rfc3339();
    assert_eq!(r.len(), 32);
    assert_eq!(&r[10..11], "T");
}

#[test]
fn rfc3339_rendering_keeps_micros() {
    let res = rfc3339_to_local("2023-09-01T12:00:00.250000+00:00").ok().unwrap();
    assert_eq!(res.rfc3339_string(), "2023-09-01T12:00:00.250000+08:00");
}
