use utilities::error::{
    business_error, business_error_default, extract_err_code, hint, transport_error, unauthorized,
    validate_error, ErrCode, ErrorKind,
};

#[test]
fn business_code_in_range_accepted() {
    let e = business_error(String::from("boom"), 50000001).ok().unwrap();
    assert_eq!(e.status_code(), 500);
    assert_eq!(
        e.display_string(),
        "[ err_code: 50000001 ] business error: boom"
    );
}

#[test]
fn business_code_out_of_range_rejected() {
    assert!(business_error(String::from("boom"), 49999999).is_err());
    assert!(business_error(String::from("boom"), 50100000).is_err());
    assert!(business_error(String::from("boom"), 0).is_err());
}

#[test]
fn business_code_round_trips_through_formatting() {
    let e = business_error(String::from("boom"), 50012345).ok().unwrap();
    let rendered = e.display_string();
    assert_eq!(extract_err_code(&rendered), Some(50012345));
}

#[test]
fn every_coded_category_round_trips() {
    let cases = vec![
        validate_error(String::from("bad input"), 40000042).ok().unwrap(),
        unauthorized(String::from("who?"), 40100001).ok().unwrap(),
        hint(String::from("try later"), 45299999).ok().unwrap(),
        business_error(String::from("x"), 50099999).ok().unwrap(),
    ];
    let expected: Vec<u64> = vec![40000042, 40100001, 45299999, 50099999];
    let mut i = 0;
    while i < cases.len() {
        assert_eq!(extract_err_code(&cases[i].display_string()), Some(expected[i]));
        i += 1;
    }
}

#[test]
fn category_ranges_are_enforced() {
    assert!(validate_error(String::from("m"), 40100000).is_err());
    assert!(unauthorized(String::from("m"), 40099999).is_err());
    assert!(unauthorized(String::from("m"), 40200000).is_err());
    assert!(hint(String::from("m"), 45199999).is_err());
    assert!(hint(String::from("m"), 45300000).is_err());
}

#[test]
fn default_codes_are_the_bases() {
    assert_eq!(ErrCode::Business.base(), 50000000);
    assert_eq!(ErrCode::Validate.base(), 40000000);
    assert_eq!(ErrCode::Unauthorized.base(), 40100000);
    assert_eq!(ErrCode::Hint.base(), 45200000);
    assert_eq!(ErrCode::Timeout.base(), 40800000);
    assert_eq!(ErrCode::Other.base(), 60000000);
    let e = business_error_default(String::from("boom"));
    assert_eq!(
        e.display_string(),
        "[ err_code: 50000000 ] business error: boom"
    );
}

#[test]
fn status_codes_by_category() {
    assert_eq!(validate_error(String::from("m"), 40000000).ok().unwrap().status_code(), 400);
    assert_eq!(unauthorized(String::from("m"), 40100000).ok().unwrap().status_code(), 401);
    assert_eq!(hint(String::from("m"), 45200000).ok().unwrap().status_code(), 400);
    assert_eq!(ErrorKind::Timeout.status_code(), 408);
    assert_eq!(transport_error(String::from("m")).status_code(), 500);
}

#[test]
fn uncoded_categories_render_plainly() {
    assert_eq!(ErrorKind::Timeout.display_string(), "timeout");
    assert_eq!(
        transport_error(String::from("connection refused")).display_string(),
        "connection refused"
    );
    assert_eq!(extract_err_code(&ErrorKind::Timeout.display_string()), None);
}
