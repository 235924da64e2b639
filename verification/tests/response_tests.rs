use utilities::response::{
    data, data_with_pagination, msg, msg_with_code, MsgResponse, MsgResponseWithErrCode,
    Pagination, Response,
};

#[test]
fn pagination_skip_and_take() {
    let p = Pagination { index: 3, size: 10 };
    assert_eq!(p.skip(), 20);
    assert_eq!(p.take(), 10);
    let first = Pagination { index: 1, size: 25 };
    assert_eq!(first.skip(), 0);
    let negative = Pagination { index: 2, size: -5 };
    assert_eq!(negative.skip(), -5);
    assert_eq!(negative.take(), 0);
    let degenerate = Pagination { index: i64::MIN, size: 4 };
    assert_eq!(degenerate.skip(), 0);
}

#[test]
fn envelope_builders_fill_the_right_parts() {
    let m: Response<u32, &str> = msg("hello");
    assert_eq!(m.msg, Some("hello"));
    assert!(m.data.is_none() && m.total.is_none() && m.err_code.is_none());

    let mc: Response<u32, &str> = msg_with_code("oops", 50000001);
    assert_eq!(mc.msg, Some("oops"));
    assert_eq!(mc.err_code, Some(50000001));

    let d: Response<u32, &str> = data(17);
    assert_eq!(d.data, Some(17));
    assert!(d.msg.is_none());

    let dp: Response<u32, &str> = data_with_pagination(17, 240);
    assert_eq!(dp.data, Some(17));
    assert_eq!(dp.total, Some(240));
}

#[test]
fn envelope_new_keeps_all_parts() {
    let r: Response<&str, String> =
        Response::new(Some("payload"), Some(3), Some(String::from("m")), Some(40000000));
    assert_eq!(r.data, Some("payload"));
    assert_eq!(r.total, Some(3));
    assert_eq!(r.msg, Some(String::from("m")));
    assert_eq!(r.err_code, Some(40000000));
}

#[test]
fn message_payloads_hold_their_fields() {
    let m = MsgResponse { msg: String::from("ok") };
    assert_eq!(m.msg, "ok");
    let mc = MsgResponseWithErrCode { msg: String::from("bad"), err_code: 40000001 };
    assert_eq!(mc.msg, "bad");
    assert_eq!(mc.err_code, 40000001);
}
