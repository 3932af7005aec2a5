use douyu_danmu::command::{
    join_group_frame, join_group_message, keep_alive_frame, keep_alive_message, login_frame,
    login_message, push_decimal,
};
use douyu_danmu::frame::encode;
use douyu_danmu::payload::extract_field;

fn decimal(n: i32) -> Vec<u8> {
    let mut out = Vec::new();
    push_decimal(&mut out, n);
    out
}

#[test]
fn decimal_of_small_and_large_numbers() {
    assert_eq!(decimal(0), b"0");
    assert_eq!(decimal(7), b"7");
    assert_eq!(decimal(10), b"10");
    assert_eq!(decimal(606118), b"606118");
    assert_eq!(decimal(i32::MAX), b"2147483647");
}

#[test]
fn decimal_of_negative_numbers() {
    assert_eq!(decimal(-1), b"-1");
    assert_eq!(decimal(-9999), b"-9999");
    assert_eq!(decimal(i32::MIN), b"-2147483648");
}

#[test]
fn decimal_appends_to_what_is_there() {
    let mut out = b"rid@=".to_vec();
    push_decimal(&mut out, 120);
    assert_eq!(out, b"rid@=120");
}

#[test]
fn decimal_agrees_with_std_formatting() {
    for n in [0, 1, 9, 10, 99, 100, 12345, -12345, 1_000_000_000, i32::MAX, i32::MIN] {
        assert_eq!(decimal(n), format!("{}", n).into_bytes());
    }
}

#[test]
fn login_message_text() {
    assert_eq!(login_message(606118), b"type@=loginreq/roomid@=606118/");
    assert_eq!(login_message(-5), b"type@=loginreq/roomid@=-5/");
}

#[test]
fn join_group_message_text() {
    assert_eq!(join_group_message(606118), b"type@=joingroup/rid@=606118/gid@=-9999/");
    assert_eq!(join_group_message(0), b"type@=joingroup/rid@=0/gid@=-9999/");
}

#[test]
fn keep_alive_message_text() {
    assert_eq!(keep_alive_message(), b"type@=mrkl/");
}

#[test]
fn command_frames_are_the_encoded_messages() {
    assert_eq!(login_frame(288016), encode(b"type@=loginreq/roomid@=288016/"));
    assert_eq!(join_group_frame(288016), encode(b"type@=joingroup/rid@=288016/gid@=-9999/"));
    assert_eq!(keep_alive_frame(), encode(b"type@=mrkl/"));
}

#[test]
fn login_round_trip() {
    let frame = login_frame(606118);
    let carried = &frame[12..];
    assert_eq!(extract_field(carried, b"type@="), Some(&b"loginreq"[..]));
    assert_eq!(extract_field(carried, b"roomid@="), Some(&b"606118"[..]));
}

#[test]
fn join_group_round_trip() {
    let frame = join_group_frame(i32::MIN);
    let carried = &frame[12..];
    assert_eq!(extract_field(carried, b"type@="), Some(&b"joingroup"[..]));
    assert_eq!(extract_field(carried, b"rid@="), Some(&b"-2147483648"[..]));
    assert_eq!(extract_field(carried, b"gid@="), Some(&b"-9999"[..]));
}

#[test]
fn keep_alive_round_trip() {
    let frame = keep_alive_frame();
    assert_eq!(extract_field(&frame[12..], b"type@="), Some(&b"mrkl"[..]));
    assert_eq!(extract_field(&frame[12..], b"rid@="), None);
}

#[test]
fn round_trip_of_a_pair_without_closing_slash_keeps_the_terminator() {
    // The value runs to the end of what the frame carries, closing zero byte included.
    let frame = encode(b"type@=x/k@=v");
    assert_eq!(extract_field(&frame[12..], b"k@="), Some(&b"v\0"[..]));
}
