use douyu_danmu::payload::{extract_field, find_subsequence, starts_with};

#[test]
fn find_subsequence_gives_first_occurrence() {
    assert_eq!(find_subsequence(b"abcabc", b"bc"), Some(1));
    assert_eq!(find_subsequence(b"abcabc", b"abc"), Some(0));
    assert_eq!(find_subsequence(b"aaab", b"aab"), Some(1));
    assert_eq!(find_subsequence(b"abc", b"c"), Some(2));
}

#[test]
fn find_subsequence_misses() {
    assert_eq!(find_subsequence(b"abcabc", b"cb"), None);
    assert_eq!(find_subsequence(b"ab", b"abc"), None);
    assert_eq!(find_subsequence(b"", b"a"), None);
}

#[test]
fn extract_field_absent_key() {
    assert_eq!(extract_field(b"type@=chatmsg/nn@=Alice/", b"txt@="), None);
    assert_eq!(extract_field(b"type@=chatmsg/nn@=Alice/", b"rid@="), None);
}

#[test]
fn extract_field_empty_payload() {
    assert_eq!(extract_field(b"", b"nn@="), None);
    assert_eq!(extract_field(b"", b"/"), None);
}

#[test]
fn extract_field_up_to_next_slash() {
    let payload = b"type@=chatmsg/nn@=Alice/txt@=Hello world/";
    assert_eq!(extract_field(payload, b"type@="), Some(&b"chatmsg"[..]));
    assert_eq!(extract_field(payload, b"nn@="), Some(&b"Alice"[..]));
    assert_eq!(extract_field(payload, b"txt@="), Some(&b"Hello world"[..]));
}

#[test]
fn extract_field_last_field_without_slash() {
    assert_eq!(
        extract_field(b"type@=chatmsg/nn@=Alice/txt@=Hello world", b"txt@="),
        Some(&b"Hello world"[..])
    );
    assert_eq!(extract_field(b"nn@=Al\0ice", b"nn@="), Some(&b"Al\0ice"[..]));
}

#[test]
fn extract_field_empty_value() {
    assert_eq!(extract_field(b"nn@=/txt@=hi/", b"nn@="), Some(&b""[..]));
    assert_eq!(extract_field(b"txt@=hi/nn@=", b"nn@="), Some(&b""[..]));
}

#[test]
fn extract_field_takes_first_of_several() {
    assert_eq!(extract_field(b"nn@=one/nn@=two/", b"nn@="), Some(&b"one"[..]));
}

#[test]
fn extract_field_is_not_token_aligned() {
    // The marker of the name stands inside the text's value and is found there.
    assert_eq!(extract_field(b"txt@=say nn@=boo/nn@=Alice/", b"nn@="), Some(&b"boo"[..]));
    // `rid@=` is found inside `gid@=`-free text that ends in the same letters.
    assert_eq!(extract_field(b"bigrid@=7/rid@=9/", b"rid@="), Some(&b"7"[..]));
}

#[test]
fn extract_field_key_with_slash_searches_after_the_key() {
    assert_eq!(extract_field(b"a/b@=value/rest", b"a/b@="), Some(&b"value"[..]));
}

#[test]
fn starts_with_prefix() {
    assert!(starts_with(b"type@=chatmsg/", b"type@=chatmsg"));
    assert!(starts_with(b"type@=chatmsg", b"type@=chatmsg"));
    assert!(starts_with(b"anything", b""));
    assert!(!starts_with(b"type@=chatms", b"type@=chatmsg"));
    assert!(!starts_with(b" type@=chatmsg", b"type@=chatmsg"));
    assert!(!starts_with(b"", b"t"));
}
