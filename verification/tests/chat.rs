use douyu_danmu::chat::{classify, decode, is_chat_message, parse_chatmessage, Decoded, Kind};

#[test]
fn chat_message_decodes_to_user_and_text() {
    let payload = b"type@=chatmsg/nn@=Alice/txt@=Hello world/";
    assert_eq!(decode(payload), Decoded::Chat { user: "Alice", text: "Hello world" });
}

#[test]
fn chat_message_with_bad_text_names_the_text() {
    let payload = b"type@=chatmsg/nn@=Bob/txt@=Bad\xFFtext/";
    assert_eq!(decode(payload), Decoded::BadText { user: "Bob", raw_text: b"Bad\xFFtext" });
}

#[test]
fn chat_message_with_bad_user_names_the_user() {
    let payload = b"type@=chatmsg/nn@=B\xC3(b/txt@=fine/";
    assert_eq!(decode(payload), Decoded::BadUser { raw_user: b"B\xC3(b", text: "fine" });
}

#[test]
fn chat_message_with_both_bad_names_both() {
    let payload = b"type@=chatmsg/nn@=\x80/txt@=\xF0\x28\x8C\x28/";
    assert_eq!(
        decode(payload),
        Decoded::BadUserAndText { raw_user: b"\x80", raw_text: b"\xF0\x28\x8C\x28" }
    );
}

#[test]
fn chat_message_with_multibyte_text() {
    let payload = "type@=chatmsg/nn@=小明/txt@=你好 ✓/rid@=1/".as_bytes();
    assert_eq!(decode(payload), Decoded::Chat { user: "小明", text: "你好 ✓" });
}

#[test]
fn chat_message_with_truncated_multibyte_text_is_bad() {
    let payload = b"type@=chatmsg/nn@=Al/txt@=\xE4\xBD/";
    assert_eq!(decode(payload), Decoded::BadText { user: "Al", raw_text: b"\xE4\xBD" });
}

#[test]
fn chat_message_lacking_a_field_is_ignored() {
    assert_eq!(decode(b"type@=chatmsg/nn@=Alice/"), Decoded::Ignored);
    assert_eq!(decode(b"type@=chatmsg/txt@=hello/"), Decoded::Ignored);
    assert_eq!(decode(b"type@=chatmsg/"), Decoded::Ignored);
}

#[test]
fn other_types_are_ignored() {
    for kind in ["loginres", "lgpoolsite", "noble_num_info", "shrn", "uenter", "ul_ranklist", "zzz"] {
        let payload = format!("type@={}/nn@=Alice/txt@=Hello/", kind).into_bytes();
        assert!(!is_chat_message(&payload));
        assert_eq!(decode(&payload), Decoded::Ignored);
    }
    assert_eq!(decode(b""), Decoded::Ignored);
    assert_eq!(decode(b"nn@=Alice/txt@=Hello/type@=chatmsg/"), Decoded::Ignored);
}

#[test]
fn chat_tag_is_a_prefix_match() {
    assert!(is_chat_message(b"type@=chatmsg"));
    assert!(is_chat_message(b"type@=chatmsg/nn@=a/"));
    assert!(is_chat_message(b"type@=chatmsgx/"));
    assert!(!is_chat_message(b"type@=chatms"));
}

#[test]
fn parse_chatmessage_gives_both_fields_as_bytes() {
    assert_eq!(
        parse_chatmessage(b"type@=chatmsg/nn@=Alice/txt@=Hello world/"),
        (Some(&b"Alice"[..]), Some(&b"Hello world"[..]))
    );
    assert_eq!(parse_chatmessage(b"nn@=Alice/"), (Some(&b"Alice"[..]), None));
    assert_eq!(parse_chatmessage(b"txt@=\xFF"), (None, Some(&b"\xFF"[..])));
    assert_eq!(parse_chatmessage(b""), (None, None));
}

#[test]
fn empty_fields_are_valid_text() {
    assert_eq!(decode(b"type@=chatmsg/nn@=/txt@=/"), Decoded::Chat { user: "", text: "" });
}

#[test]
fn classify_knows_the_listed_types() {
    assert_eq!(classify(b"type@=chatmsg/nn@=a/txt@=b/"), Kind::Chat);
    assert_eq!(classify(b"type@=loginres/userid@=0/"), Kind::LoginRes);
    assert_eq!(classify(b"type@=lgpoolsite/zone@=1/"), Kind::LgPoolSite);
    assert_eq!(classify(b"type@=noble_num_info/sum@=2/"), Kind::NobleNumInfo);
    assert_eq!(classify(b"type@=shrn/"), Kind::Shrn);
    assert_eq!(classify(b"type@=uenter/nn@=a/"), Kind::UEnter);
    assert_eq!(classify(b"type@=ul_ranklist/"), Kind::UlRankList);
}

#[test]
fn classify_passes_over_the_rest() {
    assert_eq!(classify(b"type@=dgb/gfid@=1/"), Kind::Unlisted);
    assert_eq!(classify(b""), Kind::Unlisted);
    assert_eq!(classify(b"type@="), Kind::Unlisted);
    assert_eq!(classify(b"xtype@=chatmsg/"), Kind::Unlisted);
    assert_eq!(classify(b"type@=chatms"), Kind::Unlisted);
}
