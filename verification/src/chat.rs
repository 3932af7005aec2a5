//! Inbound payloads: telling a chat message from the rest, and reading a
//! chat message's user name and text.
//!
//! Of the many types of message the server sends, only `chatmsg` is read.
//! Every other type, listed or not, is passed over.

use vstd::prelude::*;
use vstd::string::StringSliceAdditionalSpecFns;
use vstd::utf8::valid_utf8;
use crate::payload::{extract_field, field, has_prefix, starts_with};

verus! {

/// Trusted: `core::str::Utf8Error`, the error of `core::str::from_utf8`,
/// declared so that the call can be made. Nothing is said of what it holds.
#[verifier::external_type_specification]
#[verifier::external_body]
pub struct ExUtf8Error(core::str::Utf8Error);

/// Trusted: `core::str::from_utf8`. It succeeds on the byte strings that are
/// well-formed UTF-8 and on no others, and the text it gives back is made of
/// the very bytes it was given.
pub assume_specification[ core::str::from_utf8 ](v: &[u8]) -> (r: Result<
    &str,
    core::str::Utf8Error,
>)
    ensures
        r is Ok <==> valid_utf8(v@),
        r matches Ok(text) ==> text.spec_bytes() == v@,
;

/// What a payload decodes to.
#[derive(Clone, Copy, Debug, PartialEq, Eq)]
pub enum Decoded<'a> {
    /// Not a chat message, or a chat message that lacks its user name or
    /// its text.
    Ignored,
    /// A chat message.
    Chat { user: &'a str, text: &'a str },
    /// A chat message whose user name is not UTF-8; the name is given as
    /// it came.
    BadUser { raw_user: &'a [u8], text: &'a str },
    /// A chat message whose text is not UTF-8; the text is given as it
    /// came.
    BadText { user: &'a str, raw_text: &'a [u8] },
    /// A chat message of which neither the user name nor the text is
    /// UTF-8.
    BadUserAndText { raw_user: &'a [u8], raw_text: &'a [u8] },
}

/// The type of a payload, told by what the payload begins with. Only a
/// chat message is read further; the other types are known by name and
/// passed over, as is every type that is not listed.
#[derive(Clone, Copy, Debug, PartialEq, Eq, Structural)]
pub enum Kind {
    /// `chatmsg`
    Chat,
    /// `loginres`
    LoginRes,
    /// `lgpoolsite`
    LgPoolSite,
    /// `noble_num_info`
    NobleNumInfo,
    /// `shrn`
    Shrn,
    /// `uenter`
    UEnter,
    /// `ul_ranklist`
    UlRankList,
    /// Any other beginning.
    Unlisted,
}

/// What a chat message's payload begins with.
pub open spec fn chat_tag() -> Seq<u8> {
    "type@=chatmsg".spec_bytes()
}

/// The type of a payload: the first of the listed beginnings that it has.
pub open spec fn kind_of(payload: Seq<u8>) -> Kind {
    if has_prefix(payload, chat_tag()) {
        Kind::Chat
    } else if has_prefix(payload, "type@=loginres".spec_bytes()) {
        Kind::LoginRes
    } else if has_prefix(payload, "type@=lgpoolsite".spec_bytes()) {
        Kind::LgPoolSite
    } else if has_prefix(payload, "type@=noble_num_info".spec_bytes()) {
        Kind::NobleNumInfo
    } else if has_prefix(payload, "type@=shrn".spec_bytes()) {
        Kind::Shrn
    } else if has_prefix(payload, "type@=uenter".spec_bytes()) {
        Kind::UEnter
    } else if has_prefix(payload, "type@=ul_ranklist".spec_bytes()) {
        Kind::UlRankList
    } else {
        Kind::Unlisted
    }
}

/// The marker of the user's display name.
pub open spec fn user_key() -> Seq<u8> {
    "nn@=".spec_bytes()
}

/// The marker of the message text.
pub open spec fn text_key() -> Seq<u8> {
    "txt@=".spec_bytes()
}

/// The payload is a chat message.
pub open spec fn is_chat(payload: Seq<u8>) -> bool {
    kind_of(payload) == Kind::Chat
}

/// The payload is a chat message with both its fields.
pub open spec fn is_complete_chat(payload: Seq<u8>) -> bool {
    is_chat(payload) && field(payload, user_key()) is Some && field(payload, text_key()) is Some
}

/// Both markers are four and five bytes of ASCII.
pub proof fn lemma_keys()
    ensures
        user_key() == seq![110u8, 110u8, 64u8, 61u8],
        text_key() == seq![116u8, 120u8, 116u8, 64u8, 61u8],
{
    broadcast use vstd::string::is_ascii_spec_bytes;

    reveal_strlit("nn@=");
    reveal_strlit("txt@=");
    assert(vstd::string::is_ascii("nn@=") && vstd::string::is_ascii("txt@="));
    assert(user_key() =~= seq![110u8, 110u8, 64u8, 61u8]);
    assert(text_key() =~= seq![116u8, 120u8, 116u8, 64u8, 61u8]);
}

/// Tells the type of a payload.
pub fn classify(payload: &[u8]) -> (kind: Kind)
    ensures
        kind == kind_of(payload@),
{
    if starts_with(payload, "type@=chatmsg".as_bytes()) {
        Kind::Chat
    } else if starts_with(payload, "type@=loginres".as_bytes()) {
        Kind::LoginRes
    } else if starts_with(payload, "type@=lgpoolsite".as_bytes()) {
        Kind::LgPoolSite
    } else if starts_with(payload, "type@=noble_num_info".as_bytes()) {
        Kind::NobleNumInfo
    } else if starts_with(payload, "type@=shrn".as_bytes()) {
        Kind::Shrn
    } else if starts_with(payload, "type@=uenter".as_bytes()) {
        Kind::UEnter
    } else if starts_with(payload, "type@=ul_ranklist".as_bytes()) {
        Kind::UlRankList
    } else {
        Kind::Unlisted
    }
}

/// Tells whether the payload is a chat message.
pub fn is_chat_message(payload: &[u8]) -> (yes: bool)
    ensures
        yes == is_chat(payload@),
        yes == has_prefix(payload@, chat_tag()),
{
    match classify(payload) {
        Kind::Chat => true,
        _ => false,
    }
}

/// Extracts the user name and the text of a chat message, each as the bytes
/// that came.
pub fn parse_chatmessage<'a>(message: &'a [u8]) -> (r: (Option<&'a [u8]>, Option<&'a [u8]>))
    ensures
        match r.0 {
            Some(user) => field(message@, user_key()) == Some(user@),
            None => field(message@, user_key()) is None,
        },
        match r.1 {
            Some(text) => field(message@, text_key()) == Some(text@),
            None => field(message@, text_key()) is None,
        },
{
    proof {
        lemma_keys();
    }
    (extract_field(message, "nn@=".as_bytes()), extract_field(message, "txt@=".as_bytes()))
}

/// Decodes a payload. A chat message with both fields gives its user name
/// and text, each checked for UTF-8 apart from the other; a field that
/// fails the check is handed back as bytes. Everything else is ignored.
pub fn decode<'a>(payload: &'a [u8]) -> (d: Decoded<'a>)
    ensures
        d is Ignored <==> !is_complete_chat(payload@),
        match d {
            Decoded::Ignored => true,
            Decoded::Chat { user, text } => {
                &&& field(payload@, user_key()) == Some(user.spec_bytes())
                &&& field(payload@, text_key()) == Some(text.spec_bytes())
                &&& valid_utf8(user.spec_bytes())
                &&& valid_utf8(text.spec_bytes())
            },
            Decoded::BadUser { raw_user, text } => {
                &&& field(payload@, user_key()) == Some(raw_user@)
                &&& field(payload@, text_key()) == Some(text.spec_bytes())
                &&& !valid_utf8(raw_user@)
                &&& valid_utf8(text.spec_bytes())
            },
            Decoded::BadText { user, raw_text } => {
                &&& field(payload@, user_key()) == Some(user.spec_bytes())
                &&& field(payload@, text_key()) == Some(raw_text@)
                &&& valid_utf8(user.spec_bytes())
                &&& !valid_utf8(raw_text@)
            },
            Decoded::BadUserAndText { raw_user, raw_text } => {
                &&& field(payload@, user_key()) == Some(raw_user@)
                &&& field(payload@, text_key()) == Some(raw_text@)
                &&& !valid_utf8(raw_user@)
                &&& !valid_utf8(raw_text@)
            },
        },
{
    if !is_chat_message(payload) {
        return Decoded::Ignored;
    }
    match parse_chatmessage(payload) {
        (Some(user), Some(text)) => {
            match (core::str::from_utf8(user), core::str::from_utf8(text)) {
                (Ok(user), Ok(text)) => Decoded::Chat { user, text },
                (Err(_), Err(_)) => Decoded::BadUserAndText { raw_user: user, raw_text: text },
                (Err(_), Ok(text)) => Decoded::BadUser { raw_user: user, text },
                (Ok(user), Err(_)) => Decoded::BadText { user, raw_text: text },
            }
        },
        (_, _) => Decoded::Ignored,
    }
}

} // verus!
