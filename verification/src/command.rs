//! The three commands a client sends, as text of the form
//! `type@=<name>/<key>@=<value>/`, and the frames that carry them.

use vstd::prelude::*;
use vstd::string::{is_ascii, StringSliceAdditionalSpecFns};
use crate::frame::{encode, frame_of, HEADER_LEN, MAX_MESSAGE_LEN};
use crate::payload::{field, is_first_occurrence, lemma_closed_field, occurs_at, SLASH};

verus! {

/// The digit zero, in ASCII.
pub const DIGIT_ZERO: u8 = 48;

/// The minus sign, in ASCII.
pub const MINUS: u8 = 45;

/// The decimal digits of `n`, as ASCII.
pub open spec fn digits(n: nat) -> Seq<u8>
    decreases n,
{
    if n < 10 {
        seq![(DIGIT_ZERO + n) as u8]
    } else {
        digits(n / 10).push((DIGIT_ZERO + n % 10) as u8)
    }
}

/// `n` in decimal, as ASCII, with a minus sign where it is negative.
pub open spec fn decimal(n: int) -> Seq<u8> {
    if n < 0 {
        seq![MINUS] + digits((-n) as nat)
    } else {
        digits(n as nat)
    }
}

/// The text of the login command for a room.
pub open spec fn login_text(room_id: int) -> Seq<u8> {
    "type@=loginreq/roomid@=".spec_bytes() + decimal(room_id) + "/".spec_bytes()
}

/// The text of the command that joins the default group of a room.
pub open spec fn join_group_text(room_id: int) -> Seq<u8> {
    "type@=joingroup/rid@=".spec_bytes() + decimal(room_id) + "/gid@=-9999/".spec_bytes()
}

/// The text of the keep-alive command.
pub open spec fn keep_alive_text() -> Seq<u8> {
    "type@=mrkl/".spec_bytes()
}

/// A number below 2^32 has ten digits at most, and one at least.
pub proof fn lemma_digits_len(n: nat)
    requires
        n <= u32::MAX,
    ensures
        1 <= digits(n).len() <= 10,
{
    reveal_with_fuel(digits, 11);
}

/// The three commands are short: each fits a frame.
pub proof fn lemma_command_lengths(room_id: int)
    requires
        i32::MIN <= room_id <= i32::MAX,
    ensures
        25 <= login_text(room_id).len() <= 35,
        34 <= join_group_text(room_id).len() <= 44,
        keep_alive_text().len() == 11,
{
    broadcast use vstd::string::is_ascii_spec_bytes;

    reveal_strlit("type@=loginreq/roomid@=");
    reveal_strlit("type@=joingroup/rid@=");
    reveal_strlit("/gid@=-9999/");
    reveal_strlit("type@=mrkl/");
    reveal_strlit("/");
    if room_id < 0 {
        lemma_digits_len((-room_id) as nat);
    } else {
        lemma_digits_len(room_id as nat);
    }
    assert(1 <= decimal(room_id).len() <= 11);
    assert(is_ascii("type@=loginreq/roomid@=") && is_ascii("/"));
    assert(is_ascii("type@=joingroup/rid@=") && is_ascii("/gid@=-9999/"));
    assert(is_ascii("type@=mrkl/"));
}

/// Appends the decimal digits of `n`.
fn push_digits(out: &mut Vec<u8>, n: u32)
    ensures
        final(out)@ == old(out)@ + digits(n as nat),
    decreases n,
{
    if n >= 10 {
        push_digits(out, n / 10);
    }
    out.push(DIGIT_ZERO + (n % 10) as u8);
    proof {
        assert(out@ =~= old(out)@ + digits(n as nat));
    }
}

/// Appends `n` in decimal.
pub fn push_decimal(out: &mut Vec<u8>, n: i32)
    ensures
        final(out)@ == old(out)@ + decimal(n as int),
{
    if n < 0 {
        out.push(MINUS);
        let magnitude: u32 = (-(n as i64)) as u32;
        push_digits(out, magnitude);
    } else {
        push_digits(out, n as u32);
    }
    proof {
        assert(out@ =~= old(out)@ + decimal(n as int));
    }
}

/// The login command for a room.
pub fn login_message(room_id: i32) -> (message: Vec<u8>)
    ensures
        message@ == login_text(room_id as int),
{
    let mut message: Vec<u8> = Vec::new();
    message.extend_from_slice("type@=loginreq/roomid@=".as_bytes());
    push_decimal(&mut message, room_id);
    message.extend_from_slice("/".as_bytes());
    proof {
        assert(message@ =~= login_text(room_id as int));
    }
    message
}

/// The command that joins the default group of a room.
pub fn join_group_message(room_id: i32) -> (message: Vec<u8>)
    ensures
        message@ == join_group_text(room_id as int),
{
    let mut message: Vec<u8> = Vec::new();
    message.extend_from_slice("type@=joingroup/rid@=".as_bytes());
    push_decimal(&mut message, room_id);
    message.extend_from_slice("/gid@=-9999/".as_bytes());
    proof {
        assert(message@ =~= join_group_text(room_id as int));
    }
    message
}

/// The keep-alive command.
pub fn keep_alive_message() -> (message: Vec<u8>)
    ensures
        message@ == keep_alive_text(),
{
    let mut message: Vec<u8> = Vec::new();
    message.extend_from_slice("type@=mrkl/".as_bytes());
    proof {
        assert(message@ =~= keep_alive_text());
    }
    message
}

/// The frame that logs in to a room.
pub fn login_frame(room_id: i32) -> (frame: Vec<u8>)
    ensures
        frame@ == frame_of(login_text(room_id as int)),
{
    let message = login_message(room_id);
    proof {
        lemma_command_lengths(room_id as int);
    }
    encode(message.as_slice())
}

/// The frame that joins the default group of a room.
pub fn join_group_frame(room_id: i32) -> (frame: Vec<u8>)
    ensures
        frame@ == frame_of(join_group_text(room_id as int)),
{
    let message = join_group_message(room_id);
    proof {
        lemma_command_lengths(room_id as int);
    }
    encode(message.as_slice())
}

/// The keep-alive frame.
pub fn keep_alive_frame() -> (frame: Vec<u8>)
    ensures
        frame@ == frame_of(keep_alive_text()),
{
    let message = keep_alive_message();
    proof {
        lemma_command_lengths(0);
    }
    encode(message.as_slice())
}

/// What the server reads behind the header of the frame that carries
/// `message`: the message and its closing zero byte.
pub open spec fn carried(message: Seq<u8>) -> Seq<u8> {
    frame_of(message).skip(HEADER_LEN as int)
}

/// A pair written into a command is read back, byte for byte, from what
/// the command's frame carries behind its header. The command is
/// `before`, the marker `key`, `value`, a slash and `after`. This holds
/// where the value holds no slash and the marker does not stand in the
/// command before its own place: the reader takes the first occurrence of
/// the marker, wherever it is.
pub proof fn lemma_round_trip(before: Seq<u8>, key: Seq<u8>, value: Seq<u8>, after: Seq<u8>)
    requires
        key.len() > 0,
        (before + key + value + seq![SLASH] + after).len() <= MAX_MESSAGE_LEN,
        forall|k: int| 0 <= k < value.len() ==> value[k] != SLASH,
        forall|j: int|
            0 <= j < before.len() ==> !occurs_at(before + key + value + seq![SLASH] + after, key, j),
    ensures
        field(carried(before + key + value + seq![SLASH] + after), key) == Some(value),
{
    let command = before + key + value + seq![SLASH] + after;
    let payload = carried(command);
    let at = before.len() as int;
    let from = at + key.len();
    let end = from + value.len();
    assert(payload =~= command + seq![0u8]);
    assert(payload.subrange(at, from) =~= key);
    assert(command.len() == before.len() + key.len() + value.len() + 1 + after.len());
    assert forall|j: int| 0 <= j < at implies !occurs_at(payload, key, j) by {
        assert(!occurs_at(command, key, j));
        assert(payload.subrange(j, j + key.len()) =~= command.subrange(j, j + key.len()));
    }
    assert(is_first_occurrence(payload, key, at));
    assert(payload[end] == SLASH);
    assert forall|k: int| from <= k < end implies payload[k] != SLASH by {
        assert(payload[k] == value[k - from]);
    }
    lemma_closed_field(payload, key, at, end);
    assert(payload.subrange(from, end) =~= value);
}

/// Decimal digits are the ASCII digits.
pub proof fn lemma_digits_bytes(n: nat)
    ensures
        forall|k: int|
            0 <= k < digits(n).len() ==> DIGIT_ZERO <= #[trigger] digits(n)[k] <= DIGIT_ZERO + 9,
    decreases n,
{
    if n >= 10 {
        lemma_digits_bytes(n / 10);
        assert forall|k: int| 0 <= k < digits(n).len() implies DIGIT_ZERO <= #[trigger] digits(
            n,
        )[k] <= DIGIT_ZERO + 9 by {
            if k < digits(n / 10).len() {
                assert(digits(n)[k] == digits(n / 10)[k]);
            }
        }
    }
}

/// A number in decimal holds digits and, in front, perhaps a minus sign:
/// no slash and no letter.
pub proof fn lemma_decimal_bytes(n: int)
    ensures
        forall|k: int|
            0 <= k < decimal(n).len() ==> #[trigger] decimal(n)[k] == MINUS || DIGIT_ZERO
                <= decimal(n)[k] <= DIGIT_ZERO + 9,
{
    if n < 0 {
        lemma_digits_bytes((-n) as nat);
    } else {
        lemma_digits_bytes(n as nat);
    }
}

/// The login command is its type, a slash, the room marker, the room and a
/// slash.
proof fn lemma_login_parts(room_id: int)
    ensures
        login_text(room_id) == "type@=".spec_bytes() + "loginreq".spec_bytes() + seq![SLASH]
            + "roomid@=".spec_bytes() + decimal(room_id) + seq![SLASH],
        "type@=".spec_bytes().len() == 6,
        "loginreq".spec_bytes().len() == 8,
        "roomid@=".spec_bytes().len() == 8,
{
    broadcast use vstd::string::is_ascii_spec_bytes;

    reveal_strlit("type@=loginreq/roomid@=");
    reveal_strlit("type@=");
    reveal_strlit("loginreq");
    reveal_strlit("roomid@=");
    reveal_strlit("/");
    assert(is_ascii("type@=loginreq/roomid@=") && is_ascii("/"));
    assert(is_ascii("type@=") && is_ascii("loginreq") && is_ascii("roomid@="));
    assert("type@=loginreq/roomid@=".spec_bytes() =~= "type@=".spec_bytes()
        + "loginreq".spec_bytes() + seq![SLASH] + "roomid@=".spec_bytes());
    assert("/".spec_bytes() =~= seq![SLASH]);
    assert(login_text(room_id) =~= "type@=".spec_bytes() + "loginreq".spec_bytes() + seq![SLASH]
        + "roomid@=".spec_bytes() + decimal(room_id) + seq![SLASH]);
}

/// A marker does not stand where its first two bytes do not.
proof fn lemma_not_here(hay: Seq<u8>, key: Seq<u8>, j: int)
    requires
        key.len() >= 2,
        0 <= j,
        j + 1 < hay.len() ==> hay[j] != key[0] || hay[j + 1] != key[1],
    ensures
        !occurs_at(hay, key, j),
{
    if occurs_at(hay, key, j) {
        let window = hay.subrange(j, j + key.len());
        assert(window[0] == hay[j] && window[1] == hay[j + 1]);
    }
}

/// The login command's prefix, byte by byte.
proof fn lemma_login_prefix()
    ensures
        "type@=".spec_bytes() == seq![116u8, 121u8, 112u8, 101u8, 64u8, 61u8],
        "loginreq".spec_bytes() == seq![108u8, 111u8, 103u8, 105u8, 110u8, 114u8, 101u8, 113u8],
        "roomid@=".spec_bytes() == seq![114u8, 111u8, 111u8, 109u8, 105u8, 100u8, 64u8, 61u8],
{
    broadcast use vstd::string::is_ascii_spec_bytes;

    reveal_strlit("type@=");
    reveal_strlit("loginreq");
    reveal_strlit("roomid@=");
    assert(is_ascii("type@=") && is_ascii("loginreq") && is_ascii("roomid@="));
    assert("type@=".spec_bytes() =~= seq![116u8, 121u8, 112u8, 101u8, 64u8, 61u8]);
    assert("loginreq".spec_bytes() =~= seq![108u8, 111u8, 103u8, 105u8, 110u8, 114u8, 101u8, 113u8]);
    assert("roomid@=".spec_bytes() =~= seq![114u8, 111u8, 111u8, 109u8, 105u8, 100u8, 64u8, 61u8]);
}

/// What the login frame carries reads back as the command's type.
pub proof fn lemma_login_type_round_trip(room_id: int)
    requires
        i32::MIN <= room_id <= i32::MAX,
    ensures
        field(carried(login_text(room_id)), "type@=".spec_bytes()) == Some(
            "loginreq".spec_bytes(),
        ),
{
    lemma_login_prefix();
    lemma_login_parts(room_id);
    lemma_command_lengths(room_id);
    let kind_key = "type@=".spec_bytes();
    let kind = "loginreq".spec_bytes();
    let rest = "roomid@=".spec_bytes() + decimal(room_id) + seq![SLASH];
    let none = Seq::<u8>::empty();
    assert(login_text(room_id) =~= none + kind_key + kind + seq![SLASH] + rest);
    lemma_round_trip(none, kind_key, kind, rest);
}

/// What the login frame carries reads back as the room, in decimal.
pub proof fn lemma_login_room_round_trip(room_id: int)
    requires
        i32::MIN <= room_id <= i32::MAX,
    ensures
        field(carried(login_text(room_id)), "roomid@=".spec_bytes()) == Some(decimal(room_id)),
{
    lemma_login_prefix();
    lemma_login_parts(room_id);
    lemma_command_lengths(room_id);
    lemma_decimal_bytes(room_id);
    let room_key = "roomid@=".spec_bytes();
    let before = "type@=".spec_bytes() + "loginreq".spec_bytes() + seq![SLASH];
    let text = login_text(room_id);
    let none = Seq::<u8>::empty();
    assert(text =~= before + room_key + decimal(room_id) + seq![SLASH] + none);
    assert(before =~= seq![116u8, 121u8, 112u8, 101u8, 64u8, 61u8, 108u8, 111u8, 103u8, 105u8, 110u8, 114u8, 101u8, 113u8, 47u8]);
    assert forall|j: int| 0 <= j < before.len() implies !occurs_at(text, room_key, j) by {
        assert(text[j] == before[j]);
        assert(j + 1 < 15 ==> text[j + 1] == before[j + 1]);
        assert(text[15] == room_key[0]);
        lemma_not_here(text, room_key, j);
    }
    lemma_round_trip(before, room_key, decimal(room_id), none);
}

/// The join-group command is its type, a slash, the room marker, the room,
/// a slash, the group marker, the default group and a slash.
proof fn lemma_join_group_parts(room_id: int)
    ensures
        join_group_text(room_id) == "type@=".spec_bytes() + "joingroup".spec_bytes() + seq![SLASH]
            + "rid@=".spec_bytes() + decimal(room_id) + seq![SLASH] + "gid@=".spec_bytes()
            + "-9999".spec_bytes() + seq![SLASH],
        "type@=".spec_bytes() == seq![116u8, 121u8, 112u8, 101u8, 64u8, 61u8],
        "joingroup".spec_bytes() == seq![106u8, 111u8, 105u8, 110u8, 103u8, 114u8, 111u8, 117u8, 112u8],
        "rid@=".spec_bytes() == seq![114u8, 105u8, 100u8, 64u8, 61u8],
        "gid@=".spec_bytes() == seq![103u8, 105u8, 100u8, 64u8, 61u8],
        "-9999".spec_bytes() == seq![45u8, 57u8, 57u8, 57u8, 57u8],
{
    broadcast use vstd::string::is_ascii_spec_bytes;

    reveal_strlit("type@=joingroup/rid@=");
    reveal_strlit("/gid@=-9999/");
    reveal_strlit("type@=");
    reveal_strlit("joingroup");
    reveal_strlit("rid@=");
    reveal_strlit("gid@=");
    reveal_strlit("-9999");
    assert(is_ascii("type@=joingroup/rid@=") && is_ascii("/gid@=-9999/"));
    assert(is_ascii("type@=") && is_ascii("joingroup") && is_ascii("rid@="));
    assert(is_ascii("gid@=") && is_ascii("-9999"));
    assert("type@=".spec_bytes() =~= seq![116u8, 121u8, 112u8, 101u8, 64u8, 61u8]);
    assert("joingroup".spec_bytes() =~= seq![106u8, 111u8, 105u8, 110u8, 103u8, 114u8, 111u8, 117u8, 112u8]);
    assert("rid@=".spec_bytes() =~= seq![114u8, 105u8, 100u8, 64u8, 61u8]);
    assert("gid@=".spec_bytes() =~= seq![103u8, 105u8, 100u8, 64u8, 61u8]);
    assert("-9999".spec_bytes() =~= seq![45u8, 57u8, 57u8, 57u8, 57u8]);
    assert("type@=joingroup/rid@=".spec_bytes() =~= "type@=".spec_bytes()
        + "joingroup".spec_bytes() + seq![SLASH] + "rid@=".spec_bytes());
    assert("/gid@=-9999/".spec_bytes() =~= seq![SLASH] + "gid@=".spec_bytes()
        + "-9999".spec_bytes() + seq![SLASH]);
    assert(join_group_text(room_id) =~= "type@=".spec_bytes() + "joingroup".spec_bytes()
        + seq![SLASH] + "rid@=".spec_bytes() + decimal(room_id) + seq![SLASH]
        + "gid@=".spec_bytes() + "-9999".spec_bytes() + seq![SLASH]);
}

/// What the join-group frame carries reads back as the command's type.
pub proof fn lemma_join_group_type_round_trip(room_id: int)
    requires
        i32::MIN <= room_id <= i32::MAX,
    ensures
        field(carried(join_group_text(room_id)), "type@=".spec_bytes()) == Some(
            "joingroup".spec_bytes(),
        ),
{
    lemma_join_group_parts(room_id);
    lemma_command_lengths(room_id);
    let kind_key = "type@=".spec_bytes();
    let kind = "joingroup".spec_bytes();
    let rest = "rid@=".spec_bytes() + decimal(room_id) + seq![SLASH] + "gid@=".spec_bytes()
        + "-9999".spec_bytes() + seq![SLASH];
    let none = Seq::<u8>::empty();
    assert(join_group_text(room_id) =~= none + kind_key + kind + seq![SLASH] + rest);
    lemma_round_trip(none, kind_key, kind, rest);
}

/// What the join-group frame carries reads back as the room, in decimal.
pub proof fn lemma_join_group_room_round_trip(room_id: int)
    requires
        i32::MIN <= room_id <= i32::MAX,
    ensures
        field(carried(join_group_text(room_id)), "rid@=".spec_bytes()) == Some(decimal(room_id)),
{
    lemma_join_group_parts(room_id);
    lemma_command_lengths(room_id);
    lemma_decimal_bytes(room_id);
    let room_key = "rid@=".spec_bytes();
    let before = "type@=".spec_bytes() + "joingroup".spec_bytes() + seq![SLASH];
    let rest = "gid@=".spec_bytes() + "-9999".spec_bytes() + seq![SLASH];
    let text = join_group_text(room_id);
    assert(text =~= before + room_key + decimal(room_id) + seq![SLASH] + rest);
    assert(before =~= seq![116u8, 121u8, 112u8, 101u8, 64u8, 61u8, 106u8, 111u8, 105u8, 110u8, 103u8, 114u8, 111u8, 117u8, 112u8, 47u8]);
    assert forall|j: int| 0 <= j < before.len() implies !occurs_at(text, room_key, j) by {
        assert(text[j] == before[j]);
        assert(j + 1 < 16 ==> text[j + 1] == before[j + 1]);
        assert(text[16] == room_key[0]);
        lemma_not_here(text, room_key, j);
    }
    lemma_round_trip(before, room_key, decimal(room_id), rest);
}

/// What the join-group frame carries reads back as the default group.
pub proof fn lemma_join_group_group_round_trip(room_id: int)
    requires
        i32::MIN <= room_id <= i32::MAX,
    ensures
        field(carried(join_group_text(room_id)), "gid@=".spec_bytes()) == Some(
            "-9999".spec_bytes(),
        ),
{
    lemma_join_group_parts(room_id);
    lemma_command_lengths(room_id);
    lemma_decimal_bytes(room_id);
    let group_key = "gid@=".spec_bytes();
    let head = "type@=".spec_bytes() + "joingroup".spec_bytes() + seq![SLASH]
        + "rid@=".spec_bytes();
    let room = decimal(room_id);
    let before = head + room + seq![SLASH];
    let group = "-9999".spec_bytes();
    let none = Seq::<u8>::empty();
    let text = join_group_text(room_id);
    assert(text =~= before + group_key + group + seq![SLASH] + none);
    assert(head =~= seq![116u8, 121u8, 112u8, 101u8, 64u8, 61u8, 106u8, 111u8, 105u8, 110u8, 103u8, 114u8, 111u8, 117u8, 112u8, 47u8, 114u8, 105u8, 100u8, 64u8, 61u8]);
    assert forall|j: int| 0 <= j < before.len() implies !occurs_at(text, group_key, j) by {
        assert(text[j] == before[j]);
        if j < 21 {
            assert(text[j] == head[j]);
            assert(j + 1 < 21 ==> text[j + 1] == head[j + 1]);
        } else if j < 21 + room.len() {
            assert(text[j] == room[j - 21]);
        } else {
            assert(text[j] == SLASH);
        }
        lemma_not_here(text, group_key, j);
    }
    lemma_round_trip(before, group_key, group, none);
}

/// What the keep-alive frame carries reads back as the command's type.
pub proof fn lemma_keep_alive_round_trip()
    ensures
        field(carried(keep_alive_text()), "type@=".spec_bytes()) == Some("mrkl".spec_bytes()),
{
    broadcast use vstd::string::is_ascii_spec_bytes;

    reveal_strlit("type@=mrkl/");
    reveal_strlit("type@=");
    reveal_strlit("mrkl");
    assert(is_ascii("type@=mrkl/") && is_ascii("type@=") && is_ascii("mrkl"));
    let kind_key = "type@=".spec_bytes();
    let kind = "mrkl".spec_bytes();
    let none = Seq::<u8>::empty();
    assert(kind =~= seq![109u8, 114u8, 107u8, 108u8]);
    assert(keep_alive_text() =~= none + kind_key + kind + seq![SLASH] + none);
    lemma_round_trip(none, kind_key, kind, none);
}

} // verus!
