//! The wire frame: a twelve-byte header, the payload, and on the outbound
//! direction one closing zero byte.

use vstd::prelude::*;
use vstd::slice::slice_subrange;
use crate::endian::{le_u16, le_u32, read_u16, read_u32, u16_bytes, u16_le_bytes, u32_bytes, u32_le_bytes};
use crate::endian::{lemma_u16_round_trip, lemma_u32_round_trip};

verus! {

/// Bytes in a frame header.
pub const HEADER_LEN: usize = 12;

/// Message type of a frame from client to server.
pub const CLIENT_MESSAGE: u16 = 689;

/// Message type of a frame from server to client.
pub const SERVER_MESSAGE: u16 = 690;

/// What a frame's length field counts besides the payload.
pub const LENGTH_OVERHEAD: u32 = 8;

/// The longest command that fits a frame: its length plus nine is the
/// largest value the length field holds.
pub const MAX_MESSAGE_LEN: usize = 0xffff_fff6;

/// The three fields of a frame header.
#[derive(Clone, Copy, Debug, PartialEq, Eq, Structural)]
pub struct Header {
    pub length: u32,
    pub length_echo: u32,
    pub message_type: u16,
}

/// Why an inbound frame was refused.
#[derive(Clone, Copy, Debug, PartialEq, Eq, Structural)]
pub enum Error {
    /// The header's fields contradict each other or name the wrong
    /// direction; the fields are those that were read.
    InvalidHeader { length: u32, length_echo: u32, message_type: u16 },
    /// The header is sound, but its length is less than the eight bytes
    /// that the length field counts besides the payload.
    NoRoomForPayload { length: u32 },
}

/// The header that twelve bytes spell; the first ten of them hold it.
pub open spec fn header_of(bytes: Seq<u8>) -> Header
    recommends
        bytes.len() >= 10,
{
    Header {
        length: le_u32(bytes.subrange(0, 4)) as u32,
        length_echo: le_u32(bytes.subrange(4, 8)) as u32,
        message_type: le_u16(bytes.subrange(8, 10)) as u16,
    }
}

/// The frame that carries `message` to the server.
pub open spec fn frame_of(message: Seq<u8>) -> Seq<u8>
    recommends
        message.len() <= MAX_MESSAGE_LEN,
{
    let length = (message.len() + 9) as u32;
    u32_le_bytes(length) + u32_le_bytes(length) + u16_le_bytes(CLIENT_MESSAGE) + seq![0u8, 0u8]
        + message + seq![0u8]
}

impl Header {
    /// An inbound header is sound when both length fields agree, the length
    /// is not zero and the message type is the server's.
    pub open spec fn valid(self) -> bool {
        self.length == self.length_echo && self.length != 0 && self.message_type
            == SERVER_MESSAGE
    }

    /// Reads the three fields from the twelve header bytes. The last two
    /// bytes are not looked at.
    pub fn parse(bytes: &[u8; 12]) -> (h: Header)
        ensures
            h == header_of(bytes@),
    {
        let all = bytes.as_slice();
        let length = read_u32(slice_subrange(all, 0, 4));
        let length_echo = read_u32(slice_subrange(all, 4, 8));
        let message_type = read_u16(slice_subrange(all, 8, 10));
        Header { length, length_echo, message_type }
    }

    /// Tells whether an inbound header is sound.
    pub fn is_valid(&self) -> (ok: bool)
        ensures
            ok == self.valid(),
    {
        self.length == self.length_echo && self.length != 0 && self.message_type
            == SERVER_MESSAGE
    }

    /// Accepts a sound inbound header and refuses every other one with the
    /// fields that were read.
    pub fn validate(&self) -> (r: Result<(), Error>)
        ensures
            r is Ok <==> self.valid(),
            r is Err ==> r == Err::<(), Error>(
                Error::InvalidHeader {
                    length: self.length,
                    length_echo: self.length_echo,
                    message_type: self.message_type,
                },
            ),
    {
        if self.is_valid() {
            Ok(())
        } else {
            Err(
                Error::InvalidHeader {
                    length: self.length,
                    length_echo: self.length_echo,
                    message_type: self.message_type,
                },
            )
        }
    }

    /// What to do after a header: the number of payload bytes to read, or
    /// the reason to give up.
    pub open spec fn plan(self) -> Result<usize, Error> {
        if !self.valid() {
            Err(
                Error::InvalidHeader {
                    length: self.length,
                    length_echo: self.length_echo,
                    message_type: self.message_type,
                },
            )
        } else if self.length < LENGTH_OVERHEAD {
            Err(Error::NoRoomForPayload { length: self.length })
        } else {
            Ok((self.length - LENGTH_OVERHEAD) as usize)
        }
    }

    /// Decides what follows a header: a sound one is followed by its
    /// payload, of the length it announces less eight; any other ends the
    /// reading, and so does a sound one that announces less than eight.
    pub fn read_plan(&self) -> (r: Result<usize, Error>)
        ensures
            r == self.plan(),
    {
        match self.validate() {
            Err(e) => Err(e),
            Ok(()) => {
                if self.length < LENGTH_OVERHEAD {
                    Err(Error::NoRoomForPayload { length: self.length })
                } else {
                    Ok(self.payload_len())
                }
            },
        }
    }

    /// Bytes of payload that follow the header.
    pub fn payload_len(&self) -> (n: usize)
        requires
            self.length >= LENGTH_OVERHEAD,
        ensures
            n == self.length - LENGTH_OVERHEAD,
    {
        (self.length - LENGTH_OVERHEAD) as usize
    }
}

/// Builds the frame that carries `message` to the server: the length
/// (message bytes plus nine) twice, the client message type, two reserved
/// zero bytes, the message and one closing zero byte.
pub fn encode(message: &[u8]) -> (frame: Vec<u8>)
    requires
        message@.len() <= MAX_MESSAGE_LEN,
    ensures
        frame@ == frame_of(message@),
        frame@.len() == message@.len() + 13,
{
    let length: u32 = (message.len() + 9) as u32;
    let length_bytes = u32_bytes(length);
    let type_bytes = u16_bytes(CLIENT_MESSAGE);
    let mut frame: Vec<u8> = Vec::new();
    frame.extend_from_slice(length_bytes.as_slice());
    frame.extend_from_slice(length_bytes.as_slice());
    frame.extend_from_slice(type_bytes.as_slice());
    frame.push(0u8);
    frame.push(0u8);
    frame.extend_from_slice(message);
    frame.push(0u8);
    proof {
        assert(frame@ =~= frame_of(message@));
    }
    frame
}

/// The header of an encoded frame reads back as the message's length plus
/// nine, twice, and the client message type.
pub proof fn lemma_encoded_header(message: Seq<u8>)
    requires
        message.len() <= MAX_MESSAGE_LEN,
    ensures
        frame_of(message).len() == message.len() + 13,
        header_of(frame_of(message).subrange(0, 12)) == (Header {
            length: (message.len() + 9) as u32,
            length_echo: (message.len() + 9) as u32,
            message_type: CLIENT_MESSAGE,
        }),
        header_of(frame_of(message).subrange(0, 12)).length == message.len() + 9,
{
    let length = (message.len() + 9) as u32;
    let head = frame_of(message).subrange(0, 12);
    lemma_u32_round_trip(length);
    lemma_u16_round_trip(CLIENT_MESSAGE);
    assert(head.subrange(0, 4) =~= u32_le_bytes(length));
    assert(head.subrange(4, 8) =~= u32_le_bytes(length));
    assert(head.subrange(8, 10) =~= u16_le_bytes(CLIENT_MESSAGE));
}

/// A header is decided by its first ten bytes: neither the two reserved
/// bytes nor anything that follows has a say in whether it is sound.
pub proof fn lemma_header_reads_ten_bytes(a: Seq<u8>, b: Seq<u8>)
    requires
        a.len() >= 10,
        b.len() >= 10,
        a.subrange(0, 10) == b.subrange(0, 10),
    ensures
        header_of(a) == header_of(b),
        header_of(a).valid() == header_of(b).valid(),
{
    assert forall|i: int| 0 <= i < 10 implies a[i] == b[i] by {
        assert(a[i] == a.subrange(0, 10)[i]);
        assert(b[i] == b.subrange(0, 10)[i]);
    }
    assert(a.subrange(0, 4) =~= b.subrange(0, 4));
    assert(a.subrange(4, 8) =~= b.subrange(4, 8));
    assert(a.subrange(8, 10) =~= b.subrange(8, 10));
}

/// No frame that this client encodes passes for one from the server.
pub proof fn lemma_encoded_not_inbound(message: Seq<u8>)
    requires
        message.len() <= MAX_MESSAGE_LEN,
    ensures
        !header_of(frame_of(message).subrange(0, 12)).valid(),
{
    lemma_encoded_header(message);
}

} // verus!
