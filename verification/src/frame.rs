//! Frames: a header of six bytes, then the encoded body of one message.
use framing_sv2::framing2::{Frame, Sv2Frame};
use framing_sv2::header::Header;
use vstd::prelude::*;

use crate::error::PoolError;
use crate::message::{
    le_bytes, lemma_le_bytes_len, lemma_number_in_bytes, EncodedMessage, EncodedMessageView,
};

verus! {

/// The number of bytes in the header of a frame.
pub const HEADER_SIZE: usize = 6;

/// The largest body that a frame can carry: its length is written in three bytes.
pub const MAX_PAYLOAD: usize = 0xff_ffff;

/// The bit of the extension type that marks a message for one channel.
pub const CHANNEL_BIT: u16 = 0x8000;

/// The header of the frame around `message`: the extension type, of which only the channel bit is
/// in use, the message type, and the length of the body.
pub open spec fn header_of(message: EncodedMessageView) -> Seq<u8> {
    le_bytes(
        if message.channel_bit {
            CHANNEL_BIT as nat
        } else {
            0
        },
        2,
    ) + seq![message.message_type] + le_bytes(message.payload.len(), 3)
}

/// The frame around `message`: its header, then its body.
pub open spec fn frame_of(message: EncodedMessageView) -> Seq<u8> {
    header_of(message) + message.payload
}

/// `Sv2Frame::from_message` of framing_sv2 with extension type 0, then the bytes of the header
/// that it made. There is no frame for a body that is longer than three bytes can say.
#[verifier::external_body]
fn make_header(message: &EncodedMessage) -> (header: Option<Vec<u8>>)
    requires
        message.payload@.len() <= u32::MAX,
    ensures
        header is Some <==> message.payload@.len() <= MAX_PAYLOAD,
        header matches Some(bytes) ==> bytes@ == header_of(message@),
{
    let frame: Sv2Frame<Vec<u8>, Vec<u8>> = Sv2Frame::from_message(
        message.payload.clone(),
        message.message_type,
        0,
        message.channel_bit,
    )?;
    frame.get_header().map(|header| binary_sv2::to_bytes(header).unwrap())
}

/// `Header::from_bytes` of framing_sv2 and the message type of the header that it read: the third
/// byte, where there are enough bytes for a header.
#[verifier::external_body]
fn read_message_type(frame: &Vec<u8>) -> (message_type: Option<u8>)
    ensures
        message_type is Some <==> frame@.len() >= HEADER_SIZE,
        message_type matches Some(value) ==> value == frame@[2],
{
    Header::from_bytes(frame).ok().map(|header| header.msg_type())
}

/// `Sv2Frame::payload` of framing_sv2 on a frame that was made of its bytes: all that follows the
/// header, whatever length the header states.
#[verifier::external_body]
fn read_payload(frame: Vec<u8>) -> (payload: Vec<u8>)
    requires
        frame@.len() >= HEADER_SIZE,
    ensures
        payload@ == frame@.skip(HEADER_SIZE as int),
{
    let mut frame: Sv2Frame<Vec<u8>, Vec<u8>> = Sv2Frame::from_bytes_unchecked(frame);
    frame.payload().to_vec()
}

/// What the transport hands over: a frame of the noise handshake, or a message frame by its bytes.
#[derive(Debug)]
pub enum EitherFrame {
    HandShake(Vec<u8>),
    Sv2(Vec<u8>),
}

impl EitherFrame {
    /// The bytes of a message frame; a handshake frame is refused.
    pub fn into_sv2(self) -> (result: Result<Vec<u8>, PoolError>)
        ensures
            match self {
                EitherFrame::Sv2(bytes) => result == Ok::<Vec<u8>, PoolError>(bytes),
                EitherFrame::HandShake(_) => result == Err::<Vec<u8>, PoolError>(
                    PoolError::ExpectedSv2Frame,
                ),
            },
    {
        match self {
            EitherFrame::Sv2(bytes) => Ok(bytes),
            EitherFrame::HandShake(_) => Err(PoolError::ExpectedSv2Frame),
        }
    }
}

/// The message type of a frame, and its body.
#[derive(Debug)]
pub struct Incoming {
    pub message_type: u8,
    pub payload: Vec<u8>,
}

/// Puts `message` into a frame. It is refused where its body is longer than a frame can carry.
pub fn frame(message: EncodedMessage) -> (result: Result<Vec<u8>, PoolError>)
    requires
        message.payload@.len() <= u32::MAX,
    ensures
        match result {
            Ok(bytes) => {
                &&& message.payload@.len() <= MAX_PAYLOAD
                &&& bytes@ == frame_of(message@)
                &&& bytes@.len() == 6 + message.payload@.len()
                &&& bytes@[2] == message.message_type
                &&& bytes@.skip(6) == message.payload@
            },
            Err(error) => message.payload@.len() > MAX_PAYLOAD && error
                == PoolError::BadPayloadSize,
        },
{
    proof {
        lemma_unframe_frame(message@);
    }
    match make_header(&message) {
        Some(mut bytes) => {
            let mut payload: Vec<u8> = message.payload;
            bytes.append(&mut payload);
            Ok(bytes)
        },
        None => Err(PoolError::BadPayloadSize),
    }
}

/// The message type and the body of a frame; nothing where it is too short to have a header.
pub open spec fn incoming_of(bytes: Seq<u8>) -> Option<(u8, Seq<u8>)> {
    if bytes.len() < HEADER_SIZE {
        None
    } else {
        Some((bytes[2], bytes.skip(HEADER_SIZE as int)))
    }
}

/// Takes a frame apart; none where it is too short to have a header.
pub fn unframe(bytes: Vec<u8>) -> (result: Option<Incoming>)
    ensures
        match result {
            Some(incoming) => incoming_of(bytes@) == Some(
                (incoming.message_type, incoming.payload@),
            ),
            None => incoming_of(bytes@) is None,
        },
        match result {
            Some(incoming) => {
                &&& bytes@.len() >= HEADER_SIZE
                &&& incoming.message_type == bytes@[2]
                &&& incoming.payload@ == bytes@.skip(HEADER_SIZE as int)
            },
            None => bytes@.len() < HEADER_SIZE,
        },
{
    match read_message_type(&bytes) {
        Some(message_type) => Some(Incoming { message_type, payload: read_payload(bytes) }),
        None => None,
    }
}

/// A frame, taken apart, gives back the type and the body of the message that was put into it.
pub proof fn lemma_unframe_frame(message: EncodedMessageView)
    ensures
        frame_of(message).len() == HEADER_SIZE + message.payload.len(),
        frame_of(message)[2] == message.message_type,
        frame_of(message).skip(HEADER_SIZE as int) == message.payload,
{
    let extension = if message.channel_bit {
        CHANNEL_BIT as nat
    } else {
        0
    };
    lemma_le_bytes_len(extension, 2);
    lemma_le_bytes_len(message.payload.len(), 3);
    assert(frame_of(message).skip(HEADER_SIZE as int) =~= message.payload);
}

/// Two messages with the same frame are the same message.
pub proof fn lemma_frame_injective(left: EncodedMessageView, right: EncodedMessageView)
    requires
        frame_of(left) == frame_of(right),
    ensures
        left == right,
{
    lemma_unframe_frame(left);
    lemma_unframe_frame(right);
    lemma_channel_byte(left);
    lemma_channel_byte(right);
}

proof fn lemma_channel_byte(message: EncodedMessageView)
    ensures
        frame_of(message)[1] == if message.channel_bit {
            128u8
        } else {
            0u8
        },
{
    let extension = if message.channel_bit {
        CHANNEL_BIT as nat
    } else {
        0
    };
    lemma_le_bytes_len(extension, 2);
    lemma_le_bytes_len(extension / 256, 1);
    lemma_le_bytes_len(message.payload.len(), 3);
    assert(le_bytes(extension, 2)[1] == le_bytes(extension / 256, 1)[0]);
    assert(frame_of(message)[1] == le_bytes(extension, 2)[1]);
}

/// What a frame holds, byte for byte: no extension but the channel bit, the type, the length of
/// the body, and the body.
pub proof fn lemma_frame_bytes(message: EncodedMessageView)
    requires
        message.payload.len() < 0x100_0000,
    ensures
        frame_of(message).len() == 6 + message.payload.len(),
        frame_of(message)[0] == 0,
        frame_of(message)[1] == 128 || frame_of(message)[1] == 0,
        frame_of(message)[1] == 128 <==> message.channel_bit,
        frame_of(message)[2] == message.message_type,
        frame_of(message)[3] + 0x100 * frame_of(message)[4] + 0x1_0000 * frame_of(message)[5]
            == message.payload.len(),
        forall|i: int|
            0 <= i < message.payload.len() ==> frame_of(message)[6 + i]
                == #[trigger] message.payload[i],
{
    lemma_unframe_frame(message);
    lemma_channel_byte(message);
    let extension = if message.channel_bit {
        CHANNEL_BIT as nat
    } else {
        0
    };
    let len = message.payload.len();
    lemma_le_bytes_len(extension, 2);
    lemma_le_bytes_len(extension / 256, 1);
    lemma_le_bytes_len(len, 3);
    lemma_number_in_bytes(len);
    assert(frame_of(message)[0] == le_bytes(extension, 2)[0]);
    assert(frame_of(message)[3] == le_bytes(len, 3)[0]);
    assert(frame_of(message)[4] == le_bytes(len, 3)[1]);
    assert(frame_of(message)[5] == le_bytes(len, 3)[2]);
    assert forall|i: int| 0 <= i < message.payload.len() implies frame_of(message)[6 + i]
        == #[trigger] message.payload[i] by {
        assert(frame_of(message).skip(HEADER_SIZE as int)[i] == message.payload[i]);
    }
}

/// A body fits into a frame exactly where three bytes can say its length.
pub proof fn lemma_largest_body(payload: Seq<u8>)
    ensures
        payload.len() <= MAX_PAYLOAD <==> payload.len() < 256 * 256 * 256,
{
}

/// What was put into a frame is what is taken out of it, whatever the message; and of any bytes
/// that are long enough for a header, all that follows it is the body.
pub proof fn lemma_what_is_taken_out(message: EncodedMessageView, bytes: Seq<u8>)
    ensures
        incoming_of(frame_of(message)) == Some((message.message_type, message.payload)),
        incoming_of(bytes) is None <==> bytes.len() < 6,
        incoming_of(bytes) matches Some((message_type, payload)) ==> {
            &&& message_type == bytes[2]
            &&& payload.len() == bytes.len() - 6
            &&& forall|i: int| 0 <= i < payload.len() ==> #[trigger] payload[i] == bytes[6 + i]
        },
{
    lemma_unframe_frame(message);
}

} // verus!
