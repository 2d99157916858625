use std::convert::TryInto;

use framing_sv2::framing2::{Frame, Sv2Frame};
use mining_pool::delivery::frame_message;
use mining_pool::downstream::{CommonDownstreamData, Downstream};
use mining_pool::error::PoolError;
use mining_pool::frame::{frame, unframe, EitherFrame, MAX_PAYLOAD};
use mining_pool::message::{EncodedMessage, Mining, NewExtendedMiningJob, SetNewPrevHash};
use roles_logic_sv2::mining_sv2;
use roles_logic_sv2::parsers::{self, PoolMessages};

fn downstream(id: u32) -> Downstream {
    Downstream {
        id,
        downstream_data: CommonDownstreamData {
            header_only: false,
            work_selection: false,
            version_rolling: true,
        },
    }
}

fn outside_frame(message: parsers::Mining<'static>) -> Vec<u8> {
    let frame: Sv2Frame<PoolMessages<'static>, Vec<u8>> =
        PoolMessages::Mining(message).try_into().unwrap();
    let mut bytes = vec![0; frame.encoded_length()];
    frame.serialize(&mut bytes).unwrap();
    bytes
}

fn prev_hash() -> SetNewPrevHash {
    let mut hash = [7; 32];
    hash[0] = 1;
    hash[31] = 2;
    SetNewPrevHash {
        channel_id: 0x01020304,
        job_id: 5,
        prev_hash: hash,
        min_ntime: 0xa0b0c0d0,
        nbits: 0x1d00ffff,
    }
}

fn job() -> NewExtendedMiningJob {
    NewExtendedMiningJob {
        channel_id: 9,
        job_id: 300,
        min_ntime: Some(1234567890),
        version: 0x20000000,
        version_rolling_allowed: true,
        merkle_path: vec![[3; 32], [4; 32]],
        coinbase_tx_prefix: vec![1, 2, 3],
        coinbase_tx_suffix: vec![4; 300],
    }
}

#[test]
fn frame_has_header_and_body() {
    let message = EncodedMessage { message_type: 0x1c, channel_bit: true, payload: vec![8, 9] };
    assert_eq!(frame(message).unwrap(), vec![0, 0x80, 0x1c, 2, 0, 0, 8, 9]);
    let message = EncodedMessage { message_type: 0x12, channel_bit: false, payload: vec![5; 258] };
    let bytes = frame(message).unwrap();
    assert_eq!(bytes[..6], [0, 0, 0x12, 2, 1, 0]);
    assert_eq!(bytes[6..], [5; 258]);
}

#[test]
fn frame_round_trip() {
    let message = EncodedMessage { message_type: 0x99, channel_bit: true, payload: vec![1, 2, 3] };
    let incoming = unframe(frame(message).unwrap()).unwrap();
    assert_eq!(incoming.message_type, 0x99);
    assert_eq!(incoming.payload, vec![1, 2, 3]);
}

#[test]
fn frames_differ_with_the_channel_bit() {
    let left = EncodedMessage { message_type: 1, channel_bit: true, payload: vec![] };
    let right = EncodedMessage { message_type: 1, channel_bit: false, payload: vec![] };
    assert_ne!(frame(left).unwrap(), frame(right).unwrap());
}

#[test]
fn largest_body_fits_and_the_next_does_not() {
    let payload = vec![0; MAX_PAYLOAD];
    let message = EncodedMessage { message_type: 1, channel_bit: false, payload };
    let bytes = frame(message).unwrap();
    assert_eq!(bytes.len(), MAX_PAYLOAD + 6);
    assert_eq!(bytes[3..6], [0xff, 0xff, 0xff]);
    let payload = vec![0; MAX_PAYLOAD + 1];
    let message = EncodedMessage { message_type: 1, channel_bit: false, payload };
    assert!(matches!(frame(message), Err(PoolError::BadPayloadSize)));
}

#[test]
fn set_new_prev_hash_frame_is_that_of_the_protocol() {
    let message = prev_hash();
    let expected = outside_frame(parsers::Mining::SetNewPrevHash(mining_sv2::SetNewPrevHash {
        channel_id: message.channel_id,
        job_id: message.job_id,
        prev_hash: message.prev_hash.into(),
        min_ntime: message.min_ntime,
        nbits: message.nbits,
    }));
    let bytes = Downstream::try_send(Mining::SetNewPrevHash(message)).unwrap().unwrap();
    assert_eq!(bytes, expected);
    assert_eq!(bytes[..14], [0, 0x80, 0x20, 48, 0, 0, 4, 3, 2, 1, 5, 0, 0, 0]);
    assert_eq!(bytes[14..16], [1, 7]);
    assert_eq!(bytes[45..], [2, 0xd0, 0xc0, 0xb0, 0xa0, 0xff, 0xff, 0, 0x1d]);
}

#[test]
fn extended_job_frame_is_that_of_the_protocol() {
    let message = job();
    let expected =
        outside_frame(parsers::Mining::NewExtendedMiningJob(mining_sv2::NewExtendedMiningJob {
            channel_id: message.channel_id,
            job_id: message.job_id,
            min_ntime: binary_sv2::Sv2Option::new(message.min_ntime),
            version: message.version,
            version_rolling_allowed: message.version_rolling_allowed,
            merkle_path: vec![
                binary_sv2::U256::from([3; 32]),
                binary_sv2::U256::from([4; 32]),
            ]
            .into(),
            coinbase_tx_prefix: message.coinbase_tx_prefix.clone().try_into().unwrap(),
            coinbase_tx_suffix: message.coinbase_tx_suffix.clone().try_into().unwrap(),
        }));
    let bytes = frame_message(Mining::NewExtendedMiningJob(message)).unwrap();
    assert_eq!(bytes, expected);
    assert_eq!(bytes[2], 0x1f);
    assert_eq!(bytes[6..10], [9, 0, 0, 0]);
    assert_eq!(bytes[14..19], [1, 0xd2, 0x02, 0x96, 0x49]);
    assert_eq!(bytes[23..26], [1, 2, 3]);
}

#[test]
fn future_job_has_no_time() {
    let mut message = job();
    message.min_ntime = None;
    message.version_rolling_allowed = false;
    message.merkle_path = vec![];
    let bytes = frame_message(Mining::NewExtendedMiningJob(message)).unwrap();
    assert_eq!(bytes[14..22], [0, 0, 0, 0, 0x20, 0, 0, 3]);
}

#[test]
fn refusal_goes_out_with_its_body() {
    let payload = vec![1, 0, 0, 0, 3, b'b', b'a', b'd'];
    let expected = outside_frame(parsers::Mining::OpenMiningChannelError(
        mining_sv2::OpenMiningChannelError {
            request_id: 1,
            error_code: b"bad".to_vec().try_into().unwrap(),
        },
    ));
    let bytes = Downstream::try_send(Mining::OpenMiningChannelError(payload)).unwrap().unwrap();
    assert_eq!(bytes, expected);
}

#[test]
fn other_message_goes_out_as_it_is() {
    let message = EncodedMessage { message_type: 0x15, channel_bit: true, payload: vec![1, 2, 3] };
    let bytes = Downstream::try_send(Mining::Other(message)).unwrap().unwrap();
    assert_eq!(bytes, vec![0, 0x80, 0x15, 3, 0, 0, 1, 2, 3]);
}

#[test]
fn too_large_message_is_refused() {
    let payload = vec![0; MAX_PAYLOAD + 1];
    let result = Downstream::try_send(Mining::OpenMiningChannelError(payload)).unwrap();
    assert!(matches!(result, Err(PoolError::BadPayloadSize)));
}

#[test]
fn next_reads_type_and_body() {
    let message = downstream(1).next(vec![0, 0x80, 0x1b, 1, 0, 0, 42, 43]).unwrap();
    assert_eq!(message.message_type, 0x1b);
    assert_eq!(message.payload, vec![42, 43]);
    let message = downstream(1).next(vec![0, 0, 0x10, 0, 0, 0]).unwrap();
    assert_eq!(message.message_type, 0x10);
    assert!(message.payload.is_empty());
}

#[test]
fn next_needs_a_header() {
    match downstream(1).next(vec![0, 0, 1, 0, 0]) {
        Err(PoolError::Custom(text)) => assert_eq!(text, "No header set"),
        _ => panic!(),
    }
}

#[test]
fn handshake_frame_is_refused() {
    assert_eq!(EitherFrame::Sv2(vec![1, 2]).into_sv2().unwrap(), vec![1, 2]);
    assert!(matches!(
        EitherFrame::HandShake(vec![1, 2]).into_sv2(),
        Err(PoolError::ExpectedSv2Frame)
    ));
}

#[test]
fn duplicate_is_the_same_message() {
    let original = job();
    let copy = original.duplicate();
    assert_eq!(copy.channel_id, original.channel_id);
    assert_eq!(copy.merkle_path, original.merkle_path);
    assert_eq!(copy.coinbase_tx_suffix, original.coinbase_tx_suffix);
    let message = Mining::NewExtendedMiningJob(original);
    let copy = message.duplicate();
    assert_eq!(frame_message(message).unwrap(), frame_message(copy).unwrap());
    match Mining::Other(EncodedMessage { message_type: 3, channel_bit: true, payload: vec![6] })
        .duplicate()
    {
        Mining::Other(message) => {
            assert_eq!(message.message_type, 3);
            assert!(message.channel_bit);
            assert_eq!(message.payload, vec![6]);
        }
        _ => panic!(),
    }
}
