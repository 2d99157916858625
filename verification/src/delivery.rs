//! How the messages for a downstream are sent: each in its frame, up to the first that fails.
use vstd::prelude::*;

use crate::coinbase::{
    can_hold_extranonce, holds_extranonce, non_segwit_coinbase, to_non_segwit, with_coinbase,
};
use crate::downstream::{
    lemma_response_is_sent, plan_of, Downstream, Outcome, OutcomeView, SendPlan, SendPlanView, SendTo,
};
use crate::error::PoolError;
use crate::frame::{frame, frame_of, lemma_frame_bytes, lemma_unframe_frame, MAX_PAYLOAD};
use crate::message::{
    lemma_encoded_len, lemma_job_body, lemma_job_payload_len, lemma_le_bytes_len,
    lemma_prev_hash_body, number_at, EncodedMessageView, Mining, MiningView, NewExtendedMiningJob,
    NewExtendedMiningJobView, SetNewPrevHash, MAX_BYTES, MAX_MERKLE_PATH,
    MESSAGE_TYPE_NEW_EXTENDED_MINING_JOB, MESSAGE_TYPE_OPEN_MINING_CHANNEL_ERROR,
};

verus! {

/// The number of bytes that the extranonce takes in the coinbase of a job.
pub const EXTRANONCE_LEN: u8 = 32;

/// The fields of a message fit their places, the coinbase of an extended job leaves room for the
/// extranonce, and neither an extended job nor a refusal goes by as any other message.
pub open spec fn sendable(message: MiningView) -> bool {
    &&& message.encodable()
    &&& match message {
        MiningView::NewExtendedMiningJob(job) => holds_extranonce(
            job.coinbase_tx_prefix,
            job.coinbase_tx_suffix,
            EXTRANONCE_LEN as nat,
        ),
        MiningView::Other(encoded) => {
            &&& encoded.message_type != MESSAGE_TYPE_NEW_EXTENDED_MINING_JOB
            &&& encoded.message_type != MESSAGE_TYPE_OPEN_MINING_CHANNEL_ERROR
        },
        _ => true,
    }
}

/// The message as it goes out: an extended job without the segwit data of its coinbase, any other
/// message as it is. There is none where the coinbase of a job cannot be read.
pub open spec fn outgoing(message: MiningView) -> Option<MiningView> {
    match message {
        MiningView::NewExtendedMiningJob(job) => match non_segwit_coinbase(
            job.coinbase_tx_prefix,
            job.coinbase_tx_suffix,
            EXTRANONCE_LEN as nat,
        ) {
            Some(parts) => Some(MiningView::NewExtendedMiningJob(with_coinbase(job, parts))),
            None => None,
        },
        _ => Some(message),
    }
}

/// The message fits into a frame.
pub open spec fn fits_frame(message: MiningView) -> bool {
    message.encoded().payload.len() <= MAX_PAYLOAD
}

/// Puts a message into a frame, as it is.
pub fn frame_message(message: Mining) -> (result: Result<Vec<u8>, PoolError>)
    requires
        message@.encodable(),
    ensures
        match result {
            Ok(bytes) => fits_frame(message@) && bytes@ == frame_of(message@.encoded()),
            Err(error) => !fits_frame(message@) && error == PoolError::BadPayloadSize,
        },
{
    proof {
        lemma_encoded_len(message@);
    }
    frame(message.encode())
}

/// Puts an extended job into a frame, once it is known whether it could be had without segwit data.
/// Where it could not, the error is that one.
pub fn frame_job(job: Result<NewExtendedMiningJob, roles_logic_sv2::errors::Error>) -> (result:
    Result<Vec<u8>, PoolError>)
    requires
        job matches Ok(job) ==> job@.encodable(),
    ensures
        match (result, job) {
            (Ok(bytes), Ok(job)) => {
                &&& fits_frame(MiningView::NewExtendedMiningJob(job@))
                &&& bytes@ == frame_of(MiningView::NewExtendedMiningJob(job@).encoded())
            },
            (Err(PoolError::RolesLogic(error)), Err(cause)) => error == cause,
            _ => false,
        },
{
    match job {
        Ok(job) => {
            proof {
                lemma_job_payload_len(job@);
            }
            frame_message(Mining::NewExtendedMiningJob(job))
        },
        Err(error) => Err(PoolError::RolesLogic(error)),
    }
}

/// Whether a message can be sent at all.
pub fn can_send(message: &Mining) -> (sends: bool)
    ensures
        sends == sendable(message@),
{
    match message {
        Mining::NewExtendedMiningJob(job) => {
            job.merkle_path.len() <= MAX_MERKLE_PATH && job.coinbase_tx_prefix.len() <= MAX_BYTES
                && job.coinbase_tx_suffix.len() <= MAX_BYTES && can_hold_extranonce(
                &job.coinbase_tx_prefix,
                &job.coinbase_tx_suffix,
                EXTRANONCE_LEN,
            )
        },
        Mining::SetNewPrevHash(_) => true,
        Mining::OpenMiningChannelError(payload) => payload.len() <= u32::MAX as usize,
        Mining::Other(message) => {
            message.payload.len() <= u32::MAX as usize && message.message_type
                != MESSAGE_TYPE_NEW_EXTENDED_MINING_JOB && message.message_type
                != MESSAGE_TYPE_OPEN_MINING_CHANNEL_ERROR
        },
    }
}

impl Downstream {
    /// The frame in which a message goes to the downstream. An extended job goes without the
    /// segwit data of its coinbase.
    pub fn send(message: Mining) -> (result: Result<Vec<u8>, PoolError>)
        requires
            sendable(message@),
        ensures
            match (result, outgoing(message@)) {
                (Ok(bytes), Some(sent)) => {
                    fits_frame(sent) && bytes@ == frame_of(sent.encoded())
                },
                (Err(PoolError::BadPayloadSize), Some(sent)) => !fits_frame(sent),
                (Err(PoolError::RolesLogic(_)), None) => true,
                _ => false,
            },
            result matches Ok(bytes) ==> match message {
                Mining::NewExtendedMiningJob(job) => {
                    &&& non_segwit_coinbase(
                        job.coinbase_tx_prefix@,
                        job.coinbase_tx_suffix@,
                        32,
                    ) matches Some((prefix, suffix))
                    &&& bytes@ == frame_of(
                        EncodedMessageView {
                            message_type: 0x1f,
                            channel_bit: true,
                            payload: NewExtendedMiningJobView {
                                channel_id: job.channel_id,
                                job_id: job.job_id,
                                min_ntime: job.min_ntime,
                                version: job.version,
                                version_rolling_allowed: job.version_rolling_allowed,
                                merkle_path: job.merkle_path@,
                                coinbase_tx_prefix: prefix,
                                coinbase_tx_suffix: suffix,
                            }.payload(),
                        },
                    )
                },
                Mining::SetNewPrevHash(told) => bytes@ == frame_of(
                    EncodedMessageView {
                        message_type: 0x20,
                        channel_bit: true,
                        payload: told.payload(),
                    },
                ),
                Mining::OpenMiningChannelError(body) => bytes@ == frame_of(
                    EncodedMessageView { message_type: 0x12, channel_bit: false, payload: body@ },
                ),
                Mining::Other(encoded) => bytes@ == frame_of(
                    EncodedMessageView {
                        message_type: encoded.message_type,
                        channel_bit: encoded.channel_bit,
                        payload: encoded.payload@,
                    },
                ),
            },
            result matches Err(PoolError::RolesLogic(_)) ==> match message {
                Mining::NewExtendedMiningJob(job) => non_segwit_coinbase(
                    job.coinbase_tx_prefix@,
                    job.coinbase_tx_suffix@,
                    32,
                ) is None,
                _ => false,
            },
            result matches Err(PoolError::BadPayloadSize) ==> match message {
                Mining::OpenMiningChannelError(body) => body@.len() > 0xff_ffff,
                Mining::Other(encoded) => encoded.payload@.len() > 0xff_ffff,
                _ => false,
            },
    {
        proof {
            if let Some(MiningView::NewExtendedMiningJob(sent)) = outgoing(message@) {
                lemma_job_payload_len(sent);
            }
            if let Mining::SetNewPrevHash(told) = message {
                lemma_prev_hash_body(told);
            }
        }
        match message {
            Mining::NewExtendedMiningJob(job) => frame_job(to_non_segwit(job, EXTRANONCE_LEN)),
            message => frame_message(message),
        }
    }

    /// As [`Downstream::send`]; none for a message that cannot be sent at all.
    pub fn try_send(message: Mining) -> (result: Option<Result<Vec<u8>, PoolError>>)
        ensures
            match result {
                Some(result) => sendable(message@) && match (result, outgoing(message@)) {
                    (Ok(bytes), Some(sent)) => {
                        fits_frame(sent) && bytes@ == frame_of(sent.encoded())
                    },
                    (Err(PoolError::BadPayloadSize), Some(sent)) => !fits_frame(sent),
                    (Err(PoolError::RolesLogic(_)), None) => true,
                    _ => false,
                },
                None => !sendable(message@),
            },
            result matches Some(Ok(bytes)) ==> match message {
                Mining::NewExtendedMiningJob(job) => {
                    &&& non_segwit_coinbase(
                        job.coinbase_tx_prefix@,
                        job.coinbase_tx_suffix@,
                        32,
                    ) matches Some((prefix, suffix))
                    &&& bytes@ == frame_of(
                        EncodedMessageView {
                            message_type: 0x1f,
                            channel_bit: true,
                            payload: NewExtendedMiningJobView {
                                channel_id: job.channel_id,
                                job_id: job.job_id,
                                min_ntime: job.min_ntime,
                                version: job.version,
                                version_rolling_allowed: job.version_rolling_allowed,
                                merkle_path: job.merkle_path@,
                                coinbase_tx_prefix: prefix,
                                coinbase_tx_suffix: suffix,
                            }.payload(),
                        },
                    )
                },
                Mining::SetNewPrevHash(told) => bytes@ == frame_of(
                    EncodedMessageView {
                        message_type: 0x20,
                        channel_bit: true,
                        payload: told.payload(),
                    },
                ),
                Mining::OpenMiningChannelError(body) => bytes@ == frame_of(
                    EncodedMessageView { message_type: 0x12, channel_bit: false, payload: body@ },
                ),
                Mining::Other(encoded) => bytes@ == frame_of(
                    EncodedMessageView {
                        message_type: encoded.message_type,
                        channel_bit: encoded.channel_bit,
                        payload: encoded.payload@,
                    },
                ),
            },
            result matches Some(Err(PoolError::RolesLogic(_))) ==> match message {
                Mining::NewExtendedMiningJob(job) => non_segwit_coinbase(
                    job.coinbase_tx_prefix@,
                    job.coinbase_tx_suffix@,
                    32,
                ) is None,
                _ => false,
            },
            result matches Some(Err(PoolError::BadPayloadSize)) ==> match message {
                Mining::OpenMiningChannelError(body) => body@.len() > 0xff_ffff,
                Mining::Other(encoded) => encoded.payload@.len() > 0xff_ffff,
                _ => false,
            },
            message is SetNewPrevHash ==> result matches Some(Ok(_)),
            message matches Mining::OpenMiningChannelError(body) && body@.len() <= 0xff_ffff
                ==> result matches Some(Ok(_)),
    {
        proof {
            if let Mining::SetNewPrevHash(told) = message {
                lemma_prev_hash_body(told);
            }
        }
        if can_send(&message) {
            Some(Downstream::send(message))
        } else {
            None
        }
    }
}

/// What is left to send to a downstream.
#[derive(Debug)]
pub struct Delivery {
    pub plan: SendPlan,
}

/// What comes next in a delivery.
#[derive(Debug)]
pub enum DeliveryStep {
    /// A frame is sent; the rest follows once it is known whether that went well.
    Send(Vec<u8>, Delivery),
    /// The delivery is over.
    Finish(Result<(), PoolError>),
    /// The delivery cannot go on: what is wanted is not for a pool to do.
    Unhandled,
}

/// How a delivery ends.
pub enum DeliveryEnd {
    /// All messages are sent.
    Done,
    /// All messages are sent, the last of them the refusal of the downstream.
    Refused(u32, MiningView),
    /// A frame could not be sent.
    SendFailed,
    /// The coinbase of a job cannot be read.
    BadCoinbase,
    /// A message does not fit into a frame.
    TooLarge,
    /// What is wanted is not for a pool to do.
    Unhandled,
}

/// How a delivery ends after its last message.
pub open spec fn end_of(outcome: OutcomeView) -> DeliveryEnd {
    match outcome {
        OutcomeView::Done => DeliveryEnd::Done,
        OutcomeView::ProtocolError(id, message) => DeliveryEnd::Refused(id, message),
        OutcomeView::Unhandled => DeliveryEnd::Unhandled,
    }
}

/// The frame of the next message to send, or how the delivery ends instead.
pub open spec fn upcoming(plan: SendPlanView) -> Result<Seq<u8>, DeliveryEnd> {
    if plan.messages.len() == 0 {
        Err(end_of(plan.outcome))
    } else if !sendable(plan.messages[0]) {
        Err(DeliveryEnd::Unhandled)
    } else {
        match outgoing(plan.messages[0]) {
            Some(message) => if fits_frame(message) {
                Ok(frame_of(message.encoded()))
            } else {
                Err(DeliveryEnd::TooLarge)
            },
            None => Err(DeliveryEnd::BadCoinbase),
        }
    }
}

/// What is left of a plan once its first message is sent.
pub open spec fn rest_of(plan: SendPlanView) -> SendPlanView {
    SendPlanView { messages: plan.messages.skip(1), ..plan }
}

/// The step says that the delivery ends so.
pub open spec fn ends_with(step: DeliveryStep, end: DeliveryEnd) -> bool {
    match (step, end) {
        (DeliveryStep::Finish(Ok(_)), DeliveryEnd::Done) => true,
        (
            DeliveryStep::Finish(Err(PoolError::Sv2ProtocolError(id, message))),
            DeliveryEnd::Refused(refused, refusal),
        ) => id == refused && message@ == refusal,
        (
            DeliveryStep::Finish(Err(PoolError::RolesLogic(_))),
            DeliveryEnd::BadCoinbase,
        ) => true,
        (
            DeliveryStep::Finish(Err(PoolError::BadPayloadSize)),
            DeliveryEnd::TooLarge,
        ) => true,
        (DeliveryStep::Unhandled, DeliveryEnd::Unhandled) => true,
        _ => false,
    }
}

impl Delivery {
    /// The delivery of all that a plan holds.
    pub fn new(plan: SendPlan) -> (delivery: Delivery)
        ensures
            delivery.plan == plan,
    {
        Delivery { plan }
    }

    /// What comes next, after the send before it, if there was one, went as told.
    pub fn step(self, sent: Result<(), PoolError>) -> (step: DeliveryStep)
        ensures
            match sent {
                Err(error) => step == DeliveryStep::Finish(Err(error)),
                Ok(_) => match upcoming(self.plan@) {
                    Ok(bytes) => {
                        &&& step matches DeliveryStep::Send(frame, rest)
                        &&& frame@ == bytes
                        &&& rest.plan@ == rest_of(self.plan@)
                    },
                    Err(end) => ends_with(step, end),
                },
            },
            sent is Ok && self.plan.messages@.len() == 0 ==> match self.plan.outcome {
                Outcome::Done => step == DeliveryStep::Finish(Ok(())),
                Outcome::ProtocolError(id, message) => step == DeliveryStep::Finish(
                    Err(PoolError::Sv2ProtocolError(id, message)),
                ),
                Outcome::Unhandled => step == DeliveryStep::Unhandled,
            },
            sent is Ok && self.plan.messages@.len() > 0 ==> match step {
                DeliveryStep::Send(bytes, rest) => {
                    let message = self.plan.messages@[0];
                    &&& rest.plan.messages@ == self.plan.messages@.skip(1)
                    &&& rest.plan.outcome == self.plan.outcome
                    &&& match message {
                        Mining::NewExtendedMiningJob(job) => {
                            &&& non_segwit_coinbase(
                                job.coinbase_tx_prefix@,
                                job.coinbase_tx_suffix@,
                                32,
                            ) matches Some((prefix, suffix))
                            &&& bytes@ == frame_of(
                                EncodedMessageView {
                                    message_type: 0x1f,
                                    channel_bit: true,
                                    payload: NewExtendedMiningJobView {
                                        channel_id: job.channel_id,
                                        job_id: job.job_id,
                                        min_ntime: job.min_ntime,
                                        version: job.version,
                                        version_rolling_allowed: job.version_rolling_allowed,
                                        merkle_path: job.merkle_path@,
                                        coinbase_tx_prefix: prefix,
                                        coinbase_tx_suffix: suffix,
                                    }.payload(),
                                },
                            )
                        },
                        Mining::SetNewPrevHash(told) => bytes@ == frame_of(
                            EncodedMessageView {
                                message_type: 0x20,
                                channel_bit: true,
                                payload: told.payload(),
                            },
                        ),
                        Mining::OpenMiningChannelError(body) => bytes@ == frame_of(
                            EncodedMessageView { message_type: 0x12, channel_bit: false, payload: body@ },
                        ),
                        Mining::Other(encoded) => bytes@ == frame_of(
                            EncodedMessageView {
                                message_type: encoded.message_type,
                                channel_bit: encoded.channel_bit,
                                payload: encoded.payload@,
                            },
                        ),
                    }
                },
                DeliveryStep::Finish(Err(PoolError::BadPayloadSize)) => {
                    let message = self.plan.messages@[0];
                    match message {
                        Mining::OpenMiningChannelError(body) => body@.len() > 0xff_ffff,
                        Mining::Other(encoded) => encoded.payload@.len() > 0xff_ffff,
                        _ => false,
                    }
                },
                DeliveryStep::Finish(Err(PoolError::RolesLogic(_))) => {
                    let message = self.plan.messages@[0];
                    match message {
                        Mining::NewExtendedMiningJob(job) => non_segwit_coinbase(
                            job.coinbase_tx_prefix@,
                            job.coinbase_tx_suffix@,
                            32,
                        ) is None,
                        _ => false,
                    }
                },
                DeliveryStep::Finish(_) => false,
                DeliveryStep::Unhandled => !sendable(self.plan.messages@[0]@),
            },
    {
        match sent {
            Err(error) => DeliveryStep::Finish(Err(error)),
            Ok(_) => {
                let mut plan = self.plan;
                if plan.messages.len() == 0 {
                    match plan.outcome {
                        Outcome::Done => DeliveryStep::Finish(Ok(())),
                        Outcome::ProtocolError(id, message) => DeliveryStep::Finish(
                            Err(PoolError::Sv2ProtocolError(id, message)),
                        ),
                        Outcome::Unhandled => DeliveryStep::Unhandled,
                    }
                } else {
                    let message: Mining = plan.messages.remove(0);
                    assert(message@ == self.plan@.messages[0]);
                    assert(plan@.messages =~= self.plan@.messages.skip(1));
                    match Downstream::try_send(message) {
                        Some(Ok(bytes)) => DeliveryStep::Send(bytes, Delivery { plan }),
                        Some(Err(error)) => DeliveryStep::Finish(Err(error)),
                        None => DeliveryStep::Unhandled,
                    }
                }
            },
        }
    }
}

/// The frames that are handed to the sender, and how the delivery ends, where `fates` tells of
/// each send whether it goes well. It has no end yet where the last fate is not told.
pub open spec fn deliver(plan: SendPlanView, fates: Seq<bool>) -> (
    Seq<Seq<u8>>,
    Option<DeliveryEnd>,
)
    decreases plan.messages.len(),
{
    match upcoming(plan) {
        Err(end) => (Seq::empty(), Some(end)),
        Ok(bytes) => if plan.messages.len() == 0 || fates.len() == 0 {
            (seq![bytes], None)
        } else if !fates[0] {
            (seq![bytes], Some(DeliveryEnd::SendFailed))
        } else {
            let (frames, end) = deliver(rest_of(plan), fates.skip(1));
            (seq![bytes] + frames, end)
        },
    }
}

/// The message can be sent, and this is its frame.
pub open spec fn has_frame(message: MiningView, bytes: Seq<u8>) -> bool {
    &&& sendable(message)
    &&& outgoing(message) matches Some(sent) && fits_frame(sent) && bytes == frame_of(
        sent.encoded(),
    )
}

/// Where each message has its frame and each send goes well, the frames are sent in the order of
/// the messages, and the delivery ends as planned.
pub proof fn lemma_deliver_all(plan: SendPlanView, frames: Seq<Seq<u8>>, fates: Seq<bool>)
    requires
        frames.len() == plan.messages.len(),
        fates.len() == frames.len(),
        forall|i: int| 0 <= i < frames.len() ==> has_frame(plan.messages[i], #[trigger] frames[i]),
        forall|i: int| 0 <= i < fates.len() ==> #[trigger] fates[i],
    ensures
        deliver(plan, fates) == (frames, Some(end_of(plan.outcome))),
    decreases frames.len(),
{
    if frames.len() > 0 {
        assert(has_frame(plan.messages[0], frames[0]));
        assert(fates[0]);
        assert forall|i: int| 0 <= i < frames.skip(1).len() implies has_frame(
            rest_of(plan).messages[i],
            #[trigger] frames.skip(1)[i],
        ) by {
            assert(has_frame(plan.messages[i + 1], frames[i + 1]));
        }
        assert forall|i: int| 0 <= i < fates.skip(1).len() implies #[trigger] fates.skip(1)[i] by {
            assert(fates[i + 1]);
        }
        lemma_deliver_all(rest_of(plan), frames.skip(1), fates.skip(1));
        assert(seq![frames[0]] + frames.skip(1) =~= frames);
    } else {
        assert(frames =~= Seq::empty());
    }
}

/// A send that fails is the last: nothing after it is sent, and the delivery fails.
pub proof fn lemma_failed_send_is_last(
    plan: SendPlanView,
    frames: Seq<Seq<u8>>,
    fates: Seq<bool>,
    failed: int,
)
    requires
        frames.len() == plan.messages.len(),
        forall|i: int| 0 <= i < frames.len() ==> has_frame(plan.messages[i], #[trigger] frames[i]),
        0 <= failed < frames.len(),
        failed < fates.len(),
        !fates[failed],
        forall|i: int| 0 <= i < failed ==> #[trigger] fates[i],
    ensures
        deliver(plan, fates) == (frames.take(failed + 1), Some(DeliveryEnd::SendFailed)),
    decreases failed,
{
    assert(has_frame(plan.messages[0], frames[0]));
    if failed > 0 {
        assert(fates[0]);
        assert forall|i: int| 0 <= i < frames.skip(1).len() implies has_frame(
            rest_of(plan).messages[i],
            #[trigger] frames.skip(1)[i],
        ) by {
            assert(has_frame(plan.messages[i + 1], frames[i + 1]));
        }
        assert forall|i: int| 0 <= i < failed - 1 implies #[trigger] fates.skip(1)[i] by {
            assert(fates[i + 1]);
        }
        lemma_failed_send_is_last(rest_of(plan), frames.skip(1), fates.skip(1), failed - 1);
        assert(seq![frames[0]] + frames.skip(1).take(failed) =~= frames.take(failed + 1));
    } else {
        assert(frames.take(1) =~= seq![frames[0]]);
    }
}

/// A message that is no extended job goes out as it is.
pub proof fn lemma_only_extended_jobs_change(message: MiningView)
    ensures
        message !is NewExtendedMiningJob ==> outgoing(message) == Some(message),
        outgoing(message) matches Some(sent) ==> match (message, sent) {
            (
                MiningView::NewExtendedMiningJob(job),
                MiningView::NewExtendedMiningJob(stripped),
            ) => stripped == with_coinbase(
                job,
                (stripped.coinbase_tx_prefix, stripped.coinbase_tx_suffix),
            ),
            _ => sent == message,
        },
{
}

/// The announcement of a prev hash can always be sent, in a frame of 54 bytes.
pub proof fn lemma_prev_hash_has_frame(message: SetNewPrevHash)
    ensures
        has_frame(
            MiningView::SetNewPrevHash(message),
            frame_of(MiningView::SetNewPrevHash(message).encoded()),
        ),
        frame_of(MiningView::SetNewPrevHash(message).encoded()).len() == 54,
{
    lemma_le_bytes_len(message.channel_id as nat, 4);
    lemma_le_bytes_len(message.job_id as nat, 4);
    lemma_le_bytes_len(message.min_ntime as nat, 4);
    lemma_le_bytes_len(message.nbits as nat, 4);
    lemma_unframe_frame(MiningView::SetNewPrevHash(message).encoded());
}

/// The announcement of a prev hash comes to one frame, with which the delivery ends well where
/// that frame is sent, and fails where it is not.
pub proof fn lemma_prev_hash_delivery(id: u32, message: Mining, announced: SetNewPrevHash)
    requires
        message@ == MiningView::SetNewPrevHash(announced),
    ensures
        ({
            let plan = plan_of(id, SendTo::Respond(message));
            let frames = seq![frame_of(message@.encoded())];
            &&& deliver(plan, seq![true]) == (frames, Some(DeliveryEnd::Done))
            &&& deliver(plan, seq![false]) == (frames, Some(DeliveryEnd::SendFailed))
        }),
{
    let plan = plan_of(id, SendTo::Respond(message));
    let frames = seq![frame_of(message@.encoded())];
    lemma_prev_hash_has_frame(announced);
    lemma_deliver_all(plan, frames, seq![true]);
    lemma_failed_send_is_last(plan, frames, seq![false], 0);
    assert(frames.take(1) =~= frames);
}

/// What can be sent at all: an announcement always, a refusal and any other message up to the
/// length that 32 bits can say, but no extended job or refusal as any other message, and an
/// extended job whose lists are within their limits and whose coinbase leaves room for 32 bytes.
pub proof fn lemma_what_can_be_sent(message: MiningView)
    ensures
        sendable(message) <==> match message {
            MiningView::NewExtendedMiningJob(job) => {
                &&& job.merkle_path.len() <= 255
                &&& job.coinbase_tx_prefix.len() <= 65535
                &&& job.coinbase_tx_suffix.len() <= 65535
                &&& holds_extranonce(job.coinbase_tx_prefix, job.coinbase_tx_suffix, 32)
            },
            MiningView::SetNewPrevHash(_) => true,
            MiningView::OpenMiningChannelError(payload) => payload.len() < 0x1_0000_0000,
            MiningView::Other(encoded) => {
                &&& encoded.payload.len() < 0x1_0000_0000
                &&& encoded.message_type != 0x1f
                &&& encoded.message_type != 0x12
            },
        },
{
}

/// What goes out: an extended job with the coinbase that it has without segwit data, around an
/// extranonce of 32 bytes, and with every other field as it is; nothing where there is no such
/// coinbase; and any other message as it is.
pub proof fn lemma_what_goes_out(message: MiningView)
    ensures
        match message {
            MiningView::NewExtendedMiningJob(job) => match non_segwit_coinbase(
                job.coinbase_tx_prefix,
                job.coinbase_tx_suffix,
                32,
            ) {
                Some((prefix, suffix)) => {
                    &&& outgoing(message) matches Some(MiningView::NewExtendedMiningJob(sent))
                    &&& sent.channel_id == job.channel_id
                    &&& sent.job_id == job.job_id
                    &&& sent.min_ntime == job.min_ntime
                    &&& sent.version == job.version
                    &&& sent.version_rolling_allowed == job.version_rolling_allowed
                    &&& sent.merkle_path == job.merkle_path
                    &&& sent.coinbase_tx_prefix == prefix
                    &&& sent.coinbase_tx_suffix == suffix
                },
                None => outgoing(message) is None,
            },
            MiningView::SetNewPrevHash(told) => {
                &&& outgoing(message) matches Some(MiningView::SetNewPrevHash(sent))
                &&& sent == told
            },
            MiningView::OpenMiningChannelError(payload) => {
                &&& outgoing(message) matches Some(MiningView::OpenMiningChannelError(sent))
                &&& sent == payload
            },
            MiningView::Other(encoded) => {
                &&& outgoing(message) matches Some(MiningView::Other(sent))
                &&& sent.message_type == encoded.message_type
                &&& sent.channel_bit == encoded.channel_bit
                &&& sent.payload == encoded.payload
            },
        },
{
}

/// A message has a frame exactly where it can be sent, goes out as something, and the body of that
/// is shorter than three bytes can say; the frame is that of what goes out.
pub proof fn lemma_when_there_is_a_frame(message: MiningView, bytes: Seq<u8>)
    ensures
        has_frame(message, bytes) <==> {
            &&& sendable(message)
            &&& outgoing(message) matches Some(sent)
            &&& sent.encoded().payload.len() < 256 * 256 * 256
            &&& bytes == frame_of(sent.encoded())
        },
{
}

/// From the frame of an extended job each of its fields can be read, at the other end of the
/// connection: the ids, the time, if there is one, the version, whether it may be rolled, the
/// merkle path, and the two parts of the coinbase without segwit data.
pub proof fn lemma_job_on_the_wire(job: NewExtendedMiningJobView, bytes: Seq<u8>)
    requires
        has_frame(MiningView::NewExtendedMiningJob(job), bytes),
        non_segwit_coinbase(job.coinbase_tx_prefix, job.coinbase_tx_suffix, 32) matches Some(parts)
            ==> parts.0.len() <= 65535 && parts.1.len() <= 65535,
    ensures
        ({
            let at: int = if job.min_ntime is Some {
                19
            } else {
                15
            };
            let hashes = at + 6;
            &&& bytes[1] == 128
            &&& bytes[2] == 0x1f
            &&& number_at(bytes, 6) == job.channel_id
            &&& number_at(bytes, 10) == job.job_id
            &&& match job.min_ntime {
                Some(time) => bytes[14] == 1 && number_at(bytes, 15) == time,
                None => bytes[14] == 0,
            }
            &&& number_at(bytes, at) == job.version
            &&& bytes[at + 4] == 1 <==> job.version_rolling_allowed
            &&& bytes[at + 5] == job.merkle_path.len()
            &&& forall|i: int, k: int|
                0 <= i < job.merkle_path.len() && 0 <= k < 32 ==> bytes[hashes + 32 * i + k]
                    == #[trigger] job.merkle_path[i]@[k]
            &&& non_segwit_coinbase(
                job.coinbase_tx_prefix,
                job.coinbase_tx_suffix,
                32,
            ) matches Some((prefix, suffix))
            &&& bytes.len() == hashes + 32 * job.merkle_path.len() + 4 + prefix.len()
                + suffix.len()
            &&& bytes.subrange(
                hashes + 32 * job.merkle_path.len() + 2,
                hashes + 32 * job.merkle_path.len() + 2 + prefix.len(),
            ) == prefix
            &&& bytes.subrange(bytes.len() - suffix.len(), bytes.len() as int) == suffix
        }),
{
    let message = MiningView::NewExtendedMiningJob(job);
    lemma_what_can_be_sent(message);
    lemma_what_goes_out(message);
    lemma_when_there_is_a_frame(message, bytes);
    if let Some(MiningView::NewExtendedMiningJob(sent)) = outgoing(message) {
        lemma_job_body(sent);
        lemma_frame_bytes(MiningView::NewExtendedMiningJob(sent).encoded());
        lemma_read_from_frame(bytes, sent.payload(), sent);
    }
}

proof fn lemma_read_from_frame(bytes: Seq<u8>, body: Seq<u8>, job: NewExtendedMiningJobView)
    requires
        bytes.len() == 6 + body.len(),
        forall|i: int| 0 <= i < body.len() ==> bytes[6 + i] == #[trigger] body[i],
        ({
            let at: int = if job.min_ntime is Some {
                13
            } else {
                9
            };
            let prefix = at + 6 + 32 * job.merkle_path.len();
            let suffix = prefix + 2 + job.coinbase_tx_prefix.len();
            &&& body.len() == suffix + 2 + job.coinbase_tx_suffix.len()
            &&& number_at(body, 0) == job.channel_id
            &&& number_at(body, 4) == job.job_id
            &&& match job.min_ntime {
                Some(time) => body[8] == 1 && number_at(body, 9) == time,
                None => body[8] == 0,
            }
            &&& number_at(body, at) == job.version
            &&& body[at + 4] == 1 <==> job.version_rolling_allowed
            &&& body[at + 5] == job.merkle_path.len()
            &&& forall|i: int, k: int|
                0 <= i < job.merkle_path.len() && 0 <= k < 32 ==> body[at + 6 + 32 * i + k]
                    == #[trigger] job.merkle_path[i]@[k]
            &&& body.subrange(prefix + 2, suffix) == job.coinbase_tx_prefix
            &&& body.subrange(suffix + 2, body.len() as int) == job.coinbase_tx_suffix
        }),
    ensures
        ({
            let at: int = if job.min_ntime is Some {
                19
            } else {
                15
            };
            let hashes = at + 6;
            let prefix = hashes + 32 * job.merkle_path.len();
            &&& number_at(bytes, 6) == job.channel_id
            &&& number_at(bytes, 10) == job.job_id
            &&& match job.min_ntime {
                Some(time) => bytes[14] == 1 && number_at(bytes, 15) == time,
                None => bytes[14] == 0,
            }
            &&& number_at(bytes, at) == job.version
            &&& bytes[at + 4] == 1 <==> job.version_rolling_allowed
            &&& bytes[at + 5] == job.merkle_path.len()
            &&& forall|i: int, k: int|
                0 <= i < job.merkle_path.len() && 0 <= k < 32 ==> bytes[hashes + 32 * i + k]
                    == #[trigger] job.merkle_path[i]@[k]
            &&& bytes.len() == prefix + 4 + job.coinbase_tx_prefix.len()
                + job.coinbase_tx_suffix.len()
            &&& bytes.subrange(prefix + 2, prefix + 2 + job.coinbase_tx_prefix.len())
                == job.coinbase_tx_prefix
            &&& bytes.subrange(bytes.len() - job.coinbase_tx_suffix.len(), bytes.len() as int)
                == job.coinbase_tx_suffix
        }),
{
    let at: int = if job.min_ntime is Some {
        13
    } else {
        9
    };
    let prefix = at + 6 + 32 * job.merkle_path.len();
    let suffix = prefix + 2 + job.coinbase_tx_prefix.len();
    lemma_number_in_frame(bytes, body, 0);
    lemma_number_in_frame(bytes, body, 4);
    if job.min_ntime is Some {
        lemma_number_in_frame(bytes, body, 9);
    }
    lemma_number_in_frame(bytes, body, at);
    assert(bytes[14] == body[8]) by {
        let place: int = 8;
        assert(bytes[6 + place] == body[place]);
    }
    assert(bytes[6 + (at + 4)] == body[at + 4]);
    assert(bytes[6 + (at + 5)] == body[at + 5]);
    assert forall|i: int, k: int|
        0 <= i < job.merkle_path.len() && 0 <= k < 32 implies bytes[at + 12 + 32 * i + k]
        == #[trigger] job.merkle_path[i]@[k] by {
        let place = at + 6 + 32 * i + k;
        assert(body[place] == job.merkle_path[i]@[k]);
        assert(bytes[6 + place] == body[place]);
    }
    assert(bytes.subrange(prefix + 8, suffix + 6) =~= body.subrange(prefix + 2, suffix)) by {
        assert forall|i: int| 0 <= i < suffix - prefix - 2 implies bytes.subrange(
            prefix + 8,
            suffix + 6,
        )[i] == #[trigger] body.subrange(prefix + 2, suffix)[i] by {
            assert(bytes[6 + (prefix + 2 + i)] == body[prefix + 2 + i]);
        }
    }
    assert(bytes.subrange(suffix + 8, bytes.len() as int) =~= body.subrange(
        suffix + 2,
        body.len() as int,
    )) by {
        assert forall|i: int| 0 <= i < body.len() - suffix - 2 implies bytes.subrange(
            suffix + 8,
            bytes.len() as int,
        )[i] == #[trigger] body.subrange(suffix + 2, body.len() as int)[i] by {
            assert(bytes[6 + (suffix + 2 + i)] == body[suffix + 2 + i]);
        }
    }
}

proof fn lemma_number_in_frame(bytes: Seq<u8>, body: Seq<u8>, at: int)
    requires
        0 <= at,
        at + 4 <= body.len(),
        forall|i: int| 0 <= i < body.len() ==> bytes[6 + i] == #[trigger] body[i],
    ensures
        number_at(bytes, 6 + at) == number_at(body, at),
{
    assert(bytes[6 + at] == body[at]);
    assert(bytes[6 + (at + 1)] == body[at + 1]);
    assert(bytes[6 + (at + 2)] == body[at + 2]);
    assert(bytes[6 + (at + 3)] == body[at + 3]);
}

/// From the frame of the announcement of a prev hash each of its fields can be read, at the other
/// end of the connection.
pub proof fn lemma_prev_hash_on_the_wire(message: SetNewPrevHash, bytes: Seq<u8>)
    requires
        has_frame(MiningView::SetNewPrevHash(message), bytes),
    ensures
        bytes.len() == 54,
        bytes[1] == 128,
        bytes[2] == 0x20,
        number_at(bytes, 6) == message.channel_id,
        number_at(bytes, 10) == message.job_id,
        bytes.subrange(14, 46) == message.prev_hash@,
        number_at(bytes, 46) == message.min_ntime,
        number_at(bytes, 50) == message.nbits,
{
    lemma_what_goes_out(MiningView::SetNewPrevHash(message));
    lemma_when_there_is_a_frame(MiningView::SetNewPrevHash(message), bytes);
    let encoded = MiningView::SetNewPrevHash(message).encoded();
    let body = message.payload();
    lemma_prev_hash_body(message);
    lemma_frame_bytes(encoded);
    assert(forall|i: int| 0 <= i < body.len() ==> bytes[6 + i] == #[trigger] body[i]);
    lemma_number_in_frame(bytes, body, 0);
    lemma_number_in_frame(bytes, body, 4);
    lemma_number_in_frame(bytes, body, 40);
    lemma_number_in_frame(bytes, body, 44);
    assert(bytes.subrange(14, 46) =~= body.subrange(8, 40));
}

/// What comes next in a delivery: the end that was planned where nothing is left; else the frame
/// of the first message, or the end that the message forces; and what is left is all but the
/// first message.
pub proof fn lemma_what_comes_next(plan: SendPlanView)
    ensures
        plan.messages.len() == 0 ==> match plan.outcome {
            OutcomeView::Done => upcoming(plan) matches Err(DeliveryEnd::Done),
            OutcomeView::ProtocolError(id, message) => {
                &&& upcoming(plan) matches Err(DeliveryEnd::Refused(refused, refusal))
                &&& refused == id
                &&& refusal == message
            },
            OutcomeView::Unhandled => upcoming(plan) matches Err(DeliveryEnd::Unhandled),
        },
        plan.messages.len() > 0 ==> match upcoming(plan) {
            Ok(bytes) => has_frame(plan.messages[0], bytes),
            Err(DeliveryEnd::Unhandled) => !sendable(plan.messages[0]),
            Err(DeliveryEnd::BadCoinbase) => sendable(plan.messages[0]) && outgoing(
                plan.messages[0],
            ) is None,
            Err(DeliveryEnd::TooLarge) => {
                &&& sendable(plan.messages[0])
                &&& outgoing(plan.messages[0]) matches Some(sent)
                &&& sent.encoded().payload.len() >= 256 * 256 * 256
            },
            Err(_) => false,
        },
        rest_of(plan).outcome == plan.outcome,
        plan.messages.len() > 0 ==> {
            &&& rest_of(plan).messages.len() == plan.messages.len() - 1
            &&& forall|i: int|
                0 <= i < plan.messages.len() - 1 ==> #[trigger] rest_of(plan).messages[i]
                    == plan.messages[i + 1]
        },
{
}

/// An answer with a message that has a frame is delivered in exactly that frame, of whatever kind
/// the message is; and where the frame is sent, the delivery ends well, unless the message refuses
/// to open a channel.
pub proof fn lemma_response_is_delivered(id: u32, message: Mining, bytes: Seq<u8>)
    requires
        has_frame(message@, bytes),
    ensures
        deliver(plan_of(id, SendTo::Respond(message)), seq![true]).0 == seq![bytes],
        deliver(plan_of(id, SendTo::Respond(message)), seq![false]) == (
            seq![bytes],
            Some(DeliveryEnd::SendFailed),
        ),
        match message {
            Mining::OpenMiningChannelError(_) => deliver(
                plan_of(id, SendTo::Respond(message)),
                seq![true],
            ).1 == Some(DeliveryEnd::Refused(id, message@)),
            _ => deliver(plan_of(id, SendTo::Respond(message)), seq![true]).1 == Some(
                DeliveryEnd::Done,
            ),
        },
{
    let plan = plan_of(id, SendTo::Respond(message));
    lemma_response_is_sent(id, message);
    lemma_deliver_all(plan, seq![bytes], seq![true]);
    lemma_failed_send_is_last(plan, seq![bytes], seq![false], 0);
    assert(seq![bytes].take(1) =~= seq![bytes]);
}

/// How a delivery that is over says so: well, with the refusal of the downstream, with the error
/// for a coinbase that cannot be read or for a message that is too large, or as one that cannot go
/// on. No step but these ends a delivery so, and a frame that is sent ends none.
pub proof fn lemma_how_a_delivery_ends(step: DeliveryStep, end: DeliveryEnd)
    requires
        ends_with(step, end),
    ensures
        match end {
            DeliveryEnd::Done => step matches DeliveryStep::Finish(Ok(_)),
            DeliveryEnd::Refused(id, refusal) => {
                &&& step matches DeliveryStep::Finish(Err(PoolError::Sv2ProtocolError(
                    refused,
                    message,
                )))
                &&& refused == id
                &&& message@ == refusal
            },
            DeliveryEnd::BadCoinbase => step matches DeliveryStep::Finish(
                Err(PoolError::RolesLogic(_)),
            ),
            DeliveryEnd::TooLarge => step matches DeliveryStep::Finish(
                Err(PoolError::BadPayloadSize),
            ),
            DeliveryEnd::Unhandled => step is Unhandled,
            DeliveryEnd::SendFailed => false,
        },
{
}

} // verus!
