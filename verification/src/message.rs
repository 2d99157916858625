//! The mining messages that the pool sends, and their encoded bodies.
use binary_sv2::{Sv2Option, U256};
use roles_logic_sv2::mining_sv2;
use vstd::prelude::*;

verus! {

/// Message type of `OpenMiningChannelError`.
pub const MESSAGE_TYPE_OPEN_MINING_CHANNEL_ERROR: u8 = 0x12;

/// Message type of `NewExtendedMiningJob`.
pub const MESSAGE_TYPE_NEW_EXTENDED_MINING_JOB: u8 = 0x1f;

/// Message type of the mining protocol's `SetNewPrevHash`.
pub const MESSAGE_TYPE_MINING_SET_NEW_PREV_HASH: u8 = 0x20;

/// The longest byte string that a field of an extended job holds.
pub const MAX_BYTES: usize = 65535;

/// The longest merkle path: its length is written in one byte.
pub const MAX_MERKLE_PATH: usize = 255;

/// The `count` lowest bytes of `value`, the lowest first.
pub open spec fn le_bytes(value: nat, count: nat) -> Seq<u8>
    decreases count,
{
    if count == 0 {
        Seq::empty()
    } else {
        seq![(value % 256) as u8] + le_bytes(value / 256, (count - 1) as nat)
    }
}

/// An optional time as it is written: whether there is one, and the time.
pub open spec fn optional_time_bytes(time: Option<u32>) -> Seq<u8> {
    match time {
        Some(time) => seq![1u8] + le_bytes(time as nat, 4),
        None => seq![0u8],
    }
}

/// A merkle path as it is written: how many hashes there are, and the hashes.
pub open spec fn merkle_path_bytes(path: Seq<[u8; 32]>) -> Seq<u8> {
    seq![path.len() as u8] + path.map_values(|hash: [u8; 32]| hash@).flatten()
}

/// A mining job for an extended channel.
#[derive(Debug)]
pub struct NewExtendedMiningJob {
    pub channel_id: u32,
    pub job_id: u32,
    /// The smallest time that may be hashed with; none for a job that waits for its prev hash.
    pub min_ntime: Option<u32>,
    pub version: u32,
    pub version_rolling_allowed: bool,
    pub merkle_path: Vec<[u8; 32]>,
    pub coinbase_tx_prefix: Vec<u8>,
    pub coinbase_tx_suffix: Vec<u8>,
}

/// The content of a [`NewExtendedMiningJob`].
#[verifier::ext_equal]
pub struct NewExtendedMiningJobView {
    pub channel_id: u32,
    pub job_id: u32,
    pub min_ntime: Option<u32>,
    pub version: u32,
    pub version_rolling_allowed: bool,
    pub merkle_path: Seq<[u8; 32]>,
    pub coinbase_tx_prefix: Seq<u8>,
    pub coinbase_tx_suffix: Seq<u8>,
}

impl View for NewExtendedMiningJob {
    type V = NewExtendedMiningJobView;

    open spec fn view(&self) -> NewExtendedMiningJobView {
        NewExtendedMiningJobView {
            channel_id: self.channel_id,
            job_id: self.job_id,
            min_ntime: self.min_ntime,
            version: self.version,
            version_rolling_allowed: self.version_rolling_allowed,
            merkle_path: self.merkle_path@,
            coinbase_tx_prefix: self.coinbase_tx_prefix@,
            coinbase_tx_suffix: self.coinbase_tx_suffix@,
        }
    }
}

impl NewExtendedMiningJobView {
    /// Each field fits its place in the encoded body.
    pub open spec fn encodable(self) -> bool {
        &&& self.merkle_path.len() <= MAX_MERKLE_PATH
        &&& self.coinbase_tx_prefix.len() <= MAX_BYTES
        &&& self.coinbase_tx_suffix.len() <= MAX_BYTES
    }

    /// The part of the encoded body that comes before the merkle path.
    pub open spec fn head(self) -> Seq<u8> {
        le_bytes(self.channel_id as nat, 4) + le_bytes(self.job_id as nat, 4)
            + optional_time_bytes(self.min_ntime) + le_bytes(self.version as nat, 4) + seq![
            if self.version_rolling_allowed {
                1u8
            } else {
                0u8
            },
        ]
    }

    /// The part of the encoded body that follows the merkle path.
    pub open spec fn tail(self) -> Seq<u8> {
        le_bytes(self.coinbase_tx_prefix.len(), 2) + self.coinbase_tx_prefix + le_bytes(
            self.coinbase_tx_suffix.len(),
            2,
        ) + self.coinbase_tx_suffix
    }

    /// The encoded body of the job.
    pub open spec fn payload(self) -> Seq<u8> {
        self.head() + merkle_path_bytes(self.merkle_path) + self.tail()
    }
}

impl NewExtendedMiningJob {
    /// A second copy of the job.
    pub fn duplicate(&self) -> (copy: NewExtendedMiningJob)
        ensures
            copy@ == self@,
            copy.channel_id == self.channel_id,
            copy.job_id == self.job_id,
            copy.min_ntime == self.min_ntime,
            copy.version == self.version,
            copy.version_rolling_allowed == self.version_rolling_allowed,
            copy.merkle_path@ == self.merkle_path@,
            copy.coinbase_tx_prefix@ == self.coinbase_tx_prefix@,
            copy.coinbase_tx_suffix@ == self.coinbase_tx_suffix@,
    {
        let mut merkle_path: Vec<[u8; 32]> = Vec::new();
        let mut i: usize = 0;
        while i < self.merkle_path.len()
            invariant
                0 <= i <= self.merkle_path@.len(),
                merkle_path@ == self.merkle_path@.take(i as int),
            decreases self.merkle_path@.len() - i,
        {
            merkle_path.push(self.merkle_path[i]);
            i = i + 1;
        }
        assert(merkle_path@ =~= self.merkle_path@);
        let copy = NewExtendedMiningJob {
            channel_id: self.channel_id,
            job_id: self.job_id,
            min_ntime: self.min_ntime,
            version: self.version,
            version_rolling_allowed: self.version_rolling_allowed,
            merkle_path,
            coinbase_tx_prefix: self.coinbase_tx_prefix.clone(),
            coinbase_tx_suffix: self.coinbase_tx_suffix.clone(),
        };
        assert(copy.coinbase_tx_prefix@ =~= self.coinbase_tx_prefix@);
        assert(copy.coinbase_tx_suffix@ =~= self.coinbase_tx_suffix@);
        copy
    }
}

/// The block that a channel is to build on from now on.
#[derive(Clone, Copy, PartialEq, Eq, Debug)]
pub struct SetNewPrevHash {
    pub channel_id: u32,
    pub job_id: u32,
    pub prev_hash: [u8; 32],
    pub min_ntime: u32,
    pub nbits: u32,
}

impl SetNewPrevHash {
    /// The encoded body of the message.
    pub open spec fn payload(self) -> Seq<u8> {
        le_bytes(self.channel_id as nat, 4) + le_bytes(self.job_id as nat, 4) + self.prev_hash@
            + le_bytes(self.min_ntime as nat, 4) + le_bytes(self.nbits as nat, 4)
    }
}

/// `binary_sv2::to_bytes` on an extended mining job: it writes the fields one after the other, a
/// number by its bytes, the lowest first, and in front of an optional value, a list or a byte
/// string how many there are. It succeeds on every job whose fields fit, but counts on a merkle
/// path that is not of the full length: it adds one to that length in eight bits.
#[verifier::external_body]
fn encode_extended_job(job: &NewExtendedMiningJob) -> (payload: Vec<u8>)
    requires
        job@.encodable(),
        job@.merkle_path.len() < MAX_MERKLE_PATH,
    ensures
        payload@ == job@.payload(),
{
    let path: Vec<U256<'static>> = job.merkle_path.iter().map(|hash| (*hash).into()).collect();
    let wire = mining_sv2::NewExtendedMiningJob {
        channel_id: job.channel_id,
        job_id: job.job_id,
        min_ntime: Sv2Option::new(job.min_ntime),
        version: job.version,
        version_rolling_allowed: job.version_rolling_allowed,
        merkle_path: path.into(),
        coinbase_tx_prefix: job.coinbase_tx_prefix.clone().try_into().unwrap(),
        coinbase_tx_suffix: job.coinbase_tx_suffix.clone().try_into().unwrap(),
    };
    binary_sv2::to_bytes(wire).unwrap()
}

/// The encoded body of an extended job. Where the merkle path is of the full length, its last hash
/// is put into the body of the job without it.
fn encode_job(job: NewExtendedMiningJob) -> (payload: Vec<u8>)
    requires
        job@.encodable(),
    ensures
        payload@ == job@.payload(),
{
    if job.merkle_path.len() < MAX_MERKLE_PATH {
        return encode_extended_job(&job);
    }
    let ghost whole = job@;
    let last: [u8; 32] = job.merkle_path[MAX_MERKLE_PATH - 1];
    let head_len: usize = match job.min_ntime {
        Some(_) => 18,
        None => 14,
    };
    let mut job = job;
    job.merkle_path.pop();
    let mut payload: Vec<u8> = encode_extended_job(&job);
    proof {
        lemma_head_len(whole);
        lemma_merkle_path_len(job@.merkle_path);
        lemma_last_hash(whole.merkle_path);
        assert(whole.merkle_path.drop_last() =~= job@.merkle_path);
        assert(whole.head() == job@.head());
        assert(whole.tail() == job@.tail());
    }
    let ghost short = payload@;
    let mut rest: Vec<u8> = payload.split_off(head_len + 1 + 32 * (MAX_MERKLE_PATH - 1));
    payload.set(head_len, 255);
    payload.extend_from_slice(last.as_slice());
    payload.append(&mut rest);
    proof {
        let hashes = job@.merkle_path.map_values(|hash: [u8; 32]| hash@).flatten();
        assert(hashes.len() == 32 * (MAX_MERKLE_PATH - 1));
        assert(short == whole.head() + (seq![254u8] + hashes) + whole.tail());
        assert(payload@ =~= whole.head() + (seq![255u8] + (hashes + last@)) + whole.tail());
    }
    payload
}

/// `binary_sv2::to_bytes` on a `SetNewPrevHash`: it writes the fields one after the other, a
/// number by its bytes, the lowest first. It never fails, as each field has one fixed size.
#[verifier::external_body]
fn encode_set_new_prev_hash(message: &SetNewPrevHash) -> (payload: Vec<u8>)
    ensures
        payload@ == message.payload(),
{
    binary_sv2::to_bytes(mining_sv2::SetNewPrevHash {
        channel_id: message.channel_id,
        job_id: message.job_id,
        prev_hash: message.prev_hash.into(),
        min_ntime: message.min_ntime,
        nbits: message.nbits,
    }).unwrap()
}

/// A mining message by its type and its encoded body.
#[derive(Debug)]
pub struct EncodedMessage {
    pub message_type: u8,
    /// The message concerns one channel.
    pub channel_bit: bool,
    pub payload: Vec<u8>,
}

/// The content of an [`EncodedMessage`].
#[verifier::ext_equal]
pub struct EncodedMessageView {
    pub message_type: u8,
    pub channel_bit: bool,
    pub payload: Seq<u8>,
}

impl View for EncodedMessage {
    type V = EncodedMessageView;

    open spec fn view(&self) -> EncodedMessageView {
        EncodedMessageView {
            message_type: self.message_type,
            channel_bit: self.channel_bit,
            payload: self.payload@,
        }
    }
}

/// A mining message that goes to a downstream.
#[derive(Debug)]
pub enum Mining {
    NewExtendedMiningJob(NewExtendedMiningJob),
    SetNewPrevHash(SetNewPrevHash),
    /// The refusal to open a channel, by its encoded body.
    OpenMiningChannelError(Vec<u8>),
    /// Any other message.
    Other(EncodedMessage),
}

/// The content of a [`Mining`] message.
pub enum MiningView {
    NewExtendedMiningJob(NewExtendedMiningJobView),
    SetNewPrevHash(SetNewPrevHash),
    OpenMiningChannelError(Seq<u8>),
    Other(EncodedMessageView),
}

impl View for Mining {
    type V = MiningView;

    open spec fn view(&self) -> MiningView {
        match *self {
            Mining::NewExtendedMiningJob(job) => MiningView::NewExtendedMiningJob(job@),
            Mining::SetNewPrevHash(message) => MiningView::SetNewPrevHash(message),
            Mining::OpenMiningChannelError(payload) => {
                MiningView::OpenMiningChannelError(payload@)
            },
            Mining::Other(message) => MiningView::Other(message@),
        }
    }
}

impl MiningView {
    /// Each field fits its place in the encoded body, whose length fits 32 bits.
    pub open spec fn encodable(self) -> bool {
        match self {
            MiningView::NewExtendedMiningJob(job) => job.encodable(),
            MiningView::SetNewPrevHash(_) => true,
            MiningView::OpenMiningChannelError(payload) => payload.len() <= u32::MAX,
            MiningView::Other(message) => message.payload.len() <= u32::MAX,
        }
    }

    /// The message by its type and its encoded body.
    pub open spec fn encoded(self) -> EncodedMessageView {
        match self {
            MiningView::NewExtendedMiningJob(job) => EncodedMessageView {
                message_type: MESSAGE_TYPE_NEW_EXTENDED_MINING_JOB,
                channel_bit: true,
                payload: job.payload(),
            },
            MiningView::SetNewPrevHash(message) => EncodedMessageView {
                message_type: MESSAGE_TYPE_MINING_SET_NEW_PREV_HASH,
                channel_bit: true,
                payload: message.payload(),
            },
            MiningView::OpenMiningChannelError(payload) => EncodedMessageView {
                message_type: MESSAGE_TYPE_OPEN_MINING_CHANNEL_ERROR,
                channel_bit: false,
                payload,
            },
            MiningView::Other(message) => message,
        }
    }
}

impl Mining {
    /// A second copy of the message.
    pub fn duplicate(&self) -> (copy: Mining)
        ensures
            copy@ == self@,
            match (*self, copy) {
                (Mining::NewExtendedMiningJob(job), Mining::NewExtendedMiningJob(other)) => {
                    other@ == job@
                },
                (Mining::SetNewPrevHash(message), Mining::SetNewPrevHash(other)) => {
                    other == message
                },
                (Mining::OpenMiningChannelError(body), Mining::OpenMiningChannelError(other)) => {
                    other@ == body@
                },
                (Mining::Other(message), Mining::Other(other)) => {
                    &&& other.message_type == message.message_type
                    &&& other.channel_bit == message.channel_bit
                    &&& other.payload@ == message.payload@
                },
                _ => false,
            },
    {
        match self {
            Mining::NewExtendedMiningJob(job) => Mining::NewExtendedMiningJob(job.duplicate()),
            Mining::SetNewPrevHash(message) => Mining::SetNewPrevHash(*message),
            Mining::OpenMiningChannelError(payload) => {
                let copy: Vec<u8> = payload.clone();
                assert(copy@ =~= payload@);
                Mining::OpenMiningChannelError(copy)
            },
            Mining::Other(message) => {
                let copy: Vec<u8> = message.payload.clone();
                assert(copy@ =~= message.payload@);
                Mining::Other(
                    EncodedMessage {
                        message_type: message.message_type,
                        channel_bit: message.channel_bit,
                        payload: copy,
                    },
                )
            },
        }
    }

    /// The message by its type and its encoded body.
    pub fn encode(self) -> (encoded: EncodedMessage)
        requires
            self@.encodable(),
        ensures
            encoded@ == self@.encoded(),
            match self {
                Mining::NewExtendedMiningJob(job) => {
                    &&& encoded.message_type == 0x1f
                    &&& encoded.channel_bit
                    &&& encoded.payload@ == job@.payload()
                },
                Mining::SetNewPrevHash(message) => {
                    &&& encoded.message_type == 0x20
                    &&& encoded.channel_bit
                    &&& encoded.payload@ == message.payload()
                },
                Mining::OpenMiningChannelError(payload) => {
                    &&& encoded.message_type == 0x12
                    &&& !encoded.channel_bit
                    &&& encoded.payload == payload
                },
                Mining::Other(message) => encoded == message,
            },
    {
        match self {
            Mining::NewExtendedMiningJob(job) => EncodedMessage {
                message_type: MESSAGE_TYPE_NEW_EXTENDED_MINING_JOB,
                channel_bit: true,
                payload: encode_job(job),
            },
            Mining::SetNewPrevHash(message) => EncodedMessage {
                message_type: MESSAGE_TYPE_MINING_SET_NEW_PREV_HASH,
                channel_bit: true,
                payload: encode_set_new_prev_hash(&message),
            },
            Mining::OpenMiningChannelError(payload) => EncodedMessage {
                message_type: MESSAGE_TYPE_OPEN_MINING_CHANNEL_ERROR,
                channel_bit: false,
                payload,
            },
            Mining::Other(message) => message,
        }
    }
}

/// The number of bytes of [`le_bytes`].
pub proof fn lemma_le_bytes_len(value: nat, count: nat)
    ensures
        le_bytes(value, count).len() == count,
    decreases count,
{
    if count > 0 {
        lemma_le_bytes_len(value / 256, (count - 1) as nat);
    }
}

proof fn lemma_head_len(job: NewExtendedMiningJobView)
    ensures
        job.head().len() == if job.min_ntime is Some {
            18nat
        } else {
            14nat
        },
{
    lemma_le_bytes_len(job.channel_id as nat, 4);
    lemma_le_bytes_len(job.job_id as nat, 4);
    if let Some(time) = job.min_ntime {
        lemma_le_bytes_len(time as nat, 4);
    }
    lemma_le_bytes_len(job.version as nat, 4);
}

proof fn lemma_last_hash(path: Seq<[u8; 32]>)
    requires
        path.len() > 0,
    ensures
        path.map_values(|hash: [u8; 32]| hash@).flatten() == path.drop_last().map_values(
            |hash: [u8; 32]| hash@,
        ).flatten() + path.last()@,
{
    let hashes = path.map_values(|hash: [u8; 32]| hash@);
    let others = path.drop_last().map_values(|hash: [u8; 32]| hash@);
    hashes.lemma_flatten_and_flatten_alt_are_equivalent();
    others.lemma_flatten_and_flatten_alt_are_equivalent();
    assert(hashes.drop_last() =~= others);
}

proof fn lemma_merkle_path_len(path: Seq<[u8; 32]>)
    ensures
        path.map_values(|hash: [u8; 32]| hash@).flatten().len() == 32 * path.len(),
    decreases path.len(),
{
    if path.len() > 0 {
        lemma_last_hash(path);
        lemma_merkle_path_len(path.drop_last());
    }
}

/// The length of the encoded body of an extended job.
pub proof fn lemma_job_payload_len(job: NewExtendedMiningJobView)
    ensures
        job.payload().len() == job.head().len() + 1 + 32 * job.merkle_path.len() + 2
            + job.coinbase_tx_prefix.len() + 2 + job.coinbase_tx_suffix.len(),
        job.head().len() <= 18,
{
    lemma_head_len(job);
    lemma_merkle_path_len(job.merkle_path);
    lemma_le_bytes_len(job.coinbase_tx_prefix.len(), 2);
    lemma_le_bytes_len(job.coinbase_tx_suffix.len(), 2);
}

/// The encoded body of a message whose fields fit is no longer than 32 bits can say.
pub proof fn lemma_encoded_len(message: MiningView)
    requires
        message.encodable(),
    ensures
        message.encoded().payload.len() <= u32::MAX,
{
    match message {
        MiningView::NewExtendedMiningJob(job) => {
            lemma_job_payload_len(job);
        },
        MiningView::SetNewPrevHash(hash) => {
            lemma_le_bytes_len(hash.channel_id as nat, 4);
            lemma_le_bytes_len(hash.job_id as nat, 4);
            lemma_le_bytes_len(hash.min_ntime as nat, 4);
            lemma_le_bytes_len(hash.nbits as nat, 4);
        },
        _ => {},
    }
}

/// The number in four bytes of a body, the lowest first.
pub open spec fn number_at(bytes: Seq<u8>, at: int) -> int {
    bytes[at] + 0x100 * bytes[at + 1] + 0x1_0000 * bytes[at + 2] + 0x100_0000 * bytes[at + 3]
}

/// A number is read back from the bytes that it is written in.
pub proof fn lemma_number_in_bytes(value: nat)
    ensures
        value < 0x1_0000 ==> le_bytes(value, 2)[0] + 0x100 * le_bytes(value, 2)[1] == value,
        value < 0x100_0000 ==> le_bytes(value, 3)[0] + 0x100 * le_bytes(value, 3)[1] + 0x1_0000
            * le_bytes(value, 3)[2] == value,
        value < 0x1_0000_0000 ==> le_bytes(value, 4)[0] + 0x100 * le_bytes(value, 4)[1] + 0x1_0000
            * le_bytes(value, 4)[2] + 0x100_0000 * le_bytes(value, 4)[3] == value,
{
    lemma_le_bytes_parts(value, 4);
    lemma_le_bytes_parts(value / 256, 3);
    lemma_le_bytes_parts(value / 256 / 256, 2);
    lemma_le_bytes_parts(value / 256 / 256 / 256, 1);
    lemma_le_bytes_parts(value, 3);
    lemma_le_bytes_parts(value / 256, 2);
    lemma_le_bytes_parts(value / 256 / 256, 1);
    lemma_le_bytes_parts(value, 2);
    lemma_le_bytes_parts(value / 256, 1);
}

proof fn lemma_le_bytes_parts(value: nat, count: nat)
    requires
        count > 0,
    ensures
        le_bytes(value, count).len() == count,
        le_bytes(value, count)[0] == value % 256,
        forall|i: int|
            0 < i < count ==> #[trigger] le_bytes(value, count)[i] == le_bytes(
                value / 256,
                (count - 1) as nat,
            )[i - 1],
{
    lemma_le_bytes_len(value, count);
    lemma_le_bytes_len(value / 256, (count - 1) as nat);
}

/// A number that stands in a body in four bytes is read from there.
pub proof fn lemma_number_at(bytes: Seq<u8>, at: int, value: u32)
    requires
        0 <= at,
        at + 4 <= bytes.len(),
        bytes.subrange(at, at + 4) == le_bytes(value as nat, 4),
    ensures
        number_at(bytes, at) == value,
{
    lemma_number_in_bytes(value as nat);
    let four = bytes.subrange(at, at + 4);
    assert(four[0] == bytes[at] && four[1] == bytes[at + 1] && four[2] == bytes[at + 2] && four[3]
        == bytes[at + 3]);
}

/// The body of the announcement of a prev hash has 48 bytes, from which each of its fields can be
/// read: the ids, the hash, the time and the bits, in this order.
pub proof fn lemma_prev_hash_body(message: SetNewPrevHash)
    ensures
        message.payload().len() == 48,
        number_at(message.payload(), 0) == message.channel_id,
        number_at(message.payload(), 4) == message.job_id,
        message.payload().subrange(8, 40) == message.prev_hash@,
        number_at(message.payload(), 40) == message.min_ntime,
        number_at(message.payload(), 44) == message.nbits,
{
    lemma_le_bytes_len(message.channel_id as nat, 4);
    lemma_le_bytes_len(message.job_id as nat, 4);
    lemma_le_bytes_len(message.min_ntime as nat, 4);
    lemma_le_bytes_len(message.nbits as nat, 4);
    let body = message.payload();
    assert(body.subrange(0, 4) =~= le_bytes(message.channel_id as nat, 4));
    assert(body.subrange(4, 8) =~= le_bytes(message.job_id as nat, 4));
    assert(body.subrange(8, 40) =~= message.prev_hash@);
    assert(body.subrange(40, 44) =~= le_bytes(message.min_ntime as nat, 4));
    assert(body.subrange(44, 48) =~= le_bytes(message.nbits as nat, 4));
    lemma_number_at(body, 0, message.channel_id);
    lemma_number_at(body, 4, message.job_id);
    lemma_number_at(body, 40, message.min_ntime);
    lemma_number_at(body, 44, message.nbits);
}

/// Each field of an extended job can be read from its body: the ids, the time, if there is one,
/// the version, whether it may be rolled, the merkle path after its length, and the two parts of
/// the coinbase, each after its length.
pub proof fn lemma_job_body(job: NewExtendedMiningJobView)
    requires
        job.merkle_path.len() <= 255,
        job.coinbase_tx_prefix.len() <= 65535,
        job.coinbase_tx_suffix.len() <= 65535,
    ensures
        ({
            let body = job.payload();
            let at: int = if job.min_ntime is Some {
                13
            } else {
                9
            };
            let prefix = at + 6 + 32 * job.merkle_path.len();
            let suffix = prefix + 2 + job.coinbase_tx_prefix.len();
            &&& body.len() == suffix + 2 + job.coinbase_tx_suffix.len()
            &&& number_at(body, 0) == job.channel_id
            &&& number_at(body, 4) == job.job_id
            &&& match job.min_ntime {
                Some(time) => body[8] == 1 && number_at(body, 9) == time,
                None => body[8] == 0,
            }
            &&& number_at(body, at) == job.version
            &&& body[at + 4] == 1 || body[at + 4] == 0
            &&& body[at + 4] == 1 <==> job.version_rolling_allowed
            &&& body[at + 5] == job.merkle_path.len()
            &&& forall|i: int, k: int|
                0 <= i < job.merkle_path.len() && 0 <= k < 32 ==> body[at + 6 + 32 * i + k]
                    == #[trigger] job.merkle_path[i]@[k]
            &&& body[prefix] + 0x100 * body[prefix + 1] == job.coinbase_tx_prefix.len()
            &&& body.subrange(prefix + 2, suffix) == job.coinbase_tx_prefix
            &&& body[suffix] + 0x100 * body[suffix + 1] == job.coinbase_tx_suffix.len()
            &&& body.subrange(suffix + 2, body.len() as int) == job.coinbase_tx_suffix
        }),
{
    let body = job.payload();
    let at: int = if job.min_ntime is Some {
        13
    } else {
        9
    };
    let hashes = job.merkle_path.map_values(|hash: [u8; 32]| hash@).flatten();
    let prefix = at + 6 + 32 * job.merkle_path.len();
    let suffix = prefix + 2 + job.coinbase_tx_prefix.len();
    lemma_head_len(job);
    lemma_merkle_path_len(job.merkle_path);
    lemma_le_bytes_len(job.channel_id as nat, 4);
    lemma_le_bytes_len(job.job_id as nat, 4);
    lemma_le_bytes_len(job.version as nat, 4);
    lemma_le_bytes_len(job.coinbase_tx_prefix.len(), 2);
    lemma_le_bytes_len(job.coinbase_tx_suffix.len(), 2);
    lemma_number_in_bytes(job.coinbase_tx_prefix.len());
    lemma_number_in_bytes(job.coinbase_tx_suffix.len());
    assert(body.subrange(0, 4) =~= le_bytes(job.channel_id as nat, 4));
    lemma_number_at(body, 0, job.channel_id);
    assert(body.subrange(4, 8) =~= le_bytes(job.job_id as nat, 4));
    lemma_number_at(body, 4, job.job_id);
    if let Some(time) = job.min_ntime {
        lemma_le_bytes_len(time as nat, 4);
        assert(body.subrange(9, 13) =~= le_bytes(time as nat, 4));
        lemma_number_at(body, 9, time);
    }
    assert(body.subrange(at, at + 4) =~= le_bytes(job.version as nat, 4));
    lemma_number_at(body, at, job.version);
    assert(body.subrange(at + 6, prefix) =~= hashes);
    assert forall|i: int, k: int|
        0 <= i < job.merkle_path.len() && 0 <= k < 32 implies body[at + 6 + 32 * i + k]
        == #[trigger] job.merkle_path[i]@[k] by {
        lemma_hash_in_path(job.merkle_path, i, k);
        assert(hashes[32 * i + k] == body.subrange(at + 6, prefix)[32 * i + k]);
    }
    assert(body.subrange(prefix, prefix + 2) =~= le_bytes(job.coinbase_tx_prefix.len(), 2));
    assert(body.subrange(prefix, prefix + 2)[0] == body[prefix]);
    assert(body.subrange(prefix, prefix + 2)[1] == body[prefix + 1]);
    assert(body.subrange(prefix + 2, suffix) =~= job.coinbase_tx_prefix);
    assert(body.subrange(suffix, suffix + 2) =~= le_bytes(job.coinbase_tx_suffix.len(), 2));
    assert(body.subrange(suffix, suffix + 2)[0] == body[suffix]);
    assert(body.subrange(suffix, suffix + 2)[1] == body[suffix + 1]);
    assert(body.subrange(suffix + 2, body.len() as int) =~= job.coinbase_tx_suffix);
}

proof fn lemma_hash_in_path(path: Seq<[u8; 32]>, i: int, k: int)
    requires
        0 <= i < path.len(),
        0 <= k < 32,
    ensures
        path.map_values(|hash: [u8; 32]| hash@).flatten().len() == 32 * path.len(),
        path.map_values(|hash: [u8; 32]| hash@).flatten()[32 * i + k] == path[i]@[k],
    decreases path.len(),
{
    lemma_merkle_path_len(path);
    lemma_last_hash(path);
    lemma_merkle_path_len(path.drop_last());
    if i < path.len() - 1 {
        lemma_hash_in_path(path.drop_last(), i, k);
    }
}

/// The content of a job is that of its fields, each by itself.
pub proof fn lemma_job_content(job: NewExtendedMiningJob)
    ensures
        job@.channel_id == job.channel_id,
        job@.job_id == job.job_id,
        job@.min_ntime == job.min_ntime,
        job@.version == job.version,
        job@.version_rolling_allowed == job.version_rolling_allowed,
        job@.merkle_path == job.merkle_path@,
        job@.coinbase_tx_prefix == job.coinbase_tx_prefix@,
        job@.coinbase_tx_suffix == job.coinbase_tx_suffix@,
{
}

/// The content of a message is of the kind of the message, with the content of what it holds.
pub proof fn lemma_message_content(message: Mining)
    ensures
        match message {
            Mining::NewExtendedMiningJob(job) => {
                message@ matches MiningView::NewExtendedMiningJob(content) && content == job@
            },
            Mining::SetNewPrevHash(told) => {
                message@ matches MiningView::SetNewPrevHash(content) && content == told
            },
            Mining::OpenMiningChannelError(payload) => {
                message@ matches MiningView::OpenMiningChannelError(content) && content
                    == payload@
            },
            Mining::Other(encoded) => {
                &&& message@ matches MiningView::Other(content)
                &&& content.message_type == encoded.message_type
                &&& content.channel_bit == encoded.channel_bit
                &&& content.payload == encoded.payload@
            },
        },
{
}

/// Each kind of message goes under the type and the channel bit of the protocol, with its own
/// body; a message that is already encoded keeps both.
pub proof fn lemma_message_types(message: MiningView)
    ensures
        match message {
            MiningView::NewExtendedMiningJob(job) => {
                &&& message.encoded().message_type == 0x1f
                &&& message.encoded().channel_bit
                &&& message.encoded().payload == job.payload()
            },
            MiningView::SetNewPrevHash(told) => {
                &&& message.encoded().message_type == 0x20
                &&& message.encoded().channel_bit
                &&& message.encoded().payload == told.payload()
            },
            MiningView::OpenMiningChannelError(payload) => {
                &&& message.encoded().message_type == 0x12
                &&& !message.encoded().channel_bit
                &&& message.encoded().payload == payload
            },
            MiningView::Other(encoded) => {
                &&& message.encoded().message_type == encoded.message_type
                &&& message.encoded().channel_bit == encoded.channel_bit
                &&& message.encoded().payload == encoded.payload
            },
        },
{
}

/// A message can be encoded exactly where its lists and byte strings are within the protocol's
/// limits.
pub proof fn lemma_encodable(message: MiningView)
    ensures
        message.encodable() <==> match message {
            MiningView::NewExtendedMiningJob(job) => {
                &&& job.merkle_path.len() <= 255
                &&& job.coinbase_tx_prefix.len() <= 65535
                &&& job.coinbase_tx_suffix.len() <= 65535
            },
            MiningView::SetNewPrevHash(_) => true,
            MiningView::OpenMiningChannelError(payload) => payload.len() < 0x1_0000_0000,
            MiningView::Other(encoded) => encoded.payload.len() < 0x1_0000_0000,
        },
{
}

} // verus!
