//! The channel factory of roles_logic_sv2, which hands out ids and makes jobs of templates.
use std::collections::HashMap;
use std::ops::Range;
use std::sync::Arc;

use binary_sv2::U256;
use nohash_hasher::BuildNoHashHasher;
use roles_logic_sv2::channel_logic::channel_factory::{ExtendedChannelKind, PoolChannelFactory};
use roles_logic_sv2::job_creator::{tx_outputs_to_costum_scripts, JobsCreators};
use roles_logic_sv2::mining_sv2::ExtendedExtranonce;
use roles_logic_sv2::parsers::{IsSv2Message, Mining as WireMessage};
use roles_logic_sv2::template_distribution_sv2;
use roles_logic_sv2::utils::{GroupId, Mutex};
use stratum_common::bitcoin::TxOut;
use vstd::prelude::*;

use crate::coinbase::is_job_coinbase;
use crate::message::{
    le_bytes, lemma_le_bytes_len, lemma_number_at, number_at, optional_time_bytes, EncodedMessage, EncodedMessageView, Mining, MiningView,
    NewExtendedMiningJob, NewExtendedMiningJobView, MAX_BYTES, MAX_MERKLE_PATH,
};
use crate::template::{NewPrevHash, NewTemplate, NewTemplateView};

verus! {

/// Message type of `NewMiningJob`.
pub const MESSAGE_TYPE_NEW_MINING_JOB: u8 = 0x15;

/// The longest extranonce.
pub const MAX_EXTRANONCE: usize = 32;

/// The longest coinbase prefix that a template holds.
pub const MAX_COINBASE_PREFIX: usize = 255;

/// `PoolChannelFactory` of roles_logic_sv2. What it holds is told by [`factory_state`].
#[verifier::external_type_specification]
#[verifier::external_body]
pub struct ExPoolChannelFactory(PoolChannelFactory);

/// What a channel factory serves.
pub enum FactoryKind {
    /// A pool.
    Pool,
    /// A proxy, with the target that is set from above.
    Proxy(Seq<u8>),
    /// A proxy that declares its own jobs, with the target that is set from above.
    ProxyJd(Seq<u8>),
}

/// What a channel factory holds.
pub struct FactoryState {
    /// What it serves.
    pub kind: FactoryKind,
    /// How many group ids and how many channel ids it has handed out; nothing where the generator
    /// of the ids is shared with others or its lock is poisoned.
    pub ids: Option<(nat, nat)>,
    /// The ids of the templates that a new prev hash may refer to, in their order of arrival.
    pub templates: Seq<u64>,
    /// The id of the job that was made last of a template.
    pub jobs: Map<u64, u32>,
    /// How many jobs it has made of templates.
    pub job_count: nat,
    /// How many job ids it has handed out for single channels.
    pub channel_job_count: nat,
    /// The extranonce of each header only channel.
    pub standard: Map<u32, Seq<u8>>,
    /// The extended channels, and the groups of the standard channels that are not header only.
    pub extended: Set<u32>,
    /// A prev hash has arrived.
    pub has_prev_hash: bool,
    /// The job id, the hash, the smallest time and the bits of the last prev hash.
    pub last_prev_hash: Option<(u32, Seq<u8>, u32, u32)>,
    /// The bytes of the target that came with the last prev hash; zero before the first.
    pub last_target: Seq<u8>,
    /// The value and the script of each output that the pool wants in the coinbase.
    pub outputs: Seq<(u64, Seq<u8>)>,
    /// The text that the pool puts into the coinbase.
    pub signature: Seq<char>,
    /// The number of bytes that a job leaves for the extranonce.
    pub extranonce_len: nat,
    /// Where the three parts of its channels' extranonces begin and end.
    pub ranges: ((nat, nat), (nat, nat), (nat, nat)),
    /// How many shares it wants of a channel in a minute.
    pub share_per_min: nat,
}

/// What a channel factory holds.
pub uninterp spec fn factory_state(factory: PoolChannelFactory) -> FactoryState;

/// What the job creator of roles_logic_sv2 makes of a template, of the outputs and the signature
/// of the pool, and of the number of bytes that the extranonce takes: the two parts of the
/// coinbase around the extranonce; nothing where it refuses the template.
pub uninterp spec fn job_coinbase(
    template: NewTemplateView,
    outputs: Seq<(u64, Seq<u8>)>,
    signature: Seq<char>,
    extranonce_len: nat,
) -> Option<(Seq<u8>, Seq<u8>)>;

/// How many outputs `tx_outputs_to_costum_scripts` of roles_logic_sv2 reads from the bytes that a
/// template gives for them.
pub uninterp spec fn template_output_count(outputs: Seq<u8>) -> nat;

/// What `merkle_root_from_path` of roles_logic_sv2 makes of the two parts of a coinbase, of the
/// extranonce between them and of a merkle path.
pub uninterp spec fn merkle_root(
    prefix: Seq<u8>,
    suffix: Seq<u8>,
    extranonce: Seq<u8>,
    path: Seq<[u8; 32]>,
) -> Seq<u8>;

/// `Mining` of roles_logic_sv2, a message of the mining protocol. Nothing is known of what it
/// holds.
#[verifier::external_type_specification]
#[verifier::external_body]
pub struct ExWireMessage<'a>(WireMessage<'a>);

/// `NoHashHasher` of nohash_hasher. Nothing is known of what it holds.
#[verifier::external_type_specification]
#[verifier::external_body]
#[verifier::reject_recursive_types(T)]
pub struct ExNoHashHasher<T>(nohash_hasher::NoHashHasher<T>);

/// `BuildHasherDefault` of std, which makes hashers. Nothing is known of what it holds.
#[verifier::external_type_specification]
#[verifier::external_body]
#[verifier::reject_recursive_types(H)]
pub struct ExBuildHasherDefault<H>(std::hash::BuildHasherDefault<H>);

/// The messages that a channel factory made of a template: one for each channel or group.
pub type JobMessages = HashMap<u32, WireMessage<'static>, BuildNoHashHasher<u32>>;

/// The message for each channel or group.
pub uninterp spec fn job_messages(messages: JobMessages) -> Map<u32, MiningView>;

/// The three parts of an extranonce: the part that is fixed from above, the part that the pool
/// sets for each channel, and the part that the miner searches.
#[derive(Debug)]
pub struct ExtranonceRanges {
    pub range_0: Range<usize>,
    pub range_1: Range<usize>,
    pub range_2: Range<usize>,
}

impl ExtranonceRanges {
    /// Each part begins where the one before it ends, and the whole fits an extranonce.
    pub open spec fn wf(self) -> bool {
        &&& self.range_0.start == 0
        &&& self.range_0.start <= self.range_0.end
        &&& self.range_0.end == self.range_1.start
        &&& self.range_1.start <= self.range_1.end
        &&& self.range_1.end == self.range_2.start
        &&& self.range_2.start <= self.range_2.end
        &&& self.range_2.end <= MAX_EXTRANONCE
    }
}

/// The value and the script of an output of the coinbase.
pub open spec fn output_view(output: (u64, Vec<u8>)) -> (u64, Seq<u8>) {
    (output.0, output.1@)
}

/// What a new channel factory holds.
pub open spec fn new_state(
    ranges: ExtranonceRanges,
    extranonce_len: u8,
    share_per_min: u8,
    outputs: Seq<(u64, Vec<u8>)>,
    signature: Seq<char>,
) -> FactoryState {
    FactoryState {
        kind: FactoryKind::Pool,
        ids: Some((0, 0)),
        templates: Seq::empty(),
        jobs: Map::empty(),
        job_count: 0,
        channel_job_count: 0,
        standard: Map::empty(),
        extended: Set::empty(),
        has_prev_hash: false,
        last_prev_hash: None,
        last_target: Seq::new(32, |i: int| 0u8),
        outputs: outputs.map_values(|output: (u64, Vec<u8>)| output_view(output)),
        signature,
        extranonce_len: extranonce_len as nat,
        ranges: (
            (ranges.range_0.start as nat, ranges.range_0.end as nat),
            (ranges.range_1.start as nat, ranges.range_1.end as nat),
            (ranges.range_2.start as nat, ranges.range_2.end as nat),
        ),
        share_per_min: share_per_min as nat,
    }
}

impl FactoryState {
    /// The id is that of at most one template.
    pub open spec fn unambiguous(self, template_id: u64) -> bool {
        forall|i: int, j: int|
            0 <= i < j < self.templates.len() ==> !(#[trigger] self.templates[i] == template_id
                && #[trigger] self.templates[j] == template_id)
    }

    /// The job that was made of a template; 0, which is no job, where the template is not known.
    pub open spec fn job_of(self, template_id: u64) -> u32 {
        if self.templates.contains(template_id) && self.jobs.dom().contains(template_id) {
            self.jobs[template_id]
        } else {
            0
        }
    }

    /// A prev hash has arrived that refers to a template: the others are dropped.
    pub open spec fn with_prev_hash(self, message: NewPrevHash) -> FactoryState {
        FactoryState {
            templates: if self.templates.contains(message.template_id) {
                seq![message.template_id]
            } else {
                Seq::empty()
            },
            has_prev_hash: true,
            last_prev_hash: Some(
                (
                    self.job_of(message.template_id),
                    message.prev_hash@,
                    message.header_timestamp,
                    message.n_bits,
                ),
            ),
            last_target: message.target@,
            ..self
        }
    }

    /// A template has arrived, and a job id was given to it.
    pub open spec fn with_template(self, template_id: u64) -> FactoryState {
        FactoryState {
            templates: self.templates.push(template_id),
            jobs: self.jobs.insert(template_id, (self.job_count + 1) as u32),
            job_count: self.job_count + 1,
            ..self
        }
    }

    /// Each header only channel has got a job of its own.
    pub open spec fn with_channel_jobs(self) -> FactoryState {
        FactoryState { channel_job_count: self.channel_job_count + self.standard.dom().len(), ..self }
    }

    /// There is an id left: of a channel for a header only downstream, of a group for another.
    pub open spec fn has_id(self, header_only: bool) -> bool {
        self.ids matches Some((groups, channels)) && if header_only {
            channels < u32::MAX
        } else {
            groups < u32::MAX
        }
    }

    /// The next id, of a channel or of a group: each kind is numbered from 1 on.
    pub open spec fn next_id(self, header_only: bool) -> nat
        recommends
            self.has_id(header_only),
    {
        match self.ids {
            Some((groups, channels)) => if header_only {
                channels + 1
            } else {
                groups + 1
            },
            None => 0,
        }
    }

    /// An id has been handed out, of a channel or of a group.
    pub open spec fn with_id(self, header_only: bool) -> FactoryState {
        FactoryState {
            ids: match self.ids {
                Some((groups, channels)) => if header_only {
                    Some((groups, channels + 1))
                } else {
                    Some((groups + 1, channels))
                },
                None => None,
            },
            ..self
        }
    }

    /// Ids have been handed out, one after the other.
    pub open spec fn with_ids(self, header_only: Seq<bool>) -> FactoryState
        decreases header_only.len(),
    {
        if header_only.len() == 0 {
            self
        } else {
            self.with_ids(header_only.drop_last()).with_id(header_only.last())
        }
    }

    /// The coinbase of a template's job has an output, of the pool or of the template.
    pub open spec fn has_output(self, template: NewTemplateView) -> bool {
        self.outputs.len() + template_output_count(template.coinbase_tx_outputs) > 0
    }

    /// A template can be taken, and jobs made of it, with the counters in range and the
    /// extranonces of the length that a job leaves room for.
    pub open spec fn has_room(self) -> bool {
        &&& self.job_count < u32::MAX
        &&& self.channel_job_count + self.standard.dom().len() <= u32::MAX
        &&& forall|id: u32| #[trigger]
            self.standard.dom().contains(id) ==> self.standard[id].len() == self.extranonce_len
    }

    /// The two parts of the coinbase of the job that is made of a template.
    pub open spec fn coinbase(self, template: NewTemplateView) -> Option<(Seq<u8>, Seq<u8>)> {
        job_coinbase(template, self.outputs, self.signature, self.extranonce_len)
    }

    /// The coinbase of a template's job fits it, with and without segwit data, and each merkle
    /// root has 32 bytes.
    pub open spec fn jobs_fit(self, template: NewTemplateView) -> bool {
        &&& self.coinbase(template) matches Some((prefix, suffix))
        &&& is_job_coinbase(prefix, suffix, self.extranonce_len)
        &&& forall|id: u32| #[trigger]
            self.standard.dom().contains(id) ==> merkle_root(
                prefix,
                suffix,
                self.standard[id],
                template.merkle_path,
            ).len() == 32
    }

    /// Jobs are made of a template: it is not refused, and it is for a later block or the block
    /// that it builds on is known.
    pub open spec fn accepts(self, template: NewTemplateView) -> bool {
        &&& self.coinbase(template) is Some
        &&& template.future_template || self.has_prev_hash
    }
}

/// The fields of a template are within their limits.
pub open spec fn template_in_limits(template: NewTemplateView) -> bool {
    &&& template.template_id < u64::MAX
    &&& 2 < template.coinbase_prefix.len() <= MAX_COINBASE_PREFIX
    &&& template.coinbase_tx_outputs.len() <= MAX_BYTES
    &&& template.merkle_path.len() <= MAX_MERKLE_PATH
}

/// The extended job that a template gives for one channel or group.
pub open spec fn extended_job(
    state: FactoryState,
    template: NewTemplateView,
    min_ntime: Option<u32>,
    channel_id: u32,
) -> NewExtendedMiningJobView
    recommends
        state.coinbase(template) is Some,
{
    let (prefix, suffix) = state.coinbase(template)->0;
    NewExtendedMiningJobView {
        channel_id,
        job_id: (state.job_count + 1) as u32,
        min_ntime,
        version: template.version,
        version_rolling_allowed: true,
        merkle_path: template.merkle_path,
        coinbase_tx_prefix: prefix,
        coinbase_tx_suffix: suffix,
    }
}

/// The encoded body of the standard job that a template gives for one header only channel: its
/// merkle root is that of the coinbase with the extranonce of the channel.
pub open spec fn standard_payload(
    state: FactoryState,
    template: NewTemplateView,
    min_ntime: Option<u32>,
    channel_id: u32,
    job_id: u32,
) -> Seq<u8>
    recommends
        state.coinbase(template) is Some,
{
    let (prefix, suffix) = state.coinbase(template)->0;
    le_bytes(channel_id as nat, 4) + le_bytes(job_id as nat, 4) + optional_time_bytes(min_ntime)
        + le_bytes(template.version as nat, 4) + seq![32u8] + merkle_root(
        prefix,
        suffix,
        state.standard[channel_id],
        template.merkle_path,
    )
}

/// The job that a template gives for one channel or group.
pub open spec fn job_for(
    state: FactoryState,
    template: NewTemplateView,
    min_ntime: Option<u32>,
    job_ids: Map<u32, u32>,
    id: u32,
) -> MiningView {
    if state.extended.contains(id) {
        MiningView::NewExtendedMiningJob(extended_job(state, template, min_ntime, id))
    } else {
        MiningView::Other(
            EncodedMessageView {
                message_type: MESSAGE_TYPE_NEW_MINING_JOB,
                channel_bit: true,
                payload: standard_payload(state, template, min_ntime, id, job_ids[id]),
            },
        )
    }
}

/// The smallest time of the jobs of a template is absent exactly where the template is for a
/// later block, and each header only channel has a job id of its own, one of the next ones.
pub open spec fn dates_and_numbers(
    state: FactoryState,
    template: NewTemplateView,
    min_ntime: Option<u32>,
    job_ids: Map<u32, u32>,
) -> bool {
    &&& min_ntime is None <==> template.future_template
    &&& job_ids.dom() == state.standard.dom()
    &&& job_ids.is_injective()
    &&& forall|id: u32| #[trigger]
        job_ids.dom().contains(id) ==> state.channel_job_count < job_ids[id]
            <= state.channel_job_count + state.standard.dom().len()
}

/// Each message is a job, extended or standard.
pub open spec fn are_jobs(messages: Map<u32, MiningView>) -> bool {
    forall|id: u32| #[trigger]
        messages.dom().contains(id) ==> match messages[id] {
            MiningView::NewExtendedMiningJob(_) => true,
            MiningView::Other(encoded) => encoded.message_type == MESSAGE_TYPE_NEW_MINING_JOB,
            _ => false,
        }
}

/// The messages that a factory makes of a template: an extended job for each extended channel
/// and each group, a standard job for each other header only channel, and nothing else.
pub open spec fn are_jobs_with(
    messages: Map<u32, MiningView>,
    state: FactoryState,
    template: NewTemplateView,
    min_ntime: Option<u32>,
    job_ids: Map<u32, u32>,
) -> bool {
    &&& dates_and_numbers(state, template, min_ntime, job_ids)
    &&& messages.dom() == state.standard.dom().union(state.extended)
    &&& forall|id: u32| #[trigger]
        messages.dom().contains(id) ==> messages[id] == job_for(
            state,
            template,
            min_ntime,
            job_ids,
            id,
        )
}

/// The messages that a factory makes of a template, with one smallest time for all, which is that
/// of their making, and with job ids in some order.
pub open spec fn are_jobs_of(
    messages: Map<u32, MiningView>,
    state: FactoryState,
    template: NewTemplateView,
) -> bool {
    exists|min_ntime: Option<u32>, job_ids: Map<u32, u32>|
        are_jobs_with(messages, state, template, min_ntime, job_ids)
}

/// `PoolChannelFactory::new` of roles_logic_sv2 for a pool, with a generator of ids of its own
/// that nobody else holds, and with `ExtendedExtranonce::new` and `JobsCreators::new`. It keeps
/// what it is given and has no channel, template or prev hash yet.
#[verifier::external_body]
pub(crate) fn make_factory(
    ranges: &ExtranonceRanges,
    extranonce_len: u8,
    share_per_min: u8,
    outputs: &Vec<(u64, Vec<u8>)>,
    signature: String,
) -> (factory: PoolChannelFactory)
    requires
        ranges.wf(),
    ensures
        factory_state(factory) == new_state(
            *ranges,
            extranonce_len,
            share_per_min,
            outputs@,
            signature@,
        ),
{
    let ids = Arc::new(Mutex::new(GroupId::new()));
    let (range_0, range_1) = (ranges.range_0.clone(), ranges.range_1.clone());
    let extranonces = ExtendedExtranonce::new(range_0, range_1, ranges.range_2.clone());
    let creator = JobsCreators::new(extranonce_len);
    let share_per_min = share_per_min.into();
    let kind = ExtendedChannelKind::Pool;
    let outputs = outputs.iter().map(|output| TxOut {
        value: output.0,
        script_pubkey: output.1.clone().into(),
    }).collect();
    PoolChannelFactory::new(ids, extranonces, creator, share_per_min, kind, outputs, signature)
}

/// `PoolChannelFactory::new_group_id` of roles_logic_sv2: group ids are handed out from 1 on, one
/// after the other. It counts on the lock of the generator and on a number that is left.
#[verifier::external_body]
pub(crate) fn next_group_id(factory: &mut PoolChannelFactory) -> (id: u32)
    requires
        factory_state(*old(factory)).has_id(false),
    ensures
        id == factory_state(*old(factory)).next_id(false),
        factory_state(*final(factory)) == factory_state(*old(factory)).with_id(false),
{
    factory.new_group_id()
}

/// `PoolChannelFactory::new_standard_id_for_hom` of roles_logic_sv2: channel ids are handed out
/// from 1 on, one after the other. It counts on the lock of the generator and on a number that is
/// left.
#[verifier::external_body]
pub(crate) fn next_standard_id(factory: &mut PoolChannelFactory) -> (id: u32)
    requires
        factory_state(*old(factory)).has_id(true),
    ensures
        id == factory_state(*old(factory)).next_id(true),
        factory_state(*final(factory)) == factory_state(*old(factory)).with_id(true),
{
    factory.new_standard_id_for_hom()
}

/// `PoolChannelFactory::on_new_prev_hash_from_tp` of roles_logic_sv2: it drops each template but
/// the one that the message refers to, keeps the hash, the time, the bits and the target of the
/// message, and gives back the id of that template's job, or 0. It never fails. It counts on a template id that occurs once at most.
#[verifier::external_body]
pub(crate) fn take_prev_hash(factory: &mut PoolChannelFactory, message: &NewPrevHash) -> (result:
    Result<u32, roles_logic_sv2::errors::Error>)
    requires
        factory_state(*old(factory)).unambiguous(message.template_id),
        message.template_id < u64::MAX || !factory_state(*old(factory)).templates.contains(
            message.template_id,
        ),
    ensures
        result matches Ok(job_id) && job_id == factory_state(*old(factory)).job_of(
            message.template_id,
        ),
        factory_state(*final(factory)) == factory_state(*old(factory)).with_prev_hash(*message),
{
    factory.on_new_prev_hash_from_tp(&template_distribution_sv2::SetNewPrevHash {
        template_id: message.template_id,
        prev_hash: message.prev_hash.into(),
        header_timestamp: message.header_timestamp,
        n_bits: message.n_bits,
        target: message.target.into(),
    })
}

/// `PoolChannelFactory::on_new_template` of roles_logic_sv2: it keeps the template, gives it the
/// next job id, and makes a message for each channel or group. The coinbase that it makes has the
/// blank extranonce in the script of its one input, fits a job, and can be read again, so that it
/// can be had without segwit data too, which makes it no longer. The merkle root of a standard job
/// has 32 bytes. It counts on an output, of the pool or of the template. It fails where the template is refused, or
/// is for the next block while no prev hash has arrived. Which header only channel gets which of
/// the next job ids, and the smallest time where there is one, are not told.
#[verifier::external_body]
pub(crate) fn take_template(factory: &mut PoolChannelFactory, template: &NewTemplate) -> (result:
    Result<JobMessages, roles_logic_sv2::errors::Error>)
    requires
        factory_state(*old(factory)).has_room(),
        factory_state(*old(factory)).has_output(template@),
        template_in_limits(template@),
    ensures
        match result {
            Ok(messages) => {
                &&& template.future_template || factory_state(*old(factory)).has_prev_hash
                &&& job_coinbase(
                    template@,
                    factory_state(*old(factory)).outputs,
                    factory_state(*old(factory)).signature,
                    factory_state(*old(factory)).extranonce_len,
                ) matches Some((prefix, suffix)) && is_job_coinbase(
                    prefix,
                    suffix,
                    factory_state(*old(factory)).extranonce_len,
                ) && forall|id: u32| #[trigger]
                    factory_state(*old(factory)).standard.dom().contains(id) ==> merkle_root(
                        prefix,
                        suffix,
                        factory_state(*old(factory)).standard[id],
                        template.merkle_path@,
                    ).len() == 32
                &&& are_jobs_of(
                    job_messages(messages),
                    factory_state(*old(factory)),
                    template@,
                )
                &&& factory_state(*final(factory)) == factory_state(*old(factory)).with_template(
                    template.template_id,
                ).with_channel_jobs()
            },
            Err(_) => {
                &&& !factory_state(*old(factory)).accepts(template@)
                &&& factory_state(*final(factory)) == factory_state(*old(factory)).with_template(
                    template.template_id,
                )
            },
        },
{
    let hashes: Vec<U256> = template.merkle_path.iter().map(|hash| (*hash).into()).collect();
    factory.on_new_template(&mut template_distribution_sv2::NewTemplate {
        template_id: template.template_id,
        future_template: template.future_template,
        version: template.version,
        coinbase_tx_version: template.coinbase_tx_version,
        coinbase_prefix: template.coinbase_prefix.clone().try_into().unwrap(),
        coinbase_tx_input_sequence: template.coinbase_tx_input_sequence,
        coinbase_tx_value_remaining: template.coinbase_tx_value_remaining,
        coinbase_tx_outputs_count: template.coinbase_tx_outputs_count,
        coinbase_tx_outputs: template.coinbase_tx_outputs.clone().try_into().unwrap(),
        coinbase_tx_locktime: template.coinbase_tx_locktime,
        merkle_path: hashes.into(),
    })
}

/// `tx_outputs_to_costum_scripts` of roles_logic_sv2 on the bytes that a template gives for its
/// outputs, of which the number of outputs is kept.
#[verifier::external_body]
pub(crate) fn count_template_outputs(outputs: &Vec<u8>) -> (count: usize)
    ensures
        count == template_output_count(outputs@),
{
    tx_outputs_to_costum_scripts(outputs).len()
}

/// `HashMap::remove` on the jobs that a channel factory made. An extended job is handed out by its
/// fields, a standard job by its type and its body as `binary_sv2::to_bytes` writes it.
#[verifier::external_body]
pub(crate) fn remove_message(messages: &mut JobMessages, id: u32) -> (message: Option<Mining>)
    requires
        are_jobs(job_messages(*old(messages))),
    ensures
        match message {
            Some(message) => {
                &&& job_messages(*old(messages)).dom().contains(id)
                &&& message@ == job_messages(*old(messages))[id]
            },
            None => !job_messages(*old(messages)).dom().contains(id),
        },
        job_messages(*final(messages)) == job_messages(*old(messages)).remove(id),
{
    Some(match messages.remove(&id)? {
        WireMessage::NewExtendedMiningJob(job) => {
            let path = job.merkle_path.into_inner();
            Mining::NewExtendedMiningJob(NewExtendedMiningJob {
                channel_id: job.channel_id, job_id: job.job_id, version: job.version,
                min_ntime: job.min_ntime.into_inner(),
                version_rolling_allowed: job.version_rolling_allowed,
                merkle_path: path.iter().map(|hash| hash.to_vec().try_into().unwrap()).collect(),
                coinbase_tx_prefix: job.coinbase_tx_prefix.to_vec(),
                coinbase_tx_suffix: job.coinbase_tx_suffix.to_vec(),
            })
        },
        message => Mining::Other(EncodedMessage { message_type: message.message_type(),
            channel_bit: message.channel_bit(), payload: binary_sv2::to_bytes(message).unwrap() }),
    })
}

/// Ids of one kind are handed out in strictly rising order, so that no two downstreams of one kind
/// share an id: the one asked for later, with any others in between, gets the larger id.
pub proof fn lemma_ids_rise(state: FactoryState, header_only: Seq<bool>, earlier: int, later: int)
    requires
        state.ids is Some,
        0 <= earlier < later < header_only.len(),
        header_only[earlier] == header_only[later],
    ensures
        state.with_ids(header_only.take(earlier)).next_id(header_only[earlier])
            < state.with_ids(header_only.take(later)).next_id(header_only[later]),
    decreases later - earlier,
{
    let kind = header_only[earlier];
    lemma_ids_kept(state, header_only.take(later - 1));
    assert(header_only.take(later).drop_last() =~= header_only.take(later - 1));
    assert(header_only.take(later).last() == header_only[later - 1]);
    if earlier + 1 < later {
        lemma_next_id_monotone(state, header_only, kind, earlier + 1, later);
        assert(header_only.take(earlier + 1).drop_last() =~= header_only.take(earlier));
        lemma_ids_kept(state, header_only.take(earlier));
    }
}

proof fn lemma_ids_kept(state: FactoryState, header_only: Seq<bool>)
    requires
        state.ids is Some,
    ensures
        state.with_ids(header_only).ids is Some,
    decreases header_only.len(),
{
    if header_only.len() > 0 {
        lemma_ids_kept(state, header_only.drop_last());
    }
}

proof fn lemma_next_id_monotone(
    state: FactoryState,
    header_only: Seq<bool>,
    kind: bool,
    earlier: int,
    later: int,
)
    requires
        state.ids is Some,
        0 <= earlier <= later <= header_only.len(),
    ensures
        state.with_ids(header_only.take(earlier)).next_id(kind) <= state.with_ids(
            header_only.take(later),
        ).next_id(kind),
    decreases later - earlier,
{
    if earlier < later {
        lemma_next_id_monotone(state, header_only, kind, earlier, later - 1);
        lemma_ids_kept(state, header_only.take(later - 1));
        assert(header_only.take(later).drop_last() =~= header_only.take(later - 1));
    }
}

/// The next id is one more than the number of ids of its kind that were handed out, of channels
/// for header only downstreams and of groups for others. Handing it out counts it, and changes
/// nothing else.
pub proof fn lemma_next_id(state: FactoryState, header_only: bool, groups: nat, channels: nat)
    requires
        state.ids == Some((groups, channels)),
    ensures
        state.has_id(true) <==> channels < 0xffff_ffff,
        state.has_id(false) <==> groups < 0xffff_ffff,
        state.next_id(true) == channels + 1,
        state.next_id(false) == groups + 1,
        state.with_id(true).ids == Some((groups, (channels + 1) as nat)),
        state.with_id(false).ids == Some(((groups + 1) as nat, channels)),
        state.with_id(header_only).kind == state.kind,
        state.with_id(header_only).templates == state.templates,
        state.with_id(header_only).jobs == state.jobs,
        state.with_id(header_only).job_count == state.job_count,
        state.with_id(header_only).channel_job_count == state.channel_job_count,
        state.with_id(header_only).standard == state.standard,
        state.with_id(header_only).extended == state.extended,
        state.with_id(header_only).has_prev_hash == state.has_prev_hash,
        state.with_id(header_only).last_prev_hash == state.last_prev_hash,
        state.with_id(header_only).last_target == state.last_target,
        state.with_id(header_only).outputs == state.outputs,
        state.with_id(header_only).signature == state.signature,
        state.with_id(header_only).extranonce_len == state.extranonce_len,
        state.with_id(header_only).ranges == state.ranges,
        state.with_id(header_only).share_per_min == state.share_per_min,
{
}

/// A template that arrives is kept as the last, and gets the job id after those that were given;
/// nothing else changes, but that each header only channel is counted where it gets a job too.
pub proof fn lemma_template_is_kept(state: FactoryState, template_id: u64, other: u64)
    requires
        state.job_count < u32::MAX,
    ensures
        state.with_template(template_id).templates.len() == state.templates.len() + 1,
        state.with_template(template_id).templates.last() == template_id,
        forall|i: int|
            0 <= i < state.templates.len() ==> #[trigger] state.with_template(
                template_id,
            ).templates[i] == state.templates[i],
        state.with_template(template_id).jobs.dom().contains(template_id),
        state.with_template(template_id).jobs[template_id] == state.job_count + 1,
        other != template_id ==> {
            &&& state.with_template(template_id).jobs.dom().contains(other)
                <==> state.jobs.dom().contains(other)
            &&& state.jobs.dom().contains(other) ==> state.with_template(template_id).jobs[other]
                == state.jobs[other]
        },
        state.with_template(template_id).job_count == state.job_count + 1,
        state.with_template(template_id).kind == state.kind,
        state.with_template(template_id).ids == state.ids,
        state.with_template(template_id).channel_job_count == state.channel_job_count,
        state.with_template(template_id).standard == state.standard,
        state.with_template(template_id).extended == state.extended,
        state.with_template(template_id).has_prev_hash == state.has_prev_hash,
        state.with_template(template_id).last_prev_hash == state.last_prev_hash,
        state.with_template(template_id).last_target == state.last_target,
        state.with_template(template_id).outputs == state.outputs,
        state.with_template(template_id).signature == state.signature,
        state.with_template(template_id).extranonce_len == state.extranonce_len,
        state.with_template(template_id).ranges == state.ranges,
        state.with_template(template_id).share_per_min == state.share_per_min,
        state.with_channel_jobs().channel_job_count == state.channel_job_count
            + state.standard.dom().len(),
        state.with_channel_jobs().kind == state.kind,
        state.with_channel_jobs().ids == state.ids,
        state.with_channel_jobs().templates == state.templates,
        state.with_channel_jobs().jobs == state.jobs,
        state.with_channel_jobs().job_count == state.job_count,
        state.with_channel_jobs().standard == state.standard,
        state.with_channel_jobs().extended == state.extended,
        state.with_channel_jobs().has_prev_hash == state.has_prev_hash,
        state.with_channel_jobs().last_prev_hash == state.last_prev_hash,
        state.with_channel_jobs().last_target == state.last_target,
        state.with_channel_jobs().outputs == state.outputs,
        state.with_channel_jobs().signature == state.signature,
        state.with_channel_jobs().extranonce_len == state.extranonce_len,
        state.with_channel_jobs().ranges == state.ranges,
        state.with_channel_jobs().share_per_min == state.share_per_min,
{
}

/// After a prev hash only the template that it refers to is kept, if it was known; what is known
/// of the block is what the prev hash says, with the job of that template; and nothing else
/// changes.
pub proof fn lemma_prev_hash_is_kept(state: FactoryState, message: NewPrevHash, other: u64)
    ensures
        state.with_prev_hash(message).templates.contains(other) <==> other == message.template_id
            && state.templates.contains(other),
        state.with_prev_hash(message).templates.len() <= 1,
        state.with_prev_hash(message).has_prev_hash,
        state.with_prev_hash(message).last_prev_hash == Some(
            (
                if state.templates.contains(message.template_id) && state.jobs.dom().contains(
                    message.template_id,
                ) {
                    state.jobs[message.template_id]
                } else {
                    0u32
                },
                message.prev_hash@,
                message.header_timestamp,
                message.n_bits,
            ),
        ),
        state.with_prev_hash(message).last_target == message.target@,
        state.with_prev_hash(message).kind == state.kind,
        state.with_prev_hash(message).ids == state.ids,
        state.with_prev_hash(message).jobs == state.jobs,
        state.with_prev_hash(message).job_count == state.job_count,
        state.with_prev_hash(message).channel_job_count == state.channel_job_count,
        state.with_prev_hash(message).standard == state.standard,
        state.with_prev_hash(message).extended == state.extended,
        state.with_prev_hash(message).outputs == state.outputs,
        state.with_prev_hash(message).signature == state.signature,
        state.with_prev_hash(message).extranonce_len == state.extranonce_len,
        state.with_prev_hash(message).ranges == state.ranges,
        state.with_prev_hash(message).share_per_min == state.share_per_min,
{
    if state.templates.contains(message.template_id) {
        assert(seq![message.template_id][0] == message.template_id);
    }
}

/// The job of a template is the last that was made of it, where the template is known, and 0 where
/// it is not.
pub proof fn lemma_job_of(state: FactoryState, template_id: u64)
    ensures
        state.templates.contains(template_id) && state.jobs.dom().contains(template_id)
            ==> state.job_of(template_id) == state.jobs[template_id],
        !state.templates.contains(template_id) ==> state.job_of(template_id) == 0,
        !state.jobs.dom().contains(template_id) ==> state.job_of(template_id) == 0,
        state.unambiguous(template_id) <==> forall|i: int, j: int|
            0 <= i < state.templates.len() && 0 <= j < state.templates.len()
                && #[trigger] state.templates[i] == template_id
                && #[trigger] state.templates[j] == template_id ==> i == j,
{
    if state.unambiguous(template_id) {
        assert forall|i: int, j: int|
            0 <= i < state.templates.len() && 0 <= j < state.templates.len()
                && #[trigger] state.templates[i] == template_id
                && #[trigger] state.templates[j] == template_id implies i == j by {
            if i < j {
                assert(!(state.templates[i] == template_id && state.templates[j] == template_id));
            } else if j < i {
                assert(!(state.templates[j] == template_id && state.templates[i] == template_id));
            }
        }
    }
}

/// What a factory can take: a template within the limits of its fields, with an output of the pool
/// or of its own, as long as there are job ids left for all and each header only channel has an
/// extranonce of the length that jobs leave room for.
pub proof fn lemma_what_can_be_taken(state: FactoryState, template: NewTemplateView)
    ensures
        template_in_limits(template) <==> {
            &&& template.template_id < 0xffff_ffff_ffff_ffff
            &&& template.coinbase_prefix.len() >= 3
            &&& template.coinbase_prefix.len() <= 255
            &&& template.coinbase_tx_outputs.len() <= 65535
            &&& template.merkle_path.len() <= 255
        },
        state.has_output(template) <==> state.outputs.len() > 0 || template_output_count(
            template.coinbase_tx_outputs,
        ) > 0,
        state.has_room() <==> {
            &&& state.job_count < 0xffff_ffff
            &&& state.channel_job_count + state.standard.dom().len() <= 0xffff_ffff
            &&& forall|id: u32| #[trigger]
                state.standard.dom().contains(id) ==> state.standard[id].len()
                    == state.extranonce_len
        },
{
}

/// Jobs are made of a template exactly where there is a coinbase for it, of the outputs and the
/// signature of the pool, and it is for a later block or a prev hash has arrived.
pub proof fn lemma_what_is_accepted(state: FactoryState, template: NewTemplateView)
    ensures
        state.accepts(template) <==> job_coinbase(
            template,
            state.outputs,
            state.signature,
            state.extranonce_len,
        ) is Some && (!template.future_template ==> state.has_prev_hash),
{
}

/// The extended job that a template gives for a channel or group has the fields of that template,
/// the id that comes next, and the coinbase that is made of it.
pub proof fn lemma_extended_job(
    state: FactoryState,
    template: NewTemplateView,
    min_ntime: Option<u32>,
    job_ids: Map<u32, u32>,
    id: u32,
)
    requires
        state.extended.contains(id),
        state.job_count < u32::MAX,
    ensures
        ({
            &&& job_for(state, template, min_ntime, job_ids, id)
                matches MiningView::NewExtendedMiningJob(job)
            &&& job.channel_id == id
            &&& job.job_id == state.job_count + 1
            &&& job.min_ntime == min_ntime
            &&& job.version == template.version
            &&& job.version_rolling_allowed
            &&& job.merkle_path == template.merkle_path
            &&& job_coinbase(
                template,
                state.outputs,
                state.signature,
                state.extranonce_len,
            ) matches Some((prefix, suffix)) ==> job.coinbase_tx_prefix == prefix
                && job.coinbase_tx_suffix == suffix
        }),
{
}

/// From the body of the standard job that a template gives for a header only channel each of its
/// fields can be read: the ids, the time, if there is one, the version of the template, and the
/// merkle root of the coinbase with the extranonce of the channel.
pub proof fn lemma_standard_job(
    state: FactoryState,
    template: NewTemplateView,
    min_ntime: Option<u32>,
    job_ids: Map<u32, u32>,
    id: u32,
    prefix: Seq<u8>,
    suffix: Seq<u8>,
)
    requires
        !state.extended.contains(id),
        job_coinbase(template, state.outputs, state.signature, state.extranonce_len) == Some(
            (prefix, suffix),
        ),
        merkle_root(prefix, suffix, state.standard[id], template.merkle_path).len() == 32,
    ensures
        ({
            let at: int = if min_ntime is Some {
                13
            } else {
                9
            };
            &&& job_for(state, template, min_ntime, job_ids, id) matches MiningView::Other(job)
            &&& job.message_type == 0x15
            &&& job.channel_bit
            &&& job.payload.len() == at + 37
            &&& number_at(job.payload, 0) == id
            &&& number_at(job.payload, 4) == job_ids[id]
            &&& match min_ntime {
                Some(time) => job.payload[8] == 1 && number_at(job.payload, 9) == time,
                None => job.payload[8] == 0,
            }
            &&& number_at(job.payload, at) == template.version
            &&& job.payload[at + 4] == 32
            &&& job.payload.subrange(at + 5, at + 37) == merkle_root(
                prefix,
                suffix,
                state.standard[id],
                template.merkle_path,
            )
        }),
{
    let body = standard_payload(state, template, min_ntime, id, job_ids[id]);
    let at: int = if min_ntime is Some {
        13
    } else {
        9
    };
    lemma_le_bytes_len(id as nat, 4);
    lemma_le_bytes_len(job_ids[id] as nat, 4);
    lemma_le_bytes_len(template.version as nat, 4);
    assert(body.subrange(0, 4) =~= le_bytes(id as nat, 4));
    lemma_number_at(body, 0, id);
    assert(body.subrange(4, 8) =~= le_bytes(job_ids[id] as nat, 4));
    lemma_number_at(body, 4, job_ids[id]);
    if let Some(time) = min_ntime {
        lemma_le_bytes_len(time as nat, 4);
        assert(body.subrange(9, 13) =~= le_bytes(time as nat, 4));
        lemma_number_at(body, 9, time);
    }
    assert(body.subrange(at, at + 4) =~= le_bytes(template.version as nat, 4));
    lemma_number_at(body, at, template.version);
    assert(body.subrange(at + 5, at + 37) =~= merkle_root(
        prefix,
        suffix,
        state.standard[id],
        template.merkle_path,
    ));
}

/// Who gets a job of a template, and of which kind: each extended channel and each group an
/// extended one, each other header only channel a standard one, and nobody else any. The time of
/// all is absent exactly where the template is for a later block, and no two header only channels
/// share a job id.
pub proof fn lemma_who_gets_jobs(
    messages: Map<u32, MiningView>,
    state: FactoryState,
    template: NewTemplateView,
    id: u32,
)
    requires
        are_jobs_of(messages, state, template),
    ensures
        messages.dom().contains(id) <==> state.standard.dom().contains(id)
            || state.extended.contains(id),
        state.extended.contains(id) ==> {
            &&& messages[id] matches MiningView::NewExtendedMiningJob(job)
            &&& job.channel_id == id
            &&& job.min_ntime is None <==> template.future_template
            &&& job.version == template.version
            &&& job.merkle_path == template.merkle_path
        },
        !state.extended.contains(id) && state.standard.dom().contains(id) ==> {
            &&& messages[id] matches MiningView::Other(job)
            &&& job.message_type == 0x15
            &&& job.channel_bit
        },
{
    let (min_ntime, job_ids) = choose|min_ntime: Option<u32>, job_ids: Map<u32, u32>|
        are_jobs_with(messages, state, template, min_ntime, job_ids);
    assert(are_jobs_with(messages, state, template, min_ntime, job_ids));
    assert(messages.dom().contains(id) ==> messages[id] == job_for(
        state,
        template,
        min_ntime,
        job_ids,
        id,
    ));
}

/// A new factory holds nothing but what it was given: it serves a pool, has handed out no id, and
/// knows no channel, template or prev hash.
pub proof fn lemma_new_factory(
    ranges: ExtranonceRanges,
    extranonce_len: u8,
    share_per_min: u8,
    outputs: Seq<(u64, Vec<u8>)>,
    signature: Seq<char>,
)
    ensures
        ({
            let state = new_state(ranges, extranonce_len, share_per_min, outputs, signature);
            &&& state.kind is Pool
            &&& state.ids == Some((0nat, 0nat))
            &&& state.templates.len() == 0
            &&& state.jobs.dom() =~= Set::empty()
            &&& state.job_count == 0
            &&& state.channel_job_count == 0
            &&& state.standard.dom() =~= Set::empty()
            &&& state.extended =~= Set::empty()
            &&& !state.has_prev_hash
            &&& state.last_prev_hash is None
            &&& state.outputs.len() == outputs.len()
            &&& forall|i: int|
                0 <= i < outputs.len() ==> (#[trigger] state.outputs[i]).0 == outputs[i].0
                    && state.outputs[i].1 == outputs[i].1@
            &&& state.signature == signature
            &&& state.extranonce_len == extranonce_len
            &&& state.share_per_min == share_per_min
            &&& state.ranges == (
                (ranges.range_0.start as nat, ranges.range_0.end as nat),
                (ranges.range_1.start as nat, ranges.range_1.end as nat),
                (ranges.range_2.start as nat, ranges.range_2.end as nat),
            )
        }),
{
}

} // verus!
