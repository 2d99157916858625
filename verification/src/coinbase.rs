//! Extended jobs without segwit data, for the miners to hash.
use binary_sv2::Sv2Option;
use roles_logic_sv2::job_creator::extended_job_to_non_segwit;
use roles_logic_sv2::mining_sv2;
use stratum_common::bitcoin::{consensus, Transaction};
use vstd::prelude::*;

use crate::message::{NewExtendedMiningJob, NewExtendedMiningJobView, MAX_BYTES};

verus! {

/// What `extended_job_to_non_segwit` of roles_logic_sv2 makes of the two parts of a coinbase
/// transaction around an extranonce of the given length: the two parts without the segwit data;
/// nothing where it fails.
pub uninterp spec fn non_segwit_coinbase(
    prefix: Seq<u8>,
    suffix: Seq<u8>,
    extranonce_len: nat,
) -> Option<(Seq<u8>, Seq<u8>)>;

/// What `consensus::deserialize` of bitcoin reads as the script of the last input of an encoded
/// transaction: the length of that script; nothing where the bytes are no transaction, or one
/// without inputs.
pub uninterp spec fn last_input_script_len(transaction: Seq<u8>) -> Option<nat>;

/// The coinbase transaction with a blank extranonce in its place.
pub open spec fn blank_coinbase(prefix: Seq<u8>, suffix: Seq<u8>, extranonce_len: nat) -> Seq<u8> {
    prefix + Seq::new(extranonce_len, |i: int| 0u8) + suffix
}

/// The script of the coinbase's last input is long enough to hold the extranonce.
pub open spec fn holds_extranonce(
    prefix: Seq<u8>,
    suffix: Seq<u8>,
    extranonce_len: nat,
) -> bool {
    last_input_script_len(blank_coinbase(prefix, suffix, extranonce_len)) matches Some(len)
        ==> extranonce_len <= len
}

/// The two parts of a coinbase fit a job, leave room for the extranonce, and can be had without
/// segwit data in parts that fit a job again.
pub open spec fn is_job_coinbase(prefix: Seq<u8>, suffix: Seq<u8>, extranonce_len: nat) -> bool {
    &&& prefix.len() <= MAX_BYTES
    &&& suffix.len() <= MAX_BYTES
    &&& holds_extranonce(prefix, suffix, extranonce_len)
    &&& non_segwit_coinbase(prefix, suffix, extranonce_len) matches Some(parts) && parts.0.len()
        <= MAX_BYTES && parts.1.len() <= MAX_BYTES
}

/// The job with its coinbase in two parts as `parts` has them.
pub open spec fn with_coinbase(
    job: NewExtendedMiningJobView,
    parts: (Seq<u8>, Seq<u8>),
) -> NewExtendedMiningJobView {
    NewExtendedMiningJobView { coinbase_tx_prefix: parts.0, coinbase_tx_suffix: parts.1, ..job }
}

/// `extended_job_to_non_segwit` of roles_logic_sv2, on a job that is blank but for its coinbase:
/// of the other fields it makes no use. It fails where the bytes are no transaction or one without
/// inputs; what it makes fits the fields of a job again. It counts on a script that is at least as
/// long as the extranonce.
#[verifier::external_body]
fn strip_segwit(prefix: &Vec<u8>, suffix: &Vec<u8>, extranonce_len: u8) -> (result: Result<
    (Vec<u8>, Vec<u8>),
    roles_logic_sv2::errors::Error,
>)
    requires
        prefix@.len() <= MAX_BYTES,
        suffix@.len() <= MAX_BYTES,
        holds_extranonce(prefix@, suffix@, extranonce_len as nat),
    ensures
        match result {
            Ok(parts) => {
                &&& non_segwit_coinbase(prefix@, suffix@, extranonce_len as nat) == Some(
                    (parts.0@, parts.1@),
                )
                &&& last_input_script_len(
                    blank_coinbase(prefix@, suffix@, extranonce_len as nat),
                ) is Some
                &&& parts.0@.len() <= MAX_BYTES
                &&& parts.1@.len() <= MAX_BYTES
            },
            Err(_) => non_segwit_coinbase(prefix@, suffix@, extranonce_len as nat) is None,
        },
{
    let job = mining_sv2::NewExtendedMiningJob {
        channel_id: 0,
        job_id: 0,
        min_ntime: Sv2Option::new(None),
        version: 0,
        version_rolling_allowed: false,
        merkle_path: Vec::new().into(),
        coinbase_tx_prefix: prefix.clone().try_into().unwrap(),
        coinbase_tx_suffix: suffix.clone().try_into().unwrap(),
    };
    let job = extended_job_to_non_segwit(job, extranonce_len.into())?;
    Ok((job.coinbase_tx_prefix.to_vec(), job.coinbase_tx_suffix.to_vec()))
}

/// `consensus::deserialize` of bitcoin on an encoded transaction, of which the length of the last
/// input's script is kept.
#[verifier::external_body]
fn read_last_input_script_len(transaction: &Vec<u8>) -> (len: Option<usize>)
    ensures
        len is Some <==> last_input_script_len(transaction@) is Some,
        len matches Some(value) ==> last_input_script_len(transaction@) == Some(value as nat),
{
    let transaction: Transaction = consensus::deserialize(transaction).ok()?;
    transaction.input.last().map(|input| input.script_sig.len())
}

/// Whether the script of the coinbase's last input is long enough to hold the extranonce.
pub fn can_hold_extranonce(prefix: &Vec<u8>, suffix: &Vec<u8>, extranonce_len: u8) -> (holds: bool)
    requires
        prefix@.len() <= MAX_BYTES,
        suffix@.len() <= MAX_BYTES,
    ensures
        holds == holds_extranonce(prefix@, suffix@, extranonce_len as nat),
{
    let mut transaction: Vec<u8> = Vec::new();
    transaction.extend_from_slice(prefix.as_slice());
    let mut blank: u8 = 0;
    while blank < extranonce_len
        invariant
            blank <= extranonce_len,
            transaction@ == prefix@ + Seq::new(blank as nat, |i: int| 0u8),
        decreases extranonce_len - blank,
    {
        transaction.push(0);
        blank = blank + 1;
        assert(transaction@ =~= prefix@ + Seq::new(blank as nat, |i: int| 0u8));
    }
    transaction.extend_from_slice(suffix.as_slice());
    assert(transaction@ =~= blank_coinbase(prefix@, suffix@, extranonce_len as nat));
    match read_last_input_script_len(&transaction) {
        Some(len) => extranonce_len as usize <= len,
        None => true,
    }
}

/// The job without the segwit data of its coinbase; all else stays as it is.
pub fn to_non_segwit(job: NewExtendedMiningJob, extranonce_len: u8) -> (result: Result<
    NewExtendedMiningJob,
    roles_logic_sv2::errors::Error,
>)
    requires
        job@.encodable(),
        holds_extranonce(
            job.coinbase_tx_prefix@,
            job.coinbase_tx_suffix@,
            extranonce_len as nat,
        ),
    ensures
        match (
            result,
            non_segwit_coinbase(
                job.coinbase_tx_prefix@,
                job.coinbase_tx_suffix@,
                extranonce_len as nat,
            ),
        ) {
            (Ok(stripped), Some(parts)) => {
                &&& stripped@ == with_coinbase(job@, parts)
                &&& stripped.channel_id == job.channel_id
                &&& stripped.job_id == job.job_id
                &&& stripped.min_ntime == job.min_ntime
                &&& stripped.version == job.version
                &&& stripped.version_rolling_allowed == job.version_rolling_allowed
                &&& stripped.merkle_path@ == job.merkle_path@
                &&& stripped.coinbase_tx_prefix@ == parts.0
                &&& stripped.coinbase_tx_suffix@ == parts.1
                &&& stripped@.encodable()
            },
            (Err(_), None) => true,
            _ => false,
        },
{
    let parts = strip_segwit(&job.coinbase_tx_prefix, &job.coinbase_tx_suffix, extranonce_len);
    replace_coinbase(job, parts)
}

/// The job with the coinbase that was made for it; the error where none could be made.
pub fn replace_coinbase(
    job: NewExtendedMiningJob,
    parts: Result<(Vec<u8>, Vec<u8>), roles_logic_sv2::errors::Error>,
) -> (result: Result<NewExtendedMiningJob, roles_logic_sv2::errors::Error>)
    ensures
        match (result, parts) {
            (Ok(replaced), Ok(parts)) => {
                &&& replaced@ == with_coinbase(job@, (parts.0@, parts.1@))
                &&& replaced.channel_id == job.channel_id
                &&& replaced.job_id == job.job_id
                &&& replaced.min_ntime == job.min_ntime
                &&& replaced.version == job.version
                &&& replaced.version_rolling_allowed == job.version_rolling_allowed
                &&& replaced.merkle_path@ == job.merkle_path@
                &&& replaced.coinbase_tx_prefix == parts.0
                &&& replaced.coinbase_tx_suffix == parts.1
            },
            (Err(error), Err(cause)) => error == cause,
            _ => false,
        },
{
    match parts {
        Ok(parts) => Ok(
            NewExtendedMiningJob {
                channel_id: job.channel_id,
                job_id: job.job_id,
                min_ntime: job.min_ntime,
                version: job.version,
                version_rolling_allowed: job.version_rolling_allowed,
                merkle_path: job.merkle_path,
                coinbase_tx_prefix: parts.0,
                coinbase_tx_suffix: parts.1,
            },
        ),
        Err(error) => Err(error),
    }
}

/// Of a job whose coinbase is replaced nothing else changes.
pub proof fn lemma_only_coinbase_changes(job: NewExtendedMiningJobView, parts: (Seq<u8>, Seq<u8>))
    ensures
        with_coinbase(job, parts).channel_id == job.channel_id,
        with_coinbase(job, parts).job_id == job.job_id,
        with_coinbase(job, parts).min_ntime == job.min_ntime,
        with_coinbase(job, parts).version == job.version,
        with_coinbase(job, parts).version_rolling_allowed == job.version_rolling_allowed,
        with_coinbase(job, parts).merkle_path == job.merkle_path,
        with_coinbase(job, parts).coinbase_tx_prefix == parts.0,
        with_coinbase(job, parts).coinbase_tx_suffix == parts.1,
{
}

/// The coinbase with a blank extranonce is the first part, as many zeros as the extranonce has
/// bytes, and the second part.
pub proof fn lemma_blank_coinbase(prefix: Seq<u8>, suffix: Seq<u8>, extranonce_len: nat)
    ensures
        blank_coinbase(prefix, suffix, extranonce_len).len() == prefix.len() + extranonce_len
            + suffix.len(),
        forall|i: int|
            0 <= i < prefix.len() ==> #[trigger] blank_coinbase(prefix, suffix, extranonce_len)[i]
                == prefix[i],
        forall|i: int|
            prefix.len() <= i < prefix.len() + extranonce_len ==> #[trigger] blank_coinbase(
                prefix,
                suffix,
                extranonce_len,
            )[i] == 0,
        forall|i: int|
            0 <= i < suffix.len() ==> blank_coinbase(prefix, suffix, extranonce_len)[prefix.len()
                + extranonce_len + i] == #[trigger] suffix[i],
{
}

/// A coinbase has no room for the extranonce exactly where it can be read, and the script of its
/// last input is shorter than the extranonce.
pub proof fn lemma_no_room_for_extranonce(
    prefix: Seq<u8>,
    suffix: Seq<u8>,
    extranonce_len: nat,
    transaction: Seq<u8>,
)
    requires
        transaction == prefix + Seq::new(extranonce_len, |i: int| 0u8) + suffix,
    ensures
        match last_input_script_len(transaction) {
            Some(len) => holds_extranonce(prefix, suffix, extranonce_len) <==> len
                >= extranonce_len,
            None => holds_extranonce(prefix, suffix, extranonce_len),
        },
{
}

} // verus!
