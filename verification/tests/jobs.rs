use mining_pool::coinbase::{can_hold_extranonce, replace_coinbase};
use mining_pool::delivery::{can_send, frame_job};
use mining_pool::downstream::{CommonDownstreamData, Downstream};
use mining_pool::error::{ErrorBranch, PoolError};
use mining_pool::factory::JobMessages;
use mining_pool::message::{Mining, NewExtendedMiningJob};
use mining_pool::new_template::{
    can_make_jobs, made_jobs, make_jobs, try_make_jobs, TemplateAction, TemplateEvent, TemplateTask,
};
use mining_pool::pool::{Pool, Started};
use mining_pool::prev_hash::{locate_job, PrevHashAction, PrevHashEvent, PrevHashTask};
use mining_pool::template::{NewPrevHash, NewTemplate};
use roles_logic_sv2::channel_logic::channel_factory::PoolChannelFactory;
use roles_logic_sv2::mining_sv2;
use roles_logic_sv2::parsers;

const SCRIPT: [u8; 25] = [
    118, 169, 20, 85, 162, 233, 20, 174, 185, 114, 155, 76, 210, 101, 36, 140, 182, 122, 134, 94,
    174, 149, 253, 136, 172,
];

fn segwit_prefix() -> Vec<u8> {
    let mut prefix = vec![2, 0, 0, 0, 0, 1, 1];
    prefix.extend_from_slice(&[0; 32]);
    prefix.extend_from_slice(&[255, 255, 255, 255, 35, 1, 16, 0]);
    prefix
}

fn segwit_suffix() -> Vec<u8> {
    let mut suffix = vec![255, 255, 255, 255, 1, 0, 242, 5, 42, 1, 0, 0, 0, 25];
    suffix.extend_from_slice(&SCRIPT);
    suffix.extend_from_slice(&[1, 32]);
    suffix.extend_from_slice(&[0; 32]);
    suffix.extend_from_slice(&[0, 0, 0, 0]);
    suffix
}

fn plain_prefix() -> Vec<u8> {
    let mut prefix = vec![2, 0, 0, 0, 1];
    prefix.extend_from_slice(&[0; 32]);
    prefix.extend_from_slice(&[255, 255, 255, 255, 35, 1, 16, 0]);
    prefix
}

fn plain_suffix() -> Vec<u8> {
    let mut suffix = vec![255, 255, 255, 255, 1, 0, 242, 5, 42, 1, 0, 0, 0, 25];
    suffix.extend_from_slice(&SCRIPT);
    suffix.extend_from_slice(&[0, 0, 0, 0]);
    suffix
}

fn short_script_prefix() -> Vec<u8> {
    vec![2, 0, 0, 0, 1]
}

fn short_script_suffix() -> Vec<u8> {
    let mut suffix = vec![255, 255, 255, 255, 5, 1, 2, 3, 4, 5, 255, 255, 255, 255, 1];
    suffix.extend_from_slice(&[0; 8]);
    suffix.extend_from_slice(&[0, 0, 0, 0, 0]);
    suffix
}

fn job(prefix: Vec<u8>, suffix: Vec<u8>) -> NewExtendedMiningJob {
    NewExtendedMiningJob {
        channel_id: 1,
        job_id: 2,
        min_ntime: Some(3),
        version: 4,
        version_rolling_allowed: true,
        merkle_path: vec![[5; 32]],
        coinbase_tx_prefix: prefix,
        coinbase_tx_suffix: suffix,
    }
}

fn started() -> Started<u32> {
    Pool::start(&vec![(0, SCRIPT.to_vec())], false)
}

fn template(template_id: u64, future_template: bool) -> NewTemplate {
    NewTemplate {
        template_id,
        future_template,
        version: 536870912,
        coinbase_tx_version: 2,
        coinbase_prefix: vec![1, 16, 0],
        coinbase_tx_input_sequence: 4294967295,
        coinbase_tx_value_remaining: 5000000000,
        coinbase_tx_outputs_count: 0,
        coinbase_tx_outputs: vec![],
        coinbase_tx_locktime: 0,
        merkle_path: vec![[6; 32]],
    }
}

fn prev_hash(template_id: u64) -> NewPrevHash {
    NewPrevHash {
        template_id,
        prev_hash: [8; 32],
        header_timestamp: 9,
        n_bits: 10,
        target: [11; 32],
    }
}

fn open_extended(factory: &mut PoolChannelFactory) -> u32 {
    match &factory.new_extended_channel(1, 100_000_000.0, 16).unwrap()[0] {
        parsers::Mining::OpenExtendedMiningChannelSuccess(success) => success.channel_id,
        _ => panic!(),
    }
}

fn data(header_only: bool) -> CommonDownstreamData {
    CommonDownstreamData { header_only, work_selection: false, version_rolling: true }
}

fn sent_jobs(messages: JobMessages, ids: Vec<u32>) -> Vec<(u32, Mining)> {
    let (task, action) = TemplateTask::new().step(TemplateEvent::Received(template(0, true)));
    assert!(matches!(action, TemplateAction::Make(_)));
    let (task, action) = task.step(TemplateEvent::Made(Ok(messages)));
    assert!(matches!(action, TemplateAction::List));
    let mut sent = vec![];
    let (mut task, mut action) = task.step(TemplateEvent::Listed(Ok(ids)));
    while let TemplateAction::Deliver(id, message) = action {
        sent.push((id, message));
        (task, action) = task.step(TemplateEvent::Delivered(Err(PoolError::ExpectedSv2Frame)));
    }
    assert!(matches!(action, TemplateAction::Mark));
    let (task, action) = task.step(TemplateEvent::Marked(Ok(())));
    assert!(matches!(action, TemplateAction::Signal));
    let (_, action) = task.step(TemplateEvent::Signalled(Ok(())));
    assert!(matches!(action, TemplateAction::Receive));
    sent
}

fn extended_jobs(messages: JobMessages, ids: Vec<u32>) -> Vec<NewExtendedMiningJob> {
    sent_jobs(messages, ids)
        .into_iter()
        .map(|(_, message)| match message {
            Mining::NewExtendedMiningJob(job) => job,
            _ => panic!(),
        })
        .collect()
}

#[test]
fn test_coinbase_outputs_from_config() {
    let mut factory = started().channel_factory;
    let id = open_extended(&mut factory);
    let messages = make_jobs(&mut factory, &template(1, true)).unwrap();
    let jobs = extended_jobs(messages, vec![id]);
    assert_eq!(jobs.len(), 1);
    assert!(
        jobs[0].coinbase_tx_prefix
            == [
                2, 0, 0, 0, 0, 1, 1, 0, 0, 0, 0, 0, 0, 0, 0, 0, 0, 0, 0, 0, 0, 0, 0, 0, 0, 0, 0, 0,
                0, 0, 0, 0, 0, 0, 0, 0, 0, 0, 0, 255, 255, 255, 255, 35, 1, 16, 0,
            ]
            .to_vec(),
        "coinbase_tx_prefix incorrect"
    );
    assert!(
        jobs[0].coinbase_tx_suffix
            == [
                255, 255, 255, 255, 1, 0, 242, 5, 42, 1, 0, 0, 0, 25, 118, 169, 20, 85, 162, 233,
                20, 174, 185, 114, 155, 76, 210, 101, 36, 140, 182, 122, 134, 94, 174, 149, 253,
                136, 172, 1, 32, 0, 0, 0, 0, 0, 0, 0, 0, 0, 0, 0, 0, 0, 0, 0, 0, 0, 0, 0, 0, 0, 0,
                0, 0, 0, 0, 0, 0, 0, 0, 0, 0, 0, 0, 0, 0,
            ]
            .to_vec(),
        "coinbase_tx_suffix incorrect"
    );
}

#[test]
fn extended_job_holds_what_the_template_says() {
    let mut factory = started().channel_factory;
    let id = open_extended(&mut factory);
    let messages = make_jobs(&mut factory, &template(7, true)).unwrap();
    let jobs = extended_jobs(messages, vec![id]);
    assert_eq!(jobs[0].channel_id, id);
    assert_eq!(jobs[0].job_id, 1);
    assert_eq!(jobs[0].min_ntime, None);
    assert_eq!(jobs[0].version, 536870912);
    assert!(jobs[0].version_rolling_allowed);
    assert_eq!(jobs[0].merkle_path, vec![[6; 32]]);
    let messages = make_jobs(&mut factory, &template(8, true)).unwrap();
    assert_eq!(extended_jobs(messages, vec![id])[0].job_id, 2);
}

#[test]
fn job_for_the_next_block_has_a_time() {
    let mut factory = started().channel_factory;
    let id = open_extended(&mut factory);
    assert_eq!(locate_job(&mut factory, &prev_hash(1)), 0);
    let messages = make_jobs(&mut factory, &template(2, false)).unwrap();
    assert!(extended_jobs(messages, vec![id])[0].min_ntime.is_some());
}

#[test]
fn job_for_the_next_block_needs_a_prev_hash() {
    let mut factory = started().channel_factory;
    open_extended(&mut factory);
    let result = make_jobs(&mut factory, &template(1, false));
    assert!(matches!(result, Err(PoolError::RolesLogic(_))));
}

#[test]
fn refused_template_makes_no_job_but_is_kept() {
    let mut factory = started().channel_factory;
    let mut refused = template(5, true);
    refused.coinbase_tx_version = 1;
    assert!(matches!(make_jobs(&mut factory, &refused), Err(PoolError::RolesLogic(_))));
    let mut refused = template(6, true);
    refused.coinbase_prefix = vec![9, 16, 0];
    assert!(matches!(make_jobs(&mut factory, &refused), Err(PoolError::RolesLogic(_))));
    assert_eq!(locate_job(&mut factory, &prev_hash(6)), 2);
}

#[test]
fn each_downstream_gets_its_own_job_and_no_other() {
    let mut factory = started().channel_factory;
    let first = open_extended(&mut factory);
    let second = open_extended(&mut factory);
    let hom = Downstream::new(Ok(data(true)), &mut factory).unwrap();
    factory.add_standard_channel(1, 100_000_000.0, true, hom.id).unwrap();
    let messages = make_jobs(&mut factory, &template(1, true)).unwrap();
    let sent = sent_jobs(messages, vec![second, 77, hom.id, first]);
    let ids: Vec<u32> = sent.iter().map(|(id, _)| *id).collect();
    assert_eq!(ids, vec![second, hom.id, first]);
    for (id, message) in sent {
        match message {
            Mining::NewExtendedMiningJob(job) => {
                assert_ne!(id, hom.id);
                assert_eq!(job.channel_id, id);
                assert_eq!(job.job_id, 1);
            }
            Mining::Other(message) => {
                assert_eq!(id, hom.id);
                assert_eq!(message.message_type, 0x15);
                assert!(message.channel_bit);
                assert_eq!(message.payload[..4], id.to_le_bytes());
            }
            _ => panic!(),
        }
    }
}

#[test]
fn group_gets_an_extended_job() {
    let mut factory = started().channel_factory;
    let group = Downstream::new(Ok(data(false)), &mut factory).unwrap();
    factory.add_standard_channel(1, 100_000_000.0, false, group.id).unwrap();
    let messages = make_jobs(&mut factory, &template(1, true)).unwrap();
    let jobs = extended_jobs(messages, vec![group.id]);
    assert_eq!(jobs[0].channel_id, group.id);
}

#[test]
fn prev_hash_finds_the_job_of_its_template() {
    let mut factory = started().channel_factory;
    for id in [10, 20, 30] {
        make_jobs(&mut factory, &template(id, true)).unwrap();
    }
    assert_eq!(locate_job(&mut factory, &prev_hash(20)), 2);
    assert_eq!(locate_job(&mut factory, &prev_hash(20)), 2);
    assert_eq!(locate_job(&mut factory, &prev_hash(30)), 0);
    assert_eq!(locate_job(&mut factory, &prev_hash(20)), 0);
}

#[test]
fn segwit_data_is_taken_out_of_a_job() {
    let message = Mining::NewExtendedMiningJob(job(segwit_prefix(), segwit_suffix()));
    assert!(can_send(&message));
    let mut bytes = Downstream::try_send(message).unwrap().unwrap();
    let sent: mining_sv2::NewExtendedMiningJob = binary_sv2::from_bytes(&mut bytes[6..]).unwrap();
    assert_eq!(sent.coinbase_tx_prefix.to_vec(), plain_prefix());
    assert_eq!(sent.coinbase_tx_suffix.to_vec(), plain_suffix());
    assert_eq!(sent.channel_id, 1);
    assert_eq!(sent.job_id, 2);
    assert_eq!(sent.version, 4);
    assert!(sent.version_rolling_allowed);
}

#[test]
fn job_of_a_template_goes_out_without_segwit_data() {
    let mut factory = started().channel_factory;
    let id = open_extended(&mut factory);
    let messages = make_jobs(&mut factory, &template(1, true)).unwrap();
    let (_, message) = sent_jobs(messages, vec![id]).pop().unwrap();
    let mut bytes = Downstream::try_send(message).unwrap().unwrap();
    let sent: mining_sv2::NewExtendedMiningJob = binary_sv2::from_bytes(&mut bytes[6..]).unwrap();
    assert_eq!(sent.coinbase_tx_prefix.to_vec(), plain_prefix());
    assert_eq!(sent.coinbase_tx_suffix.to_vec(), plain_suffix());
}

#[test]
fn job_with_an_unreadable_coinbase_is_refused() {
    let message = Mining::NewExtendedMiningJob(job(vec![1, 2, 3], vec![4]));
    let result = Downstream::try_send(message).unwrap();
    assert!(matches!(result, Err(PoolError::RolesLogic(_))));
}

#[test]
fn job_without_room_for_the_extranonce_cannot_be_sent() {
    assert!(can_hold_extranonce(&segwit_prefix(), &segwit_suffix(), 32));
    assert!(!can_hold_extranonce(&short_script_prefix(), &short_script_suffix(), 32));
    let message =
        Mining::NewExtendedMiningJob(job(short_script_prefix(), short_script_suffix()));
    assert!(!can_send(&message));
    assert!(Downstream::try_send(message).is_none());
}

#[test]
fn job_with_too_long_fields_cannot_be_sent() {
    let message = Mining::NewExtendedMiningJob(job(vec![0; 65536], vec![]));
    assert!(Downstream::try_send(message).is_none());
    let mut long = job(segwit_prefix(), segwit_suffix());
    long.merkle_path = vec![[0; 32]; 256];
    assert!(Downstream::try_send(Mining::NewExtendedMiningJob(long)).is_none());
}

#[test]
fn longest_merkle_path_goes_out() {
    for (len, min_ntime) in [(254, Some(3)), (254, None), (255, Some(3)), (255, None)] {
        let mut message = job(segwit_prefix(), segwit_suffix());
        message.min_ntime = min_ntime;
        message.merkle_path = (0..len).map(|i| [i as u8; 32]).collect();
        let message = Mining::NewExtendedMiningJob(message);
        let mut bytes = Downstream::try_send(message).unwrap().unwrap();
        let size = bytes.len() - 6;
        assert_eq!(bytes[3..6], [size as u8, (size >> 8) as u8, 0]);
        let sent: mining_sv2::NewExtendedMiningJob =
            binary_sv2::from_bytes(&mut bytes[6..]).unwrap();
        assert_eq!(sent.min_ntime.clone().into_inner(), min_ntime);
        assert_eq!(sent.version, 4);
        assert!(sent.version_rolling_allowed);
        assert_eq!(sent.coinbase_tx_prefix.to_vec(), plain_prefix());
        assert_eq!(sent.coinbase_tx_suffix.to_vec(), plain_suffix());
        let path = sent.merkle_path.into_inner();
        assert_eq!(path.len(), len);
        for (i, hash) in path.iter().enumerate() {
            assert_eq!(hash.to_vec(), vec![i as u8; 32]);
        }
    }
}

#[test]
fn template_with_the_longest_merkle_path_makes_a_job() {
    let mut factory = started().channel_factory;
    let id = open_extended(&mut factory);
    let mut long = template(1, true);
    long.merkle_path = vec![[6; 32]; 255];
    let messages = make_jobs(&mut factory, &long).unwrap();
    let (_, message) = sent_jobs(messages, vec![id]).pop().unwrap();
    assert!(Downstream::try_send(message).unwrap().is_ok());
}

#[test]
fn standard_job_holds_what_the_template_says() {
    let mut factory = started().channel_factory;
    let extended = open_extended(&mut factory);
    let mut extranonces = vec![];
    for id in [40, 41] {
        match &factory.add_standard_channel(1, 100_000_000.0, true, id).unwrap()[0] {
            parsers::Mining::OpenStandardMiningChannelSuccess(success) => {
                extranonces.push((id, success.extranonce_prefix.to_vec()));
            }
            _ => panic!(),
        }
    }
    locate_job(&mut factory, &prev_hash(1));
    let mut job_ids = vec![];
    for future in [true, false] {
        let messages = make_jobs(&mut factory, &template(2, future)).unwrap();
        let sent = sent_jobs(messages, vec![extended, 40, 41]);
        let time = match &sent[0].1 {
            Mining::NewExtendedMiningJob(job) => job.min_ntime,
            _ => panic!(),
        };
        assert_eq!(time.is_none(), future);
        for ((_, message), (id, extranonce)) in sent.into_iter().skip(1).zip(&extranonces) {
            let mut payload = match message {
                Mining::Other(message) => message.payload,
                _ => panic!(),
            };
            let job: mining_sv2::NewMiningJob = binary_sv2::from_bytes(&mut payload).unwrap();
            let root = roles_logic_sv2::utils::merkle_root_from_path(
                &segwit_prefix(),
                &segwit_suffix(),
                extranonce,
                &[[6; 32]],
            );
            assert_eq!(job.channel_id, *id);
            assert_eq!(job.version, 536870912);
            assert_eq!(job.min_ntime.clone().into_inner(), time);
            assert_eq!(job.merkle_root.to_vec(), root.unwrap());
            let len = payload.len();
            assert_eq!(payload[len - 33], 32);
            job_ids.push(u32::from_le_bytes([payload[4], payload[5], payload[6], payload[7]]));
        }
    }
    job_ids[..2].sort();
    job_ids[2..].sort();
    assert_eq!(job_ids, vec![3, 4, 5, 6]);
}

#[test]
fn each_prev_hash_and_each_template_is_followed_by_a_signal() {
    let started: Started<u32> = Pool::start(&vec![(0, SCRIPT.to_vec())], false);
    let (mut pool, mut factory) = (started.pool, started.channel_factory);
    let downstream = Downstream { id: 1, downstream_data: data(false) };
    pool.register(&downstream, 0);
    let mut signals = 0;
    let mut templates = TemplateTask::new();
    let mut prev_hashes = PrevHashTask::new();
    assert!(!pool.new_template_processed);
    for round in 1..4 {
        let (next, _) = prev_hashes.step(PrevHashEvent::Received(prev_hash(round)));
        let (mut task, mut action) = templates.step(TemplateEvent::Received(template(round, true)));
        pool.record_prev_hash(round);
        let (next, _) = next.step(PrevHashEvent::Recorded(Ok(())));
        while !matches!(action, TemplateAction::Receive) {
            let event = match action {
                TemplateAction::Make(template) => {
                    TemplateEvent::Made(make_jobs(&mut factory, &template))
                }
                TemplateAction::List => TemplateEvent::Listed(Ok(pool.downstream_ids())),
                TemplateAction::Deliver(_, _) => TemplateEvent::Delivered(Ok(())),
                TemplateAction::Mark => {
                    pool.mark_template_processed();
                    TemplateEvent::Marked(Ok(()))
                }
                TemplateAction::Signal => {
                    signals += 1;
                    TemplateEvent::Signalled(Ok(()))
                }
                _ => panic!(),
            };
            (task, action) = task.step(event);
        }
        templates = task;
        let (next, _) = next.step(PrevHashEvent::Located(Ok(0)));
        let (next, _) = next.step(PrevHashEvent::Listed(Ok(pool.downstream_ids())));
        let (next, _) = next.step(PrevHashEvent::Delivered(Err(PoolError::ExpectedSv2Frame)));
        let (next, _) = next.step(PrevHashEvent::Reported(ErrorBranch::Break));
        signals += 1;
        let (next, action) = next.step(PrevHashEvent::Signalled(Ok(())));
        assert!(matches!(action, PrevHashAction::Receive));
        prev_hashes = next;
    }
    assert_eq!(signals, 6);
    assert!(pool.new_template_processed);
    assert_eq!(pool.last_prev_hash_template_id, 3);
}

#[test]
fn coinbase_is_replaced_and_nothing_else() {
    let replaced = replace_coinbase(job(vec![1], vec![2]), Ok((vec![3], vec![4]))).unwrap();
    assert_eq!(replaced.coinbase_tx_prefix, vec![3]);
    assert_eq!(replaced.coinbase_tx_suffix, vec![4]);
    assert_eq!(replaced.min_ntime, Some(3));
    assert_eq!(replaced.merkle_path, vec![[5; 32]]);
    let error = roles_logic_sv2::errors::Error::InvalidCoinbase;
    let result = replace_coinbase(job(vec![1], vec![2]), Err(error));
    assert!(matches!(result, Err(roles_logic_sv2::errors::Error::InvalidCoinbase)));
}

fn output_bytes() -> Vec<u8> {
    let mut bytes = vec![7, 0, 0, 0, 0, 0, 0, 0, 25];
    bytes.extend_from_slice(&SCRIPT);
    bytes
}

#[test]
fn output_of_the_template_is_enough() {
    let started: Started<u32> = Pool::start(&vec![], false);
    let mut factory = started.channel_factory;
    let id = open_extended(&mut factory);
    let mut paying = template(1, true);
    assert!(!can_make_jobs(&paying, 0));
    assert!(try_make_jobs(&mut factory, &paying, 0).is_none());
    paying.coinbase_tx_outputs = output_bytes();
    assert!(can_make_jobs(&paying, 0));
    let messages = try_make_jobs(&mut factory, &paying, 0).unwrap().unwrap();
    let jobs = extended_jobs(messages, vec![id]);
    assert_eq!(jobs[0].job_id, 1);
    assert_eq!(jobs[0].coinbase_tx_suffix, segwit_suffix());
}

#[test]
fn outputs_of_the_pool_come_before_those_of_the_template() {
    let mut factory = started().channel_factory;
    let id = open_extended(&mut factory);
    let mut paying = template(1, true);
    paying.coinbase_tx_outputs = output_bytes();
    let messages = try_make_jobs(&mut factory, &paying, 1).unwrap().unwrap();
    let suffix = extended_jobs(messages, vec![id]).remove(0).coinbase_tx_suffix;
    assert_eq!(suffix[4..13], [2, 0, 242, 5, 42, 1, 0, 0, 0]);
    assert_eq!(suffix[39..73], output_bytes());
}

#[test]
fn template_out_of_its_limits_is_not_taken() {
    let mut factory = started().channel_factory;
    let mut last = template(u64::MAX, true);
    assert!(try_make_jobs(&mut factory, &last, 1).is_none());
    last.template_id = u64::MAX - 1;
    assert!(can_make_jobs(&last, 1));
    let mut short = template(1, true);
    short.coinbase_prefix = vec![0, 1];
    assert!(try_make_jobs(&mut factory, &short, 1).is_none());
    let mut long = template(1, true);
    long.merkle_path = vec![[0; 32]; 256];
    assert!(try_make_jobs(&mut factory, &long, 1).is_none());
    assert_eq!(locate_job(&mut factory, &prev_hash(1)), 0);
}

#[test]
fn error_of_the_outside_is_handed_on() {
    let error = roles_logic_sv2::errors::Error::InvalidCoinbase;
    assert!(matches!(
        frame_job(Err(error)),
        Err(PoolError::RolesLogic(roles_logic_sv2::errors::Error::InvalidCoinbase))
    ));
    let error = roles_logic_sv2::errors::Error::TxVersionTooLow;
    assert!(matches!(
        made_jobs(Err(error)),
        Err(PoolError::RolesLogic(roles_logic_sv2::errors::Error::TxVersionTooLow))
    ));
    let mut refused = template(1, true);
    refused.coinbase_tx_version = 1;
    assert!(matches!(
        make_jobs(&mut started().channel_factory, &refused),
        Err(PoolError::RolesLogic(roles_logic_sv2::errors::Error::TxVersionTooLow))
    ));
}

#[test]
fn each_job_of_a_pool_has_a_frame() {
    let mut factory = started().channel_factory;
    let extended = open_extended(&mut factory);
    factory.add_standard_channel(1, 100_000_000.0, true, 40).unwrap();
    let mut long = template(1, true);
    long.coinbase_prefix = vec![9; 255];
    long.coinbase_prefix[0] = 253;
    for template in [template(2, true), long] {
        let messages = make_jobs(&mut factory, &template).unwrap();
        let sent = sent_jobs(messages, vec![extended, 40]);
        assert_eq!(sent.len(), 2);
        for (_, message) in sent {
            assert!(Downstream::try_send(message).unwrap().is_ok());
        }
    }
}
