use mining_pool::downstream::{CommonDownstreamData, Downstream};
use mining_pool::error::PoolError;
use mining_pool::pool::{Pool, PoolTask, Started, State};

fn started() -> Started<&'static str> {
    Pool::start(&vec![(0, vec![1, 2, 3])], false)
}

fn data(header_only: bool) -> CommonDownstreamData {
    CommonDownstreamData { header_only, work_selection: true, version_rolling: true }
}

fn sorted(mut ids: Vec<u32>) -> Vec<u32> {
    ids.sort();
    ids
}

#[test]
fn new_pool_is_empty() {
    let pool = started().pool;
    assert!(pool.downstreams.is_empty());
    assert!(!pool.new_template_processed);
    assert_eq!(pool.last_prev_hash_template_id, 0);
    assert!(pool.downstream_ids().is_empty());
}

#[test]
fn new_pool_leaves_half_of_the_extranonce_to_the_miner() {
    let mut factory = started().channel_factory;
    match &factory.new_extended_channel(1, 100_000_000.0, 16).unwrap()[0] {
        roles_logic_sv2::parsers::Mining::OpenExtendedMiningChannelSuccess(success) => {
            assert_eq!(success.extranonce_size, 16);
            assert_eq!(success.extranonce_prefix.to_vec().len(), 16);
        }
        _ => panic!(),
    }
}

#[test]
fn tasks_of_a_pool() {
    assert_eq!(
        started().tasks,
        vec![PoolTask::Listener, PoolTask::PrevHash, PoolTask::Template]
    );
    let open: Started<u8> = Pool::start(&vec![], true);
    assert_eq!(
        open.tasks,
        vec![
            PoolTask::PlainListener,
            PoolTask::Listener,
            PoolTask::PrevHash,
            PoolTask::Template
        ]
    );
}

#[test]
fn ended_task_tells_of_it() {
    let texts = [
        (PoolTask::PlainListener, "Downstream no longer accepting incoming connections"),
        (PoolTask::Listener, "Downstream no longer accepting incoming connections"),
        (PoolTask::PrevHash, "Downstream no longer accepting new prevhash"),
        (PoolTask::Template, "Downstream no longer accepting templates"),
    ];
    for (task, expected) in texts {
        match task.shutdown() {
            State::DownstreamShutdown(PoolError::ComponentShutdown(text)) => {
                assert_eq!(text, expected);
            }
            _ => panic!(),
        }
    }
}

#[test]
fn ids_of_one_kind_rise() {
    let mut factory = started().channel_factory;
    let mut ids = |header_only: bool| {
        Downstream::new(Ok(data(header_only)), &mut factory).unwrap().id
    };
    assert_eq!(ids(false), 1);
    assert_eq!(ids(false), 2);
    assert_eq!(ids(true), 1);
    assert_eq!(ids(false), 3);
    assert_eq!(ids(true), 2);
}

#[test]
fn failed_setup_uses_no_id() {
    let mut factory = started().channel_factory;
    let failed = Downstream::new(Err(PoolError::ExpectedSv2Frame), &mut factory);
    assert!(matches!(failed, Err(PoolError::ExpectedSv2Frame)));
    let downstream = Downstream::new(Ok(data(false)), &mut factory).unwrap();
    assert_eq!(downstream.id, 1);
    assert_eq!(downstream.get_downstream_mining_data(), data(false));
}

#[test]
fn downstreams_come_and_go() {
    let mut started = started();
    let first = Downstream::new(Ok(data(false)), &mut started.channel_factory).unwrap();
    let second = Downstream::new(Ok(data(false)), &mut started.channel_factory).unwrap();
    let mut pool = started.pool;
    pool.register(&first, "first");
    pool.register(&second, "second");
    assert_eq!(sorted(pool.downstream_ids()), vec![1, 2]);
    assert_eq!(pool.downstreams[&2].handle, "second");
    pool.remove_downstream(7);
    assert_eq!(sorted(pool.downstream_ids()), vec![1, 2]);
    pool.remove_downstream(1);
    assert_eq!(pool.downstream_ids(), vec![2]);
    pool.register(&second, "again");
    assert_eq!(pool.downstream_ids(), vec![2]);
    assert_eq!(pool.downstreams[&2].handle, "again");
}

#[test]
fn pool_keeps_in_mind_what_its_tasks_did() {
    let mut pool = started().pool;
    pool.record_prev_hash(42);
    assert_eq!(pool.last_prev_hash_template_id, 42);
    assert!(!pool.new_template_processed);
    pool.mark_template_processed();
    assert!(pool.new_template_processed);
    assert_eq!(pool.last_prev_hash_template_id, 42);
}

#[test]
fn downstreams_stand_under_their_own_ids() {
    let mut started = started();
    let mut pool = started.pool;
    for header_only in [false, false, true, true, false] {
        let downstream = Downstream::new(Ok(data(header_only)), &mut started.channel_factory);
        pool.accept_connection(downstream.map(|downstream| (downstream, "here"))).unwrap();
    }
    pool.remove_downstream(2);
    assert_eq!(sorted(pool.downstream_ids()), vec![1, 3]);
    for (id, member) in &pool.downstreams {
        assert_eq!(member.downstream.id, *id);
    }
}

#[test]
fn failed_connection_leaves_the_pool_as_it_is() {
    let mut started = started();
    let downstream = Downstream::new(Ok(data(false)), &mut started.channel_factory).unwrap();
    let mut pool = started.pool;
    pool.accept_connection(Ok((downstream, "here"))).unwrap();
    let result = pool.accept_connection(Err(PoolError::ExpectedSv2Frame));
    assert!(matches!(result, Err(PoolError::ExpectedSv2Frame)));
    assert_eq!(pool.downstream_ids(), vec![1]);
    assert_eq!(pool.downstreams[&1].handle, "here");
}
