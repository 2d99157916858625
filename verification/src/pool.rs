//! The pool: its downstreams, and what its tasks have come to.
use std::collections::HashMap;
use std::ops::Range;

use roles_logic_sv2::channel_logic::channel_factory::PoolChannelFactory;
use vstd::prelude::*;
use vstd::std_specs::iter::IteratorSpec;

use crate::delivery::EXTRANONCE_LEN;
use crate::downstream::Downstream;
use crate::error::PoolError;
use crate::factory::{
    factory_state, make_factory, new_state, output_view, ExtranonceRanges, FactoryKind,
    FactoryState,
};

verus! {

/// How many shares the pool wants of a channel in a minute.
pub const SHARE_PER_MIN: u8 = 1;

/// The number of bytes of an extranonce that the pool sets for each channel.
pub const POOL_EXTRANONCE_LEN: usize = 16;

/// A downstream that the pool serves, and the handle to its connection.
#[derive(Clone, Debug)]
pub struct Member<D> {
    pub downstream: Downstream,
    pub handle: D,
}

/// The pool, with a handle of type `D` to each of its downstreams.
#[derive(Debug)]
pub struct Pool<D> {
    /// The downstreams by their ids.
    pub downstreams: HashMap<u32, Member<D>>,
    /// A template has been made into jobs.
    pub new_template_processed: bool,
    /// The template that the last prev hash referred to.
    pub last_prev_hash_template_id: u64,
}

/// A task that runs as long as the pool does.
#[derive(Clone, Copy, PartialEq, Eq, Structural, Debug)]
pub enum PoolTask {
    /// It accepts connections that are not encrypted.
    PlainListener,
    /// It accepts encrypted connections.
    Listener,
    /// It tells the downstreams of new prev hashes.
    PrevHash,
    /// It makes jobs of new templates.
    Template,
}

/// The state that a task tells the rest of the pool of.
#[derive(Debug)]
pub enum State {
    /// A part of the pool is no longer there.
    DownstreamShutdown(PoolError),
    /// Something happened that the pool lives on with.
    Healthy(String),
}

/// A new pool.
pub struct Started<D> {
    pub pool: Pool<D>,
    pub channel_factory: PoolChannelFactory,
    /// The tasks to run.
    pub tasks: Vec<PoolTask>,
}

/// What is told once a task has ended.
pub open spec fn shutdown_text(task: PoolTask) -> Seq<char> {
    match task {
        PoolTask::PlainListener => "Downstream no longer accepting incoming connections"@,
        PoolTask::Listener => "Downstream no longer accepting incoming connections"@,
        PoolTask::PrevHash => "Downstream no longer accepting new prevhash"@,
        PoolTask::Template => "Downstream no longer accepting templates"@,
    }
}

impl PoolTask {
    /// The state to tell of once the task has ended, however it did.
    pub fn shutdown(self) -> (state: State)
        ensures
            state matches State::DownstreamShutdown(PoolError::ComponentShutdown(text)) && text@
                == shutdown_text(self),
            state matches State::DownstreamShutdown(PoolError::ComponentShutdown(text))
                && match self {
                PoolTask::PlainListener => text@
                    == "Downstream no longer accepting incoming connections"@,
                PoolTask::Listener => text@
                    == "Downstream no longer accepting incoming connections"@,
                PoolTask::PrevHash => text@ == "Downstream no longer accepting new prevhash"@,
                PoolTask::Template => text@ == "Downstream no longer accepting templates"@,
            },
    {
        let text: String = match self {
            PoolTask::PlainListener => {
                "Downstream no longer accepting incoming connections".to_string()
            },
            PoolTask::Listener => {
                "Downstream no longer accepting incoming connections".to_string()
            },
            PoolTask::PrevHash => "Downstream no longer accepting new prevhash".to_string(),
            PoolTask::Template => "Downstream no longer accepting templates".to_string(),
        };
        State::DownstreamShutdown(PoolError::ComponentShutdown(text))
    }
}

/// Each downstream stands under its own id.
pub open spec fn under_own_ids<D>(members: Map<u32, Member<D>>) -> bool {
    forall|id: u32| #[trigger] members.dom().contains(id) ==> members[id].downstream.id == id
}

/// The content of a [`Pool`].
pub struct PoolView<D> {
    pub downstreams: Map<u32, Member<D>>,
    pub new_template_processed: bool,
    pub last_prev_hash_template_id: u64,
}

impl<D> View for Pool<D> {
    type V = PoolView<D>;

    open spec fn view(&self) -> PoolView<D> {
        PoolView {
            downstreams: self.downstreams@,
            new_template_processed: self.new_template_processed,
            last_prev_hash_template_id: self.last_prev_hash_template_id,
        }
    }
}

impl<D> PoolView<D> {
    /// A new pool.
    pub open spec fn new() -> PoolView<D> {
        PoolView {
            downstreams: Map::empty(),
            new_template_processed: false,
            last_prev_hash_template_id: 0,
        }
    }

    /// A downstream has joined.
    pub open spec fn joined(self, downstream: Downstream, handle: D) -> PoolView<D> {
        PoolView {
            downstreams: self.downstreams.insert(downstream.id, Member { downstream, handle }),
            ..self
        }
    }

    /// A downstream has left.
    pub open spec fn left(self, id: u32) -> PoolView<D> {
        PoolView { downstreams: self.downstreams.remove(id), ..self }
    }

    /// A prev hash has arrived that refers to this template.
    pub open spec fn recorded(self, template_id: u64) -> PoolView<D> {
        PoolView { last_prev_hash_template_id: template_id, ..self }
    }

    /// A template has been made into jobs.
    pub open spec fn marked(self) -> PoolView<D> {
        PoolView { new_template_processed: true, ..self }
    }
}

/// What the channel factory of a new pool holds.
pub open spec fn pool_factory(outputs: Seq<(u64, Vec<u8>)>) -> FactoryState {
    new_state(
        ExtranonceRanges {
            range_0: (Range { start: 0, end: 0 }),
            range_1: (Range { start: 0, end: POOL_EXTRANONCE_LEN }),
            range_2: (Range { start: POOL_EXTRANONCE_LEN, end: EXTRANONCE_LEN as usize }),
        },
        EXTRANONCE_LEN,
        SHARE_PER_MIN,
        outputs,
        Seq::empty(),
    )
}

/// The tasks of a pool.
pub open spec fn pool_tasks(allow_unencrypted: bool) -> Seq<PoolTask> {
    if allow_unencrypted {
        seq![
            PoolTask::PlainListener,
            PoolTask::Listener,
            PoolTask::PrevHash,
            PoolTask::Template,
        ]
    } else {
        seq![PoolTask::Listener, PoolTask::PrevHash, PoolTask::Template]
    }
}

impl<D> Pool<D> {
    /// Each downstream of the pool stands under its own id.
    pub open spec fn wf(self) -> bool {
        under_own_ids(self.downstreams@)
    }

    /// A pool without downstreams, a channel factory that pays to the given outputs, each by its
    /// value and its script, and the tasks to run.
    pub fn start(outputs: &Vec<(u64, Vec<u8>)>, allow_unencrypted: bool) -> (started: Started<D>)
        ensures
            started.pool.wf(),
            started.pool@ == PoolView::<D>::new(),
            factory_state(started.channel_factory) == pool_factory(outputs@),
            started.tasks@ == pool_tasks(allow_unencrypted),
            started.pool.downstreams@ == Map::<u32, Member<D>>::empty(),
            !started.pool.new_template_processed,
            started.pool.last_prev_hash_template_id == 0,
            factory_state(started.channel_factory) == (FactoryState {
                kind: FactoryKind::Pool,
                ids: Some((0, 0)),
                templates: Seq::empty(),
                jobs: Map::empty(),
                job_count: 0,
                channel_job_count: 0,
                standard: Map::empty(),
                extended: Set::empty(),
                has_prev_hash: false,
                last_prev_hash: None,
                last_target: Seq::new(32, |i: int| 0u8),
                outputs: outputs@.map_values(|output: (u64, Vec<u8>)| output_view(output)),
                signature: Seq::empty(),
                extranonce_len: 32,
                ranges: ((0, 0), (0, 16), (16, 32)),
                share_per_min: 1,
            }),
            factory_state(started.channel_factory).outputs.len() == outputs@.len(),
            forall|i: int|
                0 <= i < outputs@.len() ==> (#[trigger] factory_state(
                    started.channel_factory,
                ).outputs[i]).0 == outputs@[i].0 && factory_state(
                    started.channel_factory,
                ).outputs[i].1 == outputs@[i].1@,
            started.tasks@ == if allow_unencrypted {
                seq![
                    PoolTask::PlainListener,
                    PoolTask::Listener,
                    PoolTask::PrevHash,
                    PoolTask::Template,
                ]
            } else {
                seq![PoolTask::Listener, PoolTask::PrevHash, PoolTask::Template]
            },
    {
        let ranges = ExtranonceRanges {
            range_0: 0..0,
            range_1: 0..POOL_EXTRANONCE_LEN,
            range_2: POOL_EXTRANONCE_LEN..EXTRANONCE_LEN as usize,
        };
        let signature: String = String::new();
        let channel_factory = make_factory(
            &ranges,
            EXTRANONCE_LEN,
            SHARE_PER_MIN,
            outputs,
            signature,
        );
        let mut tasks: Vec<PoolTask> = Vec::new();
        if allow_unencrypted {
            tasks.push(PoolTask::PlainListener);
        }
        tasks.push(PoolTask::Listener);
        tasks.push(PoolTask::PrevHash);
        tasks.push(PoolTask::Template);
        Started {
            pool: Pool {
                downstreams: HashMap::new(),
                new_template_processed: false,
                last_prev_hash_template_id: 0,
            },
            channel_factory,
            tasks,
        }
    }

    /// Takes a downstream that has connected into the pool under its own id, in place of any other
    /// with that id.
    pub fn register(&mut self, downstream: &Downstream, handle: D)
        requires
            old(self).wf(),
        ensures
            final(self).wf(),
            final(self)@ == old(self)@.joined(*downstream, handle),
            final(self).downstreams@ == old(self).downstreams@.insert(
                downstream.id,
                Member { downstream: *downstream, handle },
            ),
            final(self).new_template_processed == old(self).new_template_processed,
            final(self).last_prev_hash_template_id == old(self).last_prev_hash_template_id,
    {
        broadcast use vstd::std_specs::hash::group_hash_axioms;

        self.downstreams.insert(downstream.id, Member { downstream: *downstream, handle });
    }

    /// Takes a connection into the pool, once it is known whether it became a downstream. Where it
    /// did not, the pool stays as it is.
    pub fn accept_connection(&mut self, connected: Result<(Downstream, D), PoolError>) -> (result: Result<
        (),
        PoolError,
    >)
        requires
            old(self).wf(),
        ensures
            final(self).wf(),
            match connected {
                Ok((downstream, handle)) => {
                    &&& result == Ok::<(), PoolError>(())
                    &&& final(self)@ == old(self)@.joined(downstream, handle)
                    &&& final(self).downstreams@ == old(self).downstreams@.insert(
                        downstream.id,
                        Member { downstream, handle },
                    )
                    &&& final(self).new_template_processed == old(self).new_template_processed
                    &&& final(self).last_prev_hash_template_id == old(
                        self,
                    ).last_prev_hash_template_id
                },
                Err(error) => {
                    &&& result == Err::<(), PoolError>(error)
                    &&& *final(self) == *old(self)
                },
            },
    {
        match connected {
            Ok((downstream, handle)) => {
                self.register(&downstream, handle);
                Ok(())
            },
            Err(error) => Err(error),
        }
    }

    /// Removes a downstream from the pool. It may still be in a round that has begun before: to
    /// send it a message then fails. A round of jobs goes on with the next downstream; a round of
    /// a prev hash does so where the report of that failure says to go on.
    pub fn remove_downstream(&mut self, downstream_id: u32)
        ensures
            old(self).wf() ==> final(self).wf(),
            final(self)@ == old(self)@.left(downstream_id),
            final(self).downstreams@ == old(self).downstreams@.remove(downstream_id),
            final(self).new_template_processed == old(self).new_template_processed,
            final(self).last_prev_hash_template_id == old(self).last_prev_hash_template_id,
    {
        broadcast use vstd::std_specs::hash::group_hash_axioms;

        self.downstreams.remove(&downstream_id);
    }

    /// The ids of the downstreams, each once, in no set order.
    pub fn downstream_ids(&self) -> (ids: Vec<u32>)
        ensures
            ids@.no_duplicates(),
            ids@.to_set() == self.downstreams@.dom(),
    {
        broadcast use vstd::std_specs::hash::group_hash_axioms;

        let mut ids: Vec<u32> = Vec::new();
        let ghost all = self.downstreams.keys().remaining().unref();
        for id in iter: self.downstreams.keys()
            invariant
                iter.seq().unref() == all,
                ids@ == all.take(iter.index() as int),
        {
            ids.push(*id);
        }
        assert(ids@ =~= all);
        ids
    }

    /// Keeps in mind which template the last prev hash referred to.
    pub fn record_prev_hash(&mut self, template_id: u64)
        ensures
            old(self).wf() ==> final(self).wf(),
            final(self)@ == old(self)@.recorded(template_id),
            final(self).last_prev_hash_template_id == template_id,
            final(self).downstreams == old(self).downstreams,
            final(self).new_template_processed == old(self).new_template_processed,
    {
        self.last_prev_hash_template_id = template_id;
    }

    /// Keeps in mind that a template has been made into jobs.
    pub fn mark_template_processed(&mut self)
        ensures
            old(self).wf() ==> final(self).wf(),
            final(self)@ == old(self)@.marked(),
            final(self).new_template_processed,
            final(self).downstreams == old(self).downstreams,
            final(self).last_prev_hash_template_id == old(self).last_prev_hash_template_id,
    {
        self.new_template_processed = true;
    }
}

/// A downstream that was removed is in no round that begins later, and the others are where they
/// were.
pub proof fn lemma_removed_is_not_listed<D>(before: Map<u32, D>, removed: u32, ids: Seq<u32>)
    requires
        ids.to_set() == before.remove(removed).dom(),
    ensures
        !ids.contains(removed),
        forall|id: u32|
            id != removed ==> (#[trigger] ids.contains(id) <==> before.dom().contains(id)),
{
    assert(forall|id: u32| #[trigger] ids.contains(id) <==> ids.to_set().contains(id));
}

/// A downstream that was added is in each round that begins later, with the others.
pub proof fn lemma_added_is_listed<D>(before: Map<u32, D>, added: u32, handle: D, ids: Seq<u32>)
    requires
        ids.to_set() == before.insert(added, handle).dom(),
    ensures
        ids.contains(added),
        forall|id: u32|
            id != added ==> (#[trigger] ids.contains(id) <==> before.dom().contains(id)),
{
    assert(forall|id: u32| #[trigger] ids.contains(id) <==> ids.to_set().contains(id));
}

/// What happens to the downstreams of a pool.
pub enum RegistryChange<D> {
    /// A connection became a downstream.
    Joined(Downstream, D),
    /// A connection did not become a downstream, or a round was gone through.
    Unchanged,
    /// A downstream was removed.
    Left(u32),
}

/// The downstreams of a new pool after changes, one after the other.
pub open spec fn members_after<D>(changes: Seq<RegistryChange<D>>) -> Map<u32, Member<D>>
    decreases changes.len(),
{
    if changes.len() == 0 {
        Map::empty()
    } else {
        let before = members_after(changes.drop_last());
        match changes.last() {
            RegistryChange::Joined(downstream, handle) => before.insert(
                downstream.id,
                Member { downstream, handle },
            ),
            RegistryChange::Unchanged => before,
            RegistryChange::Left(id) => before.remove(id),
        }
    }
}

/// Whoever joins or leaves, each downstream of the pool stands under its own id.
pub proof fn lemma_under_own_ids<D>(changes: Seq<RegistryChange<D>>)
    ensures
        under_own_ids(members_after(changes)),
    decreases changes.len(),
{
    if changes.len() > 0 {
        lemma_under_own_ids(changes.drop_last());
    }
}

/// Who is found under an id of the pool is the downstream with that id.
pub proof fn lemma_own_ids<D>(members: Map<u32, Member<D>>, id: u32)
    requires
        under_own_ids(members),
        members.dom().contains(id),
    ensures
        members[id].downstream.id == id,
{
}

/// What joins and leaves a pool does to its downstreams: one that joins stands under its own id,
/// one that left is gone, and the others are as they were.
pub proof fn lemma_last_change<D>(changes: Seq<RegistryChange<D>>, id: u32)
    requires
        changes.len() > 0,
    ensures
        ({
            let before = members_after(changes.drop_last());
            let after = members_after(changes);
            match changes.last() {
                RegistryChange::Joined(downstream, handle) => {
                    &&& after.dom().contains(downstream.id)
                    &&& after[downstream.id].downstream == downstream
                    &&& after[downstream.id].handle == handle
                    &&& id != downstream.id ==> (after.dom().contains(id)
                        <==> before.dom().contains(id))
                    &&& id != downstream.id && before.dom().contains(id) ==> after[id]
                        == before[id]
                },
                RegistryChange::Unchanged => after == before,
                RegistryChange::Left(left) => {
                    &&& !after.dom().contains(left)
                    &&& id != left ==> (after.dom().contains(id) <==> before.dom().contains(id))
                    &&& id != left && before.dom().contains(id) ==> after[id] == before[id]
                },
            }
        }),
{
}

/// A new pool has no downstream, has processed no template and knows no prev hash. Its channel
/// factory serves a pool, pays to its outputs in their order, signs nothing, wants one share in a
/// minute, and gives 32 bytes to an extranonce, of which the pool sets the first 16 and the miner
/// the others.
pub proof fn lemma_new_pool<D>(outputs: Seq<(u64, Vec<u8>)>)
    ensures
        PoolView::<D>::new().downstreams.dom() =~= Set::empty(),
        !PoolView::<D>::new().new_template_processed,
        PoolView::<D>::new().last_prev_hash_template_id == 0,
        pool_factory(outputs).kind is Pool,
        pool_factory(outputs).ids == Some((0nat, 0nat)),
        pool_factory(outputs).outputs.len() == outputs.len(),
        forall|i: int|
            0 <= i < outputs.len() ==> (#[trigger] pool_factory(outputs).outputs[i]).0
                == outputs[i].0 && pool_factory(outputs).outputs[i].1 == outputs[i].1@,
        pool_factory(outputs).signature.len() == 0,
        pool_factory(outputs).share_per_min == 1,
        pool_factory(outputs).extranonce_len == 32,
        pool_factory(outputs).ranges == ((0nat, 0nat), (0nat, 16nat), (16nat, 32nat)),
        pool_factory(outputs).templates.len() == 0,
        pool_factory(outputs).job_count == 0,
        !pool_factory(outputs).has_prev_hash,
{
}

/// Each task runs once, the one for connections that are not encrypted only where they are
/// allowed, and there is no other; when it ends, each tells so in its own words, the two that
/// accept connections in the same.
pub proof fn lemma_pool_tasks(allow_unencrypted: bool, task: PoolTask)
    ensures
        pool_tasks(allow_unencrypted).contains(task) <==> (task is PlainListener
            ==> allow_unencrypted),
        pool_tasks(allow_unencrypted).no_duplicates(),
        shutdown_text(task) == match task {
            PoolTask::PlainListener => "Downstream no longer accepting incoming connections"@,
            PoolTask::Listener => "Downstream no longer accepting incoming connections"@,
            PoolTask::PrevHash => "Downstream no longer accepting new prevhash"@,
            PoolTask::Template => "Downstream no longer accepting templates"@,
        },
{
    let tasks = pool_tasks(allow_unencrypted);
    let last = tasks.len() - 1;
    assert(tasks[last] == PoolTask::Template);
    assert(tasks[last - 1] == PoolTask::PrevHash);
    assert(tasks[last - 2] == PoolTask::Listener);
    if allow_unencrypted {
        assert(tasks[0] == PoolTask::PlainListener);
    }
}

/// What each of the things that happen to a pool changes, and that it changes nothing else.
pub proof fn lemma_pool_changes<D>(
    pool: PoolView<D>,
    downstream: Downstream,
    handle: D,
    template_id: u64,
    other: u32,
)
    ensures
        pool.joined(downstream, handle).downstreams.dom().contains(downstream.id),
        pool.joined(downstream, handle).downstreams[downstream.id].downstream == downstream,
        pool.joined(downstream, handle).downstreams[downstream.id].handle == handle,
        other != downstream.id ==> (pool.joined(downstream, handle).downstreams.dom().contains(
            other,
        ) <==> pool.downstreams.dom().contains(other)),
        other != downstream.id && pool.downstreams.dom().contains(other) ==> pool.joined(
            downstream,
            handle,
        ).downstreams[other] == pool.downstreams[other],
        pool.joined(downstream, handle).new_template_processed == pool.new_template_processed,
        pool.joined(downstream, handle).last_prev_hash_template_id
            == pool.last_prev_hash_template_id,
        !pool.left(downstream.id).downstreams.dom().contains(downstream.id),
        other != downstream.id ==> (pool.left(downstream.id).downstreams.dom().contains(other)
            <==> pool.downstreams.dom().contains(other)),
        other != downstream.id && pool.downstreams.dom().contains(other) ==> pool.left(
            downstream.id,
        ).downstreams[other] == pool.downstreams[other],
        pool.left(downstream.id).new_template_processed == pool.new_template_processed,
        pool.left(downstream.id).last_prev_hash_template_id == pool.last_prev_hash_template_id,
        pool.recorded(template_id).last_prev_hash_template_id == template_id,
        pool.recorded(template_id).downstreams == pool.downstreams,
        pool.recorded(template_id).new_template_processed == pool.new_template_processed,
        pool.marked().new_template_processed,
        pool.marked().downstreams == pool.downstreams,
        pool.marked().last_prev_hash_template_id == pool.last_prev_hash_template_id,
{
}

/// The content of a pool is that of its fields, each by itself.
pub proof fn lemma_pool_content<D>(pool: Pool<D>)
    ensures
        pool@.downstreams == pool.downstreams@,
        pool@.new_template_processed == pool.new_template_processed,
        pool@.last_prev_hash_template_id == pool.last_prev_hash_template_id,
{
}

} // verus!
