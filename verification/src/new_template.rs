//! The task that makes jobs of a new template, and sends each downstream its own.
use roles_logic_sv2::channel_logic::channel_factory::PoolChannelFactory;
use vstd::prelude::*;

use crate::delivery::{has_frame, outgoing, EXTRANONCE_LEN};
use crate::error::{ErrorBranch, PoolError};
use crate::factory::{
    are_jobs, are_jobs_of, are_jobs_with, count_template_outputs, dates_and_numbers, factory_state,
    job_coinbase, job_for, job_messages, remove_message, take_template, template_in_limits,
    template_output_count, FactoryState, JobMessages, MAX_COINBASE_PREFIX,
};
use crate::frame::frame_of;
use crate::message::{
    lemma_job_payload_len, lemma_le_bytes_len, Mining, MiningView, MAX_BYTES, MAX_MERKLE_PATH,
};
use crate::template::{NewTemplate, NewTemplateView};

verus! {

/// The jobs that are still to be sent, and the downstreams, the first `next` of them already done
/// with.
pub struct JobRound {
    pub messages: JobMessages,
    pub ids: Vec<u32>,
    pub next: usize,
}

/// What the task waits for.
pub enum TemplateTask {
    /// For a template.
    Receiving,
    /// For the jobs that are made of it.
    Making,
    /// For the downstreams of the pool.
    Listing(JobMessages),
    /// For a job to be sent to a downstream.
    Sending(JobRound),
    /// For the pool to keep in mind that a template was processed.
    Marking,
    /// For the signal that all is done.
    Signalling,
    /// For an error to be reported.
    Reporting,
    /// For nothing any more.
    Stopped,
}

/// What has happened.
pub enum TemplateEvent {
    /// There is a new template.
    Received(NewTemplate),
    /// There are no more templates.
    Closed,
    /// The jobs that were made of the template, or an error.
    Made(Result<JobMessages, PoolError>),
    /// The downstreams of the pool, or an error.
    Listed(Result<Vec<u32>, PoolError>),
    /// The job was sent, or that failed.
    Delivered(Result<(), PoolError>),
    /// The pool keeps in mind that a template was processed, or that failed.
    Marked(Result<(), PoolError>),
    /// The signal was given, or that failed.
    Signalled(Result<(), PoolError>),
    /// The error was reported, and this is how to go on.
    Reported(ErrorBranch),
}

/// What is to be done.
#[derive(Debug)]
pub enum TemplateAction {
    /// Receive a template.
    Receive,
    /// Let the channel factory make jobs of a template.
    Make(NewTemplate),
    /// Ask the pool for its downstreams.
    List,
    /// Send a message to the downstream with this id.
    Deliver(u32, Mining),
    /// Let the pool keep in mind that a template was processed.
    Mark,
    /// Give the signal that all is done.
    Signal,
    /// Report an error.
    Report(PoolError),
    /// End the task.
    Finish,
}

/// What the task waits for, with the jobs and the downstreams that are left.
pub enum TemplateTaskView {
    Receiving,
    Making,
    Listing(Map<u32, MiningView>),
    Sending(Map<u32, MiningView>, Seq<u32>),
    Marking,
    Signalling,
    Reporting,
    Stopped,
}

/// What is to be done, with the content of a message in place of the message.
pub enum TemplateActionView {
    Receive,
    Make(NewTemplate),
    List,
    Deliver(u32, MiningView),
    Mark,
    Signal,
    Report(PoolError),
    Finish,
}

impl JobRound {
    /// What is sent is jobs, and no more downstreams are done with than there are.
    pub open spec fn wf(self) -> bool {
        &&& self.next <= self.ids@.len()
        &&& are_jobs(job_messages(self.messages))
    }

    /// The downstreams that are left.
    pub open spec fn left(self) -> Seq<u32> {
        self.ids@.skip(self.next as int)
    }
}

impl View for TemplateTask {
    type V = TemplateTaskView;

    open spec fn view(&self) -> TemplateTaskView {
        match *self {
            TemplateTask::Receiving => TemplateTaskView::Receiving,
            TemplateTask::Making => TemplateTaskView::Making,
            TemplateTask::Listing(messages) => {
                TemplateTaskView::Listing(job_messages(messages))
            },
            TemplateTask::Sending(round) => {
                TemplateTaskView::Sending(job_messages(round.messages), round.left())
            },
            TemplateTask::Marking => TemplateTaskView::Marking,
            TemplateTask::Signalling => TemplateTaskView::Signalling,
            TemplateTask::Reporting => TemplateTaskView::Reporting,
            TemplateTask::Stopped => TemplateTaskView::Stopped,
        }
    }
}

impl View for TemplateAction {
    type V = TemplateActionView;

    open spec fn view(&self) -> TemplateActionView {
        match *self {
            TemplateAction::Receive => TemplateActionView::Receive,
            TemplateAction::Make(template) => TemplateActionView::Make(template),
            TemplateAction::List => TemplateActionView::List,
            TemplateAction::Deliver(id, message) => TemplateActionView::Deliver(id, message@),
            TemplateAction::Mark => TemplateActionView::Mark,
            TemplateAction::Signal => TemplateActionView::Signal,
            TemplateAction::Report(error) => TemplateActionView::Report(error),
            TemplateAction::Finish => TemplateActionView::Finish,
        }
    }
}

/// The next downstream for which there is a job gets it; after the last, the pool is to keep in
/// mind that a template was processed.
pub open spec fn send_next(messages: Map<u32, MiningView>, left: Seq<u32>) -> (
    TemplateTaskView,
    TemplateActionView,
)
    decreases left.len(),
{
    if left.len() == 0 {
        (TemplateTaskView::Marking, TemplateActionView::Mark)
    } else if messages.dom().contains(left[0]) {
        (
            TemplateTaskView::Sending(messages.remove(left[0]), left.skip(1)),
            TemplateActionView::Deliver(left[0], messages[left[0]]),
        )
    } else {
        send_next(messages, left.skip(1))
    }
}

/// The event is one that the task waits for; what was made of a template is jobs.
pub open spec fn expects(task: TemplateTaskView, event: TemplateEvent) -> bool {
    match event {
        TemplateEvent::Received(_) => task is Receiving,
        TemplateEvent::Closed => task is Receiving,
        TemplateEvent::Made(Ok(messages)) => task is Making && are_jobs(job_messages(messages)),
        TemplateEvent::Made(Err(_)) => task is Making,
        TemplateEvent::Listed(_) => task is Listing,
        TemplateEvent::Delivered(_) => task is Sending,
        TemplateEvent::Marked(_) => task is Marking,
        TemplateEvent::Signalled(_) => task is Signalling,
        TemplateEvent::Reported(_) => task is Reporting,
    }
}

/// What is to be done after an event, and what the task then waits for. An error is reported, and
/// then the task ends or waits for the next template; a job that could not be sent does not keep
/// the other downstreams from theirs.
pub open spec fn transition(task: TemplateTaskView, event: TemplateEvent) -> (
    TemplateTaskView,
    TemplateActionView,
) {
    match (task, event) {
        (TemplateTaskView::Receiving, TemplateEvent::Received(template)) => (
            TemplateTaskView::Making,
            TemplateActionView::Make(template),
        ),
        (TemplateTaskView::Receiving, TemplateEvent::Closed) => (
            TemplateTaskView::Stopped,
            TemplateActionView::Finish,
        ),
        (TemplateTaskView::Making, TemplateEvent::Made(Ok(messages))) => (
            TemplateTaskView::Listing(job_messages(messages)),
            TemplateActionView::List,
        ),
        (TemplateTaskView::Listing(messages), TemplateEvent::Listed(Ok(ids))) => send_next(
            messages,
            ids@,
        ),
        (TemplateTaskView::Sending(messages, left), TemplateEvent::Delivered(_)) => send_next(
            messages,
            left,
        ),
        (TemplateTaskView::Marking, TemplateEvent::Marked(Ok(_))) => (
            TemplateTaskView::Signalling,
            TemplateActionView::Signal,
        ),
        (TemplateTaskView::Signalling, TemplateEvent::Signalled(Ok(_))) => (
            TemplateTaskView::Receiving,
            TemplateActionView::Receive,
        ),
        (TemplateTaskView::Making, TemplateEvent::Made(Err(error))) => (
            TemplateTaskView::Reporting,
            TemplateActionView::Report(error),
        ),
        (TemplateTaskView::Listing(_), TemplateEvent::Listed(Err(error))) => (
            TemplateTaskView::Reporting,
            TemplateActionView::Report(error),
        ),
        (TemplateTaskView::Marking, TemplateEvent::Marked(Err(error))) => (
            TemplateTaskView::Reporting,
            TemplateActionView::Report(error),
        ),
        (TemplateTaskView::Signalling, TemplateEvent::Signalled(Err(error))) => (
            TemplateTaskView::Reporting,
            TemplateActionView::Report(error),
        ),
        (TemplateTaskView::Reporting, TemplateEvent::Reported(ErrorBranch::Break)) => (
            TemplateTaskView::Stopped,
            TemplateActionView::Finish,
        ),
        (TemplateTaskView::Reporting, TemplateEvent::Reported(ErrorBranch::Continue)) => (
            TemplateTaskView::Receiving,
            TemplateActionView::Receive,
        ),
        _ => (TemplateTaskView::Stopped, TemplateActionView::Finish),
    }
}

impl JobRound {
    /// Sends the next downstream its job, or goes on after the last.
    fn send_next(self) -> (next: (TemplateTask, TemplateAction))
        requires
            self.wf(),
        ensures
            next.0.wf(),
            (next.0@, next.1@) == send_next(job_messages(self.messages), self.left()),
            match next.1 {
                TemplateAction::Deliver(id, message) => {
                    &&& self.left().contains(id)
                    &&& job_messages(self.messages).dom().contains(id)
                    &&& message@ == job_messages(self.messages)[id]
                    &&& next.0 matches TemplateTask::Sending(rest)
                    &&& rest.ids == self.ids
                    &&& self.next < rest.next
                    &&& self.ids@[rest.next - 1] == id
                    &&& forall|i: int|
                        self.next <= i < rest.next - 1 ==> !job_messages(
                            self.messages,
                        ).dom().contains(#[trigger] self.ids@[i])
                    &&& job_messages(rest.messages) == job_messages(self.messages).remove(id)
                },
                TemplateAction::Mark => {
                    &&& next.0 is Marking
                    &&& forall|i: int|
                        self.next <= i < self.ids@.len() ==> !job_messages(
                            self.messages,
                        ).dom().contains(#[trigger] self.ids@[i])
                },
                _ => false,
            },
    {
        let mut round = self;
        while round.next < round.ids.len()
            invariant
                round.wf(),
                send_next(job_messages(round.messages), round.left()) == send_next(
                    job_messages(self.messages),
                    self.left(),
                ),
                round.ids == self.ids,
                self.next <= round.next,
                job_messages(round.messages) == job_messages(self.messages),
                forall|i: int|
                    self.next <= i < round.next ==> !job_messages(self.messages).dom().contains(
                        #[trigger] self.ids@[i],
                    ),
            decreases round.ids@.len() - round.next,
        {
            let ghost before = round;
            let id: u32 = round.ids[round.next];
            let message = remove_message(&mut round.messages, id);
            round.next = round.next + 1;
            assert(round.left() =~= before.left().skip(1));
            match message {
                Some(message) => {
                    assert(self.left()[before.next - self.next] == id);
                    return (TemplateTask::Sending(round), TemplateAction::Deliver(id, message));
                },
                None => {
                    assert(job_messages(round.messages) =~= job_messages(before.messages));
                },
            }
        }
        (TemplateTask::Marking, TemplateAction::Mark)
    }
}

impl TemplateTask {
    /// The round that the task is in, or is about to begin, if any, is well formed.
    pub open spec fn wf(self) -> bool {
        match self {
            TemplateTask::Listing(messages) => are_jobs(job_messages(messages)),
            TemplateTask::Sending(round) => round.wf(),
            _ => true,
        }
    }

    /// The task at its beginning, when it waits for a template.
    pub fn new() -> (task: TemplateTask)
        ensures
            task.wf(),
            task@ is Receiving,
    {
        TemplateTask::Receiving
    }

    /// What is to be done after an event, and the task then.
    pub fn step(self, event: TemplateEvent) -> (next: (TemplateTask, TemplateAction))
        requires
            self.wf(),
            expects(self@, event),
        ensures
            next.0.wf(),
            (next.0@, next.1@) == transition(self@, event),
            match (self, event) {
                (TemplateTask::Receiving, TemplateEvent::Received(template)) => {
                    &&& next.0 is Making
                    &&& next.1 == TemplateAction::Make(template)
                },
                (TemplateTask::Receiving, TemplateEvent::Closed) => {
                    next.0 is Stopped && next.1 is Finish
                },
                (TemplateTask::Making, TemplateEvent::Made(Ok(messages))) => {
                    next.0 == TemplateTask::Listing(messages) && next.1 is List
                },
                (TemplateTask::Listing(messages), TemplateEvent::Listed(Ok(ids))) => {
                    match next.1 {
                        TemplateAction::Deliver(id, message) => {
                            &&& ids@.contains(id)
                            &&& job_messages(messages).dom().contains(id)
                            &&& message@ == job_messages(messages)[id]
                        },
                        TemplateAction::Mark => {
                            &&& next.0 is Marking
                            &&& forall|i: int|
                                0 <= i < ids@.len() ==> !job_messages(messages).dom().contains(
                                    #[trigger] ids@[i],
                                )
                        },
                        _ => false,
                    }
                },
                (TemplateTask::Sending(round), TemplateEvent::Delivered(_)) => {
                    match next.1 {
                        TemplateAction::Deliver(id, message) => {
                            &&& round.left().contains(id)
                            &&& job_messages(round.messages).dom().contains(id)
                            &&& message@ == job_messages(round.messages)[id]
                        },
                        TemplateAction::Mark => {
                            &&& next.0 is Marking
                            &&& forall|i: int|
                                round.next <= i < round.ids@.len() ==> !job_messages(
                                    round.messages,
                                ).dom().contains(#[trigger] round.ids@[i])
                        },
                        _ => false,
                    }
                },
                (TemplateTask::Marking, TemplateEvent::Marked(Ok(_))) => {
                    next.0 is Signalling && next.1 is Signal
                },
                (TemplateTask::Signalling, TemplateEvent::Signalled(Ok(_))) => {
                    next.0 is Receiving && next.1 is Receive
                },
                (_, TemplateEvent::Made(Err(error))) => {
                    next.0 is Reporting && next.1 == TemplateAction::Report(error)
                },
                (_, TemplateEvent::Listed(Err(error))) => {
                    next.0 is Reporting && next.1 == TemplateAction::Report(error)
                },
                (_, TemplateEvent::Marked(Err(error))) => {
                    next.0 is Reporting && next.1 == TemplateAction::Report(error)
                },
                (_, TemplateEvent::Signalled(Err(error))) => {
                    next.0 is Reporting && next.1 == TemplateAction::Report(error)
                },
                (_, TemplateEvent::Reported(ErrorBranch::Break)) => {
                    next.0 is Stopped && next.1 is Finish
                },
                (_, TemplateEvent::Reported(ErrorBranch::Continue)) => {
                    next.0 is Receiving && next.1 is Receive
                },
                _ => false,
            },
    {
        match (self, event) {
            (TemplateTask::Receiving, TemplateEvent::Received(template)) => (
                TemplateTask::Making,
                TemplateAction::Make(template),
            ),
            (TemplateTask::Making, TemplateEvent::Made(Ok(messages))) => (
                TemplateTask::Listing(messages),
                TemplateAction::List,
            ),
            (TemplateTask::Listing(messages), TemplateEvent::Listed(Ok(ids))) => {
                let round = JobRound { messages, ids, next: 0 };
                assert(round.left() =~= ids@);
                round.send_next()
            },
            (TemplateTask::Sending(round), TemplateEvent::Delivered(_)) => round.send_next(),
            (TemplateTask::Marking, TemplateEvent::Marked(Ok(_))) => (
                TemplateTask::Signalling,
                TemplateAction::Signal,
            ),
            (TemplateTask::Signalling, TemplateEvent::Signalled(Ok(_))) => (
                TemplateTask::Receiving,
                TemplateAction::Receive,
            ),
            (TemplateTask::Making, TemplateEvent::Made(Err(error))) => (
                TemplateTask::Reporting,
                TemplateAction::Report(error),
            ),
            (TemplateTask::Listing(_), TemplateEvent::Listed(Err(error))) => (
                TemplateTask::Reporting,
                TemplateAction::Report(error),
            ),
            (TemplateTask::Marking, TemplateEvent::Marked(Err(error))) => (
                TemplateTask::Reporting,
                TemplateAction::Report(error),
            ),
            (TemplateTask::Signalling, TemplateEvent::Signalled(Err(error))) => (
                TemplateTask::Reporting,
                TemplateAction::Report(error),
            ),
            (TemplateTask::Reporting, TemplateEvent::Reported(ErrorBranch::Continue)) => (
                TemplateTask::Receiving,
                TemplateAction::Receive,
            ),
            _ => (TemplateTask::Stopped, TemplateAction::Finish),
        }
    }
}

/// The jobs that the channel factory makes of a template: one for each channel or group. It fails
/// where the factory refuses the template, which it keeps in mind all the same.
pub fn make_jobs(channel_factory: &mut PoolChannelFactory, template: &NewTemplate) -> (result:
    Result<JobMessages, PoolError>)
    requires
        factory_state(*old(channel_factory)).has_room(),
        factory_state(*old(channel_factory)).has_output(template@),
        template_in_limits(template@),
    ensures
        match result {
            Ok(messages) => {
                &&& factory_state(*old(channel_factory)).accepts(template@)
                &&& factory_state(*old(channel_factory)).jobs_fit(template@)
                &&& are_jobs(job_messages(messages))
                &&& are_jobs_of(
                    job_messages(messages),
                    factory_state(*old(channel_factory)),
                    template@,
                )
                &&& factory_state(*final(channel_factory)) == factory_state(
                    *old(channel_factory),
                ).with_template(template.template_id).with_channel_jobs()
            },
            Err(error) => {
                &&& error is RolesLogic
                &&& !factory_state(*old(channel_factory)).accepts(template@)
                &&& factory_state(*final(channel_factory)) == factory_state(
                    *old(channel_factory),
                ).with_template(template.template_id)
            },
        },
{
    made_jobs(take_template(channel_factory, template))
}

/// The jobs that the channel factory made. Where it failed, the error is that of the factory.
pub fn made_jobs(made: Result<JobMessages, roles_logic_sv2::errors::Error>) -> (result: Result<
    JobMessages,
    PoolError,
>)
    ensures
        match (result, made) {
            (Ok(messages), Ok(jobs)) => messages == jobs,
            (Err(PoolError::RolesLogic(error)), Err(cause)) => error == cause,
            _ => false,
        },
{
    match made {
        Ok(messages) => Ok(messages),
        Err(error) => Err(PoolError::RolesLogic(error)),
    }
}

/// Whether the channel factory of a pool with so many outputs can take a template: its fields are
/// within their limits, and there is an output.
pub fn can_make_jobs(template: &NewTemplate, pool_outputs: usize) -> (can: bool)
    ensures
        can == (template_in_limits(template@) && pool_outputs + template_output_count(
            template.coinbase_tx_outputs@,
        ) > 0),
{
    template.template_id < u64::MAX && template.coinbase_prefix.len() > 2
        && template.coinbase_prefix.len() <= MAX_COINBASE_PREFIX
        && template.coinbase_tx_outputs.len() <= MAX_BYTES && template.merkle_path.len()
        <= MAX_MERKLE_PATH && (pool_outputs > 0 || count_template_outputs(
        &template.coinbase_tx_outputs,
    ) > 0)
}

/// As [`make_jobs`], for a pool with so many outputs; none, and nothing done, for a template that
/// its channel factory cannot take.
pub fn try_make_jobs(
    channel_factory: &mut PoolChannelFactory,
    template: &NewTemplate,
    pool_outputs: usize,
) -> (result: Option<Result<JobMessages, PoolError>>)
    requires
        factory_state(*old(channel_factory)).has_room(),
        factory_state(*old(channel_factory)).outputs.len() == pool_outputs,
    ensures
        match result {
            None => {
                &&& !(template_in_limits(template@) && factory_state(
                    *old(channel_factory),
                ).has_output(template@))
                &&& *final(channel_factory) == *old(channel_factory)
            },
            Some(result) => {
                &&& template_in_limits(template@)
                &&& factory_state(*old(channel_factory)).has_output(template@)
                &&& match result {
                    Ok(messages) => {
                        &&& factory_state(*old(channel_factory)).accepts(template@)
                        &&& factory_state(*old(channel_factory)).jobs_fit(template@)
                        &&& are_jobs(job_messages(messages))
                        &&& are_jobs_of(
                            job_messages(messages),
                            factory_state(*old(channel_factory)),
                            template@,
                        )
                        &&& factory_state(*final(channel_factory)) == factory_state(
                            *old(channel_factory),
                        ).with_template(template.template_id).with_channel_jobs()
                    },
                    Err(error) => {
                        &&& error is RolesLogic
                        &&& !factory_state(*old(channel_factory)).accepts(template@)
                        &&& factory_state(*final(channel_factory)) == factory_state(
                            *old(channel_factory),
                        ).with_template(template.template_id)
                    },
                }
            },
        },
{
    if can_make_jobs(template, pool_outputs) {
        Some(make_jobs(channel_factory, template))
    } else {
        None
    }
}

/// The jobs that are sent in a round from an action on, where `results` tells how each send goes,
/// and the action that follows the last of them.
pub open spec fn round_from(
    task: TemplateTaskView,
    action: TemplateActionView,
    results: Seq<Result<(), PoolError>>,
) -> (Seq<(u32, MiningView)>, TemplateActionView)
    decreases results.len(),
{
    match action {
        TemplateActionView::Deliver(id, message) => if results.len() == 0 {
            (seq![(id, message)], action)
        } else {
            let (next_task, next_action) = transition(
                task,
                TemplateEvent::Delivered(results[0]),
            );
            let (rest, end) = round_from(next_task, next_action, results.skip(1));
            (seq![(id, message)] + rest, end)
        },
        _ => (Seq::empty(), action),
    }
}

/// The first action of a round: a template has arrived, jobs were made of it, and the downstreams
/// of the pool are found.
pub open spec fn begin_round(template: NewTemplate, messages: JobMessages, ids: Vec<u32>) -> (
    TemplateTaskView,
    TemplateActionView,
) {
    let making = transition(TemplateTaskView::Receiving, TemplateEvent::Received(template)).0;
    let listing = transition(making, TemplateEvent::Made(Ok(messages))).0;
    transition(listing, TemplateEvent::Listed(Ok(ids)))
}

/// Each of the downstreams for which there is a job is sent that job, once, and nothing else is
/// sent.
pub open spec fn sends_each_its_own(
    sent: Seq<(u32, MiningView)>,
    messages: Map<u32, MiningView>,
    ids: Seq<u32>,
) -> bool {
    &&& forall|i: int|
        0 <= i < sent.len() ==> {
            &&& ids.contains((#[trigger] sent[i]).0)
            &&& messages.dom().contains(sent[i].0)
            &&& sent[i].1 == messages[sent[i].0]
        }
    &&& forall|id: u32|
        ids.contains(id) && #[trigger] messages.dom().contains(id) ==> sent.contains(
            (id, messages[id]),
        )
    &&& forall|i: int, j: int|
        0 <= i < j < sent.len() ==> (#[trigger] sent[i]).0 != (#[trigger] sent[j]).0
}

/// However the sends go, each downstream of the pool for which there is a job is sent that job
/// once, nothing else is sent, and the pool is then to keep in mind that a template was processed.
pub proof fn lemma_each_gets_its_job(
    template: NewTemplate,
    messages: JobMessages,
    ids: Vec<u32>,
    results: Seq<Result<(), PoolError>>,
)
    requires
        ids@.no_duplicates(),
        results.len() >= ids@.len(),
    ensures
        ({
            let (task, action) = begin_round(template, messages, ids);
            let (sent, end) = round_from(task, action, results);
            &&& sends_each_its_own(sent, job_messages(messages), ids@)
            &&& end == TemplateActionView::Mark
            &&& forall|i: int|
                0 <= i < sent.len() ==> {
                    &&& ids@.contains((#[trigger] sent[i]).0)
                    &&& job_messages(messages).dom().contains(sent[i].0)
                    &&& sent[i].1 == job_messages(messages)[sent[i].0]
                }
            &&& forall|id: u32|
                ids@.contains(id) && #[trigger] job_messages(messages).dom().contains(id)
                    ==> sent.contains((id, job_messages(messages)[id]))
            &&& forall|i: int, j: int|
                0 <= i < j < sent.len() ==> (#[trigger] sent[i]).0 != (#[trigger] sent[j]).0
        }),
{
    lemma_round_from(job_messages(messages), ids@, results);
}

proof fn lemma_round_from(
    messages: Map<u32, MiningView>,
    left: Seq<u32>,
    results: Seq<Result<(), PoolError>>,
)
    requires
        left.no_duplicates(),
        results.len() >= left.len(),
    ensures
        ({
            let (task, action) = send_next(messages, left);
            let (sent, end) = round_from(task, action, results);
            sends_each_its_own(sent, messages, left) && end == TemplateActionView::Mark
        }),
    decreases left.len(),
{
    let (task, action) = send_next(messages, left);
    let (sent, end) = round_from(task, action, results);
    if left.len() > 0 {
        let first = left[0];
        let rest = left.skip(1);
        assert(!rest.contains(first));
        assert forall|id: u32| left.contains(id) <==> id == first || rest.contains(id) by {
            if left.contains(id) && id != first {
                let i = left.index_of(id);
                assert(rest[i - 1] == id);
            }
            if rest.contains(id) {
                let i = rest.index_of(id);
                assert(left[i + 1] == id);
            }
            assert(left[0] == first);
        }
        if messages.dom().contains(first) {
            let others = messages.remove(first);
            lemma_round_from(others, rest, results.skip(1));
            let (next_task, next_action) = send_next(others, rest);
            let (later, later_end) = round_from(next_task, next_action, results.skip(1));
            assert(sent == seq![(first, messages[first])] + later);
            assert forall|i: int| 0 <= i < sent.len() implies {
                &&& left.contains((#[trigger] sent[i]).0)
                &&& messages.dom().contains(sent[i].0)
                &&& sent[i].1 == messages[sent[i].0]
            } by {
                if i > 0 {
                    assert(sent[i] == later[i - 1]);
                }
            }
            assert forall|id: u32|
                left.contains(id) && #[trigger] messages.dom().contains(id) implies sent.contains(
                (id, messages[id]),
            ) by {
                if id == first {
                    assert(sent[0] == (id, messages[id]));
                } else {
                    assert(others.dom().contains(id));
                    let i = later.index_of((id, messages[id]));
                    assert(sent[i + 1] == (id, messages[id]));
                }
            }
            assert forall|i: int, j: int| 0 <= i < j < sent.len() implies (#[trigger] sent[i]).0
                != (#[trigger] sent[j]).0 by {
                assert(sent[j] == later[j - 1]);
                if i > 0 {
                    assert(sent[i] == later[i - 1]);
                }
            }
        } else {
            lemma_round_from(messages, rest, results);
        }
    }
}

/// After a template that the channel factory accepts, each thing that a downstream is sent is the
/// job that was made of the template that arrived, for its own channel or group: an extended job
/// with the fields of that template under the id that was given to it, or a standard job with an
/// id of its own; all with one time, which is absent exactly where that template is for a later
/// block. The factory makes the jobs of `made_of`, which is what the task handed to it.
pub proof fn lemma_jobs_are_of_template(
    state: FactoryState,
    template: NewTemplate,
    made_of: NewTemplate,
    messages: JobMessages,
    ids: Vec<u32>,
    results: Seq<Result<(), PoolError>>,
)
    requires
        transition(TemplateTaskView::Receiving, TemplateEvent::Received(template)).1
            == TemplateActionView::Make(made_of),
        are_jobs_of(job_messages(messages), state, made_of@),
        ids@.no_duplicates(),
        results.len() >= ids@.len(),
    ensures
        ({
            let (task, action) = begin_round(template, messages, ids);
            let sent = round_from(task, action, results).0;
            exists|min_ntime: Option<u32>, job_ids: Map<u32, u32>|
                #![trigger dates_and_numbers(state, template@, min_ntime, job_ids)]
                {
                    &&& dates_and_numbers(state, template@, min_ntime, job_ids)
                    &&& min_ntime is None <==> template.future_template
                    &&& forall|i: int|
                        0 <= i < sent.len() ==> (#[trigger] sent[i]).1 == job_for(
                            state,
                            template@,
                            min_ntime,
                            job_ids,
                            sent[i].0,
                        )
                    &&& forall|i: int|
                        0 <= i < sent.len() && state.extended.contains(
                            (#[trigger] sent[i]).0,
                        ) ==> {
                            &&& sent[i].1 matches MiningView::NewExtendedMiningJob(job)
                            &&& job.channel_id == sent[i].0
                            &&& job.job_id == (state.job_count + 1) as u32
                            &&& job.min_ntime == min_ntime
                            &&& job.version == template.version
                            &&& job.version_rolling_allowed
                            &&& job.merkle_path == template.merkle_path@
                            &&& job_coinbase(
                                template@,
                                state.outputs,
                                state.signature,
                                state.extranonce_len,
                            ) matches Some((prefix, suffix)) ==> job.coinbase_tx_prefix == prefix
                                && job.coinbase_tx_suffix == suffix
                        }
                    &&& forall|i: int|
                        0 <= i < sent.len() && !state.extended.contains(
                            (#[trigger] sent[i]).0,
                        ) ==> {
                            &&& state.standard.dom().contains(sent[i].0)
                            &&& sent[i].1 matches MiningView::Other(job)
                            &&& job.message_type == 0x15
                            &&& job.channel_bit
                        }
                }
        }),
{
    lemma_each_gets_its_job(template, messages, ids, results);
    assert(made_of == template);
    let jobs = job_messages(messages);
    let (min_ntime, job_ids) = choose|min_ntime: Option<u32>, job_ids: Map<u32, u32>|
        are_jobs_with(jobs, state, template@, min_ntime, job_ids);
    assert(dates_and_numbers(state, template@, min_ntime, job_ids));
    let (task, action) = begin_round(template, messages, ids);
    let sent = round_from(task, action, results).0;
    assert forall|i: int| 0 <= i < sent.len() implies (#[trigger] sent[i]).1 == job_for(
        state,
        template@,
        min_ntime,
        job_ids,
        sent[i].0,
    ) && (state.standard.dom().contains(sent[i].0) || state.extended.contains(sent[i].0)) by {
        assert(jobs.dom().contains(sent[i].0));
    }
}

/// What the channel factory is asked to make jobs of is the template that arrived, field for
/// field.
pub proof fn lemma_jobs_are_made_of_received(template: NewTemplate)
    ensures
        ({
            let (task, action) = transition(
                TemplateTaskView::Receiving,
                TemplateEvent::Received(template),
            );
            &&& task is Making
            &&& action matches TemplateActionView::Make(asked)
            &&& asked.template_id == template.template_id
            &&& asked.future_template == template.future_template
            &&& asked.version == template.version
            &&& asked.coinbase_tx_version == template.coinbase_tx_version
            &&& asked.coinbase_prefix == template.coinbase_prefix
            &&& asked.coinbase_tx_input_sequence == template.coinbase_tx_input_sequence
            &&& asked.coinbase_tx_value_remaining == template.coinbase_tx_value_remaining
            &&& asked.coinbase_tx_outputs_count == template.coinbase_tx_outputs_count
            &&& asked.coinbase_tx_outputs == template.coinbase_tx_outputs
            &&& asked.coinbase_tx_locktime == template.coinbase_tx_locktime
            &&& asked.merkle_path == template.merkle_path
        }),
{
}

/// What was made is what is sent: the round begins with the jobs that the factory made, for the
/// downstreams that were found.
pub proof fn lemma_round_is_of_made(messages: JobMessages, ids: Vec<u32>)
    ensures
        ({
            let (task, action) = transition(
                TemplateTaskView::Making,
                TemplateEvent::Made(Ok(messages)),
            );
            &&& task matches TemplateTaskView::Listing(jobs)
            &&& jobs == job_messages(messages)
            &&& action is List
        }),
{
}

/// In a round the first of the downstreams that are left gets its job if there is one, and that
/// job and that downstream are then done with; if there is none, it is passed over; and where none
/// is left, the pool is to keep in mind that a template was processed. So it is at the beginning
/// of the round, and after each send, whether it failed or not.
pub proof fn lemma_first_left_gets_its_job(
    messages: Map<u32, MiningView>,
    left: Seq<u32>,
    ids: Vec<u32>,
    rest: Vec<u32>,
    sent: Result<(), PoolError>,
)
    requires
        ids@ == left,
        left.len() > 0 ==> rest@ == left.skip(1),
    ensures
        ({
            let begun = transition(
                TemplateTaskView::Listing(messages),
                TemplateEvent::Listed(Ok(ids)),
            );
            let later = transition(
                TemplateTaskView::Sending(messages, left),
                TemplateEvent::Delivered(sent),
            );
            &&& begun == later
            &&& left.len() == 0 ==> begun.0 is Marking && begun.1 is Mark
            &&& left.len() > 0 && messages.dom().contains(left[0]) ==> {
                &&& begun.1 matches TemplateActionView::Deliver(id, message)
                &&& id == left[0]
                &&& message == messages[left[0]]
                &&& begun.0 matches TemplateTaskView::Sending(others, still_left)
                &&& others == messages.remove(left[0])
                &&& still_left.len() == left.len() - 1
                &&& forall|i: int|
                    0 <= i < still_left.len() ==> #[trigger] still_left[i] == left[i + 1]
            }
            &&& left.len() > 0 && !messages.dom().contains(left[0]) ==> begun == transition(
                TemplateTaskView::Listing(messages),
                TemplateEvent::Listed(Ok(rest)),
            )
        }),
{
}

/// What the task does around its rounds: it ends where there are no more templates, lets the pool
/// keep in mind that one was processed before it gives the signal, waits for the next one after
/// the signal, and reports each error that came up outside of a send, after which it ends or waits
/// for the next one as the report says.
pub proof fn lemma_around_rounds(messages: Map<u32, MiningView>, error: PoolError)
    ensures
        transition(TemplateTaskView::Receiving, TemplateEvent::Closed).0 is Stopped,
        transition(TemplateTaskView::Receiving, TemplateEvent::Closed).1 is Finish,
        transition(TemplateTaskView::Marking, TemplateEvent::Marked(Ok(()))).0 is Signalling,
        transition(TemplateTaskView::Marking, TemplateEvent::Marked(Ok(()))).1 is Signal,
        transition(TemplateTaskView::Signalling, TemplateEvent::Signalled(Ok(()))).0 is Receiving,
        transition(TemplateTaskView::Signalling, TemplateEvent::Signalled(Ok(()))).1 is Receive,
        transition(TemplateTaskView::Making, TemplateEvent::Made(Err(error))) == (
            TemplateTaskView::Reporting,
            TemplateActionView::Report(error),
        ),
        transition(TemplateTaskView::Listing(messages), TemplateEvent::Listed(Err(error))) == (
            TemplateTaskView::Reporting,
            TemplateActionView::Report(error),
        ),
        transition(TemplateTaskView::Marking, TemplateEvent::Marked(Err(error))) == (
            TemplateTaskView::Reporting,
            TemplateActionView::Report(error),
        ),
        transition(TemplateTaskView::Signalling, TemplateEvent::Signalled(Err(error))) == (
            TemplateTaskView::Reporting,
            TemplateActionView::Report(error),
        ),
        transition(TemplateTaskView::Reporting, TemplateEvent::Reported(ErrorBranch::Break)).0
            is Stopped,
        transition(TemplateTaskView::Reporting, TemplateEvent::Reported(ErrorBranch::Break)).1
            is Finish,
        transition(TemplateTaskView::Reporting, TemplateEvent::Reported(ErrorBranch::Continue)).0
            is Receiving,
        transition(TemplateTaskView::Reporting, TemplateEvent::Reported(ErrorBranch::Continue)).1
            is Receive,
{
}

/// What the task waits for is told by its kind, with the jobs that it holds; of a round, by the
/// downstreams that come after those already done with. What it asks for is told by its kind, with
/// what it hands over.
pub proof fn lemma_task_content(task: TemplateTask, action: TemplateAction)
    requires
        task.wf(),
    ensures
        match task {
            TemplateTask::Receiving => task@ is Receiving,
            TemplateTask::Making => task@ is Making,
            TemplateTask::Listing(messages) => {
                task@ matches TemplateTaskView::Listing(jobs) && jobs == job_messages(messages)
            },
            TemplateTask::Sending(round) => {
                &&& task@ matches TemplateTaskView::Sending(jobs, left)
                &&& jobs == job_messages(round.messages)
                &&& left == round.ids@.subrange(round.next as int, round.ids@.len() as int)
            },
            TemplateTask::Marking => task@ is Marking,
            TemplateTask::Signalling => task@ is Signalling,
            TemplateTask::Reporting => task@ is Reporting,
            TemplateTask::Stopped => task@ is Stopped,
        },
        match action {
            TemplateAction::Receive => action@ is Receive,
            TemplateAction::Make(template) => {
                action@ matches TemplateActionView::Make(asked) && asked == template
            },
            TemplateAction::List => action@ is List,
            TemplateAction::Deliver(id, message) => {
                action@ matches TemplateActionView::Deliver(to, content) && to == id && content
                    == message@
            },
            TemplateAction::Mark => action@ is Mark,
            TemplateAction::Signal => action@ is Signal,
            TemplateAction::Report(error) => {
                action@ matches TemplateActionView::Report(reported) && reported == error
            },
            TemplateAction::Finish => action@ is Finish,
        },
{
}

/// Each event is waited for in one place; what was made of a template must be jobs; and a task
/// that has stopped waits for nothing.
pub proof fn lemma_what_is_waited_for(task: TemplateTaskView, event: TemplateEvent)
    ensures
        expects(task, event) <==> match task {
            TemplateTaskView::Receiving => event is Received || event is Closed,
            TemplateTaskView::Making => event is Made && (event matches TemplateEvent::Made(
                Ok(messages),
            ) ==> are_jobs(job_messages(messages))),
            TemplateTaskView::Listing(_) => event is Listed,
            TemplateTaskView::Sending(_, _) => event is Delivered,
            TemplateTaskView::Marking => event is Marked,
            TemplateTaskView::Signalling => event is Signalled,
            TemplateTaskView::Reporting => event is Reported,
            TemplateTaskView::Stopped => false,
        },
{
}

/// Each job that a pool makes of a template can be sent: it has a frame, an extended job after its
/// segwit data is taken out.
pub proof fn lemma_jobs_have_frames(
    state: FactoryState,
    template: NewTemplateView,
    min_ntime: Option<u32>,
    job_ids: Map<u32, u32>,
    id: u32,
)
    requires
        state.extranonce_len == EXTRANONCE_LEN,
        state.jobs_fit(template),
        template_in_limits(template),
        state.standard.dom().contains(id) || state.extended.contains(id),
    ensures
        ({
            let job = job_for(state, template, min_ntime, job_ids, id);
            outgoing(job) matches Some(sent) && has_frame(job, frame_of(sent.encoded()))
        }),
{
    let job = job_for(state, template, min_ntime, job_ids, id);
    if state.extended.contains(id) {
        if let Some(MiningView::NewExtendedMiningJob(sent)) = outgoing(job) {
            lemma_job_payload_len(sent);
        }
    } else {
        lemma_le_bytes_len(id as nat, 4);
        lemma_le_bytes_len(job_ids[id] as nat, 4);
        if let Some(time) = min_ntime {
            lemma_le_bytes_len(time as nat, 4);
        }
        lemma_le_bytes_len(template.version as nat, 4);
    }
}

/// The task ends only where there are no more templates, or where the report of an error ends it.
pub proof fn lemma_stops_only_so(task: TemplateTaskView, event: TemplateEvent)
    requires
        expects(task, event),
    ensures
        transition(task, event).0 is Stopped <==> event is Closed || event
            == TemplateEvent::Reported(ErrorBranch::Break),
        transition(task, event).0 is Stopped <==> transition(task, event).1 is Finish,
{
    if let (TemplateTaskView::Listing(messages), TemplateEvent::Listed(Ok(ids))) = (task, event) {
        lemma_send_next_goes_on(messages, ids@);
    }
    if let TemplateTaskView::Sending(messages, left) = task {
        lemma_send_next_goes_on(messages, left);
    }
}

/// A round that has begun goes on with the next job, or is done with the downstreams.
pub proof fn lemma_send_next_goes_on(messages: Map<u32, MiningView>, left: Seq<u32>)
    ensures
        send_next(messages, left).0 is Sending || send_next(messages, left).0 is Marking,
        send_next(messages, left).1 is Deliver || send_next(messages, left).1 is Mark,
    decreases left.len(),
{
    if left.len() > 0 {
        lemma_send_next_goes_on(messages, left.skip(1));
    }
}

} // verus!
