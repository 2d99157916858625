//! The task that tells each downstream of a new prev hash.
use roles_logic_sv2::channel_logic::channel_factory::PoolChannelFactory;
use vstd::prelude::*;

use crate::error::{ErrorBranch, PoolError};
use crate::factory::{factory_state, take_prev_hash, FactoryState};
use crate::message::SetNewPrevHash;
use crate::template::NewPrevHash;

verus! {

/// A prev hash, and the job that was made for it.
#[derive(Clone, Copy, Debug)]
pub struct Announcement {
    pub prev_hash: NewPrevHash,
    pub job_id: u32,
}

/// The downstreams that are told of a prev hash, the first `next` of them already.
#[derive(Debug)]
pub struct Round {
    pub announcement: Announcement,
    pub ids: Vec<u32>,
    pub next: usize,
}

/// What the task waits for.
#[derive(Debug)]
pub enum PrevHashTask {
    /// For a prev hash.
    Receiving,
    /// For the pool to keep it in mind.
    Recording(NewPrevHash),
    /// For the job that was made for it.
    Locating(NewPrevHash),
    /// For the downstreams of the pool.
    Listing(Announcement),
    /// For a downstream to be told.
    Sending(Round),
    /// For the signal that all is done.
    Signalling,
    /// For an error to be reported.
    Reporting,
    /// For an error to be reported that came up while a downstream was told.
    ReportingSend(Round),
    /// For nothing any more.
    Stopped,
}

/// What has happened.
#[derive(Debug)]
pub enum PrevHashEvent {
    /// There is a new prev hash.
    Received(NewPrevHash),
    /// There are no more prev hashes.
    Closed,
    /// The pool keeps the prev hash in mind, or that failed.
    Recorded(Result<(), PoolError>),
    /// The id of the job that was made for it, or an error.
    Located(Result<u32, PoolError>),
    /// The downstreams of the pool, or an error.
    Listed(Result<Vec<u32>, PoolError>),
    /// The downstream was told, or that failed.
    Delivered(Result<(), PoolError>),
    /// The signal was given, or that failed.
    Signalled(Result<(), PoolError>),
    /// The error was reported, and this is how to go on.
    Reported(ErrorBranch),
}

/// What is to be done.
#[derive(Debug)]
pub enum PrevHashAction {
    /// Receive a prev hash.
    Receive,
    /// Let the pool keep in mind which template the prev hash referred to.
    Record(u64),
    /// Let the channel factory look for the job.
    Locate(NewPrevHash),
    /// Ask the pool for its downstreams.
    List,
    /// Send a message to the downstream with this id.
    Deliver(u32, SetNewPrevHash),
    /// Give the signal that all is done.
    Signal,
    /// Report an error.
    Report(PoolError),
    /// End the task.
    Finish,
}

/// What the task waits for, with the downstreams that are still to be told.
pub enum PrevHashTaskView {
    Receiving,
    Recording(NewPrevHash),
    Locating(NewPrevHash),
    Listing(Announcement),
    Sending(Announcement, Seq<u32>),
    Signalling,
    Reporting,
    ReportingSend(Announcement, Seq<u32>),
    Stopped,
}

impl Round {
    /// No more downstreams are told than there are.
    pub open spec fn wf(self) -> bool {
        self.next <= self.ids@.len()
    }

    /// The downstreams that are still to be told.
    pub open spec fn left(self) -> Seq<u32> {
        self.ids@.skip(self.next as int)
    }
}

impl View for PrevHashTask {
    type V = PrevHashTaskView;

    open spec fn view(&self) -> PrevHashTaskView {
        match *self {
            PrevHashTask::Receiving => PrevHashTaskView::Receiving,
            PrevHashTask::Recording(prev_hash) => PrevHashTaskView::Recording(prev_hash),
            PrevHashTask::Locating(prev_hash) => PrevHashTaskView::Locating(prev_hash),
            PrevHashTask::Listing(announcement) => PrevHashTaskView::Listing(announcement),
            PrevHashTask::Sending(round) => {
                PrevHashTaskView::Sending(round.announcement, round.left())
            },
            PrevHashTask::Signalling => PrevHashTaskView::Signalling,
            PrevHashTask::Reporting => PrevHashTaskView::Reporting,
            PrevHashTask::ReportingSend(round) => {
                PrevHashTaskView::ReportingSend(round.announcement, round.left())
            },
            PrevHashTask::Stopped => PrevHashTaskView::Stopped,
        }
    }
}

/// What the downstream with this id is told.
pub open spec fn message_for(announcement: Announcement, id: u32) -> SetNewPrevHash {
    SetNewPrevHash {
        channel_id: id,
        job_id: announcement.job_id,
        prev_hash: announcement.prev_hash.prev_hash,
        min_ntime: announcement.prev_hash.header_timestamp,
        nbits: announcement.prev_hash.n_bits,
    }
}

/// The next downstream is told; after the last, the signal is given.
pub open spec fn tell_next(announcement: Announcement, left: Seq<u32>) -> (
    PrevHashTaskView,
    PrevHashAction,
) {
    if left.len() == 0 {
        (PrevHashTaskView::Signalling, PrevHashAction::Signal)
    } else {
        (
            PrevHashTaskView::Sending(announcement, left.skip(1)),
            PrevHashAction::Deliver(left[0], message_for(announcement, left[0])),
        )
    }
}

/// The event is one that the task waits for.
pub open spec fn expects(task: PrevHashTaskView, event: PrevHashEvent) -> bool {
    match event {
        PrevHashEvent::Received(_) => task is Receiving,
        PrevHashEvent::Closed => task is Receiving,
        PrevHashEvent::Recorded(_) => task is Recording,
        PrevHashEvent::Located(_) => task is Locating,
        PrevHashEvent::Listed(_) => task is Listing,
        PrevHashEvent::Delivered(_) => task is Sending,
        PrevHashEvent::Signalled(_) => task is Signalling,
        PrevHashEvent::Reported(_) => task is Reporting || task is ReportingSend,
    }
}

/// What is to be done after an event, and what the task then waits for. An error is reported:
/// where it came up while a downstream was told, the rest of the round is left out or the next
/// downstream follows; elsewhere the task ends or waits for the next prev hash.
pub open spec fn transition(task: PrevHashTaskView, event: PrevHashEvent) -> (
    PrevHashTaskView,
    PrevHashAction,
) {
    match (task, event) {
        (PrevHashTaskView::Receiving, PrevHashEvent::Received(prev_hash)) => (
            PrevHashTaskView::Recording(prev_hash),
            PrevHashAction::Record(prev_hash.template_id),
        ),
        (PrevHashTaskView::Receiving, PrevHashEvent::Closed) => (
            PrevHashTaskView::Stopped,
            PrevHashAction::Finish,
        ),
        (PrevHashTaskView::Recording(prev_hash), PrevHashEvent::Recorded(Ok(_))) => (
            PrevHashTaskView::Locating(prev_hash),
            PrevHashAction::Locate(prev_hash),
        ),
        (PrevHashTaskView::Locating(prev_hash), PrevHashEvent::Located(Ok(job_id))) => (
            PrevHashTaskView::Listing(Announcement { prev_hash, job_id }),
            PrevHashAction::List,
        ),
        (PrevHashTaskView::Listing(announcement), PrevHashEvent::Listed(Ok(ids))) => tell_next(
            announcement,
            ids@,
        ),
        (
            PrevHashTaskView::Sending(announcement, left),
            PrevHashEvent::Delivered(Ok(_)),
        ) => tell_next(announcement, left),
        (PrevHashTaskView::Signalling, PrevHashEvent::Signalled(Ok(_))) => (
            PrevHashTaskView::Receiving,
            PrevHashAction::Receive,
        ),
        (PrevHashTaskView::Recording(_), PrevHashEvent::Recorded(Err(error))) => (
            PrevHashTaskView::Reporting,
            PrevHashAction::Report(error),
        ),
        (PrevHashTaskView::Locating(_), PrevHashEvent::Located(Err(error))) => (
            PrevHashTaskView::Reporting,
            PrevHashAction::Report(error),
        ),
        (PrevHashTaskView::Listing(_), PrevHashEvent::Listed(Err(error))) => (
            PrevHashTaskView::Reporting,
            PrevHashAction::Report(error),
        ),
        (
            PrevHashTaskView::Sending(announcement, left),
            PrevHashEvent::Delivered(Err(error)),
        ) => (
            PrevHashTaskView::ReportingSend(announcement, left),
            PrevHashAction::Report(error),
        ),
        (PrevHashTaskView::Signalling, PrevHashEvent::Signalled(Err(error))) => (
            PrevHashTaskView::Reporting,
            PrevHashAction::Report(error),
        ),
        (PrevHashTaskView::Reporting, PrevHashEvent::Reported(ErrorBranch::Break)) => (
            PrevHashTaskView::Stopped,
            PrevHashAction::Finish,
        ),
        (PrevHashTaskView::Reporting, PrevHashEvent::Reported(ErrorBranch::Continue)) => (
            PrevHashTaskView::Receiving,
            PrevHashAction::Receive,
        ),
        (
            PrevHashTaskView::ReportingSend(_, _),
            PrevHashEvent::Reported(ErrorBranch::Break),
        ) => (PrevHashTaskView::Signalling, PrevHashAction::Signal),
        (
            PrevHashTaskView::ReportingSend(announcement, left),
            PrevHashEvent::Reported(ErrorBranch::Continue),
        ) => tell_next(announcement, left),
        _ => (PrevHashTaskView::Stopped, PrevHashAction::Finish),
    }
}

impl Round {
    /// Tells the next downstream, or gives the signal after the last.
    fn tell_next(self) -> (next: (PrevHashTask, PrevHashAction))
        requires
            self.wf(),
        ensures
            next.0.wf(),
            (next.0@, next.1) == tell_next(self.announcement, self.left()),
            self.next < self.ids@.len() ==> {
                &&& next.1 matches PrevHashAction::Deliver(id, message)
                &&& id == self.ids@[self.next as int]
                &&& message.channel_id == self.ids@[self.next as int]
                &&& message.job_id == self.announcement.job_id
                &&& message.prev_hash == self.announcement.prev_hash.prev_hash
                &&& message.min_ntime == self.announcement.prev_hash.header_timestamp
                &&& message.nbits == self.announcement.prev_hash.n_bits
                &&& next.0 matches PrevHashTask::Sending(rest)
                &&& rest.announcement == self.announcement
                &&& rest.ids == self.ids
                &&& rest.next == self.next + 1
            },
            self.next == self.ids@.len() ==> next.0 is Signalling && next.1 is Signal,
    {
        if self.next < self.ids.len() {
            let id: u32 = self.ids[self.next];
            let message = SetNewPrevHash {
                channel_id: id,
                job_id: self.announcement.job_id,
                prev_hash: self.announcement.prev_hash.prev_hash,
                min_ntime: self.announcement.prev_hash.header_timestamp,
                nbits: self.announcement.prev_hash.n_bits,
            };
            let rest = Round { next: self.next + 1, ..self };
            assert(rest.left() =~= self.left().skip(1));
            (PrevHashTask::Sending(rest), PrevHashAction::Deliver(id, message))
        } else {
            (PrevHashTask::Signalling, PrevHashAction::Signal)
        }
    }
}

impl PrevHashTask {
    /// The round that the task is in, if any, is well formed.
    pub open spec fn wf(self) -> bool {
        match self {
            PrevHashTask::Sending(round) => round.wf(),
            PrevHashTask::ReportingSend(round) => round.wf(),
            _ => true,
        }
    }

    /// The task at its beginning, when it waits for a prev hash.
    pub fn new() -> (task: PrevHashTask)
        ensures
            task.wf(),
            task@ is Receiving,
    {
        PrevHashTask::Receiving
    }

    /// What is to be done after an event, and the task then.
    pub fn step(self, event: PrevHashEvent) -> (next: (PrevHashTask, PrevHashAction))
        requires
            self.wf(),
            expects(self@, event),
        ensures
            next.0.wf(),
            (next.0@, next.1) == transition(self@, event),
            match (self, event) {
                (PrevHashTask::Receiving, PrevHashEvent::Received(prev_hash)) => {
                    &&& next.0 == PrevHashTask::Recording(prev_hash)
                    &&& next.1 == PrevHashAction::Record(prev_hash.template_id)
                },
                (PrevHashTask::Receiving, PrevHashEvent::Closed) => {
                    next.0 is Stopped && next.1 is Finish
                },
                (PrevHashTask::Recording(prev_hash), PrevHashEvent::Recorded(Ok(_))) => {
                    &&& next.0 == PrevHashTask::Locating(prev_hash)
                    &&& next.1 == PrevHashAction::Locate(prev_hash)
                },
                (PrevHashTask::Locating(prev_hash), PrevHashEvent::Located(Ok(job_id))) => {
                    &&& next.0 matches PrevHashTask::Listing(announcement)
                    &&& announcement.prev_hash == prev_hash
                    &&& announcement.job_id == job_id
                    &&& next.1 is List
                },
                (PrevHashTask::Listing(announcement), PrevHashEvent::Listed(Ok(ids))) => {
                    if ids@.len() == 0 {
                        next.0 is Signalling && next.1 is Signal
                    } else {
                        &&& next.1 matches PrevHashAction::Deliver(id, message)
                        &&& id == ids@[0]
                        &&& message.channel_id == ids@[0]
                        &&& message.job_id == announcement.job_id
                        &&& message.prev_hash == announcement.prev_hash.prev_hash
                        &&& message.min_ntime == announcement.prev_hash.header_timestamp
                        &&& message.nbits == announcement.prev_hash.n_bits
                        &&& next.0 matches PrevHashTask::Sending(rest)
                        &&& rest.announcement == announcement
                        &&& rest.ids == ids
                        &&& rest.next == 1
                    }
                },
                (PrevHashTask::Sending(round), PrevHashEvent::Delivered(Err(error))) => {
                    &&& next.0 == PrevHashTask::ReportingSend(round)
                    &&& next.1 == PrevHashAction::Report(error)
                },
                (
                    PrevHashTask::ReportingSend(_),
                    PrevHashEvent::Reported(ErrorBranch::Break),
                ) => next.0 is Signalling && next.1 is Signal,
                (PrevHashTask::Sending(round), _) => {
                    if round.next == round.ids@.len() {
                        next.0 is Signalling && next.1 is Signal
                    } else {
                        &&& next.1 matches PrevHashAction::Deliver(id, message)
                        &&& id == round.ids@[round.next as int]
                        &&& message.channel_id == round.ids@[round.next as int]
                        &&& message.job_id == round.announcement.job_id
                        &&& message.prev_hash == round.announcement.prev_hash.prev_hash
                        &&& message.min_ntime == round.announcement.prev_hash.header_timestamp
                        &&& message.nbits == round.announcement.prev_hash.n_bits
                        &&& next.0 matches PrevHashTask::Sending(rest)
                        &&& rest.announcement == round.announcement
                        &&& rest.ids == round.ids
                        &&& rest.next == round.next + 1
                    }
                },
                (PrevHashTask::ReportingSend(round), _) => {
                    if round.next == round.ids@.len() {
                        next.0 is Signalling && next.1 is Signal
                    } else {
                        &&& next.1 matches PrevHashAction::Deliver(id, message)
                        &&& id == round.ids@[round.next as int]
                        &&& message.channel_id == round.ids@[round.next as int]
                        &&& message.job_id == round.announcement.job_id
                        &&& message.prev_hash == round.announcement.prev_hash.prev_hash
                        &&& message.min_ntime == round.announcement.prev_hash.header_timestamp
                        &&& message.nbits == round.announcement.prev_hash.n_bits
                        &&& next.0 matches PrevHashTask::Sending(rest)
                        &&& rest.announcement == round.announcement
                        &&& rest.ids == round.ids
                        &&& rest.next == round.next + 1
                    }
                },
                (PrevHashTask::Signalling, PrevHashEvent::Signalled(Ok(_))) => {
                    next.0 is Receiving && next.1 is Receive
                },
                (_, PrevHashEvent::Recorded(Err(error))) => {
                    next.0 is Reporting && next.1 == PrevHashAction::Report(error)
                },
                (_, PrevHashEvent::Located(Err(error))) => {
                    next.0 is Reporting && next.1 == PrevHashAction::Report(error)
                },
                (_, PrevHashEvent::Listed(Err(error))) => {
                    next.0 is Reporting && next.1 == PrevHashAction::Report(error)
                },
                (_, PrevHashEvent::Signalled(Err(error))) => {
                    next.0 is Reporting && next.1 == PrevHashAction::Report(error)
                },
                (_, PrevHashEvent::Reported(ErrorBranch::Break)) => {
                    next.0 is Stopped && next.1 is Finish
                },
                (_, PrevHashEvent::Reported(ErrorBranch::Continue)) => {
                    next.0 is Receiving && next.1 is Receive
                },
                _ => false,
            },
    {
        match (self, event) {
            (PrevHashTask::Receiving, PrevHashEvent::Received(prev_hash)) => (
                PrevHashTask::Recording(prev_hash),
                PrevHashAction::Record(prev_hash.template_id),
            ),
            (PrevHashTask::Recording(prev_hash), PrevHashEvent::Recorded(Ok(_))) => (
                PrevHashTask::Locating(prev_hash),
                PrevHashAction::Locate(prev_hash),
            ),
            (PrevHashTask::Locating(prev_hash), PrevHashEvent::Located(Ok(job_id))) => (
                PrevHashTask::Listing(Announcement { prev_hash, job_id }),
                PrevHashAction::List,
            ),
            (PrevHashTask::Listing(announcement), PrevHashEvent::Listed(Ok(ids))) => {
                let round = Round { announcement, ids, next: 0 };
                assert(round.left() =~= ids@);
                round.tell_next()
            },
            (PrevHashTask::Sending(round), PrevHashEvent::Delivered(Ok(_))) => round.tell_next(),
            (PrevHashTask::Signalling, PrevHashEvent::Signalled(Ok(_))) => (
                PrevHashTask::Receiving,
                PrevHashAction::Receive,
            ),
            (PrevHashTask::Recording(_), PrevHashEvent::Recorded(Err(error))) => (
                PrevHashTask::Reporting,
                PrevHashAction::Report(error),
            ),
            (PrevHashTask::Locating(_), PrevHashEvent::Located(Err(error))) => (
                PrevHashTask::Reporting,
                PrevHashAction::Report(error),
            ),
            (PrevHashTask::Listing(_), PrevHashEvent::Listed(Err(error))) => (
                PrevHashTask::Reporting,
                PrevHashAction::Report(error),
            ),
            (PrevHashTask::Sending(round), PrevHashEvent::Delivered(Err(error))) => (
                PrevHashTask::ReportingSend(round),
                PrevHashAction::Report(error),
            ),
            (PrevHashTask::Signalling, PrevHashEvent::Signalled(Err(error))) => (
                PrevHashTask::Reporting,
                PrevHashAction::Report(error),
            ),
            (PrevHashTask::Reporting, PrevHashEvent::Reported(ErrorBranch::Continue)) => (
                PrevHashTask::Receiving,
                PrevHashAction::Receive,
            ),
            (PrevHashTask::ReportingSend(_), PrevHashEvent::Reported(ErrorBranch::Break)) => (
                PrevHashTask::Signalling,
                PrevHashAction::Signal,
            ),
            (
                PrevHashTask::ReportingSend(round),
                PrevHashEvent::Reported(ErrorBranch::Continue),
            ) => round.tell_next(),
            _ => (PrevHashTask::Stopped, PrevHashAction::Finish),
        }
    }
}

/// The job that was made of the template that a prev hash refers to; 0 where there is none. The
/// channel factory drops the other templates.
pub fn locate_job(channel_factory: &mut PoolChannelFactory, prev_hash: &NewPrevHash) -> (job_id:
    u32)
    requires
        factory_state(*old(channel_factory)).unambiguous(prev_hash.template_id),
        prev_hash.template_id < u64::MAX || !factory_state(
            *old(channel_factory),
        ).templates.contains(prev_hash.template_id),
    ensures
        job_id == factory_state(*old(channel_factory)).job_of(prev_hash.template_id),
        job_id == if factory_state(*old(channel_factory)).templates.contains(
            prev_hash.template_id,
        ) && factory_state(*old(channel_factory)).jobs.dom().contains(prev_hash.template_id) {
            factory_state(*old(channel_factory)).jobs[prev_hash.template_id]
        } else {
            0
        },
        factory_state(*final(channel_factory)).last_prev_hash == Some(
            (job_id, prev_hash.prev_hash@, prev_hash.header_timestamp, prev_hash.n_bits),
        ),
        factory_state(*final(channel_factory)).last_target == prev_hash.target@,
        factory_state(*final(channel_factory)) == factory_state(
            *old(channel_factory),
        ).with_prev_hash(*prev_hash),
{
    match take_prev_hash(channel_factory, prev_hash) {
        Ok(job_id) => job_id,
        Err(_) => 0,
    }
}

/// What becomes of the message to one downstream.
pub enum Fate {
    /// It is sent.
    Sent,
    /// It fails with an error, after which the round goes on or not.
    Failed(PoolError, ErrorBranch),
}

/// What is done after the fate of a message to one downstream is known, and reported if need be.
pub open spec fn after_fate(task: PrevHashTaskView, fate: Fate) -> (
    PrevHashTaskView,
    PrevHashAction,
) {
    match fate {
        Fate::Sent => transition(task, PrevHashEvent::Delivered(Ok(()))),
        Fate::Failed(error, branch) => transition(
            transition(task, PrevHashEvent::Delivered(Err(error))).0,
            PrevHashEvent::Reported(branch),
        ),
    }
}

/// The messages of a round from an action on, where `fates` tells what becomes of each, and the
/// action that follows the last of them.
pub open spec fn round_from(
    task: PrevHashTaskView,
    action: PrevHashAction,
    fates: Seq<Fate>,
) -> (Seq<(u32, SetNewPrevHash)>, PrevHashAction)
    decreases fates.len(),
{
    match action {
        PrevHashAction::Deliver(id, message) => if fates.len() == 0 {
            (seq![(id, message)], action)
        } else {
            let (next_task, next_action) = after_fate(task, fates[0]);
            let (rest, end) = round_from(next_task, next_action, fates.skip(1));
            (seq![(id, message)] + rest, end)
        },
        _ => (Seq::empty(), action),
    }
}

/// The messages of a round that tells all these downstreams.
pub open spec fn messages_for(announcement: Announcement, ids: Seq<u32>) -> Seq<
    (u32, SetNewPrevHash),
> {
    ids.map_values(|id: u32| (id, message_for(announcement, id)))
}

/// The round ends after this message: an error came up, and it is not to go on.
pub open spec fn breaks(fate: Fate) -> bool {
    fate matches Fate::Failed(_, ErrorBranch::Break)
}

/// The first action of a round: a prev hash has arrived, the pool keeps it in mind, and its job
/// and the downstreams of the pool are found.
pub open spec fn begin_round(prev_hash: NewPrevHash, job_id: u32, ids: Vec<u32>) -> (
    PrevHashTaskView,
    PrevHashAction,
) {
    let recording = transition(PrevHashTaskView::Receiving, PrevHashEvent::Received(prev_hash)).0;
    let locating = transition(recording, PrevHashEvent::Recorded(Ok(()))).0;
    let listing = transition(locating, PrevHashEvent::Located(Ok(job_id))).0;
    transition(listing, PrevHashEvent::Listed(Ok(ids)))
}

/// Where no error breaks the round, each downstream of the pool is told once, with its own id and
/// the job and the fields of the prev hash, whatever failed in between, and the signal follows.
pub proof fn lemma_all_are_told(
    prev_hash: NewPrevHash,
    job_id: u32,
    ids: Vec<u32>,
    fates: Seq<Fate>,
)
    requires
        fates.len() == ids@.len(),
        forall|i: int| 0 <= i < fates.len() ==> !breaks(#[trigger] fates[i]),
    ensures
        ({
            let (task, action) = begin_round(prev_hash, job_id, ids);
            let (told, end) = round_from(task, action, fates);
            &&& round_from(task, action, fates) == (
                messages_for(Announcement { prev_hash, job_id }, ids@),
                PrevHashAction::Signal,
            )
            &&& end is Signal
            &&& told.len() == ids@.len()
            &&& forall|i: int|
                0 <= i < ids@.len() ==> {
                    &&& (#[trigger] told[i]).0 == ids@[i]
                    &&& told[i].1.channel_id == ids@[i]
                    &&& told[i].1.job_id == job_id
                    &&& told[i].1.prev_hash == prev_hash.prev_hash
                    &&& told[i].1.min_ntime == prev_hash.header_timestamp
                    &&& told[i].1.nbits == prev_hash.n_bits
                }
        }),
{
    lemma_round_from_all(Announcement { prev_hash, job_id }, ids@, fates);
}

proof fn lemma_round_from_all(announcement: Announcement, left: Seq<u32>, fates: Seq<Fate>)
    requires
        fates.len() == left.len(),
        forall|i: int| 0 <= i < fates.len() ==> !breaks(#[trigger] fates[i]),
    ensures
        round_from(tell_next(announcement, left).0, tell_next(announcement, left).1, fates) == (
            messages_for(announcement, left),
            PrevHashAction::Signal,
        ),
    decreases fates.len(),
{
    if left.len() > 0 {
        assert(!breaks(fates[0]));
        assert forall|i: int| 0 <= i < fates.skip(1).len() implies !breaks(
            #[trigger] fates.skip(1)[i],
        ) by {
            assert(!breaks(fates[i + 1]));
        }
        lemma_round_from_all(announcement, left.skip(1), fates.skip(1));
        assert(after_fate(tell_next(announcement, left).0, fates[0]) == tell_next(
            announcement,
            left.skip(1),
        ));
        assert(seq![(left[0], message_for(announcement, left[0]))] + messages_for(
            announcement,
            left.skip(1),
        ) =~= messages_for(announcement, left));
    } else {
        assert(messages_for(announcement, left) =~= Seq::empty());
    }
}

/// Where an error breaks the round, no downstream after that one is told, and the signal follows
/// all the same.
pub proof fn lemma_break_ends_round(
    prev_hash: NewPrevHash,
    job_id: u32,
    ids: Vec<u32>,
    fates: Seq<Fate>,
    broken: int,
)
    requires
        0 <= broken < fates.len(),
        fates.len() == ids@.len(),
        breaks(fates[broken]),
        forall|i: int| 0 <= i < broken ==> !breaks(#[trigger] fates[i]),
    ensures
        ({
            let (task, action) = begin_round(prev_hash, job_id, ids);
            let (told, end) = round_from(task, action, fates);
            &&& round_from(task, action, fates) == (
                messages_for(Announcement { prev_hash, job_id }, ids@.take(broken + 1)),
                PrevHashAction::Signal,
            )
            &&& end is Signal
            &&& told.len() == broken + 1
            &&& forall|i: int|
                0 <= i <= broken ==> {
                    &&& (#[trigger] told[i]).0 == ids@[i]
                    &&& told[i].1.channel_id == ids@[i]
                    &&& told[i].1.job_id == job_id
                    &&& told[i].1.prev_hash == prev_hash.prev_hash
                    &&& told[i].1.min_ntime == prev_hash.header_timestamp
                    &&& told[i].1.nbits == prev_hash.n_bits
                }
        }),
{
    lemma_round_from_break(Announcement { prev_hash, job_id }, ids@, fates, broken);
}

proof fn lemma_round_from_break(
    announcement: Announcement,
    left: Seq<u32>,
    fates: Seq<Fate>,
    broken: int,
)
    requires
        0 <= broken < fates.len(),
        fates.len() == left.len(),
        breaks(fates[broken]),
        forall|i: int| 0 <= i < broken ==> !breaks(#[trigger] fates[i]),
    ensures
        round_from(tell_next(announcement, left).0, tell_next(announcement, left).1, fates) == (
            messages_for(announcement, left.take(broken + 1)),
            PrevHashAction::Signal,
        ),
    decreases broken,
{
    let (task, action) = tell_next(announcement, left);
    let first = seq![(left[0], message_for(announcement, left[0]))];
    if broken > 0 {
        assert(!breaks(fates[0]));
        assert forall|i: int| 0 <= i < broken - 1 implies !breaks(#[trigger] fates.skip(1)[i]) by {
            assert(!breaks(fates[i + 1]));
        }
        lemma_round_from_break(announcement, left.skip(1), fates.skip(1), broken - 1);
        assert(after_fate(task, fates[0]) == tell_next(announcement, left.skip(1)));
        assert(first + messages_for(announcement, left.skip(1).take(broken)) =~= messages_for(
            announcement,
            left.take(broken + 1),
        ));
    } else {
        let (next_task, next_action) = after_fate(task, fates[0]);
        assert(next_action == PrevHashAction::Signal);
        assert(round_from(next_task, next_action, fates.skip(1)) == (
            Seq::<(u32, SetNewPrevHash)>::empty(),
            PrevHashAction::Signal,
        ));
        assert(first + Seq::<(u32, SetNewPrevHash)>::empty() =~= messages_for(
            announcement,
            left.take(1),
        ));
    }
}

/// Templates have arrived, one after the other, of which jobs were made or not.
pub open spec fn with_templates(state: FactoryState, arrivals: Seq<(u64, bool)>) -> FactoryState
    decreases arrivals.len(),
{
    if arrivals.len() == 0 {
        state
    } else {
        let (template_id, made) = arrivals.last();
        let kept = with_templates(state, arrivals.drop_last()).with_template(template_id);
        if made {
            kept.with_channel_jobs()
        } else {
            kept
        }
    }
}

/// The job that a prev hash is announced with is the one that was made of the template that it
/// refers to, whatever other templates arrived since.
pub proof fn lemma_job_of_template(
    state: FactoryState,
    template_id: u64,
    made: bool,
    later: Seq<(u64, bool)>,
)
    requires
        state.job_count < u32::MAX,
        forall|i: int| 0 <= i < later.len() ==> (#[trigger] later[i]).0 != template_id,
    ensures
        with_templates(state, seq![(template_id, made)] + later).job_of(template_id)
            == state.job_count + 1,
{
    lemma_job_kept(state, template_id, made, later);
}

proof fn lemma_job_kept(
    state: FactoryState,
    template_id: u64,
    made: bool,
    later: Seq<(u64, bool)>,
)
    requires
        forall|i: int| 0 <= i < later.len() ==> (#[trigger] later[i]).0 != template_id,
    ensures
        ({
            let after = with_templates(state, seq![(template_id, made)] + later);
            &&& after.templates.contains(template_id)
            &&& after.jobs.dom().contains(template_id)
            &&& after.jobs[template_id] == (state.job_count + 1) as u32
        }),
    decreases later.len(),
{
    let arrivals = seq![(template_id, made)] + later;
    let before = with_templates(state, arrivals.drop_last());
    let after = with_templates(state, arrivals);
    assert(after.templates == before.templates.push(arrivals.last().0));
    if later.len() == 0 {
        assert(arrivals.drop_last() =~= Seq::empty());
        assert(arrivals.last() == (template_id, made));
        assert(after.templates.last() == template_id);
    } else {
        assert(arrivals.drop_last() =~= seq![(template_id, made)] + later.drop_last());
        assert forall|i: int| 0 <= i < later.drop_last().len() implies (
        #[trigger] later.drop_last()[i]).0 != template_id by {
            assert(later[i].0 != template_id);
        }
        lemma_job_kept(state, template_id, made, later.drop_last());
        assert(arrivals.last() == later[later.len() - 1]);
        let i = before.templates.index_of(template_id);
        assert(after.templates[i] == template_id);
    }
}

/// A prev hash that refers to no known template is announced with job 0, and leaves no template
/// for a later prev hash to refer to.
pub proof fn lemma_unknown_template(state: FactoryState, prev_hash: NewPrevHash, other: u64)
    requires
        !state.templates.contains(prev_hash.template_id),
    ensures
        state.job_of(prev_hash.template_id) == 0,
        state.with_prev_hash(prev_hash).job_of(other) == 0,
{
}

/// The task ends only where there are no more prev hashes, or where the report of an error ends
/// it; an error that came up while a downstream was told never ends it.
pub proof fn lemma_stops_only_so(task: PrevHashTaskView, event: PrevHashEvent)
    requires
        expects(task, event),
    ensures
        transition(task, event).0 is Stopped <==> event is Closed || (task is Reporting && event
            == PrevHashEvent::Reported(ErrorBranch::Break)),
        transition(task, event).0 is Stopped <==> transition(task, event).1 is Finish,
{
}

/// How a round begins: what is kept in mind is the template of the prev hash that arrived, what
/// the channel factory is asked for is that prev hash itself, and what is told to the downstreams
/// is that prev hash with the job that was found.
pub proof fn lemma_round_is_of_received(prev_hash: NewPrevHash, job_id: u32)
    ensures
        ({
            let (recording, record) = transition(
                PrevHashTaskView::Receiving,
                PrevHashEvent::Received(prev_hash),
            );
            let (locating, locate) = transition(recording, PrevHashEvent::Recorded(Ok(())));
            let (listing, list) = transition(locating, PrevHashEvent::Located(Ok(job_id)));
            &&& recording matches PrevHashTaskView::Recording(held) && held == prev_hash
            &&& record matches PrevHashAction::Record(id) && id == prev_hash.template_id
            &&& locating matches PrevHashTaskView::Locating(held) && held == prev_hash
            &&& locate matches PrevHashAction::Locate(asked) && asked == prev_hash
            &&& listing matches PrevHashTaskView::Listing(announcement) && announcement.prev_hash
                == prev_hash && announcement.job_id == job_id
            &&& list is List
        }),
{
}

/// In a round the first of the downstreams that are left is told, under its own id, the job that
/// was found and the hash, the time and the bits of the prev hash, and the others are left; where
/// none is left, the signal follows. So it is at the beginning of the round, after a downstream
/// was told, and after a failure with which the round goes on. A failure is reported first.
pub proof fn lemma_first_left_is_told(
    announcement: Announcement,
    left: Seq<u32>,
    ids: Vec<u32>,
    error: PoolError,
)
    requires
        ids@ == left,
    ensures
        ({
            let begun = transition(
                PrevHashTaskView::Listing(announcement),
                PrevHashEvent::Listed(Ok(ids)),
            );
            let after_send = transition(
                PrevHashTaskView::Sending(announcement, left),
                PrevHashEvent::Delivered(Ok(())),
            );
            let after_failure = transition(
                PrevHashTaskView::ReportingSend(announcement, left),
                PrevHashEvent::Reported(ErrorBranch::Continue),
            );
            let failed = transition(
                PrevHashTaskView::Sending(announcement, left),
                PrevHashEvent::Delivered(Err(error)),
            );
            let broken = transition(
                PrevHashTaskView::ReportingSend(announcement, left),
                PrevHashEvent::Reported(ErrorBranch::Break),
            );
            &&& begun == after_send
            &&& begun == after_failure
            &&& failed.0 matches PrevHashTaskView::ReportingSend(held, others) && held
                == announcement && others == left
            &&& failed.1 matches PrevHashAction::Report(reported) && reported == error
            &&& broken.0 is Signalling && broken.1 is Signal
            &&& left.len() == 0 ==> begun.0 is Signalling && begun.1 is Signal
            &&& left.len() > 0 ==> {
                &&& begun.0 matches PrevHashTaskView::Sending(held, others)
                &&& held == announcement
                &&& others.len() == left.len() - 1
                &&& forall|i: int| 0 <= i < others.len() ==> #[trigger] others[i] == left[i + 1]
                &&& begun.1 matches PrevHashAction::Deliver(id, message)
                &&& id == left[0]
                &&& message.channel_id == left[0]
                &&& message.job_id == announcement.job_id
                &&& message.prev_hash == announcement.prev_hash.prev_hash
                &&& message.min_ntime == announcement.prev_hash.header_timestamp
                &&& message.nbits == announcement.prev_hash.n_bits
            }
        }),
{
}

/// What the task does around its rounds: it ends where there are no more prev hashes, waits for
/// the next one after the signal, and reports each error that came up outside of a send, after
/// which it ends or waits for the next one as the report says.
pub proof fn lemma_around_rounds(
    prev_hash: NewPrevHash,
    announcement: Announcement,
    error: PoolError,
)
    ensures
        transition(PrevHashTaskView::Receiving, PrevHashEvent::Closed).0 is Stopped,
        transition(PrevHashTaskView::Receiving, PrevHashEvent::Closed).1 is Finish,
        transition(PrevHashTaskView::Signalling, PrevHashEvent::Signalled(Ok(()))).0 is Receiving,
        transition(PrevHashTaskView::Signalling, PrevHashEvent::Signalled(Ok(()))).1 is Receive,
        transition(
            PrevHashTaskView::Recording(prev_hash),
            PrevHashEvent::Recorded(Err(error)),
        ) == (PrevHashTaskView::Reporting, PrevHashAction::Report(error)),
        transition(PrevHashTaskView::Locating(prev_hash), PrevHashEvent::Located(Err(error))) == (
            PrevHashTaskView::Reporting,
            PrevHashAction::Report(error),
        ),
        transition(PrevHashTaskView::Listing(announcement), PrevHashEvent::Listed(Err(error)))
            == (PrevHashTaskView::Reporting, PrevHashAction::Report(error)),
        transition(PrevHashTaskView::Signalling, PrevHashEvent::Signalled(Err(error))) == (
            PrevHashTaskView::Reporting,
            PrevHashAction::Report(error),
        ),
        transition(PrevHashTaskView::Reporting, PrevHashEvent::Reported(ErrorBranch::Break)).0
            is Stopped,
        transition(PrevHashTaskView::Reporting, PrevHashEvent::Reported(ErrorBranch::Break)).1
            is Finish,
        transition(PrevHashTaskView::Reporting, PrevHashEvent::Reported(ErrorBranch::Continue)).0
            is Receiving,
        transition(PrevHashTaskView::Reporting, PrevHashEvent::Reported(ErrorBranch::Continue)).1
            is Receive,
{
}

/// What the task waits for is told by its kind, with what it holds; of a round, by the downstreams
/// that come after those already told.
pub proof fn lemma_task_content(task: PrevHashTask)
    requires
        task.wf(),
    ensures
        match task {
            PrevHashTask::Receiving => task@ is Receiving,
            PrevHashTask::Recording(prev_hash) => {
                task@ matches PrevHashTaskView::Recording(held) && held == prev_hash
            },
            PrevHashTask::Locating(prev_hash) => {
                task@ matches PrevHashTaskView::Locating(held) && held == prev_hash
            },
            PrevHashTask::Listing(announcement) => {
                task@ matches PrevHashTaskView::Listing(held) && held == announcement
            },
            PrevHashTask::Sending(round) => {
                &&& task@ matches PrevHashTaskView::Sending(held, left)
                &&& held == round.announcement
                &&& left == round.ids@.subrange(round.next as int, round.ids@.len() as int)
            },
            PrevHashTask::Signalling => task@ is Signalling,
            PrevHashTask::Reporting => task@ is Reporting,
            PrevHashTask::ReportingSend(round) => {
                &&& task@ matches PrevHashTaskView::ReportingSend(held, left)
                &&& held == round.announcement
                &&& left == round.ids@.subrange(round.next as int, round.ids@.len() as int)
            },
            PrevHashTask::Stopped => task@ is Stopped,
        },
{
}

/// Each event is waited for in one place, but for the report of an error, which is waited for in
/// two; a task that has stopped waits for none.
pub proof fn lemma_what_is_waited_for(task: PrevHashTaskView, event: PrevHashEvent)
    ensures
        expects(task, event) <==> match task {
            PrevHashTaskView::Receiving => event is Received || event is Closed,
            PrevHashTaskView::Recording(_) => event is Recorded,
            PrevHashTaskView::Locating(_) => event is Located,
            PrevHashTaskView::Listing(_) => event is Listed,
            PrevHashTaskView::Sending(_, _) => event is Delivered,
            PrevHashTaskView::Signalling => event is Signalled,
            PrevHashTaskView::Reporting => event is Reported,
            PrevHashTaskView::ReportingSend(_, _) => event is Reported,
            PrevHashTaskView::Stopped => false,
        },
{
}

/// The job that is announced with a prev hash is the one that the channel factory made of the
/// template that this prev hash refers to, or 0 where it knows none: the factory is asked about
/// `asked`, which is what the task handed to it, and gives `located` for that.
pub proof fn lemma_announced_job(
    state: FactoryState,
    prev_hash: NewPrevHash,
    asked: NewPrevHash,
    located: u32,
    ids: Vec<u32>,
    fates: Seq<Fate>,
)
    requires
        transition(
            transition(PrevHashTaskView::Receiving, PrevHashEvent::Received(prev_hash)).0,
            PrevHashEvent::Recorded(Ok(())),
        ).1 == PrevHashAction::Locate(asked),
        located == state.job_of(asked.template_id),
        fates.len() == ids@.len(),
        forall|i: int| 0 <= i < fates.len() ==> !breaks(#[trigger] fates[i]),
    ensures
        ({
            let (task, action) = begin_round(prev_hash, located, ids);
            let told = round_from(task, action, fates).0;
            &&& told.len() == ids@.len()
            &&& forall|i: int|
                0 <= i < told.len() ==> (#[trigger] told[i]).1.job_id == if state.templates.contains(
                    prev_hash.template_id,
                ) && state.jobs.dom().contains(prev_hash.template_id) {
                    state.jobs[prev_hash.template_id]
                } else {
                    0
                }
        }),
{
    lemma_all_are_told(prev_hash, located, ids, fates);
}

/// A round is broken off by a failure whose report says so, and by nothing else.
pub proof fn lemma_what_breaks(error: PoolError)
    ensures
        !breaks(Fate::Sent),
        !breaks(Fate::Failed(error, ErrorBranch::Continue)),
        breaks(Fate::Failed(error, ErrorBranch::Break)),
{
}

} // verus!
