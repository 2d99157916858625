//! Whole runs of the pool: the prev hash task and the template task side by side, on one pool.
use vstd::prelude::*;

use crate::new_template::{self, lemma_send_next_goes_on, TemplateEvent, TemplateTaskView};
use crate::prev_hash::{self, PrevHashEvent, PrevHashTaskView};

verus! {

/// The two tasks, the fields of the pool that they set, and the signals that they gave.
pub struct PoolRun {
    pub prev_hash: PrevHashTaskView,
    pub template: TemplateTaskView,
    pub new_template_processed: bool,
    pub last_prev_hash_template_id: u64,
    pub signals: nat,
}

/// An event of one of the tasks.
pub enum PoolEvent {
    PrevHash(PrevHashEvent),
    Template(TemplateEvent),
}

impl PoolRun {
    /// A new pool, whose tasks have just begun.
    pub open spec fn new() -> PoolRun {
        PoolRun {
            prev_hash: PrevHashTaskView::Receiving,
            template: TemplateTaskView::Receiving,
            new_template_processed: false,
            last_prev_hash_template_id: 0,
            signals: 0,
        }
    }

    /// The event is one that its task waits for.
    pub open spec fn expects(self, event: PoolEvent) -> bool {
        match event {
            PoolEvent::PrevHash(event) => prev_hash::expects(self.prev_hash, event),
            PoolEvent::Template(event) => new_template::expects(self.template, event),
        }
    }

    /// The run after an event: its task goes on, and what the task is told was done is done. Where
    /// it is told that the pool keeps a prev hash in mind, the pool does; where it is told that
    /// the pool keeps in mind that a template was processed, the pool does; and where it is told
    /// that the signal was given, it was.
    pub open spec fn after(self, event: PoolEvent) -> PoolRun {
        match event {
            PoolEvent::PrevHash(event) => PoolRun {
                prev_hash: prev_hash::transition(self.prev_hash, event).0,
                last_prev_hash_template_id: match (self.prev_hash, event) {
                    (
                        PrevHashTaskView::Recording(prev_hash),
                        PrevHashEvent::Recorded(Ok(_)),
                    ) => prev_hash.template_id,
                    _ => self.last_prev_hash_template_id,
                },
                signals: match event {
                    PrevHashEvent::Signalled(Ok(_)) => self.signals + 1,
                    _ => self.signals,
                },
                ..self
            },
            PoolEvent::Template(event) => PoolRun {
                template: new_template::transition(self.template, event).0,
                new_template_processed: match event {
                    TemplateEvent::Marked(Ok(_)) => true,
                    _ => self.new_template_processed,
                },
                signals: match event {
                    TemplateEvent::Signalled(Ok(_)) => self.signals + 1,
                    _ => self.signals,
                },
                ..self
            },
        }
    }

    /// The run of a new pool after events.
    pub open spec fn of(events: Seq<PoolEvent>) -> PoolRun
        decreases events.len(),
    {
        if events.len() == 0 {
            PoolRun::new()
        } else {
            PoolRun::of(events.drop_last()).after(events.last())
        }
    }

    /// The prev hash task is in a round.
    pub open spec fn announces(self) -> bool {
        !(self.prev_hash is Receiving || self.prev_hash is Stopped)
    }

    /// The template task is in a round.
    pub open spec fn makes_jobs(self) -> bool {
        !(self.template is Receiving || self.template is Stopped)
    }
}

/// No lock is poisoned, the channel factory accepts each template, and the signal can be given.
/// Of a downstream anything may be told, and of an error with one how to go on.
pub open spec fn undisturbed(event: PoolEvent) -> bool {
    match event {
        PoolEvent::PrevHash(PrevHashEvent::Recorded(Err(_))) => false,
        PoolEvent::PrevHash(PrevHashEvent::Located(Err(_))) => false,
        PoolEvent::PrevHash(PrevHashEvent::Listed(Err(_))) => false,
        PoolEvent::PrevHash(PrevHashEvent::Signalled(Err(_))) => false,
        PoolEvent::Template(TemplateEvent::Made(Err(_))) => false,
        PoolEvent::Template(TemplateEvent::Listed(Err(_))) => false,
        PoolEvent::Template(TemplateEvent::Marked(Err(_))) => false,
        PoolEvent::Template(TemplateEvent::Signalled(Err(_))) => false,
        _ => true,
    }
}

/// The events of the two tasks, in any order among each other, are those that each waits for, and
/// nothing disturbs them.
pub open spec fn is_undisturbed_run(events: Seq<PoolEvent>) -> bool
    decreases events.len(),
{
    events.len() > 0 ==> {
        &&& is_undisturbed_run(events.drop_last())
        &&& PoolRun::of(events.drop_last()).expects(events.last())
        &&& undisturbed(events.last())
    }
}

/// How many templates have arrived.
pub open spec fn templates(events: Seq<PoolEvent>) -> nat
    decreases events.len(),
{
    if events.len() == 0 {
        0
    } else {
        templates(events.drop_last()) + if events.last() matches PoolEvent::Template(
            TemplateEvent::Received(_),
        ) {
            1nat
        } else {
            0nat
        }
    }
}

/// How many prev hashes have arrived.
pub open spec fn prev_hashes(events: Seq<PoolEvent>) -> nat
    decreases events.len(),
{
    if events.len() == 0 {
        0
    } else {
        prev_hashes(events.drop_last()) + if events.last() matches PoolEvent::PrevHash(
            PrevHashEvent::Received(_),
        ) {
            1nat
        } else {
            0nat
        }
    }
}

/// The template that the last prev hash refers to; 0 where none has arrived.
pub open spec fn last_template_id(events: Seq<PoolEvent>) -> u64
    decreases events.len(),
{
    if events.len() == 0 {
        0
    } else {
        match events.last() {
            PoolEvent::PrevHash(PrevHashEvent::Received(prev_hash)) => prev_hash.template_id,
            _ => last_template_id(events.drop_last()),
        }
    }
}

/// At any point of a run there is one signal for each prev hash and each template, but for those
/// in whose round a task still is. The pool keeps the last prev hash in mind once its task has
/// let it, and that a template was processed once one was.
pub open spec fn accounts_for(run: PoolRun, events: Seq<PoolEvent>) -> bool {
    &&& run.signals + (if run.announces() {
        1nat
    } else {
        0nat
    }) + (if run.makes_jobs() {
        1nat
    } else {
        0nat
    }) == templates(events) + prev_hashes(events)
    &&& run.prev_hash !is Reporting
    &&& run.template !is Reporting
    &&& match run.prev_hash {
        PrevHashTaskView::Recording(prev_hash) => prev_hash.template_id == last_template_id(
            events,
        ),
        _ => run.last_prev_hash_template_id == last_template_id(events),
    }
    &&& run.makes_jobs() ==> templates(events) > 0
    &&& run.new_template_processed == (templates(events) > if run.makes_jobs()
        && run.template !is Signalling {
        1nat
    } else {
        0nat
    })
}

proof fn lemma_accounts_for(events: Seq<PoolEvent>)
    requires
        is_undisturbed_run(events),
    ensures
        accounts_for(PoolRun::of(events), events),
    decreases events.len(),
{
    if events.len() > 0 {
        lemma_accounts_for(events.drop_last());
        let run = PoolRun::of(events.drop_last());
        match events.last() {
            PoolEvent::PrevHash(event) => {
                assert(accounts_for(run.after(events.last()), events));
            },
            PoolEvent::Template(event) => {
                if let TemplateTaskView::Sending(messages, left) = run.template {
                    lemma_send_next_goes_on(messages, left);
                }
                if let (TemplateTaskView::Listing(messages), TemplateEvent::Listed(Ok(ids))) = (
                    run.template,
                    event,
                ) {
                    lemma_send_next_goes_on(messages, ids@);
                }
                assert(accounts_for(run.after(events.last()), events));
            },
        }
    }
}

/// Where nothing disturbs the pool, each prev hash and each template is followed by one signal,
/// in whatever order the tasks go on and whatever becomes of the messages to downstreams: at any
/// point only the signals are missing of the rounds that have not ended, and once both tasks have
/// ended their rounds there are as many as prev hashes and templates together. The pool then keeps
/// in mind the template of the last prev hash, and that a template was processed exactly where one
/// has arrived.
pub proof fn lemma_one_signal_for_each(events: Seq<PoolEvent>)
    requires
        is_undisturbed_run(events),
    ensures
        ({
            let run = PoolRun::of(events);
            let arrived = templates(events) + prev_hashes(events);
            &&& run.signals <= arrived <= run.signals + 2
            &&& !run.announces() && !run.makes_jobs() ==> {
                &&& run.signals == arrived
                &&& run.new_template_processed == (templates(events) > 0)
                &&& run.last_prev_hash_template_id == last_template_id(events)
            }
        }),
{
    lemma_accounts_for(events);
}

/// Neither task touches what the other sets.
pub proof fn lemma_tasks_are_apart(run: PoolRun, event: PoolEvent)
    ensures
        match event {
            PoolEvent::PrevHash(_) => {
                &&& run.after(event).new_template_processed == run.new_template_processed
                &&& run.after(event).template == run.template
            },
            PoolEvent::Template(_) => {
                &&& run.after(event).last_prev_hash_template_id == run.last_prev_hash_template_id
                &&& run.after(event).prev_hash == run.prev_hash
            },
        },
{
}

} // verus!
