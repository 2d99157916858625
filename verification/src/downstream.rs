//! One downstream of the pool: its id, what it is sent, and in which order.
use roles_logic_sv2::channel_logic::channel_factory::PoolChannelFactory;
use vstd::prelude::*;

use crate::error::PoolError;
use crate::factory::{factory_state, next_group_id, next_standard_id, FactoryState};
use crate::frame::{incoming_of, unframe, Incoming, HEADER_SIZE};
use crate::message::{Mining, MiningView};

verus! {

/// What a downstream asked for when it set up its connection.
#[derive(Clone, Copy, PartialEq, Eq, Structural, Debug)]
pub struct CommonDownstreamData {
    /// The downstream mines on headers only.
    pub header_only: bool,
    pub work_selection: bool,
    pub version_rolling: bool,
}

/// A downstream of the pool.
#[derive(Clone, Copy, PartialEq, Eq, Structural, Debug)]
pub struct Downstream {
    /// The id of its channel where it mines on headers only, and of its group where it does not.
    pub id: u32,
    pub downstream_data: CommonDownstreamData,
}

/// What the handler of a message wants to be sent.
#[derive(Debug)]
pub enum SendTo {
    /// A message goes back to the downstream.
    Respond(Mining),
    /// One after the other.
    Multiple(Vec<SendTo>),
    /// Nothing is sent.
    Nothing(Option<Mining>),
    /// A message is relayed to another node, which a pool does not have.
    Relay,
}

/// How a handler's answer ends once its messages are sent.
#[derive(Debug)]
pub enum Outcome {
    /// All is sent.
    Done,
    /// The downstream was refused, and is to be dropped: its id, and the refusal.
    ProtocolError(u32, Mining),
    /// The handler failed, or wants what a pool cannot do.
    Unhandled,
}

/// The messages that go to a downstream, in their order, and how that ends.
#[derive(Debug)]
pub struct SendPlan {
    pub messages: Vec<Mining>,
    pub outcome: Outcome,
}

/// The content of an [`Outcome`].
pub enum OutcomeView {
    Done,
    ProtocolError(u32, MiningView),
    Unhandled,
}

/// The content of a [`SendPlan`].
#[verifier::ext_equal]
pub struct SendPlanView {
    pub messages: Seq<MiningView>,
    pub outcome: OutcomeView,
}

impl View for Outcome {
    type V = OutcomeView;

    open spec fn view(&self) -> OutcomeView {
        match *self {
            Outcome::Done => OutcomeView::Done,
            Outcome::ProtocolError(id, message) => OutcomeView::ProtocolError(id, message@),
            Outcome::Unhandled => OutcomeView::Unhandled,
        }
    }
}

impl View for SendPlan {
    type V = SendPlanView;

    open spec fn view(&self) -> SendPlanView {
        SendPlanView {
            messages: self.messages@.map_values(|message: Mining| message@),
            outcome: self.outcome@,
        }
    }
}

/// What one answer comes to. The refusal to open a channel is sent, and then ends the answer.
pub open spec fn plan_of(id: u32, send_to: SendTo) -> SendPlanView
    decreases send_to,
{
    match send_to {
        SendTo::Respond(message) => SendPlanView {
            messages: seq![message@],
            outcome: if message@ is OpenMiningChannelError {
                OutcomeView::ProtocolError(id, message@)
            } else {
                OutcomeView::Done
            },
        },
        SendTo::Multiple(parts) => plan_of_all(id, parts@),
        SendTo::Nothing(_) => SendPlanView { messages: Seq::empty(), outcome: OutcomeView::Done },
        SendTo::Relay => SendPlanView { messages: Seq::empty(), outcome: OutcomeView::Unhandled },
    }
}

/// What answers come to, one after the other, up to the first that does not end well.
pub open spec fn plan_of_all(id: u32, parts: Seq<SendTo>) -> SendPlanView
    decreases parts,
{
    if parts.len() == 0 {
        SendPlanView { messages: Seq::empty(), outcome: OutcomeView::Done }
    } else {
        let before = plan_of_all(id, parts.drop_last());
        if before.outcome is Done {
            let last = plan_of(id, parts.last());
            SendPlanView { messages: before.messages + last.messages, outcome: last.outcome }
        } else {
            before
        }
    }
}

/// The handler did not fail, and no relay is reached in its answer.
pub open spec fn answerable(
    id: u32,
    send_to: Result<SendTo, roles_logic_sv2::errors::Error>,
) -> bool {
    send_to matches Ok(send_to) && plan_of(id, send_to).outcome !is Unhandled
}

/// The downstream that a channel factory in this state makes of what was asked for.
pub open spec fn created(state: FactoryState, data: CommonDownstreamData) -> Downstream {
    Downstream { id: state.next_id(data.header_only) as u32, downstream_data: data }
}

impl Downstream {
    /// A downstream with the id that its kind calls for, once its connection is set up. Where the
    /// setup failed, so does this, and no id is used.
    pub fn new(
        setup: Result<CommonDownstreamData, PoolError>,
        channel_factory: &mut PoolChannelFactory,
    ) -> (result: Result<Downstream, PoolError>)
        requires
            setup matches Ok(data) ==> factory_state(*old(channel_factory)).has_id(
                data.header_only,
            ),
        ensures
            match setup {
                Ok(data) => {
                    &&& result matches Ok(downstream)
                    &&& downstream == created(factory_state(*old(channel_factory)), data)
                    &&& downstream.downstream_data == data
                    &&& downstream.id == factory_state(*old(channel_factory)).next_id(
                        data.header_only,
                    )
                    &&& factory_state(*old(channel_factory)).ids matches Some((groups, channels))
                    &&& downstream.id == if data.header_only {
                        channels + 1
                    } else {
                        groups + 1
                    }
                    &&& factory_state(*final(channel_factory)).ids == Some(
                        if data.header_only {
                            (groups, channels + 1)
                        } else {
                            (groups + 1, channels)
                        },
                    )
                    &&& factory_state(*final(channel_factory)) == factory_state(
                        *old(channel_factory),
                    ).with_id(data.header_only)
                },
                Err(error) => {
                    &&& result == Err::<Downstream, PoolError>(error)
                    &&& *final(channel_factory) == *old(channel_factory)
                },
            },
    {
        match setup {
            Ok(downstream_data) => {
                let id: u32 = if downstream_data.header_only {
                    next_standard_id(channel_factory)
                } else {
                    next_group_id(channel_factory)
                };
                Ok(Downstream { id, downstream_data })
            },
            Err(error) => Err(error),
        }
    }

    /// The message that a frame of the downstream carries, for its handler.
    pub fn next(&self, incoming: Vec<u8>) -> (result: Result<Incoming, PoolError>)
        ensures
            match result {
                Ok(message) => {
                    &&& incoming_of(incoming@) == Some((message.message_type, message.payload@))
                    &&& incoming@.len() >= 6
                    &&& incoming@.len() >= HEADER_SIZE
                    &&& message.payload@.len() == incoming@.len() - 6
                    &&& message.message_type == incoming@[2]
                    &&& message.payload@ == incoming@.skip(HEADER_SIZE as int)
                },
                Err(error) => {
                    &&& incoming_of(incoming@) is None
                    &&& incoming@.len() < HEADER_SIZE
                    &&& error matches PoolError::Custom(text) && text@ == "No header set"@
                },
            },
    {
        match unframe(incoming) {
            Some(message) => Ok(message),
            None => Err(PoolError::Custom("No header set".to_string())),
        }
    }

    /// What the answer of a handler comes to: the messages to send, and whether the downstream is
    /// refused with the last of them. The handler must not have failed, and nothing that is
    /// reached in its answer may be a relay.
    pub fn match_send_to(
        &self,
        send_to: Result<SendTo, roles_logic_sv2::errors::Error>,
    ) -> (plan: SendPlan)
        requires
            answerable(self.id, send_to),
        ensures
            send_to matches Ok(send_to) && plan@ == plan_of(self.id, send_to),
            plan@.outcome !is Unhandled,
            plan.outcome !is Unhandled,
            send_to matches Ok(SendTo::Respond(message)) ==> {
                &&& plan.messages@ == seq![message]
                &&& match message {
                    Mining::OpenMiningChannelError(body) => {
                        &&& plan.outcome matches Outcome::ProtocolError(refused, refusal)
                        &&& refused == self.id
                        &&& refusal matches Mining::OpenMiningChannelError(told)
                        &&& told@ == body@
                    },
                    _ => plan.outcome is Done,
                }
            },
            send_to matches Ok(SendTo::Nothing(_)) ==> plan.messages@.len() == 0 && plan.outcome
                is Done,
    {
        Downstream::plan_answer(self.id, send_to)
    }

    /// What any answer of a handler comes to, for the downstream with this id. Where the handler
    /// failed there is nothing to send, and where a relay is reached nothing after it; either is
    /// told by the outcome.
    pub fn plan_answer(id: u32, send_to: Result<SendTo, roles_logic_sv2::errors::Error>) -> (plan:
        SendPlan)
        ensures
            plan@ == match send_to {
                Ok(send_to) => plan_of(id, send_to),
                Err(_) => (SendPlanView {
                    messages: Seq::empty(),
                    outcome: OutcomeView::Unhandled,
                }),
            },
            plan@.outcome !is Unhandled <==> answerable(id, send_to),
            match send_to {
                Ok(SendTo::Respond(message)) => {
                    &&& plan.messages@ == seq![message]
                    &&& match message {
                        Mining::OpenMiningChannelError(body) => {
                            &&& plan.outcome matches Outcome::ProtocolError(refused, refusal)
                            &&& refused == id
                            &&& refusal matches Mining::OpenMiningChannelError(told)
                            &&& told@ == body@
                        },
                        _ => plan.outcome is Done,
                    }
                },
                Ok(SendTo::Nothing(_)) => plan.messages@.len() == 0 && plan.outcome is Done,
                Ok(SendTo::Relay) => plan.messages@.len() == 0 && plan.outcome is Unhandled,
                Ok(SendTo::Multiple(_)) => true,
                Err(_) => plan.messages@.len() == 0 && plan.outcome is Unhandled,
            },
    {
        match send_to {
            Ok(send_to) => Downstream::plan(id, send_to),
            Err(_) => {
                let plan = SendPlan { messages: Vec::new(), outcome: Outcome::Unhandled };
                assert(plan@.messages =~= Seq::empty());
                plan
            },
        }
    }

    fn plan(id: u32, send_to: SendTo) -> (plan: SendPlan)
        ensures
            plan@ == plan_of(id, send_to),
            match send_to {
                SendTo::Respond(message) => {
                    &&& plan.messages@ == seq![message]
                    &&& match message {
                        Mining::OpenMiningChannelError(body) => {
                            &&& plan.outcome matches Outcome::ProtocolError(refused, refusal)
                            &&& refused == id
                            &&& refusal matches Mining::OpenMiningChannelError(told)
                            &&& told@ == body@
                        },
                        _ => plan.outcome is Done,
                    }
                },
                SendTo::Nothing(_) => plan.messages@.len() == 0 && plan.outcome is Done,
                SendTo::Relay => plan.messages@.len() == 0 && plan.outcome is Unhandled,
                SendTo::Multiple(_) => true,
            },
        decreases send_to,
    {
        match send_to {
            SendTo::Respond(message) => Downstream::respond(id, message),
            SendTo::Multiple(parts) => {
                let ghost all = parts@;
                let mut plan = SendPlan { messages: Vec::new(), outcome: Outcome::Done };
                assert(plan@.messages =~= Seq::empty());
                for part in iter: parts
                    invariant
                        iter.seq() == all,
                        plan@ == plan_of_all(id, all.take(iter.index() as int)),
                        forall|i: int|
                            0 <= i < all.len() ==> decreases_to!(send_to => #[trigger] all[i]),
                {
                    assert(all.take(iter.index() + 1).drop_last() =~= all.take(
                        iter.index() as int,
                    ));
                    match plan.outcome {
                        Outcome::Done => {
                            let mut rest = Downstream::plan(id, part);
                            plan.messages.append(&mut rest.messages);
                            plan.outcome = rest.outcome;
                        },
                        _ => {},
                    }
                }
                assert(all.take(all.len() as int) =~= all);
                plan
            },
            SendTo::Nothing(_) => {
                let plan = SendPlan { messages: Vec::new(), outcome: Outcome::Done };
                assert(plan@.messages =~= Seq::empty());
                plan
            },
            SendTo::Relay => {
                let plan = SendPlan { messages: Vec::new(), outcome: Outcome::Unhandled };
                assert(plan@.messages =~= Seq::empty());
                plan
            },
        }
    }

    fn respond(id: u32, message: Mining) -> (plan: SendPlan)
        ensures
            plan@ == plan_of(id, SendTo::Respond(message)),
            plan.messages@ == seq![message],
            match message {
                Mining::OpenMiningChannelError(body) => {
                    &&& plan.outcome matches Outcome::ProtocolError(refused, refusal)
                    &&& refused == id
                    &&& refusal matches Mining::OpenMiningChannelError(told)
                    &&& told@ == body@
                },
                _ => plan.outcome is Done,
            },
    {
        let outcome = match &message {
            Mining::OpenMiningChannelError(_) => {
                Outcome::ProtocolError(id, message.duplicate())
            },
            _ => Outcome::Done,
        };
        let mut messages: Vec<Mining> = Vec::new();
        messages.push(message);
        let plan = SendPlan { messages, outcome };
        assert(plan@.messages =~= seq![message@]);
        plan
    }

    /// What the downstream asked for when it set up its connection.
    pub fn get_downstream_mining_data(&self) -> (data: CommonDownstreamData)
        ensures
            data == self.downstream_data,
    {
        self.downstream_data
    }
}

/// In a plan the refusal to open a channel comes last, if at all, and the plan then ends with the
/// error for that downstream.
pub open spec fn refusal_is_last(id: u32, plan: SendPlanView) -> bool {
    &&& plan.outcome matches OutcomeView::ProtocolError(refused, refusal) ==> {
        &&& refused == id
        &&& plan.messages.len() > 0
        &&& plan.messages.last() == refusal
        &&& refusal is OpenMiningChannelError
    }
    &&& forall|i: int|
        0 <= i < plan.messages.len() ==> (#[trigger] plan.messages[i] is OpenMiningChannelError
            <==> plan.outcome is ProtocolError && i == plan.messages.len() - 1)
}

/// Whatever a handler answers: where the downstream is refused, the refusal is the last message
/// that it is sent, and the answer ends with the error that names the downstream.
pub proof fn lemma_refusal_is_last(id: u32, send_to: SendTo)
    ensures
        refusal_is_last(id, plan_of(id, send_to)),
        plan_of(id, send_to).outcome matches OutcomeView::ProtocolError(refused, refusal) ==> {
            &&& refused == id
            &&& plan_of(id, send_to).messages.len() > 0
            &&& plan_of(id, send_to).messages.last() == refusal
            &&& refusal is OpenMiningChannelError
        },
        forall|i: int|
            0 <= i < plan_of(id, send_to).messages.len() - 1 ==> !(#[trigger] plan_of(
                id,
                send_to,
            ).messages[i] is OpenMiningChannelError),
        plan_of(id, send_to).outcome !is ProtocolError ==> forall|i: int|
            0 <= i < plan_of(id, send_to).messages.len() ==> !(#[trigger] plan_of(
                id,
                send_to,
            ).messages[i] is OpenMiningChannelError),
    decreases send_to,
{
    if let SendTo::Multiple(parts) = send_to {
        lemma_refusal_is_last_of_all(id, parts@);
    }
}

proof fn lemma_refusal_is_last_of_all(id: u32, parts: Seq<SendTo>)
    ensures
        refusal_is_last(id, plan_of_all(id, parts)),
    decreases parts,
{
    if parts.len() > 0 {
        lemma_refusal_is_last_of_all(id, parts.drop_last());
        lemma_refusal_is_last(id, parts.last());
        let before = plan_of_all(id, parts.drop_last());
        if before.outcome is Done {
            let last = plan_of(id, parts.last());
            let plan = plan_of_all(id, parts);
            assert forall|i: int| 0 <= i < plan.messages.len() implies (
            #[trigger] plan.messages[i] is OpenMiningChannelError <==> plan.outcome is ProtocolError
                && i == plan.messages.len() - 1) by {
                if i < before.messages.len() {
                    assert(plan.messages[i] == before.messages[i]);
                } else {
                    assert(plan.messages[i] == last.messages[i - before.messages.len()]);
                }
            }
        }
    }
}

/// Answers one after the other come to what the first ones come to, followed, if those end well,
/// by what the others come to.
pub proof fn lemma_plan_concat(id: u32, first: Seq<SendTo>, second: Seq<SendTo>)
    ensures
        plan_of_all(id, first + second) == if plan_of_all(id, first).outcome is Done {
            SendPlanView {
                messages: plan_of_all(id, first).messages + plan_of_all(id, second).messages,
                outcome: plan_of_all(id, second).outcome,
            }
        } else {
            plan_of_all(id, first)
        },
    decreases second.len(),
{
    if second.len() == 0 {
        assert(first + second =~= first);
        assert(plan_of_all(id, first).messages + plan_of_all(id, second).messages =~= plan_of_all(
            id,
            first,
        ).messages);
    } else {
        assert((first + second).drop_last() =~= first + second.drop_last());
        lemma_plan_concat(id, first, second.drop_last());
        if plan_of_all(id, first).outcome is Done && plan_of_all(id, second.drop_last()).outcome
            is Done {
            let last = plan_of(id, second.last());
            assert(plan_of_all(id, first).messages + plan_of_all(id, second.drop_last()).messages
                + last.messages =~= plan_of_all(id, first).messages + (plan_of_all(
                id,
                second.drop_last(),
            ).messages + last.messages));
        }
    }
}

/// A single answer comes to the same by itself and as the only one of several.
pub proof fn lemma_plan_single(id: u32, send_to: SendTo)
    ensures
        plan_of_all(id, seq![send_to]) == plan_of(id, send_to),
{
    reveal_with_fuel(plan_of_all, 2);
    assert(seq![send_to].drop_last() =~= Seq::empty());
    assert(Seq::<MiningView>::empty() + plan_of(id, send_to).messages =~= plan_of(
        id,
        send_to,
    ).messages);
}

/// No relay occurs in an answer, at its top or inside of it.
pub open spec fn has_no_relay(send_to: SendTo) -> bool
    decreases send_to,
{
    match send_to {
        SendTo::Multiple(parts) => forall|i: int|
            0 <= i < parts@.len() ==> has_no_relay(#[trigger] parts@[i]),
        SendTo::Relay => false,
        _ => true,
    }
}

/// An answer without a relay can be given to any downstream, and one that is a relay to none.
pub proof fn lemma_answerable(id: u32, send_to: SendTo)
    ensures
        has_no_relay(send_to) ==> answerable(id, Ok(send_to)),
        send_to is Relay ==> !answerable(id, Ok(send_to)),
    decreases send_to,
{
    if let SendTo::Multiple(parts) = send_to {
        if has_no_relay(send_to) {
            lemma_answerable_all(id, parts@);
        }
    }
}

proof fn lemma_answerable_all(id: u32, parts: Seq<SendTo>)
    requires
        forall|i: int| 0 <= i < parts.len() ==> has_no_relay(#[trigger] parts[i]),
    ensures
        plan_of_all(id, parts).outcome !is Unhandled,
    decreases parts,
{
    if parts.len() > 0 {
        let others = parts.drop_last();
        assert forall|i: int| 0 <= i < others.len() implies has_no_relay(#[trigger] others[i]) by {
            assert(has_no_relay(parts[i]));
        }
        lemma_answerable_all(id, others);
        assert(has_no_relay(parts[parts.len() - 1]));
        lemma_answerable(id, parts.last());
    }
}

/// Once a relay is reached after answers that end well, what was answered before it is sent, and
/// nothing else.
pub proof fn lemma_relay_ends_answer(id: u32, before: Seq<SendTo>, after: Seq<SendTo>)
    requires
        plan_of_all(id, before).outcome is Done,
    ensures
        plan_of_all(id, before + seq![SendTo::Relay] + after) == (SendPlanView {
            messages: plan_of_all(id, before).messages,
            outcome: OutcomeView::Unhandled,
        }),
{
    lemma_plan_single(id, SendTo::Relay);
    lemma_plan_concat(id, before, seq![SendTo::Relay]);
    lemma_plan_concat(id, before + seq![SendTo::Relay], after);
    assert(plan_of_all(id, before).messages + Seq::<MiningView>::empty() =~= plan_of_all(
        id,
        before,
    ).messages);
}

/// The content of a plan is that of its messages, each in its place, and of how it ends.
pub proof fn lemma_plan_content(plan: SendPlan)
    ensures
        plan@.messages.len() == plan.messages@.len(),
        forall|i: int|
            0 <= i < plan.messages@.len() ==> #[trigger] plan@.messages[i] == plan.messages@[i]@,
        match plan.outcome {
            Outcome::Done => plan@.outcome is Done,
            Outcome::ProtocolError(id, message) => {
                &&& plan@.outcome matches OutcomeView::ProtocolError(refused, refusal)
                &&& refused == id
                &&& refusal == message@
            },
            Outcome::Unhandled => plan@.outcome is Unhandled,
        },
{
}

/// An answer with a message comes to exactly that message, of whatever kind it is. It ends well,
/// unless the message refuses to open a channel: then it ends with that refusal, for the
/// downstream with this id.
pub proof fn lemma_response_is_sent(id: u32, message: Mining)
    ensures
        plan_of(id, SendTo::Respond(message)).messages == seq![message@],
        match message {
            Mining::OpenMiningChannelError(body) => {
                &&& plan_of(id, SendTo::Respond(message)).outcome
                    matches OutcomeView::ProtocolError(refused, refusal)
                &&& refused == id
                &&& refusal matches MiningView::OpenMiningChannelError(told)
                &&& told == body@
            },
            _ => plan_of(id, SendTo::Respond(message)).outcome is Done,
        },
{
}

/// An answer without a message sends nothing and ends well; a relay sends nothing and does not;
/// several answers come to what they come to one after the other; and no answers to nothing.
pub proof fn lemma_other_answers(id: u32, kept: Option<Mining>, parts: Vec<SendTo>)
    ensures
        plan_of(id, SendTo::Nothing(kept)).messages.len() == 0,
        plan_of(id, SendTo::Nothing(kept)).outcome is Done,
        plan_of(id, SendTo::Relay).messages.len() == 0,
        plan_of(id, SendTo::Relay).outcome is Unhandled,
        plan_of(id, SendTo::Multiple(parts)) == plan_of_all(id, parts@),
        plan_of_all(id, Seq::empty()).messages.len() == 0,
        plan_of_all(id, Seq::empty()).outcome is Done,
{
}

/// Several answers, none of them a refusal, a relay or several themselves, come to the messages
/// of those that have one, in their order, and end well.
pub proof fn lemma_responses_are_sent(id: u32, parts: Seq<SendTo>, messages: Seq<Mining>)
    requires
        parts.len() == messages.len(),
        forall|i: int|
            0 <= i < parts.len() ==> #[trigger] parts[i] == SendTo::Respond(messages[i])
                && !(messages[i] is OpenMiningChannelError),
    ensures
        plan_of_all(id, parts).messages.len() == messages.len(),
        forall|i: int|
            0 <= i < messages.len() ==> #[trigger] plan_of_all(id, parts).messages[i]
                == messages[i]@,
        plan_of_all(id, parts).outcome is Done,
    decreases parts.len(),
{
    if parts.len() > 0 {
        let last = parts.len() - 1;
        assert forall|i: int| 0 <= i < last implies #[trigger] parts.drop_last()[i]
            == SendTo::Respond(messages.drop_last()[i]) && !(messages.drop_last()[i]
            is OpenMiningChannelError) by {
            assert(parts[i] == SendTo::Respond(messages[i]));
        }
        lemma_responses_are_sent(id, parts.drop_last(), messages.drop_last());
        assert(parts[last] == SendTo::Respond(messages[last]));
        lemma_response_is_sent(id, messages[last]);
        let before = plan_of_all(id, parts.drop_last());
        let plan = plan_of_all(id, parts);
        assert(plan.messages == before.messages + seq![messages[last]@]);
        assert forall|i: int| 0 <= i < messages.len() implies #[trigger] plan.messages[i]
            == messages[i]@ by {
            if i < last {
                assert(before.messages[i] == messages.drop_last()[i]@);
            }
        }
    }
}

/// An answer can be given exactly where the handler did not fail and what its answer comes to is
/// not cut off by a relay.
pub proof fn lemma_when_answerable(
    id: u32,
    send_to: Result<SendTo, roles_logic_sv2::errors::Error>,
)
    ensures
        match send_to {
            Ok(send_to) => answerable(id, Ok(send_to)) <==> plan_of(id, send_to).outcome is Done
                || plan_of(id, send_to).outcome is ProtocolError,
            Err(error) => !answerable(id, Err(error)),
        },
{
}

/// A new downstream keeps all that it asked for, and its id is one more than the number of ids of
/// its kind that were handed out: of channels where it mines on headers only, and of groups where
/// it does not.
pub proof fn lemma_new_downstream(
    state: FactoryState,
    data: CommonDownstreamData,
    groups: nat,
    channels: nat,
)
    requires
        state.ids == Some((groups, channels)),
        groups < u32::MAX,
        channels < u32::MAX,
    ensures
        created(state, data).id == if data.header_only {
            channels + 1
        } else {
            groups + 1
        },
        created(state, data).downstream_data.header_only == data.header_only,
        created(state, data).downstream_data.work_selection == data.work_selection,
        created(state, data).downstream_data.version_rolling == data.version_rolling,
{
}

} // verus!
