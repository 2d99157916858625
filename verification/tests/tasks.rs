use mining_pool::accept::{AcceptAction, AcceptEvent, AcceptTask};
use mining_pool::delivery::{Delivery, DeliveryStep};
use mining_pool::downstream::{CommonDownstreamData, Downstream, Outcome, SendTo};
use mining_pool::error::{ErrorBranch, PoolError};
use mining_pool::frame::EitherFrame;
use mining_pool::message::{EncodedMessage, Mining, SetNewPrevHash};
use mining_pool::new_template::{TemplateAction, TemplateEvent, TemplateTask};
use mining_pool::pool::State;
use mining_pool::prev_hash::{PrevHashAction, PrevHashEvent, PrevHashTask};
use mining_pool::receiver::{ReceiverAction, ReceiverEvent, ReceiverState, ReceiverTask};
use mining_pool::template::NewPrevHash;

fn downstream(id: u32) -> Downstream {
    Downstream {
        id,
        downstream_data: CommonDownstreamData {
            header_only: true,
            work_selection: false,
            version_rolling: false,
        },
    }
}

fn other(message_type: u8) -> Mining {
    Mining::Other(EncodedMessage { message_type, channel_bit: false, payload: vec![] })
}

fn refusal() -> Mining {
    Mining::OpenMiningChannelError(vec![1, 2, 3])
}

fn error() -> PoolError {
    PoolError::PoisonLock(String::from("held"))
}

fn is_error(error: &PoolError) -> bool {
    matches!(error, PoolError::PoisonLock(text) if text == "held")
}

fn frames(send_to: SendTo) -> (Vec<u8>, DeliveryStep) {
    let plan = Downstream::plan_answer(4, Ok(send_to));
    let mut types = vec![];
    let mut step = Delivery::new(plan).step(Ok(()));
    while let DeliveryStep::Send(frame, rest) = step {
        types.push(frame[2]);
        step = rest.step(Ok(()));
    }
    (types, step)
}

fn prev_hash() -> NewPrevHash {
    NewPrevHash {
        template_id: 12,
        prev_hash: [8; 32],
        header_timestamp: 9,
        n_bits: 10,
        target: [11; 32],
    }
}

fn announce(ids: Vec<u32>) -> (PrevHashTask, PrevHashAction) {
    let (task, action) = PrevHashTask::new().step(PrevHashEvent::Received(prev_hash()));
    assert!(matches!(action, PrevHashAction::Record(12)));
    let (task, action) = task.step(PrevHashEvent::Recorded(Ok(())));
    assert!(matches!(action, PrevHashAction::Locate(hash) if hash == prev_hash()));
    let (task, action) = task.step(PrevHashEvent::Located(Ok(3)));
    assert!(matches!(action, PrevHashAction::List));
    task.step(PrevHashEvent::Listed(Ok(ids)))
}

fn told(action: &PrevHashAction) -> u32 {
    match action {
        PrevHashAction::Deliver(id, message) => {
            let expected = SetNewPrevHash {
                channel_id: *id,
                job_id: 3,
                prev_hash: [8; 32],
                min_ntime: 9,
                nbits: 10,
            };
            assert_eq!(*message, expected);
            *id
        }
        _ => panic!(),
    }
}

#[test]
fn answer_is_sent() {
    let (types, end) = frames(SendTo::Respond(other(7)));
    assert_eq!(types, vec![7]);
    assert!(matches!(end, DeliveryStep::Finish(Ok(()))));
}

#[test]
fn no_answer_sends_nothing() {
    let (types, end) = frames(SendTo::Nothing(Some(other(7))));
    assert!(types.is_empty());
    assert!(matches!(end, DeliveryStep::Finish(Ok(()))));
}

#[test]
fn answers_are_sent_in_their_order() {
    let (types, end) = frames(SendTo::Multiple(vec![
        SendTo::Respond(other(1)),
        SendTo::Multiple(vec![SendTo::Respond(other(2)), SendTo::Nothing(None)]),
        SendTo::Respond(other(3)),
    ]));
    assert_eq!(types, vec![1, 2, 3]);
    assert!(matches!(end, DeliveryStep::Finish(Ok(()))));
}

#[test]
fn refusal_is_sent_and_ends_the_answer() {
    let (types, end) = frames(SendTo::Multiple(vec![
        SendTo::Respond(other(1)),
        SendTo::Multiple(vec![SendTo::Respond(refusal()), SendTo::Respond(other(2))]),
        SendTo::Respond(other(3)),
    ]));
    assert_eq!(types, vec![1, 0x12]);
    match end {
        DeliveryStep::Finish(Err(PoolError::Sv2ProtocolError(
            4,
            Mining::OpenMiningChannelError(payload),
        ))) => assert_eq!(payload, vec![1, 2, 3]),
        _ => panic!(),
    }
}

#[test]
fn relay_is_not_for_a_pool() {
    let (types, end) = frames(SendTo::Multiple(vec![
        SendTo::Respond(other(1)),
        SendTo::Relay,
        SendTo::Respond(other(2)),
    ]));
    assert_eq!(types, vec![1]);
    assert!(matches!(end, DeliveryStep::Unhandled));
}

#[test]
fn failed_handler_is_not_handled() {
    let plan =
        Downstream::plan_answer(4, Err(roles_logic_sv2::errors::Error::UnexpectedMessage(7)));
    assert!(plan.messages.is_empty());
    assert!(matches!(plan.outcome, Outcome::Unhandled));
}

#[test]
fn answers_by_parts_come_to_the_same() {
    let (whole, _) = frames(SendTo::Multiple(vec![
        SendTo::Respond(other(1)),
        SendTo::Respond(other(2)),
        SendTo::Respond(other(3)),
    ]));
    let (mut parts, _) =
        frames(SendTo::Multiple(vec![SendTo::Respond(other(1)), SendTo::Respond(other(2))]));
    parts.extend(frames(SendTo::Multiple(vec![SendTo::Respond(other(3))])).0);
    assert_eq!(whole, parts);
}

#[test]
fn failed_send_is_the_last() {
    let plan = downstream(4).match_send_to(Ok(SendTo::Multiple(vec![
        SendTo::Respond(other(1)),
        SendTo::Respond(other(2)),
        SendTo::Respond(refusal()),
    ])));
    let step = match Delivery::new(plan).step(Ok(())) {
        DeliveryStep::Send(frame, rest) => {
            assert_eq!(frame, vec![0, 0, 1, 0, 0, 0]);
            rest.step(Ok(()))
        }
        _ => panic!(),
    };
    let end = match step {
        DeliveryStep::Send(frame, rest) => {
            assert_eq!(frame[2], 2);
            rest.step(Err(error()))
        }
        _ => panic!(),
    };
    assert!(matches!(end, DeliveryStep::Finish(Err(error)) if is_error(&error)));
}

#[test]
fn delivery_stops_at_what_cannot_be_sent() {
    let too_large = EncodedMessage {
        message_type: 5,
        channel_bit: false,
        payload: vec![0; 0x1000000],
    };
    let (types, end) = frames(SendTo::Multiple(vec![
        SendTo::Respond(other(1)),
        SendTo::Respond(Mining::Other(too_large)),
        SendTo::Respond(other(2)),
    ]));
    assert_eq!(types, vec![1]);
    assert!(matches!(end, DeliveryStep::Finish(Err(PoolError::BadPayloadSize))));
}

#[test]
fn all_downstreams_are_told_of_a_prev_hash() {
    let (mut task, mut action) = announce(vec![5, 2, 9]);
    for id in [5, 2, 9] {
        assert_eq!(told(&action), id);
        (task, action) = task.step(PrevHashEvent::Delivered(Ok(())));
    }
    assert!(matches!(action, PrevHashAction::Signal));
    let (_, action) = task.step(PrevHashEvent::Signalled(Ok(())));
    assert!(matches!(action, PrevHashAction::Receive));
}

#[test]
fn pool_without_downstreams_gives_the_signal() {
    let (_, action) = announce(vec![]);
    assert!(matches!(action, PrevHashAction::Signal));
}

#[test]
fn failed_downstream_does_not_keep_the_others_from_a_prev_hash() {
    let (task, action) = announce(vec![5, 2]);
    assert_eq!(told(&action), 5);
    let (task, action) = task.step(PrevHashEvent::Delivered(Err(error())));
    assert!(matches!(action, PrevHashAction::Report(error) if is_error(&error)));
    let (task, action) = task.step(PrevHashEvent::Reported(ErrorBranch::Continue));
    assert_eq!(told(&action), 2);
    let (_, action) = task.step(PrevHashEvent::Delivered(Ok(())));
    assert!(matches!(action, PrevHashAction::Signal));
}

#[test]
fn break_ends_the_round_but_not_the_task() {
    let (task, action) = announce(vec![5, 2]);
    assert_eq!(told(&action), 5);
    let (task, _) = task.step(PrevHashEvent::Delivered(Err(error())));
    let (task, action) = task.step(PrevHashEvent::Reported(ErrorBranch::Break));
    assert!(matches!(action, PrevHashAction::Signal));
    let (_, action) = task.step(PrevHashEvent::Signalled(Ok(())));
    assert!(matches!(action, PrevHashAction::Receive));
}

#[test]
fn prev_hash_task_reports_and_goes_on_or_ends() {
    let received = || PrevHashTask::new().step(PrevHashEvent::Received(prev_hash())).0;
    let recorded = || received().step(PrevHashEvent::Recorded(Ok(()))).0;
    let located = || recorded().step(PrevHashEvent::Located(Ok(1))).0;
    let told = || located().step(PrevHashEvent::Listed(Ok(vec![]))).0;
    let failures: Vec<(PrevHashTask, PrevHashEvent)> = vec![
        (received(), PrevHashEvent::Recorded(Err(error()))),
        (recorded(), PrevHashEvent::Located(Err(error()))),
        (located(), PrevHashEvent::Listed(Err(error()))),
        (told(), PrevHashEvent::Signalled(Err(error()))),
    ];
    for (task, event) in failures {
        let (task, action) = task.step(event);
        assert!(matches!(action, PrevHashAction::Report(error) if is_error(&error)));
        let (_, action) = task.step(PrevHashEvent::Reported(ErrorBranch::Continue));
        assert!(matches!(action, PrevHashAction::Receive));
    }
    let (task, _) = received().step(PrevHashEvent::Recorded(Err(error())));
    let (_, action) = task.step(PrevHashEvent::Reported(ErrorBranch::Break));
    assert!(matches!(action, PrevHashAction::Finish));
    let (_, action) = PrevHashTask::new().step(PrevHashEvent::Closed);
    assert!(matches!(action, PrevHashAction::Finish));
}

#[test]
fn template_task_reports_and_goes_on_or_ends() {
    let (_, action) = TemplateTask::new().step(TemplateEvent::Closed);
    assert!(matches!(action, TemplateAction::Finish));
    for (branch, ends) in [(ErrorBranch::Break, true), (ErrorBranch::Continue, false)] {
        let (task, action) =
            TemplateTask::Making.step(TemplateEvent::Made(Err(PoolError::BadPayloadSize)));
        assert!(matches!(action, TemplateAction::Report(PoolError::BadPayloadSize)));
        let (_, action) = task.step(TemplateEvent::Reported(branch));
        assert_eq!(matches!(action, TemplateAction::Finish), ends);
        assert_eq!(matches!(action, TemplateAction::Receive), !ends);
        let (_, action) = TemplateTask::Marking.step(TemplateEvent::Marked(Err(error())));
        assert!(matches!(action, TemplateAction::Report(error) if is_error(&error)));
        let (_, action) = TemplateTask::Signalling.step(TemplateEvent::Signalled(Err(error())));
        assert!(matches!(action, TemplateAction::Report(error) if is_error(&error)));
    }
}

#[test]
fn receiver_handles_frames_until_the_connection_closes() {
    let mut task = ReceiverTask::new(downstream(8));
    assert_eq!(task.state, ReceiverState::Starting);
    assert!(matches!(task.step(ReceiverEvent::Taken(Ok(()))), ReceiverAction::Receive));
    let frame = EitherFrame::Sv2(vec![0, 0, 0x13, 1, 0, 0, 9]);
    match task.step(ReceiverEvent::Received(frame)) {
        ReceiverAction::Handle(message) => {
            assert_eq!(message.message_type, 0x13);
            assert_eq!(message.payload, vec![9]);
        }
        _ => panic!(),
    }
    assert!(matches!(task.step(ReceiverEvent::Handled(Ok(()))), ReceiverAction::Receive));
    assert!(matches!(task.step(ReceiverEvent::Closed), ReceiverAction::Remove(8)));
    assert!(matches!(task.step(ReceiverEvent::Removed(Ok(()))), ReceiverAction::Stop));
    assert_eq!(task.state, ReceiverState::Stopped);
}

#[test]
fn receiver_tells_of_a_lost_connection() {
    let mut task = ReceiverTask::new(downstream(8));
    match task.step(ReceiverEvent::Taken(Err(String::from("poisoned")))) {
        ReceiverAction::Notify(State::Healthy(text)) => {
            assert_eq!(text, "Downstream connection dropped: poisoned");
        }
        _ => panic!(),
    }
    assert_eq!(task.state, ReceiverState::Stopped);
}

#[test]
fn receiver_reports_errors() {
    let mut task = ReceiverTask::new(downstream(8));
    task.step(ReceiverEvent::Taken(Ok(())));
    assert!(matches!(
        task.step(ReceiverEvent::Received(EitherFrame::HandShake(vec![]))),
        ReceiverAction::Report(PoolError::ExpectedSv2Frame)
    ));
    assert!(matches!(
        task.step(ReceiverEvent::Reported(ErrorBranch::Continue)),
        ReceiverAction::Receive
    ));
    match task.step(ReceiverEvent::Received(EitherFrame::Sv2(vec![0; 5]))) {
        ReceiverAction::Report(PoolError::Custom(text)) => assert_eq!(text, "No header set"),
        _ => panic!(),
    }
    task.step(ReceiverEvent::Reported(ErrorBranch::Continue));
    task.step(ReceiverEvent::Received(EitherFrame::Sv2(vec![0; 6])));
    assert!(matches!(
        task.step(ReceiverEvent::Handled(Err(error()))),
        ReceiverAction::Report(error) if is_error(&error)
    ));
    assert!(matches!(
        task.step(ReceiverEvent::Reported(ErrorBranch::Break)),
        ReceiverAction::Stop
    ));
}

#[test]
fn receiver_tries_again_to_remove() {
    let mut task = ReceiverTask::new(downstream(8));
    task.step(ReceiverEvent::Taken(Ok(())));
    task.step(ReceiverEvent::Closed);
    assert!(matches!(
        task.step(ReceiverEvent::Removed(Err(error()))),
        ReceiverAction::Report(error) if is_error(&error)
    ));
    assert!(matches!(
        task.step(ReceiverEvent::Reported(ErrorBranch::Continue)),
        ReceiverAction::Receive
    ));
    assert!(matches!(task.step(ReceiverEvent::Closed), ReceiverAction::Remove(8)));
}

#[test]
fn listener_accepts_until_there_are_no_more_connections() {
    let mut task = AcceptTask::Binding;
    assert!(matches!(task.step(AcceptEvent::Bound(Ok(()))), AcceptAction::Accept));
    assert!(matches!(task.step(AcceptEvent::Accepted), AcceptAction::Admit));
    assert!(matches!(task.step(AcceptEvent::Admitted(Ok(()))), AcceptAction::Accept));
    assert!(matches!(task.step(AcceptEvent::Closed), AcceptAction::Finish(Ok(()))));
    assert_eq!(task, AcceptTask::Stopped);
}

#[test]
fn listener_reports_a_failed_connection() {
    for branch in [ErrorBranch::Break, ErrorBranch::Continue] {
        let mut task = AcceptTask::Accepting;
        task.step(AcceptEvent::Accepted);
        assert!(matches!(
            task.step(AcceptEvent::Admitted(Err(error()))),
            AcceptAction::Report(error) if is_error(&error)
        ));
        match task.step(AcceptEvent::Reported(branch)) {
            AcceptAction::Accept => assert_eq!(branch, ErrorBranch::Continue),
            AcceptAction::Finish(Ok(())) => assert_eq!(branch, ErrorBranch::Break),
            _ => panic!(),
        }
    }
}

#[test]
fn listener_needs_its_address() {
    let mut task = AcceptTask::Binding;
    assert!(matches!(
        task.step(AcceptEvent::Bound(Err(error()))),
        AcceptAction::Finish(Err(error)) if is_error(&error)
    ));
}

#[test]
fn prev_hash_goes_out_in_one_frame() {
    let (_, action) = announce(vec![6]);
    let message = match action {
        PrevHashAction::Deliver(6, message) => message,
        _ => panic!(),
    };
    let plan = downstream(6).match_send_to(Ok(SendTo::Respond(Mining::SetNewPrevHash(message))));
    match Delivery::new(plan).step(Ok(())) {
        DeliveryStep::Send(frame, rest) => {
            assert_eq!(frame.len(), 54);
            assert_eq!(frame[..14], [0, 0x80, 0x20, 48, 0, 0, 6, 0, 0, 0, 3, 0, 0, 0]);
            assert!(matches!(rest.step(Ok(())), DeliveryStep::Finish(Ok(()))));
        }
        _ => panic!(),
    }
}

#[test]
fn jobs_and_refusals_do_not_go_by_as_other_messages() {
    for message_type in [0x12, 0x1f] {
        let (types, end) = frames(SendTo::Respond(other(message_type)));
        assert!(types.is_empty());
        assert!(matches!(end, DeliveryStep::Unhandled));
    }
}

#[test]
fn relay_inside_an_answer_ends_it() {
    let (types, end) = frames(SendTo::Multiple(vec![
        SendTo::Respond(other(1)),
        SendTo::Multiple(vec![SendTo::Nothing(None), SendTo::Relay]),
    ]));
    assert_eq!(types, vec![1]);
    assert!(matches!(end, DeliveryStep::Unhandled));
}

#[test]
fn answer_for_a_pool_is_planned_under_the_id_of_the_downstream() {
    let plan = downstream(4).match_send_to(Ok(SendTo::Multiple(vec![
        SendTo::Respond(other(1)),
        SendTo::Respond(refusal()),
        SendTo::Relay,
    ])));
    assert_eq!(plan.messages.len(), 2);
    assert!(matches!(plan.outcome, Outcome::ProtocolError(4, Mining::OpenMiningChannelError(_))));
}
