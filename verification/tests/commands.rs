use yeelight_ctl::codec::{create_message, parse_params, Session};
use yeelight_ctl::control::{control_step, ControlError, ControlEvent, ControlState};

#[test]
fn numeric_tokens_bare_text_tokens_quoted() {
    assert_eq!(parse_params("on smooth 500"), "\"on\", \"smooth\", 500");
}

#[test]
fn parse_params_token_classification() {
    assert_eq!(parse_params("-42"), "-42");
    assert_eq!(parse_params("+7"), "+7");
    assert_eq!(parse_params("2147483647"), "2147483647");
    // one past i32::MAX no longer reads as a number
    assert_eq!(parse_params("2147483648"), "\"2147483648\"");
    assert_eq!(parse_params("-2147483648"), "-2147483648");
    assert_eq!(parse_params("3.5"), "\"3.5\"");
    assert_eq!(parse_params(""), "\"\"");
    assert_eq!(parse_params("a  b"), "\"a\", \"\", \"b\"");
}

#[test]
fn create_message_exact_wire_form() {
    assert_eq!(
        create_message(0, "set_power", "\"on\", \"smooth\", 500"),
        "{\"id\":0,\"method\":\"set_power\",\"params\":[\"on\", \"smooth\", 500]}\r\n"
    );
    assert_eq!(
        create_message(4294967295, "toggle", ""),
        "{\"id\":4294967295,\"method\":\"toggle\",\"params\":[]}\r\n"
    );
}

#[test]
fn session_ids_increase_by_one_from_zero() {
    let mut session = Session::new();
    let (id0, msg0) = session.issue("set_power", "\"on\"");
    let (id1, _msg1) = session.issue("toggle", "");
    let (id2, _msg2) = session.issue("set_bright", "50");
    assert_eq!(id0, 0);
    assert_eq!(id1, 1);
    assert_eq!(id2, 2);
    assert_eq!(msg0, "{\"id\":0,\"method\":\"set_power\",\"params\":[\"on\"]}\r\n");
}

#[test]
fn connect_failure_distinct_from_send_failure() {
    let connecting = control_step(ControlState::Idle, ControlEvent::Start);
    assert_eq!(connecting, ControlState::Connecting);
    let refused = control_step(connecting, ControlEvent::ConnectFailed);
    assert_eq!(refused, ControlState::Failed(ControlError::ConnectFailure));

    let sending = control_step(ControlState::Connecting, ControlEvent::Connected);
    assert_eq!(sending, ControlState::Sending);
    let broken_pipe = control_step(sending, ControlEvent::SendFailed);
    assert_eq!(broken_pipe, ControlState::Failed(ControlError::SendFailure));

    assert_ne!(refused, broken_pipe);
}

#[test]
fn successful_invocation_reaches_done_with_reply() {
    let mut state = ControlState::Idle;
    state = control_step(state, ControlEvent::Start);
    state = control_step(state, ControlEvent::Connected);
    state = control_step(state, ControlEvent::Sent);
    state = control_step(state, ControlEvent::Received(vec![111, 107]));
    assert_eq!(state, ControlState::Done(vec![111, 107]));
}

#[test]
fn receive_failure_distinct_from_send_failure() {
    let awaiting = ControlState::AwaitingReply;
    let read_failed = control_step(awaiting, ControlEvent::ReceiveFailed);
    assert_eq!(read_failed, ControlState::Failed(ControlError::ReceiveFailure));
    assert_ne!(read_failed, ControlState::Failed(ControlError::SendFailure));
}

#[test]
fn terminal_states_absorb_events() {
    let failed = ControlState::Failed(ControlError::ConnectFailure);
    assert_eq!(control_step(failed.clone(), ControlEvent::Start), failed);
    let done = ControlState::Done(vec![1]);
    assert_eq!(control_step(done.clone(), ControlEvent::ReceiveFailed), done);
}

#[test]
fn mismatched_event_leaves_state_unchanged() {
    assert_eq!(
        control_step(ControlState::Idle, ControlEvent::Sent),
        ControlState::Idle
    );
    assert_eq!(
        control_step(ControlState::Sending, ControlEvent::Connected),
        ControlState::Sending
    );
}
