use http_client::session::{Action, Frame, RsAction, RsSession, WsSession};

#[test]
fn session_waits_then_sends_in_order_then_listens() {
    let (mut s, a) = WsSession::start(vec![0, 2]);
    assert_eq!(a, Action::Send(0));
    assert_eq!(s.on_sent(0), Action::Receive);
    assert_eq!(s.on_frame(Frame::Message), Action::Receive);
    assert_eq!(s.on_frame(Frame::Message), Action::Receive);
    assert_eq!(s.on_frame(Frame::Ended), Action::Send(1));
    assert_eq!(s.on_sent(1), Action::Listen);
    assert_eq!(s.on_frame(Frame::Message), Action::Receive);
    assert_eq!(s.on_frame(Frame::Failed), Action::Finish(true));
}

#[test]
fn session_stops_on_close_or_error_before_the_last_message() {
    let (mut s, a) = WsSession::start(vec![1, 0]);
    assert_eq!(a, Action::Receive);
    assert_eq!(s.on_frame(Frame::Close), Action::Finish(true));
    let (mut t, _) = WsSession::start(vec![1]);
    assert_eq!(t.on_frame(Frame::Failed), Action::Finish(false));
}

#[test]
fn session_without_messages_listens_at_once() {
    let (mut s, a) = WsSession::start(vec![]);
    assert_eq!(a, Action::Listen);
    assert_eq!(s.on_frame(Frame::Ended), Action::Finish(true));
}

#[test]
fn rsocket_session_probes_then_sends_in_order() {
    let (mut s, a) = RsSession::start(vec![2, 0]);
    assert_eq!(a, RsAction::Probe);
    assert_eq!(s.on_result(false), RsAction::Probe);
    assert_eq!(s.on_result(true), RsAction::Send(0));
    assert_eq!(s.on_result(true), RsAction::Send(1));
    assert_eq!(s.on_result(true), RsAction::Finish(true));
}

#[test]
fn rsocket_session_stops_when_a_message_fails() {
    let (mut s, a) = RsSession::start(vec![0, 0]);
    assert_eq!(a, RsAction::Send(0));
    assert_eq!(s.on_result(false), RsAction::Finish(false));
    let (_, b) = RsSession::start(vec![]);
    assert_eq!(b, RsAction::Finish(true));
}
