use jest_companion::session::{PollReply, SessionState};

#[test]
fn first_poll_with_right_version_connects() {
    let mut s = SessionState::AwaitingConnection;
    assert_eq!(s.poll("1", true), PollReply::Accepted { warn_sync: false });
    assert_eq!(s, SessionState::Connected);
}

#[test]
fn poll_without_sync_warns() {
    let mut s = SessionState::AwaitingConnection;
    assert_eq!(s.poll("1", false), PollReply::Accepted { warn_sync: true });
}

#[test]
fn second_poll_is_refused() {
    let mut s = SessionState::AwaitingConnection;
    s.poll("1", true);
    assert_eq!(s.poll("1", true), PollReply::AlreadyConnected);
    assert_eq!(s, SessionState::Connected);
}

#[test]
fn wrong_protocol_is_refused_and_keeps_waiting() {
    let mut s = SessionState::AwaitingConnection;
    assert_eq!(s.poll("2", true), PollReply::WrongProtocol);
    assert_eq!(s.poll("11", true), PollReply::WrongProtocol);
    assert_eq!(s.poll("", true), PollReply::WrongProtocol);
    assert_eq!(s, SessionState::AwaitingConnection);
}
