//! The connection of the remote runner: at most one at a time.

use vstd::prelude::*;

verus! {

/// The protocol version this side speaks.
pub open spec fn protocol_version() -> Seq<char> {
    "1"@
}

/// Whether a remote runner has connected.
#[derive(Clone, Copy, Debug, PartialEq, Eq, Structural)]
pub enum SessionState {
    AwaitingConnection,
    Connected,
}

/// The answer to a runner's poll.
#[derive(Clone, Copy, Debug, PartialEq, Eq, Structural)]
pub enum PollReply {
    /// Another runner is connected already.
    AlreadyConnected,
    /// The runner speaks another protocol version.
    WrongProtocol,
    /// The runner is accepted; `warn_sync` when its file sync is off.
    Accepted { warn_sync: bool },
}

/// Does `s` read exactly as the protocol version?
fn is_protocol_version(s: &str) -> (r: bool)
    ensures
        r == (s@ == protocol_version()),
{
    proof {
        reveal_strlit("1");
    }
    if s.unicode_len() != 1 {
        return false;
    }
    let c = s.get_char(0);
    assert(s@ =~= seq![c]);
    assert("1"@ =~= seq!['1']);
    c == '1'
}

impl SessionState {
    /// The state and the reply after a runner polls with
    /// `protocol_version`; `sync_connected` tells whether its file sync is on.
    pub open spec fn poll_spec(self, version: Seq<char>, sync_connected: bool) -> (SessionState, PollReply) {
        if self == SessionState::Connected {
            (self, PollReply::AlreadyConnected)
        } else if version != protocol_version() {
            (self, PollReply::WrongProtocol)
        } else {
            (SessionState::Connected, PollReply::Accepted { warn_sync: !sync_connected })
        }
    }

    /// Handles a runner's poll: the first runner with the right protocol
    /// version is accepted; every later one, or one with another version,
    /// is turned away without changing the state.
    pub fn poll(&mut self, protocol_version: &str, sync_connected: bool) -> (r: PollReply)
        ensures
            (*final(self), r) == old(self).poll_spec(protocol_version@, sync_connected),
    {
        if *self == SessionState::Connected {
            return PollReply::AlreadyConnected;
        }
        if !is_protocol_version(protocol_version) {
            return PollReply::WrongProtocol;
        }
        *self = SessionState::Connected;
        PollReply::Accepted { warn_sync: !sync_connected }
    }
}

} // verus!
