//! One relay connection: its states and what the pool reports of it.

use vstd::prelude::*;
use vstd::string::*;

verus! {

/// The state of the connection to one relay.
#[derive(Debug, Clone, Copy, PartialEq, Eq, Structural)]
pub enum RelayStatus {
    Disconnected,
    Connecting,
    Connected,
    Disconnecting,
    Terminated,
}

impl RelayStatus {
    /// The steps a connection can take. A connection is dialled from
    /// `Disconnected`, or again from `Terminated`; the dial ends in
    /// `Connected` or back in `Disconnected`; a live connection is closed in
    /// order, lost, or terminated for a protocol violation.
    pub open spec fn can_become(self, next: RelayStatus) -> bool {
        match self {
            RelayStatus::Disconnected => next == RelayStatus::Connecting,
            RelayStatus::Connecting => next == RelayStatus::Connected || next
                == RelayStatus::Disconnected,
            RelayStatus::Connected => next == RelayStatus::Disconnecting || next
                == RelayStatus::Disconnected || next == RelayStatus::Terminated,
            RelayStatus::Disconnecting => next == RelayStatus::Disconnected,
            RelayStatus::Terminated => next == RelayStatus::Connecting,
        }
    }

    /// Whether the connection can take the step from this state to `next`.
    pub fn may_become(self, next: RelayStatus) -> (ok: bool)
        ensures
            ok == self.can_become(next),
    {
        match self {
            RelayStatus::Disconnected => next == RelayStatus::Connecting,
            RelayStatus::Connecting => next == RelayStatus::Connected || next
                == RelayStatus::Disconnected,
            RelayStatus::Connected => next == RelayStatus::Disconnecting || next
                == RelayStatus::Disconnected || next == RelayStatus::Terminated,
            RelayStatus::Disconnecting => next == RelayStatus::Disconnected,
            RelayStatus::Terminated => next == RelayStatus::Connecting,
        }
    }

    /// The name of the state in lower case.
    pub open spec fn name(self) -> Seq<char> {
        match self {
            RelayStatus::Disconnected => "disconnected"@,
            RelayStatus::Connecting => "connecting"@,
            RelayStatus::Connected => "connected"@,
            RelayStatus::Disconnecting => "disconnecting"@,
            RelayStatus::Terminated => "terminated"@,
        }
    }

    /// The name of the state in lower case, for display.
    pub fn label(self) -> (text: String)
        ensures
            text@ == self.name(),
    {
        match self {
            RelayStatus::Disconnected => String::from_str("disconnected"),
            RelayStatus::Connecting => String::from_str("connecting"),
            RelayStatus::Connected => String::from_str("connected"),
            RelayStatus::Disconnecting => String::from_str("disconnecting"),
            RelayStatus::Terminated => String::from_str("terminated"),
        }
    }
}

/// Every state of the sequence can become the next one.
pub open spec fn is_path(states: Seq<RelayStatus>) -> bool {
    forall|i: int| 0 <= i < states.len() - 1 ==> (#[trigger] states[i]).can_become(states[i + 1])
}

/// The connection can get from `from` to `target` in at most three steps.
pub open spec fn can_reach(from: RelayStatus, target: RelayStatus) -> bool {
    exists|path: Seq<RelayStatus>|
        #![auto]
        is_path(path) && 1 <= path.len() <= 4 && path[0] == from && path.last() == target
}

/// No state is a dead end: from every state a connection can be brought up
/// and can be brought down in at most three steps. So the outcome of a dial
/// or of a close can be recorded whatever state the relay was in.
pub proof fn lemma_every_state_recovers(from: RelayStatus)
    ensures
        can_reach(from, RelayStatus::Connected),
        can_reach(from, RelayStatus::Disconnected),
{
    let up = RelayStatus::Connected;
    let down = RelayStatus::Disconnected;
    let dial = RelayStatus::Connecting;
    let (to_up, to_down) = match from {
        RelayStatus::Disconnected => (seq![from, dial, up], seq![from]),
        RelayStatus::Connecting => (seq![from, up], seq![from, down]),
        RelayStatus::Connected => (seq![from], seq![from, down]),
        RelayStatus::Disconnecting => (seq![from, down, dial, up], seq![from, down]),
        RelayStatus::Terminated => (seq![from, dial, up], seq![from, dial, down]),
    };
    assert(is_path(to_up) && 1 <= to_up.len() <= 4 && to_up[0] == from && to_up.last() == up);
    assert(is_path(to_down) && 1 <= to_down.len() <= 4 && to_down[0] == from && to_down.last()
        == down);
}

/// The address of a relay as the URL standard writes it, or `None` where
/// the text is no URL of a relay: it has to parse as a URL, with one `://`
/// and the scheme `ws` or `wss`. Two texts name one relay exactly when they
/// have one address.
pub uninterp spec fn relay_address(url: Seq<char>) -> Option<Seq<char>>;

/// Parses the URL of a relay with `nostr::RelayUrl::parse` and prints the
/// URL that it holds.
///
/// Trusted: the outcome is `relay_address` of the text.
#[verifier::external_body]
pub(crate) fn parse_relay_url(url: &str) -> (address: Option<String>)
    ensures
        address.deep_view() == relay_address(url@),
{
    nostr::RelayUrl::parse(url).ok().map(|relay| String::from(nostr::Url::from(relay)))
}

/// What the pool reports of one relay. `connected` says whether `status` is
/// `Connected`.
#[derive(Debug, Clone)]
pub struct RelayInfo {
    pub url: String,
    pub status: RelayStatus,
    pub connected: bool,
}

/// The mathematical content of a registered relay.
pub struct RelayData {
    pub url: Seq<char>,
    pub status: RelayStatus,
}

impl View for RelayInfo {
    type V = RelayData;

    open spec fn view(&self) -> RelayData {
        RelayData { url: self.url@, status: self.status }
    }
}

impl RelayInfo {
    /// The `connected` flag agrees with the status.
    pub open spec fn is_consistent(&self) -> bool {
        self.connected == (self.status == RelayStatus::Connected)
    }

    /// The report of a relay in the given state.
    pub fn new(url: String, status: RelayStatus) -> (info: RelayInfo)
        ensures
            info@ == (RelayData { url: url@, status }),
            info.is_consistent(),
    {
        RelayInfo { url, status, connected: status == RelayStatus::Connected }
    }
}

} // verus!
