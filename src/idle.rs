use vstd::prelude::*;

verus! {

/// What the server pushed while the listener waited.
pub enum IdleEvent {
    /// A message arrived; the number is the mailbox's new message count, its
    /// sequence number.
    Exists(u32),
    /// The attributes of message `id` changed; each list holds the flags
    /// reported in one flags attribute.
    FlagChange { id: u32, flag_lists: Vec<Vec<String>> },
    /// The server closed the connection.
    Bye,
    /// Anything else.
    Other,
}

/// The flag that marks a message as read.
pub open spec fn seen_flag() -> Seq<char> {
    "\\Seen"@
}

/// The list holds the seen flag.
pub open spec fn marks_seen(flags: Seq<String>) -> bool {
    exists|j: int| 0 <= j < flags.len() && flags[j]@ == seen_flag()
}

/// The notification that an event gives, if any: every new message, and a
/// change of flags that reports a flag list without the seen flag.
pub open spec fn idle_notification(event: IdleEvent) -> Option<u32> {
    match event {
        IdleEvent::Exists(id) => Some(id),
        IdleEvent::FlagChange { id, flag_lists } => {
            if exists|k: int| 0 <= k < flag_lists@.len() && !marks_seen(flag_lists@[k]@) {
                Some(id)
            } else {
                None
            }
        },
        _ => None,
    }
}

/// What the listener does after one event.
pub struct IdleOutcome {
    /// The sequence number to hand to the reconciliation loop.
    pub notification: Option<u32>,
    /// Whether to go on waiting on the same call.
    pub keep_waiting: bool,
}

fn has_seen(flags: &Vec<String>) -> (r: bool)
    ensures
        r == marks_seen(flags@),
{
    let seen = String::from_str("\\Seen");
    let mut j: usize = 0;
    while j < flags.len()
        invariant
            0 <= j <= flags.len(),
            seen@ == seen_flag(),
            forall|i: int| 0 <= i < j ==> flags@[i]@ != seen_flag(),
        decreases flags.len() - j,
    {
        if flags[j] == seen {
            return true;
        }
        j = j + 1;
    }
    false
}

fn reports_unseen(flag_lists: &Vec<Vec<String>>) -> (r: bool)
    ensures
        r == exists|k: int| 0 <= k < flag_lists@.len() && !marks_seen(flag_lists@[k]@),
{
    let mut k: usize = 0;
    while k < flag_lists.len()
        invariant
            0 <= k <= flag_lists.len(),
            forall|i: int| 0 <= i < k ==> marks_seen(flag_lists@[i]@),
        decreases flag_lists.len() - k,
    {
        if !has_seen(&flag_lists[k]) {
            return true;
        }
        k = k + 1;
    }
    false
}

/// Decides on one pushed event: at most one notification, and the wait
/// always ends so that a fresh one is started.
pub fn process_idle_update(event: &IdleEvent) -> (r: IdleOutcome)
    ensures
        r.notification == idle_notification(*event),
        *event matches IdleEvent::Exists(id) ==> r.notification == Some(id),
        *event matches IdleEvent::FlagChange { id, flag_lists } ==> {
            &&& (exists|k: int| 0 <= k < flag_lists@.len() && !marks_seen(flag_lists@[k]@))
                ==> r.notification == Some(id)
            &&& (forall|k: int| 0 <= k < flag_lists@.len() ==> marks_seen(flag_lists@[k]@))
                ==> r.notification is None
        },
        *event is Bye ==> r.notification is None,
        !r.keep_waiting,
{
    let notification = match event {
        IdleEvent::Exists(id) => Some(*id),
        IdleEvent::FlagChange { id, flag_lists } => {
            if reports_unseen(flag_lists) {
                Some(*id)
            } else {
                None
            }
        },
        IdleEvent::Bye => None,
        IdleEvent::Other => None,
    };
    IdleOutcome { notification, keep_waiting: false }
}

/// The phases of the listener's connection.
#[derive(PartialEq, Eq, Structural, Clone, Copy, Debug)]
pub enum ListenerState {
    /// No connection yet.
    Disconnected,
    /// Opening a session.
    Connecting,
    /// Waiting for the server to push an event.
    Idling,
}

/// What happened to the listener's connection.
#[derive(PartialEq, Eq, Structural, Clone, Copy, Debug)]
pub enum ListenerEvent {
    /// The listener starts.
    Start,
    /// A session was opened.
    Connected,
    /// Opening a session failed.
    ConnectFailed,
    /// The wait returned, after one event or on timeout.
    WaitEnded,
    /// The connection failed while waiting.
    TransportError,
}

/// The listener's next phase: it retries opening without end, re-enters the
/// wait after every return, and reconnects after a transport failure.
pub open spec fn next_listener_state(state: ListenerState, event: ListenerEvent) -> ListenerState {
    match (state, event) {
        (ListenerState::Disconnected, ListenerEvent::Start) => ListenerState::Connecting,
        (ListenerState::Connecting, ListenerEvent::Connected) => ListenerState::Idling,
        (ListenerState::Connecting, ListenerEvent::ConnectFailed) => ListenerState::Connecting,
        (ListenerState::Idling, ListenerEvent::WaitEnded) => ListenerState::Idling,
        (ListenerState::Idling, ListenerEvent::TransportError) => ListenerState::Connecting,
        _ => state,
    }
}

/// One transition of the listener.
pub fn listener_step(state: ListenerState, event: ListenerEvent) -> (r: ListenerState)
    ensures
        r == next_listener_state(state, event),
{
    match (state, event) {
        (ListenerState::Disconnected, ListenerEvent::Start) => ListenerState::Connecting,
        (ListenerState::Connecting, ListenerEvent::Connected) => ListenerState::Idling,
        (ListenerState::Connecting, ListenerEvent::ConnectFailed) => ListenerState::Connecting,
        (ListenerState::Idling, ListenerEvent::WaitEnded) => ListenerState::Idling,
        (ListenerState::Idling, ListenerEvent::TransportError) => ListenerState::Connecting,
        _ => state,
    }
}

} // verus!
