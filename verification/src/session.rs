//! Per-connection session control: what one inbound frame makes the
//! session do. The loop around it — awaiting frames, performing the
//! actions, noticing transport errors — belongs to the connection task;
//! the decision itself is here.
use vstd::prelude::*;

verus! {

/// One inbound frame, as the transport hands it over.
pub enum FrameEvent {
    /// A text payload.
    Text(String),
    /// A binary payload: unsupported, ignored.
    Binary(Vec<u8>),
    /// A transport-level ping, answered by the transport itself.
    Ping(Vec<u8>),
    /// A transport-level pong.
    Pong(Vec<u8>),
    /// The peer closed the connection.
    Close,
}

/// What the session does with a frame: reply with a text frame, ignore
/// it, or end the loop.
#[derive(Debug, PartialEq, Eq)]
pub enum SessionAction {
    Reply(String),
    Ignore,
    Terminate,
}

/// The characters of the fixed prefix put before an echoed text payload.
pub open spec fn spec_echo_prefix() -> Seq<char> {
    seq!['Y', 'o', 'u', ' ', 's', 'a', 'i', 'd', ':', ' ']
}

/// The placeholder reply to a text payload: the fixed prefix, then the
/// payload itself, unchanged.
pub open spec fn spec_echo_reply(t: Seq<char>) -> Seq<char> {
    spec_echo_prefix() + t
}

/// Decide what one frame makes the session do: a text frame is answered
/// by the placeholder echo, binary frames and transport pings and pongs
/// are ignored, and a close frame ends the session. This is the whole
/// message protocol of the current scope; a real protocol replaces the
/// echo with typed messages.
pub fn session_step(event: FrameEvent) -> (a: SessionAction)
    ensures
        match event {
            FrameEvent::Text(t) => a matches SessionAction::Reply(r) && r@ == spec_echo_reply(t@),
            FrameEvent::Binary(_) => a is Ignore,
            FrameEvent::Ping(_) => a is Ignore,
            FrameEvent::Pong(_) => a is Ignore,
            FrameEvent::Close => a is Terminate,
        },
{
    match event {
        FrameEvent::Text(t) => {
            let reply = String::from_str("You said: ").concat(t.as_str());
            proof {
                reveal_strlit("You said: ");
                assert("You said: "@ =~= spec_echo_prefix());
            }
            SessionAction::Reply(reply)
        },
        FrameEvent::Binary(_) => SessionAction::Ignore,
        FrameEvent::Ping(_) => SessionAction::Ignore,
        FrameEvent::Pong(_) => SessionAction::Ignore,
        FrameEvent::Close => SessionAction::Terminate,
    }
}

/// A session ends exactly on a close frame: the action for every other
/// frame keeps the loop running.
pub proof fn lemma_session_terminates_only_on_close(event: FrameEvent, a: SessionAction)
    requires
        match event {
            FrameEvent::Text(t) => a matches SessionAction::Reply(r) && r@ == spec_echo_reply(t@),
            FrameEvent::Binary(_) => a is Ignore,
            FrameEvent::Ping(_) => a is Ignore,
            FrameEvent::Pong(_) => a is Ignore,
            FrameEvent::Close => a is Terminate,
        },
    ensures
        (a is Terminate) <==> (event is Close),
{
}

} // verus!
