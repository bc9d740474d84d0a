use vstd::prelude::*;
use vstd::string::StringExecFns;

verus! {

/// How long the requester has to confirm, in milliseconds.
pub const COLLECTION_WINDOW_MS: u64 = 30000;

/// The command text that a confirmed session forwards to the executor: a
/// compile command with the code in a fenced block tagged with its language.
pub open spec fn compile_command(language: Seq<char>, code: Seq<char>) -> Seq<char> {
    ";compile\n```"@ + language + "\n"@ + code + "\n```"@
}

fn compile_request(language: &str, code: &str) -> (r: String)
    ensures
        r@ == compile_command(language@, code@),
{
    proof {
        reveal_strlit(";compile\n```");
        reveal_strlit("\n");
        reveal_strlit("\n```");
    }
    let mut r = String::from_str(";compile\n```");
    r.append(language);
    r.append("\n");
    r.append(code);
    r.append("\n```");
    r
}

/// An emoji as the session compares it: a custom emoji by its id, or a
/// single-character unicode emoji. Anything else is `Other`.
#[derive(Clone, Copy, Debug, PartialEq, Eq, Structural)]
pub enum Emoji {
    Custom(u64),
    Unicode(char),
    Other,
}

/// The marker posted on a qualifying message: the configured custom emoji
/// when there is one, else the laptop emoji.
pub fn marker_for(custom_emoji_id: Option<u64>) -> (r: Emoji)
    ensures
        r == (match custom_emoji_id {
            Some(id) => Emoji::Custom(id),
            None => Emoji::Unicode('\u{1F4BB}'),
        }),
{
    match custom_emoji_id {
        Some(id) => Emoji::Custom(id),
        None => Emoji::Unicode('\u{1F4BB}'),
    }
}

#[derive(Clone, Copy, Debug, PartialEq, Eq, Structural)]
pub enum SessionState {
    /// Created; the marker reaction is being posted.
    Pending,
    /// Marker posted; waiting for the requester to react with it.
    Armed,
    /// The requester confirmed within the window.
    Confirmed,
    /// The external request is in flight.
    Executing,
    Completed,
    Failed,
    /// The window elapsed without confirmation.
    Expired,
    /// The marker could not be posted.
    Aborted,
}

/// What happened to a session, as the surrounding runtime observed it.
#[derive(Clone, Copy, Debug, PartialEq, Eq, Structural)]
pub enum SessionEvent {
    MarkerPosted { at: u64 },
    MarkerRejected,
    Reaction { actor: u64, emoji: Emoji, at: u64 },
    WindowElapsed { at: u64 },
    ExecutionStarted,
    ExecutionSucceeded,
    ExecutionFailed,
}

/// What the surrounding runtime must do next for a session.
#[derive(Clone, Copy, Debug, PartialEq, Eq, Structural)]
pub enum SessionAction {
    Nothing,
    /// Wait for reactions until the deadline.
    AwaitConfirmation { deadline: u64 },
    /// Remove the marker reaction; the session is over.
    StripMarker,
    /// Remove the marker reaction and send the request to the executor.
    StripMarkerAndExecute,
    /// Send the result as a reply to the triggering message, and track it.
    SendResult { reply_to: u64, channel_id: u64 },
    /// Send a failure notice addressed to the requester, and track it.
    SendFailure { requester_id: u64, channel_id: u64 },
}

/// One reaction-gated request, keyed by the message that triggered it.
#[derive(Clone, Copy, Debug, PartialEq, Eq, Structural)]
pub struct ConfirmationSession {
    pub triggering_message_id: u64,
    pub channel_id: u64,
    pub requester_id: u64,
    pub marker: Emoji,
    /// When the marker was posted (milliseconds); meaningful once armed.
    pub armed_at: u64,
    pub state: SessionState,
}

pub open spec fn deadline(s: ConfirmationSession) -> int {
    s.armed_at + COLLECTION_WINDOW_MS
}

/// A reaction confirms an armed session when the requester reacts with the
/// marker strictly before the deadline.
pub open spec fn confirms(s: ConfirmationSession, actor: u64, emoji: Emoji, at: u64) -> bool {
    s.state == SessionState::Armed && actor == s.requester_id && emoji == s.marker && at < deadline(s)
}

pub open spec fn next_session(s: ConfirmationSession, e: SessionEvent) -> ConfirmationSession {
    match e {
        SessionEvent::MarkerPosted { at } => if s.state == SessionState::Pending {
            ConfirmationSession { state: SessionState::Armed, armed_at: at, ..s }
        } else {
            s
        },
        SessionEvent::MarkerRejected => if s.state == SessionState::Pending {
            ConfirmationSession { state: SessionState::Aborted, ..s }
        } else {
            s
        },
        SessionEvent::Reaction { actor, emoji, at } => if confirms(s, actor, emoji, at) {
            ConfirmationSession { state: SessionState::Confirmed, ..s }
        } else {
            s
        },
        SessionEvent::WindowElapsed { at } => if s.state == SessionState::Armed && at >= deadline(s) {
            ConfirmationSession { state: SessionState::Expired, ..s }
        } else {
            s
        },
        SessionEvent::ExecutionStarted => if s.state == SessionState::Confirmed {
            ConfirmationSession { state: SessionState::Executing, ..s }
        } else {
            s
        },
        SessionEvent::ExecutionSucceeded => if s.state == SessionState::Executing {
            ConfirmationSession { state: SessionState::Completed, ..s }
        } else {
            s
        },
        SessionEvent::ExecutionFailed => if s.state == SessionState::Executing {
            ConfirmationSession { state: SessionState::Failed, ..s }
        } else {
            s
        },
    }
}

pub open spec fn next_action(s: ConfirmationSession, e: SessionEvent) -> SessionAction {
    let n = next_session(s, e);
    if n.state == s.state {
        SessionAction::Nothing
    } else {
        match n.state {
            SessionState::Armed => SessionAction::AwaitConfirmation {
                deadline: if deadline(n) > u64::MAX {
                    u64::MAX
                } else {
                    deadline(n) as u64
                },
            },
            SessionState::Confirmed => SessionAction::StripMarkerAndExecute,
            SessionState::Expired => SessionAction::StripMarker,
            SessionState::Completed => SessionAction::SendResult {
                reply_to: s.triggering_message_id,
                channel_id: s.channel_id,
            },
            SessionState::Failed => SessionAction::SendFailure {
                requester_id: s.requester_id,
                channel_id: s.channel_id,
            },
            _ => SessionAction::Nothing,
        }
    }
}

pub open spec fn sends_message(a: SessionAction) -> bool {
    a is SendResult || a is SendFailure
}

pub open spec fn run_session(s: ConfirmationSession, events: Seq<SessionEvent>) -> ConfirmationSession
    decreases events.len(),
{
    if events.len() == 0 {
        s
    } else {
        run_session(next_session(s, events[0]), events.drop_first())
    }
}

/// Number of outbound messages that a sequence of events makes a session send.
pub open spec fn messages_sent(s: ConfirmationSession, events: Seq<SessionEvent>) -> nat
    decreases events.len(),
{
    if events.len() == 0 {
        0
    } else {
        (if sends_message(next_action(s, events[0])) {
            1nat
        } else {
            0nat
        }) + messages_sent(next_session(s, events[0]), events.drop_first())
    }
}

pub open spec fn is_confirming_event(s: ConfirmationSession, e: SessionEvent) -> bool {
    match e {
        SessionEvent::Reaction { actor, emoji, at } => confirms(s, actor, emoji, at),
        _ => false,
    }
}

pub open spec fn closes_window(s: ConfirmationSession, e: SessionEvent) -> bool {
    match e {
        SessionEvent::WindowElapsed { at } => at >= deadline(s),
        _ => false,
    }
}

impl ConfirmationSession {
    /// Opens a session for a message whose attachment resolved to an
    /// execution target; no session is opened otherwise.
    pub fn open(
        triggering_message_id: u64,
        channel_id: u64,
        requester_id: u64,
        marker: Emoji,
        target_resolved: bool,
    ) -> (r: Option<ConfirmationSession>)
        ensures
            r is Some <==> target_resolved,
            r matches Some(s) ==> s == (ConfirmationSession {
                triggering_message_id,
                channel_id,
                requester_id,
                marker,
                armed_at: 0,
                state: SessionState::Pending,
            }),
    {
        if target_resolved {
            Some(
                ConfirmationSession {
                    triggering_message_id,
                    channel_id,
                    requester_id,
                    marker,
                    armed_at: 0,
                    state: SessionState::Pending,
                },
            )
        } else {
            None
        }
    }

    fn within_window(&self, at: u64) -> (r: bool)
        ensures
            r == (at < deadline(*self)),
    {
        at < self.armed_at || at - self.armed_at < COLLECTION_WINDOW_MS
    }

    /// Applies one event and says what to do next.
    pub fn step(&mut self, e: SessionEvent) -> (a: SessionAction)
        ensures
            *final(self) == next_session(*old(self), e),
            a == next_action(*old(self), e),
    {
        match e {
            SessionEvent::MarkerPosted { at } => {
                if self.state == SessionState::Pending {
                    self.state = SessionState::Armed;
                    self.armed_at = at;
                    let deadline = if at > u64::MAX - COLLECTION_WINDOW_MS {
                        u64::MAX
                    } else {
                        at + COLLECTION_WINDOW_MS
                    };
                    return SessionAction::AwaitConfirmation { deadline };
                }
            },
            SessionEvent::MarkerRejected => {
                if self.state == SessionState::Pending {
                    self.state = SessionState::Aborted;
                }
            },
            SessionEvent::Reaction { actor, emoji, at } => {
                if self.state == SessionState::Armed && actor == self.requester_id && emoji
                    == self.marker && self.within_window(at) {
                    self.state = SessionState::Confirmed;
                    return SessionAction::StripMarkerAndExecute;
                }
            },
            SessionEvent::WindowElapsed { at } => {
                if self.state == SessionState::Armed && !self.within_window(at) {
                    self.state = SessionState::Expired;
                    return SessionAction::StripMarker;
                }
            },
            SessionEvent::ExecutionStarted => {
                if self.state == SessionState::Confirmed {
                    self.state = SessionState::Executing;
                }
            },
            SessionEvent::ExecutionSucceeded => {
                if self.state == SessionState::Executing {
                    self.state = SessionState::Completed;
                    return SessionAction::SendResult {
                        reply_to: self.triggering_message_id,
                        channel_id: self.channel_id,
                    };
                }
            },
            SessionEvent::ExecutionFailed => {
                if self.state == SessionState::Executing {
                    self.state = SessionState::Failed;
                    return SessionAction::SendFailure {
                        requester_id: self.requester_id,
                        channel_id: self.channel_id,
                    };
                }
            },
        }
        SessionAction::Nothing
    }

    /// Moves a confirmed session to executing and builds the command that
    /// goes to the executor. Any other session is left as it is.
    pub fn start_execution(&mut self, language: &str, code: &str) -> (r: Option<String>)
        ensures
            *final(self) == next_session(*old(self), SessionEvent::ExecutionStarted),
            r is Some <==> old(self).state == SessionState::Confirmed,
            r matches Some(c) ==> c@ == compile_command(language@, code@),
    {
        if self.state == SessionState::Confirmed {
            self.state = SessionState::Executing;
            Some(compile_request(language, code))
        } else {
            None
        }
    }

    /// Whether the session has reached a state that no event leaves.
    pub fn is_finished(&self) -> (r: bool)
        ensures
            r == (self.state == SessionState::Completed || self.state == SessionState::Failed
                || self.state == SessionState::Expired || self.state == SessionState::Aborted),
    {
        match self.state {
            SessionState::Completed | SessionState::Failed | SessionState::Expired
            | SessionState::Aborted => true,
            _ => false,
        }
    }
}

proof fn lemma_unconfirmed_run(s: ConfirmationSession, events: Seq<SessionEvent>)
    requires
        s.state == SessionState::Armed || s.state == SessionState::Expired,
        forall|k: int| 0 <= k < events.len() ==> !is_confirming_event(s, #[trigger] events[k]),
    ensures
        messages_sent(s, events) == 0,
        run_session(s, events).state == SessionState::Armed || run_session(s, events).state
            == SessionState::Expired,
        run_session(s, events).armed_at == s.armed_at,
        run_session(s, events).requester_id == s.requester_id,
        run_session(s, events).marker == s.marker,
        s.state == SessionState::Expired ==> run_session(s, events).state == SessionState::Expired,
        (exists|k: int| 0 <= k < events.len() && closes_window(s, #[trigger] events[k]))
            ==> run_session(s, events).state == SessionState::Expired,
    decreases events.len(),
{
    if events.len() > 0 {
        let n = next_session(s, events[0]);
        assert(!is_confirming_event(s, events[0]));
        assert forall|k: int| 0 <= k < events.drop_first().len() implies !is_confirming_event(
            n,
            #[trigger] events.drop_first()[k],
        ) by {
            assert(events.drop_first()[k] == events[k + 1]);
            assert(!is_confirming_event(s, events[k + 1]));
        }
        lemma_unconfirmed_run(n, events.drop_first());
        if exists|k: int| 0 <= k < events.len() && closes_window(s, #[trigger] events[k]) {
            let k = choose|k: int| 0 <= k < events.len() && closes_window(s, #[trigger] events[k]);
            if k > 0 {
                assert(events.drop_first()[k - 1] == events[k]);
                assert(closes_window(n, events.drop_first()[k - 1]));
            }
        }
    }
}

/// An armed session that sees no confirming reaction sends no message,
/// whatever else happens, and once its window is reported elapsed it is
/// expired.
pub proof fn law_unconfirmed_session_expires_silently(
    s: ConfirmationSession,
    events: Seq<SessionEvent>,
)
    requires
        s.state == SessionState::Armed,
        forall|k: int| 0 <= k < events.len() ==> !is_confirming_event(s, #[trigger] events[k]),
    ensures
        messages_sent(s, events) == 0,
        run_session(s, events).state != SessionState::Confirmed,
        (exists|k: int| 0 <= k < events.len() && closes_window(s, #[trigger] events[k]))
            ==> run_session(s, events).state == SessionState::Expired,
{
    lemma_unconfirmed_run(s, events);
}

/// The requester's marker reaction confirms when it comes before the end of
/// the window, and does not once the window is over.
pub proof fn law_window_edge(s: ConfirmationSession, eps: u64)
    requires
        s.state == SessionState::Armed,
        0 < eps <= COLLECTION_WINDOW_MS,
        s.armed_at + COLLECTION_WINDOW_MS + eps <= u64::MAX,
    ensures
        next_session(
            s,
            SessionEvent::Reaction {
                actor: s.requester_id,
                emoji: s.marker,
                at: (s.armed_at + COLLECTION_WINDOW_MS - eps) as u64,
            },
        ).state == SessionState::Confirmed,
        next_session(
            s,
            SessionEvent::Reaction {
                actor: s.requester_id,
                emoji: s.marker,
                at: (s.armed_at + COLLECTION_WINDOW_MS + eps) as u64,
            },
        ).state == SessionState::Armed,
{
}

} // verus!
