//! The session store: whether a session is established and under which
//! identifier, and the handshake that establishes one.
//!
//! Signalling the notification channel and waiting for the settle period
//! are the caller's work. The store decides: it is told what happened, and
//! answers with what is to be done next.

use vstd::prelude::*;
use crate::batch::clone_text;
use crate::batch::outcome_of;
use crate::batch::text_of;
use crate::dispatch::step_spec;
use crate::dispatch::BulkDispatch;
use crate::dispatch::DispatchAction;
use crate::dispatch::DispatchEvent;

verus! {

/// A snapshot of the session, as the contracts see it.
pub ghost struct SessionView {
    pub is_connected: bool,
    pub session_id: Option<Seq<char>>,
    pub qr_code: Option<Seq<char>>,
}

/// A snapshot of the session as it is handed to callers.
pub struct WhatsAppSession {
    pub is_connected: bool,
    pub session_id: Option<String>,
    pub qr_code: Option<String>,
}

impl View for WhatsAppSession {
    type V = SessionView;

    open spec fn view(&self) -> SessionView {
        SessionView {
            is_connected: self.is_connected,
            session_id: text_of(self.session_id),
            qr_code: text_of(self.qr_code),
        }
    }
}

/// The snapshot of a store whose established identifier, if any, is
/// `store`: connected exactly when there is an identifier.
pub open spec fn snapshot_of(store: Option<Seq<char>>) -> SessionView {
    SessionView { is_connected: store is Some, session_id: store, qr_code: None }
}

/// The two signals of a handshake.
#[derive(Clone, Copy, PartialEq, Eq, Structural)]
pub enum SignalKind {
    /// A connection is pending; the payload is the token to be shown.
    Pending,
    /// The session is established.
    Connected,
}

/// Where a handshake stands.
#[derive(Clone, Copy, PartialEq, Eq, Structural)]
pub enum Handshake {
    /// Nothing has happened yet.
    Idle,
    /// The pending signal is with the notification channel.
    Announcing,
    /// The settle period is under way.
    Settling,
    /// The connected signal is with the notification channel.
    Confirming,
    /// The handshake has ended.
    Closed,
}

/// What the caller reports to the store, as the contracts see it.
pub ghost enum ConnectEventView {
    Begin,
    Signalled(Result<(), Seq<char>>),
    Settled,
}

/// What the caller reports to the store during a handshake.
pub enum ConnectEvent {
    /// The handshake is to begin.
    Begin,
    /// The notification channel has taken the signal, or was unavailable.
    Signalled(Result<(), String>),
    /// The settle period is over.
    Settled,
}

impl View for ConnectEvent {
    type V = ConnectEventView;

    open spec fn view(&self) -> ConnectEventView {
        match self {
            ConnectEvent::Begin => ConnectEventView::Begin,
            ConnectEvent::Signalled(outcome) => ConnectEventView::Signalled(outcome_of(*outcome)),
            ConnectEvent::Settled => ConnectEventView::Settled,
        }
    }
}

/// What the store asks of the caller, as the contracts see it.
pub ghost enum ConnectActionView {
    Signal { kind: SignalKind, payload: Option<Seq<char>> },
    Settle { seconds: u64 },
    Finish(Result<SessionView, Seq<char>>),
}

/// What the store asks of the caller during a handshake.
pub enum ConnectAction {
    /// Signal the notification channel, and report `Signalled`.
    Signal { kind: SignalKind, payload: Option<String> },
    /// Wait for so many seconds, and report `Settled`.
    Settle { seconds: u64 },
    /// The handshake has ended: with the session, or with the description
    /// of the channel's failure.
    Finish(Result<WhatsAppSession, String>),
}

impl View for ConnectAction {
    type V = ConnectActionView;

    open spec fn view(&self) -> ConnectActionView {
        match self {
            ConnectAction::Signal { kind, payload } => ConnectActionView::Signal {
                kind: *kind,
                payload: text_of(*payload),
            },
            ConnectAction::Settle { seconds } => ConnectActionView::Settle { seconds: *seconds },
            ConnectAction::Finish(result) => ConnectActionView::Finish(
                match result {
                    Ok(session) => Ok(session@),
                    Err(description) => Err(description@),
                },
            ),
        }
    }
}

/// The length of the settle period, in seconds.
pub const SETTLE_SECONDS: u64 = 3;

/// The token that goes out with the pending signal.
pub open spec fn pending_token() -> Seq<char> {
    "https://web.whatsapp.com/qr/MOCK_QR_CODE"@
}

/// Whether the step on `e` in phase `h` establishes a session in a store
/// that holds `store`: the settle period is over and there is none yet.
pub open spec fn establishes(store: Option<Seq<char>>, h: Handshake, e: ConnectEventView) -> bool {
    h == Handshake::Settling && e == ConnectEventView::Settled && store is None
}

/// One step of a handshake: the store, the phase and the action that follow
/// from a store that holds `store` and a handshake in phase `h` on event
/// `e`, or `None` where the handshake does not await `e`. `fresh` is the
/// identifier that a newly established session gets.
///
/// A store that is connected is never given another identifier: the
/// handshake ends with the session that is there. A channel failure ends
/// the handshake and leaves the store disconnected.
pub open spec fn connect_spec(
    store: Option<Seq<char>>,
    h: Handshake,
    e: ConnectEventView,
    fresh: Seq<char>,
) -> Option<(Option<Seq<char>>, Handshake, ConnectActionView)> {
    match (h, e) {
        (Handshake::Idle, ConnectEventView::Begin) => Some(
            if store is Some {
                (store, Handshake::Closed, ConnectActionView::Finish(Ok(snapshot_of(store))))
            } else {
                (
                    store,
                    Handshake::Announcing,
                    ConnectActionView::Signal {
                        kind: SignalKind::Pending,
                        payload: Some(pending_token()),
                    },
                )
            },
        ),
        (Handshake::Announcing, ConnectEventView::Signalled(Ok(_))) => Some(
            (store, Handshake::Settling, ConnectActionView::Settle { seconds: SETTLE_SECONDS }),
        ),
        (Handshake::Announcing, ConnectEventView::Signalled(Err(description))) => Some(
            (store, Handshake::Closed, ConnectActionView::Finish(Err(description))),
        ),
        (Handshake::Settling, ConnectEventView::Settled) => Some(
            if store is Some {
                (store, Handshake::Closed, ConnectActionView::Finish(Ok(snapshot_of(store))))
            } else {
                (
                    Some(fresh),
                    Handshake::Confirming,
                    ConnectActionView::Signal { kind: SignalKind::Connected, payload: None },
                )
            },
        ),
        (Handshake::Confirming, ConnectEventView::Signalled(Ok(_))) => Some(
            (store, Handshake::Closed, ConnectActionView::Finish(Ok(snapshot_of(store)))),
        ),
        (Handshake::Confirming, ConnectEventView::Signalled(Err(description))) => Some(
            (None, Handshake::Closed, ConnectActionView::Finish(Err(description))),
        ),
        _ => None,
    }
}

pub open spec fn is_lower_hex(c: char) -> bool {
    ('0' <= c && c <= '9') || ('a' <= c && c <= 'f')
}

/// The shape of an identifier in hyphenated form: 36 characters, hyphens
/// after the groups of 8, 4, 4 and 4, and lower-case hexadecimal digits
/// everywhere else.
pub open spec fn is_hyphenated_identifier(s: Seq<char>) -> bool {
    &&& s.len() == 36
    &&& forall|i: int|
        0 <= i < 36 ==> if i == 8 || i == 13 || i == 18 || i == 23 {
            #[trigger] s[i] == '-'
        } else {
            is_lower_hex(s[i])
        }
}

/// `uuid::Uuid::new_v4` followed by `to_string`: a random identifier in
/// hyphenated lower-case form. Which one comes back is left open; only its
/// shape is claimed.
#[verifier::external_body]
fn fresh_session_id() -> (id: String)
    ensures
        is_hyphenated_identifier(id@),
{
    uuid::Uuid::new_v4().to_string()
}

/// The owner of the session state.
///
/// Its view is the identifier of the established session, if there is one:
/// the store is connected exactly when its view is `Some`.
pub struct WhatsAppManager {
    session: Option<String>,
    is_connected: bool,
}

impl View for WhatsAppManager {
    type V = Option<Seq<char>>;

    closed spec fn view(&self) -> Option<Seq<char>> {
        text_of(self.session)
    }
}

impl WhatsAppManager {
    #[verifier::type_invariant]
    spec fn consistent(&self) -> bool {
        self.is_connected <==> self.session is Some
    }

    /// A store in the disconnected state.
    pub fn new() -> (store: Self)
        ensures
            store@ is None,
    {
        Self { session: None, is_connected: false }
    }

    /// Drops the session, whatever the state was.
    pub fn disconnect(&mut self)
        ensures
            final(self)@ is None,
    {
        *self = Self { session: None, is_connected: false };
    }

    /// Whether a session is established.
    pub fn is_connected(&self) -> (connected: bool)
        ensures
            connected == (self@ is Some),
    {
        proof {
            use_type_invariant(self);
        }
        self.is_connected
    }

    /// A snapshot of the session.
    pub fn session(&self) -> (snapshot: WhatsAppSession)
        ensures
            snapshot@ == snapshot_of(self@),
    {
        proof {
            use_type_invariant(self);
        }
        WhatsAppSession {
            is_connected: self.is_connected,
            session_id: clone_text(&self.session),
            qr_code: None,
        }
    }

    /// Establishes a session under `id`, unless one is established already:
    /// then the store stays as it is.
    pub fn establish(&mut self, id: String)
        ensures
            final(self)@ == if old(self)@ is Some {
                old(self)@
            } else {
                Some(id@)
            },
    {
        proof {
            use_type_invariant(&*self);
        }
        if !self.is_connected {
            *self = Self { session: Some(id), is_connected: true };
        }
    }

    /// Takes one step of a handshake with `fresh` as the identifier of a
    /// newly established session: on an event that the handshake awaits,
    /// moves on and answers with what is to be done next; on any other
    /// event, leaves store and handshake as they are and answers `None`.
    pub fn advance(
        &mut self,
        handshake: &mut Handshake,
        event: ConnectEvent,
        fresh: String,
    ) -> (action: Option<ConnectAction>)
        ensures
            match connect_spec(old(self)@, *old(handshake), event@, fresh@) {
                Some((store, phase, act)) => {
                    &&& final(self)@ == store
                    &&& *final(handshake) == phase
                    &&& action is Some
                    &&& action->0@ == act
                },
                None => {
                    &&& final(self)@ == old(self)@
                    &&& *final(handshake) == *old(handshake)
                    &&& action is None
                },
            },
    {
        match (*handshake, event) {
            (Handshake::Idle, ConnectEvent::Begin) => {
                if self.is_connected() {
                    *handshake = Handshake::Closed;
                    Some(ConnectAction::Finish(Ok(self.session())))
                } else {
                    *handshake = Handshake::Announcing;
                    Some(
                        ConnectAction::Signal {
                            kind: SignalKind::Pending,
                            payload: Some("https://web.whatsapp.com/qr/MOCK_QR_CODE".to_string()),
                        },
                    )
                }
            },
            (Handshake::Announcing, ConnectEvent::Signalled(Ok(_))) => {
                *handshake = Handshake::Settling;
                Some(ConnectAction::Settle { seconds: SETTLE_SECONDS })
            },
            (Handshake::Announcing, ConnectEvent::Signalled(Err(description))) => {
                *handshake = Handshake::Closed;
                Some(ConnectAction::Finish(Err(description)))
            },
            (Handshake::Settling, ConnectEvent::Settled) => {
                if self.is_connected() {
                    *handshake = Handshake::Closed;
                    Some(ConnectAction::Finish(Ok(self.session())))
                } else {
                    self.establish(fresh);
                    *handshake = Handshake::Confirming;
                    Some(ConnectAction::Signal { kind: SignalKind::Connected, payload: None })
                }
            },
            (Handshake::Confirming, ConnectEvent::Signalled(Ok(_))) => {
                *handshake = Handshake::Closed;
                Some(ConnectAction::Finish(Ok(self.session())))
            },
            (Handshake::Confirming, ConnectEvent::Signalled(Err(description))) => {
                self.disconnect();
                *handshake = Handshake::Closed;
                Some(ConnectAction::Finish(Err(description)))
            },
            _ => None,
        }
    }

    /// Takes one step of a handshake, as `advance` does, with an identifier
    /// of its own making where the step establishes a session.
    pub fn initialize_session(
        &mut self,
        handshake: &mut Handshake,
        event: ConnectEvent,
    ) -> (action: Option<ConnectAction>)
        ensures
            exists|fresh: Seq<char>|
                {
                    &&& establishes(old(self)@, *old(handshake), event@)
                        ==> is_hyphenated_identifier(fresh)
                    &&& #[trigger] connect_spec(old(self)@, *old(handshake), event@, fresh)
                        == match action {
                        Some(act) => Some((final(self)@, *final(handshake), act@)),
                        None => None,
                    }
                },
            action is None ==> final(self)@ == old(self)@ && *final(handshake) == *old(handshake),
    {
        let settled = match (*handshake, &event) {
            (Handshake::Settling, ConnectEvent::Settled) => true,
            _ => false,
        };
        let fresh = if settled && !self.is_connected() {
            fresh_session_id()
        } else {
            String::new()
        };
        let ghost witness = fresh@;
        let action = self.advance(handshake, event, fresh);
        proof {
            assert(connect_spec(old(self)@, *old(handshake), event@, witness) == match action {
                Some(act) => Some((self@, *handshake, act@)),
                None => None,
            });
        }
        action
    }

    /// Takes one step of a bulk dispatch under this store's session: the
    /// dispatch starts only if a session is established, and ends at once
    /// with `NotConnected` if none is.
    pub fn send_bulk_messages(
        &self,
        dispatch: &mut BulkDispatch,
        event: DispatchEvent,
    ) -> (action: Option<DispatchAction>)
        ensures
            match step_spec(self@ is Some, old(dispatch)@, event@) {
                Some((next, act)) => {
                    &&& final(dispatch)@ == next
                    &&& action is Some
                    &&& action->0@ == act
                },
                None => final(dispatch)@ == old(dispatch)@ && action is None,
            },
    {
        let connected = self.is_connected();
        dispatch.step(connected, event)
    }
}

} // verus!
