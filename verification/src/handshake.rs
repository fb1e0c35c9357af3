//! Handshakes that share one store: what several callers see when each of
//! them connects, in whatever order their steps are taken.

use vstd::prelude::*;
use crate::session::connect_spec;
use crate::session::snapshot_of;
use crate::session::ConnectActionView;
use crate::session::ConnectEventView;
use crate::session::Handshake;
use crate::session::SessionView;
use crate::session::SignalKind;

verus! {

/// A connected store keeps its identifier through every step of every
/// handshake in which the channel does not fail, and a handshake that ends
/// well there ends with that identifier.
pub proof fn lemma_connected_store_keeps_identifier(
    id: Seq<char>,
    h: Handshake,
    e: ConnectEventView,
    fresh: Seq<char>,
)
    requires
        !(e matches ConnectEventView::Signalled(Err(_))),
    ensures
        match connect_spec(Some(id), h, e, fresh) {
            Some((store, _, action)) => {
                &&& store == Some(id)
                &&& action matches ConnectActionView::Finish(Ok(session)) ==> session
                    == snapshot_of(Some(id))
            },
            None => true,
        },
{
}

/// One caller in the middle of `connect`: its handshake, the event that it
/// reports next, the identifier that its step would give a new session,
/// and the result once it has one.
pub ghost struct Caller {
    pub phase: Handshake,
    pub awaited: ConnectEventView,
    pub fresh: Seq<char>,
    pub result: Option<Result<SessionView, Seq<char>>>,
}

/// A caller that is about to begin.
pub open spec fn caller_at_start(fresh: Seq<char>) -> Caller {
    Caller { phase: Handshake::Idle, awaited: ConnectEventView::Begin, fresh, result: None }
}

/// The event with which a caller answers `action`, where `channel` says
/// what the notification channel does with each kind of signal.
pub open spec fn answer(
    channel: spec_fn(SignalKind) -> Result<(), Seq<char>>,
    action: ConnectActionView,
) -> ConnectEventView {
    match action {
        ConnectActionView::Signal { kind, .. } => ConnectEventView::Signalled(channel(kind)),
        ConnectActionView::Settle { .. } => ConnectEventView::Settled,
        ConnectActionView::Finish(_) => ConnectEventView::Begin,
    }
}

/// One turn of a caller: it reports its event, and the store takes a step.
pub open spec fn take_turn(
    channel: spec_fn(SignalKind) -> Result<(), Seq<char>>,
    store: Option<Seq<char>>,
    c: Caller,
) -> (Option<Seq<char>>, Caller) {
    match connect_spec(store, c.phase, c.awaited, c.fresh) {
        Some((after, phase, action)) => (
            after,
            Caller {
                phase,
                awaited: answer(channel, action),
                fresh: c.fresh,
                result: match action {
                    ConnectActionView::Finish(result) => Some(result),
                    _ => c.result,
                },
            },
        ),
        None => (store, c),
    }
}

/// A channel that takes every signal.
pub open spec fn available(channel: spec_fn(SignalKind) -> Result<(), Seq<char>>) -> bool {
    forall|kind: SignalKind| #[trigger] channel(kind) is Ok
}

/// A caller alone on the store, after `turns` turns.
pub open spec fn alone(
    channel: spec_fn(SignalKind) -> Result<(), Seq<char>>,
    store: Option<Seq<char>>,
    c: Caller,
    turns: nat,
) -> (Option<Seq<char>>, Caller)
    decreases turns,
{
    if turns == 0 {
        (store, c)
    } else {
        let (s, x) = alone(channel, store, c, (turns - 1) as nat);
        take_turn(channel, s, x)
    }
}

/// `connect` on a connected store changes nothing and sends no signal: it
/// ends at its first step with the session that is there.
pub proof fn lemma_connect_when_connected(
    channel: spec_fn(SignalKind) -> Result<(), Seq<char>>,
    id: Seq<char>,
    fresh: Seq<char>,
)
    ensures
        connect_spec(Some(id), Handshake::Idle, ConnectEventView::Begin, fresh) == Some(
            (
                Some(id),
                Handshake::Closed,
                ConnectActionView::Finish(Ok(snapshot_of(Some(id)))),
            ),
        ),
        alone(channel, Some(id), caller_at_start(fresh), 1).0 == Some(id),
        alone(channel, Some(id), caller_at_start(fresh), 1).1.result == Some(
            Ok::<SessionView, Seq<char>>(snapshot_of(Some(id))),
        ),
{
    reveal_with_fuel(alone, 2);
}

/// `connect` on a disconnected store, by a caller alone: after the pending
/// signal, the settle period and the connected signal the store is
/// connected under the fresh identifier and the caller has that session.
/// If the channel fails at either signal, the caller has the channel's
/// description, and the store is disconnected.
pub proof fn lemma_connect_when_disconnected(
    channel: spec_fn(SignalKind) -> Result<(), Seq<char>>,
    fresh: Seq<char>,
)
    ensures
        ({
            let (store, caller) = alone(channel, None, caller_at_start(fresh), 4);
            match (channel(SignalKind::Pending), channel(SignalKind::Connected)) {
                (Ok(_), Ok(_)) => store == Some(fresh) && caller.result == Some(
                    Ok::<SessionView, Seq<char>>(snapshot_of(Some(fresh))),
                ),
                (Ok(_), Err(description)) => store is None && caller.result == Some(
                    Err::<SessionView, Seq<char>>(description),
                ),
                (Err(description), _) => store is None && caller.result == Some(
                    Err::<SessionView, Seq<char>>(description),
                ),
            }
        }),
{
    reveal_with_fuel(alone, 5);
}

/// Two callers on one store, their turns taken in the order that `turns`
/// gives: `true` for a turn of the first, `false` for one of the second.
pub open spec fn interleave(
    channel: spec_fn(SignalKind) -> Result<(), Seq<char>>,
    store: Option<Seq<char>>,
    a: Caller,
    b: Caller,
    turns: Seq<bool>,
) -> (Option<Seq<char>>, Caller, Caller)
    decreases turns.len(),
{
    if turns.len() == 0 {
        (store, a, b)
    } else {
        let (s, x, y) = interleave(channel, store, a, b, turns.drop_last());
        if turns.last() {
            let (after, moved) = take_turn(channel, s, x);
            (after, moved, y)
        } else {
            let (after, moved) = take_turn(channel, s, y);
            (after, x, moved)
        }
    }
}

/// What holds of a caller between turns.
spec fn in_step(store: Option<Seq<char>>, c: Caller) -> bool {
    match c.phase {
        Handshake::Idle => c.awaited == ConnectEventView::Begin && c.result is None,
        Handshake::Announcing => c.awaited matches ConnectEventView::Signalled(Ok(_))
            && c.result is None,
        Handshake::Settling => c.awaited == ConnectEventView::Settled && c.result is None,
        Handshake::Confirming => c.awaited matches ConnectEventView::Signalled(Ok(_))
            && c.result is None && store is Some,
        Handshake::Closed => store is Some && c.result == Some(
            Ok::<SessionView, Seq<char>>(snapshot_of(store)),
        ),
    }
}

proof fn lemma_interleave_in_step(
    channel: spec_fn(SignalKind) -> Result<(), Seq<char>>,
    store: Option<Seq<char>>,
    a: Caller,
    b: Caller,
    turns: Seq<bool>,
)
    requires
        available(channel),
        in_step(store, a),
        in_step(store, b),
    ensures
        in_step(
            interleave(channel, store, a, b, turns).0,
            interleave(channel, store, a, b, turns).1,
        ),
        in_step(
            interleave(channel, store, a, b, turns).0,
            interleave(channel, store, a, b, turns).2,
        ),
    decreases turns.len(),
{
    if turns.len() > 0 {
        lemma_interleave_in_step(channel, store, a, b, turns.drop_last());
        assert(channel(SignalKind::Pending) is Ok);
        assert(channel(SignalKind::Connected) is Ok);
    }
}

/// Two callers that connect on one store at the same time, with an
/// available channel, end with one and the same identifier, which is the
/// store's: whatever the order of their steps, and whether or not the store
/// was connected before.
pub proof fn lemma_concurrent_connects_share_identifier(
    channel: spec_fn(SignalKind) -> Result<(), Seq<char>>,
    store: Option<Seq<char>>,
    fresh_a: Seq<char>,
    fresh_b: Seq<char>,
    turns: Seq<bool>,
)
    requires
        available(channel),
    ensures
        ({
            let (after, a, b) = interleave(
                channel,
                store,
                caller_at_start(fresh_a),
                caller_at_start(fresh_b),
                turns,
            );
            a.result is Some && b.result is Some ==> {
                &&& after is Some
                &&& a.result == Some(Ok::<SessionView, Seq<char>>(snapshot_of(after)))
                &&& b.result == a.result
            }
        }),
{
    lemma_interleave_in_step(
        channel,
        store,
        caller_at_start(fresh_a),
        caller_at_start(fresh_b),
        turns,
    );
}

} // verus!
