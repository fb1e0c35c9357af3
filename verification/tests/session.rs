use whatsapp_dispatch::session::ConnectAction;
use whatsapp_dispatch::session::ConnectEvent;
use whatsapp_dispatch::session::Handshake;
use whatsapp_dispatch::session::SignalKind;
use whatsapp_dispatch::session::WhatsAppManager;
use whatsapp_dispatch::session::WhatsAppSession;
use whatsapp_dispatch::session::SETTLE_SECONDS;

fn finished(action: Option<ConnectAction>) -> WhatsAppSession {
    match action {
        Some(ConnectAction::Finish(Ok(session))) => session,
        _ => panic!("expected the handshake to end well"),
    }
}

fn connect(store: &mut WhatsAppManager) -> WhatsAppSession {
    let mut handshake = Handshake::Idle;
    match store.initialize_session(&mut handshake, ConnectEvent::Begin) {
        Some(ConnectAction::Finish(Ok(session))) => return session,
        Some(ConnectAction::Signal { kind, payload }) => {
            assert!(kind == SignalKind::Pending);
            assert_eq!(payload.as_deref(), Some("https://web.whatsapp.com/qr/MOCK_QR_CODE"));
        }
        _ => panic!("expected the pending signal"),
    }
    assert!(!store.is_connected());
    match store.initialize_session(&mut handshake, ConnectEvent::Signalled(Ok(()))) {
        Some(ConnectAction::Settle { seconds }) => assert_eq!(seconds, 3),
        _ => panic!("expected the settle period"),
    }
    assert!(!store.is_connected());
    match store.initialize_session(&mut handshake, ConnectEvent::Settled) {
        Some(ConnectAction::Signal { kind, payload }) => {
            assert!(kind == SignalKind::Connected);
            assert!(payload.is_none());
        }
        _ => panic!("expected the connected signal"),
    }
    assert!(store.is_connected());
    let session = finished(store.initialize_session(&mut handshake, ConnectEvent::Signalled(Ok(()))));
    assert!(handshake == Handshake::Closed);
    session
}

#[test]
fn new_store_is_disconnected() {
    let store = WhatsAppManager::new();
    assert!(!store.is_connected());
    let session = store.session();
    assert!(!session.is_connected);
    assert!(session.session_id.is_none());
    assert!(session.qr_code.is_none());
}

#[test]
fn connect_establishes_a_session() {
    let mut store = WhatsAppManager::new();
    let session = connect(&mut store);
    assert!(store.is_connected());
    assert!(session.is_connected);
    assert!(session.qr_code.is_none());
    let id = session.session_id.expect("a connected session has an identifier");
    assert_eq!(store.session().session_id.as_deref(), Some(id.as_str()));
}

#[test]
fn session_identifier_is_a_hyphenated_uuid() {
    let mut store = WhatsAppManager::new();
    let id = connect(&mut store).session_id.expect("an identifier");
    assert_eq!(id.chars().count(), 36);
    for (i, c) in id.chars().enumerate() {
        if i == 8 || i == 13 || i == 18 || i == 23 {
            assert_eq!(c, '-');
        } else {
            assert!(c.is_ascii_digit() || ('a'..='f').contains(&c));
        }
    }
    assert_eq!(id.chars().nth(14), Some('4'));
}

#[test]
fn connect_is_idempotent() {
    let mut store = WhatsAppManager::new();
    let first = connect(&mut store);
    let second = connect(&mut store);
    assert!(second.is_connected);
    assert_eq!(first.session_id, second.session_id);
    assert!(first.session_id.is_some());
}

#[test]
fn reconnect_after_disconnect_gets_a_new_identifier() {
    let mut store = WhatsAppManager::new();
    let first = connect(&mut store);
    store.disconnect();
    assert!(!store.is_connected());
    assert!(store.session().session_id.is_none());
    let second = connect(&mut store);
    assert!(second.session_id.is_some());
    assert_ne!(first.session_id, second.session_id);
}

#[test]
fn disconnect_is_unconditional() {
    let mut store = WhatsAppManager::new();
    store.disconnect();
    assert!(!store.is_connected());
    connect(&mut store);
    store.disconnect();
    store.disconnect();
    assert!(!store.is_connected());
}

#[test]
fn interleaved_connects_share_one_identifier() {
    let mut store = WhatsAppManager::new();
    let mut a = Handshake::Idle;
    let mut b = Handshake::Idle;
    assert!(matches!(
        store.initialize_session(&mut a, ConnectEvent::Begin),
        Some(ConnectAction::Signal { .. })
    ));
    assert!(matches!(
        store.initialize_session(&mut b, ConnectEvent::Begin),
        Some(ConnectAction::Signal { .. })
    ));
    assert!(matches!(
        store.initialize_session(&mut a, ConnectEvent::Signalled(Ok(()))),
        Some(ConnectAction::Settle { .. })
    ));
    assert!(matches!(
        store.initialize_session(&mut b, ConnectEvent::Signalled(Ok(()))),
        Some(ConnectAction::Settle { .. })
    ));
    assert!(matches!(
        store.initialize_session(&mut b, ConnectEvent::Settled),
        Some(ConnectAction::Signal { .. })
    ));
    let seen_by_a = finished(store.initialize_session(&mut a, ConnectEvent::Settled));
    let seen_by_b = finished(store.initialize_session(&mut b, ConnectEvent::Signalled(Ok(()))));
    assert!(seen_by_a.session_id.is_some());
    assert_eq!(seen_by_a.session_id, seen_by_b.session_id);
    assert_eq!(store.session().session_id, seen_by_a.session_id);
}

#[test]
fn refused_pending_signal_leaves_the_store_disconnected() {
    let mut store = WhatsAppManager::new();
    let mut handshake = Handshake::Idle;
    store.initialize_session(&mut handshake, ConnectEvent::Begin);
    match store.initialize_session(&mut handshake, ConnectEvent::Signalled(Err("no window".to_string()))) {
        Some(ConnectAction::Finish(Err(description))) => assert_eq!(description, "no window"),
        _ => panic!("expected the handshake to fail"),
    }
    assert!(handshake == Handshake::Closed);
    assert!(!store.is_connected());
    assert!(store.session().session_id.is_none());
}

#[test]
fn refused_connected_signal_leaves_the_store_disconnected() {
    let mut store = WhatsAppManager::new();
    let mut handshake = Handshake::Idle;
    store.initialize_session(&mut handshake, ConnectEvent::Begin);
    store.initialize_session(&mut handshake, ConnectEvent::Signalled(Ok(())));
    store.initialize_session(&mut handshake, ConnectEvent::Settled);
    match store.initialize_session(&mut handshake, ConnectEvent::Signalled(Err("closed".to_string()))) {
        Some(ConnectAction::Finish(Err(description))) => assert_eq!(description, "closed"),
        _ => panic!("expected the handshake to fail"),
    }
    assert!(!store.is_connected());
    assert!(store.session().session_id.is_none());
    assert!(!store.session().is_connected);
}

#[test]
fn handshake_takes_only_the_event_it_awaits() {
    let mut store = WhatsAppManager::new();
    let mut handshake = Handshake::Idle;
    assert!(store.initialize_session(&mut handshake, ConnectEvent::Settled).is_none());
    assert!(store.initialize_session(&mut handshake, ConnectEvent::Signalled(Ok(()))).is_none());
    assert!(handshake == Handshake::Idle);
    store.initialize_session(&mut handshake, ConnectEvent::Begin);
    assert!(handshake == Handshake::Announcing);
    assert!(store.initialize_session(&mut handshake, ConnectEvent::Begin).is_none());
    assert!(store.initialize_session(&mut handshake, ConnectEvent::Settled).is_none());
    assert!(handshake == Handshake::Announcing);
    assert!(!store.is_connected());
    let mut closed = Handshake::Closed;
    assert!(store.initialize_session(&mut closed, ConnectEvent::Begin).is_none());
    assert!(closed == Handshake::Closed);
}

#[test]
fn advance_uses_the_identifier_it_is_given() {
    let mut store = WhatsAppManager::new();
    let mut handshake = Handshake::Settling;
    let action = store.advance(&mut handshake, ConnectEvent::Settled, "id-1".to_string());
    assert!(matches!(action, Some(ConnectAction::Signal { kind: SignalKind::Connected, payload: None })));
    assert_eq!(store.session().session_id.as_deref(), Some("id-1"));
    let mut other = Handshake::Settling;
    let session = finished(store.advance(&mut other, ConnectEvent::Settled, "id-2".to_string()));
    assert_eq!(session.session_id.as_deref(), Some("id-1"));
    assert_eq!(store.session().session_id.as_deref(), Some("id-1"));
}

#[test]
fn establish_keeps_an_established_session() {
    let mut store = WhatsAppManager::new();
    store.establish("first".to_string());
    assert!(store.is_connected());
    store.establish("second".to_string());
    assert_eq!(store.session().session_id.as_deref(), Some("first"));
}

#[test]
fn settle_period_is_three_seconds() {
    assert_eq!(SETTLE_SECONDS, 3);
}
