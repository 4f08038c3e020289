use pv_monitoring::ship::{ConnectionHello, ConnectionHelloPhaseType, ShipAction, ShipClient};

fn sent(a: &ShipAction) -> Vec<u8> {
    match a {
        ShipAction::Send(v) => v.clone(),
        other => panic!("expected a message to send, got {:?}", other),
    }
}

#[test]
fn handshake_sequence() {
    let (mut c, a) = ShipClient::start();
    assert_eq!(sent(&a), vec![0, 0]);
    assert!(matches!(c.next(None), ShipAction::Receive));
    let a = c.next(Some(vec![0, 0]));
    let mut hello = vec![1u8];
    hello.extend_from_slice(br#"{"connectionHello":[{"phase":"ready"},{"waiting":60000}]}"#);
    assert_eq!(sent(&a), hello);
    assert!(matches!(c.next(None), ShipAction::Receive));
    let a = c.next(Some(b"{}".to_vec()));
    assert!(sent(&a).ends_with(br#""announceMax"},{"version":[{"major":1},{"minor":0}]},{"formats":[{"format":["JSON-UTF8"]}]}]}"#));
    assert!(matches!(c.next(None), ShipAction::Receive));
    let a = c.next(None);
    assert!(sent(&a).ends_with(br#"{"handshakeType":"select"},{"version":[{"major":1},{"minor":0}]},{"formats":[{"format":["JSON-UTF8"]}]}]}"#));
    let a = c.next(None);
    assert_eq!(sent(&a)[1..], br#"{"connectionPinState":[{"pinState":"none"}]}"#[..]);
    assert!(matches!(c.next(None), ShipAction::Receive));
    let a = c.next(None);
    assert_eq!(sent(&a)[1..], br#"{"accessMethodsRequest":[]}"#[..]);
    assert!(matches!(c.next(None), ShipAction::Receive));
    let a = c.next(None);
    assert_eq!(sent(&a)[1..], br#"{"accessMethods":[{"id":"MONITORING"}]}"#[..]);
    assert!(matches!(c.next(None), ShipAction::Receive));
    assert!(matches!(c.next(None), ShipAction::Done));
}

#[test]
fn handshake_rejects_wrong_init() {
    let (mut c, _) = ShipClient::start();
    c.next(None);
    assert!(matches!(c.next(Some(vec![0, 1])), ShipAction::Failed));
    let (mut c, _) = ShipClient::start();
    c.next(None);
    assert!(matches!(c.next(None), ShipAction::Failed));
}

#[test]
fn connection_hello_default() {
    let h = ConnectionHello::default();
    assert!(h.connection_hello.phase.is_none());
    assert!(h.connection_hello.waiting.is_none());
    assert!(h.connection_hello.prolongation_request.is_none());
    assert_eq!(ConnectionHelloPhaseType::Ready, ConnectionHelloPhaseType::Ready);
}
