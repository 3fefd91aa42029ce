use tls_server::conn::{EndAction, ReadOutcome, WriteOutcome};
use tls_server::server::{
    select_private_key, TlsServer, FIRST_CONNECTION_TOKEN, LISTENER_TOKEN,
};

#[test]
fn accepted_connections_get_unique_identifiers() {
    let mut s = TlsServer::new();
    let a = s.accept().unwrap();
    let b = s.accept().unwrap();
    let c = s.accept().unwrap();
    assert_ne!(a, b);
    assert_ne!(a, c);
    assert_ne!(b, c);
    assert_ne!(a, LISTENER_TOKEN);
    assert_ne!(b, LISTENER_TOKEN);
    assert_ne!(c, LISTENER_TOKEN);
    assert!(s.contains(a) && s.contains(b) && s.contains(c));
    assert_eq!(s.len(), 3);
}

#[test]
fn identifier_counter_starts_above_the_listener() {
    let mut s = TlsServer::new();
    let first = s.accept().unwrap();
    assert_eq!(first, FIRST_CONNECTION_TOKEN);
    assert!(first > LISTENER_TOKEN);
}

#[test]
fn unknown_identifier_is_a_no_op() {
    let mut s = TlsServer::new();
    let a = s.accept().unwrap();
    assert!(s.take_conn(a + 1).is_none());
    assert!(s.contains(a));
}

#[test]
fn would_block_event_keeps_connection_in_table() {
    let mut s = TlsServer::new();
    let a = s.accept().unwrap();
    let mut c = s.take_conn(a).unwrap();
    let proceed = c.apply_read_outcome(&ReadOutcome::WouldBlock);
    assert!(!proceed);
    c.apply_write_outcome(&WriteOutcome::WouldBlock);
    let act = c.finish_ready(true, false);
    assert!(matches!(act, EndAction::Reregister(_)));
    s.finish_conn_event(a, c);
    assert!(s.contains(a));
    assert_eq!(s.len(), 1);
}

#[test]
fn connection_leaves_table_only_after_output_is_flushed() {
    let mut s = TlsServer::new();
    let a = s.accept().unwrap();

    // the peer half-closes; the session still has bytes to flush
    let mut c = s.take_conn(a).unwrap();
    c.apply_read_outcome(&ReadOutcome::Bytes(0));
    assert!(c.is_closing());
    let act = c.finish_ready(false, true);
    assert!(matches!(act, EndAction::Reregister(_)));
    s.finish_conn_event(a, c);
    assert!(s.contains(a), "closing connection with pending output stays in the table");

    // next writable event drains the session; now the entry goes away
    let mut c = s.take_conn(a).unwrap();
    assert!(c.is_closing());
    c.apply_write_outcome(&WriteOutcome::Written(17));
    let act = c.finish_ready(false, false);
    assert!(matches!(act, EndAction::Shutdown));
    assert!(c.is_closed());
    s.finish_conn_event(a, c);
    assert!(!s.contains(a));
    assert_eq!(s.len(), 0);
}

#[test]
fn identifiers_are_not_reused_after_removal() {
    let mut s = TlsServer::new();
    let a = s.accept().unwrap();
    let mut c = s.take_conn(a).unwrap();
    c.apply_read_outcome(&ReadOutcome::Bytes(0));
    c.finish_ready(false, false);
    s.finish_conn_event(a, c);
    assert!(!s.contains(a));
    let b = s.accept().unwrap();
    assert_ne!(a, b);
}

#[test]
fn pkcs8_keys_are_preferred() {
    let pkcs8 = vec![vec![1u8, 2, 3], vec![4u8]];
    let rsa = vec![vec![9u8, 9]];
    assert_eq!(select_private_key(pkcs8, rsa), Some(vec![1u8, 2, 3]));
}

#[test]
fn rsa_key_is_the_fallback() {
    let rsa = vec![vec![9u8, 9], vec![8u8]];
    assert_eq!(select_private_key(Vec::new(), rsa), Some(vec![9u8, 9]));
}

#[test]
fn no_keys_mean_no_selection() {
    assert_eq!(select_private_key(Vec::new(), Vec::new()), None);
}
