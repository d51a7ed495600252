use immudb_rs::session::{liveness_step, LivenessAction, LivenessEvent};
use immudb_rs::tx::{closing_request, conclude_scope};
use immudb_rs::{Error, Session, TxAction, TxEvent, TxMode, TxState};

fn status(msg: &str) -> Error {
    Error::Protocol(tonic::Status::internal(msg.to_string()))
}

fn begin(tx: &mut TxState, id: &str) {
    assert!(matches!(tx.step(TxEvent::BeginRequested(TxMode::ReadWrite)), TxAction::CallNewTx(TxMode::ReadWrite)));
    assert!(matches!(tx.step(TxEvent::BeginAnswered(Ok(id.to_string()))), TxAction::Finish(Ok(()))));
}

#[test]
fn begin_then_commit_returns_to_autocommit() {
    let mut tx = TxState::new();
    begin(&mut tx, "tx-1");
    assert_eq!(tx.statement_metadata(), Some(("transactionid".to_string(), "tx-1".to_string())));
    match tx.step(TxEvent::CommitRequested) {
        TxAction::CallCommit(id) => assert_eq!(id, "tx-1"),
        other => panic!("unexpected {other:?}"),
    }
    assert!(matches!(tx.step(TxEvent::CommitAnswered(Ok(()))), TxAction::Finish(Ok(()))));
    assert!(!tx.in_transaction());
    assert_eq!(tx.statement_metadata(), None);
}

#[test]
fn begin_then_rollback_returns_to_autocommit() {
    let mut tx = TxState::new();
    begin(&mut tx, "tx-2");
    match tx.step(TxEvent::RollbackRequested) {
        TxAction::CallRollback(id) => assert_eq!(id, "tx-2"),
        other => panic!("unexpected {other:?}"),
    }
    assert!(matches!(tx.step(TxEvent::RollbackAnswered(Err(status("gone")))), TxAction::Finish(Ok(()))));
    assert_eq!(tx.statement_metadata(), None);
}

#[test]
fn failed_commit_still_clears() {
    let mut tx = TxState::new();
    begin(&mut tx, "tx-3");
    let _ = tx.step(TxEvent::CommitRequested);
    assert!(matches!(tx.step(TxEvent::CommitAnswered(Err(status("no")))), TxAction::Finish(Err(Error::Protocol(_)))));
    assert!(!tx.in_transaction());
}

#[test]
fn end_without_transaction_is_a_no_op() {
    let mut tx = TxState::new();
    assert!(matches!(tx.step(TxEvent::CommitRequested), TxAction::Finish(Ok(()))));
    assert!(matches!(tx.step(TxEvent::RollbackRequested), TxAction::Finish(Ok(()))));
    assert_eq!(tx, TxState::new());
}

#[test]
fn begin_rejects_invalid_id_and_nested_begin() {
    let mut tx = TxState::new();
    let _ = tx.step(TxEvent::BeginRequested(TxMode::ReadOnly));
    assert!(matches!(tx.step(TxEvent::BeginAnswered(Ok("bad\u{7f}".to_string()))), TxAction::Finish(Err(Error::Unexpected(_)))));
    assert!(matches!(tx.step(TxEvent::BeginAnswered(Ok("tx-\u{e9}".to_string()))), TxAction::Finish(Err(Error::Unexpected(_)))));
    assert!(!tx.in_transaction());
    assert!(matches!(tx.step(TxEvent::BeginAnswered(Err(status("down")))), TxAction::Finish(Err(Error::Protocol(_)))));
    begin(&mut tx, "tx-4");
    assert!(matches!(tx.step(TxEvent::BeginRequested(TxMode::ReadOnly)), TxAction::Finish(Err(Error::Unexpected(_)))));
    assert_eq!(tx.statement_metadata(), Some(("transactionid".to_string(), "tx-4".to_string())));
}

#[test]
fn failed_body_rolls_back_and_keeps_its_error() {
    let mut tx = TxState::new();
    begin(&mut tx, "tx-5");
    for _ in 0..3 {
        assert_eq!(tx.statement_metadata(), Some(("transactionid".to_string(), "tx-5".to_string())));
    }
    let body: Result<u32, Error> = Err(Error::InvalidInput("body failed".to_string()));
    let closing = closing_request(body.is_ok());
    assert!(matches!(closing, TxEvent::RollbackRequested));
    match tx.step(closing) {
        TxAction::CallRollback(id) => assert_eq!(id, "tx-5"),
        other => panic!("unexpected {other:?}"),
    }
    let closing_outcome = match tx.step(TxEvent::RollbackAnswered(Err(status("rollback failed")))) {
        TxAction::Finish(r) => r,
        other => panic!("unexpected {other:?}"),
    };
    assert!(!tx.in_transaction());
    match conclude_scope(body, closing_outcome) {
        Err(Error::InvalidInput(m)) => assert_eq!(m, "body failed"),
        other => panic!("unexpected {other:?}"),
    }
}

#[test]
fn successful_body_commits() {
    assert!(matches!(closing_request(true), TxEvent::CommitRequested));
    assert_eq!(conclude_scope(Ok::<u32, Error>(5), Ok(())).unwrap(), 5);
    assert!(matches!(conclude_scope(Ok::<u32, Error>(5), Err(status("commit"))), Err(Error::Protocol(_))));
}

#[test]
fn tx_mode_codes() {
    assert_eq!(TxMode::ReadOnly.code(), 0);
    assert_eq!(TxMode::WriteOnly.code(), 1);
    assert_eq!(TxMode::ReadWrite.code(), 2);
}

#[test]
fn session_metadata_on_every_call() {
    let mut s = Session::new("sid-1", "uuid-1");
    assert_eq!(
        s.outbound_metadata(),
        vec![("sessionid".to_string(), "sid-1".to_string()), ("immudb-uuid".to_string(), "uuid-1".to_string())]
    );
    assert!(s.set_token("tok".to_string()).is_ok());
    assert_eq!(
        s.outbound_metadata(),
        vec![
            ("sessionid".to_string(), "sid-1".to_string()),
            ("immudb-uuid".to_string(), "uuid-1".to_string()),
            ("authorization".to_string(), "tok".to_string()),
        ]
    );
    assert!(matches!(s.set_token("bad\ntoken".to_string()), Err(Error::InvalidInput(_))));
    assert!(matches!(s.set_token("caf\u{e9}".to_string()), Err(Error::InvalidInput(_))));
    assert_eq!(s.token, Some("tok".to_string()));
    assert!(s.set_token("next".to_string()).is_ok());
    assert_eq!(s.token, Some("next".to_string()));
}

#[test]
fn liveness_swallows_failures() {
    assert_eq!(liveness_step(LivenessEvent::Tick), LivenessAction::SendPing);
    assert_eq!(liveness_step(LivenessEvent::PingDone(false)), LivenessAction::Wait);
    assert_eq!(liveness_step(LivenessEvent::PingDone(true)), LivenessAction::Wait);
    assert_eq!(liveness_step(LivenessEvent::Cancelled), LivenessAction::Stop);
}

#[test]
fn metadata_text_is_ascii_only() {
    assert!(immudb_rs::session::is_metadata_text("abc\tDEF-123"));
    assert!(!immudb_rs::session::is_metadata_text("caf\u{e9}"));
    assert!(!immudb_rs::session::is_metadata_text("line\nbreak"));
}
