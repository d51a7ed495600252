use vstd::prelude::*;

use crate::error::Error;
use crate::session::{is_metadata_text, metadata_text};

verus! {

/// How a transaction accesses data.
#[derive(Debug, Clone, Copy, PartialEq, Eq)]
pub enum TxMode {
    ReadOnly,
    WriteOnly,
    ReadWrite,
}

impl TxMode {
    pub open spec fn code_spec(&self) -> i32 {
        match self {
            TxMode::ReadOnly => 0,
            TxMode::WriteOnly => 1,
            TxMode::ReadWrite => 2,
        }
    }

    /// The protocol's number for this mode.
    pub fn code(&self) -> (r: i32)
        ensures
            r == self.code_spec(),
    {
        match self {
            TxMode::ReadOnly => 0,
            TxMode::WriteOnly => 1,
            TxMode::ReadWrite => 2,
        }
    }
}

/// The transaction state of one statement executor: no id means autocommit.
#[derive(Debug, Clone, PartialEq, Eq)]
pub struct TxState {
    pub tx_id: Option<String>,
}

/// An input to the transaction state machine: a request of the caller, or the answer to a
/// call it asked for.
#[derive(Debug)]
pub enum TxEvent {
    BeginRequested(TxMode),
    /// The new-transaction call answered with a transaction id, or failed.
    BeginAnswered(Result<String, Error>),
    CommitRequested,
    CommitAnswered(Result<(), Error>),
    RollbackRequested,
    RollbackAnswered(Result<(), Error>),
}

/// What the executor does next.
#[derive(Debug)]
pub enum TxAction {
    /// Issue the new-transaction call.
    CallNewTx(TxMode),
    /// Issue the commit call scoped by this transaction id.
    CallCommit(String),
    /// Issue the rollback call scoped by this transaction id.
    CallRollback(String),
    /// Report this outcome to the caller.
    Finish(Result<(), Error>),
}

/// The state after event `e` in state `s`. Commit and rollback answers end the transaction
/// whatever they say; a begin answer opens one only with an id that is valid metadata.
pub open spec fn tx_next(s: TxState, e: TxEvent) -> TxState {
    match e {
        TxEvent::BeginAnswered(Ok(id)) => if s.tx_id is None && metadata_text(id@) {
            TxState { tx_id: Some(id) }
        } else {
            s
        },
        TxEvent::CommitAnswered(_) => TxState { tx_id: None },
        TxEvent::RollbackAnswered(_) => TxState { tx_id: None },
        _ => s,
    }
}

/// Whether `a` is what the executor does on event `e` in state `s`.
pub open spec fn tx_action(s: TxState, e: TxEvent, a: TxAction) -> bool {
    match e {
        TxEvent::BeginRequested(mode) => match s.tx_id {
            None => a == TxAction::CallNewTx(mode),
            Some(_) => a matches TxAction::Finish(Err(Error::Unexpected(_))),
        },
        TxEvent::BeginAnswered(Ok(id)) => if s.tx_id is None && metadata_text(id@) {
            a == TxAction::Finish(Ok(()))
        } else {
            a matches TxAction::Finish(Err(Error::Unexpected(_)))
        },
        TxEvent::BeginAnswered(Err(err)) => a == TxAction::Finish(Err(err)),
        TxEvent::CommitRequested => match s.tx_id {
            None => a == TxAction::Finish(Ok(())),
            Some(id) => a == TxAction::CallCommit(id),
        },
        TxEvent::CommitAnswered(outcome) => a == TxAction::Finish(outcome),
        TxEvent::RollbackRequested => match s.tx_id {
            None => a == TxAction::Finish(Ok(())),
            Some(id) => a == TxAction::CallRollback(id),
        },
        TxEvent::RollbackAnswered(_) => a == TxAction::Finish(Ok(())),
    }
}

/// The metadata entry that a statement carries in state `s`.
pub open spec fn tx_metadata(s: TxState) -> Option<(Seq<char>, Seq<char>)> {
    match s.tx_id {
        Some(id) => Some(("transactionid"@, id@)),
        None => None,
    }
}

impl TxState {
    /// A transaction id is always valid metadata.
    pub open spec fn wf(&self) -> bool {
        self.tx_id matches Some(id) ==> metadata_text(id@)
    }

    /// Autocommit: no transaction is open.
    pub fn new() -> (r: TxState)
        ensures
            r.tx_id is None,
    {
        TxState { tx_id: None }
    }

    pub fn in_transaction(&self) -> (r: bool)
        ensures
            r == self.tx_id is Some,
    {
        self.tx_id.is_some()
    }

    /// Takes one step of the transaction state machine.
    pub fn step(&mut self, e: TxEvent) -> (a: TxAction)
        ensures
            *final(self) == tx_next(*old(self), e),
            tx_action(*old(self), e, a),
            old(self).wf() ==> final(self).wf(),
    {
        match e {
            TxEvent::BeginRequested(mode) => {
                if self.tx_id.is_some() {
                    TxAction::Finish(
                        Err(Error::Unexpected(String::from_str("a transaction is already open"))),
                    )
                } else {
                    TxAction::CallNewTx(mode)
                }
            },
            TxEvent::BeginAnswered(Ok(id)) => {
                if self.tx_id.is_some() {
                    TxAction::Finish(
                        Err(Error::Unexpected(String::from_str("a transaction is already open"))),
                    )
                } else if is_metadata_text(id.as_str()) {
                    self.tx_id = Some(id);
                    TxAction::Finish(Ok(()))
                } else {
                    TxAction::Finish(
                        Err(Error::Unexpected(String::from_str("invalid tx id (non-ASCII)"))),
                    )
                }
            },
            TxEvent::BeginAnswered(Err(err)) => TxAction::Finish(Err(err)),
            TxEvent::CommitRequested => match &self.tx_id {
                None => TxAction::Finish(Ok(())),
                Some(id) => TxAction::CallCommit(id.clone()),
            },
            TxEvent::CommitAnswered(outcome) => {
                self.tx_id = None;
                TxAction::Finish(outcome)
            },
            TxEvent::RollbackRequested => match &self.tx_id {
                None => TxAction::Finish(Ok(())),
                Some(id) => TxAction::CallRollback(id.clone()),
            },
            TxEvent::RollbackAnswered(_) => {
                self.tx_id = None;
                TxAction::Finish(Ok(()))
            },
        }
    }

    /// The metadata entry that the next statement carries: the transaction id, if one is open.
    /// A statement that carries it goes through the transaction-scoped call.
    pub fn statement_metadata(&self) -> (r: Option<(String, String)>)
        ensures
            match r {
                Some(m) => tx_metadata(*self) == Some((m.0@, m.1@)),
                None => tx_metadata(*self) is None,
            },
    {
        match &self.tx_id {
            Some(id) => Some((String::from_str("transactionid"), id.clone())),
            None => None,
        }
    }
}

/// The request that ends a transaction scope: commit after a successful body, else rollback.
pub open spec fn closing_event(body_ok: bool) -> TxEvent {
    if body_ok {
        TxEvent::CommitRequested
    } else {
        TxEvent::RollbackRequested
    }
}

pub fn closing_request(body_ok: bool) -> (r: TxEvent)
    ensures
        r == closing_event(body_ok),
{
    if body_ok {
        TxEvent::CommitRequested
    } else {
        TxEvent::RollbackRequested
    }
}

/// The outcome of a transaction scope: a failed body's own error, else the closing error, else
/// the body's value.
pub open spec fn scope_outcome<T>(body: Result<T, Error>, closing: Result<(), Error>) -> Result<
    T,
    Error,
> {
    match body {
        Err(e) => Err(e),
        Ok(v) => match closing {
            Ok(_) => Ok(v),
            Err(e) => Err(e),
        },
    }
}

pub fn conclude_scope<T>(body: Result<T, Error>, closing: Result<(), Error>) -> (r: Result<
    T,
    Error,
>)
    ensures
        r == scope_outcome(body, closing),
{
    match body {
        Err(e) => Err(e),
        Ok(v) => match closing {
            Ok(_) => Ok(v),
            Err(e) => Err(e),
        },
    }
}

/// Beginning and then committing leaves the executor in autocommit, whatever the commit call
/// answered, and the commit call is scoped by the new transaction's id.
pub proof fn lemma_begin_then_commit(s: TxState, mode: TxMode, id: String, outcome: Result<(), Error>)
    requires
        s.tx_id is None,
        metadata_text(id@),
    ensures
        tx_action(s, TxEvent::BeginRequested(mode), TxAction::CallNewTx(mode)),
        ({
            let opened = tx_next(tx_next(s, TxEvent::BeginRequested(mode)), TxEvent::BeginAnswered(Ok(id)));
            let asked = tx_next(opened, TxEvent::CommitRequested);
            let done = tx_next(asked, TxEvent::CommitAnswered(outcome));
            &&& opened.tx_id == Some(id)
            &&& tx_action(opened, TxEvent::CommitRequested, TxAction::CallCommit(id))
            &&& done.tx_id is None
            &&& tx_metadata(done) is None
        }),
{
}

/// Beginning and then rolling back leaves the executor in autocommit, whatever the rollback
/// call answered, and the rollback reports success.
pub proof fn lemma_begin_then_rollback(s: TxState, mode: TxMode, id: String, outcome: Result<(), Error>)
    requires
        s.tx_id is None,
        metadata_text(id@),
    ensures
        ({
            let opened = tx_next(tx_next(s, TxEvent::BeginRequested(mode)), TxEvent::BeginAnswered(Ok(id)));
            let asked = tx_next(opened, TxEvent::RollbackRequested);
            let done = tx_next(asked, TxEvent::RollbackAnswered(outcome));
            &&& opened.tx_id == Some(id)
            &&& tx_action(opened, TxEvent::RollbackRequested, TxAction::CallRollback(id))
            &&& tx_action(asked, TxEvent::RollbackAnswered(outcome), TxAction::Finish(Ok(())))
            &&& done.tx_id is None
            &&& tx_metadata(done) is None
        }),
{
}

/// In autocommit, commit and rollback issue no call, change nothing and report success.
pub proof fn lemma_end_without_transaction(s: TxState)
    requires
        s.tx_id is None,
    ensures
        tx_next(s, TxEvent::CommitRequested) == s,
        tx_action(s, TxEvent::CommitRequested, TxAction::Finish(Ok(()))),
        tx_next(s, TxEvent::RollbackRequested) == s,
        tx_action(s, TxEvent::RollbackRequested, TxAction::Finish(Ok(()))),
{
}

/// When the body of a transaction scope fails, the scope rolls back under the transaction's
/// id, every statement of the body carried that id, the transaction is cleared whatever the
/// rollback answered, and the body's own error is what the caller gets.
pub proof fn lemma_failed_body_rolls_back<T>(
    s: TxState,
    id: String,
    err: Error,
    outcome: Result<(), Error>,
)
    requires
        s.tx_id == Some(id),
    ensures
        tx_metadata(s) == Some(("transactionid"@, id@)),
        closing_event(false) == TxEvent::RollbackRequested,
        tx_action(s, TxEvent::RollbackRequested, TxAction::CallRollback(id)),
        tx_next(tx_next(s, TxEvent::RollbackRequested), TxEvent::RollbackAnswered(outcome)).tx_id is None,
        tx_action(
            tx_next(s, TxEvent::RollbackRequested),
            TxEvent::RollbackAnswered(outcome),
            TxAction::Finish(Ok(())),
        ),
        forall|closing: Result<(), Error>|
            #[trigger] scope_outcome(Err::<T, Error>(err), closing) == Err::<T, Error>(err),
{
}

} // verus!
