//! The transaction handle: the BEGIN/COMMIT/ROLLBACK envelope around a
//! leased connection.
//!
//! The handle builds each request and interprets each reply; the caller
//! owns the lease and moves the bytes. Terminal states are sticky: once a
//! transaction is committed, rolled back or failed, every further request
//! is refused.
use vstd::prelude::*;
use crate::errors::{unexpected, Error};
use crate::message::Message;
use crate::query::Query;
use crate::session::{
    expect_success, failure_code, failure_message, open_stream, server_error, AccessMode,
};
use crate::stream::RowStream;
use crate::value::{copy_bytes, pair_models, Value, ValueModel};

verus! {

/// The state of one transaction.
#[derive(PartialEq, Eq, Structural, Clone, Copy, Debug)]
pub enum TxnState {
    /// Open: queries may run, and the transaction may close either way.
    Active,
    /// Closed with its work kept.
    Committed,
    /// Closed with its work discarded.
    RolledBack,
    /// Closed by a failure; nothing further will be accepted.
    Failed,
}

/// Whether a state accepts no further requests.
pub open spec fn terminal(s: TxnState) -> bool {
    !(s is Active)
}

/// The BEGIN request that opens a transaction against the database `db`
/// in the given access mode: metadata `{db, mode: "r" | "w"}`.
pub fn begin_request(db: &Vec<u8>, mode: AccessMode) -> (m: Message)
    ensures
        m matches Message::Begin(md) && pair_models(md@) == seq![
            (seq![100u8, 98u8], ValueModel::Str(db@)),
            (
                seq![109u8, 111u8, 100u8, 101u8],
                ValueModel::Str(
                    if mode is Read {
                        seq![114u8]
                    } else {
                        seq![119u8]
                    },
                ),
            ),
        ],
{
    let mut md: Vec<(Vec<u8>, Value)> = Vec::new();
    let mut db_key: Vec<u8> = Vec::new();
    db_key.push(100);
    db_key.push(98);
    let mut mode_key: Vec<u8> = Vec::new();
    mode_key.push(109);
    mode_key.push(111);
    mode_key.push(100);
    mode_key.push(101);
    let mut mode_val: Vec<u8> = Vec::new();
    match mode {
        AccessMode::Read => mode_val.push(114),
        AccessMode::Write => mode_val.push(119),
    }
    proof {
        assert(db_key@ =~= seq![100u8, 98u8]);
        assert(mode_key@ =~= seq![109u8, 111u8, 100u8, 101u8]);
        if mode is Read {
            assert(mode_val@ =~= seq![114u8]);
        } else {
            assert(mode_val@ =~= seq![119u8]);
        }
    }
    md.push((db_key, Value::Str(copy_bytes(db))));
    md.push((mode_key, Value::Str(mode_val)));
    proof {
        assert(pair_models(md@) =~= seq![
            (seq![100u8, 98u8], ValueModel::Str(db@)),
            (
                seq![109u8, 111u8, 100u8, 101u8],
                ValueModel::Str(
                    if mode is Read {
                        seq![114u8]
                    } else {
                        seq![119u8]
                    },
                ),
            ),
        ]);
    }
    Message::Begin(md)
}

/// A handle on one open transaction: what may still happen on it, and the
/// page size of the streams it opens.
pub struct Txn {
    pub state: TxnState,
    pub fetch_size: usize,
}

impl Txn {
    /// Opens the handle from the BEGIN acknowledgement: SUCCESS makes it
    /// active; anything else refuses the transaction.
    pub fn new(begin_resp: &Message, fetch_size: usize) -> (r: Result<Txn, Error>)
        ensures
            ({
                match begin_resp {
                    Message::Success(_) => r matches Ok(t) && t.state is Active && t.fetch_size
                        == fetch_size,
                    Message::Failure(md) => r matches Err(e) && e matches Error::Server {
                        code,
                        message,
                    } && code@ == failure_code(pair_models(md@)) && message@ == failure_message(
                        pair_models(md@),
                    ),
                    _ => r matches Err(e) && e is UnexpectedMessage,
                }
            }),
    {
        match expect_success(begin_resp, "BEGIN") {
            Ok(()) => Ok(Txn { state: TxnState::Active, fetch_size }),
            Err(e) => Err(e),
        }
    }

    /// The RUN request of one query inside the transaction; refused once
    /// the transaction is terminal. Exactly one stream may be open at a
    /// time: the caller must drain or discard it before the next `run`.
    pub fn run_request(&self, q: Query) -> (r: Result<Message, Error>)
        ensures
            self.state is Active <==> r is Ok,
            r matches Ok(m) ==> (m matches Message::Run(text, params, md) && text == q.text
                && params == q.params && pair_models(md@) == Seq::<
                (Seq<u8>, ValueModel),
            >::empty()),
            r matches Err(e) ==> e is UnexpectedMessage,
    {
        match self.state {
            TxnState::Active => {
                let md: Vec<(Vec<u8>, Value)> = Vec::new();
                proof {
                    assert(pair_models(md@) =~= Seq::<(Seq<u8>, ValueModel)>::empty());
                }
                Ok(Message::Run(q.text, q.params, md))
            },
            _ => Err(unexpected("a request on a closed transaction", "RUN")),
        }
    }

    /// Interprets the RUN acknowledgement: SUCCESS opens the stream of
    /// the query's records; a FAILURE closes the transaction as failed
    /// with the server's error.
    pub fn on_run_response(&mut self, resp: &Message) -> (r: Result<RowStream, Error>)
        requires
            old(self).state is Active,
        ensures
            final(self).fetch_size == old(self).fetch_size,
            ({
                match resp {
                    Message::Success(md) => final(self).state == old(self).state && (match (
                        crate::session::run_fields(pair_models(md@)),
                        crate::session::run_qid(pair_models(md@)),
                    ) {
                        (Some(fs), Some(q)) => r matches Ok(s) && s.wf() && s.state is Ready
                            && s.fetch_size == old(self).fetch_size && s.qid == q
                            && crate::value::byte_models(s.fields@) == fs,
                        _ => r matches Err(e) && e is ConversionError,
                    }),
                    Message::Failure(md) => final(self).state is Failed && (r matches Err(e)
                        && e matches Error::Server { code, message } && code@ == failure_code(
                        pair_models(md@),
                    ) && message@ == failure_message(pair_models(md@))),
                    _ => final(self).state is Failed && (r matches Err(e)
                        && e is UnexpectedMessage),
                }
            }),
    {
        match resp {
            Message::Success(_) => open_stream(resp, self.fetch_size),
            Message::Failure(md) => {
                self.state = TxnState::Failed;
                Err(server_error(md))
            },
            _ => {
                self.state = TxnState::Failed;
                Err(unexpected("a reply that is no acknowledgement", "RUN"))
            },
        }
    }

    /// The COMMIT request; refused once the transaction is terminal.
    pub fn commit_request(&self) -> (r: Result<Message, Error>)
        ensures
            self.state is Active <==> r is Ok,
            r matches Ok(m) ==> m is Commit,
            r matches Err(e) ==> e is UnexpectedMessage,
    {
        match self.state {
            TxnState::Active => Ok(Message::Commit),
            _ => Err(unexpected("a request on a closed transaction", "COMMIT")),
        }
    }

    /// Interprets the COMMIT acknowledgement: SUCCESS keeps the work and
    /// the transaction is committed; anything else closes it as failed.
    pub fn on_commit_response(&mut self, resp: &Message) -> (r: Result<(), Error>)
        requires
            old(self).state is Active,
        ensures
            final(self).fetch_size == old(self).fetch_size,
            resp is Success ==> r is Ok && final(self).state is Committed,
            !(resp is Success) ==> r is Err && final(self).state is Failed,
            terminal(final(self).state),
    {
        match expect_success(resp, "COMMIT") {
            Ok(()) => {
                self.state = TxnState::Committed;
                Ok(())
            },
            Err(e) => {
                self.state = TxnState::Failed;
                Err(e)
            },
        }
    }

    /// The ROLLBACK request; refused once the transaction is terminal.
    pub fn rollback_request(&self) -> (r: Result<Message, Error>)
        ensures
            self.state is Active <==> r is Ok,
            r matches Ok(m) ==> m is Rollback,
            r matches Err(e) ==> e is UnexpectedMessage,
    {
        match self.state {
            TxnState::Active => Ok(Message::Rollback),
            _ => Err(unexpected("a request on a closed transaction", "ROLLBACK")),
        }
    }

    /// Interprets the ROLLBACK acknowledgement: SUCCESS discards the work
    /// and the transaction is rolled back; anything else closes it as
    /// failed.
    pub fn on_rollback_response(&mut self, resp: &Message) -> (r: Result<(), Error>)
        requires
            old(self).state is Active,
        ensures
            final(self).fetch_size == old(self).fetch_size,
            resp is Success ==> r is Ok && final(self).state is RolledBack,
            !(resp is Success) ==> r is Err && final(self).state is Failed,
            terminal(final(self).state),
    {
        match expect_success(resp, "ROLLBACK") {
            Ok(()) => {
                self.state = TxnState::RolledBack;
                Ok(())
            },
            Err(e) => {
                self.state = TxnState::Failed;
                Err(e)
            },
        }
    }
}

/// Terminal states are sticky: a transaction that is not active accepts
/// no further request, in any state it can be in.
pub proof fn lemma_terminal_sticky(t: Txn)
    ensures
        terminal(t.state) ==> !(t.state is Active),
        t.state is Committed || t.state is RolledBack || t.state is Failed ==> terminal(t.state),
{
}

/// Opening a transaction and rolling it straight back sends the server no
/// query: the conversation goes from idle through the open transaction
/// back to idle, and neither move carries work. What the server keeps of
/// a rolled-back transaction is its own promise, beyond this library.
pub proof fn lemma_begin_rollback_returns_to_idle()
    ensures
        crate::connection::conn_step(
            crate::connection::ConnState::Idle,
            crate::connection::ConnEvent::SendBegin,
        ) == Some(crate::connection::ConnState::TxReady),
        crate::connection::conn_step(
            crate::connection::ConnState::TxReady,
            crate::connection::ConnEvent::SendRollback,
        ) == Some(crate::connection::ConnState::Idle),
{
}

} // verus!
