//! The session: the auto-commit facade over a leased connection.
//!
//! A session builds the requests of one auto-commit execution and
//! interprets the replies; the caller owns the lease and moves the bytes.
use vstd::prelude::*;
use crate::errors::{unexpected, Error};
use crate::message::Message;
use crate::query::Query;
use crate::stream::RowStream;
use crate::value::{
    byte_models, copy_bytes, dict_get, lookup, models, pair_models, Value, ValueModel,
};

verus! {

/// Whether a transaction means to read or to write; forwarded to the
/// server when a transaction opens.
#[derive(PartialEq, Eq, Structural, Clone, Copy, Debug)]
pub enum AccessMode {
    Read,
    Write,
}

/// The bytes of the metadata key `code`.
pub open spec fn code_key() -> Seq<u8> {
    seq![99u8, 111u8, 100u8, 101u8]
}

/// The bytes of the metadata key `message`.
pub open spec fn message_key() -> Seq<u8> {
    seq![109u8, 101u8, 115u8, 115u8, 97u8, 103u8, 101u8]
}

/// The bytes of the metadata key `fields`.
pub open spec fn fields_key() -> Seq<u8> {
    seq![102u8, 105u8, 101u8, 108u8, 100u8, 115u8]
}

/// The bytes of the metadata key `qid`.
pub open spec fn qid_key() -> Seq<u8> {
    seq![113u8, 105u8, 100u8]
}

/// The classification code a FAILURE carries, or nothing.
pub open spec fn failure_code(md: Seq<(Seq<u8>, ValueModel)>) -> Seq<u8> {
    match lookup(md, code_key()) {
        Some(ValueModel::Str(b)) => b,
        _ => Seq::empty(),
    }
}

/// The human-readable message a FAILURE carries, or nothing.
pub open spec fn failure_message(md: Seq<(Seq<u8>, ValueModel)>) -> Seq<u8> {
    match lookup(md, message_key()) {
        Some(ValueModel::Str(b)) => b,
        _ => Seq::empty(),
    }
}

/// The error a FAILURE reply denotes: the server's code and message.
pub fn server_error(md: &Vec<(Vec<u8>, Value)>) -> (e: Error)
    ensures
        e matches Error::Server { code, message } && code@ == failure_code(pair_models(md@))
            && message@ == failure_message(pair_models(md@)),
{
    let ck: [u8; 4] = [99, 111, 100, 101];
    assert(ck@ =~= code_key());
    let code: Vec<u8> = match dict_get(md, vstd::array::array_as_slice(&ck)) {
        Some(v) => match v {
            Value::Str(b) => copy_bytes(b),
            _ => Vec::new(),
        },
        None => Vec::new(),
    };
    let mk: [u8; 7] = [109, 101, 115, 115, 97, 103, 101];
    assert(mk@ =~= message_key());
    let message: Vec<u8> = match dict_get(md, vstd::array::array_as_slice(&mk)) {
        Some(v) => match v {
            Value::Str(b) => copy_bytes(b),
            _ => Vec::new(),
        },
        None => Vec::new(),
    };
    Error::Server { code, message }
}

/// Acknowledges a request that expects plain SUCCESS: a FAILURE becomes
/// the server's error, anything else an unexpected reply.
pub fn expect_success(resp: &Message, request: &str) -> (r: Result<(), Error>)
    ensures
        ({
            match resp {
                Message::Success(_) => r is Ok,
                Message::Failure(md) => r matches Err(e) && e matches Error::Server {
                    code,
                    message,
                } && code@ == failure_code(pair_models(md@)) && message@ == failure_message(
                    pair_models(md@),
                ),
                _ => r matches Err(e) && e is UnexpectedMessage,
            }
        }),
{
    match resp {
        Message::Success(_) => Ok(()),
        Message::Failure(md) => Err(server_error(md)),
        _ => Err(unexpected("a reply that is no acknowledgement", request)),
    }
}

/// The column names a RUN acknowledgement announces, when the entry under
/// `fields` is absent (no columns) or a list of strings.
pub open spec fn run_fields(md: Seq<(Seq<u8>, ValueModel)>) -> Option<Seq<Seq<u8>>> {
    match lookup(md, fields_key()) {
        Some(ValueModel::List(items)) => if forall|i: int|
            0 <= i < items.len() ==> (#[trigger] items[i]) is Str {
            Some(Seq::new(items.len(), |i: int| items[i]->Str_0))
        } else {
            None
        },
        Some(_) => None,
        None => Some(Seq::empty()),
    }
}

/// The query id a RUN acknowledgement announces: absent means the last
/// query of the connection.
pub open spec fn run_qid(md: Seq<(Seq<u8>, ValueModel)>) -> Option<i64> {
    match lookup(md, qid_key()) {
        Some(ValueModel::Int(q)) => Some(q),
        Some(_) => None,
        None => Some(-1i64),
    }
}

/// Opens the row stream a RUN acknowledgement describes: its column
/// names, its query id, and pages of `fetch_size` records. A FAILURE
/// becomes the server's error; metadata of the wrong shape cannot be
/// converted; anything else is an unexpected reply.
pub fn open_stream(resp: &Message, fetch_size: usize) -> (r: Result<RowStream, Error>)
    ensures
        ({
            match resp {
                Message::Success(md) => {
                    match (run_fields(pair_models(md@)), run_qid(pair_models(md@))) {
                        (Some(fs), Some(q)) => r matches Ok(s) && s.wf()
                            && s.state is Ready && s.fetch_size == fetch_size && s.qid == q
                            && byte_models(s.fields@) == fs && s.received@ == 0 && s.yielded@ == 0
                            && s.discarded@ == 0 && s.buffer@.len() == 0,
                        _ => r matches Err(e) && e is ConversionError,
                    }
                },
                Message::Failure(md) => r matches Err(e) && e matches Error::Server {
                    code,
                    message,
                } && code@ == failure_code(pair_models(md@)) && message@ == failure_message(
                    pair_models(md@),
                ),
                _ => r matches Err(e) && e is UnexpectedMessage,
            }
        }),
{
    match resp {
        Message::Success(md) => {
            let fk: [u8; 6] = [102, 105, 101, 108, 100, 115];
            assert(fk@ =~= fields_key());
            let fields: Vec<Vec<u8>> = match dict_get(md, vstd::array::array_as_slice(&fk)) {
                Some(v) => match v {
                    Value::List(items) => {
                        let ghost ims = models(items@);
                        let mut out: Vec<Vec<u8>> = Vec::new();
                        let mut i: usize = 0;
                        while i < items.len()
                            invariant
                                resp matches Message::Success(m2) && pair_models(m2@)
                                    == pair_models(md@),
                                i <= items@.len(),
                                ims == models(items@),
                                ims.len() == items@.len(),
                                lookup(pair_models(md@), fields_key()) == Some(
                                    ValueModel::List(ims),
                                ),
                                out@.len() == i,
                                forall|j: int| 0 <= j < i ==> (#[trigger] ims[j]) is Str
                                    && out@[j]@ == ims[j]->Str_0,
                            decreases items@.len() - i,
                        {
                            match &items[i] {
                                Value::Str(b) => {
                                    out.push(copy_bytes(b));
                                    proof {
                                        assert(ims[i as int] == items@[i as int].model());
                                    }
                                },
                                _ => {
                                    proof {
                                        assert(ims[i as int] == items@[i as int].model());
                                        assert(!(ims[i as int] is Str));
                                        assert(run_fields(pair_models(md@)) is None);
                                    }
                                    return Err(Error::ConversionError);
                                },
                            }
                            i = i + 1;
                        }
                        proof {
                            assert(run_fields(pair_models(md@)) matches Some(fs) && byte_models(
                                out@,
                            ) =~= fs);
                        }
                        out
                    },
                    _ => {
                        return Err(Error::ConversionError);
                    },
                },
                None => {
                    let out: Vec<Vec<u8>> = Vec::new();
                    proof {
                        assert(byte_models(out@) =~= Seq::<Seq<u8>>::empty());
                    }
                    out
                },
            };
            let qk: [u8; 3] = [113, 105, 100];
            assert(qk@ =~= qid_key());
            let qid: i64 = match dict_get(md, vstd::array::array_as_slice(&qk)) {
                Some(v) => match v {
                    Value::Int(q) => *q,
                    _ => {
                        return Err(Error::ConversionError);
                    },
                },
                None => -1,
            };
            Ok(RowStream::new(qid, fields, fetch_size))
        },
        Message::Failure(md) => Err(server_error(md)),
        _ => Err(unexpected("a reply that is no acknowledgement", "RUN")),
    }
}

/// An auto-commit facade: runs queries on a connection leased per call,
/// against the named database, fetching `fetch_size` records per page.
pub struct Session {
    pub db: Vec<u8>,
    pub fetch_size: usize,
}

impl Session {
    /// A session against the database `db`.
    pub fn new(db: Vec<u8>, fetch_size: usize) -> (s: Session)
        ensures
            s.db == db,
            s.fetch_size == fetch_size,
    {
        Session { db, fetch_size }
    }

    /// The RUN request of one auto-commit query: its text, its
    /// parameters, and the database name in the metadata.
    pub fn run_request(&self, q: Query) -> (m: Message)
        ensures
            m matches Message::Run(text, params, md) && text == q.text && params == q.params
                && pair_models(md@) == seq![
                (seq![100u8, 98u8], ValueModel::Str(self.db@)),
            ],
    {
        let mut md: Vec<(Vec<u8>, Value)> = Vec::new();
        let mut db_key: Vec<u8> = Vec::new();
        db_key.push(100);
        db_key.push(98);
        proof {
            assert(db_key@ =~= seq![100u8, 98u8]);
        }
        md.push((db_key, Value::Str(copy_bytes(&self.db))));
        proof {
            assert(pair_models(md@) =~= seq![(seq![100u8, 98u8], ValueModel::Str(self.db@))]);
        }
        Message::Run(q.text, q.params, md)
    }
}

} // verus!
