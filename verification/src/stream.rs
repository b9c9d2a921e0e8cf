//! The row stream: a lazy cursor over the records of one query.
//!
//! The stream never touches a socket itself: it says what must happen
//! next ([`RowStream::next_action`]), and the caller performs the wire
//! work and feeds every reply back in ([`RowStream::on_message`]). Its
//! invariant accounts for every record the server sent: each is still
//! buffered, was handed to the caller, or was dropped by a discard —
//! [`lemma_stream_conservation`] states it.
use vstd::prelude::*;
use crate::connection::{has_more_key, spec_has_more};
use crate::errors::{unexpected, Error};
use crate::message::Message;
use crate::value::{dict_get, pair_models, Value};

verus! {

/// The cursor state of a row stream.
#[derive(PartialEq, Eq, Structural, Clone, Copy, Debug)]
pub enum StreamState {
    /// The stream may ask the server for another page of records.
    Ready,
    /// A page was requested; replies are being read.
    Streaming,
    /// A page ended with more records available on the server.
    Buffered,
    /// The last page ended; only the buffer remains.
    Complete,
    /// The server failed the query; nothing more will be yielded.
    Failed,
}

/// What the stream needs its caller to do next.
#[derive(PartialEq, Eq, Structural, Clone, Copy, Debug)]
pub enum StreamAction {
    /// Send a PULL for the next page, then report it with `on_pull_sent`.
    IssuePull,
    /// Read one reply from the connection and feed it to `on_message`.
    AwaitMessage,
    /// Take the next buffered record with `take_row`.
    YieldRow,
    /// The stream is exhausted.
    EndOfStream,
}

/// A lazy cursor over the records of one query: holds the query id the
/// server assigned, the column names, the window accounting and a bounded
/// buffer of records not yet handed out.
pub struct RowStream {
    pub qid: i64,
    pub fields: Vec<Vec<u8>>,
    pub fetch_size: usize,
    pub state: StreamState,
    pub window: usize,
    pub buffer: Vec<Vec<Value>>,
    pub received: Ghost<int>,
    pub yielded: Ghost<int>,
    pub discarded: Ghost<int>,
}

impl RowStream {
    /// The accounting invariant: every record received is buffered,
    /// yielded or discarded; the buffer and the open window never exceed
    /// one page, so the buffer is hard-capped at `fetch_size`.
    pub open spec fn wf(self) -> bool {
        &&& self.received@ == self.yielded@ + self.discarded@ + self.buffer@.len()
        &&& self.yielded@ >= 0
        &&& self.discarded@ >= 0
        &&& self.buffer@.len() + self.window <= self.fetch_size
        &&& (self.state is Ready ==> self.window == 0 && self.buffer@.len() == 0)
        &&& (self.state is Buffered ==> self.window == 0)
        &&& (self.state is Complete ==> self.window == 0)
    }

    /// A fresh stream over the query `qid` with the given column names;
    /// it will request `fetch_size` records per page.
    pub fn new(qid: i64, fields: Vec<Vec<u8>>, fetch_size: usize) -> (s: RowStream)
        ensures
            s.wf(),
            s.state == StreamState::Ready,
            s.qid == qid,
            s.fetch_size == fetch_size,
            s.fields == fields,
            s.received@ == 0 && s.yielded@ == 0 && s.discarded@ == 0,
            s.buffer@.len() == 0,
    {
        RowStream {
            qid,
            fields,
            fetch_size,
            state: StreamState::Ready,
            window: 0,
            buffer: Vec::new(),
            received: Ghost(0),
            yielded: Ghost(0),
            discarded: Ghost(0),
        }
    }

    /// What must happen next, decided from the cursor state alone:
    /// a buffered record is handed out before anything else; an empty
    /// buffer asks for another page while the server has one, and ends
    /// the stream when it does not. A failed stream yields nothing more.
    pub fn next_action(&self) -> (a: StreamAction)
        ensures
            a == (match self.state {
                StreamState::Ready => StreamAction::IssuePull,
                StreamState::Streaming => StreamAction::AwaitMessage,
                StreamState::Buffered => if self.buffer@.len() > 0 {
                    StreamAction::YieldRow
                } else {
                    StreamAction::IssuePull
                },
                StreamState::Complete => if self.buffer@.len() > 0 {
                    StreamAction::YieldRow
                } else {
                    StreamAction::EndOfStream
                },
                StreamState::Failed => StreamAction::EndOfStream,
            }),
    {
        match self.state {
            StreamState::Ready => StreamAction::IssuePull,
            StreamState::Streaming => StreamAction::AwaitMessage,
            StreamState::Buffered => if self.buffer.len() > 0 {
                StreamAction::YieldRow
            } else {
                StreamAction::IssuePull
            },
            StreamState::Complete => if self.buffer.len() > 0 {
                StreamAction::YieldRow
            } else {
                StreamAction::EndOfStream
            },
            StreamState::Failed => StreamAction::EndOfStream,
        }
    }

    /// The page size as the wire carries it.
    pub open spec fn page_size(self) -> i64 {
        if self.fetch_size > 0x7FFF_FFFF_FFFF_FFFF {
            0x7FFF_FFFF_FFFF_FFFF
        } else {
            self.fetch_size as i64
        }
    }

    /// The PULL message that requests the next page: at most `fetch_size`
    /// records of the query `qid`.
    pub fn pull_request(&self) -> (m: Message)
        ensures
            m matches Message::Pull(md) && pair_models(md@) == seq![
                (seq![110u8], crate::value::ValueModel::Int(self.page_size())),
                (seq![113u8, 105u8, 100u8], crate::value::ValueModel::Int(self.qid)),
            ],
    {
        let n: i64 = if self.fetch_size as u64 > 0x7FFF_FFFF_FFFF_FFFFu64 {
            0x7FFF_FFFF_FFFF_FFFF
        } else {
            self.fetch_size as i64
        };
        let mut md: Vec<(Vec<u8>, Value)> = Vec::new();
        let mut n_key: Vec<u8> = Vec::new();
        n_key.push(110);
        let mut qid_key: Vec<u8> = Vec::new();
        qid_key.push(113);
        qid_key.push(105);
        qid_key.push(100);
        proof {
            assert(n_key@ =~= seq![110u8]);
            assert(qid_key@ =~= seq![113u8, 105u8, 100u8]);
        }
        md.push((n_key, Value::Int(n)));
        md.push((qid_key, Value::Int(self.qid)));
        proof {
            assert(pair_models(md@) =~= seq![
                (seq![110u8], crate::value::ValueModel::Int(self.page_size())),
                (seq![113u8, 105u8, 100u8], crate::value::ValueModel::Int(self.qid)),
            ]);
        }
        Message::Pull(md)
    }

    /// Records that a PULL for a full page went out: the stream turns to
    /// reading replies and the server may send up to `fetch_size` records.
    pub fn on_pull_sent(&mut self)
        requires
            old(self).wf(),
            old(self).state is Ready || (old(self).state is Buffered && old(self).buffer@.len()
                == 0),
        ensures
            final(self).wf(),
            final(self).state == StreamState::Streaming,
            final(self).window == final(self).fetch_size,
            final(self).qid == old(self).qid,
            final(self).fields == old(self).fields,
            final(self).fetch_size == old(self).fetch_size,
            final(self).buffer == old(self).buffer,
            final(self).received == old(self).received,
            final(self).yielded == old(self).yielded,
            final(self).discarded == old(self).discarded,
    {
        self.state = StreamState::Streaming;
        self.window = self.fetch_size;
    }

    /// Feeds one reply in while a page is being read. A record within the
    /// granted window is buffered; the page's closing acknowledgement
    /// turns the stream to `Buffered` or `Complete` by its `has_more`
    /// flag; a failure, a record past the window, and any reply of
    /// another kind end the stream with the error surfaced here.
    pub fn on_message(&mut self, msg: Message) -> (r: Result<(), Error>)
        requires
            old(self).wf(),
            old(self).state is Streaming,
        ensures
            final(self).wf(),
            final(self).qid == old(self).qid,
            final(self).fetch_size == old(self).fetch_size,
            final(self).fields == old(self).fields,
            final(self).yielded@ == old(self).yielded@,
            final(self).discarded@ == old(self).discarded@,
            ({
                match msg {
                    Message::Record(vals) => if old(self).window > 0 {
                        r is Ok && final(self).state is Streaming
                            && final(self).buffer@ == old(self).buffer@.push(vals)
                            && final(self).received@ == old(self).received@ + 1
                            && final(self).window == old(self).window - 1
                    } else {
                        r matches Err(e) && e is UnexpectedMessage && final(self).state is Failed
                            && final(self).buffer@ == old(self).buffer@ && final(self).received@
                            == old(self).received@
                    },
                    Message::Success(md) => r is Ok && final(self).buffer@ == old(self).buffer@
                        && final(self).received@ == old(self).received@ && final(self).window == 0
                        && final(self).state == (if spec_has_more(pair_models(md@)) {
                        StreamState::Buffered
                    } else {
                        StreamState::Complete
                    }),
                    Message::Failure(_) => r matches Err(e) && e is Server
                        && final(self).state is Failed
                        && final(self).buffer@ == old(self).buffer@
                        && final(self).received@ == old(self).received@,
                    _ => r matches Err(e) && e is UnexpectedMessage
                        && final(self).state is Failed
                        && final(self).buffer@ == old(self).buffer@
                        && final(self).received@ == old(self).received@,
                }
            }),
    {
        match msg {
            Message::Record(vals) => {
                if self.window > 0 {
                    self.window = self.window - 1;
                    self.buffer.push(vals);
                    let ghost c = self.received@ + 1;
                    self.received = Ghost(c);
                    Ok(())
                } else {
                    self.state = StreamState::Failed;
                    Err(unexpected("a record past the granted window", "PULL"))
                }
            },
            Message::Success(md) => {
                let key: [u8; 8] = [104, 97, 115, 95, 109, 111, 114, 101];
                assert(key@ =~= has_more_key());
                let more = match dict_get(&md, vstd::array::array_as_slice(&key)) {
                    Some(v) => match v {
                        Value::Bool(b) => *b,
                        _ => false,
                    },
                    None => false,
                };
                self.window = 0;
                self.state = if more {
                    StreamState::Buffered
                } else {
                    StreamState::Complete
                };
                Ok(())
            },
            Message::Failure(md) => {
                self.state = StreamState::Failed;
                Err(crate::session::server_error(&md))
            },
            _ => {
                self.state = StreamState::Failed;
                Err(unexpected("a reply that is no stream message", "PULL"))
            },
        }
    }

    /// Hands out the oldest buffered record, if any.
    pub fn take_row(&mut self) -> (r: Option<Vec<Value>>)
        requires
            old(self).wf(),
        ensures
            final(self).wf(),
            final(self).state == old(self).state,
            final(self).received@ == old(self).received@,
            final(self).discarded@ == old(self).discarded@,
            old(self).buffer@.len() > 0 ==> (r matches Some(row)
                && row == old(self).buffer@.first()
                && final(self).buffer@ == old(self).buffer@.drop_first()
                && final(self).yielded@ == old(self).yielded@ + 1),
            old(self).buffer@.len() == 0 ==> r is None && *final(self) == *old(self),
    {
        if self.buffer.len() > 0 {
            let row = self.buffer.remove(0);
            let ghost c = self.yielded@ + 1;
            self.yielded = Ghost(c);
            proof {
                assert(self.buffer@ =~= old(self).buffer@.drop_first());
            }
            Some(row)
        } else {
            None
        }
    }

    /// The DISCARD message that drops the rest of the query's records on
    /// the server.
    pub fn discard_request(&self) -> (m: Message)
        ensures
            m matches Message::Discard(md) && pair_models(md@) == seq![
                (seq![110u8], crate::value::ValueModel::Int(-1i64)),
                (seq![113u8, 105u8, 100u8], crate::value::ValueModel::Int(self.qid)),
            ],
    {
        let mut md: Vec<(Vec<u8>, Value)> = Vec::new();
        let mut n_key: Vec<u8> = Vec::new();
        n_key.push(110);
        let mut qid_key: Vec<u8> = Vec::new();
        qid_key.push(113);
        qid_key.push(105);
        qid_key.push(100);
        proof {
            assert(n_key@ =~= seq![110u8]);
            assert(qid_key@ =~= seq![113u8, 105u8, 100u8]);
        }
        md.push((n_key, Value::Int(-1)));
        md.push((qid_key, Value::Int(self.qid)));
        proof {
            assert(pair_models(md@) =~= seq![
                (seq![110u8], crate::value::ValueModel::Int(-1i64)),
                (seq![113u8, 105u8, 100u8], crate::value::ValueModel::Int(self.qid)),
            ]);
        }
        Message::Discard(md)
    }

    /// Ends the stream after a discard: every buffered record is dropped
    /// and counted discarded, and nothing more will be asked of the
    /// server.
    pub fn on_discarded(&mut self)
        requires
            old(self).wf(),
        ensures
            final(self).wf(),
            final(self).state == StreamState::Complete,
            final(self).buffer@.len() == 0,
            final(self).received@ == old(self).received@,
            final(self).yielded@ == old(self).yielded@,
            final(self).discarded@ == old(self).discarded@ + old(self).buffer@.len(),
    {
        let ghost c = self.discarded@ + self.buffer@.len();
        self.discarded = Ghost(c);
        self.buffer.clear();
        self.window = 0;
        self.state = StreamState::Complete;
    }
}

/// With pages of one record, one PULL admits at most one record: the
/// open window and the buffer together never hold more than one, so
/// every further record costs another PULL.
pub proof fn lemma_one_pull_per_record(s: RowStream)
    requires
        s.wf(),
        s.fetch_size == 1,
    ensures
        s.buffer@.len() + s.window <= 1,
{
}

/// No record is lost or invented: of everything the server sent, what was
/// not yet handed out is still buffered or was dropped by a discard.
pub proof fn lemma_stream_conservation(s: RowStream)
    requires
        s.wf(),
    ensures
        s.received@ == s.yielded@ + s.discarded@ + s.buffer@.len(),
        s.buffer@.len() <= s.fetch_size,
{
}

} // verus!
