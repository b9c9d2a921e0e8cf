//! The per-connection conversation state machine.
//!
//! A connection is a strict request/response conversation: every request
//! sent and every reply read moves the machine, and a request that the
//! current state forbids is rejected before anything reaches the wire.
//! [`lemma_trace_is_path`] states that the recorded life of a connection
//! is a path of these moves.
use vstd::prelude::*;
use vstd::array::array_as_slice;
use vstd::slice::slice_to_vec;
use vstd::string::StringSliceAdditionalSpecFns;
use crate::errors::{unexpected, Error};
use crate::message::Message;
use crate::value::{dict_get, lookup, pair_models, Value};

verus! {

/// The conversation state of one connection.
#[derive(PartialEq, Eq, Structural, Clone, Copy, Debug)]
pub enum ConnState {
    /// Nothing pending; any request may open.
    Idle,
    /// An auto-commit query is streaming records.
    Streaming,
    /// An explicit transaction is open, with no stream pending.
    TxReady,
    /// A query inside the open transaction is streaming records.
    TxStreaming,
    /// A failure is pending; only a reset recovers the connection.
    Failed,
}

/// One move of the conversation: a request written, or a reply read.
#[derive(PartialEq, Eq, Structural, Clone, Copy, Debug)]
pub enum ConnEvent {
    SendRun,
    SendPull,
    SendDiscard,
    SendBegin,
    SendCommit,
    SendRollback,
    SendReset,
    RecvSuccessFinal,
    RecvSuccessMore,
    RecvRecord,
    RecvFailure,
    RecvIgnored,
}

/// The machine itself: the state after taking `e` in `s`, or nothing
/// where the conversation forbids `e`.
pub open spec fn conn_step(s: ConnState, e: ConnEvent) -> Option<ConnState> {
    match e {
        ConnEvent::SendReset => Some(ConnState::Idle),
        ConnEvent::RecvFailure => Some(ConnState::Failed),
        ConnEvent::RecvIgnored => Some(ConnState::Failed),
        ConnEvent::SendRun => match s {
            ConnState::Idle => Some(ConnState::Streaming),
            ConnState::TxReady => Some(ConnState::TxStreaming),
            _ => None,
        },
        ConnEvent::SendPull => match s {
            ConnState::Streaming => Some(ConnState::Streaming),
            ConnState::TxStreaming => Some(ConnState::TxStreaming),
            _ => None,
        },
        ConnEvent::SendDiscard => match s {
            ConnState::Streaming => Some(ConnState::Idle),
            ConnState::TxStreaming => Some(ConnState::TxReady),
            _ => None,
        },
        ConnEvent::SendBegin => match s {
            ConnState::Idle => Some(ConnState::TxReady),
            _ => None,
        },
        ConnEvent::SendCommit => match s {
            ConnState::TxReady => Some(ConnState::Idle),
            _ => None,
        },
        ConnEvent::SendRollback => match s {
            ConnState::TxReady => Some(ConnState::Idle),
            _ => None,
        },
        ConnEvent::RecvSuccessFinal => match s {
            ConnState::Streaming => Some(ConnState::Idle),
            ConnState::TxStreaming => Some(ConnState::TxReady),
            ConnState::Idle => Some(ConnState::Idle),
            ConnState::TxReady => Some(ConnState::TxReady),
            _ => None,
        },
        ConnEvent::RecvSuccessMore => match s {
            ConnState::Streaming => Some(ConnState::Streaming),
            ConnState::TxStreaming => Some(ConnState::TxStreaming),
            _ => None,
        },
        ConnEvent::RecvRecord => match s {
            ConnState::Streaming => Some(ConnState::Streaming),
            ConnState::TxStreaming => Some(ConnState::TxStreaming),
            _ => None,
        },
    }
}

/// Whether `steps` is a path of the machine that starts in `start`: each
/// recorded move takes the state of the moment to the state recorded
/// with it.
pub open spec fn path_from(start: ConnState, steps: Seq<(ConnEvent, ConnState)>) -> bool
    decreases steps.len(),
{
    if steps.len() == 0 {
        true
    } else {
        conn_step(start, steps.first().0) == Some(steps.first().1) && path_from(
            steps.first().1,
            steps.drop_first(),
        )
    }
}

/// The state a path of moves ends in.
pub open spec fn path_end(start: ConnState, steps: Seq<(ConnEvent, ConnState)>) -> ConnState {
    if steps.len() == 0 {
        start
    } else {
        steps.last().1
    }
}

/// A path stays a path when a legal move of its end state is recorded.
proof fn lemma_path_push(start: ConnState, steps: Seq<(ConnEvent, ConnState)>, e: ConnEvent, s2: ConnState)
    requires
        path_from(start, steps),
        conn_step(path_end(start, steps), e) == Some(s2),
    ensures
        path_from(start, steps.push((e, s2))),
        path_end(start, steps.push((e, s2))) == s2,
    decreases steps.len(),
{
    if steps.len() == 0 {
        assert(steps.push((e, s2)).first() == (e, s2));
        assert(steps.push((e, s2)).drop_first() =~= Seq::<(ConnEvent, ConnState)>::empty());
        assert(path_from(s2, Seq::<(ConnEvent, ConnState)>::empty()));
    } else {
        assert(steps.push((e, s2)).first() == steps.first());
        assert(steps.push((e, s2)).drop_first() =~= steps.drop_first().push((e, s2)));
        assert(path_end(steps.first().1, steps.drop_first()) == path_end(start, steps));
        lemma_path_push(steps.first().1, steps.drop_first(), e, s2);
    }
}

/// The conversation tracker of one connection: the current state, and the
/// ghost record of every move taken since the connection was opened.
pub struct Conversation {
    pub state: ConnState,
    pub trace: Ghost<Seq<(ConnEvent, ConnState)>>,
}

impl Conversation {
    /// The recorded moves form a path of the machine from `Idle` that
    /// ends in the current state.
    pub open spec fn wf(self) -> bool {
        path_from(ConnState::Idle, self.trace@) && path_end(ConnState::Idle, self.trace@)
            == self.state
    }

    /// A fresh conversation: authenticated, idle, nothing recorded.
    pub fn new() -> (c: Conversation)
        ensures
            c.wf(),
            c.state == ConnState::Idle,
            c.trace@ == Seq::<(ConnEvent, ConnState)>::empty(),
    {
        Conversation { state: ConnState::Idle, trace: Ghost(Seq::empty()) }
    }

    /// Takes one move: the machine's transition where the conversation
    /// allows it, and a rejection that changes nothing where it does not.
    pub fn apply(&mut self, e: ConnEvent) -> (r: Result<(), Error>)
        requires
            old(self).wf(),
        ensures
            final(self).wf(),
            ({
                match conn_step(old(self).state, e) {
                    Some(s2) => r is Ok && final(self).state == s2 && final(self).trace@ == old(
                        self,
                    ).trace@.push((e, s2)),
                    None => r matches Err(err) && err is UnexpectedMessage && *final(self) == *old(
                        self,
                    ),
                }
            }),
    {
        let next = match (self.state, e) {
            (_, ConnEvent::SendReset) => Some(ConnState::Idle),
            (_, ConnEvent::RecvFailure) => Some(ConnState::Failed),
            (_, ConnEvent::RecvIgnored) => Some(ConnState::Failed),
            (ConnState::Idle, ConnEvent::SendRun) => Some(ConnState::Streaming),
            (ConnState::TxReady, ConnEvent::SendRun) => Some(ConnState::TxStreaming),
            (ConnState::Streaming, ConnEvent::SendPull) => Some(ConnState::Streaming),
            (ConnState::TxStreaming, ConnEvent::SendPull) => Some(ConnState::TxStreaming),
            (ConnState::Streaming, ConnEvent::SendDiscard) => Some(ConnState::Idle),
            (ConnState::TxStreaming, ConnEvent::SendDiscard) => Some(ConnState::TxReady),
            (ConnState::Idle, ConnEvent::SendBegin) => Some(ConnState::TxReady),
            (ConnState::TxReady, ConnEvent::SendCommit) => Some(ConnState::Idle),
            (ConnState::TxReady, ConnEvent::SendRollback) => Some(ConnState::Idle),
            (ConnState::Streaming, ConnEvent::RecvSuccessFinal) => Some(ConnState::Idle),
            (ConnState::TxStreaming, ConnEvent::RecvSuccessFinal) => Some(ConnState::TxReady),
            (ConnState::Idle, ConnEvent::RecvSuccessFinal) => Some(ConnState::Idle),
            (ConnState::TxReady, ConnEvent::RecvSuccessFinal) => Some(ConnState::TxReady),
            (ConnState::Streaming, ConnEvent::RecvSuccessMore) => Some(ConnState::Streaming),
            (ConnState::TxStreaming, ConnEvent::RecvSuccessMore) => Some(ConnState::TxStreaming),
            (ConnState::Streaming, ConnEvent::RecvRecord) => Some(ConnState::Streaming),
            (ConnState::TxStreaming, ConnEvent::RecvRecord) => Some(ConnState::TxStreaming),
            _ => None,
        };
        match next {
            Some(s2) => {
                proof {
                    lemma_path_push(ConnState::Idle, self.trace@, e, s2);
                }
                let ghost t = self.trace@.push((e, s2));
                self.state = s2;
                self.trace = Ghost(t);
                Ok(())
            },
            None => Err(unexpected("request out of turn", "exchange")),
        }
    }
}

/// The event a request message means to the machine.
pub fn request_event(m: &Message) -> (e: Option<ConnEvent>)
    ensures
        ({
            match m {
                Message::Run(_, _, _) => e == Some(ConnEvent::SendRun),
                Message::Pull(_) => e == Some(ConnEvent::SendPull),
                Message::Discard(_) => e == Some(ConnEvent::SendDiscard),
                Message::Begin(_) => e == Some(ConnEvent::SendBegin),
                Message::Commit => e == Some(ConnEvent::SendCommit),
                Message::Rollback => e == Some(ConnEvent::SendRollback),
                Message::Reset => e == Some(ConnEvent::SendReset),
                _ => e is None,
            }
        }),
{
    match m {
        Message::Run(_, _, _) => Some(ConnEvent::SendRun),
        Message::Pull(_) => Some(ConnEvent::SendPull),
        Message::Discard(_) => Some(ConnEvent::SendDiscard),
        Message::Begin(_) => Some(ConnEvent::SendBegin),
        Message::Commit => Some(ConnEvent::SendCommit),
        Message::Rollback => Some(ConnEvent::SendRollback),
        Message::Reset => Some(ConnEvent::SendReset),
        _ => None,
    }
}

/// The bytes of the metadata key `has_more`.
pub open spec fn has_more_key() -> Seq<u8> {
    seq![104u8, 97u8, 115u8, 95u8, 109u8, 111u8, 114u8, 101u8]
}

/// Whether a SUCCESS reply announces more records to pull: its metadata
/// holds `true` under the key `has_more`.
pub open spec fn spec_has_more(md: Seq<(Seq<u8>, crate::value::ValueModel)>) -> bool {
    lookup(md, has_more_key()) == Some(crate::value::ValueModel::Bool(true))
}

/// The event a reply message means to the machine.
pub fn reply_event(m: &Message) -> (e: Option<ConnEvent>)
    ensures
        ({
            match m {
                Message::Success(md) => (e == Some(ConnEvent::RecvSuccessMore) <==> spec_has_more(
                    pair_models(md@),
                )) && (e == Some(ConnEvent::RecvSuccessFinal) <==> !spec_has_more(
                    pair_models(md@),
                )),
                Message::Record(_) => e == Some(ConnEvent::RecvRecord),
                Message::Failure(_) => e == Some(ConnEvent::RecvFailure),
                Message::Ignored => e == Some(ConnEvent::RecvIgnored),
                _ => e is None,
            }
        }),
{
    match m {
        Message::Success(md) => {
            let key: [u8; 8] = [104, 97, 115, 95, 109, 111, 114, 101];
            assert(key@ =~= has_more_key());
            let more = match dict_get(md, vstd::array::array_as_slice(&key)) {
                Some(v) => match v {
                    Value::Bool(b) => *b,
                    _ => false,
                },
                None => false,
            };
            if more {
                Some(ConnEvent::RecvSuccessMore)
            } else {
                Some(ConnEvent::RecvSuccessFinal)
            }
        },
        Message::Record(_) => Some(ConnEvent::RecvRecord),
        Message::Failure(_) => Some(ConnEvent::RecvFailure),
        Message::Ignored => Some(ConnEvent::RecvIgnored),
        _ => None,
    }
}

/// The bytes of the metadata key `user_agent`.
pub open spec fn user_agent_key() -> Seq<u8> {
    seq![117u8, 115u8, 101u8, 114u8, 95u8, 97u8, 103u8, 101u8, 110u8, 116u8]
}

/// The bytes of the metadata key `scheme`.
pub open spec fn scheme_key() -> Seq<u8> {
    seq![115u8, 99u8, 104u8, 101u8, 109u8, 101u8]
}

/// The bytes of the scheme name `basic`.
pub open spec fn basic_scheme() -> Seq<u8> {
    seq![98u8, 97u8, 115u8, 105u8, 99u8]
}

/// The bytes of the metadata key `principal`.
pub open spec fn principal_key() -> Seq<u8> {
    seq![112u8, 114u8, 105u8, 110u8, 99u8, 105u8, 112u8, 97u8, 108u8]
}

/// The bytes of the metadata key `credentials`.
pub open spec fn credentials_key() -> Seq<u8> {
    seq![99u8, 114u8, 101u8, 100u8, 101u8, 110u8, 116u8, 105u8, 97u8, 108u8, 115u8]
}

/// The HELLO request that authenticates a fresh connection: the agent
/// name, the basic scheme, and the caller's credentials.
pub fn hello_request(user_agent: &str, user: &str, password: &str) -> (m: Message)
    ensures
        m matches Message::Hello(md) && pair_models(md@) == seq![
            (user_agent_key(), crate::value::ValueModel::Str(user_agent.spec_bytes())),
            (scheme_key(), crate::value::ValueModel::Str(basic_scheme())),
            (principal_key(), crate::value::ValueModel::Str(user.spec_bytes())),
            (credentials_key(), crate::value::ValueModel::Str(password.spec_bytes())),
        ],
{
    let ua_key: [u8; 10] = [117, 115, 101, 114, 95, 97, 103, 101, 110, 116];
    let sc_key: [u8; 6] = [115, 99, 104, 101, 109, 101];
    let sc_val: [u8; 5] = [98, 97, 115, 105, 99];
    let pr_key: [u8; 9] = [112, 114, 105, 110, 99, 105, 112, 97, 108];
    let cr_key: [u8; 11] = [99, 114, 101, 100, 101, 110, 116, 105, 97, 108, 115];
    let mut md: Vec<(Vec<u8>, Value)> = Vec::new();
    md.push(
        (
            slice_to_vec(array_as_slice(&ua_key)),
            Value::Str(slice_to_vec(user_agent.as_bytes())),
        ),
    );
    md.push(
        (slice_to_vec(array_as_slice(&sc_key)), Value::Str(slice_to_vec(array_as_slice(&sc_val)))),
    );
    md.push((slice_to_vec(array_as_slice(&pr_key)), Value::Str(slice_to_vec(user.as_bytes()))));
    md.push(
        (slice_to_vec(array_as_slice(&cr_key)), Value::Str(slice_to_vec(password.as_bytes()))),
    );
    proof {
        assert(ua_key@ =~= user_agent_key());
        assert(sc_key@ =~= scheme_key());
        assert(sc_val@ =~= basic_scheme());
        assert(pr_key@ =~= principal_key());
        assert(cr_key@ =~= credentials_key());
        assert(pair_models(md@) =~= seq![
            (user_agent_key(), crate::value::ValueModel::Str(user_agent.spec_bytes())),
            (scheme_key(), crate::value::ValueModel::Str(basic_scheme())),
            (principal_key(), crate::value::ValueModel::Str(user.spec_bytes())),
            (credentials_key(), crate::value::ValueModel::Str(password.spec_bytes())),
        ]);
    }
    Message::Hello(md)
}

/// Acknowledges the HELLO: a FAILURE is an authentication rejection
/// carrying the server's message; anything but SUCCESS refuses the
/// connection.
pub fn hello_acknowledged(resp: &Message) -> (r: Result<(), Error>)
    ensures
        ({
            match resp {
                Message::Success(_) => r is Ok,
                Message::Failure(md) => r matches Err(e) && e matches Error::AuthenticationError(
                    msg,
                ) && msg@ == crate::session::failure_message(pair_models(md@)),
                _ => r matches Err(e) && e is UnexpectedMessage,
            }
        }),
{
    match resp {
        Message::Success(_) => Ok(()),
        Message::Failure(md) => {
            match crate::session::server_error(md) {
                Error::Server { code: _, message } => Err(Error::AuthenticationError(message)),
                _ => Err(unexpected("a reply that is no acknowledgement", "HELLO")),
            }
        },
        _ => Err(unexpected("a reply that is no acknowledgement", "HELLO")),
    }
}

/// Frames one request for the wire: the message's encoding, split into
/// chunks and closed with the terminator. A message over the wire's size
/// bounds is refused with the size error of its first oversize part.
pub fn frame_message(m: &Message) -> (r: Result<Vec<u8>, Error>)
    ensures
        r is Ok <==> crate::message::msg_valid(m.model()),
        r matches Ok(b) ==> b@ == crate::chunk::chunked(crate::message::enc_msg(m.model())),
        r matches Err(e) ==> e is StringTooLong || e is BytesTooBig || e is ListTooLong
            || e is MapTooBig,
{
    match crate::message::encode_message(m) {
        Ok(payload) => Ok(crate::chunk::chunk_message(&payload)),
        Err(e) => Err(e),
    }
}

/// Reads one reply out of buffered wire bytes: reassembles the frame
/// starting at `pos` and decodes its payload as a message, returning the
/// message and how many bytes the frame took.
pub fn parse_frame(s: &Vec<u8>, pos: usize) -> (r: Result<(Message, usize), Error>)
    requires
        pos <= s@.len(),
    ensures
        ({
            match crate::chunk::unchunk(s@.skip(pos as int)) {
                Some(p) => (match crate::message::dec_msg(p.0) {
                    Ok(mm) => r matches Ok(q) && q.0.model() == mm && q.1 == p.1 && pos + p.1
                        <= s@.len(),
                    Err(crate::message::MsgDecErr::Value(crate::codec::DecErr::Short)) => r matches
                        Err(e) && e is DeserializationError,
                    Err(crate::message::MsgDecErr::Value(crate::codec::DecErr::Bad)) => r matches
                        Err(e) && e is InvalidTypeMarker,
                    Err(crate::message::MsgDecErr::Value(crate::codec::DecErr::Unsupported)) => r
                        matches Err(e) && e is UnknownType,
                    Err(crate::message::MsgDecErr::Unknown) => r matches Err(e)
                        && e is UnknownMessage,
                    Err(crate::message::MsgDecErr::Shape) => r matches Err(e)
                        && e is ConversionError,
                    Err(crate::message::MsgDecErr::Trailing) => r matches Err(e)
                        && e is DeserializationError,
                }),
                None => r matches Err(e) && e is DeserializationError,
            }
        }),
{
    match crate::chunk::unchunk_message(s, pos) {
        Ok((payload, k)) => {
            match crate::message::decode_message(&payload) {
                Ok(m) => Ok((m, k)),
                Err(e) => Err(e),
            }
        },
        Err(e) => Err(e),
    }
}

/// The life of a connection is a path of the machine: every conversation
/// this module hands out satisfies it, and every move keeps it.
pub proof fn lemma_trace_is_path(c: Conversation)
    requires
        c.wf(),
    ensures
        path_from(ConnState::Idle, c.trace@),
        path_end(ConnState::Idle, c.trace@) == c.state,
{
}

} // verus!
