//! The messages of the wire protocol: each kind is a tagged structure
//! whose fields are typed values, and rides inside a chunked frame.
use vstd::prelude::*;
use vstd::string::StringExecFns;
use crate::codec::{dec, enc, enc_list, valid, DecErr};
use crate::decode::decode_value;
use crate::encode::{encode_dict, encode_list, encode_str_bytes};
use crate::errors::Error;
use crate::value::{models, pair_models, Value, ValueModel};

verus! {

// Message tags, one per message kind.
pub const T_HELLO: u8 = 0x01;
pub const T_RESET: u8 = 0x0F;
pub const T_RUN: u8 = 0x10;
pub const T_BEGIN: u8 = 0x11;
pub const T_COMMIT: u8 = 0x12;
pub const T_ROLLBACK: u8 = 0x13;
pub const T_DISCARD: u8 = 0x2F;
pub const T_PULL: u8 = 0x3F;
pub const T_SUCCESS: u8 = 0x70;
pub const T_RECORD: u8 = 0x71;
pub const T_IGNORED: u8 = 0x7E;
pub const T_FAILURE: u8 = 0x7F;

/// The mathematical model of a message, over `Seq` instead of `Vec`.
pub enum MessageModel {
    Hello(Seq<(Seq<u8>, ValueModel)>),
    Run(Seq<u8>, Seq<(Seq<u8>, ValueModel)>, Seq<(Seq<u8>, ValueModel)>),
    Pull(Seq<(Seq<u8>, ValueModel)>),
    Discard(Seq<(Seq<u8>, ValueModel)>),
    Begin(Seq<(Seq<u8>, ValueModel)>),
    Commit,
    Rollback,
    Reset,
    Success(Seq<(Seq<u8>, ValueModel)>),
    Failure(Seq<(Seq<u8>, ValueModel)>),
    Ignored,
    Record(Seq<ValueModel>),
}

/// One message of the conversation. Requests carry their parameters as
/// maps; the server answers with SUCCESS, FAILURE, IGNORED or RECORD.
pub enum Message {
    /// Authentication, sent once after the handshake.
    Hello(Vec<(Vec<u8>, Value)>),
    /// A query: its text, its parameters, and extra metadata.
    Run(Vec<u8>, Vec<(Vec<u8>, Value)>, Vec<(Vec<u8>, Value)>),
    /// Ask the server to stream records of the named query.
    Pull(Vec<(Vec<u8>, Value)>),
    /// Ask the server to drop the rest of the named query's records.
    Discard(Vec<(Vec<u8>, Value)>),
    /// Open an explicit transaction.
    Begin(Vec<(Vec<u8>, Value)>),
    /// Close the open transaction, keeping its work.
    Commit,
    /// Close the open transaction, discarding its work.
    Rollback,
    /// Clear server-side state and any pending failure.
    Reset,
    /// The server's acknowledgement, with metadata.
    Success(Vec<(Vec<u8>, Value)>),
    /// The server's refusal, with a code and a message in the metadata.
    Failure(Vec<(Vec<u8>, Value)>),
    /// The server ignored a request sent after an unacknowledged failure.
    Ignored,
    /// One row of streamed results.
    Record(Vec<Value>),
}

impl Message {
    /// The mathematical model of this message.
    pub open spec fn model(self) -> MessageModel {
        match self {
            Message::Hello(md) => MessageModel::Hello(pair_models(md@)),
            Message::Run(q, params, md) => MessageModel::Run(
                q@,
                pair_models(params@),
                pair_models(md@),
            ),
            Message::Pull(md) => MessageModel::Pull(pair_models(md@)),
            Message::Discard(md) => MessageModel::Discard(pair_models(md@)),
            Message::Begin(md) => MessageModel::Begin(pair_models(md@)),
            Message::Commit => MessageModel::Commit,
            Message::Rollback => MessageModel::Rollback,
            Message::Reset => MessageModel::Reset,
            Message::Success(md) => MessageModel::Success(pair_models(md@)),
            Message::Failure(md) => MessageModel::Failure(pair_models(md@)),
            Message::Ignored => MessageModel::Ignored,
            Message::Record(vals) => MessageModel::Record(models(vals@)),
        }
    }
}

/// The structure value a message stands for on the wire.
pub open spec fn msg_value(m: MessageModel) -> ValueModel {
    match m {
        MessageModel::Hello(md) => ValueModel::Struct(
            T_HELLO,
            seq![ValueModel::Dictionary(md)],
        ),
        MessageModel::Run(q, params, md) => ValueModel::Struct(
            T_RUN,
            seq![
                ValueModel::Str(q),
                ValueModel::Dictionary(params),
                ValueModel::Dictionary(md),
            ],
        ),
        MessageModel::Pull(md) => ValueModel::Struct(T_PULL, seq![ValueModel::Dictionary(md)]),
        MessageModel::Discard(md) => ValueModel::Struct(
            T_DISCARD,
            seq![ValueModel::Dictionary(md)],
        ),
        MessageModel::Begin(md) => ValueModel::Struct(T_BEGIN, seq![ValueModel::Dictionary(md)]),
        MessageModel::Commit => ValueModel::Struct(T_COMMIT, Seq::empty()),
        MessageModel::Rollback => ValueModel::Struct(T_ROLLBACK, Seq::empty()),
        MessageModel::Reset => ValueModel::Struct(T_RESET, Seq::empty()),
        MessageModel::Success(md) => ValueModel::Struct(
            T_SUCCESS,
            seq![ValueModel::Dictionary(md)],
        ),
        MessageModel::Failure(md) => ValueModel::Struct(
            T_FAILURE,
            seq![ValueModel::Dictionary(md)],
        ),
        MessageModel::Ignored => ValueModel::Struct(T_IGNORED, Seq::empty()),
        MessageModel::Record(vals) => ValueModel::Struct(T_RECORD, seq![ValueModel::List(vals)]),
    }
}

/// Whether a message fits on the wire: its structure value must.
pub open spec fn msg_valid(m: MessageModel) -> bool {
    valid(msg_value(m))
}

/// The byte sequence a message becomes, before chunk framing.
pub open spec fn enc_msg(m: MessageModel) -> Seq<u8> {
    enc(msg_value(m))
}

/// Why reading a message back stopped: the value under it was unreadable,
/// the value was no structure of a known tag, its fields had the wrong
/// shape, or bytes trailed after it.
pub enum MsgDecErr {
    Value(DecErr),
    Unknown,
    Shape,
    Trailing,
}

/// The message a structure value stands for, if any.
pub open spec fn msg_of_value(v: ValueModel) -> Result<MessageModel, MsgDecErr> {
    match v {
        ValueModel::Struct(tag, fields) => {
            if tag == T_COMMIT || tag == T_ROLLBACK || tag == T_RESET || tag == T_IGNORED {
                if fields.len() == 0 {
                    Ok(
                        if tag == T_COMMIT {
                            MessageModel::Commit
                        } else if tag == T_ROLLBACK {
                            MessageModel::Rollback
                        } else if tag == T_RESET {
                            MessageModel::Reset
                        } else {
                            MessageModel::Ignored
                        },
                    )
                } else {
                    Err(MsgDecErr::Shape)
                }
            } else if tag == T_HELLO || tag == T_PULL || tag == T_DISCARD || tag == T_BEGIN || tag
                == T_SUCCESS || tag == T_FAILURE {
                if fields.len() == 1 && fields[0] is Dictionary {
                    let md = fields[0]->Dictionary_0;
                    Ok(
                        if tag == T_HELLO {
                            MessageModel::Hello(md)
                        } else if tag == T_PULL {
                            MessageModel::Pull(md)
                        } else if tag == T_DISCARD {
                            MessageModel::Discard(md)
                        } else if tag == T_BEGIN {
                            MessageModel::Begin(md)
                        } else if tag == T_SUCCESS {
                            MessageModel::Success(md)
                        } else {
                            MessageModel::Failure(md)
                        },
                    )
                } else {
                    Err(MsgDecErr::Shape)
                }
            } else if tag == T_RUN {
                if fields.len() == 3 && fields[0] is Str && fields[1] is Dictionary && fields[2]
                    is Dictionary {
                    Ok(
                        MessageModel::Run(
                            fields[0]->Str_0,
                            fields[1]->Dictionary_0,
                            fields[2]->Dictionary_0,
                        ),
                    )
                } else {
                    Err(MsgDecErr::Shape)
                }
            } else if tag == T_RECORD {
                if fields.len() == 1 && fields[0] is List {
                    Ok(MessageModel::Record(fields[0]->List_0))
                } else {
                    Err(MsgDecErr::Shape)
                }
            } else {
                Err(MsgDecErr::Unknown)
            }
        },
        _ => Err(MsgDecErr::Shape),
    }
}

/// Reading one message from a whole frame payload: the payload must be
/// exactly one readable structure value of a known message shape.
pub open spec fn dec_msg(s: Seq<u8>) -> Result<MessageModel, MsgDecErr> {
    match dec(s) {
        Ok((v, n)) => if n == s.len() {
            msg_of_value(v)
        } else {
            Err(MsgDecErr::Trailing)
        },
        Err(e) => Err(MsgDecErr::Value(e)),
    }
}

/// The encoding of a structure of one map field.
fn encode_dict_struct(tag: u8, md: &Vec<(Vec<u8>, Value)>) -> (r: Result<Vec<u8>, Error>)
    ensures
        r is Ok <==> valid(ValueModel::Dictionary(pair_models(md@))),
        r matches Ok(b) ==> b@ == enc(
            ValueModel::Struct(tag, seq![ValueModel::Dictionary(pair_models(md@))]),
        ),
        r matches Err(e) ==> e is StringTooLong || e is BytesTooBig || e is ListTooLong
            || e is MapTooBig,
{
    let ghost d = ValueModel::Dictionary(pair_models(md@));
    let ghost vm = ValueModel::Struct(tag, seq![d]);
    let mut out: Vec<u8> = Vec::new();
    out.push(0xB1);
    out.push(tag);
    match encode_dict(md, &mut out) {
        Ok(()) => {},
        Err(e) => {
            return Err(e);
        },
    }
    proof {
        assert(seq![d].first() == d);
        assert(seq![d].drop_first() =~= Seq::<ValueModel>::empty());
        assert(enc_list(seq![d]) == enc(d) + enc_list(Seq::<ValueModel>::empty()));
        assert(out@ =~= enc(vm));
    }
    Ok(out)
}

/// The encoding of a structure of no fields.
fn encode_empty_struct(tag: u8) -> (b: Vec<u8>)
    ensures
        b@ == enc(ValueModel::Struct(tag, Seq::empty())),
{
    let mut out: Vec<u8> = Vec::new();
    out.push(0xB0);
    out.push(tag);
    assert(out@ =~= enc(ValueModel::Struct(tag, Seq::<ValueModel>::empty())));
    out
}

/// The frame payload a message becomes on the wire: exactly [`enc_msg`]
/// of its model. A message over the wire's size bounds is refused with
/// the size error of its first oversize part.
pub fn encode_message(m: &Message) -> (r: Result<Vec<u8>, Error>)
    ensures
        r is Ok <==> msg_valid(m.model()),
        r matches Ok(b) ==> b@ == enc_msg(m.model()),
        r matches Err(e) ==> e is StringTooLong || e is BytesTooBig || e is ListTooLong
            || e is MapTooBig,
{
    let ghost vm = msg_value(m.model());
    match m {
        Message::Hello(md) => {
            let r = encode_dict_struct(T_HELLO, md);
            proof {
                lemma_dict_struct_valid(T_HELLO, pair_models(md@));
            }
            r
        },
        Message::Pull(md) => {
            let r = encode_dict_struct(T_PULL, md);
            proof {
                lemma_dict_struct_valid(T_PULL, pair_models(md@));
            }
            r
        },
        Message::Discard(md) => {
            let r = encode_dict_struct(T_DISCARD, md);
            proof {
                lemma_dict_struct_valid(T_DISCARD, pair_models(md@));
            }
            r
        },
        Message::Begin(md) => {
            let r = encode_dict_struct(T_BEGIN, md);
            proof {
                lemma_dict_struct_valid(T_BEGIN, pair_models(md@));
            }
            r
        },
        Message::Success(md) => {
            let r = encode_dict_struct(T_SUCCESS, md);
            proof {
                lemma_dict_struct_valid(T_SUCCESS, pair_models(md@));
            }
            r
        },
        Message::Failure(md) => {
            let r = encode_dict_struct(T_FAILURE, md);
            proof {
                lemma_dict_struct_valid(T_FAILURE, pair_models(md@));
            }
            r
        },
        Message::Commit => {
            proof {
                lemma_empty_struct_valid(T_COMMIT);
            }
            Ok(encode_empty_struct(T_COMMIT))
        },
        Message::Rollback => {
            proof {
                lemma_empty_struct_valid(T_ROLLBACK);
            }
            Ok(encode_empty_struct(T_ROLLBACK))
        },
        Message::Reset => {
            proof {
                lemma_empty_struct_valid(T_RESET);
            }
            Ok(encode_empty_struct(T_RESET))
        },
        Message::Ignored => {
            proof {
                lemma_empty_struct_valid(T_IGNORED);
            }
            Ok(encode_empty_struct(T_IGNORED))
        },
        Message::Record(vals) => {
            let ghost l = ValueModel::List(models(vals@));
            let mut out: Vec<u8> = Vec::new();
            out.push(0xB1);
            out.push(T_RECORD);
            match encode_list(vals, &mut out) {
                Ok(()) => {},
                Err(e) => {
                    proof {
                        assert(seq![l][0] == l);
                        assert(!msg_valid(m.model()));
                    }
                    return Err(e);
                },
            }
            proof {
                assert(seq![l].first() == l);
                assert(seq![l].drop_first() =~= Seq::<ValueModel>::empty());
                assert(enc_list(seq![l]) == enc(l) + enc_list(Seq::<ValueModel>::empty()));
                assert(out@ =~= enc_msg(m.model()));
                assert(forall|i: int| 0 <= i < 1 ==> valid(#[trigger] seq![l][i]));
                assert(msg_valid(m.model()));
            }
            Ok(out)
        },
        Message::Run(q, params, md) => {
            let ghost fs = seq![
                ValueModel::Str(q@),
                ValueModel::Dictionary(pair_models(params@)),
                ValueModel::Dictionary(pair_models(md@)),
            ];
            let mut out: Vec<u8> = Vec::new();
            out.push(0xB3);
            out.push(T_RUN);
            match encode_str_bytes(q, &mut out) {
                Ok(()) => {},
                Err(e) => {
                    proof {
                        assert(fs[0] == ValueModel::Str(q@));
                        assert(!msg_valid(m.model()));
                    }
                    return Err(e);
                },
            }
            match encode_dict(params, &mut out) {
                Ok(()) => {},
                Err(e) => {
                    proof {
                        assert(fs[1] == ValueModel::Dictionary(pair_models(params@)));
                        assert(!msg_valid(m.model()));
                    }
                    return Err(e);
                },
            }
            match encode_dict(md, &mut out) {
                Ok(()) => {},
                Err(e) => {
                    proof {
                        assert(fs[2] == ValueModel::Dictionary(pair_models(md@)));
                        assert(!msg_valid(m.model()));
                    }
                    return Err(e);
                },
            }
            proof {
                assert(fs.drop_first() =~= seq![fs[1], fs[2]]);
                assert(fs.drop_first().drop_first() =~= seq![fs[2]]);
                assert(seq![fs[2]].drop_first() =~= Seq::<ValueModel>::empty());
                assert(enc_list(seq![fs[2]]) == enc(fs[2]) + enc_list(
                    Seq::<ValueModel>::empty(),
                ));
                assert(enc_list(fs.drop_first()) == enc(fs[1]) + enc_list(seq![fs[2]]));
                assert(enc_list(fs) == enc(fs[0]) + enc_list(fs.drop_first()));
                assert(out@ =~= enc_msg(m.model()));
                assert(forall|i: int| 0 <= i < 3 ==> valid(#[trigger] fs[i]));
                assert(msg_valid(m.model()));
            }
            Ok(out)
        },
    }
}

/// A one-map structure is a legal wire value exactly when its map is.
proof fn lemma_dict_struct_valid(tag: u8, md: Seq<(Seq<u8>, ValueModel)>)
    ensures
        valid(ValueModel::Struct(tag, seq![ValueModel::Dictionary(md)])) <==> valid(
            ValueModel::Dictionary(md),
        ),
{
    let d = ValueModel::Dictionary(md);
    assert(seq![d][0] == d);
    if valid(d) {
        assert(forall|i: int| 0 <= i < 1 ==> valid(#[trigger] seq![d][i]));
    }
}

/// A structure of no fields is always a legal wire value.
proof fn lemma_empty_struct_valid(tag: u8)
    ensures
        valid(ValueModel::Struct(tag, Seq::empty())),
{
}

/// The error for a frame whose payload is no single whole value.
fn err_frame() -> (e: Error)
    ensures
        e is DeserializationError,
{
    Error::DeserializationError(String::from_str("frame payload is no single whole value"))
}

/// The error for a structure whose tag names no known message.
fn err_unknown_message() -> (e: Error)
    ensures
        e is UnknownMessage,
{
    Error::UnknownMessage(String::from_str("structure tag names no known message"))
}

/// Reads one message from a whole frame payload, exactly as [`dec_msg`]
/// reads it. Unreadable bytes, an unknown tag, wrong field shapes and
/// trailing bytes each give their own error.
pub fn decode_message(bytes: &Vec<u8>) -> (r: Result<Message, Error>)
    ensures
        ({
            let d = dec_msg(bytes@);
            match d {
                Ok(mm) => r matches Ok(m) && m.model() == mm,
                Err(MsgDecErr::Value(DecErr::Short)) => r matches Err(e)
                    && e is DeserializationError,
                Err(MsgDecErr::Value(DecErr::Bad)) => r matches Err(e) && e is InvalidTypeMarker,
                Err(MsgDecErr::Value(DecErr::Unsupported)) => r matches Err(e) && e is UnknownType,
                Err(MsgDecErr::Unknown) => r matches Err(e) && e is UnknownMessage,
                Err(MsgDecErr::Shape) => r matches Err(e) && e is ConversionError,
                Err(MsgDecErr::Trailing) => r matches Err(e) && e is DeserializationError,
            }
        }),
{
    assert(bytes@.skip(0) =~= bytes@);
    let (v, n) = match decode_value(bytes, 0) {
        Ok(p) => p,
        Err(e) => {
            return Err(e);
        },
    };
    if n != bytes.len() {
        return Err(err_frame());
    }
    match v {
        Value::Struct(tag, fields) => {
            let mut fields = fields;
            let ghost fms = models(fields@);
            if tag == T_COMMIT || tag == T_ROLLBACK || tag == T_RESET || tag == T_IGNORED {
                if fields.len() == 0 {
                    if tag == T_COMMIT {
                        Ok(Message::Commit)
                    } else if tag == T_ROLLBACK {
                        Ok(Message::Rollback)
                    } else if tag == T_RESET {
                        Ok(Message::Reset)
                    } else {
                        Ok(Message::Ignored)
                    }
                } else {
                    Err(Error::ConversionError)
                }
            } else if tag == T_HELLO || tag == T_PULL || tag == T_DISCARD || tag == T_BEGIN || tag
                == T_SUCCESS || tag == T_FAILURE {
                if fields.len() == 1 {
                    let f0 = fields.remove(0);
                    assert(f0.model() == fms[0]);
                    match f0 {
                        Value::Dictionary(md) => {
                            if tag == T_HELLO {
                                Ok(Message::Hello(md))
                            } else if tag == T_PULL {
                                Ok(Message::Pull(md))
                            } else if tag == T_DISCARD {
                                Ok(Message::Discard(md))
                            } else if tag == T_BEGIN {
                                Ok(Message::Begin(md))
                            } else if tag == T_SUCCESS {
                                Ok(Message::Success(md))
                            } else {
                                Ok(Message::Failure(md))
                            }
                        },
                        _ => Err(Error::ConversionError),
                    }
                } else {
                    Err(Error::ConversionError)
                }
            } else if tag == T_RUN {
                if fields.len() == 3 {
                    let f0 = fields.remove(0);
                    let f1 = fields.remove(0);
                    let f2 = fields.remove(0);
                    assert(f0.model() == fms[0]);
                    assert(f1.model() == fms[1]);
                    assert(f2.model() == fms[2]);
                    match (f0, f1, f2) {
                        (Value::Str(q), Value::Dictionary(params), Value::Dictionary(md)) => Ok(
                            Message::Run(q, params, md),
                        ),
                        _ => Err(Error::ConversionError),
                    }
                } else {
                    Err(Error::ConversionError)
                }
            } else if tag == T_RECORD {
                if fields.len() == 1 {
                    let f0 = fields.remove(0);
                    assert(f0.model() == fms[0]);
                    match f0 {
                        Value::List(vals) => Ok(Message::Record(vals)),
                        _ => Err(Error::ConversionError),
                    }
                } else {
                    Err(Error::ConversionError)
                }
            } else {
                Err(err_unknown_message())
            }
        },
        _ => Err(Error::ConversionError),
    }
}

/// Decoding inverts encoding for messages: the frame payload of a legal
/// message reads back as that message.
pub proof fn lemma_msg_round_trip(m: MessageModel)
    requires
        msg_valid(m),
    ensures
        dec_msg(enc_msg(m)) == Ok::<_, MsgDecErr>(m),
{
    crate::roundtrip::lemma_dec_enc(msg_value(m), Seq::empty());
    assert(enc(msg_value(m)) + Seq::<u8>::empty() =~= enc(msg_value(m)));
    match m {
        MessageModel::Hello(md) => {
            assert(seq![ValueModel::Dictionary(md)][0] == ValueModel::Dictionary(md));
        },
        MessageModel::Run(q, params, md) => {
            let fs = seq![
                ValueModel::Str(q),
                ValueModel::Dictionary(params),
                ValueModel::Dictionary(md),
            ];
            assert(fs[0] == ValueModel::Str(q));
            assert(fs[1] == ValueModel::Dictionary(params));
            assert(fs[2] == ValueModel::Dictionary(md));
        },
        MessageModel::Pull(md) => {
            assert(seq![ValueModel::Dictionary(md)][0] == ValueModel::Dictionary(md));
        },
        MessageModel::Discard(md) => {
            assert(seq![ValueModel::Dictionary(md)][0] == ValueModel::Dictionary(md));
        },
        MessageModel::Begin(md) => {
            assert(seq![ValueModel::Dictionary(md)][0] == ValueModel::Dictionary(md));
        },
        MessageModel::Commit => {},
        MessageModel::Rollback => {},
        MessageModel::Reset => {},
        MessageModel::Success(md) => {
            assert(seq![ValueModel::Dictionary(md)][0] == ValueModel::Dictionary(md));
        },
        MessageModel::Failure(md) => {
            assert(seq![ValueModel::Dictionary(md)][0] == ValueModel::Dictionary(md));
        },
        MessageModel::Ignored => {},
        MessageModel::Record(vals) => {
            assert(seq![ValueModel::List(vals)][0] == ValueModel::List(vals));
        },
    }
}

} // verus!
