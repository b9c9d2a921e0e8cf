use bolt_driver::connection::{
    hello_acknowledged, hello_request, reply_event, request_event, ConnEvent, ConnState,
    Conversation,
};
use bolt_driver::errors::Error;
use bolt_driver::message::Message;
use bolt_driver::stream::{RowStream, StreamAction, StreamState};
use bolt_driver::session::{expect_success, open_stream, server_error, Session};
use bolt_driver::txn::{begin_request, Txn, TxnState};
use bolt_driver::session::AccessMode;
use bolt_driver::value::Value;

#[test]
fn conversation_walks_the_machine() {
    let mut c = Conversation::new();
    assert_eq!(c.state, ConnState::Idle);

    // an auto-commit query streams and completes
    c.apply(ConnEvent::SendRun).unwrap();
    assert_eq!(c.state, ConnState::Streaming);
    c.apply(ConnEvent::SendPull).unwrap();
    c.apply(ConnEvent::RecvRecord).unwrap();
    c.apply(ConnEvent::RecvSuccessFinal).unwrap();
    assert_eq!(c.state, ConnState::Idle);

    // an explicit transaction opens, streams, and rolls back
    c.apply(ConnEvent::SendBegin).unwrap();
    assert_eq!(c.state, ConnState::TxReady);
    c.apply(ConnEvent::SendRun).unwrap();
    assert_eq!(c.state, ConnState::TxStreaming);
    c.apply(ConnEvent::RecvSuccessFinal).unwrap();
    assert_eq!(c.state, ConnState::TxReady);
    c.apply(ConnEvent::SendRollback).unwrap();
    assert_eq!(c.state, ConnState::Idle);
}

#[test]
fn conversation_rejects_requests_out_of_turn() {
    let mut c = Conversation::new();
    // PULL with nothing streaming
    assert!(matches!(
        c.apply(ConnEvent::SendPull),
        Err(Error::UnexpectedMessage(_))
    ));
    assert_eq!(c.state, ConnState::Idle);
    // COMMIT with no transaction open
    assert!(matches!(
        c.apply(ConnEvent::SendCommit),
        Err(Error::UnexpectedMessage(_))
    ));
    // a failure pins the connection until a reset
    c.apply(ConnEvent::RecvFailure).unwrap();
    assert_eq!(c.state, ConnState::Failed);
    assert!(c.apply(ConnEvent::SendRun).is_err());
    c.apply(ConnEvent::SendReset).unwrap();
    assert_eq!(c.state, ConnState::Idle);
}

#[test]
fn events_follow_message_kinds() {
    assert_eq!(
        request_event(&Message::Run(b"RETURN 1".to_vec(), vec![], vec![])),
        Some(ConnEvent::SendRun)
    );
    assert_eq!(request_event(&Message::Commit), Some(ConnEvent::SendCommit));
    assert_eq!(request_event(&Message::Ignored), None);

    let more = Message::Success(vec![(b"has_more".to_vec(), Value::Bool(true))]);
    assert_eq!(reply_event(&more), Some(ConnEvent::RecvSuccessMore));
    let done = Message::Success(vec![]);
    assert_eq!(reply_event(&done), Some(ConnEvent::RecvSuccessFinal));
    assert_eq!(
        reply_event(&Message::Record(vec![])),
        Some(ConnEvent::RecvRecord)
    );
    assert_eq!(
        reply_event(&Message::Failure(vec![])),
        Some(ConnEvent::RecvFailure)
    );
    assert_eq!(reply_event(&Message::Ignored), Some(ConnEvent::RecvIgnored));
}

fn record(n: i64) -> Message {
    Message::Record(vec![Value::Int(n)])
}

fn success_more() -> Message {
    Message::Success(vec![(b"has_more".to_vec(), Value::Bool(true))])
}

fn success_final() -> Message {
    Message::Success(vec![])
}

#[test]
fn stream_pages_through_three_records_in_two_pulls() {
    // three records with pages of two: exactly two PULLs
    let mut s = RowStream::new(-1, vec![b"n".to_vec()], 2);
    let mut pulls = 0;
    let mut rows: Vec<Vec<Value>> = Vec::new();
    let mut pages = vec![
        vec![record(1), record(2), success_more()],
        vec![record(3), success_final()],
    ]
    .into_iter();
    let mut incoming: Vec<Message> = Vec::new();
    loop {
        match s.next_action() {
            StreamAction::IssuePull => {
                pulls += 1;
                incoming = pages.next().unwrap();
                incoming.reverse();
                s.on_pull_sent();
            }
            StreamAction::AwaitMessage => {
                s.on_message(incoming.pop().unwrap()).unwrap();
            }
            StreamAction::YieldRow => {
                rows.push(s.take_row().unwrap());
            }
            StreamAction::EndOfStream => break,
        }
    }
    assert_eq!(pulls, 2);
    assert_eq!(rows.len(), 3);
    assert!(matches!(rows[0][0], Value::Int(1)));
    assert!(matches!(rows[2][0], Value::Int(3)));
}

#[test]
fn fetch_size_one_pulls_once_per_record() {
    let mut s = RowStream::new(7, vec![], 1);
    let mut pulls = 0;
    let mut yielded = 0;
    let mut pages = vec![
        vec![record(1), success_more()],
        vec![record(2), success_more()],
        vec![record(3), success_final()],
    ]
    .into_iter();
    let mut incoming: Vec<Message> = Vec::new();
    loop {
        match s.next_action() {
            StreamAction::IssuePull => {
                pulls += 1;
                incoming = pages.next().unwrap();
                incoming.reverse();
                s.on_pull_sent();
            }
            StreamAction::AwaitMessage => {
                s.on_message(incoming.pop().unwrap()).unwrap();
            }
            StreamAction::YieldRow => {
                s.take_row().unwrap();
                yielded += 1;
            }
            StreamAction::EndOfStream => break,
        }
    }
    assert_eq!(yielded, 3);
    assert_eq!(pulls, 3);
}

#[test]
fn stream_refuses_records_past_the_window() {
    let mut s = RowStream::new(-1, vec![], 1);
    s.on_pull_sent();
    s.on_message(record(1)).unwrap();
    // the window granted one record; a second is a protocol violation
    assert!(matches!(
        s.on_message(record(2)),
        Err(Error::UnexpectedMessage(_))
    ));
    assert_eq!(s.state, StreamState::Failed);
    assert_eq!(s.next_action(), StreamAction::EndOfStream);
}

#[test]
fn stream_surfaces_failure_once_then_ends() {
    let mut s = RowStream::new(-1, vec![], 2);
    s.on_pull_sent();
    let failure = Message::Failure(vec![
        (b"code".to_vec(), Value::Str(b"Neo.TransientError.General".to_vec())),
        (b"message".to_vec(), Value::Str(b"try again".to_vec())),
    ]);
    match s.on_message(failure) {
        Err(Error::Server { code, message }) => {
            assert_eq!(code, b"Neo.TransientError.General".to_vec());
            assert_eq!(message, b"try again".to_vec());
        }
        other => panic!("wanted the server's error, got {:?}", other),
    }
    assert_eq!(s.next_action(), StreamAction::EndOfStream);
}

#[test]
fn discard_drops_the_buffer_and_completes() {
    let mut s = RowStream::new(4, vec![], 2);
    s.on_pull_sent();
    s.on_message(record(1)).unwrap();
    s.on_message(record(2)).unwrap();
    s.on_message(success_more()).unwrap();
    let m = s.discard_request();
    match m {
        Message::Discard(md) => {
            assert_eq!(md[0].0, b"n".to_vec());
            assert!(matches!(md[0].1, Value::Int(-1)));
            assert_eq!(md[1].0, b"qid".to_vec());
            assert!(matches!(md[1].1, Value::Int(4)));
        }
        _ => panic!("wanted a DISCARD request"),
    }
    s.on_discarded();
    assert_eq!(s.state, StreamState::Complete);
    assert_eq!(s.next_action(), StreamAction::EndOfStream);
    assert!(s.take_row().is_none());
}

#[test]
fn open_stream_reads_fields_and_qid() {
    let resp = Message::Success(vec![
        (
            b"fields".to_vec(),
            Value::List(vec![Value::Str(b"name".to_vec()), Value::Str(b"age".to_vec())]),
        ),
        (b"qid".to_vec(), Value::Int(9)),
    ]);
    let s = open_stream(&resp, 200).unwrap();
    assert_eq!(s.qid, 9);
    assert_eq!(s.fields, vec![b"name".to_vec(), b"age".to_vec()]);
    assert_eq!(s.fetch_size, 200);

    // both entries default when absent
    let s = open_stream(&Message::Success(vec![]), 10).unwrap();
    assert_eq!(s.qid, -1);
    assert!(s.fields.is_empty());

    // a field list of the wrong shape cannot be converted
    let bad = Message::Success(vec![(b"fields".to_vec(), Value::Int(3))]);
    assert!(matches!(open_stream(&bad, 10), Err(Error::ConversionError)));
    let bad = Message::Success(vec![(
        b"fields".to_vec(),
        Value::List(vec![Value::Int(1)]),
    )]);
    assert!(matches!(open_stream(&bad, 10), Err(Error::ConversionError)));
}

#[test]
fn transaction_states_are_sticky() {
    let mut t = Txn::new(&Message::Success(vec![]), 100).unwrap();
    assert_eq!(t.state, TxnState::Active);
    assert!(t.commit_request().is_ok());
    t.on_commit_response(&Message::Success(vec![])).unwrap();
    assert_eq!(t.state, TxnState::Committed);
    // a closed transaction refuses every further request
    assert!(t.run_request(bolt_driver::query::query("RETURN 1")).is_err());
    assert!(t.commit_request().is_err());
    assert!(t.rollback_request().is_err());

    let mut t = Txn::new(&Message::Success(vec![]), 100).unwrap();
    assert!(t.rollback_request().is_ok());
    t.on_rollback_response(&Message::Success(vec![])).unwrap();
    assert_eq!(t.state, TxnState::RolledBack);
    assert!(t.run_request(bolt_driver::query::query("RETURN 1")).is_err());
}

#[test]
fn transaction_fails_on_refused_replies() {
    assert!(matches!(
        Txn::new(&Message::Ignored, 100),
        Err(Error::UnexpectedMessage(_))
    ));
    let mut t = Txn::new(&Message::Success(vec![]), 100).unwrap();
    let failure = Message::Failure(vec![(b"code".to_vec(), Value::Str(b"oops".to_vec()))]);
    assert!(t.on_run_response(&failure).is_err());
    assert_eq!(t.state, TxnState::Failed);
}

#[test]
fn begin_request_carries_db_and_mode() {
    match begin_request(&b"movies".to_vec(), AccessMode::Write) {
        Message::Begin(md) => {
            assert_eq!(md[0].0, b"db".to_vec());
            match &md[0].1 {
                Value::Str(b) => assert_eq!(b, &b"movies".to_vec()),
                _ => panic!("wanted the database name"),
            }
            assert_eq!(md[1].0, b"mode".to_vec());
            match &md[1].1 {
                Value::Str(b) => assert_eq!(b, &b"w".to_vec()),
                _ => panic!("wanted the access mode"),
            }
        }
        _ => panic!("wanted a BEGIN request"),
    }
    match begin_request(&Vec::new(), AccessMode::Read) {
        Message::Begin(md) => match &md[1].1 {
            Value::Str(b) => assert_eq!(b, &b"r".to_vec()),
            _ => panic!("wanted the access mode"),
        },
        _ => panic!("wanted a BEGIN request"),
    }
}

#[test]
fn session_builds_run_requests() {
    let s = Session::new(b"movies".to_vec(), 50);
    let q = bolt_driver::query::query("RETURN 1");
    match s.run_request(q) {
        Message::Run(text, params, md) => {
            assert_eq!(text, b"RETURN 1".to_vec());
            assert!(params.is_empty());
            assert_eq!(md[0].0, b"db".to_vec());
        }
        _ => panic!("wanted a RUN request"),
    }
}

#[test]
fn acknowledgements_classify_replies() {
    assert!(expect_success(&Message::Success(vec![]), "DISCARD").is_ok());
    assert!(matches!(
        expect_success(&Message::Ignored, "DISCARD"),
        Err(Error::UnexpectedMessage(_))
    ));
    let failure = vec![
        (b"code".to_vec(), Value::Str(b"Neo.ClientError.Syntax".to_vec())),
        (b"message".to_vec(), Value::Str(b"bad query".to_vec())),
    ];
    match server_error(&failure) {
        Error::Server { code, message } => {
            assert_eq!(code, b"Neo.ClientError.Syntax".to_vec());
            assert_eq!(message, b"bad query".to_vec());
        }
        _ => panic!("wanted the server's error"),
    }
}

#[test]
fn hello_carries_credentials_and_failure_rejects_them() {
    match hello_request("bolt_driver/0.1", "some_user", "some_password") {
        Message::Hello(md) => {
            assert_eq!(md[0].0, b"user_agent".to_vec());
            assert_eq!(md[1].0, b"scheme".to_vec());
            match &md[1].1 {
                Value::Str(b) => assert_eq!(b, &b"basic".to_vec()),
                _ => panic!("wanted the scheme"),
            }
            assert_eq!(md[2].0, b"principal".to_vec());
            assert_eq!(md[3].0, b"credentials".to_vec());
        }
        _ => panic!("wanted a HELLO request"),
    }
    assert!(hello_acknowledged(&Message::Success(vec![])).is_ok());
    let refusal = Message::Failure(vec![(
        b"message".to_vec(),
        Value::Str(b"unauthorized".to_vec()),
    )]);
    match hello_acknowledged(&refusal) {
        Err(Error::AuthenticationError(msg)) => assert_eq!(msg, b"unauthorized".to_vec()),
        other => panic!("wanted an authentication rejection, got {:?}", other),
    }
}
