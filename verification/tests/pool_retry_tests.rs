use bolt_driver::connection::ConnState;
use bolt_driver::errors::Error;
use bolt_driver::pool::{AcquireDecision, Pool, ReleaseDecision};
use bolt_driver::retry::{RetryDecision, TransactionExecutor, MAX_RETRY_DELAY_MS};

#[test]
fn pool_hands_out_at_most_max_connections() {
    let mut p = Pool::new(1);
    let id = match p.acquire(0) {
        AcquireDecision::Create { id } => id,
        other => panic!("wanted a fresh connection, got {:?}", decision_name(&other)),
    };
    // the pool is full: a second acquirer waits
    let ticket = match p.acquire(0) {
        AcquireDecision::Enqueue { ticket } => ticket,
        _ => panic!("wanted to wait"),
    };
    assert_ne!(id, ticket);
    // the lease comes back and goes straight to the waiter, FIFO
    match p.release(id, ConnState::Idle, 10) {
        ReleaseDecision::HandedToWaiter { ticket: t } => assert_eq!(t, ticket),
        _ => panic!("wanted the waiter to take over"),
    }
}

fn decision_name(d: &AcquireDecision) -> &'static str {
    match d {
        AcquireDecision::Grant { .. } => "grant",
        AcquireDecision::Create { .. } => "create",
        AcquireDecision::Enqueue { .. } => "enqueue",
    }
}

#[test]
fn pool_reuses_idle_connections_fifo() {
    let mut p = Pool::new(2);
    let a = match p.acquire(0) {
        AcquireDecision::Create { id } => id,
        _ => panic!("wanted a fresh connection"),
    };
    let b = match p.acquire(0) {
        AcquireDecision::Create { id } => id,
        _ => panic!("wanted a fresh connection"),
    };
    assert!(matches!(
        p.release(a, ConnState::Idle, 1000),
        ReleaseDecision::Returned
    ));
    assert!(matches!(
        p.release(b, ConnState::Idle, 1500),
        ReleaseDecision::Returned
    ));
    // the oldest idle connection goes out first; it came back only half a
    // second ago, so the liveness check is skipped
    match p.acquire(1400) {
        AcquireDecision::Grant {
            id,
            needs_liveness_check,
        } => {
            assert_eq!(id, a);
            assert!(!needs_liveness_check);
        }
        _ => panic!("wanted the idle connection"),
    }
    // the next one has sat idle over a second: check it first
    match p.acquire(3000) {
        AcquireDecision::Grant {
            id,
            needs_liveness_check,
        } => {
            assert_eq!(id, b);
            assert!(needs_liveness_check);
        }
        _ => panic!("wanted the idle connection"),
    }
}

#[test]
fn pool_never_returns_failed_connections() {
    let mut p = Pool::new(1);
    let id = match p.acquire(0) {
        AcquireDecision::Create { id } => id,
        _ => panic!("wanted a fresh connection"),
    };
    assert!(matches!(
        p.release(id, ConnState::Failed, 10),
        ReleaseDecision::Discarded
    ));
    // the slot is free again: the next acquire opens a fresh connection
    match p.acquire(20) {
        AcquireDecision::Create { id: id2 } => assert_ne!(id, id2),
        _ => panic!("wanted a fresh connection"),
    }
}

#[test]
fn pool_resets_streaming_connections_before_reuse() {
    let mut p = Pool::new(1);
    let id = match p.acquire(0) {
        AcquireDecision::Create { id } => id,
        _ => panic!("wanted a fresh connection"),
    };
    assert!(matches!(
        p.release(id, ConnState::Streaming, 10),
        ReleaseDecision::ResetFirst
    ));
    // the reset went through: back to idle
    assert!(matches!(
        p.release_after_reset(id, true, 20),
        ReleaseDecision::Returned
    ));

    let id = match p.acquire(2000) {
        AcquireDecision::Grant { id, .. } => id,
        _ => panic!("wanted the idle connection"),
    };
    // a waiter queues up; then the reset fails: the waiter gets a fresh one
    let ticket = match p.acquire(2000) {
        AcquireDecision::Enqueue { ticket } => ticket,
        _ => panic!("wanted to wait"),
    };
    assert!(matches!(
        p.release(id, ConnState::TxReady, 2100),
        ReleaseDecision::ResetFirst
    ));
    match p.release_after_reset(id, false, 2200) {
        ReleaseDecision::ReplacedForWaiter { ticket: t, id: fresh } => {
            assert_eq!(t, ticket);
            assert_ne!(fresh, id);
        }
        _ => panic!("wanted a replacement for the waiter"),
    }
}

fn executor() -> TransactionExecutor {
    TransactionExecutor {
        max_retry_time_ms: 1000,
        initial_retry_delay_ms: 10,
        multiplier_percent: 200,
        jitter_percent: 0,
        retriable_codes: vec![b"Neo.TransientError.General".to_vec()],
    }
}

#[test]
fn backoff_doubles_without_jitter() {
    let ex = executor();
    assert_eq!(ex.compute_delay_with_jitter(10), 10);
    assert_eq!(ex.next_delay_ms(10), 20);
    assert_eq!(ex.next_delay_ms(20), 40);
    // the delay never grows past the cap
    assert_eq!(ex.next_delay_ms(MAX_RETRY_DELAY_MS), MAX_RETRY_DELAY_MS);
    assert_eq!(ex.compute_delay_with_jitter(u64::MAX), MAX_RETRY_DELAY_MS);
}

#[test]
fn jittered_delay_stays_in_its_interval() {
    let ex = TransactionExecutor {
        jitter_percent: 20,
        ..executor()
    };
    for _ in 0..50 {
        let d = ex.compute_delay_with_jitter(100);
        assert!((80..120).contains(&d));
    }
}

#[test]
fn retry_stops_when_the_budget_is_spent() {
    let ex = executor();
    match ex.retry_decision(0, 0, 10) {
        RetryDecision::Retry {
            sleep_ms,
            next_delay_ms,
        } => {
            assert_eq!(sleep_ms, 10);
            assert_eq!(next_delay_ms, 20);
        }
        _ => panic!("wanted another attempt"),
    }
    assert!(matches!(
        ex.retry_decision(0, 999, 10),
        RetryDecision::Retry { .. }
    ));
    assert!(matches!(ex.retry_decision(0, 1000, 10), RetryDecision::GiveUp));
    assert!(matches!(ex.retry_decision(0, 5000, 10), RetryDecision::GiveUp));
}

#[test]
fn body_retried_once_succeeds_within_bounds() {
    // a body that fails with a retriable code once, then succeeds
    let ex = executor();
    let mut attempts = 0;
    let mut delay = ex.initial_retry_delay_ms;
    let mut slept_total: u64 = 0;
    let mut clock: u64 = 0;
    let start = clock;
    let result: Result<i64, Error> = loop {
        attempts += 1;
        let outcome: Result<i64, Error> = if attempts == 1 {
            Err(Error::Server {
                code: b"Neo.TransientError.General".to_vec(),
                message: b"busy".to_vec(),
            })
        } else {
            Ok(42)
        };
        match outcome {
            Ok(v) => break Ok(v),
            Err(e) => {
                if !ex.is_retriable(&e) {
                    break Err(e);
                }
                match ex.retry_decision(start, clock, delay) {
                    RetryDecision::Retry {
                        sleep_ms,
                        next_delay_ms,
                    } => {
                        slept_total += sleep_ms;
                        clock += sleep_ms;
                        delay = next_delay_ms;
                    }
                    RetryDecision::GiveUp => break Err(e),
                }
            }
        }
    };
    assert_eq!(result.unwrap(), 42);
    assert_eq!(attempts, 2);
    assert!(slept_total >= 10 && slept_total < 30);
}

#[test]
fn classification_follows_the_injected_table() {
    let ex = executor();
    assert!(ex.is_retriable(&Error::ConnectionError));
    assert!(ex.is_retriable(&Error::IOError {
        detail: "reset by peer".to_string()
    }));
    assert!(ex.is_retriable(&Error::CommunicationError));
    assert!(ex.is_retriable(&Error::Server {
        code: b"Neo.TransientError.General".to_vec(),
        message: vec![]
    }));
    assert!(!ex.is_retriable(&Error::Server {
        code: b"Neo.ClientError.Syntax".to_vec(),
        message: vec![]
    }));
    assert!(!ex.is_retriable(&Error::AuthenticationError(vec![])));
    assert!(!ex.is_retriable(&Error::InvalidConfig));
    assert!(!ex.is_retriable(&Error::ConversionError));
}
