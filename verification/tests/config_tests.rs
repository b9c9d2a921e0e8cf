use bolt_driver::config::config;

#[test]
fn should_build_config() {
    let config = config()
        .uri("127.0.0.1:7687")
        .user("some_user")
        .password("some_password")
        .db("some_db")
        .fetch_size(10)
        .max_connections(5)
        .max_retry_time_ms(100)
        .build()
        .unwrap();
    assert_eq!(config.uri, "127.0.0.1:7687");
    assert_eq!(config.user, "some_user");
    assert_eq!(config.password, "some_password");
    assert_eq!(config.db, "some_db");
    assert_eq!(config.fetch_size, 10);
    assert_eq!(config.max_connections, 5);
    assert_eq!(config.max_retry_time_ms, 100);
    assert_eq!(config.initial_retry_delay_ms, 1000);
    assert_eq!(config.retry_delay_multiplier_percent, 200);
    assert_eq!(config.retry_delay_jitter_percent, 20);
}

#[test]
fn should_build_with_defaults() {
    let config = config()
        .uri("127.0.0.1:7687")
        .user("some_user")
        .password("some_password")
        .build()
        .unwrap();
    assert_eq!(config.uri, "127.0.0.1:7687");
    assert_eq!(config.user, "some_user");
    assert_eq!(config.password, "some_password");
    assert_eq!(config.db, "");
    assert_eq!(config.fetch_size, 200);
    assert_eq!(config.max_connections, 16);
    assert_eq!(config.max_retry_time_ms, 30000);
    assert_eq!(config.initial_retry_delay_ms, 1000);
    assert_eq!(config.retry_delay_multiplier_percent, 200);
    assert_eq!(config.retry_delay_jitter_percent, 20);
}

#[test]
fn should_reject_invalid_config() {
    assert!(config()
        .user("some_user")
        .password("some_password")
        .build()
        .is_err());

    assert!(config()
        .uri("127.0.0.1:7687")
        .password("some_password")
        .build()
        .is_err());

    assert!(config()
        .uri("127.0.0.1:7687")
        .user("some_user")
        .build()
        .is_err());
}

#[test]
fn should_reject_zero_knobs() {
    assert!(config()
        .uri("127.0.0.1:7687")
        .user("some_user")
        .password("some_password")
        .fetch_size(0)
        .build()
        .is_err());
    assert!(config()
        .uri("127.0.0.1:7687")
        .user("some_user")
        .password("some_password")
        .max_connections(0)
        .build()
        .is_err());
}

#[test]
fn query_carries_text_and_params() {
    let q = bolt_driver::query::query("MATCH (n: Person) RETURN n");
    assert_eq!(q.text, b"MATCH (n: Person) RETURN n".to_vec());
    assert_eq!(q.params.len(), 0);
    let q = q.param("name", bolt_driver::value::Value::Str(b"apple".to_vec()));
    assert_eq!(q.params.len(), 1);
    assert_eq!(q.params[0].0, b"name".to_vec());
}
