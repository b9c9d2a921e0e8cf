//! The configuration used to connect to the database: a plain value object
//! built once and immutable afterwards.
//!
//! Fractional tuning knobs (the retry-delay multiplier and jitter factor)
//! are held in hundredths, as whole percentages, so that the schedule they
//! drive is exact integer arithmetic.
use vstd::prelude::*;
use crate::errors::Error;

verus! {

/// Default number of rows fetched from the server in one request.
pub const DEFAULT_FETCH_SIZE: usize = 200;
/// Default bound on the connection pool.
pub const DEFAULT_MAX_CONNECTIONS: usize = 16;
/// Default overall retry budget of the transaction executor.
pub const DEFAULT_MAX_RETRY_TIME_MS: usize = 30000;
/// Default delay before the first retry.
pub const DEFAULT_INITIAL_RETRY_DELAY_MS: usize = 1000;
/// Default retry-delay multiplier, in percent: the delay doubles.
pub const DEFAULT_RETRY_DELAY_MULTIPLIER_PERCENT: usize = 200;
/// Default retry-delay jitter, in percent of the delay.
pub const DEFAULT_RETRY_DELAY_JITTER_PERCENT: usize = 20;

/// The validated configuration, see [`config`].
#[derive(Debug, Clone)]
pub struct Config {
    pub uri: String,
    pub user: String,
    pub password: String,
    pub max_connections: usize,
    pub db: String,
    pub fetch_size: usize,
    pub max_retry_time_ms: usize,
    pub initial_retry_delay_ms: usize,
    pub retry_delay_multiplier_percent: usize,
    pub retry_delay_jitter_percent: usize,
}

impl Config {
    /// A configuration is valid when its numeric knobs are all positive.
    pub open spec fn valid(self) -> bool {
        self.max_connections > 0 && self.fetch_size > 0 && self.max_retry_time_ms > 0
            && self.initial_retry_delay_ms > 0 && self.retry_delay_multiplier_percent > 0
    }
}

/// A builder to override default settings and build the [`Config`].
pub struct ConfigBuilder {
    pub uri: Option<String>,
    pub user: Option<String>,
    pub password: Option<String>,
    pub db: Option<String>,
    pub fetch_size: Option<usize>,
    pub max_connections: Option<usize>,
    pub max_retry_time_ms: Option<usize>,
    pub initial_retry_delay_ms: Option<usize>,
    pub retry_delay_multiplier_percent: Option<usize>,
    pub retry_delay_jitter_percent: Option<usize>,
}

impl ConfigBuilder {
    /// Whether every field is present, so that `build` can assemble a config.
    pub open spec fn complete(self) -> bool {
        self.uri is Some && self.user is Some && self.password is Some && self.db is Some
            && self.fetch_size is Some && self.max_connections is Some
            && self.max_retry_time_ms is Some && self.initial_retry_delay_ms is Some
            && self.retry_delay_multiplier_percent is Some && self.retry_delay_jitter_percent is Some
    }

    /// Whether the numeric fields that must be positive are all positive
    /// (or still absent, which `complete` rules out separately).
    pub open spec fn positive(self) -> bool {
        (self.fetch_size matches Some(n) ==> n > 0)
            && (self.max_connections matches Some(n) ==> n > 0)
            && (self.max_retry_time_ms matches Some(n) ==> n > 0)
            && (self.initial_retry_delay_ms matches Some(n) ==> n > 0)
            && (self.retry_delay_multiplier_percent matches Some(n) ==> n > 0)
    }

    /// The config that a complete builder assembles.
    pub open spec fn assembled(self) -> Config {
        Config {
            uri: self.uri->0,
            user: self.user->0,
            password: self.password->0,
            db: self.db->0,
            fetch_size: self.fetch_size->0,
            max_connections: self.max_connections->0,
            max_retry_time_ms: self.max_retry_time_ms->0,
            initial_retry_delay_ms: self.initial_retry_delay_ms->0,
            retry_delay_multiplier_percent: self.retry_delay_multiplier_percent->0,
            retry_delay_jitter_percent: self.retry_delay_jitter_percent->0,
        }
    }

    /// The uri of the server.
    pub fn uri(self, uri: &str) -> (r: Self)
        ensures
            r.uri matches Some(u) && u@ == uri@,
            r == (Self { uri: r.uri, ..self }),
    {
        Self { uri: Some(uri.to_owned()), ..self }
    }

    /// Username for authentication.
    pub fn user(self, user: &str) -> (r: Self)
        ensures
            r.user matches Some(u) && u@ == user@,
            r == (Self { user: r.user, ..self }),
    {
        Self { user: Some(user.to_owned()), ..self }
    }

    /// Password for authentication.
    pub fn password(self, password: &str) -> (r: Self)
        ensures
            r.password matches Some(p) && p@ == password@,
            r == (Self { password: r.password, ..self }),
    {
        Self { password: Some(password.to_owned()), ..self }
    }

    /// The name of the database; an empty name selects the server default.
    pub fn db(self, db: &str) -> (r: Self)
        ensures
            r.db matches Some(d) && d@ == db@,
            r == (Self { db: r.db, ..self }),
    {
        Self { db: Some(db.to_owned()), ..self }
    }

    /// The number of rows to fetch from the server in one request.
    pub fn fetch_size(self, fetch_size: usize) -> (r: Self)
        ensures
            r == (Self { fetch_size: Some(fetch_size), ..self }),
    {
        Self { fetch_size: Some(fetch_size), ..self }
    }

    /// Maximum number of connections in the connection pool.
    pub fn max_connections(self, max_connections: usize) -> (r: Self)
        ensures
            r == (Self { max_connections: Some(max_connections), ..self }),
    {
        Self { max_connections: Some(max_connections), ..self }
    }

    /// Maximum retry time of the transaction executor, in milliseconds.
    pub fn max_retry_time_ms(self, max_retry_time_ms: usize) -> (r: Self)
        ensures
            r == (Self { max_retry_time_ms: Some(max_retry_time_ms), ..self }),
    {
        Self { max_retry_time_ms: Some(max_retry_time_ms), ..self }
    }

    /// Assembles the configuration: every field must be present and the
    /// numeric knobs positive, otherwise the configuration is invalid.
    pub fn build(self) -> (r: Result<Config, Error>)
        ensures
            r is Ok <==> self.complete() && self.positive(),
            r matches Ok(c) ==> c == self.assembled() && c.valid(),
            r matches Err(e) ==> e is InvalidConfig,
    {
        match (self.uri, self.user, self.password, self.db) {
            (Some(uri), Some(user), Some(password), Some(db)) => {
                match (
                    self.fetch_size,
                    self.max_connections,
                    self.max_retry_time_ms,
                    self.initial_retry_delay_ms,
                    self.retry_delay_multiplier_percent,
                    self.retry_delay_jitter_percent,
                ) {
                    (
                        Some(fetch_size),
                        Some(max_connections),
                        Some(max_retry_time_ms),
                        Some(initial_retry_delay_ms),
                        Some(retry_delay_multiplier_percent),
                        Some(retry_delay_jitter_percent),
                    ) => {
                        if fetch_size > 0 && max_connections > 0 && max_retry_time_ms > 0
                            && initial_retry_delay_ms > 0 && retry_delay_multiplier_percent > 0 {
                            Ok(
                                Config {
                                    uri,
                                    user,
                                    password,
                                    db,
                                    fetch_size,
                                    max_connections,
                                    max_retry_time_ms,
                                    initial_retry_delay_ms,
                                    retry_delay_multiplier_percent,
                                    retry_delay_jitter_percent,
                                },
                            )
                        } else {
                            Err(Error::InvalidConfig)
                        }
                    },
                    _ => Err(Error::InvalidConfig),
                }
            },
            _ => Err(Error::InvalidConfig),
        }
    }
}

/// Creates a builder with the default value in every field that has one;
/// the uri and the credentials have none and must be set before `build`.
pub fn config() -> (r: ConfigBuilder)
    ensures
        r.uri is None,
        r.user is None,
        r.password is None,
        r.db matches Some(d) && d@ == Seq::<char>::empty(),
        r.fetch_size == Some(DEFAULT_FETCH_SIZE),
        r.max_connections == Some(DEFAULT_MAX_CONNECTIONS),
        r.max_retry_time_ms == Some(DEFAULT_MAX_RETRY_TIME_MS),
        r.initial_retry_delay_ms == Some(DEFAULT_INITIAL_RETRY_DELAY_MS),
        r.retry_delay_multiplier_percent == Some(DEFAULT_RETRY_DELAY_MULTIPLIER_PERCENT),
        r.retry_delay_jitter_percent == Some(DEFAULT_RETRY_DELAY_JITTER_PERCENT),
        r.positive(),
{
    ConfigBuilder {
        uri: None,
        user: None,
        password: None,
        db: Some(String::new()),
        fetch_size: Some(DEFAULT_FETCH_SIZE),
        max_connections: Some(DEFAULT_MAX_CONNECTIONS),
        max_retry_time_ms: Some(DEFAULT_MAX_RETRY_TIME_MS),
        initial_retry_delay_ms: Some(DEFAULT_INITIAL_RETRY_DELAY_MS),
        retry_delay_multiplier_percent: Some(DEFAULT_RETRY_DELAY_MULTIPLIER_PERCENT),
        retry_delay_jitter_percent: Some(DEFAULT_RETRY_DELAY_JITTER_PERCENT),
    }
}

} // verus!
