use vstd::prelude::*;

verus! {

/// How to open a connection: credentials, database and channel settings.
#[derive(Debug, Clone, PartialEq, Eq)]
pub struct ConnectOptions {
    pub username: String,
    pub password: String,
    pub database: String,
    /// How long establishing the channel may take, in milliseconds.
    pub connect_timeout_millis: u64,
    /// Whether the channel keeps itself alive while idle.
    pub keepalive_while_idle: bool,
}

/// Seconds between TCP keep-alive probes on a channel kept alive while idle.
pub const TCP_KEEPALIVE_SECS: u64 = 30;

/// Builds [`ConnectOptions`]; unset options take their defaults.
#[derive(Debug, Clone, PartialEq, Eq)]
pub struct ConnectOptionsBuilder {
    pub options: ConnectOptions,
}

impl ConnectOptions {
    /// Options with the defaults: user and password `immudb`, database `defaultdb`, a
    /// five-second connect timeout, and keep-alive while idle.
    pub fn builder() -> (r: ConnectOptionsBuilder)
        ensures
            r.options.username@ == "immudb"@,
            r.options.password@ == "immudb"@,
            r.options.database@ == "defaultdb"@,
            r.options.connect_timeout_millis == 5000,
            r.options.keepalive_while_idle,
    {
        ConnectOptionsBuilder {
            options: ConnectOptions {
                username: String::from_str("immudb"),
                password: String::from_str("immudb"),
                database: String::from_str("defaultdb"),
                connect_timeout_millis: 5000,
                keepalive_while_idle: true,
            },
        }
    }

    /// The TCP keep-alive interval of the channel: set only when it is kept alive while idle.
    pub fn tcp_keepalive_secs(&self) -> (r: Option<u64>)
        ensures
            self.keepalive_while_idle ==> r == Some(TCP_KEEPALIVE_SECS),
            !self.keepalive_while_idle ==> r is None,
    {
        if self.keepalive_while_idle {
            Some(TCP_KEEPALIVE_SECS)
        } else {
            None
        }
    }
}

impl ConnectOptionsBuilder {
    pub fn username(self, username: String) -> (r: ConnectOptionsBuilder)
        ensures
            r.options == (ConnectOptions { username, ..self.options }),
    {
        let mut options = self.options;
        options.username = username;
        ConnectOptionsBuilder { options }
    }

    pub fn password(self, password: String) -> (r: ConnectOptionsBuilder)
        ensures
            r.options == (ConnectOptions { password, ..self.options }),
    {
        let mut options = self.options;
        options.password = password;
        ConnectOptionsBuilder { options }
    }

    pub fn database(self, database: String) -> (r: ConnectOptionsBuilder)
        ensures
            r.options == (ConnectOptions { database, ..self.options }),
    {
        let mut options = self.options;
        options.database = database;
        ConnectOptionsBuilder { options }
    }

    pub fn connect_timeout_millis(self, millis: u64) -> (r: ConnectOptionsBuilder)
        ensures
            r.options == (ConnectOptions { connect_timeout_millis: millis, ..self.options }),
    {
        let mut options = self.options;
        options.connect_timeout_millis = millis;
        ConnectOptionsBuilder { options }
    }

    pub fn keepalive_while_idle(self, on: bool) -> (r: ConnectOptionsBuilder)
        ensures
            r.options == (ConnectOptions { keepalive_while_idle: on, ..self.options }),
    {
        let mut options = self.options;
        options.keepalive_while_idle = on;
        ConnectOptionsBuilder { options }
    }

    pub fn build(self) -> (r: ConnectOptions)
        ensures
            r == self.options,
    {
        self.options
    }
}

} // verus!
