//! Client configuration, assembled through a builder.
use std::time::Duration;
use vstd::prelude::*;

verus! {

/// The duration of `secs` whole seconds.
pub uninterp spec fn secs_duration(secs: u64) -> Duration;

/// Relies on `Duration::from_secs`, which builds a duration of whole seconds
/// from the count alone.
pub assume_specification[ core::time::Duration::from_secs ](secs: u64) -> (r: Duration)
    ensures
        r == secs_duration(secs),
;

/// A Typesense client configuration.
pub struct Client<'a> {
    /// The API key sent with each request.
    pub api_key: &'a str,
    /// How long to wait for a connection.
    pub connection_timeout: Duration,
    /// How often the nodes are checked for health.
    pub healthcheck_interval: Duration,
    /// The nodes, in the order they were added.
    pub nodes: Vec<&'a str>,
    /// How often a failed request is retried.
    pub num_retries: usize,
    /// How long to wait between retries.
    pub retry_interval: Duration,
}

/// Builder for [`Client`]: each setter changes one setting and keeps the rest.
pub struct ClientBuilder<'a> {
    /// The API key.
    pub api_key: &'a str,
    /// Connection timeout (3 seconds unless set).
    pub connection_timeout: Duration,
    /// Healthcheck interval (60 seconds unless set).
    pub healthcheck_interval: Duration,
    /// The nodes added so far.
    pub nodes: Vec<&'a str>,
    /// The nearest node, if one was set.
    pub nearest_node: Option<&'a str>,
    /// Number of retries (3 unless set).
    pub num_retries: usize,
    /// Retry interval (3 seconds unless set).
    pub retry_interval: Duration,
}

/// Number of retries of a fresh builder.
pub const DEFAULT_NUM_RETRIES: usize = 3;

impl<'a> Default for ClientBuilder<'a> {
    fn default() -> (r: Self)
        ensures
            r.api_key@.len() == 0,
            r.nodes@.len() == 0,
            r.nearest_node.is_none(),
            r.num_retries == DEFAULT_NUM_RETRIES,
            r.connection_timeout == secs_duration(3),
            r.healthcheck_interval == secs_duration(60),
            r.retry_interval == secs_duration(3),
    {
        let api_key: &'a str = "";
        proof {
            reveal_strlit("");
        }
        ClientBuilder {
            api_key,
            connection_timeout: Duration::from_secs(3),
            healthcheck_interval: Duration::from_secs(60),
            nodes: Vec::new(),
            nearest_node: None,
            num_retries: DEFAULT_NUM_RETRIES,
            retry_interval: Duration::from_secs(3),
        }
    }
}

impl<'a> ClientBuilder<'a> {
    /// Sets the API key.
    pub fn api_key(self, key: &'a str) -> (r: Self)
        ensures
            r.api_key == key,
            r.connection_timeout == self.connection_timeout,
            r.healthcheck_interval == self.healthcheck_interval,
            r.nodes@ == self.nodes@,
            r.nearest_node == self.nearest_node,
            r.num_retries == self.num_retries,
            r.retry_interval == self.retry_interval,
    {
        let mut b = self;
        b.api_key = key;
        b
    }

    /// Freezes the settings into a [`Client`].
    pub fn build(self) -> (r: Client<'a>)
        ensures
            r.api_key == self.api_key,
            r.connection_timeout == self.connection_timeout,
            r.healthcheck_interval == self.healthcheck_interval,
            r.nodes@ == self.nodes@,
            r.num_retries == self.num_retries,
            r.retry_interval == self.retry_interval,
    {
        Client {
            api_key: self.api_key,
            connection_timeout: self.connection_timeout,
            healthcheck_interval: self.healthcheck_interval,
            nodes: self.nodes,
            num_retries: self.num_retries,
            retry_interval: self.retry_interval,
        }
    }

    /// Sets the connection timeout.
    pub fn connection_timeout(self, timeout: Duration) -> (r: Self)
        ensures
            r.api_key == self.api_key,
            r.connection_timeout == timeout,
            r.healthcheck_interval == self.healthcheck_interval,
            r.nodes@ == self.nodes@,
            r.nearest_node == self.nearest_node,
            r.num_retries == self.num_retries,
            r.retry_interval == self.retry_interval,
    {
        let mut b = self;
        b.connection_timeout = timeout;
        b
    }

    /// Sets the number of retries.
    pub fn num_retries(self, retries: usize) -> (r: Self)
        ensures
            r.api_key == self.api_key,
            r.connection_timeout == self.connection_timeout,
            r.healthcheck_interval == self.healthcheck_interval,
            r.nodes@ == self.nodes@,
            r.nearest_node == self.nearest_node,
            r.num_retries == retries,
            r.retry_interval == self.retry_interval,
    {
        let mut b = self;
        b.num_retries = retries;
        b
    }

    /// Adds a node after those already added.
    pub fn node(self, node: &'a str) -> (r: Self)
        ensures
            r.api_key == self.api_key,
            r.connection_timeout == self.connection_timeout,
            r.healthcheck_interval == self.healthcheck_interval,
            r.nodes@ == self.nodes@.push(node),
            r.nearest_node == self.nearest_node,
            r.num_retries == self.num_retries,
            r.retry_interval == self.retry_interval,
    {
        let mut b = self;
        b.nodes.push(node);
        b
    }

    /// Sets the nearest node.
    pub fn nearest_node(self, node: &'a str) -> (r: Self)
        ensures
            r.api_key == self.api_key,
            r.connection_timeout == self.connection_timeout,
            r.healthcheck_interval == self.healthcheck_interval,
            r.nodes@ == self.nodes@,
            r.nearest_node == Some(node),
            r.num_retries == self.num_retries,
            r.retry_interval == self.retry_interval,
    {
        let mut b = self;
        b.nearest_node = Some(node);
        b
    }

    /// Sets the retry interval.
    pub fn retry_interval(self, interval: Duration) -> (r: Self)
        ensures
            r.api_key == self.api_key,
            r.connection_timeout == self.connection_timeout,
            r.healthcheck_interval == self.healthcheck_interval,
            r.nodes@ == self.nodes@,
            r.nearest_node == self.nearest_node,
            r.num_retries == self.num_retries,
            r.retry_interval == interval,
    {
        let mut b = self;
        b.retry_interval = interval;
        b
    }

    /// Sets the healthcheck interval.
    pub fn healthcheck_interval(self, interval: Duration) -> (r: Self)
        ensures
            r.api_key == self.api_key,
            r.connection_timeout == self.connection_timeout,
            r.healthcheck_interval == interval,
            r.nodes@ == self.nodes@,
            r.nearest_node == self.nearest_node,
            r.num_retries == self.num_retries,
            r.retry_interval == self.retry_interval,
    {
        let mut b = self;
        b.healthcheck_interval = interval;
        b
    }
}

} // verus!
