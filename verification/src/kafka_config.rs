//! The configuration of a message-queue sink, as the surrounding
//! system hands it over after deserialising the user's property map.
//! The defaults and the validation of the sink type live here; the
//! deserialisation itself stays outside.

use vstd::prelude::*;

verus! {

pub fn kafka_sink_name() -> (r: String)
    ensures
        r@ == "kafka"@,
{
    String::from_str("kafka")
}

/// Milliseconds before an unacknowledged delivery times out.
pub fn _default_timeout() -> (r: u64)
    ensures
        r == 5000,
{
    5000
}

pub fn _default_max_retries() -> (r: u32)
    ensures
        r == 3,
{
    3
}

/// Milliseconds between delivery retries.
pub fn _default_retry_backoff() -> (r: u64)
    ensures
        r == 100,
{
    100
}

pub fn _default_use_transaction() -> (r: bool)
    ensures
        r == false,
{
    false
}

pub fn _default_force_append_only() -> (r: bool)
    ensures
        r == false,
{
    false
}

/// Configuration of one sink, with durations carried in milliseconds.
#[derive(Clone, Debug)]
pub struct KafkaConfig {
    /// Must name this sink's connector.
    pub connector: String,
    /// The brokers to deliver to.
    pub brokers: String,
    /// The topic to deliver to.
    pub topic: String,
    /// One of `append-only`, `debezium` or `upsert`.
    pub sink_type: String,
    pub force_append_only: bool,
    pub identifier: String,
    pub timeout_ms: u64,
    pub max_retry_num: u32,
    pub retry_interval_ms: u64,
    pub use_transaction: bool,
    /// The primary key columns, kept as the text the user wrote.
    pub primary_key: Option<String>,
}

/// The sink types this sink accepts.
pub open spec fn valid_sink_type(t: Seq<char>) -> bool {
    t == "append-only"@ || t == "debezium"@ || t == "upsert"@
}

impl KafkaConfig {
    /// The check behind building a configuration from the user's
    /// properties: the sink type must be one of the supported three.
    pub fn validate_type(&self) -> (r: bool)
        ensures
            r == valid_sink_type(self.sink_type@),
    {
        let append_only = String::from_str("append-only");
        let debezium = String::from_str("debezium");
        let upsert = String::from_str("upsert");
        self.sink_type == append_only || self.sink_type == debezium || self.sink_type == upsert
    }
}

} // verus!
