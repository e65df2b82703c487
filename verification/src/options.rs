//! How the bridge connects to the broker and what it subscribes to.

use crate::text::{split, split_on, trim, trimmed};
use vstd::prelude::*;
use vstd::string::StringExecFns;

verus! {

/// The quality of service asked for every topic.
pub const SUBSCRIPTION_QOS: i32 = 1;

/// Connection options for the broker client.
#[derive(Debug, Clone, PartialEq, Eq)]
pub struct MqttConnectOptions {
    pub broker: String,
    pub client_id: String,
    pub username: String,
    pub password: String,
    pub lwt_topic: String,
    pub lwt_payload: String,
}

/// The last-will payload of a client that names none.
pub open spec fn default_last_will(client_id: Seq<char>) -> Seq<char> {
    "Last will for "@ + client_id
}

/// The given text, or `fallback` where none is given.
pub open spec fn text_or(given: Option<String>, fallback: Seq<char>) -> Seq<char> {
    match given {
        Some(text) => text@,
        None => fallback,
    }
}

fn or_default(given: Option<String>, fallback: &str) -> (r: String)
    ensures
        r@ == text_or(given, fallback@),
{
    match given {
        Some(text) => text,
        None => String::from_str(fallback),
    }
}

impl MqttConnectOptions {
    /// The options for the settings that are given; each one that is missing
    /// takes its default. The default last will names the client.
    pub fn from_settings(
        broker: Option<String>,
        client_id: Option<String>,
        username: Option<String>,
        password: Option<String>,
        lwt_topic: Option<String>,
        lwt_payload: Option<String>,
    ) -> (options: MqttConnectOptions)
        ensures
            options.broker@ == text_or(broker, "tcp://localhost:1883"@),
            options.client_id@ == text_or(client_id, "rust_client"@),
            options.username@ == text_or(username, ""@),
            options.password@ == text_or(password, ""@),
            options.lwt_topic@ == text_or(lwt_topic, "lwt"@),
            options.lwt_payload@ == text_or(lwt_payload, default_last_will(options.client_id@)),
    {
        let client_id = or_default(client_id, "rust_client");
        let lwt_payload = match lwt_payload {
            Some(text) => text,
            None => String::from_str("Last will for ").concat(client_id.as_str()),
        };
        MqttConnectOptions {
            broker: or_default(broker, "tcp://localhost:1883"),
            client_id,
            username: or_default(username, ""),
            password: or_default(password, ""),
            lwt_topic: or_default(lwt_topic, "lwt"),
            lwt_payload,
        }
    }
}

impl Default for MqttConnectOptions {
    /// The options of a local broker without credentials.
    fn default() -> (options: MqttConnectOptions)
        ensures
            options.broker@ == "tcp://localhost:1883"@,
            options.client_id@ == "rust_client"@,
            options.username@ == ""@,
            options.password@ == ""@,
            options.lwt_topic@ == "lwt"@,
            options.lwt_payload@ == default_last_will("rust_client"@),
    {
        MqttConnectOptions::from_settings(None, None, None, None, None, None)
    }
}

/// The topics to subscribe to, each with its quality of service. The two
/// lists run in parallel.
#[derive(Debug, Clone, PartialEq, Eq)]
pub struct Subscription {
    pub topics: Vec<String>,
    pub qos: Vec<i32>,
}

/// The topics that a comma-separated list names, each trimmed, in order.
pub open spec fn topic_list(configured: Seq<char>) -> Seq<Seq<char>> {
    split(configured, ',').map_values(|topic: Seq<char>| trimmed(topic))
}

/// The topics that a comma-separated list names.
pub fn parse_topics(configured: &str) -> (topics: Vec<String>)
    ensures
        topics.deep_view() == topic_list(configured@),
{
    let pieces = split_on(configured, ',');
    let mut topics: Vec<String> = Vec::new();
    let mut i: usize = 0;
    while i < pieces.len()
        invariant
            i <= pieces.len(),
            pieces.deep_view() == split(configured@, ','),
            topics.deep_view() == topic_list(configured@).take(i as int),
        decreases pieces.len() - i,
    {
        let ghost before = topics.deep_view();
        topics.push(String::from_str(trim(pieces[i].as_str())));
        proof {
            assert(pieces.deep_view()[i as int] == pieces@[i as int]@);
            assert(topics.deep_view() == before.push(trimmed(pieces@[i as int]@)));
            assert(topic_list(configured@).take(i + 1) == topic_list(configured@).take(
                i as int,
            ).push(topic_list(configured@)[i as int]));
        }
        i += 1;
    }
    assert(topic_list(configured@).take(i as int) == topic_list(configured@));
    topics
}

/// What to ask of the broker once a connection stands: every configured
/// topic, in the order given, each at quality of service 1.
pub fn on_connect_success(configured: &str) -> (request: Subscription)
    ensures
        request.topics.deep_view() == topic_list(configured@),
        request.qos@.len() == request.topics@.len(),
        forall|i: int| 0 <= i < request.qos@.len() ==> request.qos@[i] == SUBSCRIPTION_QOS,
{
    let topics = parse_topics(configured);
    let mut qos: Vec<i32> = Vec::new();
    let mut i: usize = 0;
    while i < topics.len()
        invariant
            i <= topics.len(),
            qos@.len() == i,
            forall|j: int| 0 <= j < qos@.len() ==> qos@[j] == SUBSCRIPTION_QOS,
        decreases topics.len() - i,
    {
        qos.push(SUBSCRIPTION_QOS);
        i += 1;
    }
    Subscription { topics, qos }
}

} // verus!
