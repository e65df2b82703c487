//! The broker session: the life of the connection to the broker, as a state
//! machine.
//!
//! The library decides and the caller performs. The caller reports what
//! happened as a [`SessionEvent`]; [`MqttClient::step`] moves the session on
//! and answers with the [`SessionAction`] to take next. A session starts
//! `Disconnected`, connects, subscribes on every entry to `Connected`,
//! retries a lost connection a bounded number of times, and ends in
//! `Terminated`, from which nothing leads on.

use crate::classify::{job_for_message, message_job, ClassificationError};
use crate::job::WriteJob;
use crate::json::json_parse;
use crate::options::{
    parse_topics, topic_list, MqttConnectOptions, Subscription, SUBSCRIPTION_QOS,
};
use crate::text::copy_texts;
use crate::time::Date;
use vstd::prelude::*;

verus! {

/// How often a lost connection is tried again before the session gives up.
pub const MAX_RECONNECT_ATTEMPTS: u32 = 12;

/// The pause before each attempt to reconnect, in milliseconds.
pub const RECONNECT_DELAY_MS: u64 = 5000;

/// The keep-alive interval of a connection, in seconds.
pub const KEEP_ALIVE_SECS: u64 = 20;

/// The quality of service of the last will.
pub const LAST_WILL_QOS: i32 = 1;

/// The bound on reconnecting.
#[derive(Debug, Clone, Copy, PartialEq, Eq)]
pub struct RetryPolicy {
    pub max_attempts: u32,
    pub delay_ms: u64,
}

impl Default for RetryPolicy {
    /// Twelve attempts, five seconds apart.
    fn default() -> (policy: RetryPolicy)
        ensures
            policy.max_attempts == 12,
            policy.delay_ms == 5000,
    {
        RetryPolicy { max_attempts: MAX_RECONNECT_ATTEMPTS, delay_ms: RECONNECT_DELAY_MS }
    }
}

/// Where a session stands.
#[derive(Debug, Clone, Copy, PartialEq, Eq)]
pub enum SessionState {
    /// Not started yet.
    Disconnected,
    /// The first connection is being made.
    Connecting,
    /// The connection stands and the topics are subscribed.
    Connected,
    /// The connection was lost; `failed` attempts to reconnect have failed.
    Reconnecting { failed: u32 },
    /// The session is over.
    Terminated,
}

/// The stage at which a session failed for good.
#[derive(Debug, Clone, Copy, PartialEq, Eq)]
pub enum FatalStage {
    /// The first connection could not be made.
    Connect,
    /// The topics could not be subscribed.
    Subscribe,
    /// Every attempt to reconnect failed.
    ReconnectExhausted,
}

/// What the caller reports to the session.
#[derive(Debug, Clone, Copy, PartialEq, Eq)]
pub enum SessionEvent {
    /// The session is to begin.
    Start,
    /// The connection was made.
    ConnectSucceeded,
    /// The connection could not be made.
    ConnectFailed,
    /// The broker refused the subscription.
    SubscribeFailed,
    /// The transport reports that the connection is lost.
    ConnectionLost,
    /// An attempt to reconnect succeeded.
    ReconnectSucceeded,
    /// An attempt to reconnect failed.
    ReconnectFailed,
    /// The session is to end.
    Shutdown,
}

/// What the caller does next.
#[derive(Debug, Clone, Copy, PartialEq, Eq)]
pub enum SessionAction {
    /// Nothing.
    Nothing,
    /// Connect, with the last will registered.
    Connect,
    /// Subscribe to the configured topics.
    Subscribe,
    /// Wait `delay_ms`, then try to reconnect; this is attempt `attempt`.
    Reconnect { attempt: u32, delay_ms: u64 },
    /// Unsubscribe and disconnect.
    Disconnect,
    /// Report a fatal error and stop.
    Fail(FatalStage),
}

/// The state after one failed attempt more, and the action that follows.
pub open spec fn after_failed_attempt(failed: u32, policy: RetryPolicy) -> (
    SessionState,
    SessionAction,
) {
    if failed + 1 >= policy.max_attempts {
        (SessionState::Terminated, SessionAction::Fail(FatalStage::ReconnectExhausted))
    } else {
        (
            SessionState::Reconnecting { failed: (failed + 1) as u32 },
            SessionAction::Reconnect { attempt: (failed + 2) as u32, delay_ms: policy.delay_ms },
        )
    }
}

/// The transition of a session: the state that follows and the action to
/// take. An event that has no meaning in a state changes nothing.
pub open spec fn next(state: SessionState, event: SessionEvent, policy: RetryPolicy) -> (
    SessionState,
    SessionAction,
) {
    match (state, event) {
        (SessionState::Terminated, _) => (state, SessionAction::Nothing),
        (SessionState::Connected, SessionEvent::Shutdown) => (
            SessionState::Terminated,
            SessionAction::Disconnect,
        ),
        (_, SessionEvent::Shutdown) => (SessionState::Terminated, SessionAction::Nothing),
        (SessionState::Disconnected, SessionEvent::Start) => (
            SessionState::Connecting,
            SessionAction::Connect,
        ),
        (SessionState::Connecting, SessionEvent::ConnectSucceeded) => (
            SessionState::Connected,
            SessionAction::Subscribe,
        ),
        (SessionState::Connecting, SessionEvent::ConnectFailed) => (
            SessionState::Terminated,
            SessionAction::Fail(FatalStage::Connect),
        ),
        (SessionState::Connected, SessionEvent::SubscribeFailed) => (
            SessionState::Terminated,
            SessionAction::Fail(FatalStage::Subscribe),
        ),
        (SessionState::Connected, SessionEvent::ConnectionLost) => if policy.max_attempts == 0 {
            (SessionState::Terminated, SessionAction::Fail(FatalStage::ReconnectExhausted))
        } else {
            (
                SessionState::Reconnecting { failed: 0 },
                SessionAction::Reconnect { attempt: 1, delay_ms: policy.delay_ms },
            )
        },
        (SessionState::Reconnecting { failed }, SessionEvent::ReconnectSucceeded) => (
            SessionState::Connected,
            SessionAction::Subscribe,
        ),
        (SessionState::Reconnecting { failed }, SessionEvent::ReconnectFailed) => {
            after_failed_attempt(failed, policy)
        },
        _ => (state, SessionAction::Nothing),
    }
}

/// The transitions for `events`, first to last: the state at the end and the
/// actions in order, one per event.
pub open spec fn run(state: SessionState, events: Seq<SessionEvent>, policy: RetryPolicy) -> (
    SessionState,
    Seq<SessionAction>,
)
    decreases events.len(),
{
    if events.len() == 0 {
        (state, Seq::empty())
    } else {
        let (before, actions) = run(state, events.drop_last(), policy);
        let (after, action) = next(before, events.last(), policy);
        (after, actions.push(action))
    }
}

/// `count` failed attempts to reconnect, one after the other.
pub open spec fn failures(count: nat) -> Seq<SessionEvent> {
    Seq::new(count, |i: int| SessionEvent::ReconnectFailed)
}

/// Nothing leads out of `Terminated`, and nothing is asked of the caller
/// there: a fatal error is reported once.
pub proof fn lemma_terminated_is_final(event: SessionEvent, policy: RetryPolicy)
    ensures
        next(SessionState::Terminated, event, policy) == (
            SessionState::Terminated,
            SessionAction::Nothing,
        ),
{
}

/// A fatal error ends the session.
pub proof fn lemma_failure_terminates(state: SessionState, event: SessionEvent, policy: RetryPolicy)
    requires
        next(state, event, policy).1 is Fail,
    ensures
        next(state, event, policy).0 == SessionState::Terminated,
{
}

/// Every entry to `Connected` asks for the subscription.
pub proof fn lemma_connected_entry_subscribes(
    state: SessionState,
    event: SessionEvent,
    policy: RetryPolicy,
)
    requires
        state != SessionState::Connected,
        next(state, event, policy).0 == SessionState::Connected,
    ensures
        next(state, event, policy).1 == SessionAction::Subscribe,
{
}

/// Reconnecting is bounded. After a lost connection, fewer failures than the
/// policy allows leave the session reconnecting, each answered by the next
/// attempt; the failure that reaches the bound ends the session with one
/// fatal error.
pub proof fn lemma_reconnect_is_bounded(policy: RetryPolicy, count: nat)
    requires
        policy.max_attempts >= 1,
        count <= policy.max_attempts,
    ensures
        ({
            let (state, actions) = run(
                SessionState::Reconnecting { failed: 0 },
                failures(count),
                policy,
            );
            &&& actions.len() == count
            &&& count < policy.max_attempts ==> state == (SessionState::Reconnecting {
                failed: count as u32,
            })
            &&& count == policy.max_attempts ==> state == SessionState::Terminated
            &&& forall|i: int|
                0 <= i < count ==> #[trigger] actions[i] == if i + 1 < policy.max_attempts {
                    SessionAction::Reconnect { attempt: (i + 2) as u32, delay_ms: policy.delay_ms }
                } else {
                    SessionAction::Fail(FatalStage::ReconnectExhausted)
                }
        }),
    decreases count,
{
    if count > 0 {
        let fewer = (count - 1) as nat;
        lemma_reconnect_is_bounded(policy, fewer);
        assert(failures(count).drop_last() == failures(fewer));
        assert(failures(count).last() == SessionEvent::ReconnectFailed);
    }
}

/// What to send when connecting: where, as whom, and the last will that the
/// broker publishes if the session ends without a goodbye.
#[derive(Debug, Clone, PartialEq, Eq)]
pub struct ConnectRequest {
    pub broker: String,
    pub client_id: String,
    pub username: String,
    pub password: String,
    pub keep_alive_secs: u64,
    pub clean_session: bool,
    pub will_topic: String,
    pub will_payload: String,
    pub will_qos: i32,
}

/// A broker session: its options, the topics it subscribes to, the bound on
/// reconnecting, and where it stands.
#[derive(Debug, Clone, PartialEq, Eq)]
pub struct MqttClient {
    pub options: MqttConnectOptions,
    pub topics: Vec<String>,
    pub policy: RetryPolicy,
    pub state: SessionState,
}

impl MqttClient {
    /// A session that has not started, for the topics that a comma-separated
    /// list names, with the default bound on reconnecting.
    pub fn new(options: MqttConnectOptions, topics: &str) -> (client: MqttClient)
        ensures
            client.options == options,
            client.topics.deep_view() == topic_list(topics@),
            client.policy.max_attempts == 12,
            client.policy.delay_ms == 5000,
            client.state == SessionState::Disconnected,
    {
        MqttClient {
            options,
            topics: parse_topics(topics),
            policy: RetryPolicy::default(),
            state: SessionState::Disconnected,
        }
    }

    /// What to send when connecting.
    pub fn connect_request(&self) -> (request: ConnectRequest)
        ensures
            request.broker@ == self.options.broker@,
            request.client_id@ == self.options.client_id@,
            request.username@ == self.options.username@,
            request.password@ == self.options.password@,
            request.keep_alive_secs == 20,
            request.clean_session,
            request.will_topic@ == self.options.lwt_topic@,
            request.will_payload@ == self.options.lwt_payload@,
            request.will_qos == 1,
    {
        ConnectRequest {
            broker: self.options.broker.clone(),
            client_id: self.options.client_id.clone(),
            username: self.options.username.clone(),
            password: self.options.password.clone(),
            keep_alive_secs: KEEP_ALIVE_SECS,
            clean_session: true,
            will_topic: self.options.lwt_topic.clone(),
            will_payload: self.options.lwt_payload.clone(),
            will_qos: LAST_WILL_QOS,
        }
    }

    /// What to ask of the broker on every entry to `Connected`: the topics
    /// of the session, in order, each at quality of service 1.
    pub fn subscribe_topics(&self) -> (request: Subscription)
        ensures
            request.topics.deep_view() == self.topics.deep_view(),
            request.qos@.len() == self.topics@.len(),
            forall|i: int| 0 <= i < request.qos@.len() ==> request.qos@[i] == SUBSCRIPTION_QOS,
    {
        let topics = copy_texts(&self.topics);
        assert(topics@.len() == topics.deep_view().len());
        assert(self.topics@.len() == self.topics.deep_view().len());
        let mut qos: Vec<i32> = Vec::new();
        let mut i: usize = 0;
        while i < topics.len()
            invariant
                i <= topics.len(),
                qos@.len() == i,
                forall|j: int| 0 <= j < qos@.len() ==> qos@[j] == SUBSCRIPTION_QOS,
            decreases topics.len() - i,
        {
            qos.push(SUBSCRIPTION_QOS);
            i += 1;
        }
        Subscription { topics, qos }
    }

    /// Moves the session on by one event and answers with the action to
    /// take.
    pub fn step(&mut self, event: SessionEvent) -> (action: SessionAction)
        ensures
            final(self).state == next(old(self).state, event, old(self).policy).0,
            action == next(old(self).state, event, old(self).policy).1,
            final(self).options == old(self).options,
            final(self).topics == old(self).topics,
            final(self).policy == old(self).policy,
    {
        let policy = self.policy;
        let (state, action) = match (self.state, event) {
            (SessionState::Terminated, _) => (SessionState::Terminated, SessionAction::Nothing),
            (SessionState::Connected, SessionEvent::Shutdown) => (
                SessionState::Terminated,
                SessionAction::Disconnect,
            ),
            (_, SessionEvent::Shutdown) => (SessionState::Terminated, SessionAction::Nothing),
            (SessionState::Disconnected, SessionEvent::Start) => (
                SessionState::Connecting,
                SessionAction::Connect,
            ),
            (SessionState::Connecting, SessionEvent::ConnectSucceeded) => (
                SessionState::Connected,
                SessionAction::Subscribe,
            ),
            (SessionState::Connecting, SessionEvent::ConnectFailed) => (
                SessionState::Terminated,
                SessionAction::Fail(FatalStage::Connect),
            ),
            (SessionState::Connected, SessionEvent::SubscribeFailed) => (
                SessionState::Terminated,
                SessionAction::Fail(FatalStage::Subscribe),
            ),
            (SessionState::Connected, SessionEvent::ConnectionLost) => {
                if policy.max_attempts == 0 {
                    (SessionState::Terminated, SessionAction::Fail(FatalStage::ReconnectExhausted))
                } else {
                    (
                        SessionState::Reconnecting { failed: 0 },
                        SessionAction::Reconnect { attempt: 1, delay_ms: policy.delay_ms },
                    )
                }
            },
            (SessionState::Reconnecting { failed }, SessionEvent::ReconnectSucceeded) => (
                SessionState::Connected,
                SessionAction::Subscribe,
            ),
            (SessionState::Reconnecting { failed }, SessionEvent::ReconnectFailed) => {
                if failed >= policy.max_attempts || failed + 1 >= policy.max_attempts {
                    (SessionState::Terminated, SessionAction::Fail(FatalStage::ReconnectExhausted))
                } else {
                    (
                        SessionState::Reconnecting { failed: failed + 1 },
                        SessionAction::Reconnect { attempt: failed + 2, delay_ms: policy.delay_ms },
                    )
                }
            },
            (state, _) => (state, SessionAction::Nothing),
        };
        self.state = state;
        action
    }

    /// Takes in the outcome of one attempt to reconnect.
    pub fn try_reconnect(&mut self, reconnected: bool) -> (action: SessionAction)
        ensures
            final(self).state == next(
                old(self).state,
                reconnect_outcome(reconnected),
                old(self).policy,
            ).0,
            action == next(old(self).state, reconnect_outcome(reconnected), old(self).policy).1,
            final(self).options == old(self).options,
            final(self).topics == old(self).topics,
            final(self).policy == old(self).policy,
    {
        if reconnected {
            self.step(SessionEvent::ReconnectSucceeded)
        } else {
            self.step(SessionEvent::ReconnectFailed)
        }
    }

    /// Ends the session. A connected session is told to unsubscribe and
    /// disconnect; any other just ends.
    pub fn disconnect(&mut self) -> (action: SessionAction)
        ensures
            final(self).state == SessionState::Terminated,
            action == if old(self).state == SessionState::Connected {
                SessionAction::Disconnect
            } else {
                SessionAction::Nothing
            },
            final(self).options == old(self).options,
            final(self).topics == old(self).topics,
            final(self).policy == old(self).policy,
    {
        self.step(SessionEvent::Shutdown)
    }

    /// Whether the session delivers messages: it does while connected.
    pub fn is_connected(&self) -> (connected: bool)
        ensures
            connected == (self.state == SessionState::Connected),
    {
        match self.state {
            SessionState::Connected => true,
            _ => false,
        }
    }

    /// Takes in one item of the delivery stream. A message that arrives
    /// while the session is connected is classified, as of today, and its
    /// job is to be forwarded. An interruption of the stream while the
    /// transport says that the connection is gone is a lost connection. Any
    /// other item changes nothing.
    pub fn process_messages(&mut self, item: Delivery) -> (outcome: Handling)
        ensures
            final(self).options == old(self).options,
            final(self).topics == old(self).topics,
            final(self).policy == old(self).policy,
            match item {
                Delivery::Message { topic, payload } => {
                    &&& final(self).state == old(self).state
                    &&& if old(self).state == SessionState::Connected {
                        &&& outcome matches Handling::Forward { job, error }
                        &&& error is Some <==> json_parse(payload@) is None
                        &&& exists|today: Date|
                            today.in_calendar() && job@ == #[trigger] message_job(
                                topic@,
                                payload@,
                                today,
                            )
                    } else {
                        outcome == Handling::Session(SessionAction::Nothing)
                    }
                },
                Delivery::Interrupted { transport_connected } => {
                    if transport_connected {
                        &&& final(self).state == old(self).state
                        &&& outcome == Handling::Session(SessionAction::Nothing)
                    } else {
                        &&& final(self).state == next(
                            old(self).state,
                            SessionEvent::ConnectionLost,
                            old(self).policy,
                        ).0
                        &&& outcome == Handling::Session(
                            next(old(self).state, SessionEvent::ConnectionLost, old(self).policy).1,
                        )
                    }
                },
            },
    {
        match item {
            Delivery::Message { topic, payload } => {
                if self.is_connected() {
                    let (job, error) = job_for_message(topic.as_str(), payload.as_str());
                    Handling::Forward { job, error }
                } else {
                    Handling::Session(SessionAction::Nothing)
                }
            },
            Delivery::Interrupted { transport_connected } => {
                if transport_connected {
                    Handling::Session(SessionAction::Nothing)
                } else {
                    Handling::Session(self.step(SessionEvent::ConnectionLost))
                }
            },
        }
    }
}

/// The event that the outcome of an attempt to reconnect stands for.
pub open spec fn reconnect_outcome(reconnected: bool) -> SessionEvent {
    if reconnected {
        SessionEvent::ReconnectSucceeded
    } else {
        SessionEvent::ReconnectFailed
    }
}

/// One item of the delivery stream.
#[derive(Debug, Clone, PartialEq, Eq)]
pub enum Delivery {
    /// A message arrived.
    Message { topic: String, payload: String },
    /// The stream yielded no message; `transport_connected` says whether the
    /// transport still holds the connection.
    Interrupted { transport_connected: bool },
}

/// What to do with an item of the delivery stream.
#[derive(Debug, Clone, PartialEq, Eq)]
pub enum Handling {
    /// Hand `job` to the dispatch loop; `error` reports a payload that could
    /// not be classified, for the log.
    Forward { job: WriteJob, error: Option<ClassificationError> },
    /// Take the session's action.
    Session(SessionAction),
}

} // verus!
