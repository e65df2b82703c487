//! The classifier: from a topic and a payload to the destination key and the
//! batch size of the message.
//!
//! A topic selects a rule family by its prefix, and a rule within the family
//! by a word that it contains. A rule applies where the payload holds every
//! member that the rule reads; it then writes the destination key from a
//! fixed template. The event rule adds the day of processing. Where no rule
//! applies, the key is empty and the message is unroutable.

use crate::job::{WriteJob, WriteJobView, DEFAULT_BATCH_SIZE};
use crate::json::{
    json_parse, json_text, member_text, member_text_of, optional_text, parse_value, render,
};
use crate::text::{
    contains, decimal, decimal_text, has_infix, has_prefix, remove_char, starts_with, trim,
    trimmed, without,
};
use crate::time::{utc_today, Date};
use vstd::prelude::*;
use vstd::string::StringExecFns;

verus! {

/// The batch size of event telegrams, which arrive at a high rate.
pub const EVENT_BATCH_SIZE: i32 = 10;

/// The payload could not be read as a JSON document.
#[derive(Debug, Clone, Copy, PartialEq, Eq)]
pub enum ClassificationError {
    MalformedPayload,
}

/// The rule that owns a message.
#[derive(Debug, Clone, Copy, PartialEq, Eq)]
pub enum Rule {
    /// An event telegram of a PackML machine.
    PackmlEvent,
    /// A status telegram of a PackML service.
    PackmlStatus,
    /// A status telegram of the master service.
    ServiceStatus,
    /// No rule applies.
    Unroutable,
}

/// The members of a payload that the rules read. Each holds the JSON text of
/// the member, and `None` where the member is missing or null.
#[derive(Debug, Clone, PartialEq, Eq)]
pub struct RoutingFields {
    /// Member `machineIDx`.
    pub machine_idx: Option<String>,
    /// Member `telegramTypeFriendly`.
    pub telegram_type: Option<String>,
    /// Member `telegramTypeVersion`.
    pub telegram_version: Option<String>,
    /// Member `ServiceName`.
    pub service_name: Option<String>,
    /// Member `Host`.
    pub host: Option<String>,
}

/// What [`RoutingFields`] holds, as mathematical values.
pub struct RoutingFieldsView {
    pub machine_idx: Option<Seq<char>>,
    pub telegram_type: Option<Seq<char>>,
    pub telegram_version: Option<Seq<char>>,
    pub service_name: Option<Seq<char>>,
    pub host: Option<Seq<char>>,
}

impl View for RoutingFields {
    type V = RoutingFieldsView;

    open spec fn view(&self) -> RoutingFieldsView {
        RoutingFieldsView {
            machine_idx: optional_text(self.machine_idx),
            telegram_type: optional_text(self.telegram_type),
            telegram_version: optional_text(self.telegram_version),
            service_name: optional_text(self.service_name),
            host: optional_text(self.host),
        }
    }
}

/// The routing members of a document.
pub open spec fn routing_fields_of(document: serde_json::Value) -> RoutingFieldsView {
    RoutingFieldsView {
        machine_idx: member_text_of(document, "machineIDx"@),
        telegram_type: member_text_of(document, "telegramTypeFriendly"@),
        telegram_version: member_text_of(document, "telegramTypeVersion"@),
        service_name: member_text_of(document, "ServiceName"@),
        host: member_text_of(document, "Host"@),
    }
}

/// A member's JSON text as it enters a key: trimmed, and without any double
/// quote.
pub open spec fn normalized(rendered: Seq<char>) -> Seq<char> {
    without(trimmed(rendered), '"')
}

/// The rule that owns a message with this topic and these members.
pub open spec fn rule_for(topic: Seq<char>, fields: RoutingFieldsView) -> Rule {
    if has_prefix(topic, "packml"@) {
        if has_infix(topic, "event"@) && fields.telegram_type is Some && fields.machine_idx
            is Some && fields.telegram_version is Some {
            Rule::PackmlEvent
        } else if has_infix(topic, "status"@) && fields.service_name is Some {
            Rule::PackmlStatus
        } else {
            Rule::Unroutable
        }
    } else if has_prefix(topic, "service"@) {
        if has_infix(topic, "status"@) && fields.host is Some {
            Rule::ServiceStatus
        } else {
            Rule::Unroutable
        }
    } else {
        Rule::Unroutable
    }
}

/// The partition of a key by the day of processing.
pub open spec fn date_partition(date: Date) -> Seq<char> {
    "/year="@ + decimal(date.year as int) + "/month="@ + decimal(date.month as int) + "/day="@
        + decimal(date.day as int)
}

/// The part of a destination key that the message alone decides.
pub open spec fn key_stem(rule: Rule, fields: RoutingFieldsView) -> Seq<char> {
    match rule {
        Rule::PackmlEvent => "packml/event/telegram_type="@ + normalized(fields.telegram_type->0)
            + "/telegram_version="@ + normalized(fields.telegram_version->0) + "/machine_idx="@
            + normalized(fields.machine_idx->0),
        Rule::PackmlStatus => "packml/status/service_name="@ + normalized(fields.service_name->0),
        Rule::ServiceStatus => "master/status/host="@ + normalized(fields.host->0),
        Rule::Unroutable => Seq::<char>::empty(),
    }
}

/// The destination key that a rule writes.
pub open spec fn key_of(rule: Rule, fields: RoutingFieldsView, date: Date) -> Seq<char> {
    match rule {
        Rule::PackmlEvent => key_stem(rule, fields) + date_partition(date),
        _ => key_stem(rule, fields),
    }
}

/// The batch size that a rule sets.
pub open spec fn batch_size_of(rule: Rule) -> int {
    match rule {
        Rule::PackmlEvent => 10,
        _ => 1,
    }
}

/// The write job of a message with this topic, these members, this payload
/// text, processed on this day.
pub open spec fn classified(
    topic: Seq<char>,
    fields: RoutingFieldsView,
    payload: Seq<char>,
    date: Date,
) -> WriteJobView {
    let rule = rule_for(topic, fields);
    WriteJobView {
        path: key_of(rule, fields, date),
        payload: payload,
        n_per_file: batch_size_of(rule),
    }
}

/// The write job of a parsed message.
pub open spec fn classified_document(
    topic: Seq<char>,
    document: serde_json::Value,
    date: Date,
) -> WriteJobView {
    classified(topic, routing_fields_of(document), json_text(document), date)
}

/// A topic outside both rule families gives an unroutable job, whatever the
/// payload and the day.
pub proof fn lemma_unmatched_topic_is_unroutable(
    topic: Seq<char>,
    fields: RoutingFieldsView,
    payload: Seq<char>,
    date: Date,
)
    requires
        !has_prefix(topic, "packml"@),
        !has_prefix(topic, "service"@),
    ensures
        rule_for(topic, fields) == Rule::Unroutable,
        classified(topic, fields, payload, date).path == Seq::<char>::empty(),
        classified(topic, fields, payload, date).n_per_file == 1,
{
}

/// A rule whose members are missing gives an unroutable job: a message gets
/// a key only where the members of some rule of its family are all there.
pub proof fn lemma_missing_members_are_unroutable(
    topic: Seq<char>,
    fields: RoutingFieldsView,
    payload: Seq<char>,
    date: Date,
)
    requires
        fields.telegram_type is None || fields.machine_idx is None || fields.telegram_version
            is None,
        fields.service_name is None,
        fields.host is None,
    ensures
        classified(topic, fields, payload, date).path == Seq::<char>::empty(),
{
}

/// The key is empty exactly where no rule applies.
pub proof fn lemma_key_is_empty_iff_unroutable(
    topic: Seq<char>,
    fields: RoutingFieldsView,
    payload: Seq<char>,
    date: Date,
)
    ensures
        classified(topic, fields, payload, date).is_unroutable() <==> rule_for(topic, fields)
            == Rule::Unroutable,
{
    reveal_strlit("packml/event/telegram_type=");
    reveal_strlit("packml/status/service_name=");
    reveal_strlit("master/status/host=");
}

/// The day of processing enters nothing but the partition that closes an
/// event key: two classifications of one message agree on the rule, the
/// payload, the batch size and the stem of the key, and on the whole key
/// where the rule is not the event rule or the days are the same.
pub proof fn lemma_classification_depends_on_the_day_only_in_the_partition(
    topic: Seq<char>,
    fields: RoutingFieldsView,
    payload: Seq<char>,
    first: Date,
    second: Date,
)
    ensures
        classified(topic, fields, payload, first).payload == classified(
            topic,
            fields,
            payload,
            second,
        ).payload,
        classified(topic, fields, payload, first).n_per_file == classified(
            topic,
            fields,
            payload,
            second,
        ).n_per_file,
        rule_for(topic, fields) == Rule::PackmlEvent ==> classified(
            topic,
            fields,
            payload,
            first,
        ).path == key_stem(Rule::PackmlEvent, fields) + date_partition(first) && classified(
            topic,
            fields,
            payload,
            second,
        ).path == key_stem(Rule::PackmlEvent, fields) + date_partition(second),
        rule_for(topic, fields) != Rule::PackmlEvent || first == second ==> classified(
            topic,
            fields,
            payload,
            first,
        ) == classified(topic, fields, payload, second),
{
}

/// A member's JSON text as it enters a key.
pub fn normalize(rendered: &str) -> (r: String)
    ensures
        r@ == normalized(rendered@),
{
    remove_char(trim(rendered), '"')
}

/// A JSON value as it enters a key: its compact text, trimmed, without any
/// double quote.
pub fn value_to_string(v: &serde_json::Value) -> (r: String)
    ensures
        r@ == normalized(json_text(*v)),
{
    let rendered = render(v);
    normalize(rendered.as_str())
}

/// The members of a document that the rules read.
pub fn routing_fields(document: &serde_json::Value) -> (fields: RoutingFields)
    ensures
        fields@ == routing_fields_of(*document),
{
    RoutingFields {
        machine_idx: member_text(document, "machineIDx"),
        telegram_type: member_text(document, "telegramTypeFriendly"),
        telegram_version: member_text(document, "telegramTypeVersion"),
        service_name: member_text(document, "ServiceName"),
        host: member_text(document, "Host"),
    }
}

/// The rule that owns a message.
pub fn select_rule(topic: &str, fields: &RoutingFields) -> (rule: Rule)
    ensures
        rule == rule_for(topic@, fields@),
{
    if starts_with(topic, "packml") {
        if contains(topic, "event") && fields.telegram_type.is_some()
            && fields.machine_idx.is_some() && fields.telegram_version.is_some() {
            Rule::PackmlEvent
        } else if contains(topic, "status") && fields.service_name.is_some() {
            Rule::PackmlStatus
        } else {
            Rule::Unroutable
        }
    } else if starts_with(topic, "service") {
        if contains(topic, "status") && fields.host.is_some() {
            Rule::ServiceStatus
        } else {
            Rule::Unroutable
        }
    } else {
        Rule::Unroutable
    }
}

fn append_normalized(key: &mut String, label: &str, rendered: &Option<String>)
    requires
        rendered is Some,
    ensures
        final(key)@ == old(key)@ + label@ + normalized(rendered->0@),
{
    key.append(label);
    match rendered {
        Some(text) => {
            let value = normalize(text.as_str());
            key.append(value.as_str());
        },
        None => {},
    }
}

fn append_number(key: &mut String, label: &str, number: i64)
    ensures
        final(key)@ == old(key)@ + label@ + decimal(number as int),
{
    key.append(label);
    let value = decimal_text(number);
    key.append(value.as_str());
}

fn write_key(rule: Rule, fields: &RoutingFields, date: Date) -> (key: String)
    requires
        rule == Rule::PackmlEvent ==> fields.telegram_type is Some && fields.telegram_version
            is Some && fields.machine_idx is Some,
        rule == Rule::PackmlStatus ==> fields.service_name is Some,
        rule == Rule::ServiceStatus ==> fields.host is Some,
    ensures
        key@ == key_of(rule, fields@, date),
{
    let mut key = String::new();
    match rule {
        Rule::PackmlEvent => {
            append_normalized(&mut key, "packml/event/telegram_type=", &fields.telegram_type);
            append_normalized(&mut key, "/telegram_version=", &fields.telegram_version);
            append_normalized(&mut key, "/machine_idx=", &fields.machine_idx);
            let ghost stem = key@;
            append_number(&mut key, "/year=", date.year as i64);
            append_number(&mut key, "/month=", date.month as i64);
            append_number(&mut key, "/day=", date.day as i64);
            proof {
                assert(stem == key_stem(rule, fields@));
                assert(key@ == stem + date_partition(date));
            }
        },
        Rule::PackmlStatus => {
            append_normalized(&mut key, "packml/status/service_name=", &fields.service_name);
            assert(key@ == key_stem(rule, fields@));
        },
        Rule::ServiceStatus => {
            append_normalized(&mut key, "master/status/host=", &fields.host);
            assert(key@ == key_stem(rule, fields@));
        },
        Rule::Unroutable => {},
    }
    key
}

/// The destination key of a message with this topic and these members,
/// processed on this day; empty where no rule applies.
pub fn destination_key(topic: &str, fields: &RoutingFields, date: Date) -> (key: String)
    ensures
        key@ == key_of(rule_for(topic@, fields@), fields@, date),
{
    write_key(select_rule(topic, fields), fields, date)
}

/// The batch size that a rule sets.
pub fn batch_size(rule: Rule) -> (n: i32)
    ensures
        n == batch_size_of(rule),
{
    match rule {
        Rule::PackmlEvent => EVENT_BATCH_SIZE,
        _ => DEFAULT_BATCH_SIZE,
    }
}

/// Classifies a message whose members have been read: the job carries the
/// key and the batch size of the rule that owns the message, and the payload
/// as given.
pub fn classify_fields(topic: &str, fields: &RoutingFields, payload: String, date: Date) -> (job:
    WriteJob)
    ensures
        job@ == classified(topic@, fields@, payload@, date),
{
    let rule = select_rule(topic, fields);
    let path = write_key(rule, fields, date);
    WriteJob { path, payload, n_per_file: batch_size(rule) }
}

/// Classifies a parsed message. The job's payload is the compact JSON text
/// of the document.
pub fn classify_document(topic: &str, document: &serde_json::Value, date: Date) -> (job: WriteJob)
    ensures
        job@ == classified_document(topic@, *document, date),
{
    let fields = routing_fields(document);
    classify_fields(topic, &fields, render(document), date)
}

/// Classifies a message as of a given day. A payload that is no JSON
/// document is an error; every other payload gives a job.
pub fn classify_on(topic: &str, payload: &str, date: Date) -> (r: Result<
    WriteJob,
    ClassificationError,
>)
    ensures
        match json_parse(payload@) {
            Some(document) => r matches Ok(job) && job@ == classified_document(
                topic@,
                document,
                date,
            ),
            None => r == Err::<WriteJob, ClassificationError>(
                ClassificationError::MalformedPayload,
            ),
        },
{
    match parse_value(payload) {
        Ok(document) => Ok(classify_document(topic, &document, date)),
        Err(_) => Err(ClassificationError::MalformedPayload),
    }
}

/// Classifies a message as of today, in UTC. The result is that of
/// [`classify_on`] for some day of the calendar.
pub fn classify(topic: &str, payload: &str) -> (r: Result<WriteJob, ClassificationError>)
    ensures
        match json_parse(payload@) {
            Some(document) => r matches Ok(job) && exists|today: Date|
                today.in_calendar() && job@ == #[trigger] classified_document(
                    topic@,
                    document,
                    today,
                ),
            None => r == Err::<WriteJob, ClassificationError>(
                ClassificationError::MalformedPayload,
            ),
        },
{
    classify_on(topic, payload, utc_today())
}

/// The job that is handed on for a message, whatever its payload: the
/// classified job, or the unroutable job where the payload is malformed.
pub open spec fn message_job(topic: Seq<char>, payload: Seq<char>, date: Date) -> WriteJobView {
    match json_parse(payload) {
        Some(document) => classified_document(topic, document, date),
        None => WriteJobView {
            path: Seq::<char>::empty(),
            payload: Seq::<char>::empty(),
            n_per_file: 1,
        },
    }
}

/// The job that is handed on for a message, whatever its payload, as of
/// today in UTC. The second component reports a malformed payload, for the
/// log.
pub fn job_for_message(topic: &str, payload: &str) -> (r: (WriteJob, Option<ClassificationError>))
    ensures
        r.1 is Some <==> json_parse(payload@) is None,
        r.1 is Some ==> r.1 == Some(ClassificationError::MalformedPayload),
        exists|today: Date|
            today.in_calendar() && r.0@ == #[trigger] message_job(topic@, payload@, today),
{
    let today = utc_today();
    match classify_on(topic, payload, today) {
        Ok(job) => {
            assert(job@ == message_job(topic@, payload@, today));
            (job, None)
        },
        Err(error) => {
            let job = WriteJob::default();
            assert(job@ == message_job(topic@, payload@, today));
            (job, Some(error))
        },
    }
}

} // verus!
