//! The telegrams that the broker carries, as plain records. Time stamps are
//! held as milliseconds since the Unix epoch, in UTC.

use crate::text::{contains, has_infix, has_prefix, starts_with};
use vstd::prelude::*;

verus! {

/// The kind of telegram that a topic carries.
#[derive(Debug, Clone, Copy, PartialEq, Eq)]
pub enum TelegramKind {
    /// A status telegram of a PackML service.
    PackmlStatus,
    /// An event telegram of a PackML machine.
    PackmlEvent,
    /// A status telegram of the master service.
    MasterServiceStatus,
    /// None that is known.
    Unknown,
}

/// The kind of telegram on a topic. Under `packml` a topic that names a
/// status is a status telegram, any other that names an event is an event
/// telegram; under `service` a topic that names a status is the master
/// service's.
pub open spec fn kind_of(topic: Seq<char>) -> TelegramKind {
    if has_prefix(topic, "packml"@) {
        if has_infix(topic, "status"@) {
            TelegramKind::PackmlStatus
        } else if has_infix(topic, "event"@) {
            TelegramKind::PackmlEvent
        } else {
            TelegramKind::Unknown
        }
    } else if has_prefix(topic, "service"@) {
        if has_infix(topic, "status"@) {
            TelegramKind::MasterServiceStatus
        } else {
            TelegramKind::Unknown
        }
    } else {
        TelegramKind::Unknown
    }
}

/// The kind of telegram on a topic.
pub fn telegram_kind(topic: &str) -> (kind: TelegramKind)
    ensures
        kind == kind_of(topic@),
{
    if starts_with(topic, "packml") {
        if contains(topic, "status") {
            TelegramKind::PackmlStatus
        } else if contains(topic, "event") {
            TelegramKind::PackmlEvent
        } else {
            TelegramKind::Unknown
        }
    } else if starts_with(topic, "service") {
        if contains(topic, "status") {
            TelegramKind::MasterServiceStatus
        } else {
            TelegramKind::Unknown
        }
    } else {
        TelegramKind::Unknown
    }
}

/// The status telegram of a PackML service.
#[derive(Debug, Clone, PartialEq, Eq)]
pub struct PackMLStatus {
    pub state: String,
    pub time_stamp_millis: i64,
    pub service_name: String,
    pub host: String,
    pub plc_version: String,
    pub hmi_version: String,
    pub protocol_version: String,
}

/// The two schema references that an event telegram carries.
#[derive(Debug, Clone, PartialEq, Eq)]
pub struct ValidationSchema {
    pub header: String,
    pub content: String,
}

/// The event telegram of type `0x03015100`, process sampling.
#[derive(Debug, Clone, PartialEq, Eq)]
pub struct PackMLEvent0x03015100 {
    pub decode_to_sql: String,
    pub data_content_decoding_schema: String,
    pub telegram_type_friendly: String,
    pub machine_idx: i32,
    pub mode: i32,
    pub validation_schema: String,
    pub telegram_description: String,
    pub telegram_type: String,
    pub unit_id: i32,
    pub state: i32,
    pub telegram_type_version: String,
    pub friendly_name: String,
    pub timestamp_millis: i64,
    pub data_content: String,
}

/// The kinds of event telegram that are known by name.
#[derive(Debug, Clone, Copy, PartialEq, Eq)]
pub enum PackMLEvent {
    PackMLEvent0x03015100,
}

/// The status telegram of the master service.
#[derive(Debug, Clone, PartialEq, Eq)]
pub struct MasterServiceStatus {
    pub state: String,
    pub host: String,
    pub time_stamp_millis: i64,
}

} // verus!
