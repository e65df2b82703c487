//! A bridge from an MQTT broker to an append-only object store.
//!
//! Messages arrive on subscribed topics. The classifier gives each message a
//! destination key and a batch size; the batch buffer collects payloads per
//! key and hands out a batch when it is full; the upload plan says how a
//! batch is stored. The broker session is a state machine that connects,
//! subscribes, and retries a lost connection a bounded number of times.
//!
//! The library decides and computes. Whoever uses it talks to the broker and
//! to the store: it reports what happened and performs what the library
//! answers.

pub mod buffer;
pub mod classify;
pub mod fibonacci;
pub mod job;
pub mod json;
pub mod options;
pub mod session;
pub mod telegrams;
pub mod text;
pub mod time;
pub mod upload;
