//! The unit of work that crosses from the broker side to the storage side.

use vstd::prelude::*;

verus! {

/// The batch size of a job whose rule names none.
pub const DEFAULT_BATCH_SIZE: i32 = 1;

/// One classified message on its way to the batch buffer.
///
/// `path` is the destination key; an empty path marks a message that no rule
/// could route, and such a job is never buffered or flushed. `payload` is one
/// record. `n_per_file` is the number of records that make a full batch for
/// this destination.
#[derive(Debug, Clone, PartialEq, Eq)]
pub struct WriteJob {
    pub path: String,
    pub payload: String,
    pub n_per_file: i32,
}

/// What a [`WriteJob`] holds, as mathematical values.
pub struct WriteJobView {
    pub path: Seq<char>,
    pub payload: Seq<char>,
    pub n_per_file: int,
}

impl View for WriteJob {
    type V = WriteJobView;

    open spec fn view(&self) -> WriteJobView {
        WriteJobView { path: self.path@, payload: self.payload@, n_per_file: self.n_per_file as int }
    }
}

impl DeepView for WriteJob {
    type V = WriteJobView;

    open spec fn deep_view(&self) -> WriteJobView {
        self@
    }
}

impl WriteJobView {
    /// A job that no rule could route.
    pub open spec fn is_unroutable(self) -> bool {
        self.path.len() == 0
    }
}

impl Default for WriteJob {
    /// The unroutable job: no destination, no payload, batches of one.
    fn default() -> (job: WriteJob)
        ensures
            job@ == (WriteJobView {
                path: Seq::<char>::empty(),
                payload: Seq::<char>::empty(),
                n_per_file: 1,
            }),
    {
        WriteJob { path: String::new(), payload: String::new(), n_per_file: DEFAULT_BATCH_SIZE }
    }
}

impl WriteJob {
    /// Whether the job has no destination.
    pub fn is_unroutable(&self) -> (r: bool)
        ensures
            r == self@.is_unroutable(),
    {
        self.path.as_str().is_empty()
    }
}

/// A classified message as the broker side hands it over: the destination
/// path, the record, and the batch size of its rule.
#[derive(Debug, Clone, PartialEq, Eq)]
pub struct MqttPayload {
    pub path: String,
    pub payload: String,
    pub n_per_file: i32,
}

impl View for MqttPayload {
    type V = WriteJobView;

    open spec fn view(&self) -> WriteJobView {
        WriteJobView { path: self.path@, payload: self.payload@, n_per_file: self.n_per_file as int }
    }
}

impl MqttPayload {
    /// The write job that carries this message to the storage side.
    pub fn into_write_job(self) -> (job: WriteJob)
        ensures
            job@ == self@,
    {
        WriteJob { path: self.path, payload: self.payload, n_per_file: self.n_per_file }
    }

    /// The message that a write job was made from.
    pub fn from_write_job(job: WriteJob) -> (message: MqttPayload)
        ensures
            message@ == job@,
    {
        MqttPayload { path: job.path, payload: job.payload, n_per_file: job.n_per_file }
    }
}

} // verus!
