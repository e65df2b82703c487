//! The batch buffer: the payloads that wait, per destination key, until a
//! batch is full.
//!
//! The buffer is a map from destination key to the payloads that arrived for
//! it and were not flushed yet, in the order of arrival. A key enters the map
//! with its first payload and stays; a flush empties its entry.

use crate::job::{WriteJob, WriteJobView};
use crate::text::copy_texts;
use vstd::hash_map::StringHashMap;
use vstd::prelude::*;

verus! {

/// A full batch on its way to the object store: the destination key and its
/// payloads in the order of arrival.
#[derive(Debug, Clone, PartialEq, Eq)]
pub struct Flush {
    pub path: String,
    pub payloads: Vec<String>,
}

/// What a [`Flush`] holds, as mathematical values.
pub struct FlushView {
    pub path: Seq<char>,
    pub payloads: Seq<Seq<char>>,
}

impl View for Flush {
    type V = FlushView;

    open spec fn view(&self) -> FlushView {
        FlushView { path: self.path@, payloads: self.payloads.deep_view() }
    }
}

impl DeepView for Flush {
    type V = FlushView;

    open spec fn deep_view(&self) -> FlushView {
        self@
    }
}

/// The view of an optional flush.
pub open spec fn optional_flush(flush: Option<Flush>) -> Option<FlushView> {
    match flush {
        Some(f) => Some(f@),
        None => None,
    }
}

/// The contents of a buffer: for each key, its pending payloads.
pub type Pending = Map<Seq<char>, Seq<Seq<char>>>;

/// The payloads that wait for `key`; none where the key never arrived.
pub open spec fn pending(buffer: Pending, key: Seq<char>) -> Seq<Seq<char>> {
    if buffer.contains_key(key) {
        buffer[key]
    } else {
        Seq::empty()
    }
}

/// One step of the buffer. An unroutable job changes nothing. Any other job
/// appends its payload to the entry of its key; where the entry then holds
/// exactly as many payloads as the job's batch size, the entry is emptied
/// and its former contents leave as a flush.
pub open spec fn dispatched(buffer: Pending, job: WriteJobView) -> (Pending, Option<FlushView>) {
    if job.is_unroutable() {
        (buffer, None)
    } else {
        let grown = pending(buffer, job.path).push(job.payload);
        if grown.len() == job.n_per_file {
            (
                buffer.insert(job.path, Seq::empty()),
                Some(FlushView { path: job.path, payloads: grown }),
            )
        } else {
            (buffer.insert(job.path, grown), None)
        }
    }
}

/// The steps of the buffer for `jobs`, first to last: the buffer afterwards
/// and the flushes in the order in which they left.
pub open spec fn processed(buffer: Pending, jobs: Seq<WriteJobView>) -> (Pending, Seq<FlushView>)
    decreases jobs.len(),
{
    if jobs.len() == 0 {
        (buffer, Seq::empty())
    } else {
        let (before, flushes) = processed(buffer, jobs.drop_last());
        let (after, flush) = dispatched(before, jobs.last());
        match flush {
            Some(f) => (after, flushes.push(f)),
            None => (after, flushes),
        }
    }
}

/// The jobs that carry `payloads`, in order, to one key with one batch size.
pub open spec fn jobs_for(key: Seq<char>, batch_size: int, payloads: Seq<Seq<char>>) -> Seq<
    WriteJobView,
> {
    Seq::new(
        payloads.len(),
        |i: int| WriteJobView { path: key, payload: payloads[i], n_per_file: batch_size },
    )
}

/// An unroutable job leaves the buffer as it was and causes no flush.
pub proof fn lemma_unroutable_job_changes_nothing(buffer: Pending, job: WriteJobView)
    requires
        job.is_unroutable(),
    ensures
        dispatched(buffer, job) == (buffer, None::<FlushView>),
{
}

/// Right after a flush the entry of the flushed key is empty, and the flush
/// holds as many payloads as the batch size of the job that caused it.
pub proof fn lemma_entry_is_empty_after_flush(buffer: Pending, job: WriteJobView)
    requires
        dispatched(buffer, job).1 is Some,
    ensures
        dispatched(buffer, job).0.contains_key(job.path),
        pending(dispatched(buffer, job).0, job.path).len() == 0,
        dispatched(buffer, job).1->0.path == job.path,
        dispatched(buffer, job).1->0.payloads.len() == job.n_per_file,
{
}

/// A step touches no key but the job's.
pub proof fn lemma_other_keys_are_untouched(buffer: Pending, job: WriteJobView, other: Seq<char>)
    requires
        other != job.path,
    ensures
        dispatched(buffer, job).0.contains_key(other) == buffer.contains_key(other),
        pending(dispatched(buffer, job).0, other) == pending(buffer, other),
{
}

/// One flush per full batch. Let payloads arrive for one key, all with batch
/// size `batch_size`, at a buffer whose entry for the key is not full. Write
/// `all` for what waited followed by what arrived. Then one flush leaves for
/// every `batch_size` payloads of `all`: flush number `i` holds the payloads
/// of `all` from position `i * batch_size` on, in order. What is left over,
/// fewer than `batch_size` payloads, waits in the entry. No other key changes.
pub proof fn lemma_one_flush_per_full_batch(
    buffer: Pending,
    key: Seq<char>,
    batch_size: int,
    payloads: Seq<Seq<char>>,
)
    requires
        key.len() > 0,
        batch_size >= 1,
        pending(buffer, key).len() < batch_size,
    ensures
        ({
            let all = pending(buffer, key) + payloads;
            let (after, flushes) = processed(buffer, jobs_for(key, batch_size, payloads));
            &&& flushes.len() == all.len() / (batch_size as nat)
            &&& flushes.len() * batch_size + pending(after, key).len() == all.len()
            &&& pending(after, key).len() < batch_size
            &&& pending(after, key) == all.skip(flushes.len() * batch_size)
            &&& forall|i: int|
                0 <= i < flushes.len() ==> #[trigger] flushes[i] == (FlushView {
                    path: key,
                    payloads: all.subrange(i * batch_size, i * batch_size + batch_size),
                })
            &&& forall|other: Seq<char>|
                other != key ==> #[trigger] after.contains_key(other) == buffer.contains_key(
                    other,
                )
            &&& forall|other: Seq<char>|
                other != key ==> #[trigger] pending(after, other) == pending(buffer, other)
        }),
    decreases payloads.len(),
{
    let all = pending(buffer, key) + payloads;
    let jobs = jobs_for(key, batch_size, payloads);
    let (after, flushes) = processed(buffer, jobs);
    if payloads.len() == 0 {
        assert(all == pending(buffer, key));
        assert(all.skip(0) == all);
        assert(after == buffer);
        assert(flushes.len() == 0);
        vstd::arithmetic::div_mod::lemma_fundamental_div_mod_converse(
            all.len() as int,
            batch_size,
            0,
            all.len() as int,
        );
        assert(flushes.len() * batch_size == 0) by (nonlinear_arith)
            requires
                flushes.len() == 0,
        ;
    } else {
        let shorter = payloads.drop_last();
        let fewer = pending(buffer, key) + shorter;
        lemma_one_flush_per_full_batch(buffer, key, batch_size, shorter);
        assert(jobs.drop_last() == jobs_for(key, batch_size, shorter));
        let (before, earlier) = processed(buffer, jobs.drop_last());
        let job = jobs.last();
        let count = earlier.len() as int;
        let waiting = pending(before, key);
        let grown = waiting.push(job.payload);
        let (next, flush) = dispatched(before, job);
        assert(job.path == key && job.payload == payloads.last() && job.n_per_file == batch_size);
        assert(after == next);
        assert(all == fewer.push(payloads.last()));
        assert(0 <= count * batch_size) by (nonlinear_arith)
            requires
                0 <= count,
                batch_size >= 1,
        ;
        assert(waiting == fewer.skip(count * batch_size));
        assert(grown == all.skip(count * batch_size));
        assert((count + 1) * batch_size == count * batch_size + batch_size) by (nonlinear_arith);
        assert forall|i: int| 0 <= i < count implies #[trigger] earlier[i] == (FlushView {
            path: key,
            payloads: all.subrange(i * batch_size, i * batch_size + batch_size),
        }) by {
            assert(i * batch_size + batch_size <= count * batch_size) by (nonlinear_arith)
                requires
                    0 <= i < count,
                    batch_size >= 1,
            ;
            assert(0 <= i * batch_size) by (nonlinear_arith)
                requires
                    0 <= i,
                    batch_size >= 1,
            ;
            assert(fewer.subrange(i * batch_size, i * batch_size + batch_size) == all.subrange(
                i * batch_size,
                i * batch_size + batch_size,
            ));
        }
        assert forall|other: Seq<char>| other != key implies #[trigger] pending(after, other)
            == pending(buffer, other) by {
            lemma_other_keys_are_untouched(before, job, other);
            assert(pending(before, other) == pending(buffer, other));
        }
        if grown.len() == batch_size {
            assert(flush == Some(FlushView { path: key, payloads: grown }));
            assert(flushes == earlier.push(FlushView { path: key, payloads: grown }));
            assert(grown == all.subrange(count * batch_size, count * batch_size + batch_size));
            assert(all.skip((count + 1) * batch_size) == Seq::<Seq<char>>::empty());
            assert(pending(after, key) == Seq::<Seq<char>>::empty());
            vstd::arithmetic::div_mod::lemma_fundamental_div_mod_converse(
                all.len() as int,
                batch_size,
                count + 1,
                0,
            );
            assert forall|i: int| 0 <= i < flushes.len() implies #[trigger] flushes[i] == (FlushView {
                path: key,
                payloads: all.subrange(i * batch_size, i * batch_size + batch_size),
            }) by {
                if i < count {
                    assert(flushes[i] == earlier[i]);
                }
            }
            assert(flushes.len() * batch_size == (count + 1) * batch_size);
            assert(flushes.len() * batch_size + pending(after, key).len() == all.len());
        } else {
            assert(flush is None);
            assert(flushes == earlier);
            assert(pending(after, key) == grown);
            vstd::arithmetic::div_mod::lemma_fundamental_div_mod_converse(
                all.len() as int,
                batch_size,
                count,
                grown.len() as int,
            );
            assert(flushes.len() * batch_size == count * batch_size);
            assert(flushes.len() * batch_size + pending(after, key).len() == all.len());
        }
        assert forall|other: Seq<char>| other != key implies #[trigger] after.contains_key(other)
            == buffer.contains_key(other) by {
            lemma_other_keys_are_untouched(before, job, other);
            assert(before.contains_key(other) == buffer.contains_key(other));
        }
    }
}

/// The payloads that wait, per destination key.
pub struct BatchBuffer {
    entries: StringHashMap<Vec<String>>,
}

impl View for BatchBuffer {
    type V = Pending;

    closed spec fn view(&self) -> Pending {
        Map::new(
            |key: Seq<char>| self.entries@.contains_key(key),
            |key: Seq<char>| self.entries@[key].deep_view(),
        )
    }
}

impl BatchBuffer {
    /// A buffer in which nothing waits.
    pub fn new() -> (buffer: BatchBuffer)
        ensures
            buffer@ == Map::<Seq<char>, Seq<Seq<char>>>::empty(),
    {
        let buffer = BatchBuffer { entries: StringHashMap::new() };
        assert(buffer@ =~= Map::<Seq<char>, Seq<Seq<char>>>::empty());
        buffer
    }

    /// Whether `key` has an entry, waiting payloads or not.
    pub fn contains_key(&self, key: &str) -> (present: bool)
        ensures
            present == self@.contains_key(key@),
    {
        self.entries.contains_key(key)
    }

    /// The payloads that wait for `key`, in the order of arrival.
    pub fn pending(&self, key: &str) -> (waiting: Vec<String>)
        ensures
            waiting.deep_view() == pending(self@, key@),
    {
        match self.entries.get(key) {
            Some(texts) => copy_texts(texts),
            None => {
                let waiting: Vec<String> = Vec::new();
                assert(waiting.deep_view() =~= Seq::<Seq<char>>::empty());
                waiting
            },
        }
    }

    /// Takes one job in. Returns the flush that the job completes, if any;
    /// the caller hands it to the object store before the next job.
    pub fn dispatch(&mut self, job: WriteJob) -> (flush: Option<Flush>)
        ensures
            final(self)@ == dispatched(old(self)@, job@).0,
            optional_flush(flush) == dispatched(old(self)@, job@).1,
    {
        if job.path.as_str().is_empty() {
            return None;
        }
        let mut grown = self.pending(job.path.as_str());
        let ghost waiting = grown.deep_view();
        grown.push(job.payload);
        assert(grown.deep_view() == waiting.push(job.payload@));
        if job.n_per_file >= 0 && grown.len() == job.n_per_file as usize {
            let emptied: Vec<String> = Vec::new();
            assert(emptied.deep_view() =~= Seq::<Seq<char>>::empty());
            self.entries.insert(job.path.clone(), emptied);
            assert(self@ =~= old(self)@.insert(job.path@, Seq::empty()));
            Some(Flush { path: job.path, payloads: grown })
        } else {
            let ghost kept = grown.deep_view();
            self.entries.insert(job.path, grown);
            assert(self@ =~= old(self)@.insert(job.path@, kept));
            None
        }
    }
}

/// Takes jobs in, first to last, and returns the flushes that they
/// complete, in order.
pub fn handle_write_jobs(buffer: &mut BatchBuffer, jobs: Vec<WriteJob>) -> (flushes: Vec<Flush>)
    ensures
        final(buffer)@ == processed(old(buffer)@, jobs.deep_view()).0,
        flushes.deep_view() == processed(old(buffer)@, jobs.deep_view()).1,
{
    let mut flushes: Vec<Flush> = Vec::new();
    let ghost all = jobs.deep_view();
    assert(flushes.deep_view() =~= Seq::<FlushView>::empty());
    assert(all.take(0) =~= Seq::<WriteJobView>::empty());
    for job in it: jobs
        invariant
            it.seq().len() == all.len(),
            forall|k: int| 0 <= k < all.len() ==> (#[trigger] it.seq()[k])@ == all[k],
            buffer@ == processed(old(buffer)@, all.take(it.index())).0,
            flushes.deep_view() == processed(old(buffer)@, all.take(it.index())).1,
    {
        let ghost earlier = flushes.deep_view();
        proof {
            assert(all.take(it.index() + 1).drop_last() == all.take(it.index()));
            assert(all.take(it.index() + 1).last() == job@);
        }
        match buffer.dispatch(job) {
            Some(flush) => {
                let ghost leaving = flush@;
                flushes.push(flush);
                assert(flushes.deep_view() == earlier.push(leaving));
            },
            None => {},
        }
    }
    assert(all.take(all.len() as int) == all);
    flushes
}

} // verus!
