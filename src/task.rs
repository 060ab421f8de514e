//! The per-file hashing task, as a state machine driven by read events.
//!
//! The caller opens the file, reads up to one chunk at a time into the task's
//! own buffer, and reports how many bytes arrived and how long the task has
//! run. The task feeds exactly those bytes to its accumulator and decides
//! whether a one-shot progress estimate is due.
use vstd::prelude::*;
use crate::digest::{Accumulator, Digest, md5_of};

verus! {

/// Chunk size used when none is configured.
pub const DEFAULT_CHUNK_SIZE: usize = 4096;

/// Run time after which a still-running task reports an estimate, in nanoseconds.
pub const PROGRESS_THRESHOLD_NANOS: u64 = 2_000_000_000;

/// Nanoseconds in one second.
pub const NANOS_PER_SEC: u64 = 1_000_000_000;

/// An estimated remaining duration.
#[derive(Debug, Clone, Copy)]
pub struct Eta {
    pub secs: u64,
    pub subsec_nanos: u32,
}

/// What the caller does after a read event.
#[derive(Debug)]
pub enum Step {
    /// Read the next chunk.
    Continue,
    /// Report the estimate for this file, then read the next chunk.
    Progress(Eta),
    /// The stream has ended: finish the task.
    Done,
}

/// Bytes still to come: the known total size minus what was processed,
/// floored at zero; zero when the size is unknown.
pub open spec fn remaining(total: Option<u64>, processed: nat) -> nat {
    match total {
        Some(t) => if t >= processed { (t - processed) as nat } else { 0 },
        None => 0,
    }
}

/// Remaining time at the throughput seen so far: remaining bytes divided by
/// processed bytes per elapsed nanosecond, rounded down.
pub open spec fn eta_nanos(remaining: nat, elapsed_nanos: nat, processed: nat) -> nat
    recommends
        processed > 0,
{
    remaining * elapsed_nanos / processed
}

/// Whether a duration of `nanos` is stated exactly by `e`; a duration beyond
/// the largest one is stated as the largest one.
pub open spec fn eta_states(e: Eta, nanos: nat) -> bool {
    if nanos / (NANOS_PER_SEC as nat) <= u64::MAX {
        e.secs == nanos / (NANOS_PER_SEC as nat) && e.subsec_nanos == nanos % (NANOS_PER_SEC as nat)
    } else {
        e.secs == u64::MAX && e.subsec_nanos == NANOS_PER_SEC - 1
    }
}

/// Whether a read of `n` bytes after `elapsed_nanos` of run time emits the
/// progress estimate, given whether one was emitted before and whether the
/// file's size is known (without it there is no estimate).
pub open spec fn emits_notice(printed: bool, sized: bool, n: nat, elapsed_nanos: nat) -> bool {
    n > 0 && sized && !printed && elapsed_nanos > PROGRESS_THRESHOLD_NANOS
}

/// The remaining time for `left` bytes when `processed` bytes took
/// `elapsed_nanos`.
pub fn estimate(left: u64, elapsed_nanos: u64, processed: u64) -> (r: Eta)
    requires
        processed > 0,
    ensures
        eta_states(r, eta_nanos(left as nat, elapsed_nanos as nat, processed as nat)),
{
    let a = left as u128;
    let b = elapsed_nanos as u128;
    assert(a * b <= u128::MAX) by (nonlinear_arith)
        requires
            a <= 0xffff_ffff_ffff_ffffu128,
            b <= 0xffff_ffff_ffff_ffffu128,
    ;
    let nanos: u128 = a * b / (processed as u128);
    let secs: u128 = nanos / (NANOS_PER_SEC as u128);
    if secs <= u64::MAX as u128 {
        Eta { secs: secs as u64, subsec_nanos: (nanos % (NANOS_PER_SEC as u128)) as u32 }
    } else {
        Eta { secs: u64::MAX, subsec_nanos: (NANOS_PER_SEC - 1) as u32 }
    }
}

/// The hashing state of one file. It owns one buffer whose length is the
/// chunk size for the task's whole life, so its memory does not grow with
/// the file.
pub struct HashTask {
    acc: Accumulator,
    buffer: Vec<u8>,
    total_size: Option<u64>,
    processed: u64,
    printed: bool,
}

impl HashTask {
    /// The bytes fed to the digest so far, in order.
    pub closed spec fn fed(&self) -> Seq<u8> {
        self.acc@
    }

    /// The contents of the read buffer.
    pub closed spec fn buffer_view(&self) -> Seq<u8> {
        self.buffer@
    }

    /// The length of the read buffer.
    pub open spec fn chunk_size(&self) -> nat {
        self.buffer_view().len()
    }

    /// The file size known when the task started.
    pub closed spec fn total_size(&self) -> Option<u64> {
        self.total_size
    }

    /// The number of bytes fed so far.
    pub closed spec fn processed(&self) -> nat {
        self.processed as nat
    }

    /// Whether the progress estimate has been emitted.
    pub closed spec fn printed(&self) -> bool {
        self.printed
    }

    /// The length of the read buffer, which the task never resizes.
    pub fn chunk_len(&self) -> (r: usize)
        ensures
            r == self.chunk_size(),
    {
        self.buffer.len()
    }

    /// The number of bytes fed so far.
    pub fn bytes_processed(&self) -> (r: u64)
        ensures
            r == self.processed(),
    {
        self.processed
    }

    /// The count of processed bytes is the length of the fed stream.
    pub closed spec fn wf(&self) -> bool {
        self.processed as nat == self.acc@.len()
    }

    /// A task for a file of `total_size` bytes (`None` where the size could
    /// not be read), with a buffer of `chunk_size` bytes.
    pub fn new(chunk_size: usize, total_size: Option<u64>) -> (r: HashTask)
        ensures
            r.wf(),
            r.fed() == Seq::<u8>::empty(),
            r.chunk_size() == chunk_size,
            r.total_size() == total_size,
            r.processed() == 0,
            !r.printed(),
    {
        HashTask {
            acc: Accumulator::new(),
            buffer: vec![0u8; chunk_size],
            total_size,
            processed: 0,
            printed: false,
        }
    }

    /// The buffer to read the next chunk into.
    pub fn buffer_mut(&mut self) -> (r: &mut [u8])
        ensures
            r@ == old(self).buffer_view(),
            final(self).buffer_view() == final(r)@,
            final(self).fed() == old(self).fed(),
            final(self).total_size() == old(self).total_size(),
            final(self).processed() == old(self).processed(),
            final(self).printed() == old(self).printed(),
            final(self).wf() == old(self).wf(),
    {
        self.buffer.as_mut_slice()
    }

    /// Handles a read of `n` bytes into the buffer, `elapsed_nanos` after the
    /// task started. Zero bytes end the stream. Otherwise exactly the first
    /// `n` bytes of the buffer are fed, and the estimate is emitted the first
    /// time the run time exceeds the threshold.
    pub fn on_read(&mut self, n: usize, elapsed_nanos: u64) -> (r: Step)
        requires
            old(self).wf(),
            n <= old(self).chunk_size(),
            old(self).processed() + n <= u64::MAX,
        ensures
            final(self).wf(),
            final(self).buffer_view() == old(self).buffer_view(),
            final(self).total_size() == old(self).total_size(),
            final(self).fed() == old(self).fed() + old(self).buffer_view().subrange(0, n as int),
            final(self).processed() == old(self).processed() + n,
            final(self).printed() == (old(self).printed() || emits_notice(old(self).printed(), old(self).total_size() is Some, n as nat, elapsed_nanos as nat)),
            n == 0 <==> r is Done,
            emits_notice(old(self).printed(), old(self).total_size() is Some, n as nat, elapsed_nanos as nat) <==> r is Progress,
            r matches Step::Progress(e) ==> eta_states(
                e,
                eta_nanos(
                    remaining(old(self).total_size(), final(self).processed()),
                    elapsed_nanos as nat,
                    final(self).processed(),
                ),
            ),
    {
        if n == 0 {
            return Step::Done;
        }
        let chunk = vstd::slice::slice_subrange(self.buffer.as_slice(), 0, n);
        self.acc.consume(chunk);
        self.processed = self.processed + n as u64;
        if self.printed || elapsed_nanos <= PROGRESS_THRESHOLD_NANOS {
            return Step::Continue;
        }
        match self.total_size {
            Some(t) => {
                self.printed = true;
                let left: u64 = if t >= self.processed { t - self.processed } else { 0 };
                Step::Progress(estimate(left, elapsed_nanos, self.processed))
            },
            None => Step::Continue,
        }
    }

    /// Ends the task with the digest of every byte fed.
    pub fn finish(self) -> (r: Digest)
        ensures
            r.bytes@ == md5_of(self.fed()),
    {
        self.acc.finalize()
    }
}

/// The number of estimates emitted over `events`, each a read of `.0` bytes
/// at `.1` nanoseconds of run time, starting with the flag `printed`.
pub open spec fn notices(printed: bool, sized: bool, events: Seq<(nat, nat)>) -> nat
    decreases events.len(),
{
    if events.len() == 0 {
        0
    } else {
        let emits = emits_notice(printed, sized, events[0].0, events[0].1);
        (if emits { 1nat } else { 0nat }) + notices(printed || emits, sized, events.drop_first())
    }
}

/// A task emits at most one estimate over any run of reads, and none once
/// it has emitted one.
pub proof fn lemma_at_most_one_notice(printed: bool, sized: bool, events: Seq<(nat, nat)>)
    ensures
        notices(printed, sized, events) <= 1,
        printed ==> notices(printed, sized, events) == 0,
    decreases events.len(),
{
    if events.len() > 0 {
        let emits = emits_notice(printed, sized, events[0].0, events[0].1);
        lemma_at_most_one_notice(printed || emits, sized, events.drop_first());
    }
}

/// A run whose reads all come within the threshold emits no estimate.
pub proof fn lemma_no_notice_within_threshold(printed: bool, sized: bool, events: Seq<(nat, nat)>)
    requires
        forall|k: int| 0 <= k < events.len() ==> #[trigger] events[k].1 <= PROGRESS_THRESHOLD_NANOS,
    ensures
        notices(printed, sized, events) == 0,
    decreases events.len(),
{
    if events.len() > 0 {
        assert(events[0].1 <= PROGRESS_THRESHOLD_NANOS);
        let rest = events.drop_first();
        assert forall|k: int| 0 <= k < rest.len() implies #[trigger] rest[k].1 <= PROGRESS_THRESHOLD_NANOS by {
            assert(rest[k] == events[k + 1]);
        }
        lemma_no_notice_within_threshold(printed, sized, rest);
    }
}

} // verus!
