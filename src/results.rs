//! Collection of per-file outcomes in input order.
//!
//! Workers finish in any order. Each reports its outcome together with the
//! index of its job in the input list, and the result set keeps it in that
//! slot, so the final list follows the input order and one job's failure
//! leaves the other slots alone.
use vstd::prelude::*;
use crate::digest::Digest;

verus! {

/// Why a file could not be hashed. The text is the operating system's cause.
#[derive(Debug)]
pub enum HashError {
    /// The file could not be opened.
    Open(String),
    /// Reading failed after the file was opened.
    Read(String),
}

/// The outcome of one job.
pub type Outcome = Result<Digest, HashError>;

/// `slots` after recording each `(index, outcome)` of `records`, first to last.
pub open spec fn apply_records(slots: Seq<Option<Outcome>>, records: Seq<(int, Outcome)>) -> Seq<Option<Outcome>>
    decreases records.len(),
{
    if records.len() == 0 {
        slots
    } else {
        apply_records(slots, records.drop_last()).update(records.last().0, Some(records.last().1))
    }
}

/// Whether the records name distinct jobs among the first `n`.
pub open spec fn distinct_jobs(records: Seq<(int, Outcome)>, n: nat) -> bool {
    &&& forall|k: int| 0 <= k < records.len() ==> 0 <= #[trigger] records[k].0 < n
    &&& forall|j: int, k: int|
        0 <= j < records.len() && 0 <= k < records.len() && j != k
            ==> #[trigger] records[j].0 != #[trigger] records[k].0
}

/// The outcomes of a run, one slot per input file, filled as jobs complete.
pub struct ResultSet {
    slots: Vec<Option<Outcome>>,
}

impl View for ResultSet {
    type V = Seq<Option<Outcome>>;

    closed spec fn view(&self) -> Seq<Option<Outcome>> {
        self.slots@
    }
}

impl ResultSet {
    /// A result set for `n` jobs, none of them complete.
    pub fn new(n: usize) -> (r: ResultSet)
        ensures
            r@ == Seq::new(n as nat, |i: int| None::<Outcome>),
    {
        let mut slots: Vec<Option<Outcome>> = Vec::new();
        let mut i: usize = 0;
        while i < n
            invariant
                i <= n,
                slots@ == Seq::new(i as nat, |k: int| None::<Outcome>),
            decreases n - i,
        {
            slots.push(None);
            i = i + 1;
        }
        ResultSet { slots }
    }

    /// The number of jobs.
    pub fn len(&self) -> (r: usize)
        ensures
            r == self@.len(),
    {
        self.slots.len()
    }

    /// Records the outcome of job `index`; the other jobs' slots are kept.
    pub fn record(&mut self, index: usize, outcome: Outcome)
        requires
            index < old(self)@.len(),
        ensures
            final(self)@ == old(self)@.update(index as int, Some(outcome)),
    {
        self.slots.set(index, Some(outcome));
    }

    /// Whether every job has an outcome.
    pub fn is_complete(&self) -> (r: bool)
        ensures
            r == forall|i: int| 0 <= i < self@.len() ==> #[trigger] self@[i] is Some,
    {
        let mut i: usize = 0;
        while i < self.slots.len()
            invariant
                i <= self@.len(),
                forall|k: int| 0 <= k < i ==> #[trigger] self@[k] is Some,
            decreases self@.len() - i,
        {
            if self.slots[i].is_none() {
                return false;
            }
            i = i + 1;
        }
        true
    }

    /// The outcomes in input order.
    pub fn into_ordered(self) -> (r: Vec<Outcome>)
        requires
            forall|i: int| 0 <= i < self@.len() ==> #[trigger] self@[i] is Some,
        ensures
            r@.len() == self@.len(),
            forall|i: int| 0 <= i < r@.len() ==> Some(#[trigger] r@[i]) == self@[i],
    {
        let mut rest = self.slots;
        let mut out: Vec<Outcome> = Vec::new();
        while rest.len() > 0
            invariant
                out@.len() + rest@.len() == self@.len(),
                forall|i: int| 0 <= i < self@.len() ==> #[trigger] self@[i] is Some,
                forall|i: int| 0 <= i < out@.len() ==> Some(#[trigger] out@[i]) == self@[i],
                forall|i: int| 0 <= i < rest@.len() ==> #[trigger] rest@[i] == self@[out@.len() + i],
            decreases rest@.len(),
        {
            let slot = rest.remove(0);
            assert(slot == self@[out@.len() as int]);
            match slot {
                Some(o) => out.push(o),
                None => {},
            }
        }
        out
    }
}

/// Whether any job failed.
pub fn any_failed(outcomes: &Vec<Outcome>) -> (r: bool)
    ensures
        r == exists|i: int| 0 <= i < outcomes@.len() && #[trigger] outcomes@[i] is Err,
{
    let mut i: usize = 0;
    while i < outcomes.len()
        invariant
            i <= outcomes@.len(),
            forall|k: int| 0 <= k < i ==> !(#[trigger] outcomes@[k] is Err),
        decreases outcomes@.len() - i,
    {
        if outcomes[i].is_err() {
            return true;
        }
        i = i + 1;
    }
    false
}

/// Recording results in any completion order gives each job its own
/// outcome: wherever a record falls in the order, its job's slot ends up
/// holding its outcome, and jobs with no record keep their slot.
pub proof fn lemma_completion_order_irrelevant(slots: Seq<Option<Outcome>>, records: Seq<(int, Outcome)>)
    requires
        distinct_jobs(records, slots.len()),
    ensures
        apply_records(slots, records).len() == slots.len(),
        forall|k: int| 0 <= k < records.len()
            ==> apply_records(slots, records)[#[trigger] records[k].0] == Some(records[k].1),
        forall|i: int| 0 <= i < slots.len() && (forall|k: int| 0 <= k < records.len() ==> #[trigger] records[k].0 != i)
            ==> apply_records(slots, records)[i] == slots[i],
    decreases records.len(),
{
    if records.len() > 0 {
        let init = records.drop_last();
        assert forall|j: int, k: int|
            0 <= j < init.len() && 0 <= k < init.len() && j != k implies #[trigger] init[j].0 != #[trigger] init[k].0 by {
            assert(init[j] == records[j] && init[k] == records[k]);
        }
        assert forall|k: int| 0 <= k < init.len() implies 0 <= #[trigger] init[k].0 < slots.len() by {
            assert(init[k] == records[k]);
        }
        lemma_completion_order_irrelevant(slots, init);
        let last = records.len() - 1;
        assert forall|k: int| 0 <= k < records.len()
            implies apply_records(slots, records)[#[trigger] records[k].0] == Some(records[k].1) by {
            if k < last {
                assert(init[k] == records[k]);
                assert(records[k].0 != records[last].0);
            }
        }
        assert forall|i: int| 0 <= i < slots.len() && (forall|k: int| 0 <= k < records.len() ==> #[trigger] records[k].0 != i)
            implies apply_records(slots, records)[i] == slots[i] by {
            assert(records[last].0 != i);
            assert forall|k: int| 0 <= k < init.len() implies #[trigger] init[k].0 != i by {
                assert(init[k] == records[k]);
            }
        }
    }
}

} // verus!
