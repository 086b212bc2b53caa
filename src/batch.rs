//! Bounded-concurrency batch scheduling with order-preserving results.
//!
//! Workers ask the scheduler for the next item, process it, and hand back its
//! record under the item's index. At most `limit` items are out at any time,
//! and the finished batch lists the records in input order.
use vstd::prelude::*;
use crate::record::PhotoProcessingResult;
use crate::MAX_CONCURRENT;

verus! {

/// Relies on `num_cpus::get`: the number of logical CPUs available to the
/// process, documented to be at least 1.
#[verifier::external_body]
fn hardware_parallelism() -> (r: usize)
    ensures
        r >= 1,
{
    num_cpus::get()
}

pub open spec fn spec_pool_size(hardware: usize) -> usize {
    if hardware == 0 {
        1
    } else if hardware < MAX_CONCURRENT {
        hardware
    } else {
        MAX_CONCURRENT
    }
}

/// Number of heavy items processed at once: `min(hardware, MAX_CONCURRENT)`,
/// and at least 1.
pub fn pool_size_for(hardware: usize) -> (r: usize)
    ensures
        r == spec_pool_size(hardware),
        1 <= r <= MAX_CONCURRENT,
{
    if hardware == 0 {
        1
    } else if hardware < MAX_CONCURRENT {
        hardware
    } else {
        MAX_CONCURRENT
    }
}

/// Pool size for this machine.
pub fn max_concurrent() -> (r: usize)
    ensures
        1 <= r <= MAX_CONCURRENT,
        exists|hardware: usize| hardware >= 1 && r == #[trigger] spec_pool_size(hardware),
{
    let hardware = hardware_parallelism();
    let r = pool_size_for(hardware);
    assert(hardware >= 1 && r == spec_pool_size(hardware));
    r
}

/// Number of handed-out items among the first `n` whose record is missing.
pub open spec fn pending(results: Seq<Option<PhotoProcessingResult>>, n: int) -> int
    decreases n,
{
    if n <= 0 {
        0
    } else {
        pending(results, n - 1) + if results[n - 1] is None {
            1int
        } else {
            0int
        }
    }
}

proof fn lemma_pending_fill(
    before: Seq<Option<PhotoProcessingResult>>,
    after: Seq<Option<PhotoProcessingResult>>,
    i: int,
    n: int,
)
    requires
        0 <= n <= before.len(),
        after.len() == before.len(),
        0 <= i < before.len(),
        before[i] is None,
        after[i] is Some,
        forall|j: int| 0 <= j < before.len() && j != i ==> after[j] == before[j],
    ensures
        pending(after, n) == pending(before, n) - if i < n {
            1int
        } else {
            0int
        },
    decreases n,
{
    if n > 0 {
        lemma_pending_fill(before, after, i, n - 1);
    }
}

proof fn lemma_pending_positive(results: Seq<Option<PhotoProcessingResult>>, i: int, n: int)
    requires
        0 <= i < n <= results.len(),
        results[i] is None,
    ensures
        pending(results, n) >= 1,
    decreases n,
{
    lemma_pending_nonnegative(results, n - 1);
    if i < n - 1 {
        lemma_pending_positive(results, i, n - 1);
    }
}

proof fn lemma_pending_nonnegative(results: Seq<Option<PhotoProcessingResult>>, n: int)
    ensures
        pending(results, n) >= 0,
    decreases n,
{
    if n > 0 {
        lemma_pending_nonnegative(results, n - 1);
    }
}

proof fn lemma_pending_zero(results: Seq<Option<PhotoProcessingResult>>, n: int)
    requires
        0 <= n <= results.len(),
        pending(results, n) == 0,
    ensures
        forall|j: int| 0 <= j < n ==> results[j] is Some,
    decreases n,
{
    if n > 0 {
        lemma_pending_nonnegative(results, n - 1);
        lemma_pending_zero(results, n - 1);
    }
}

/// Hands out the items of a batch to at most `limit` workers at a time and
/// collects their records by index.
pub struct BatchScheduler {
    pub limit: usize,
    pub relative_paths: Vec<String>,
    /// Index of the next item to hand out.
    pub next: usize,
    /// Items handed out whose record has not come back.
    pub running: usize,
    pub results: Vec<Option<PhotoProcessingResult>>,
}

impl BatchScheduler {
    pub open spec fn total(&self) -> int {
        self.relative_paths@.len() as int
    }

    pub open spec fn inv(&self) -> bool {
        &&& 1 <= self.limit <= MAX_CONCURRENT
        &&& self.results@.len() == self.total()
        &&& self.next <= self.total()
        &&& self.running <= self.limit
        &&& self.running == pending(self.results@, self.next as int)
        &&& forall|j: int| self.next <= j < self.total() ==> (#[trigger] self.results@[j]) is None
        &&& forall|j: int|
            0 <= j < self.total() ==> (#[trigger] self.results@[j] matches Some(r) ==> r.path@
                == self.relative_paths@[j]@)
    }

    pub open spec fn finished(&self) -> bool {
        self.next == self.total() && self.running == 0
    }

    /// A scheduler for the items whose relative paths are given, with room
    /// for `pool_size_for(hardware)` items at a time.
    pub fn new(relative_paths: Vec<String>, hardware: usize) -> (s: BatchScheduler)
        ensures
            s.inv(),
            s.limit == spec_pool_size(hardware),
            s.relative_paths@ == relative_paths@,
            s.next == 0,
            s.running == 0,
    {
        let mut results: Vec<Option<PhotoProcessingResult>> = Vec::new();
        let total = relative_paths.len();
        for i in 0..total
            invariant
                results@.len() == i,
                forall|j: int| 0 <= j < i ==> (#[trigger] results@[j]) is None,
        {
            results.push(None);
        }
        BatchScheduler { limit: pool_size_for(hardware), relative_paths, next: 0, running: 0, results }
    }

    /// A scheduler sized for this machine: `min(hardware parallelism, MAX_CONCURRENT)`.
    pub fn for_this_machine(relative_paths: Vec<String>) -> (s: BatchScheduler)
        ensures
            s.inv(),
            exists|hardware: usize| hardware >= 1 && s.limit == #[trigger] spec_pool_size(hardware),
            s.relative_paths@ == relative_paths@,
            s.next == 0,
            s.running == 0,
    {
        let hardware = hardware_parallelism();
        let s = BatchScheduler::new(relative_paths, hardware);
        assert(hardware >= 1 && s.limit == spec_pool_size(hardware));
        s
    }

    /// The next item to work on, when fewer than `limit` are out and items
    /// remain; otherwise nothing changes.
    pub fn try_dispatch(&mut self) -> (r: Option<usize>)
        requires
            old(self).inv(),
        ensures
            final(self).inv(),
            final(self).limit == old(self).limit,
            final(self).relative_paths@ == old(self).relative_paths@,
            final(self).results@ == old(self).results@,
            (old(self).running < old(self).limit && old(self).next < old(self).total()) ==> r == Some(
                old(self).next,
            ) && final(self).next == old(self).next + 1 && final(self).running == old(self).running + 1,
            !(old(self).running < old(self).limit && old(self).next < old(self).total()) ==> r is None
                && final(self).next == old(self).next && final(self).running == old(self).running,
    {
        if self.running < self.limit && self.next < self.relative_paths.len() {
            let i = self.next;
            proof {
                assert(self.results@[i as int] is None);
            }
            self.next = i + 1;
            self.running = self.running + 1;
            Some(i)
        } else {
            None
        }
    }

    /// Whether item `index` is out and its record is awaited.
    pub fn is_outstanding(&self, index: usize) -> (r: bool)
        requires
            self.inv(),
        ensures
            r == (index < self.next && self.results@[index as int] is None),
    {
        index < self.next && self.results[index].is_none()
    }

    /// Store the record of item `index`. Accepted only when the item is out
    /// and the record is the one of its relative path; otherwise nothing
    /// changes.
    pub fn complete(&mut self, index: usize, record: PhotoProcessingResult) -> (accepted: bool)
        requires
            old(self).inv(),
        ensures
            final(self).inv(),
            final(self).limit == old(self).limit,
            final(self).relative_paths@ == old(self).relative_paths@,
            final(self).next == old(self).next,
            accepted == (index < old(self).next && old(self).results@[index as int] is None && record.path@
                == old(self).relative_paths@[index as int]@),
            accepted ==> final(self).results@ == old(self).results@.update(index as int, Some(record))
                && final(self).running == old(self).running - 1,
            !accepted ==> final(self).results@ == old(self).results@ && final(self).running == old(self).running,
    {
        if index >= self.next || self.results[index].is_some() {
            return false;
        }
        if record.path != self.relative_paths[index] {
            return false;
        }
        let ghost before = self.results@;
        proof {
            lemma_pending_positive(before, index as int, self.next as int);
        }
        self.results.set(index, Some(record));
        proof {
            lemma_pending_fill(before, self.results@, index as int, self.next as int);
        }
        self.running = self.running - 1;
        true
    }

    /// Whether every item has been handed out and every record has come back.
    pub fn is_finished(&self) -> (r: bool)
        requires
            self.inv(),
        ensures
            r == self.finished(),
    {
        self.next == self.relative_paths.len() && self.running == 0
    }

    /// The records of a finished batch, in input order.
    pub fn into_results(self) -> (r: Vec<PhotoProcessingResult>)
        requires
            self.inv(),
            self.finished(),
        ensures
            r@.len() == self.total(),
            forall|j: int| 0 <= j < r@.len() ==> self.results@[j] == Some(#[trigger] r@[j]),
            forall|j: int| 0 <= j < r@.len() ==> (#[trigger] r@[j]).path@ == self.relative_paths@[j]@,
    {
        proof {
            lemma_pending_zero(self.results@, self.next as int);
        }
        let ghost slots = self.results@;
        let total = self.results.len();
        let mut results = self.results;
        let mut reversed: Vec<Option<PhotoProcessingResult>> = Vec::new();
        while results.len() > 0
            invariant
                total == slots.len(),
                results@ == slots.subrange(0, results@.len() as int),
                reversed@.len() + results@.len() == total,
                forall|j: int| 0 <= j < reversed@.len() ==> #[trigger] reversed@[j] == slots[total - 1 - j],
            decreases results@.len(),
        {
            let slot = results.pop().unwrap();
            reversed.push(slot);
        }
        let mut out: Vec<PhotoProcessingResult> = Vec::new();
        while reversed.len() > 0
            invariant
                total == slots.len(),
                forall|j: int| 0 <= j < total ==> (#[trigger] slots[j]) is Some,
                reversed@.len() + out@.len() == total,
                forall|j: int| 0 <= j < reversed@.len() ==> #[trigger] reversed@[j] == slots[total - 1 - j],
                forall|j: int| 0 <= j < out@.len() ==> slots[j] == Some(#[trigger] out@[j]),
            decreases reversed@.len(),
        {
            let slot = reversed.pop().unwrap();
            match slot {
                Some(rec) => out.push(rec),
                None => {
                    assert(false);
                },
            }
        }
        out
    }
}

/// Every finished batch holds one record per input, in input order: the
/// record at position `i` is the record of the `i`-th relative path.
pub proof fn lemma_finished_batch_matches_input(s: BatchScheduler)
    requires
        s.inv(),
        s.finished(),
    ensures
        s.results@.len() == s.relative_paths@.len(),
        forall|j: int|
            0 <= j < s.total() ==> (#[trigger] s.results@[j] matches Some(r) && r.path@ == s.relative_paths@[j]@),
{
    lemma_pending_zero(s.results@, s.next as int);
}

/// At no point are more than `limit` items out, and `limit` never exceeds
/// `MAX_CONCURRENT` nor the hardware parallelism the scheduler was made for.
pub proof fn lemma_concurrency_bound(s: BatchScheduler, hardware: usize)
    requires
        s.inv(),
        s.limit == spec_pool_size(hardware),
    ensures
        s.running <= s.limit <= MAX_CONCURRENT,
        hardware >= 1 ==> s.running <= hardware,
{
}

} // verus!
