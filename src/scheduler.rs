//! Bounded-concurrency scheduling of uploads.
//!
//! Items are submitted as they arrive; the caller asks for the next upload to
//! start, runs it, and reports its result with the ticket it was given. At
//! most `max_concurrency` uploads are outstanding at any time, a failed upload
//! never stops the others, and every submitted item ends with exactly one
//! outcome.
use vstd::prelude::*;

use crate::error::{UploadError, UploadErrorKind};
use crate::item::Item;
use crate::outcome::{
    aggregate, failed_item_of, failed_of, failed_tickets_of, handle_of, handles_of, lemma_split_sizes,
    lemma_split_sources, provenance_of, BatchResult, Completion, UploadOutcome,
};
use crate::text::same_text;

verus! {

/// The state of an upload batch.
pub ghost struct SchedulerView {
    pub max_concurrency: nat,
    /// Every item submitted so far; an item's ticket is its position here.
    pub submitted: Seq<Item>,
    /// The tickets below this one have been handed out for upload.
    pub dispatched: nat,
    /// Whether the input has ended.
    pub closed: bool,
    /// The outcomes received so far, in arrival order.
    pub completions: Seq<Completion>,
}

/// Whether ticket `t` has an outcome among `cs`.
pub open spec fn is_completed(cs: Seq<Completion>, t: nat) -> bool {
    exists|i: int| 0 <= i < cs.len() && #[trigger] cs[i].ticket as nat == t
}

/// A successful outcome whose handle reads `h` is among `cs`.
pub open spec fn handle_taken(cs: Seq<Completion>, h: Seq<char>) -> bool {
    exists|i: int|
        0 <= i < cs.len() && (#[trigger] handle_of(cs[i].outcome)).is_some() && handle_of(
            cs[i].outcome,
        ).unwrap()@ == h
}

/// The number of uploads handed out and not yet answered.
pub open spec fn in_flight_count(v: SchedulerView) -> int {
    v.dispatched - v.completions.len()
}

/// The tickets handed out and not yet answered.
pub open spec fn in_flight_tickets(v: SchedulerView) -> Set<nat> {
    Set::new(|t: nat| t < v.dispatched && !is_completed(v.completions, t))
}

/// The state before any item arrives.
pub open spec fn initial_batch(max_concurrency: nat) -> SchedulerView {
    SchedulerView {
        max_concurrency,
        submitted: Seq::empty(),
        dispatched: 0,
        closed: false,
        completions: Seq::empty(),
    }
}

/// The invariant of an upload batch.
pub open spec fn batch_wf(v: SchedulerView) -> bool {
    let cs = v.completions;
    &&& v.max_concurrency >= 1
    &&& v.dispatched <= v.submitted.len()
    &&& cs.len() <= v.dispatched
    &&& in_flight_count(v) <= v.max_concurrency
    &&& forall|i: int| 0 <= i < cs.len() ==> (#[trigger] cs[i]).ticket < v.dispatched
    &&& forall|i: int, j: int|
        0 <= i < cs.len() && 0 <= j < cs.len() && i != j ==> (#[trigger] cs[i]).ticket != (
        #[trigger] cs[j]).ticket
    &&& forall|i: int|
        0 <= i < cs.len() ==> match (#[trigger] cs[i]).outcome {
            UploadOutcome::Failure { item, .. } => item == v.submitted[cs[i].ticket as int],
            UploadOutcome::Success { .. } => true,
        }
    &&& forall|i: int, j: int|
        0 <= i < cs.len() && 0 <= j < cs.len() && i != j && (#[trigger] handle_of(
            cs[i].outcome,
        )).is_some() && (#[trigger] handle_of(cs[j].outcome)).is_some() ==> handle_of(
            cs[i].outcome,
        ).unwrap()@ != handle_of(cs[j].outcome).unwrap()@
}

/// Whether the batch is over: input ended, every item handed out and answered.
pub open spec fn batch_finished(v: SchedulerView) -> bool {
    &&& v.closed
    &&& v.dispatched == v.submitted.len()
    &&& in_flight_count(v) == 0
}

/// `c` is the record of ticket `t`, of item `item`, answered with `result`
/// when the outcomes before it were `cs`. A handle that an earlier success
/// already holds makes the upload a failure of kind `Duplicate`.
pub open spec fn records(
    c: Completion,
    t: nat,
    item: Item,
    result: Result<String, UploadError>,
    cs: Seq<Completion>,
) -> bool {
    &&& c.ticket == t
    &&& match result {
        Ok(h) => if handle_taken(cs, h@) {
            match c.outcome {
                UploadOutcome::Failure { item: i, cause } => i == item && cause.kind
                    == UploadErrorKind::Duplicate,
                UploadOutcome::Success { .. } => false,
            }
        } else {
            c.outcome == UploadOutcome::Success { handle: h }
        },
        Err(e) => c.outcome == UploadOutcome::Failure { item, cause: e },
    }
}

/// A batch of uploads under a concurrency ceiling.
pub struct UploadScheduler {
    max_concurrency: usize,
    submitted: Vec<Item>,
    done: Vec<bool>,
    dispatched: usize,
    in_flight: usize,
    closed: bool,
    completions: Vec<Completion>,
}

impl View for UploadScheduler {
    type V = SchedulerView;

    closed spec fn view(&self) -> SchedulerView {
        SchedulerView {
            max_concurrency: self.max_concurrency as nat,
            submitted: self.submitted@,
            dispatched: self.dispatched as nat,
            closed: self.closed,
            completions: self.completions@,
        }
    }
}

impl UploadScheduler {
    /// The invariant of the batch, and the bookkeeping behind it.
    pub closed spec fn wf(&self) -> bool {
        &&& batch_wf(self@)
        &&& self.done@.len() == self.submitted@.len()
        &&& forall|t: int|
            0 <= t < self.done@.len() ==> (#[trigger] self.done@[t] <==> is_completed(
                self.completions@,
                t as nat,
            ))
        &&& self.in_flight == in_flight_count(self@)
    }

    /// An empty batch that runs at most `max_concurrency` uploads at once.
    pub fn new(max_concurrency: usize) -> (r: UploadScheduler)
        requires
            max_concurrency >= 1,
        ensures
            r.wf(),
            r@ == initial_batch(max_concurrency as nat),
    {
        UploadScheduler {
            max_concurrency,
            submitted: Vec::new(),
            done: Vec::new(),
            dispatched: 0,
            in_flight: 0,
            closed: false,
            completions: Vec::new(),
        }
    }

    /// Adds an item to the batch; refused once the input has ended.
    pub fn submit(&mut self, item: Item) -> (accepted: bool)
        requires
            old(self).wf(),
        ensures
            final(self).wf(),
            accepted == !old(self)@.closed,
            accepted ==> final(self)@ == (SchedulerView {
                submitted: old(self)@.submitted.push(item),
                ..old(self)@
            }),
            !accepted ==> final(self)@ == old(self)@,
    {
        if self.closed {
            return false;
        }
        self.submitted.push(item);
        self.done.push(false);
        proof {
            let n = self.done@.len() - 1;
            assert(!is_completed(self.completions@, n as nat));
        }
        true
    }

    /// Marks the end of the input.
    pub fn close(&mut self)
        requires
            old(self).wf(),
        ensures
            final(self).wf(),
            final(self)@ == (SchedulerView { closed: true, ..old(self)@ }),
    {
        self.closed = true;
    }

    /// The next upload to start, with its ticket: the oldest item not yet
    /// handed out, if any is waiting and fewer than `max_concurrency` uploads
    /// are outstanding. Failures of earlier uploads play no part.
    pub fn next_dispatch(&mut self) -> (r: Option<(usize, Item)>)
        requires
            old(self).wf(),
        ensures
            final(self).wf(),
            r.is_some() <==> (in_flight_count(old(self)@) < old(self)@.max_concurrency
                && old(self)@.dispatched < old(self)@.submitted.len()),
            r.is_some() ==> {
                &&& r.unwrap().0 == old(self)@.dispatched
                &&& r.unwrap().1 == old(self)@.submitted[r.unwrap().0 as int]
                &&& final(self)@ == (SchedulerView {
                    dispatched: old(self)@.dispatched + 1,
                    ..old(self)@
                })
            },
            r.is_none() ==> final(self)@ == old(self)@,
    {
        if self.in_flight >= self.max_concurrency || self.dispatched >= self.submitted.len() {
            return None;
        }
        let t = self.dispatched;
        let item = self.submitted[t].duplicate();
        self.dispatched = t + 1;
        self.in_flight = self.in_flight + 1;
        proof {
            let v = self@;
            let cs = v.completions;
            assert forall|i: int| 0 <= i < cs.len() implies (#[trigger] cs[i]).ticket
                < v.dispatched by {}
        }
        Some((t, item))
    }

    /// Whether some earlier success holds a handle that reads like `h`.
    fn handle_seen(&self, h: &String) -> (r: bool)
        ensures
            r == handle_taken(self@.completions, h@),
    {
        let mut i: usize = 0;
        while i < self.completions.len()
            invariant
                i <= self.completions@.len(),
                forall|j: int|
                    0 <= j < i ==> !((#[trigger] handle_of(
                        self.completions@[j].outcome,
                    )).is_some() && handle_of(self.completions@[j].outcome).unwrap()@ == h@),
            decreases self.completions@.len() - i,
        {
            match &self.completions[i].outcome {
                UploadOutcome::Success { handle } => {
                    assert(handle_of(self.completions@[i as int].outcome) == Some(*handle));
                    if same_text(handle.as_str(), h.as_str()) {
                        return true;
                    }
                },
                UploadOutcome::Failure { .. } => {
                    assert(handle_of(self.completions@[i as int].outcome).is_none());
                },
            }
            i += 1;
        }
        false
    }

    /// Records the result of the upload with ticket `ticket`. A ticket that
    /// was not handed out, or that already has its outcome, is refused and
    /// leaves the batch as it was. Nothing else changes: other uploads go on
    /// whatever this one's result.
    pub fn complete(&mut self, ticket: usize, result: Result<String, UploadError>) -> (accepted:
        bool)
        requires
            old(self).wf(),
        ensures
            final(self).wf(),
            accepted <==> (ticket < old(self)@.dispatched && !is_completed(
                old(self)@.completions,
                ticket as nat,
            )),
            accepted ==> {
                &&& final(self)@.completions.len() == old(self)@.completions.len() + 1
                &&& final(self)@.completions.drop_last() == old(self)@.completions
                &&& records(
                    final(self)@.completions.last(),
                    ticket as nat,
                    old(self)@.submitted[ticket as int],
                    result,
                    old(self)@.completions,
                )
                &&& final(self)@ == (SchedulerView {
                    completions: final(self)@.completions,
                    ..old(self)@
                })
            },
            !accepted ==> final(self)@ == old(self)@,
    {
        if ticket >= self.dispatched || self.done[ticket] {
            return false;
        }
        let ghost old_v = self@;
        proof {
            lemma_concurrency_bound(old_v);
            assert(in_flight_tickets(old_v).contains(ticket as nat));
            if in_flight_tickets(old_v).len() == 0 {
                assert(in_flight_tickets(old_v) =~= Set::empty());
            }
        }
        let item = self.submitted[ticket].duplicate();
        let outcome = match result {
            Ok(h) => {
                if self.handle_seen(&h) {
                    UploadOutcome::Failure {
                        item,
                        cause: UploadError {
                            kind: UploadErrorKind::Duplicate,
                            reason: String::from_str("handle already taken by another item"),
                        },
                    }
                } else {
                    UploadOutcome::Success { handle: h }
                }
            },
            Err(e) => UploadOutcome::Failure { item, cause: e },
        };
        let c = Completion { ticket, outcome };
        self.completions.push(c);
        self.done.set(ticket, true);
        self.in_flight = self.in_flight - 1;
        proof {
            let cs = self.completions@;
            let n = cs.len() - 1;
            assert(cs.drop_last() == old_v.completions);
            assert(cs[n as int].ticket == ticket);
            assert forall|t: int| 0 <= t < self.done@.len() implies (#[trigger] self.done@[t]
                <==> is_completed(cs, t as nat)) by {
                if is_completed(old_v.completions, t as nat) {
                    let i = choose|i: int|
                        0 <= i < old_v.completions.len() && #[trigger] old_v.completions[i].ticket
                            as nat == t as nat;
                    assert(cs[i] == old_v.completions[i]);
                }
                if t != ticket && is_completed(cs, t as nat) {
                    let i = choose|i: int| 0 <= i < cs.len() && #[trigger] cs[i].ticket as nat == t as nat;
                    assert(i != n);
                    assert(cs[i] == old_v.completions[i]);
                }
                if t == ticket {
                    assert(cs[n as int].ticket as nat == t as nat);
                }
            }
            assert forall|i: int, j: int|
                0 <= i < cs.len() && 0 <= j < cs.len() && i != j implies (#[trigger] cs[i]).ticket
                != (#[trigger] cs[j]).ticket by {
                if i == n {
                    assert(cs[j] == old_v.completions[j]);
                } else if j == n {
                    assert(cs[i] == old_v.completions[i]);
                } else {
                    assert(cs[i] == old_v.completions[i]);
                    assert(cs[j] == old_v.completions[j]);
                }
            }
            assert forall|i: int, j: int|
                0 <= i < cs.len() && 0 <= j < cs.len() && i != j && (#[trigger] handle_of(
                    cs[i].outcome,
                )).is_some() && (#[trigger] handle_of(
                    cs[j].outcome,
                )).is_some() implies handle_of(cs[i].outcome).unwrap()@ != handle_of(
                cs[j].outcome,
            ).unwrap()@ by {
                if i != n {
                    assert(cs[i] == old_v.completions[i]);
                }
                if j != n {
                    assert(cs[j] == old_v.completions[j]);
                }
            }
            assert forall|i: int| 0 <= i < cs.len() implies (#[trigger] cs[i]).ticket
                < self@.dispatched by {
                if i != n {
                    assert(cs[i] == old_v.completions[i]);
                }
            }
            assert forall|i: int|
                0 <= i < cs.len() implies match (#[trigger] cs[i]).outcome {
                UploadOutcome::Failure { item, .. } => item == self@.submitted[cs[i].ticket as int],
                UploadOutcome::Success { .. } => true,
            } by {
                if i != n {
                    assert(cs[i] == old_v.completions[i]);
                }
            }
        }
        true
    }

    /// The number of uploads handed out and not yet answered.
    pub fn in_flight(&self) -> (r: usize)
        requires
            self.wf(),
        ensures
            r == in_flight_count(self@),
            r <= self@.max_concurrency,
    {
        self.in_flight
    }

    /// Whether the input has ended and every item has its outcome.
    pub fn is_finished(&self) -> (r: bool)
        requires
            self.wf(),
        ensures
            r == batch_finished(self@),
    {
        self.closed && self.dispatched == self.submitted.len() && self.in_flight == 0
    }

    /// The outcomes so far, split into successes and failures.
    pub fn result(&self) -> (r: BatchResult)
        ensures
            r.succeeded@ == handles_of(self@.completions),
            r.failed@ == failed_of(self@.completions),
    {
        aggregate(&self.completions)
    }
}

/// At every point of a batch, the uploads handed out and not yet answered
/// are exactly `in_flight_count` many, and never more than `max_concurrency`.
pub proof fn lemma_concurrency_bound(v: SchedulerView)
    requires
        batch_wf(v),
    ensures
        in_flight_tickets(v).finite(),
        in_flight_tickets(v).len() == in_flight_count(v),
        in_flight_tickets(v).len() <= v.max_concurrency,
{
    let cs = v.completions;
    let ts = cs.map_values(|c: Completion| c.ticket as nat);
    assert(ts.no_duplicates()) by {
        assert forall|i: int, j: int| 0 <= i < ts.len() && 0 <= j < ts.len() && i != j implies ts[i]
            != ts[j] by {
            assert(cs[i].ticket != cs[j].ticket);
        }
    }
    ts.unique_seq_to_set();
    let tset = ts.to_set();
    let r = Set::<nat>::range(0, v.dispatched);
    <nat as vstd::set_lib::FiniteRange>::range_properties(0, v.dispatched);
    assert(tset.subset_of(r)) by {
        assert forall|t: nat| tset.contains(t) implies r.contains(t) by {
            let i = choose|i: int| 0 <= i < ts.len() && ts[i] == t;
            assert(cs[i].ticket < v.dispatched);
        }
    }
    vstd::set_lib::lemma_len_subset(tset, r);
    assert(r.intersect(tset) =~= tset);
    vstd::set_lib::lemma_set_difference_len(r, tset);
    assert(in_flight_tickets(v) =~= r.difference(tset)) by {
        assert forall|t: nat| #![trigger in_flight_tickets(v).contains(t)]
            in_flight_tickets(v).contains(t) <==> r.difference(tset).contains(t) by {
            if is_completed(cs, t) {
                let i = choose|i: int| 0 <= i < cs.len() && #[trigger] cs[i].ticket as nat == t;
                assert(ts[i] == t);
            }
            if tset.contains(t) {
                let i = choose|i: int| 0 <= i < ts.len() && ts[i] == t;
                assert(cs[i].ticket as nat == t);
            }
        }
    }
}

/// Once a batch is finished, every submitted item has exactly one outcome:
/// the successes and the failures together number the submitted items, and
/// each ticket is among the outcomes.
pub proof fn lemma_completeness(v: SchedulerView)
    requires
        batch_wf(v),
        batch_finished(v),
    ensures
        handles_of(v.completions).len() + failed_of(v.completions).len() == v.submitted.len(),
        forall|t: nat| t < v.submitted.len() ==> #[trigger] is_completed(v.completions, t),
{
    lemma_split_sizes(v.completions);
    lemma_concurrency_bound(v);
    assert forall|t: nat| t < v.submitted.len() implies #[trigger] is_completed(
        v.completions,
        t,
    ) by {
        if !is_completed(v.completions, t) {
            assert(in_flight_tickets(v).contains(t));
            assert(in_flight_tickets(v) =~= Set::empty());
        }
    }
}

/// No handle is among the successes twice, and no ticket (so no item) is
/// both among the sources of the successes and among the failures; when the
/// submitted items have distinct keys, no key is on both sides either.
pub proof fn lemma_no_duplication(v: SchedulerView)
    requires
        batch_wf(v),
    ensures
        forall|k: int, l: int|
            0 <= k < l < handles_of(v.completions).len() ==> (#[trigger] handles_of(
                v.completions,
            )[k])@ != (#[trigger] handles_of(v.completions)[l])@,
        forall|k: int, j: int|
            0 <= k < provenance_of(v.completions).len() && 0 <= j < failed_tickets_of(
                v.completions,
            ).len() ==> #[trigger] provenance_of(v.completions)[k] != #[trigger] failed_tickets_of(
                v.completions,
            )[j],
        (forall|a: int, b: int|
            0 <= a < v.submitted.len() && 0 <= b < v.submitted.len() && a != b ==> (
            #[trigger] v.submitted[a]).key@ != (#[trigger] v.submitted[b]).key@) ==> forall|
            k: int,
            j: int,
        |
            0 <= k < provenance_of(v.completions).len() && 0 <= j < failed_of(
                v.completions,
            ).len() ==> (#[trigger] v.submitted[provenance_of(v.completions)[k] as int]).key@
                != (#[trigger] failed_of(v.completions)[j]).key@,
{
    let cs = v.completions;
    lemma_split_sizes(cs);
    lemma_split_sources(cs);
    assert forall|k: int, l: int|
        0 <= k < l < handles_of(cs).len() implies (#[trigger] handles_of(cs)[k])@ != (
    #[trigger] handles_of(cs)[l])@ by {
        let (i, j) = choose|i: int, j: int|
            0 <= i < j < cs.len() && handle_of(cs[i].outcome) == Some(handles_of(cs)[k])
                && handle_of(cs[j].outcome) == Some(handles_of(cs)[l]);
        assert(handle_of(cs[i].outcome).is_some() && handle_of(cs[j].outcome).is_some());
    }
    assert forall|k: int, j: int|
        0 <= k < provenance_of(cs).len() && 0 <= j < failed_tickets_of(
            cs,
        ).len() implies #[trigger] provenance_of(cs)[k] != #[trigger] failed_tickets_of(cs)[j] by {
        assert(handles_of(cs)[k] == handles_of(cs)[k]);
        assert(failed_of(cs)[j] == failed_of(cs)[j]);
        let i = choose|i: int|
            0 <= i < cs.len() && handle_of(cs[i].outcome) == Some(handles_of(cs)[k])
                && provenance_of(cs)[k] == cs[i].ticket as nat;
        let i2 = choose|i2: int|
            0 <= i2 < cs.len() && failed_item_of(cs[i2].outcome) == Some(failed_of(cs)[j])
                && failed_tickets_of(cs)[j] == cs[i2].ticket as nat;
        assert(i != i2);
        assert(cs[i].ticket != cs[i2].ticket);
    }
    if forall|a: int, b: int|
        0 <= a < v.submitted.len() && 0 <= b < v.submitted.len() && a != b ==> (
        #[trigger] v.submitted[a]).key@ != (#[trigger] v.submitted[b]).key@ {
        assert forall|k: int, j: int|
            0 <= k < provenance_of(cs).len() && 0 <= j < failed_of(
                cs,
            ).len() implies (#[trigger] v.submitted[provenance_of(cs)[k] as int]).key@ != (
        #[trigger] failed_of(cs)[j]).key@ by {
            assert(handles_of(cs)[k] == handles_of(cs)[k]);
            assert(failed_of(cs)[j] == failed_of(cs)[j]);
            let i = choose|i: int|
                0 <= i < cs.len() && handle_of(cs[i].outcome) == Some(handles_of(cs)[k])
                    && provenance_of(cs)[k] == cs[i].ticket as nat;
            let i2 = choose|i2: int|
                0 <= i2 < cs.len() && failed_item_of(cs[i2].outcome) == Some(failed_of(cs)[j])
                    && failed_tickets_of(cs)[j] == cs[i2].ticket as nat;
            assert(i != i2);
            assert(cs[i].ticket != cs[i2].ticket);
            assert(cs[i].ticket < v.dispatched);
            assert(cs[i2].ticket < v.dispatched);
            assert(failed_of(cs)[j] == v.submitted[cs[i2].ticket as int]);
        }
    }
}

/// Outcomes without a failure leave no failed item.
proof fn lemma_no_failures(cs: Seq<Completion>)
    requires
        forall|i: int| 0 <= i < cs.len() ==> (#[trigger] failed_item_of(cs[i].outcome)).is_none(),
    ensures
        failed_of(cs).len() == 0,
    decreases cs.len(),
{
    if cs.len() > 0 {
        let rest = cs.drop_last();
        assert forall|i: int| 0 <= i < rest.len() implies (#[trigger] failed_item_of(
            rest[i].outcome,
        )).is_none() by {
            assert(rest[i] == cs[i]);
        }
        assert(failed_item_of(cs[cs.len() - 1].outcome).is_none());
        lemma_no_failures(rest);
    }
}

/// With distinct tickets, when the outcomes that failed are exactly those of
/// ticket `k`, and ticket `k` has an outcome, that one failure is the only
/// failed item.
proof fn lemma_single_failure(cs: Seq<Completion>, k: nat)
    requires
        forall|i: int, j: int|
            0 <= i < cs.len() && 0 <= j < cs.len() && i != j ==> (#[trigger] cs[i]).ticket != (
            #[trigger] cs[j]).ticket,
        forall|i: int|
            0 <= i < cs.len() ==> ((#[trigger] failed_item_of(cs[i].outcome)).is_some() <==> cs[i].ticket
                == k),
        is_completed(cs, k),
    ensures
        exists|i: int|
            0 <= i < cs.len() && #[trigger] cs[i].ticket == k && failed_of(cs) == seq![
                failed_item_of(cs[i].outcome).unwrap(),
            ],
    decreases cs.len(),
{
    let n = cs.len() - 1;
    let rest = cs.drop_last();
    assert forall|i: int, j: int|
        0 <= i < rest.len() && 0 <= j < rest.len() && i != j implies (#[trigger] rest[i]).ticket
        != (#[trigger] rest[j]).ticket by {
        assert(rest[i] == cs[i] && rest[j] == cs[j]);
    }
    assert forall|i: int| 0 <= i < rest.len() implies ((#[trigger] failed_item_of(
        rest[i].outcome,
    )).is_some() <==> rest[i].ticket == k) by {
        assert(rest[i] == cs[i]);
    }
    if cs[n].ticket == k {
        assert forall|i: int| 0 <= i < rest.len() implies (#[trigger] failed_item_of(
            rest[i].outcome,
        )).is_none() by {
            assert(rest[i] == cs[i]);
            assert(cs[i].ticket != cs[n].ticket);
        }
        lemma_no_failures(rest);
        assert(failed_of(cs) == seq![failed_item_of(cs[n].outcome).unwrap()]);
    } else {
        let i = choose|i: int| 0 <= i < cs.len() && #[trigger] cs[i].ticket as nat == k;
        assert(i != n);
        assert(rest[i] == cs[i]);
        assert(is_completed(rest, k));
        lemma_single_failure(rest, k);
        let i2 = choose|i2: int|
            0 <= i2 < rest.len() && #[trigger] rest[i2].ticket == k && failed_of(rest) == seq![
                failed_item_of(rest[i2].outcome).unwrap(),
            ];
        assert(cs[i2] == rest[i2]);
        assert(failed_of(cs) == failed_of(rest));
    }
}

/// When the upload of ticket `k` fails and every other upload succeeds, the
/// finished batch holds the handles of all `M - 1` other items and the one
/// failed item: a failure stops nothing else.
pub proof fn lemma_failure_isolation(v: SchedulerView, k: nat)
    requires
        batch_wf(v),
        batch_finished(v),
        k < v.submitted.len(),
        forall|i: int|
            0 <= i < v.completions.len() ==> ((#[trigger] failed_item_of(
                v.completions[i].outcome,
            )).is_some() <==> v.completions[i].ticket == k),
    ensures
        handles_of(v.completions).len() == v.submitted.len() - 1,
        failed_of(v.completions) == seq![v.submitted[k as int]],
{
    let cs = v.completions;
    lemma_completeness(v);
    assert(is_completed(cs, k));
    lemma_single_failure(cs, k);
    let i = choose|i: int|
        0 <= i < cs.len() && #[trigger] cs[i].ticket == k && failed_of(cs) == seq![
            failed_item_of(cs[i].outcome).unwrap(),
        ];
    assert(cs[i] == cs[i]);
}

} // verus!
