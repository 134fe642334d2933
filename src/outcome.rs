//! Upload outcomes and their split into successes and failures.
use vstd::prelude::*;

use crate::error::UploadError;
use crate::item::Item;

verus! {

/// The result of uploading one item.
#[derive(Clone, Debug)]
pub enum UploadOutcome {
    /// The item now lives on the destination service under `handle`.
    Success { handle: String },
    /// The upload of `item` failed for `cause`.
    Failure { item: Item, cause: UploadError },
}

/// An outcome together with the ticket of the upload it belongs to.
#[derive(Clone, Debug)]
pub struct Completion {
    pub ticket: usize,
    pub outcome: UploadOutcome,
}

/// The two projections of a batch of outcomes.
#[derive(Clone, Debug)]
pub struct BatchResult {
    /// Destination handles of the successful uploads, in arrival order.
    pub succeeded: Vec<String>,
    /// The items whose upload failed, in arrival order.
    pub failed: Vec<Item>,
}

/// The handle of a successful outcome.
pub open spec fn handle_of(o: UploadOutcome) -> Option<String> {
    match o {
        UploadOutcome::Success { handle } => Some(handle),
        UploadOutcome::Failure { .. } => None,
    }
}

/// The item of a failed outcome.
pub open spec fn failed_item_of(o: UploadOutcome) -> Option<Item> {
    match o {
        UploadOutcome::Success { .. } => None,
        UploadOutcome::Failure { item, .. } => Some(item),
    }
}

/// The handles of the successful outcomes of `cs`, in order.
pub open spec fn handles_of(cs: Seq<Completion>) -> Seq<String>
    decreases cs.len(),
{
    if cs.len() == 0 {
        Seq::empty()
    } else {
        let rest = handles_of(cs.drop_last());
        match handle_of(cs.last().outcome) {
            Some(h) => rest.push(h),
            None => rest,
        }
    }
}

/// The items of the failed outcomes of `cs`, in order.
pub open spec fn failed_of(cs: Seq<Completion>) -> Seq<Item>
    decreases cs.len(),
{
    if cs.len() == 0 {
        Seq::empty()
    } else {
        let rest = failed_of(cs.drop_last());
        match failed_item_of(cs.last().outcome) {
            Some(i) => rest.push(i),
            None => rest,
        }
    }
}

/// The tickets of the successful outcomes of `cs`, in order: where each
/// handle of `handles_of(cs)` came from.
pub open spec fn provenance_of(cs: Seq<Completion>) -> Seq<nat>
    decreases cs.len(),
{
    if cs.len() == 0 {
        Seq::empty()
    } else {
        let rest = provenance_of(cs.drop_last());
        match handle_of(cs.last().outcome) {
            Some(_) => rest.push(cs.last().ticket as nat),
            None => rest,
        }
    }
}

/// The tickets of the failed outcomes of `cs`, in order.
pub open spec fn failed_tickets_of(cs: Seq<Completion>) -> Seq<nat>
    decreases cs.len(),
{
    if cs.len() == 0 {
        Seq::empty()
    } else {
        let rest = failed_tickets_of(cs.drop_last());
        match failed_item_of(cs.last().outcome) {
            Some(_) => rest.push(cs.last().ticket as nat),
            None => rest,
        }
    }
}

/// Splits outcomes into the handles of the successes and the items of the
/// failures, each in arrival order. No outcome is lost or counted twice.
pub fn aggregate(cs: &Vec<Completion>) -> (r: BatchResult)
    ensures
        r.succeeded@ == handles_of(cs@),
        r.failed@ == failed_of(cs@),
        r.succeeded@.len() + r.failed@.len() == cs@.len(),
{
    let mut succeeded: Vec<String> = Vec::new();
    let mut failed: Vec<Item> = Vec::new();
    let mut i: usize = 0;
    while i < cs.len()
        invariant
            i <= cs@.len(),
            succeeded@ == handles_of(cs@.subrange(0, i as int)),
            failed@ == failed_of(cs@.subrange(0, i as int)),
            succeeded@.len() + failed@.len() == i,
        decreases cs@.len() - i,
    {
        assert(cs@.subrange(0, i + 1).drop_last() == cs@.subrange(0, i as int));
        match &cs[i].outcome {
            UploadOutcome::Success { handle } => succeeded.push(handle.clone()),
            UploadOutcome::Failure { item, .. } => failed.push(item.duplicate()),
        }
        i += 1;
    }
    assert(cs@.subrange(0, cs@.len() as int) == cs@);
    BatchResult { succeeded, failed }
}

/// Every outcome lands in exactly one of the two projections.
pub proof fn lemma_split_sizes(cs: Seq<Completion>)
    ensures
        handles_of(cs).len() + failed_of(cs).len() == cs.len(),
        provenance_of(cs).len() == handles_of(cs).len(),
        failed_tickets_of(cs).len() == failed_of(cs).len(),
    decreases cs.len(),
{
    if cs.len() > 0 {
        lemma_split_sizes(cs.drop_last());
    }
}

/// Each handle, ticket and failed item of the projections comes from an
/// outcome of `cs` of the matching kind, at a matching position.
pub proof fn lemma_split_sources(cs: Seq<Completion>)
    ensures
        forall|k: int|
            #![trigger handles_of(cs)[k]]
            0 <= k < handles_of(cs).len() ==> exists|i: int|
                #![trigger cs[i]]
                0 <= i < cs.len() && handle_of(cs[i].outcome) == Some(handles_of(cs)[k])
                    && provenance_of(cs)[k] == cs[i].ticket as nat,
        forall|k: int|
            #![trigger failed_of(cs)[k]]
            0 <= k < failed_of(cs).len() ==> exists|i: int|
                #![trigger cs[i]]
                0 <= i < cs.len() && failed_item_of(cs[i].outcome) == Some(failed_of(cs)[k])
                    && failed_tickets_of(cs)[k] == cs[i].ticket as nat,
        forall|k: int, l: int|
            #![trigger handles_of(cs)[k], handles_of(cs)[l]]
            0 <= k < l < handles_of(cs).len() ==> exists|i: int, j: int|
                #![trigger cs[i], cs[j]]
                0 <= i < j < cs.len() && handle_of(cs[i].outcome) == Some(handles_of(cs)[k])
                    && handle_of(cs[j].outcome) == Some(handles_of(cs)[l]),
    decreases cs.len(),
{
    lemma_split_sizes(cs);
    if cs.len() > 0 {
        let rest = cs.drop_last();
        lemma_split_sources(rest);
        lemma_split_sizes(rest);
        let n = cs.len() - 1;
        assert forall|k: int|
            #![trigger handles_of(cs)[k]]
            0 <= k < handles_of(cs).len() implies exists|i: int|
                #![trigger cs[i]]
            0 <= i < cs.len() && handle_of(cs[i].outcome) == Some(handles_of(cs)[k])
                && provenance_of(cs)[k] == cs[i].ticket as nat by {
            if k < handles_of(rest).len() {
                let i = choose|i: int|
                    0 <= i < rest.len() && handle_of(rest[i].outcome) == Some(handles_of(rest)[k])
                        && provenance_of(rest)[k] == rest[i].ticket as nat;
                assert(cs[i] == rest[i]);
            } else {
                assert(handle_of(cs[n].outcome) == Some(handles_of(cs)[k]));
            }
        }
        assert forall|k: int|
            #![trigger failed_of(cs)[k]]
            0 <= k < failed_of(cs).len() implies exists|i: int|
                #![trigger cs[i]]
            0 <= i < cs.len() && failed_item_of(cs[i].outcome) == Some(failed_of(cs)[k])
                && failed_tickets_of(cs)[k] == cs[i].ticket as nat by {
            if k < failed_of(rest).len() {
                let i = choose|i: int|
                    0 <= i < rest.len() && failed_item_of(rest[i].outcome) == Some(
                        failed_of(rest)[k],
                    ) && failed_tickets_of(rest)[k] == rest[i].ticket as nat;
                assert(cs[i] == rest[i]);
            } else {
                assert(failed_item_of(cs[n].outcome) == Some(failed_of(cs)[k]));
            }
        }
        assert forall|k: int, l: int|
            #![trigger handles_of(cs)[k], handles_of(cs)[l]]
            0 <= k < l < handles_of(cs).len() implies exists|i: int, j: int|
                #![trigger cs[i], cs[j]]
            0 <= i < j < cs.len() && handle_of(cs[i].outcome) == Some(handles_of(cs)[k])
                && handle_of(cs[j].outcome) == Some(handles_of(cs)[l]) by {
            if l < handles_of(rest).len() {
                let (i, j) = choose|i: int, j: int|
                    0 <= i < j < rest.len() && handle_of(rest[i].outcome) == Some(
                        handles_of(rest)[k],
                    ) && handle_of(rest[j].outcome) == Some(handles_of(rest)[l]);
                assert(cs[i] == rest[i] && cs[j] == rest[j]);
            } else {
                let i = choose|i: int|
                    0 <= i < rest.len() && handle_of(rest[i].outcome) == Some(handles_of(rest)[k])
                        && provenance_of(rest)[k] == rest[i].ticket as nat;
                assert(cs[i] == rest[i]);
                assert(handle_of(cs[n].outcome) == Some(handles_of(cs)[l]));
            }
        }
    }
}

} // verus!
