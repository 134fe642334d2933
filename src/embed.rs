//! The embedding commit and the stages of a run.
use vstd::prelude::*;

use crate::error::EmbedError;

verus! {

/// Whether documents are added to a workspace's embeddings or taken out.
#[derive(Clone, Copy, Debug, PartialEq, Eq, Structural)]
pub enum UpdateParameter {
    Adds,
    Deletes,
}

/// One batched embedding call: all `docs` into the workspace `slug`.
#[derive(Clone, Debug)]
pub struct EmbedRequest {
    pub slug: String,
    pub docs: Vec<String>,
    pub direction: UpdateParameter,
}

/// The single commit of the successful uploads into workspace `slug`, or
/// `None` when there is nothing to commit: an empty commit is never sent.
pub fn commit_request(slug: &str, handles: Vec<String>) -> (r: Option<EmbedRequest>)
    ensures
        r.is_none() <==> handles@.len() == 0,
        r.is_some() ==> r.unwrap().slug@ == slug@ && r.unwrap().docs@ == handles@
            && r.unwrap().direction == UpdateParameter::Adds,
{
    if handles.len() == 0 {
        None
    } else {
        Some(EmbedRequest { slug: slug.to_owned(), docs: handles, direction: UpdateParameter::Adds })
    }
}

/// The stages of a run, in order.
#[derive(Clone, Copy, Debug, PartialEq, Eq, Structural)]
pub enum Stage {
    Fetching,
    Filtering,
    Uploading,
    Embedding,
    Reporting,
    Done,
}

/// The stage after `stage`, when `succeeded` uploads succeeded. Embedding is
/// skipped when no upload succeeded. A cancellation takes effect here,
/// between stages: before any upload it ends the run; once uploads have
/// started they finish, embedding is skipped and the failures are reported.
pub open spec fn stage_after_spec(stage: Stage, succeeded: nat, cancelled: bool) -> Stage {
    match stage {
        Stage::Fetching => if cancelled { Stage::Done } else { Stage::Filtering },
        Stage::Filtering => if cancelled { Stage::Done } else { Stage::Uploading },
        Stage::Uploading => if succeeded > 0 && !cancelled {
            Stage::Embedding
        } else {
            Stage::Reporting
        },
        Stage::Embedding => Stage::Reporting,
        Stage::Reporting => Stage::Done,
        Stage::Done => Stage::Done,
    }
}

/// The stage that follows `stage`.
pub fn stage_after(stage: Stage, succeeded: usize, cancelled: bool) -> (r: Stage)
    ensures
        r == stage_after_spec(stage, succeeded as nat, cancelled),
{
    match stage {
        Stage::Fetching => if cancelled {
            Stage::Done
        } else {
            Stage::Filtering
        },
        Stage::Filtering => if cancelled {
            Stage::Done
        } else {
            Stage::Uploading
        },
        Stage::Uploading => if succeeded > 0 && !cancelled {
            Stage::Embedding
        } else {
            Stage::Reporting
        },
        Stage::Embedding => Stage::Reporting,
        Stage::Reporting => Stage::Done,
        Stage::Done => Stage::Done,
    }
}

/// What became of the embedding stage.
#[derive(Clone, Debug)]
pub enum EmbedStatus {
    /// No upload succeeded, so nothing was committed.
    Skipped,
    /// The commit went through.
    Committed,
    /// The commit failed; the uploaded documents stay on the service.
    Failed(EmbedError),
}

/// The workspace that an operator may want to discard: the target of a
/// commit that failed after some uploads went through.
pub fn discard_candidate(slug: &str, succeeded: usize, status: &EmbedStatus) -> (r: Option<String>)
    ensures
        r.is_some() <==> (succeeded > 0 && status is Failed),
        r.is_some() ==> r.unwrap()@ == slug@,
{
    match status {
        EmbedStatus::Failed(_) => if succeeded > 0 {
            Some(slug.to_owned())
        } else {
            None
        },
        _ => None,
    }
}

} // verus!
