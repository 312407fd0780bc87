//! Runs of an aggregation: the reads it asks for, one after another, when it
//! is handed a given sequence of answers.

use crate::store::{Failure, QueryView, ReplyView, StepView};
use vstd::prelude::*;

verus! {

/// What a run did: the reads it asked for, in order, and how it ended. A run
/// that was handed too few answers has no outcome yet.
pub struct Trace<T> {
    pub reads: Seq<QueryView>,
    pub outcome: Option<Result<T, Failure>>,
}

/// Runs an aggregation that has just asked for `query` from `stage`, handing
/// it the answers of `replies` one by one until it ends or they run out.
/// Answers left over after the end are never looked at.
pub open spec fn run<S, T>(
    step: spec_fn(S, ReplyView) -> StepView<S, T>,
    stage: S,
    query: QueryView,
    replies: Seq<ReplyView>,
) -> Trace<T>
    decreases replies.len(),
{
    if replies.len() == 0 {
        Trace { reads: seq![query], outcome: None }
    } else {
        match step(stage, replies[0]) {
            StepView::Ask(next, asked) => {
                let rest = run(step, next, asked, replies.drop_first());
                Trace { reads: seq![query] + rest.reads, outcome: rest.outcome }
            },
            StepView::Done(outcome) => Trace { reads: seq![query], outcome: Some(outcome) },
        }
    }
}

} // verus!
