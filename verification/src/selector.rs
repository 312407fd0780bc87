//! Answering a request for one list: a fragment for a navigation inside a
//! page the client already has, the full page otherwise.

use crate::dashboard::{
    join_begin, join_run, join_step, lemma_join_reads_bounded, BatchJoin, JoinStage,
};
use crate::ident::RecordId;
use crate::resolver::{
    is_resolver_read, lemma_resolve_reads_bounded, resolve_begin, resolve_run, resolve_step,
    Resolver,
};
use crate::store::{Failure, Query, QueryView, Reply, ReplyView, Step, StepView};
use crate::trace::{run, Trace};
use crate::views::{
    DashboardView, DetailView, ListsPage, ListsPageViewSingleList, Rendering, SingleListPartial,
    ViewType,
};
use vstd::prelude::*;
use vstd::string::StringExecFns;

verus! {

/// The shape of the response to a request for one list.
#[derive(Clone, Copy, Debug, PartialEq, Eq, Structural, Hash)]
pub enum RenderShape {
    /// The list's detail alone.
    Fragment,
    /// The list's detail inside the viewer's dashboard.
    Composite,
}

/// The one value of the request-origin header that marks a navigation
/// inside a page: the word `true`, in lower case.
pub open spec fn affirmative() -> Seq<char> {
    seq!['t', 'r', 'u', 'e']
}

/// The shape that the request-origin header selects: a fragment where the
/// header is present and affirmative, the full page where it is absent or
/// says anything else.
pub open spec fn shape_for(origin: Option<Seq<char>>) -> RenderShape {
    match origin {
        Some(value) => if value == affirmative() {
            RenderShape::Fragment
        } else {
            RenderShape::Composite
        },
        None => RenderShape::Composite,
    }
}

/// The header's value as a plain sequence of characters.
pub open spec fn origin_view(origin: Option<String>) -> Option<Seq<char>> {
    match origin {
        Some(value) => Some(value@),
        None => None,
    }
}

/// Chooses the shape of the response from the request-origin header.
pub fn select_shape(origin: &Option<String>) -> (shape: RenderShape)
    ensures
        shape == shape_for(origin_view(*origin)),
{
    match origin {
        Some(value) => {
            let marker = String::from_str("true");
            proof {
                reveal_strlit("true");
                assert(marker@ =~= affirmative());
            }
            if *value == marker {
                RenderShape::Fragment
            } else {
                RenderShape::Composite
            }
        },
        None => RenderShape::Composite,
    }
}

/// Where the answer to a request for one list stands.
#[derive(Clone, Debug, PartialEq, Eq)]
pub enum ListRequest {
    /// The list is being resolved.
    Resolving { shape: RenderShape, viewer: RecordId, resolver: Resolver },
    /// The list is resolved and the viewer's dashboard is being joined.
    Joining { detail: SingleListPartial, join: BatchJoin },
}

/// A request's state, with what it has gathered as plain sequences.
pub enum RequestStage {
    Resolving { shape: RenderShape, viewer: RecordId, resolver: Resolver },
    Joining { detail: DetailView, join: JoinStage },
}

impl View for ListRequest {
    type V = RequestStage;

    open spec fn view(&self) -> RequestStage {
        match self {
            ListRequest::Resolving { shape, viewer, resolver } => RequestStage::Resolving {
                shape: *shape,
                viewer: *viewer,
                resolver: *resolver,
            },
            ListRequest::Joining { detail, join } => RequestStage::Joining {
                detail: detail@,
                join: join@,
            },
        }
    }
}

/// The first read of a request for the list `list_id` on behalf of
/// `viewer`: the resolution's first read, whatever the shape.
pub open spec fn request_begin(list_id: RecordId, viewer: RecordId, shape: RenderShape) -> (
    RequestStage,
    QueryView,
) {
    (
        RequestStage::Resolving { shape, viewer, resolver: resolve_begin(list_id).0 },
        resolve_begin(list_id).1,
    )
}

/// One step of a request.
///
/// The list is resolved first, and a failure to resolve it ends the request
/// at once. A fragment ends with the resolved detail. The full page goes on
/// to join the viewer's dashboard and ends with both; a failure of the join
/// ends the request with that failure, not with a fragment.
pub open spec fn request_step(stage: RequestStage, reply: ReplyView) -> StepView<
    RequestStage,
    Rendering,
> {
    match stage {
        RequestStage::Resolving { shape, viewer, resolver } => match resolve_step(
            resolver,
            reply,
        ) {
            StepView::Ask(resolver, query) => StepView::Ask(
                RequestStage::Resolving { shape, viewer, resolver },
                query,
            ),
            StepView::Done(Err(failure)) => StepView::Done(Err(failure)),
            StepView::Done(Ok(detail)) => match shape {
                RenderShape::Fragment => StepView::Done(Ok(Rendering::Fragment(detail))),
                RenderShape::Composite => StepView::Ask(
                    RequestStage::Joining { detail, join: join_begin(viewer).0 },
                    join_begin(viewer).1,
                ),
            },
        },
        RequestStage::Joining { detail, join } => match join_step(join, reply) {
            StepView::Ask(join, query) => StepView::Ask(
                RequestStage::Joining { detail, join },
                query,
            ),
            StepView::Done(Err(failure)) => StepView::Done(Err(failure)),
            StepView::Done(Ok(dashboard)) => StepView::Done(
                Ok(Rendering::Composite(detail, dashboard)),
            ),
        },
    }
}

impl ListRequest {
    /// Starts answering a request for the list `list_id` on behalf of
    /// `viewer`, with the request-origin header as received: the state to
    /// keep and the first read to perform.
    pub fn begin(list_id: RecordId, viewer: RecordId, origin: &Option<String>) -> (start: (
        ListRequest,
        Query,
    ))
        ensures
            (start.0@, start.1@) == request_begin(
                list_id,
                viewer,
                shape_for(origin_view(*origin)),
            ),
    {
        let shape = select_shape(origin);
        let (resolver, query) = Resolver::begin(list_id);
        (ListRequest::Resolving { shape, viewer, resolver }, query)
    }

    /// Takes the answer to the read last asked for and says what comes next:
    /// another read, the view model to render, or the reason there is none.
    pub fn step(self, reply: Reply) -> (next: Step<ListRequest, ViewType>)
        ensures
            next@ == request_step(self@, reply@),
    {
        match self {
            ListRequest::Resolving { shape, viewer, resolver } => match resolver.step(reply) {
                Step::Ask(resolver, query) => Step::Ask(
                    ListRequest::Resolving { shape, viewer, resolver },
                    query,
                ),
                Step::Done(Err(failure)) => Step::Done(Err(failure)),
                Step::Done(Ok(detail)) => match shape {
                    RenderShape::Fragment => Step::Done(Ok(ViewType::Partial(detail))),
                    RenderShape::Composite => {
                        let (join, query) = BatchJoin::begin(viewer);
                        Step::Ask(ListRequest::Joining { detail, join }, query)
                    },
                },
            },
            ListRequest::Joining { detail, join } => match join.step(reply) {
                Step::Ask(join, query) => Step::Ask(ListRequest::Joining { detail, join }, query),
                Step::Done(Err(failure)) => Step::Done(Err(failure)),
                Step::Done(Ok(page)) => Step::Done(Ok(ViewType::Page(merge(detail, page)))),
            },
        }
    }
}

/// Puts the detail of the focused list and the dashboard into one view
/// model.
pub fn merge(detail: SingleListPartial, page: ListsPage) -> (whole: ListsPageViewSingleList)
    ensures
        whole.detail() == detail@,
        whole.dashboard() == page@,
{
    ListsPageViewSingleList {
        my_lists: page.my_lists,
        friends_lists: page.friends_lists,
        list: detail.list,
        list_items: detail.list_items,
        user: detail.user,
    }
}

/// The run of a request for the list `list_id` on behalf of `viewer`, in
/// the given shape, over the answers `replies`.
pub open spec fn request_run(
    list_id: RecordId,
    viewer: RecordId,
    shape: RenderShape,
    replies: Seq<ReplyView>,
) -> Trace<Rendering> {
    run(
        |stage: RequestStage, reply: ReplyView| request_step(stage, reply),
        request_begin(list_id, viewer, shape).0,
        request_begin(list_id, viewer, shape).1,
        replies,
    )
}

/// How a fragment request ends, given how the resolution ended.
pub open spec fn as_fragment(outcome: Option<Result<DetailView, Failure>>) -> Option<
    Result<Rendering, Failure>,
> {
    match outcome {
        Some(Ok(detail)) => Some(Ok(Rendering::Fragment(detail))),
        Some(Err(failure)) => Some(Err(failure)),
        None => None,
    }
}

/// How a full-page request ends, given the resolved detail and how the join
/// ended.
pub open spec fn as_composite(
    detail: DetailView,
    outcome: Option<Result<DashboardView, Failure>>,
) -> Option<Result<Rendering, Failure>> {
    match outcome {
        Some(Ok(dashboard)) => Some(Ok(Rendering::Composite(detail, dashboard))),
        Some(Err(failure)) => Some(Err(failure)),
        None => None,
    }
}

/// While a request joins the dashboard, it asks for the join's reads and
/// ends as the join ends.
pub proof fn lemma_request_while_joining(
    detail: DetailView,
    join: JoinStage,
    query: QueryView,
    replies: Seq<ReplyView>,
)
    ensures
        ({
            let joined = run(
                |stage: JoinStage, reply: ReplyView| join_step(stage, reply),
                join,
                query,
                replies,
            );
            run(
                |stage: RequestStage, reply: ReplyView| request_step(stage, reply),
                RequestStage::Joining { detail, join },
                query,
                replies,
            ) == (Trace { reads: joined.reads, outcome: as_composite(detail, joined.outcome) })
        }),
    decreases replies.len(),
{
    if replies.len() > 0 {
        match join_step(join, replies[0]) {
            StepView::Ask(next, asked) => {
                lemma_request_while_joining(detail, next, asked, replies.drop_first());
            },
            StepView::Done(_) => {},
        }
    }
}

/// While a request resolves its list, it asks for the resolution's reads.
/// Where the resolution fails or is cut short, so is the request, with no
/// further read. Where it succeeds, a fragment ends there, and a full page
/// goes on with the reads of the viewer's join over the remaining answers.
pub proof fn lemma_request_while_resolving(
    shape: RenderShape,
    viewer: RecordId,
    resolver: Resolver,
    query: QueryView,
    replies: Seq<ReplyView>,
)
    ensures
        ({
            let resolved = run(
                |stage: Resolver, reply: ReplyView| resolve_step(stage, reply),
                resolver,
                query,
                replies,
            );
            let whole = run(
                |stage: RequestStage, reply: ReplyView| request_step(stage, reply),
                RequestStage::Resolving { shape, viewer, resolver },
                query,
                replies,
            );
            match (resolved.outcome, shape) {
                (Some(Ok(detail)), RenderShape::Composite) => {
                    let joined = join_run(viewer, replies.skip(resolved.reads.len() as int));
                    &&& resolved.reads.len() <= replies.len()
                    &&& whole == (Trace {
                        reads: resolved.reads + joined.reads,
                        outcome: as_composite(detail, joined.outcome),
                    })
                },
                _ => whole == (Trace {
                    reads: resolved.reads,
                    outcome: as_fragment(resolved.outcome),
                }),
            }
        }),
    decreases replies.len(),
{
    let resolve = |stage: Resolver, reply: ReplyView| resolve_step(stage, reply);
    let request = |stage: RequestStage, reply: ReplyView| request_step(stage, reply);
    let resolved = run(resolve, resolver, query, replies);
    let whole = run(request, RequestStage::Resolving { shape, viewer, resolver }, query, replies);
    if replies.len() > 0 {
        let later = replies.drop_first();
        match resolve_step(resolver, replies[0]) {
            StepView::Ask(next, asked) => {
                lemma_request_while_resolving(shape, viewer, next, asked, later);
                let rest = run(resolve, next, asked, later);
                if rest.outcome matches Some(Ok(detail)) && shape == RenderShape::Composite {
                    assert(later.skip(rest.reads.len() as int) =~= replies.skip(
                        resolved.reads.len() as int,
                    ));
                    let joined = join_run(viewer, later.skip(rest.reads.len() as int));
                    assert(seq![query] + (rest.reads + joined.reads) =~= resolved.reads
                        + joined.reads);
                }
            },
            StepView::Done(Ok(detail)) => {
                if shape == RenderShape::Composite {
                    assert(replies.skip(1) =~= later);
                    lemma_request_while_joining(
                        detail,
                        join_begin(viewer).0,
                        join_begin(viewer).1,
                        later,
                    );
                }
            },
            StepView::Done(Err(_)) => {},
        }
    }
}

/// A fragment request never joins the dashboard: whatever the store answers,
/// it asks for the reads of the resolution and no others, at most three of
/// them and each a read by one identifier, and it ends as the resolution
/// ends.
pub proof fn lemma_fragment_never_joins(
    list_id: RecordId,
    viewer: RecordId,
    replies: Seq<ReplyView>,
)
    ensures
        request_run(list_id, viewer, RenderShape::Fragment, replies) == (Trace {
            reads: resolve_run(list_id, replies).reads,
            outcome: as_fragment(resolve_run(list_id, replies).outcome),
        }),
        request_run(list_id, viewer, RenderShape::Fragment, replies).reads.len() <= 3,
        forall|k: int|
            0 <= k < request_run(list_id, viewer, RenderShape::Fragment, replies).reads.len()
                ==> is_resolver_read(
                #[trigger] request_run(list_id, viewer, RenderShape::Fragment, replies).reads[k],
            ),
{
    lemma_request_while_resolving(
        RenderShape::Fragment,
        viewer,
        resolve_begin(list_id).0,
        resolve_begin(list_id).1,
        replies,
    );
    lemma_resolve_reads_bounded(list_id, replies);
}

/// A request whose list cannot be resolved ends with the resolution's
/// failure and never joins the dashboard, whichever shape was asked for.
pub proof fn lemma_unresolved_request_never_joins(
    list_id: RecordId,
    viewer: RecordId,
    shape: RenderShape,
    replies: Seq<ReplyView>,
)
    requires
        resolve_run(list_id, replies).outcome matches Some(Err(_)),
    ensures
        request_run(list_id, viewer, shape, replies) == (Trace::<Rendering> {
            reads: resolve_run(list_id, replies).reads,
            outcome: Some(Err(resolve_run(list_id, replies).outcome->0->Err_0)),
        }),
{
    lemma_request_while_resolving(
        shape,
        viewer,
        resolve_begin(list_id).0,
        resolve_begin(list_id).1,
        replies,
    );
}

/// A full-page request resolves its list in three reads and then joins the
/// viewer's dashboard over the answers that follow: it ends as that join
/// ends, with the resolved detail beside the dashboard, or with the join's
/// failure and no fragment in its place.
pub proof fn lemma_composite_joins_after_resolving(
    list_id: RecordId,
    viewer: RecordId,
    replies: Seq<ReplyView>,
)
    requires
        resolve_run(list_id, replies).outcome matches Some(Ok(_)),
    ensures
        replies.len() >= 3,
        request_run(list_id, viewer, RenderShape::Composite, replies) == (Trace {
            reads: resolve_run(list_id, replies).reads + join_run(viewer, replies.skip(3)).reads,
            outcome: as_composite(
                resolve_run(list_id, replies).outcome->0->Ok_0,
                join_run(viewer, replies.skip(3)).outcome,
            ),
        }),
{
    lemma_request_while_resolving(
        RenderShape::Composite,
        viewer,
        resolve_begin(list_id).0,
        resolve_begin(list_id).1,
        replies,
    );
    lemma_resolve_reads_bounded(list_id, replies);
}

/// A fragment costs strictly fewer reads than a full page: over answers on
/// which the full page is produced, the full page takes seven reads and the
/// fragment for the same list takes three.
pub proof fn lemma_fragment_reads_fewer(
    list_id: RecordId,
    viewer: RecordId,
    replies: Seq<ReplyView>,
)
    requires
        request_run(list_id, viewer, RenderShape::Composite, replies).outcome matches Some(Ok(_)),
    ensures
        request_run(list_id, viewer, RenderShape::Composite, replies).reads.len() == 7,
        request_run(list_id, viewer, RenderShape::Fragment, replies).reads.len() == 3,
{
    lemma_request_while_resolving(
        RenderShape::Composite,
        viewer,
        resolve_begin(list_id).0,
        resolve_begin(list_id).1,
        replies,
    );
    lemma_fragment_never_joins(list_id, viewer, replies);
    lemma_resolve_reads_bounded(list_id, replies);
    lemma_join_reads_bounded(viewer, replies.skip(3));
}

/// A failed read is fatal wherever it happens: whatever a request has
/// gathered, it ends in `StoreFailure`, with nothing partial in its place.
pub proof fn lemma_failed_read_is_fatal(stage: RequestStage)
    ensures
        request_step(stage, ReplyView::Failed) == StepView::<RequestStage, Rendering>::Done(
            Err(Failure::StoreFailure),
        ),
{
}

} // verus!
