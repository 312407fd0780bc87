//! Resolving one list: the list itself, the user who owns it, and its items.

use crate::ident::RecordId;
use crate::records::{List, ListItem, User};
use crate::store::{Failure, Query, QueryView, Reply, ReplyView, Step, StepView};
use crate::trace::{run, Trace};
use crate::views::{DetailView, SingleListPartial};
use vstd::prelude::*;

verus! {

/// Where the resolution of a list stands: which answer it waits for, and
/// what it has found so far.
#[derive(Clone, Debug, PartialEq, Eq)]
pub enum Resolver {
    /// Waiting for the list.
    AwaitList,
    /// Waiting for the user who owns the list.
    AwaitOwner { list: List },
    /// Waiting for the items of the list.
    AwaitItems { list: List, user: User },
}

impl View for Resolver {
    type V = Resolver;

    open spec fn view(&self) -> Resolver {
        *self
    }
}

/// The first read of a resolution of the list `list_id`.
pub open spec fn resolve_begin(list_id: RecordId) -> (Resolver, QueryView) {
    (Resolver::AwaitList, QueryView::ListWithId(list_id))
}

/// One step of the resolution: what it does with the answer to the read it
/// asked for.
///
/// A list that is not stored, a list that nobody owns and an owner who is not
/// stored each end the resolution in `NotFound`; for a list that nobody owns
/// no user is asked for. The items are those of the list's own identifier,
/// and every item the store returns is kept, in the store's order, removed
/// or not. A stored list without an identifier, a failed read, or an answer
/// of another kind than the read asked for ends it in `StoreFailure`.
pub open spec fn resolve_step(stage: Resolver, reply: ReplyView) -> StepView<Resolver, DetailView> {
    match (stage, reply) {
        (Resolver::AwaitList, ReplyView::List(None)) => StepView::Done(Err(Failure::NotFound)),
        (Resolver::AwaitList, ReplyView::List(Some(list))) => match list.user_id {
            Some(owner) => StepView::Ask(
                Resolver::AwaitOwner { list },
                QueryView::UserWithId(owner),
            ),
            None => StepView::Done(Err(Failure::NotFound)),
        },
        (Resolver::AwaitOwner { list }, ReplyView::User(None)) => StepView::Done(
            Err(Failure::NotFound),
        ),
        (Resolver::AwaitOwner { list }, ReplyView::User(Some(user))) => match list.id {
            Some(id) => StepView::Ask(
                Resolver::AwaitItems { list, user },
                QueryView::ItemsOfList(id),
            ),
            None => StepView::Done(Err(Failure::StoreFailure)),
        },
        (Resolver::AwaitItems { list, user }, ReplyView::Items(items)) => StepView::Done(
            Ok(DetailView { list, user, items }),
        ),
        _ => StepView::Done(Err(Failure::StoreFailure)),
    }
}

impl Resolver {
    /// Starts resolving the list `list_id`: the state to keep and the first
    /// read to perform.
    pub fn begin(list_id: RecordId) -> (start: (Resolver, Query))
        ensures
            (start.0@, start.1@) == resolve_begin(list_id),
    {
        (Resolver::AwaitList, Query::ListWithId(list_id))
    }

    /// Takes the answer to the read last asked for and says what comes next:
    /// another read, the resolved list, or the reason there is none.
    pub fn step(self, reply: Reply) -> (next: Step<Resolver, SingleListPartial>)
        ensures
            next@ == resolve_step(self@, reply@),
    {
        match (self, reply) {
            (Resolver::AwaitList, Reply::List(None)) => Step::Done(Err(Failure::NotFound)),
            (Resolver::AwaitList, Reply::List(Some(list))) => match list.user_id {
                Some(owner) => Step::Ask(Resolver::AwaitOwner { list }, Query::UserWithId(owner)),
                None => Step::Done(Err(Failure::NotFound)),
            },
            (Resolver::AwaitOwner { list }, Reply::User(None)) => Step::Done(
                Err(Failure::NotFound),
            ),
            (Resolver::AwaitOwner { list }, Reply::User(Some(user))) => match list.id {
                Some(id) => Step::Ask(Resolver::AwaitItems { list, user }, Query::ItemsOfList(id)),
                None => Step::Done(Err(Failure::StoreFailure)),
            },
            (Resolver::AwaitItems { list, user }, Reply::Items(items)) => Step::Done(
                Ok(SingleListPartial { list, list_items: items, user }),
            ),
            _ => Step::Done(Err(Failure::StoreFailure)),
        }
    }
}

/// The run of a resolution of the list `list_id` over the answers `replies`.
pub open spec fn resolve_run(list_id: RecordId, replies: Seq<ReplyView>) -> Trace<DetailView> {
    run(
        |stage: Resolver, reply: ReplyView| resolve_step(stage, reply),
        resolve_begin(list_id).0,
        resolve_begin(list_id).1,
        replies,
    )
}

/// A list that the store does not hold is not found: the resolution ends
/// after its first read, in `NotFound` and not in a store failure.
pub proof fn lemma_missing_list_is_not_found(list_id: RecordId, later: Seq<ReplyView>)
    ensures
        resolve_run(list_id, seq![ReplyView::List(None)] + later) == (Trace::<DetailView> {
            reads: seq![QueryView::ListWithId(list_id)],
            outcome: Some(Err(Failure::NotFound)),
        }),
{
}

/// A stored list that nobody owns is not found, and no user is asked for.
pub proof fn lemma_unowned_list_is_not_found(
    list_id: RecordId,
    list: List,
    later: Seq<ReplyView>,
)
    requires
        list.user_id is None,
    ensures
        resolve_run(list_id, seq![ReplyView::List(Some(list))] + later) == (Trace::<DetailView> {
            reads: seq![QueryView::ListWithId(list_id)],
            outcome: Some(Err(Failure::NotFound)),
        }),
{
}

/// A list whose owner the store does not hold is not found.
pub proof fn lemma_missing_owner_is_not_found(
    list_id: RecordId,
    list: List,
    later: Seq<ReplyView>,
)
    requires
        list.user_id is Some,
    ensures
        resolve_run(list_id, seq![ReplyView::List(Some(list)), ReplyView::User(None)] + later) == (
        Trace::<DetailView> {
            reads: seq![QueryView::ListWithId(list_id), QueryView::UserWithId(list.user_id->0)],
            outcome: Some(Err(Failure::NotFound)),
        }),
{
    let step = |stage: Resolver, reply: ReplyView| resolve_step(stage, reply);
    let replies = seq![ReplyView::List(Some(list)), ReplyView::User(None)] + later;
    let rest = run(
        step,
        Resolver::AwaitOwner { list },
        QueryView::UserWithId(list.user_id->0),
        replies.drop_first(),
    );
    assert(rest.reads =~= seq![QueryView::UserWithId(list.user_id->0)]);
    assert(resolve_run(list_id, replies).reads =~= seq![QueryView::ListWithId(list_id)]
        + rest.reads);
    assert(resolve_run(list_id, replies).reads =~= seq![
        QueryView::ListWithId(list_id),
        QueryView::UserWithId(list.user_id->0),
    ]);
}

/// A stored list with a stored owner resolves in three reads, and its detail
/// holds every item that the store returned for it, in the store's order:
/// as many items as were fetched, removed or not.
pub proof fn lemma_every_item_is_returned(
    list_id: RecordId,
    list: List,
    user: User,
    items: Seq<ListItem>,
)
    requires
        list.id is Some,
        list.user_id is Some,
    ensures
        resolve_run(
            list_id,
            seq![ReplyView::List(Some(list)), ReplyView::User(Some(user)), ReplyView::Items(items)],
        ) == (Trace {
            reads: seq![
                QueryView::ListWithId(list_id),
                QueryView::UserWithId(list.user_id->0),
                QueryView::ItemsOfList(list.id->0),
            ],
            outcome: Some(Ok(DetailView { list, user, items })),
        }),
{
    let step = |stage: Resolver, reply: ReplyView| resolve_step(stage, reply);
    let r0 = seq![
        ReplyView::List(Some(list)),
        ReplyView::User(Some(user)),
        ReplyView::Items(items),
    ];
    let r1 = r0.drop_first();
    let r2 = r1.drop_first();
    let t2 = run(step, Resolver::AwaitItems { list, user }, QueryView::ItemsOfList(list.id->0), r2);
    assert(t2.reads =~= seq![QueryView::ItemsOfList(list.id->0)]);
    let t1 = run(step, Resolver::AwaitOwner { list }, QueryView::UserWithId(list.user_id->0), r1);
    assert(t1.reads =~= seq![QueryView::UserWithId(list.user_id->0)] + t2.reads);
    let t0 = resolve_run(list_id, r0);
    assert(t0.reads =~= seq![QueryView::ListWithId(list_id)] + t1.reads);
    assert(t0.reads =~= seq![
        QueryView::ListWithId(list_id),
        QueryView::UserWithId(list.user_id->0),
        QueryView::ItemsOfList(list.id->0),
    ]);
}

/// The number of reads a resolution in `stage` has already been answered.
pub open spec fn resolve_progress(stage: Resolver) -> nat {
    match stage {
        Resolver::AwaitList => 0,
        Resolver::AwaitOwner { .. } => 1,
        Resolver::AwaitItems { .. } => 2,
    }
}

/// Whether a read is one that a resolution asks for: a list, a user or the
/// items of a list, each by one identifier.
pub open spec fn is_resolver_read(query: QueryView) -> bool {
    query is ListWithId || query is UserWithId || query is ItemsOfList
}

/// From any stage on, a resolution asks for no more reads than its three
/// allow, each of them a read by one identifier, and it ends with a detail
/// only after the last of them.
pub proof fn lemma_resolve_rest_bounded(stage: Resolver, query: QueryView, replies: Seq<ReplyView>)
    requires
        is_resolver_read(query),
    ensures
        ({
            let trace = run(
                |stage: Resolver, reply: ReplyView| resolve_step(stage, reply),
                stage,
                query,
                replies,
            );
            &&& 1 <= trace.reads.len() <= 3 - resolve_progress(stage)
            &&& forall|k: int| 0 <= k < trace.reads.len() ==> is_resolver_read(trace.reads[k])
            &&& trace.outcome matches Some(Ok(_)) ==> trace.reads.len() == 3 - resolve_progress(
                stage,
            )
        }),
    decreases replies.len(),
{
    if replies.len() > 0 {
        match resolve_step(stage, replies[0]) {
            StepView::Ask(next, asked) => {
                lemma_resolve_rest_bounded(next, asked, replies.drop_first());
            },
            StepView::Done(_) => {},
        }
    }
}

/// Whatever the store answers, a resolution asks for at most three reads,
/// each of them a read by one identifier, and one that produced a detail
/// asked for exactly three.
pub proof fn lemma_resolve_reads_bounded(list_id: RecordId, replies: Seq<ReplyView>)
    ensures
        1 <= resolve_run(list_id, replies).reads.len() <= 3,
        forall|k: int|
            0 <= k < resolve_run(list_id, replies).reads.len() ==> is_resolver_read(
                #[trigger] resolve_run(list_id, replies).reads[k],
            ),
        resolve_run(list_id, replies).outcome matches Some(Ok(_)) ==> resolve_run(
            list_id,
            replies,
        ).reads.len() == 3,
{
    lemma_resolve_rest_bounded(resolve_begin(list_id).0, resolve_begin(list_id).1, replies);
}

} // verus!
