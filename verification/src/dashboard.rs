//! The batched join behind the dashboard: the viewer's own lists, and each
//! friend paired with the lists that friend owns.

use crate::ident::RecordId;
use crate::records::{Friendship, List, User};
use crate::store::{Failure, Query, QueryView, Reply, ReplyView, Step, StepView};
use crate::trace::{run, Trace};
use crate::views::{pairs_view, DashboardView, ListsPage};
use std::collections::HashMap;
use vstd::prelude::*;

verus! {

/// The friends that the friendship rows point to, one per row, in row order.
/// A friend named by two rows appears twice.
pub open spec fn friend_ids(friendships: Seq<Friendship>) -> Seq<RecordId> {
    friendships.map_values(|f: Friendship| f.friend_id)
}

/// The lists of `batch` that `owner` owns, in the order of `batch`.
pub open spec fn lists_owned_by(batch: Seq<List>, owner: RecordId) -> Seq<List> {
    batch.filter(|list: List| list.user_id == Some(owner))
}

/// The lists of `batch` grouped by owner. Only owners with at least one list
/// have a group; lists that nobody owns are in none.
pub open spec fn grouping(batch: Seq<List>) -> Map<RecordId, Seq<List>> {
    Map::new(
        |owner: RecordId| lists_owned_by(batch, owner).len() > 0,
        |owner: RecordId| lists_owned_by(batch, owner),
    )
}

/// The grouping that a table keyed by identifier values holds.
pub open spec fn groups_of(table: Map<u128, Vec<List>>) -> Map<RecordId, Seq<List>> {
    Map::new(
        |owner: RecordId| table.contains_key(owner.value),
        |owner: RecordId| table[owner.value]@,
    )
}

/// Whether an earlier friend of the sequence carries the identifier of the
/// friend at `i`.
pub open spec fn seen_before(friends: Seq<User>, i: int) -> bool {
    exists|j: int| 0 <= j < i && #[trigger] friends[j].id == friends[i].id
}

/// The lists paired with the friend at `i`, out of `groups`: the friend's
/// group, or nothing where the friend has no identifier, no group, or an
/// earlier friend with the same identifier has already taken the group.
pub open spec fn share_of_friend(
    friends: Seq<User>,
    groups: Map<RecordId, Seq<List>>,
    i: int,
) -> Seq<List> {
    match friends[i].id {
        Some(id) => if groups.contains_key(id) && !seen_before(friends, i) {
            groups[id]
        } else {
            Seq::empty()
        },
        None => Seq::empty(),
    }
}

/// Every friend, in order, paired with that friend's share of `groups`.
pub open spec fn pair_from_groups(
    friends: Seq<User>,
    groups: Map<RecordId, Seq<List>>,
) -> Seq<(User, Seq<List>)> {
    Seq::new(friends.len(), |i: int| (friends[i], share_of_friend(friends, groups, i)))
}

/// The lists paired with the friend at `i`: the lists of `batch` that the
/// friend owns, in batch order. A friend without an identifier owns none, and
/// where two friends carry one identifier the lists go to the first.
pub open spec fn lists_of_friend(friends: Seq<User>, batch: Seq<List>, i: int) -> Seq<List> {
    match friends[i].id {
        Some(id) => if seen_before(friends, i) {
            Seq::empty()
        } else {
            lists_owned_by(batch, id)
        },
        None => Seq::empty(),
    }
}

/// Every friend, in order, paired with the lists of `batch` that the friend
/// owns. A friend who owns none is still there, paired with no lists.
pub open spec fn pair_friends(friends: Seq<User>, batch: Seq<List>) -> Seq<(User, Seq<List>)> {
    Seq::new(friends.len(), |i: int| (friends[i], lists_of_friend(friends, batch, i)))
}

/// Pairing friends with the groups of a batch pairs each with the lists of
/// the batch that the friend owns.
pub proof fn lemma_pairing_through_groups(friends: Seq<User>, batch: Seq<List>)
    ensures
        pair_from_groups(friends, grouping(batch)) == pair_friends(friends, batch),
{
    assert forall|i: int| 0 <= i < friends.len() implies share_of_friend(
        friends,
        grouping(batch),
        i,
    ) == lists_of_friend(friends, batch, i) by {
        if let Some(id) = friends[i].id {
            if !grouping(batch).contains_key(id) {
                assert(lists_owned_by(batch, id) =~= Seq::empty());
            }
        }
    }
    assert(pair_from_groups(friends, grouping(batch)) =~= pair_friends(friends, batch));
}

/// The dashboard of a viewer who owns `owned`, whose friends are `friends`
/// and whose friends' lists are `batch`.
pub open spec fn dashboard_of(
    owned: Seq<List>,
    batch: Seq<List>,
    friends: Seq<User>,
) -> DashboardView {
    DashboardView { owned, friends: pair_friends(friends, batch) }
}

/// Projects friendship rows to the identifiers of the friends they name.
pub fn collect_friend_ids(friendships: &Vec<Friendship>) -> (ids: Vec<RecordId>)
    ensures
        ids@ == friend_ids(friendships@),
{
    let mut ids: Vec<RecordId> = Vec::new();
    let mut i: usize = 0;
    while i < friendships.len()
        invariant
            i <= friendships.len(),
            ids@ == friend_ids(friendships@.take(i as int)),
        decreases friendships.len() - i,
    {
        ids.push(friendships[i].friend_id);
        i += 1;
        proof {
            assert(ids@ =~= friend_ids(friendships@.take(i as int)));
        }
    }
    proof {
        assert(friendships@.take(i as int) =~= friendships@);
    }
    ids
}

/// Taking one more list into account appends it to its owner's lists and
/// leaves every other owner's lists as they were.
pub proof fn lemma_lists_owned_by_step(batch: Seq<List>, n: int, owner: RecordId)
    requires
        0 <= n < batch.len(),
    ensures
        lists_owned_by(batch.take(n + 1), owner) == if batch[n].user_id == Some(owner) {
            lists_owned_by(batch.take(n), owner).push(batch[n])
        } else {
            lists_owned_by(batch.take(n), owner)
        },
{
    reveal_with_fuel(Seq::filter, 2);
    assert(batch.take(n + 1).drop_last() =~= batch.take(n));
    assert(batch.take(n + 1).last() == batch[n]);
}

/// Groups a batch of lists by owner in one pass. Within a group the lists
/// keep the order they had in the batch; a list that nobody owns is left out.
pub fn group_by_owner(batch: Vec<List>) -> (table: HashMap<u128, Vec<List>>)
    ensures
        groups_of(table@) == grouping(batch@),
{
    let ghost whole = batch@;
    let mut table: HashMap<u128, Vec<List>> = HashMap::new();
    for list in it: batch.into_iter()
        invariant
            it.seq() == whole,
            groups_of(table@) == grouping(whole.take(it.index() as int)),
    {
        proof {
            assert forall|owner: RecordId| true implies #[trigger] lists_owned_by(
                whole.take(it.index() + 1),
                owner,
            ) == if list.user_id == Some(owner) {
                lists_owned_by(whole.take(it.index() as int), owner).push(list)
            } else {
                lists_owned_by(whole.take(it.index() as int), owner)
            } by {
                lemma_lists_owned_by_step(whole, it.index() as int, owner);
            }
        }
        let ghost before = table@;
        match list.user_id {
            Some(owner) => {
                let mut group = match table.remove(&owner.value) {
                    Some(group) => group,
                    None => Vec::new(),
                };
                group.push(list);
                table.insert(owner.value, group);
            },
            None => {},
        }
        proof {
            let seen = whole.take(it.index() as int);
            let next = whole.take(it.index() + 1);
            assert forall|owner: RecordId|
                (#[trigger] groups_of(table@).dom().contains(owner)) == grouping(
                    next,
                ).dom().contains(owner) && (groups_of(table@).dom().contains(owner)
                    ==> groups_of(table@)[owner] == grouping(next)[owner]) by {
                assert(groups_of(before).contains_key(owner) == grouping(seen).contains_key(
                    owner,
                ));
                assert(groups_of(before).contains_key(owner) ==> groups_of(before)[owner]
                    == grouping(seen)[owner]);
                assert(owner == RecordId { value: owner.value });
            }
            assert(groups_of(table@) =~= grouping(next));
        }
    }
    proof {
        assert(whole.take(whole.len() as int) =~= whole);
    }
    table
}

/// Pairs every friend with that friend's group, in the order of `friends`.
/// A group is handed out once: where two friends carry one identifier, the
/// first gets the group and the second gets nothing.
pub fn pair_with_groups(friends: Vec<User>, table: HashMap<u128, Vec<List>>) -> (pairs: Vec<
    (User, Vec<List>),
>)
    ensures
        pairs_view(pairs@) == pair_from_groups(friends@, groups_of(table@)),
{
    let ghost all = friends@;
    let ghost groups = groups_of(table@);
    let mut table = table;
    let mut pairs: Vec<(User, Vec<List>)> = Vec::new();
    for friend in it: friends.into_iter()
        invariant
            it.seq() == all,
            pairs_view(pairs@) == pair_from_groups(all, groups).take(it.index() as int),
            forall|id: RecordId| #[trigger]
                groups_of(table@).contains_key(id) <==> groups.contains_key(id) && !exists|
                    j: int,
                |
                    0 <= j < it.index() && #[trigger] all[j].id == Some(id),
            forall|id: RecordId| #[trigger]
                groups_of(table@).contains_key(id) ==> groups_of(table@)[id] == groups[id],
    {
        let ghost before = table@;
        let ghost done = pairs@;
        let lists = match friend.id {
            Some(id) => match table.remove(&id.value) {
                Some(group) => group,
                None => Vec::new(),
            },
            None => Vec::new(),
        };
        proof {
            assert(lists@ == share_of_friend(all, groups, it.index() as int)) by {
                if let Some(id) = friend.id {
                    assert(groups_of(before).contains_key(id) == before.contains_key(id.value));
                    assert(id == RecordId { value: id.value });
                }
            }
        }
        pairs.push((friend, lists));
        proof {
            let target = pair_from_groups(all, groups);
            let idx = it.index() as int;
            assert(pairs@ == done.push((friend, lists)));
            assert(pairs_view(pairs@) =~= pairs_view(done).push((friend, lists@)));
            assert(friend == all[idx]);
            assert(target[idx] == (friend, lists@));
            assert(target.take(idx + 1) =~= target.take(idx).push(target[idx]));
            assert forall|id: RecordId| #[trigger]
                groups_of(table@).contains_key(id) <==> groups.contains_key(id) && !exists|
                    j: int,
                |
                    0 <= j < it.index() + 1 && #[trigger] all[j].id == Some(id) by {
                assert(groups_of(before).contains_key(id) == before.contains_key(id.value));
                assert(id == RecordId { value: id.value });
            }
            assert forall|id: RecordId| #[trigger]
                groups_of(table@).contains_key(id) implies groups_of(table@)[id]
                == groups[id] by {
                assert(groups_of(before).contains_key(id));
            }
        }
    }
    proof {
        assert(pair_from_groups(all, groups).take(all.len() as int) =~= pair_from_groups(
            all,
            groups,
        ));
    }
    pairs
}

/// Assembles the dashboard from what the store returned: the viewer's own
/// lists, the batch of lists owned by any friend, and the friends' user
/// records. The friends keep the order of `friends`; each friend's lists keep
/// the order of `batch`; a friend who owns no list is kept, with no lists.
pub fn assemble_dashboard(owned: Vec<List>, batch: Vec<List>, friends: Vec<User>) -> (page:
    ListsPage)
    ensures
        page@ == dashboard_of(owned@, batch@, friends@),
        page.my_lists@ == owned@,
        page.friends_lists@.len() == friends@.len(),
{
    proof {
        lemma_pairing_through_groups(friends@, batch@);
    }
    let ghost wanted = pair_friends(friends@, batch@);
    let table = group_by_owner(batch);
    let friends_lists = pair_with_groups(friends, table);
    assert(pairs_view(friends_lists@).len() == wanted.len());
    ListsPage { my_lists: owned, friends_lists }
}

/// Where a dashboard's join stands: which answer it waits for, and what it
/// has gathered so far.
#[derive(Clone, Debug, PartialEq, Eq)]
pub enum BatchJoin {
    /// Waiting for the viewer's own lists.
    AwaitOwned { viewer: RecordId },
    /// Waiting for the viewer's friendship rows.
    AwaitFriendships { viewer: RecordId, owned: Vec<List> },
    /// Waiting for the lists owned by any friend.
    AwaitFriendLists { owned: Vec<List>, friend_ids: Vec<RecordId> },
    /// Waiting for the friends' user records.
    AwaitFriends { owned: Vec<List>, batch: Vec<List> },
}

/// A join's state, with what it has gathered as plain sequences.
pub enum JoinStage {
    AwaitOwned { viewer: RecordId },
    AwaitFriendships { viewer: RecordId, owned: Seq<List> },
    AwaitFriendLists { owned: Seq<List>, friend_ids: Seq<RecordId> },
    AwaitFriends { owned: Seq<List>, batch: Seq<List> },
}

impl View for BatchJoin {
    type V = JoinStage;

    open spec fn view(&self) -> JoinStage {
        match self {
            BatchJoin::AwaitOwned { viewer } => JoinStage::AwaitOwned { viewer: *viewer },
            BatchJoin::AwaitFriendships { viewer, owned } => JoinStage::AwaitFriendships {
                viewer: *viewer,
                owned: owned@,
            },
            BatchJoin::AwaitFriendLists { owned, friend_ids } => JoinStage::AwaitFriendLists {
                owned: owned@,
                friend_ids: friend_ids@,
            },
            BatchJoin::AwaitFriends { owned, batch } => JoinStage::AwaitFriends {
                owned: owned@,
                batch: batch@,
            },
        }
    }
}

/// The first read of a join for `viewer`.
pub open spec fn join_begin(viewer: RecordId) -> (JoinStage, QueryView) {
    (JoinStage::AwaitOwned { viewer }, QueryView::ListsOwnedBy(viewer))
}

/// One step of the join: what it does with the answer to the read it asked
/// for. The four reads follow one another in a fixed order; the friends'
/// lists and the friends' records are each asked for in one batch. A failed
/// read, or an answer of another kind than the read asked for, ends the join
/// in `StoreFailure`.
pub open spec fn join_step(stage: JoinStage, reply: ReplyView) -> StepView<
    JoinStage,
    DashboardView,
> {
    match (stage, reply) {
        (JoinStage::AwaitOwned { viewer }, ReplyView::Lists(owned)) => StepView::Ask(
            JoinStage::AwaitFriendships { viewer, owned },
            QueryView::FriendshipsFrom(viewer),
        ),
        (JoinStage::AwaitFriendships { viewer, owned }, ReplyView::Friendships(rows)) => {
            StepView::Ask(
                JoinStage::AwaitFriendLists { owned, friend_ids: friend_ids(rows) },
                QueryView::ListsOwnedByAny(friend_ids(rows)),
            )
        },
        (JoinStage::AwaitFriendLists { owned, friend_ids }, ReplyView::Lists(batch)) => {
            StepView::Ask(
                JoinStage::AwaitFriends { owned, batch },
                QueryView::UsersWithIds(friend_ids),
            )
        },
        (JoinStage::AwaitFriends { owned, batch }, ReplyView::Users(friends)) => StepView::Done(
            Ok(dashboard_of(owned, batch, friends)),
        ),
        _ => StepView::Done(Err(Failure::StoreFailure)),
    }
}

impl BatchJoin {
    /// Starts the join for `viewer`: the state to keep and the first read to
    /// perform.
    pub fn begin(viewer: RecordId) -> (start: (BatchJoin, Query))
        ensures
            (start.0@, start.1@) == join_begin(viewer),
    {
        (BatchJoin::AwaitOwned { viewer }, Query::ListsOwnedBy(viewer))
    }

    /// Takes the answer to the read last asked for and says what comes next:
    /// another read, or the finished dashboard.
    pub fn step(self, reply: Reply) -> (next: Step<BatchJoin, ListsPage>)
        ensures
            next@ == join_step(self@, reply@),
    {
        match (self, reply) {
            (BatchJoin::AwaitOwned { viewer }, Reply::Lists(owned)) => Step::Ask(
                BatchJoin::AwaitFriendships { viewer, owned },
                Query::FriendshipsFrom(viewer),
            ),
            (BatchJoin::AwaitFriendships { viewer, owned }, Reply::Friendships(rows)) => {
                let friend_ids = collect_friend_ids(&rows);
                let wanted = friend_ids.clone();
                proof {
                    assert(wanted@ =~= friend_ids@);
                }
                Step::Ask(
                    BatchJoin::AwaitFriendLists { owned, friend_ids },
                    Query::ListsOwnedByAny(wanted),
                )
            },
            (BatchJoin::AwaitFriendLists { owned, friend_ids }, Reply::Lists(batch)) => Step::Ask(
                BatchJoin::AwaitFriends { owned, batch },
                Query::UsersWithIds(friend_ids),
            ),
            (BatchJoin::AwaitFriends { owned, batch }, Reply::Users(friends)) => Step::Done(
                Ok(assemble_dashboard(owned, batch, friends)),
            ),
            _ => Step::Done(Err(Failure::StoreFailure)),
        }
    }
}

/// The run of a join for `viewer` over the answers `replies`.
pub open spec fn join_run(viewer: RecordId, replies: Seq<ReplyView>) -> Trace<DashboardView> {
    run(
        |stage: JoinStage, reply: ReplyView| join_step(stage, reply),
        join_begin(viewer).0,
        join_begin(viewer).1,
        replies,
    )
}

/// The four reads of a join, given the friendship rows that the second one
/// returned: the viewer's lists, the viewer's friendships, the lists of all
/// friends in one batch, the records of all friends in one batch.
pub open spec fn join_reads(viewer: RecordId, rows: Seq<Friendship>) -> Seq<QueryView> {
    seq![
        QueryView::ListsOwnedBy(viewer),
        QueryView::FriendshipsFrom(viewer),
        QueryView::ListsOwnedByAny(friend_ids(rows)),
        QueryView::UsersWithIds(friend_ids(rows)),
    ]
}

/// A join whose reads all succeed asks for exactly four reads, however many
/// friends there are, and ends with the dashboard assembled from the four
/// answers.
pub proof fn lemma_join_takes_four_reads(
    viewer: RecordId,
    owned: Seq<List>,
    rows: Seq<Friendship>,
    batch: Seq<List>,
    friends: Seq<User>,
)
    ensures
        join_run(
            viewer,
            seq![
                ReplyView::Lists(owned),
                ReplyView::Friendships(rows),
                ReplyView::Lists(batch),
                ReplyView::Users(friends),
            ],
        ) == (Trace {
            reads: join_reads(viewer, rows),
            outcome: Some(Ok(dashboard_of(owned, batch, friends))),
        }),
{
    let step = |stage: JoinStage, reply: ReplyView| join_step(stage, reply);
    let r0 = seq![
        ReplyView::Lists(owned),
        ReplyView::Friendships(rows),
        ReplyView::Lists(batch),
        ReplyView::Users(friends),
    ];
    let r1 = r0.drop_first();
    let r2 = r1.drop_first();
    let r3 = r2.drop_first();
    let s1 = JoinStage::AwaitFriendships { viewer, owned };
    let s2 = JoinStage::AwaitFriendLists { owned, friend_ids: friend_ids(rows) };
    let s3 = JoinStage::AwaitFriends { owned, batch };
    let t3 = run(step, s3, QueryView::UsersWithIds(friend_ids(rows)), r3);
    assert(t3.reads =~= seq![QueryView::UsersWithIds(friend_ids(rows))]);
    let t2 = run(step, s2, QueryView::ListsOwnedByAny(friend_ids(rows)), r2);
    assert(t2.reads =~= seq![QueryView::ListsOwnedByAny(friend_ids(rows))] + t3.reads);
    let t1 = run(step, s1, QueryView::FriendshipsFrom(viewer), r1);
    assert(t1.reads =~= seq![QueryView::FriendshipsFrom(viewer)] + t2.reads);
    let t0 = join_run(viewer, r0);
    assert(t0.reads =~= seq![QueryView::ListsOwnedBy(viewer)] + t1.reads);
    assert(t0.reads =~= join_reads(viewer, rows));
}

/// Whatever the store answers, a join asks for at most four reads, and one
/// that produced a dashboard asked for exactly four.
pub proof fn lemma_join_reads_bounded(viewer: RecordId, replies: Seq<ReplyView>)
    ensures
        1 <= join_run(viewer, replies).reads.len() <= 4,
        join_run(viewer, replies).outcome matches Some(Ok(_)) ==> join_run(
            viewer,
            replies,
        ).reads.len() == 4,
{
    lemma_join_rest_bounded(join_begin(viewer).0, join_begin(viewer).1, replies);
}

/// The number of reads a join in `stage` has already been answered.
pub open spec fn join_progress(stage: JoinStage) -> nat {
    match stage {
        JoinStage::AwaitOwned { .. } => 0,
        JoinStage::AwaitFriendships { .. } => 1,
        JoinStage::AwaitFriendLists { .. } => 2,
        JoinStage::AwaitFriends { .. } => 3,
    }
}

/// From any stage on, a join asks for no more reads than the four allow, and
/// ends with a dashboard only after the last of them.
pub proof fn lemma_join_rest_bounded(stage: JoinStage, query: QueryView, replies: Seq<ReplyView>)
    ensures
        ({
            let trace = run(
                |stage: JoinStage, reply: ReplyView| join_step(stage, reply),
                stage,
                query,
                replies,
            );
            &&& 1 <= trace.reads.len() <= 4 - join_progress(stage)
            &&& trace.outcome matches Some(Ok(_)) ==> trace.reads.len() == 4 - join_progress(
                stage,
            )
        }),
    decreases replies.len(),
{
    let step = |stage: JoinStage, reply: ReplyView| join_step(stage, reply);
    if replies.len() > 0 {
        match join_step(stage, replies[0]) {
            StepView::Ask(next, asked) => {
                lemma_join_rest_bounded(next, asked, replies.drop_first());
            },
            StepView::Done(_) => {},
        }
    }
}

/// Where no list of the batch belongs to `owner`, `owner` owns none of it.
pub proof fn lemma_owner_without_lists(batch: Seq<List>, owner: RecordId)
    requires
        forall|k: int| 0 <= k < batch.len() ==> (#[trigger] batch[k]).user_id != Some(owner),
    ensures
        lists_owned_by(batch, owner) == Seq::<List>::empty(),
    decreases batch.len(),
{
    reveal_with_fuel(Seq::filter, 2);
    if batch.len() > 0 {
        lemma_owner_without_lists(batch.drop_last(), owner);
    }
}

/// No friend is ever dropped for owning nothing: the pairing has one entry
/// for each friend, in the friends' order, and a friend who owns no list of
/// the batch is paired with the empty sequence.
pub proof fn lemma_friend_without_lists_is_kept(friends: Seq<User>, batch: Seq<List>, i: int)
    requires
        0 <= i < friends.len(),
        forall|k: int| 0 <= k < batch.len() ==> (#[trigger] batch[k]).user_id != friends[i].id,
    ensures
        pair_friends(friends, batch).len() == friends.len(),
        pair_friends(friends, batch)[i] == (friends[i], Seq::<List>::empty()),
{
    if let Some(id) = friends[i].id {
        lemma_owner_without_lists(batch, id);
    }
}

/// Whether every user of `users` has an identifier and no two share one, as
/// holds of the users a store keeps.
pub open spec fn distinct_ids(users: Seq<User>) -> bool {
    &&& forall|a: int| 0 <= a < users.len() ==> (#[trigger] users[a]).id is Some
    &&& forall|a: int, b: int|
        0 <= a < users.len() && 0 <= b < users.len() && (#[trigger] users[a]).id == (
        #[trigger] users[b]).id ==> a == b
}

/// Whether one of `users` carries the identifier `id`.
pub open spec fn resolves(users: Seq<User>, id: RecordId) -> bool {
    exists|a: int| 0 <= a < users.len() && (#[trigger] users[a]).id == Some(id)
}

/// Whether `found` is what a store that keeps `users` answers when asked for
/// the users with an identifier among `ids`: each such user once, in any
/// order, and nobody else.
pub open spec fn answers_id_set(users: Seq<User>, ids: Seq<RecordId>, found: Seq<User>) -> bool {
    &&& found.no_duplicates()
    &&& forall|i: int|
        0 <= i < found.len() ==> users.contains(#[trigger] found[i]) && found[i].id is Some
            && ids.contains(found[i].id->0)
    &&& forall|a: int|
        0 <= a < users.len() && (#[trigger] users[a]).id is Some && ids.contains(users[a].id->0)
            ==> found.contains(users[a])
}

/// Whether the entry at `i` is the one and only entry of `pairing` for the
/// friend `id`.
pub open spec fn sole_entry_of(pairing: Seq<(User, Seq<List>)>, id: RecordId, i: int) -> bool {
    &&& 0 <= i < pairing.len()
    &&& pairing[i].0.id == Some(id)
    &&& forall|j: int|
        0 <= j < pairing.len() && (#[trigger] pairing[j]).0.id == Some(id) ==> j == i
}

/// Against a store of users with distinct identifiers, the pairing holds
/// exactly one entry for each friend identifier that resolves to a stored
/// user, and none for any other: a friend identifier without a stored user
/// is dropped. Each entry carries the lists of the batch that its friend
/// owns, in batch order.
pub proof fn lemma_one_entry_per_resolved_friend(
    users: Seq<User>,
    ids: Seq<RecordId>,
    found: Seq<User>,
    batch: Seq<List>,
)
    requires
        distinct_ids(users),
        answers_id_set(users, ids, found),
    ensures
        forall|id: RecordId|
            ids.contains(id) && #[trigger] resolves(users, id) ==> exists|i: int|
                sole_entry_of(pair_friends(found, batch), id, i),
        forall|i: int|
            0 <= i < pair_friends(found, batch).len() ==> {
                let entry = #[trigger] pair_friends(found, batch)[i];
                &&& entry.0.id is Some
                &&& ids.contains(entry.0.id->0)
                &&& resolves(users, entry.0.id->0)
                &&& entry.1 == lists_owned_by(batch, entry.0.id->0)
            },
{
    let pairing = pair_friends(found, batch);
    lemma_found_ids_distinct(users, ids, found);
    assert forall|id: RecordId| ids.contains(id) && #[trigger] resolves(users, id) implies exists|
        i: int,
    |
        sole_entry_of(pairing, id, i) by {
        let a = choose|a: int| 0 <= a < users.len() && (#[trigger] users[a]).id == Some(id);
        assert(found.contains(users[a]));
        let i = choose|i: int| 0 <= i < found.len() && found[i] == users[a];
        assert(pairing[i].0 == found[i]);
        assert forall|j: int| 0 <= j < pairing.len() && (#[trigger] pairing[j]).0.id == Some(
            id,
        ) implies j == i by {
            assert(found[j].id == found[i].id);
        }
        assert(sole_entry_of(pairing, id, i));
    }
    assert forall|i: int| 0 <= i < pairing.len() implies {
        let entry = #[trigger] pairing[i];
        &&& entry.0.id is Some
        &&& ids.contains(entry.0.id->0)
        &&& resolves(users, entry.0.id->0)
        &&& entry.1 == lists_owned_by(batch, entry.0.id->0)
    } by {
        assert(users.contains(found[i]));
        let a = choose|a: int| 0 <= a < users.len() && users[a] == found[i];
        assert(users[a].id == Some(found[i].id->0));
        assert(!seen_before(found, i)) by {
            if seen_before(found, i) {
                let j = choose|j: int| 0 <= j < i && #[trigger] found[j].id == found[i].id;
                assert(false);
            }
        }
    }
}

/// What a store of users with distinct identifiers answers holds no two
/// users with one identifier.
pub proof fn lemma_found_ids_distinct(users: Seq<User>, ids: Seq<RecordId>, found: Seq<User>)
    requires
        distinct_ids(users),
        answers_id_set(users, ids, found),
    ensures
        forall|i: int, j: int|
            0 <= i < found.len() && 0 <= j < found.len() && (#[trigger] found[i]).id == (
            #[trigger] found[j]).id ==> i == j,
{
    assert forall|i: int, j: int|
        0 <= i < found.len() && 0 <= j < found.len() && (#[trigger] found[i]).id == (
        #[trigger] found[j]).id implies i == j by {
        assert(users.contains(found[i]));
        assert(users.contains(found[j]));
        let a = choose|a: int| 0 <= a < users.len() && users[a] == found[i];
        let b = choose|b: int| 0 <= b < users.len() && users[b] == found[j];
        assert(users[a].id == users[b].id);
        assert(a == b);
        assert(found[i] == found[j]);
    }
}

/// A failed read is fatal to the join wherever it happens: no partial
/// dashboard is returned.
pub proof fn lemma_failed_read_ends_join(stage: JoinStage)
    ensures
        join_step(stage, ReplyView::Failed) == StepView::<JoinStage, DashboardView>::Done(
            Err(Failure::StoreFailure),
        ),
{
}

} // verus!
