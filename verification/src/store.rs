//! The protocol between an aggregation and the record store: the reads an
//! aggregation may ask for, what comes back, and how one step ends.

use crate::ident::RecordId;
use crate::records::{Friendship, List, ListItem, User};
use vstd::prelude::*;

verus! {

/// Why an aggregation produced nothing.
#[derive(Clone, Copy, Debug, PartialEq, Eq, Structural, Hash)]
pub enum Failure {
    /// A read failed. Nothing is retried and nothing partial is returned.
    StoreFailure,
    /// The list asked for, or its owner, is not in the store.
    NotFound,
}

/// One read of the record store.
#[derive(Clone, Debug, PartialEq, Eq)]
pub enum Query {
    /// Every list whose owner is the given user.
    ListsOwnedBy(RecordId),
    /// Every friendship row that starts at the given user.
    FriendshipsFrom(RecordId),
    /// Every list whose owner is one of the given users, in one read.
    ListsOwnedByAny(Vec<RecordId>),
    /// Every user whose identifier is one of the given ones, in one read.
    UsersWithIds(Vec<RecordId>),
    /// The list with the given identifier, if there is one.
    ListWithId(RecordId),
    /// The user with the given identifier, if there is one.
    UserWithId(RecordId),
    /// Every item of the given list, removed ones included.
    ItemsOfList(RecordId),
}

/// A read, with its identifiers as a plain sequence.
pub enum QueryView {
    ListsOwnedBy(RecordId),
    FriendshipsFrom(RecordId),
    ListsOwnedByAny(Seq<RecordId>),
    UsersWithIds(Seq<RecordId>),
    ListWithId(RecordId),
    UserWithId(RecordId),
    ItemsOfList(RecordId),
}

impl View for Query {
    type V = QueryView;

    open spec fn view(&self) -> QueryView {
        match self {
            Query::ListsOwnedBy(id) => QueryView::ListsOwnedBy(*id),
            Query::FriendshipsFrom(id) => QueryView::FriendshipsFrom(*id),
            Query::ListsOwnedByAny(ids) => QueryView::ListsOwnedByAny(ids@),
            Query::UsersWithIds(ids) => QueryView::UsersWithIds(ids@),
            Query::ListWithId(id) => QueryView::ListWithId(*id),
            Query::UserWithId(id) => QueryView::UserWithId(*id),
            Query::ItemsOfList(id) => QueryView::ItemsOfList(*id),
        }
    }
}

/// What the store answered to one read.
#[derive(Clone, Debug, PartialEq, Eq)]
pub enum Reply {
    Lists(Vec<List>),
    Friendships(Vec<Friendship>),
    Users(Vec<User>),
    List(Option<List>),
    User(Option<User>),
    Items(Vec<ListItem>),
    /// The read failed.
    Failed,
}

/// An answer, with its records as a plain sequence.
pub enum ReplyView {
    Lists(Seq<List>),
    Friendships(Seq<Friendship>),
    Users(Seq<User>),
    List(Option<List>),
    User(Option<User>),
    Items(Seq<ListItem>),
    Failed,
}

impl View for Reply {
    type V = ReplyView;

    open spec fn view(&self) -> ReplyView {
        match self {
            Reply::Lists(lists) => ReplyView::Lists(lists@),
            Reply::Friendships(rows) => ReplyView::Friendships(rows@),
            Reply::Users(users) => ReplyView::Users(users@),
            Reply::List(list) => ReplyView::List(*list),
            Reply::User(user) => ReplyView::User(*user),
            Reply::Items(items) => ReplyView::Items(items@),
            Reply::Failed => ReplyView::Failed,
        }
    }
}

/// How one step of an aggregation ends: with the next read to perform, or
/// with the aggregation's outcome.
#[derive(Debug, PartialEq, Eq)]
pub enum Step<S, T> {
    /// Perform the read and hand its answer to the state.
    Ask(S, Query),
    /// The aggregation is over.
    Done(Result<T, Failure>),
}

/// The end of a step, over the models of state and outcome.
pub enum StepView<S, T> {
    Ask(S, QueryView),
    Done(Result<T, Failure>),
}

impl<S: View, T: View> View for Step<S, T> {
    type V = StepView<S::V, T::V>;

    open spec fn view(&self) -> StepView<S::V, T::V> {
        match self {
            Step::Ask(state, query) => StepView::Ask(state@, query@),
            Step::Done(Ok(outcome)) => StepView::Done(Ok(outcome@)),
            Step::Done(Err(failure)) => StepView::Done(Err(*failure)),
        }
    }
}

} // verus!
