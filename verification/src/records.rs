//! The four kinds of stored record, as plain values.

use crate::ident::RecordId;
use vstd::prelude::*;

verus! {

/// A point in time, in milliseconds since the Unix epoch.
#[derive(Clone, Copy, Debug, PartialEq, Eq, Structural, Hash)]
pub struct Timestamp {
    pub millis: i64,
}

/// What a user may do.
#[derive(Clone, Copy, Debug, PartialEq, Eq, Structural, Hash)]
pub enum AccessLevel {
    User,
    Admin,
}

impl Default for AccessLevel {
    /// A user without a stored access level is an ordinary user.
    fn default() -> (level: AccessLevel)
        ensures
            level == AccessLevel::User,
    {
        AccessLevel::User
    }
}

/// The colour scheme a user has chosen.
#[derive(Clone, Copy, Debug, PartialEq, Eq, Structural, Hash)]
pub enum Theme {
    Light,
    Dark,
}

impl Default for Theme {
    /// A user without a stored theme sees the light one.
    fn default() -> (theme: Theme)
        ensures
            theme == Theme::Light,
    {
        Theme::Light
    }
}

/// Who may see a list.
#[derive(Clone, Copy, Debug, PartialEq, Eq, Structural, Hash)]
pub enum PrivacyLevel {
    Public,
    Private,
}

impl Default for PrivacyLevel {
    /// A list without a stored privacy level is public.
    fn default() -> (level: PrivacyLevel)
        ensures
            level == PrivacyLevel::Public,
    {
        PrivacyLevel::Public
    }
}

/// A person who owns lists and befriends other users.
#[derive(Clone, Debug, PartialEq, Eq)]
pub struct User {
    pub id: Option<RecordId>,
    pub first_name: String,
    pub last_name: String,
    pub access_level: AccessLevel,
    /// The stored credential; carried, never read.
    pub password: String,
    pub favorite_users: Vec<RecordId>,
    pub theme: Theme,
    pub avatar_key: Option<String>,
    pub created_at: Timestamp,
    pub updated_at: Timestamp,
}

/// A named list. A list without `user_id` is orphaned: nobody owns it.
#[derive(Clone, Debug, PartialEq, Eq)]
pub struct List {
    pub id: Option<RecordId>,
    pub user_id: Option<RecordId>,
    pub name: String,
    pub color: String,
    pub privacy_level: PrivacyLevel,
    /// An explicit order for the list's items, for whoever displays them.
    pub list_item_order: Option<Vec<RecordId>>,
    pub created_at: Timestamp,
    pub updated_at: Timestamp,
}

/// One entry of a list. An item with `removed_at` is logically deleted but
/// still stored.
#[derive(Clone, Debug, PartialEq, Eq)]
pub struct ListItem {
    pub id: Option<RecordId>,
    pub list_id: Option<RecordId>,
    pub name: String,
    pub link: Option<String>,
    pub claimer_id: Option<RecordId>,
    pub claimer_string: Option<String>,
    pub removed_at: Option<Timestamp>,
    pub created_at: Timestamp,
    pub updated_at: Timestamp,
}

/// A directed edge: `user_id` counts `friend_id` as a friend.
#[derive(Clone, Copy, Debug, PartialEq, Eq, Structural, Hash)]
pub struct Friendship {
    pub id: Option<RecordId>,
    pub user_id: RecordId,
    pub friend_id: RecordId,
    pub created_at: Timestamp,
    pub updated_at: Timestamp,
}

} // verus!
