use shared_lists::resolver::Resolver;
use shared_lists::store::{Failure, Query, Reply, Step};
use shared_lists::views::SingleListPartial;
use shared_lists::{
    AccessLevel, List, ListItem, PrivacyLevel, RecordId, Theme, Timestamp, User,
};

fn id(value: u128) -> RecordId {
    RecordId { value }
}

fn at(millis: i64) -> Timestamp {
    Timestamp { millis }
}

fn user(value: u128, name: &str) -> User {
    User {
        id: Some(id(value)),
        first_name: name.to_string(),
        last_name: "Doe".to_string(),
        access_level: AccessLevel::Admin,
        password: "stored credential".to_string(),
        favorite_users: vec![id(7), id(8)],
        theme: Theme::Dark,
        avatar_key: Some("avatars/ann.png".to_string()),
        created_at: at(1),
        updated_at: at(2),
    }
}

fn list(value: u128, owner: Option<u128>, name: &str) -> List {
    List {
        id: Some(id(value)),
        user_id: owner.map(id),
        name: name.to_string(),
        color: "#336699".to_string(),
        privacy_level: PrivacyLevel::Private,
        list_item_order: Some(vec![id(33), id(31), id(32)]),
        created_at: at(3),
        updated_at: at(4),
    }
}

fn item(value: u128, of: u128, name: &str, removed: Option<i64>) -> ListItem {
    ListItem {
        id: Some(id(value)),
        list_id: Some(id(of)),
        name: name.to_string(),
        link: None,
        claimer_id: None,
        claimer_string: Some("grandma".to_string()),
        removed_at: removed.map(at),
        created_at: at(5),
        updated_at: at(6),
    }
}

const X: u128 = 0xaa;
const OWNER: u128 = 0xbb;

#[test]
fn resolution_starts_with_the_list() {
    let (state, query) = Resolver::begin(id(X));
    assert_eq!(state, Resolver::AwaitList);
    assert_eq!(query, Query::ListWithId(id(X)));
}

#[test]
fn missing_list_is_not_found() {
    let (state, _) = Resolver::begin(id(X));
    assert_eq!(state.step(Reply::List(None)), Step::Done(Err(Failure::NotFound)));
}

#[test]
fn list_without_owner_is_not_found() {
    let (state, _) = Resolver::begin(id(X));
    let orphan = list(X, None, "orphan");
    assert_eq!(state.step(Reply::List(Some(orphan))), Step::Done(Err(Failure::NotFound)));
}

#[test]
fn missing_owner_is_not_found() {
    let (state, _) = Resolver::begin(id(X));
    let (state, query) = match state.step(Reply::List(Some(list(X, Some(OWNER), "wishes")))) {
        Step::Ask(state, query) => (state, query),
        other => panic!("resolution ended early: {:?}", other),
    };
    assert_eq!(query, Query::UserWithId(id(OWNER)));
    assert_eq!(state.step(Reply::User(None)), Step::Done(Err(Failure::NotFound)));
}

#[test]
fn resolution_returns_every_item_removed_or_not() {
    let wishes = list(X, Some(OWNER), "wishes");
    let ann = user(OWNER, "Ann");
    let items = vec![
        item(31, X, "socks", None),
        item(32, X, "book", Some(1_700_000_000_000)),
        item(33, X, "bike", None),
        item(34, X, "kite", Some(0)),
    ];

    let (state, query) = Resolver::begin(id(X));
    assert_eq!(query, Query::ListWithId(id(X)));
    let (state, query) = match state.step(Reply::List(Some(wishes.clone()))) {
        Step::Ask(state, query) => (state, query),
        other => panic!("resolution ended early: {:?}", other),
    };
    assert_eq!(query, Query::UserWithId(id(OWNER)));
    let (state, query) = match state.step(Reply::User(Some(ann.clone()))) {
        Step::Ask(state, query) => (state, query),
        other => panic!("resolution ended early: {:?}", other),
    };
    assert_eq!(query, Query::ItemsOfList(id(X)));
    let done = state.step(Reply::Items(items.clone()));
    match &done {
        Step::Done(Ok(detail)) => assert_eq!(detail.list_items.len(), 4),
        other => panic!("resolution did not succeed: {:?}", other),
    }
    assert_eq!(
        done,
        Step::Done(Ok(SingleListPartial { list: wishes, list_items: items, user: ann }))
    );
}

#[test]
fn resolution_does_not_reorder_items() {
    // The list names an order of its own; the resolver passes the store's order on.
    let wishes = list(X, Some(OWNER), "wishes");
    let items = vec![item(31, X, "first", None), item(32, X, "second", None), item(33, X, "third", None)];
    let state = Resolver::AwaitItems { list: wishes, user: user(OWNER, "Ann") };
    match state.step(Reply::Items(items.clone())) {
        Step::Done(Ok(detail)) => assert_eq!(detail.list_items, items),
        other => panic!("resolution did not succeed: {:?}", other),
    }
}

#[test]
fn resolution_of_a_list_without_items() {
    let state = Resolver::AwaitItems { list: list(X, Some(OWNER), "empty"), user: user(OWNER, "Ann") };
    match state.step(Reply::Items(vec![])) {
        Step::Done(Ok(detail)) => assert!(detail.list_items.is_empty()),
        other => panic!("resolution did not succeed: {:?}", other),
    }
}

#[test]
fn items_are_asked_for_by_the_lists_own_identifier() {
    let state = Resolver::AwaitOwner { list: list(0xcc, Some(OWNER), "renamed") };
    match state.step(Reply::User(Some(user(OWNER, "Ann")))) {
        Step::Ask(_, query) => assert_eq!(query, Query::ItemsOfList(id(0xcc))),
        other => panic!("resolution ended early: {:?}", other),
    }
}

#[test]
fn stored_list_without_identifier_is_a_store_failure() {
    let mut nameless = list(X, Some(OWNER), "nameless");
    nameless.id = None;
    let state = Resolver::AwaitOwner { list: nameless };
    assert_eq!(
        state.step(Reply::User(Some(user(OWNER, "Ann")))),
        Step::Done(Err(Failure::StoreFailure))
    );
}

#[test]
fn resolution_fails_on_a_failed_read_at_every_stage() {
    assert_eq!(Resolver::AwaitList.step(Reply::Failed), Step::Done(Err(Failure::StoreFailure)));
    let state = Resolver::AwaitOwner { list: list(X, Some(OWNER), "wishes") };
    assert_eq!(state.step(Reply::Failed), Step::Done(Err(Failure::StoreFailure)));
    let state = Resolver::AwaitItems { list: list(X, Some(OWNER), "wishes"), user: user(OWNER, "Ann") };
    assert_eq!(state.step(Reply::Failed), Step::Done(Err(Failure::StoreFailure)));
}

#[test]
fn resolution_fails_on_an_answer_of_another_kind() {
    assert_eq!(
        Resolver::AwaitList.step(Reply::User(None)),
        Step::Done(Err(Failure::StoreFailure))
    );
    let state = Resolver::AwaitOwner { list: list(X, Some(OWNER), "wishes") };
    assert_eq!(state.step(Reply::List(None)), Step::Done(Err(Failure::StoreFailure)));
    let state = Resolver::AwaitItems { list: list(X, Some(OWNER), "wishes"), user: user(OWNER, "Ann") };
    assert_eq!(state.step(Reply::Lists(vec![])), Step::Done(Err(Failure::StoreFailure)));
}
