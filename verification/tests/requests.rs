use shared_lists::selector::{merge, select_shape, ListRequest, RenderShape};
use shared_lists::store::{Failure, Query, Reply, Step};
use shared_lists::views::{
    body_or_failure, ListsPage, ListsPageViewSingleList, SingleListPartial, ViewType,
};
use shared_lists::{
    AccessLevel, Friendship, List, ListItem, PrivacyLevel, RecordId, Theme, Timestamp, User,
};

fn id(value: u128) -> RecordId {
    RecordId { value }
}

fn at(millis: i64) -> Timestamp {
    Timestamp { millis }
}

fn user(value: u128, name: &str) -> User {
    User {
        id: Some(id(value)),
        first_name: name.to_string(),
        last_name: "Doe".to_string(),
        access_level: AccessLevel::User,
        password: "stored credential".to_string(),
        favorite_users: vec![],
        theme: Theme::Light,
        avatar_key: None,
        created_at: at(1),
        updated_at: at(2),
    }
}

fn list(value: u128, owner: Option<u128>, name: &str) -> List {
    List {
        id: Some(id(value)),
        user_id: owner.map(id),
        name: name.to_string(),
        color: "#ffffff".to_string(),
        privacy_level: PrivacyLevel::Public,
        list_item_order: None,
        created_at: at(3),
        updated_at: at(4),
    }
}

fn item(value: u128, of: u128, name: &str) -> ListItem {
    ListItem {
        id: Some(id(value)),
        list_id: Some(id(of)),
        name: name.to_string(),
        link: Some("https://example.org/thing".to_string()),
        claimer_id: Some(id(77)),
        claimer_string: None,
        removed_at: None,
        created_at: at(5),
        updated_at: at(6),
    }
}

fn friendship(value: u128, from: u128, to: u128) -> Friendship {
    Friendship {
        id: Some(id(value)),
        user_id: id(from),
        friend_id: id(to),
        created_at: at(7),
        updated_at: at(8),
    }
}

/// Feeds `replies` to the request one by one; returns the reads asked for and
/// how the request ended.
fn drive(
    list_id: u128,
    viewer: u128,
    origin: Option<&str>,
    replies: Vec<Reply>,
) -> (Vec<Query>, Option<Result<ViewType, Failure>>) {
    let origin = origin.map(|value| value.to_string());
    let (mut state, first) = ListRequest::begin(id(list_id), id(viewer), &origin);
    let mut reads = vec![first];
    for reply in replies {
        match state.step(reply) {
            Step::Ask(next, query) => {
                state = next;
                reads.push(query);
            }
            Step::Done(outcome) => return (reads, Some(outcome)),
        }
    }
    (reads, None)
}

const V: u128 = 0x5e2d_eeb7_b337_5331_3603_5340;
const X: u128 = 0xaa;
const Y: u128 = 0xab;
const OWNER: u128 = 0xbb;
const F1: u128 = 101;
const F2: u128 = 102;

fn detail_replies() -> Vec<Reply> {
    vec![
        Reply::List(Some(list(X, Some(OWNER), "wishes"))),
        Reply::User(Some(user(OWNER, "Ann"))),
        Reply::Items(vec![item(31, X, "socks"), item(32, X, "book")]),
    ]
}

fn dashboard_replies() -> Vec<Reply> {
    vec![
        Reply::Lists(vec![list(1, Some(V), "A"), list(2, Some(V), "B")]),
        Reply::Friendships(vec![friendship(11, V, F1), friendship(12, V, F2)]),
        Reply::Lists(vec![list(3, Some(F1), "C")]),
        Reply::Users(vec![user(F1, "Fay"), user(F2, "Gus")]),
    ]
}

fn detail() -> SingleListPartial {
    SingleListPartial {
        list: list(X, Some(OWNER), "wishes"),
        list_items: vec![item(31, X, "socks"), item(32, X, "book")],
        user: user(OWNER, "Ann"),
    }
}

#[test]
fn header_true_selects_the_fragment() {
    assert_eq!(select_shape(&Some("true".to_string())), RenderShape::Fragment);
}

#[test]
fn absent_header_selects_the_full_page() {
    assert_eq!(select_shape(&None), RenderShape::Composite);
}

#[test]
fn any_other_header_value_selects_the_full_page() {
    for value in ["false", "", "True", "TRUE", "true ", " true", "1", "yes", "tru", "truee"] {
        assert_eq!(select_shape(&Some(value.to_string())), RenderShape::Composite, "{:?}", value);
    }
}

#[test]
fn fragment_request_returns_the_detail_only() {
    let (reads, outcome) = drive(X, V, Some("true"), detail_replies());
    assert_eq!(
        reads,
        vec![Query::ListWithId(id(X)), Query::UserWithId(id(OWNER)), Query::ItemsOfList(id(X))]
    );
    assert_eq!(outcome, Some(Ok(ViewType::Partial(detail()))));
}

#[test]
fn fragment_request_never_reads_the_dashboard() {
    let mut replies = detail_replies();
    replies.extend(dashboard_replies());
    let (reads, outcome) = drive(X, V, Some("true"), replies);
    assert_eq!(reads.len(), 3);
    assert!(reads.iter().all(|query| matches!(
        query,
        Query::ListWithId(_) | Query::UserWithId(_) | Query::ItemsOfList(_)
    )));
    assert!(matches!(outcome, Some(Ok(ViewType::Partial(_)))));
}

#[test]
fn full_page_request_joins_the_dashboard() {
    let mut replies = detail_replies();
    replies.extend(dashboard_replies());
    let (reads, outcome) = drive(X, V, None, replies);
    assert_eq!(
        reads,
        vec![
            Query::ListWithId(id(X)),
            Query::UserWithId(id(OWNER)),
            Query::ItemsOfList(id(X)),
            Query::ListsOwnedBy(id(V)),
            Query::FriendshipsFrom(id(V)),
            Query::ListsOwnedByAny(vec![id(F1), id(F2)]),
            Query::UsersWithIds(vec![id(F1), id(F2)]),
        ]
    );
    assert_eq!(
        outcome,
        Some(Ok(ViewType::Page(ListsPageViewSingleList {
            my_lists: vec![list(1, Some(V), "A"), list(2, Some(V), "B")],
            friends_lists: vec![
                (user(F1, "Fay"), vec![list(3, Some(F1), "C")]),
                (user(F2, "Gus"), vec![]),
            ],
            list: list(X, Some(OWNER), "wishes"),
            list_items: vec![item(31, X, "socks"), item(32, X, "book")],
            user: user(OWNER, "Ann"),
        })))
    );
}

#[test]
fn fragment_takes_fewer_reads_than_the_full_page() {
    let mut replies = detail_replies();
    replies.extend(dashboard_replies());
    let (fragment_reads, _) = drive(X, V, Some("true"), replies.clone());
    let (page_reads, _) = drive(X, V, Some("false"), replies);
    assert_eq!(fragment_reads.len(), 3);
    assert_eq!(page_reads.len(), 7);
}

#[test]
fn full_page_request_for_a_missing_list_never_reads_the_dashboard() {
    let mut replies = vec![Reply::List(None)];
    replies.extend(dashboard_replies());
    let (reads, outcome) = drive(Y, V, None, replies);
    assert_eq!(reads, vec![Query::ListWithId(id(Y))]);
    assert_eq!(outcome, Some(Err(Failure::NotFound)));
}

#[test]
fn fragment_request_for_a_missing_list_is_not_found() {
    let (reads, outcome) = drive(Y, V, Some("true"), vec![Reply::List(None)]);
    assert_eq!(reads, vec![Query::ListWithId(id(Y))]);
    assert_eq!(outcome, Some(Err(Failure::NotFound)));
}

#[test]
fn full_page_request_for_an_unowned_list_is_not_found() {
    let (reads, outcome) = drive(X, V, None, vec![Reply::List(Some(list(X, None, "orphan")))]);
    assert_eq!(reads, vec![Query::ListWithId(id(X))]);
    assert_eq!(outcome, Some(Err(Failure::NotFound)));
}

#[test]
fn failed_join_fails_the_request_without_a_fragment() {
    let mut replies = detail_replies();
    replies.push(Reply::Lists(vec![]));
    replies.push(Reply::Failed);
    let (reads, outcome) = drive(X, V, None, replies);
    assert_eq!(reads.len(), 5);
    assert_eq!(outcome, Some(Err(Failure::StoreFailure)));
}

#[test]
fn failed_resolution_fails_the_request() {
    let (reads, outcome) = drive(X, V, None, vec![Reply::Failed]);
    assert_eq!(reads.len(), 1);
    assert_eq!(outcome, Some(Err(Failure::StoreFailure)));
}

#[test]
fn request_joins_for_the_viewer_not_for_the_owner() {
    let (reads, _) = drive(X, V, None, detail_replies());
    assert_eq!(reads.last(), Some(&Query::ListsOwnedBy(id(V))));
}

#[test]
fn merge_keeps_both_parts() {
    let page = ListsPage {
        my_lists: vec![list(1, Some(V), "A")],
        friends_lists: vec![(user(F1, "Fay"), vec![list(3, Some(F1), "C")])],
    };
    assert_eq!(
        merge(detail(), page),
        ListsPageViewSingleList {
            my_lists: vec![list(1, Some(V), "A")],
            friends_lists: vec![(user(F1, "Fay"), vec![list(3, Some(F1), "C")])],
            list: list(X, Some(OWNER), "wishes"),
            list_items: vec![item(31, X, "socks"), item(32, X, "book")],
            user: user(OWNER, "Ann"),
        }
    );
}

#[test]
fn rendered_text_is_the_body() {
    assert_eq!(body_or_failure(Ok("<ul></ul>".to_string())), "<ul></ul>");
    assert_eq!(body_or_failure(Ok(String::new())), "");
}

#[test]
fn rendering_failure_is_reported_in_the_body() {
    assert_eq!(
        body_or_failure(Err("missing field `name`".to_string())),
        "Failed to render template: missing field `name`"
    );
    assert_eq!(body_or_failure(Err(String::new())), "Failed to render template: ");
}

#[test]
fn stored_defaults() {
    assert_eq!(AccessLevel::default(), AccessLevel::User);
    assert_eq!(Theme::default(), Theme::Light);
    assert_eq!(PrivacyLevel::default(), PrivacyLevel::Public);
}
