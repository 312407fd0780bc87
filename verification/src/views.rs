//! The view models handed to whoever renders a page: the dashboard, the
//! detail of one list, and the two together.

use crate::records::{List, ListItem, User};
use vstd::prelude::*;
use vstd::string::StringExecFns;

verus! {

/// What a dashboard shows: the viewer's own lists, and each friend with the
/// lists that friend owns.
pub struct DashboardView {
    pub owned: Seq<List>,
    pub friends: Seq<(User, Seq<List>)>,
}

/// What the detail of one list shows: the list, its owner and its items.
pub struct DetailView {
    pub list: List,
    pub user: User,
    pub items: Seq<ListItem>,
}

/// What a request for one list is answered with.
pub enum Rendering {
    /// The detail alone, to be swapped into a page the client already has.
    Fragment(DetailView),
    /// The detail inside the full dashboard, for a fresh page load.
    Composite(DetailView, DashboardView),
}

/// Friends with their lists, each list sequence taken as a plain sequence.
pub open spec fn pairs_view(pairs: Seq<(User, Vec<List>)>) -> Seq<(User, Seq<List>)> {
    pairs.map_values(|pair: (User, Vec<List>)| (pair.0, pair.1@))
}

/// The dashboard.
#[derive(Clone, Debug, PartialEq, Eq)]
pub struct ListsPage {
    pub my_lists: Vec<List>,
    pub friends_lists: Vec<(User, Vec<List>)>,
}

impl View for ListsPage {
    type V = DashboardView;

    open spec fn view(&self) -> DashboardView {
        DashboardView { owned: self.my_lists@, friends: pairs_view(self.friends_lists@) }
    }
}

/// The detail of one list, on its own.
#[derive(Clone, Debug, PartialEq, Eq)]
pub struct SingleListPartial {
    pub list: List,
    pub list_items: Vec<ListItem>,
    pub user: User,
}

impl View for SingleListPartial {
    type V = DetailView;

    open spec fn view(&self) -> DetailView {
        DetailView { list: self.list, user: self.user, items: self.list_items@ }
    }
}

/// The dashboard with the detail of one list in focus.
#[derive(Clone, Debug, PartialEq, Eq)]
pub struct ListsPageViewSingleList {
    pub my_lists: Vec<List>,
    pub friends_lists: Vec<(User, Vec<List>)>,
    pub list: List,
    pub list_items: Vec<ListItem>,
    pub user: User,
}

impl ListsPageViewSingleList {
    /// The focused list's detail.
    pub open spec fn detail(&self) -> DetailView {
        DetailView { list: self.list, user: self.user, items: self.list_items@ }
    }

    /// The dashboard around the focused list.
    pub open spec fn dashboard(&self) -> DashboardView {
        DashboardView { owned: self.my_lists@, friends: pairs_view(self.friends_lists@) }
    }
}

/// The two shapes a response to a request for one list can take.
#[derive(Clone, Debug, PartialEq, Eq)]
pub enum ViewType {
    Partial(SingleListPartial),
    Page(ListsPageViewSingleList),
}

impl View for ViewType {
    type V = Rendering;

    open spec fn view(&self) -> Rendering {
        match self {
            ViewType::Partial(partial) => Rendering::Fragment(partial@),
            ViewType::Page(page) => Rendering::Composite(page.detail(), page.dashboard()),
        }
    }
}

/// The text sent in place of a page that could not be rendered: a fixed
/// notice followed by the renderer's own words.
pub open spec fn failure_notice(reason: Seq<char>) -> Seq<char> {
    "Failed to render template: "@ + reason
}

/// The body of a response, given how rendering went: the rendered text, or
/// the failure notice. A rendering failure is reported in the body; it does
/// not fail the request.
pub fn body_or_failure(rendered: Result<String, String>) -> (body: String)
    ensures
        body@ == match rendered {
            Ok(text) => text@,
            Err(reason) => failure_notice(reason@),
        },
{
    match rendered {
        Ok(text) => text,
        Err(reason) => String::from_str("Failed to render template: ").concat(reason.as_str()),
    }
}

} // verus!
