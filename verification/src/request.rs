//! What a machine asks its driver to do, and what the driver reports back.

use crate::route::{Family, RouteSpec};
use vstd::prelude::*;

verus! {

/// Outside work that a pass asks for.
#[derive(Clone, Copy, Debug, PartialEq, Eq, Structural)]
pub enum Request {
    /// Fetch the address list of a family from its configured URL.
    Fetch { family: Family },
    /// Query the kernel for the routes of a family.
    ListRoutes { family: Family },
    /// Delete a route that the last query returned; `index` is its position
    /// in the answer to that query.
    DeleteRoute { index: usize, route: RouteSpec },
    /// Add a route.
    AddRoute { route: RouteSpec },
}

/// The outcome of outside work.
#[derive(Debug)]
pub enum Reply {
    /// The body of a fetched list.
    Fetched(String),
    /// The fetch failed: timeout, transport failure or non-success status.
    FetchFailed,
    /// The routes that a query returned.
    Listed(Vec<RouteSpec>),
    /// The query failed.
    ListFailed,
    /// One delete or add has resolved, with success or failure.
    Completed { ok: bool },
}

/// A reply as the contracts see it.
pub enum ReplyView {
    Fetched(Seq<char>),
    FetchFailed,
    Listed(Seq<RouteSpec>),
    ListFailed,
    Completed { ok: bool },
}

impl View for Reply {
    type V = ReplyView;

    open spec fn view(&self) -> ReplyView {
        match self {
            Reply::Fetched(text) => ReplyView::Fetched(text@),
            Reply::FetchFailed => ReplyView::FetchFailed,
            Reply::Listed(routes) => ReplyView::Listed(routes@),
            Reply::ListFailed => ReplyView::ListFailed,
            Reply::Completed { ok } => ReplyView::Completed { ok: *ok },
        }
    }
}

/// The part of a pass in which a failure was observed.
#[derive(Clone, Copy, Debug, PartialEq, Eq, Structural)]
pub enum Phase {
    /// Fetching the address list.
    Fetch,
    /// Querying or deleting the existing routes.
    Delete,
    /// Adding the desired routes.
    Add,
}

/// What a machine wants next.
#[derive(Debug, PartialEq, Eq, Structural)]
pub enum Poll<T> {
    /// Start this work, then ask again.
    Perform(Request),
    /// Nothing can start before a reply arrives.
    Wait,
    /// The machine has ended with this result.
    Finished(T),
}

impl Request {
    /// Whether the request changes the kernel's routing tables.
    pub open spec fn is_mutation(self) -> bool {
        self is DeleteRoute || self is AddRoute
    }
}

} // verus!
