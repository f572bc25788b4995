//! A model of the kernel's routing tables, to say what a pass does to them.
//!
//! The tables are a multiset of routes. Deleting a route takes one instance
//! away, adding a route puts one in. The model assumes that the managed table
//! is owned by this tool alone and that every call succeeds.

use crate::reconcile::{
    additions, deletions, in_table, lemma_done_mutations, positions_in_table, replacement,
    ReconcilerView, Stage,
};
use crate::request::Request;
use crate::route::{Family, RouteSpec};
use vstd::multiset::Multiset;
use vstd::prelude::*;

verus! {

/// The tables after one request.
pub open spec fn apply(routes: Multiset<RouteSpec>, request: Request) -> Multiset<RouteSpec> {
    match request {
        Request::DeleteRoute { route, .. } => routes.remove(route),
        Request::AddRoute { route } => routes.insert(route),
        _ => routes,
    }
}

/// The tables after a sequence of requests, taken in order.
pub open spec fn apply_all(routes: Multiset<RouteSpec>, requests: Seq<Request>) -> Multiset<
    RouteSpec,
>
    decreases requests.len(),
{
    if requests.len() == 0 {
        routes
    } else {
        apply(apply_all(routes, requests.drop_last()), requests.last())
    }
}

/// The routes of the tables that live in table `table` of `family`.
pub open spec fn managed(routes: Multiset<RouteSpec>, family: Family, table: u8) -> Multiset<
    RouteSpec,
> {
    routes.filter(|r: RouteSpec| r.managed_by(family, table))
}

/// The routes of the tables that live anywhere else.
pub open spec fn unmanaged(routes: Multiset<RouteSpec>, family: Family, table: u8) -> Multiset<
    RouteSpec,
> {
    routes.filter(|r: RouteSpec| !r.managed_by(family, table))
}

/// Whether `listing` is an answer that the kernel may give to a query for the
/// routes of `family`: it may hold routes of other tables, and those of it
/// that live in `table` are exactly the routes of `family` in that table.
pub open spec fn answers_query(
    routes: Multiset<RouteSpec>,
    family: Family,
    table: u8,
    listing: Seq<RouteSpec>,
) -> bool {
    in_table(listing, table).to_multiset() == managed(routes, family, table)
}

/// The tables after a pass that met no failure, given the answer to its query.
pub open spec fn after_pass(
    routes: Multiset<RouteSpec>,
    table: u8,
    listing: Seq<RouteSpec>,
    desired: Seq<RouteSpec>,
) -> Multiset<RouteSpec> {
    apply_all(
        routes,
        replacement(in_table(listing, table), positions_in_table(listing, table), desired),
    )
}

/// Requests taken one after the other act like their concatenation.
pub proof fn lemma_apply_all_concat(
    routes: Multiset<RouteSpec>,
    first: Seq<Request>,
    second: Seq<Request>,
)
    ensures
        apply_all(routes, first + second) == apply_all(apply_all(routes, first), second),
    decreases second.len(),
{
    if second.len() == 0 {
        assert(first + second =~= first);
    } else {
        lemma_apply_all_concat(routes, first, second.drop_last());
        assert((first + second).drop_last() =~= first + second.drop_last());
        assert((first + second).last() == second.last());
    }
}

/// Deleting each of `existing` takes exactly those instances away.
pub proof fn lemma_apply_deletions(
    routes: Multiset<RouteSpec>,
    existing: Seq<RouteSpec>,
    positions: Seq<usize>,
)
    ensures
        apply_all(routes, deletions(existing, positions)) == routes.sub(existing.to_multiset()),
    decreases existing.len(),
{
    broadcast use vstd::multiset::group_multiset_axioms;
    broadcast use vstd::seq_lib::group_to_multiset_ensures;

    if existing.len() == 0 {
        assert(existing.to_multiset() =~= Multiset::<RouteSpec>::empty());
        assert(routes.sub(existing.to_multiset()) =~= routes);
    } else {
        let init = existing.drop_last();
        lemma_apply_deletions(routes, init, positions);
        assert(deletions(existing, positions).drop_last() =~= deletions(init, positions));
        assert(existing =~= init.push(existing.last()));
        assert(existing.to_multiset() =~= init.to_multiset().insert(existing.last()));
        assert(routes.sub(init.to_multiset()).remove(existing.last()) =~= routes.sub(
            existing.to_multiset(),
        ));
    }
}

/// Adding each of `desired` puts exactly those instances in.
pub proof fn lemma_apply_additions(routes: Multiset<RouteSpec>, desired: Seq<RouteSpec>)
    ensures
        apply_all(routes, additions(desired)) == routes.add(desired.to_multiset()),
    decreases desired.len(),
{
    broadcast use vstd::multiset::group_multiset_axioms;
    broadcast use vstd::seq_lib::group_to_multiset_ensures;

    if desired.len() == 0 {
        assert(desired.to_multiset() =~= Multiset::<RouteSpec>::empty());
        assert(routes.add(desired.to_multiset()) =~= routes);
    } else {
        let init = desired.drop_last();
        lemma_apply_additions(routes, init);
        assert(additions(desired).drop_last() =~= additions(init));
        assert(desired =~= init.push(desired.last()));
        assert(desired.to_multiset() =~= init.to_multiset().insert(desired.last()));
        assert(routes.add(init.to_multiset()).insert(desired.last()) =~= routes.add(
            desired.to_multiset(),
        ));
    }
}

/// Full replacement: a pass that meets no failure leaves in the managed
/// table exactly the desired routes, as often as the list names them, and
/// leaves every other route as it was.
pub proof fn lemma_pass_replaces(
    routes: Multiset<RouteSpec>,
    family: Family,
    table: u8,
    listing: Seq<RouteSpec>,
    desired: Seq<RouteSpec>,
)
    requires
        answers_query(routes, family, table, listing),
        forall|i: int| 0 <= i < desired.len() ==> (#[trigger] desired[i]).managed_by(family, table),
    ensures
        after_pass(routes, table, listing, desired) == unmanaged(routes, family, table).add(
            desired.to_multiset(),
        ),
        managed(after_pass(routes, table, listing, desired), family, table)
            == desired.to_multiset(),
        unmanaged(after_pass(routes, table, listing, desired), family, table) == unmanaged(
            routes,
            family,
            table,
        ),
{
    broadcast use vstd::multiset::group_multiset_axioms;
    broadcast use vstd::seq_lib::group_to_multiset_ensures;

    let existing = in_table(listing, table);
    let after = after_pass(routes, table, listing, desired);
    let positions = positions_in_table(listing, table);
    lemma_apply_all_concat(routes, deletions(existing, positions), additions(desired));
    lemma_apply_deletions(routes, existing, positions);
    lemma_apply_additions(routes.sub(existing.to_multiset()), desired);
    assert(after == routes.sub(managed(routes, family, table)).add(desired.to_multiset()));
    assert(routes.sub(managed(routes, family, table)) =~= unmanaged(routes, family, table));
    assert forall|r: RouteSpec| !r.managed_by(family, table) implies desired.to_multiset().count(r)
        == 0 by {
        if desired.to_multiset().count(r) > 0 {
            assert(desired.contains(r));
            let i = choose|i: int| 0 <= i < desired.len() && desired[i] == r;
            assert(desired[i].managed_by(family, table));
        }
    }
    assert(managed(after, family, table) =~= desired.to_multiset());
    assert(unmanaged(after, family, table) =~= unmanaged(routes, family, table));
}

/// What a pass does to the tables: once it has ended with success, the
/// requests it has handed out, taken in their order, leave in the managed
/// table exactly the desired routes and leave every other route as it was.
pub proof fn lemma_done_pass_replaces(s: ReconcilerView, routes: Multiset<RouteSpec>)
    requires
        s.wf(),
        s.stage == Stage::Done,
        answers_query(routes, s.family, s.table, s.listing),
        forall|i: int|
            0 <= i < s.desired.len() ==> (#[trigger] s.desired[i]).managed_by(s.family, s.table),
    ensures
        apply_all(routes, s.mutations()) == unmanaged(routes, s.family, s.table).add(
            s.desired.to_multiset(),
        ),
{
    lemma_done_mutations(s);
    lemma_pass_replaces(routes, s.family, s.table, s.listing, s.desired);
}

/// Idempotence: with an unchanged list and nobody else touching the tables,
/// a second pass leaves them as the first pass left them.
pub proof fn lemma_pass_idempotent(
    routes: Multiset<RouteSpec>,
    family: Family,
    table: u8,
    first_listing: Seq<RouteSpec>,
    second_listing: Seq<RouteSpec>,
    desired: Seq<RouteSpec>,
)
    requires
        answers_query(routes, family, table, first_listing),
        answers_query(
            after_pass(routes, table, first_listing, desired),
            family,
            table,
            second_listing,
        ),
        forall|i: int| 0 <= i < desired.len() ==> (#[trigger] desired[i]).managed_by(family, table),
    ensures
        after_pass(
            after_pass(routes, table, first_listing, desired),
            table,
            second_listing,
            desired,
        ) == after_pass(routes, table, first_listing, desired),
{
    let once = after_pass(routes, table, first_listing, desired);
    lemma_pass_replaces(routes, family, table, first_listing, desired);
    lemma_pass_replaces(once, family, table, second_listing, desired);
}

} // verus!
