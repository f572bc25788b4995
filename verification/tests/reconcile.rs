use routeupd::parser::read_lines;
use routeupd::reconcile::{keep_table, Reconciler, Stage};
use routeupd::request::{Phase, Poll, Reply, Request};
use routeupd::route::{Family, Ipv4Cidr, RouteSpec};

fn route4(a: u8, b: u8, c: u8, d: u8, prefix_len: u8, table: u8, oif: u32) -> RouteSpec {
    let addr = ((a as u128) << 24) | ((b as u128) << 16) | ((c as u128) << 8) | (d as u128);
    RouteSpec { family: Family::V4, addr, prefix_len, table, oif }
}

fn numbered(count: u32, table: u8, oif: u32) -> Vec<RouteSpec> {
    (0..count)
        .map(|i| route4(0, (i >> 8) as u8, i as u8, 0, 24, table, oif))
        .collect()
}

/// Asks until the pass waits or ends, and returns what it asked for.
fn drain(mut pass: Reconciler) -> (Reconciler, Vec<Request>, Poll<Result<u64, Phase>>) {
    let mut requests = Vec::new();
    loop {
        let (next, poll) = pass.poll();
        pass = next;
        match poll {
            Poll::Perform(request) => requests.push(request),
            other => return (pass, requests, other),
        }
    }
}

/// A kernel that answers every call with success.
fn run_against(
    kernel: &mut Vec<RouteSpec>,
    family: Family,
    table: u8,
    desired: Vec<RouteSpec>,
) -> (u64, Vec<Request>) {
    let mut pass = Reconciler::new(family, table, desired);
    let mut log = Vec::new();
    let mut in_flight: Vec<Request> = Vec::new();
    let mut listed: Vec<RouteSpec> = Vec::new();
    loop {
        let (next, poll) = pass.poll();
        pass = next;
        match poll {
            Poll::Perform(request) => {
                log.push(request);
                match request {
                    Request::ListRoutes { family } => {
                        listed = kernel.iter().copied().filter(|r| r.family == family).collect();
                        pass = pass.handle(Reply::Listed(listed.clone()));
                    }
                    other => in_flight.push(other),
                }
            }
            Poll::Wait => {
                assert!(in_flight.len() <= 10);
                let request = in_flight.remove(0);
                match request {
                    Request::DeleteRoute { route, index } => {
                        assert_eq!(listed[index], route);
                        let at = kernel.iter().position(|r| *r == route).expect("route to delete");
                        kernel.remove(at);
                    }
                    Request::AddRoute { route } => kernel.push(route),
                    _ => unreachable!(),
                }
                pass = pass.handle(Reply::Completed { ok: true });
            }
            Poll::Finished(result) => {
                assert!(in_flight.is_empty());
                return (result.expect("pass"), log);
            }
        }
    }
}

#[test]
fn two_lines_and_a_comment_replace_the_table() {
    let table = 100;
    let eth0 = 2;
    let text = "1.1.1.0/24\n2.2.2.0/24\n# comment\n";
    let nets = read_lines::<Ipv4Cidr>(text);
    assert_eq!(nets.len(), 2);
    let desired: Vec<RouteSpec> = nets.iter().map(|n| n.to_route(table, eth0)).collect();
    assert_eq!(
        desired,
        vec![route4(1, 1, 1, 0, 24, 100, 2), route4(2, 2, 2, 0, 24, 100, 2)]
    );

    let old = vec![
        route4(9, 9, 9, 0, 24, 100, 2),
        route4(10, 0, 0, 0, 8, 254, 1),
        route4(8, 8, 0, 0, 16, 100, 3),
    ];
    let pass = Reconciler::new(Family::V4, table, desired.clone());
    let (pass, requests, poll) = drain(pass);
    assert_eq!(requests, vec![Request::ListRoutes { family: Family::V4 }]);
    assert_eq!(poll, Poll::Wait);
    assert_eq!(pass.stage(), Stage::Listing);

    let pass = pass.handle(Reply::Listed(old.clone()));
    assert_eq!(pass.stage(), Stage::Deleting);
    let (pass, requests, poll) = drain(pass);
    assert_eq!(
        requests,
        vec![
            Request::DeleteRoute { index: 0, route: old[0] },
            Request::DeleteRoute { index: 2, route: old[2] },
        ]
    );
    assert_eq!(poll, Poll::Wait);
    assert_eq!(pass.deletes_in_flight(), 2);

    let pass = pass.handle(Reply::Completed { ok: true });
    let (pass, requests, poll) = drain(pass);
    assert_eq!(requests, vec![]);
    assert_eq!(poll, Poll::Wait);
    assert_eq!(pass.stage(), Stage::Deleting);

    let pass = pass.handle(Reply::Completed { ok: true });
    assert_eq!(pass.stage(), Stage::Adding);
    let (pass, requests, poll) = drain(pass);
    assert_eq!(
        requests,
        vec![Request::AddRoute { route: desired[0] }, Request::AddRoute { route: desired[1] }]
    );
    assert_eq!(poll, Poll::Wait);
    assert_eq!(pass.adds_in_flight(), 2);
    assert_eq!(pass.added(), 2);

    let pass = pass.handle(Reply::Completed { ok: true }).handle(Reply::Completed { ok: true });
    assert_eq!(pass.stage(), Stage::Done);
    let (pass, poll) = pass.poll();
    assert_eq!(poll, Poll::Finished(Ok(2)));
    assert_eq!(pass.poll().1, Poll::Finished(Ok(2)));
}

#[test]
fn keep_table_keeps_the_order_and_nothing_else() {
    let routes = vec![
        route4(1, 0, 0, 0, 8, 7, 1),
        route4(2, 0, 0, 0, 8, 8, 1),
        route4(3, 0, 0, 0, 8, 7, 2),
        route4(1, 0, 0, 0, 8, 7, 1),
    ];
    assert_eq!(keep_table(&routes, 7), (vec![routes[0], routes[2], routes[3]], vec![0, 2, 3]));
    assert_eq!(keep_table(&routes, 8), (vec![routes[1]], vec![1]));
    assert_eq!(keep_table(&routes, 9), (vec![], vec![]));
    assert_eq!(keep_table(&Vec::new(), 7), (vec![], vec![]));
}

#[test]
fn at_most_ten_deletes_and_ten_adds_are_in_flight() {
    let pass = Reconciler::new(Family::V4, 5, numbered(23, 5, 1));
    let (pass, _, _) = drain(pass);
    let pass = pass.handle(Reply::Listed(numbered(31, 5, 1)));
    let (mut pass, requests, poll) = drain(pass);
    assert_eq!(requests.len(), 10);
    assert_eq!(poll, Poll::Wait);
    assert_eq!(pass.deletes_in_flight(), 10);
    let mut deleted = requests.len();
    for done in 1..=31 {
        pass = pass.handle(Reply::Completed { ok: true });
        if done < 31 {
            let (next, requests, poll) = drain(pass);
            pass = next;
            assert!(requests.iter().all(|r| matches!(r, Request::DeleteRoute { .. })));
            deleted += requests.len();
            assert!(pass.deletes_in_flight() <= 10);
            assert_eq!(pass.deletes_in_flight(), deleted - done);
            assert_eq!(poll, Poll::Wait);
            assert_eq!(pass.adds_in_flight(), 0);
        }
    }
    assert_eq!(deleted, 31);
    assert_eq!(pass.stage(), Stage::Adding);
    let (mut pass, requests, _) = drain(pass);
    assert_eq!(requests.len(), 10);
    assert_eq!(pass.adds_in_flight(), 10);
    let mut added = 10;
    for done in 1..=23 {
        pass = pass.handle(Reply::Completed { ok: true });
        let (next, requests, _) = drain(pass);
        pass = next;
        added += requests.len();
        assert!(pass.adds_in_flight() <= 10);
        assert_eq!(pass.adds_in_flight(), added - done);
    }
    assert_eq!(added, 23);
    assert_eq!(pass.poll().1, Poll::Finished(Ok(23)));
}

#[test]
fn no_add_before_the_last_delete_has_resolved() {
    let pass = Reconciler::new(Family::V4, 5, numbered(2, 5, 1));
    let (pass, _, _) = drain(pass);
    let pass = pass.handle(Reply::Listed(numbered(3, 5, 9)));
    let (pass, requests, _) = drain(pass);
    assert_eq!(requests.len(), 3);
    let pass = pass.handle(Reply::Completed { ok: true }).handle(Reply::Completed { ok: true });
    let (pass, requests, poll) = drain(pass);
    assert_eq!(requests, vec![]);
    assert_eq!(poll, Poll::Wait);
    assert_eq!(pass.added(), 0);
    let pass = pass.handle(Reply::Completed { ok: true });
    let (pass, requests, _) = drain(pass);
    assert_eq!(requests.len(), 2);
    assert!(requests.iter().all(|r| matches!(r, Request::AddRoute { .. })));
    assert_eq!(pass.deletes_in_flight(), 0);
}

#[test]
fn a_failed_delete_ends_the_pass_and_adds_nothing() {
    let pass = Reconciler::new(Family::V4, 5, numbered(4, 5, 1));
    let (pass, _, _) = drain(pass);
    let pass = pass.handle(Reply::Listed(numbered(15, 5, 1)));
    let (pass, requests, _) = drain(pass);
    assert_eq!(requests.len(), 10);
    let pass = pass.handle(Reply::Completed { ok: true }).handle(Reply::Completed { ok: false });
    assert_eq!(pass.stage(), Stage::Failed(Phase::Delete));
    let (pass, requests, poll) = drain(pass);
    assert_eq!(requests, vec![]);
    assert_eq!(poll, Poll::Finished(Err(Phase::Delete)));
    // Deletes that were in flight resolve later; nothing changes.
    let pass = pass.handle(Reply::Completed { ok: true }).handle(Reply::Completed { ok: false });
    let (pass, requests, poll) = drain(pass);
    assert_eq!(requests, vec![]);
    assert_eq!(poll, Poll::Finished(Err(Phase::Delete)));
    assert_eq!(pass.added(), 0);
}

#[test]
fn a_failed_add_ends_the_pass() {
    let pass = Reconciler::new(Family::V4, 5, numbered(12, 5, 1));
    let (pass, _, _) = drain(pass);
    let pass = pass.handle(Reply::Listed(Vec::new()));
    assert_eq!(pass.stage(), Stage::Adding);
    let (pass, requests, _) = drain(pass);
    assert_eq!(requests.len(), 10);
    let pass = pass.handle(Reply::Completed { ok: false });
    assert_eq!(pass.stage(), Stage::Failed(Phase::Add));
    let (pass, requests, poll) = drain(pass);
    assert_eq!(requests, vec![]);
    assert_eq!(poll, Poll::Finished(Err(Phase::Add)));
    assert_eq!(pass.added(), 10);
}

#[test]
fn a_failed_query_ends_the_pass_in_the_delete_phase() {
    let pass = Reconciler::new(Family::V6, 5, Vec::new());
    let (pass, requests, _) = drain(pass);
    assert_eq!(requests, vec![Request::ListRoutes { family: Family::V6 }]);
    let pass = pass.handle(Reply::ListFailed);
    assert_eq!(pass.poll().1, Poll::Finished(Err(Phase::Delete)));
}

#[test]
fn nothing_to_delete_and_nothing_to_add() {
    let pass = Reconciler::new(Family::V4, 5, Vec::new());
    let (pass, _, _) = drain(pass);
    let pass = pass.handle(Reply::Listed(numbered(3, 6, 1)));
    assert_eq!(pass.stage(), Stage::Done);
    assert_eq!(pass.poll().1, Poll::Finished(Ok(0)));
}

#[test]
fn replies_that_answer_nothing_are_ignored() {
    let pass = Reconciler::new(Family::V4, 5, numbered(1, 5, 1));
    // Nothing was asked for yet.
    let pass = pass.handle(Reply::Listed(numbered(2, 5, 1)));
    let pass = pass.handle(Reply::ListFailed).handle(Reply::Completed { ok: false });
    assert_eq!(pass.stage(), Stage::Listing);
    let (pass, requests, _) = drain(pass);
    assert_eq!(requests, vec![Request::ListRoutes { family: Family::V4 }]);
    let pass = pass.handle(Reply::FetchFailed).handle(Reply::Fetched(String::from("1.1.1.0/24")));
    assert_eq!(pass.stage(), Stage::Listing);
    let pass = pass.handle(Reply::Listed(numbered(2, 5, 1)));
    // No delete is in flight yet, so this answers nothing.
    let pass = pass.handle(Reply::Completed { ok: false });
    assert_eq!(pass.stage(), Stage::Deleting);
    let pass = pass.handle(Reply::Listed(Vec::new()));
    assert_eq!(pass.stage(), Stage::Deleting);
}

#[test]
fn a_second_pass_leaves_the_table_as_the_first_left_it() {
    let table = 42;
    let other = numbered(3, 7, 1);
    let v6 = RouteSpec { family: Family::V6, addr: 1 << 100, prefix_len: 32, table, oif: 1 };
    let mut kernel = other.clone();
    kernel.extend(numbered(14, table, 9));
    kernel.push(v6);
    let desired = numbered(17, table, 1);

    let (count, log) = run_against(&mut kernel, Family::V4, table, desired.clone());
    assert_eq!(count, 17);
    assert_eq!(log.len(), 1 + 14 + 17);
    let first_add = log.iter().position(|r| matches!(r, Request::AddRoute { .. })).unwrap();
    assert!(log[..first_add].iter().all(|r| !matches!(r, Request::AddRoute { .. })));
    assert!(log[first_add..].iter().all(|r| matches!(r, Request::AddRoute { .. })));
    let mut once = kernel.clone();
    once.sort_by_key(|r| (r.table, r.addr, r.oif));

    let (count, log) = run_against(&mut kernel, Family::V4, table, desired.clone());
    assert_eq!(count, 17);
    assert_eq!(log.len(), 1 + 17 + 17);
    let mut twice = kernel.clone();
    twice.sort_by_key(|r| (r.table, r.addr, r.oif));
    assert_eq!(once, twice);

    let managed: Vec<RouteSpec> =
        kernel.iter().copied().filter(|r| r.family == Family::V4 && r.table == table).collect();
    assert_eq!(managed, desired);
    assert!(other.iter().all(|r| kernel.contains(r)));
    assert!(kernel.contains(&v6));
    assert_eq!(kernel.len(), 17 + 3 + 1);
}
