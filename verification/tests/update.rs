use routeupd::request::{Phase, Poll, Reply, Request};
use routeupd::route::{Family, RouteSpec};
use routeupd::update::{decode_routes, PassError, Report, Update};

fn v4_route(addr: u32, prefix_len: u8, table: u8, oif: u32) -> RouteSpec {
    RouteSpec { family: Family::V4, addr: addr as u128, prefix_len, table, oif }
}

fn v6_route(addr: u128, prefix_len: u8, table: u8, oif: u32) -> RouteSpec {
    RouteSpec { family: Family::V6, addr, prefix_len, table, oif }
}

/// Asks until the pass waits or ends, and returns what it asked for.
fn ask(mut update: Update) -> (Update, Vec<Request>, Poll<Result<Report, PassError>>) {
    let mut requests = Vec::new();
    loop {
        let (next, poll) = update.poll();
        update = next;
        match poll {
            Poll::Perform(request) => requests.push(request),
            other => return (update, requests, other),
        }
    }
}

/// Answers every request with success until the pass ends: `lists` gives the
/// text of each family, `existing` the kernel's answer to each query.
fn play(
    mut update: Update,
    lists: [&str; 2],
    existing: [Vec<RouteSpec>; 2],
) -> (Result<Report, PassError>, Vec<Request>) {
    let mut log = Vec::new();
    let mut in_flight = 0usize;
    loop {
        let (next, poll) = update.poll();
        update = next;
        match poll {
            Poll::Perform(request) => {
                log.push(request);
                match request {
                    Request::Fetch { family } => {
                        assert_eq!(in_flight, 0);
                        let text = lists[if family == Family::V4 { 0 } else { 1 }];
                        update = update.handle(Reply::Fetched(String::from(text)));
                    }
                    Request::ListRoutes { family } => {
                        assert_eq!(in_flight, 0);
                        let routes = existing[if family == Family::V4 { 0 } else { 1 }].clone();
                        update = update.handle(Reply::Listed(routes));
                    }
                    _ => in_flight += 1,
                }
            }
            Poll::Wait => {
                assert!(in_flight > 0 && in_flight <= 10);
                in_flight -= 1;
                update = update.handle(Reply::Completed { ok: true });
            }
            Poll::Finished(result) => return (result, log),
        }
    }
}

#[test]
fn decode_routes_builds_one_route_for_each_line_that_parses() {
    assert_eq!(
        decode_routes(Family::V4, 100, 3, "1.1.1.0/24\n2.2.2.0/24\n# comment\n"),
        vec![v4_route(0x0101_0100, 24, 100, 3), v4_route(0x0202_0200, 24, 100, 3)]
    );
    assert_eq!(
        decode_routes(Family::V6, 9, 4, "2001:db8::/32\n1.1.1.0/24\n"),
        vec![v6_route(0x2001_0db8 << 96, 32, 9, 4)]
    );
    assert_eq!(decode_routes(Family::V4, 9, 4, "2001:db8::/32\n"), vec![]);
    assert_eq!(decode_routes(Family::V6, 9, 4, ""), vec![]);
}

#[test]
fn both_families_in_turn() {
    let old4 = vec![v4_route(0x0909_0900, 24, 100, 2), v4_route(0x0a00_0000, 8, 254, 2)];
    let old6 = vec![v6_route(7 << 64, 64, 100, 2)];
    let (result, log) = play(
        Update::new(100, 2, false),
        ["1.1.1.0/24\n2.2.2.0/24\n# comment\n", "2001:db8::/32\n"],
        [old4.clone(), old6.clone()],
    );
    assert_eq!(result, Ok(Report { v4: 2, v6: Some(1) }));
    assert_eq!(
        log,
        vec![
            Request::Fetch { family: Family::V4 },
            Request::ListRoutes { family: Family::V4 },
            Request::DeleteRoute { index: 0, route: old4[0] },
            Request::AddRoute { route: v4_route(0x0101_0100, 24, 100, 2) },
            Request::AddRoute { route: v4_route(0x0202_0200, 24, 100, 2) },
            Request::Fetch { family: Family::V6 },
            Request::ListRoutes { family: Family::V6 },
            Request::DeleteRoute { index: 0, route: old6[0] },
            Request::AddRoute {
                route: RouteSpec {
                    family: Family::V6,
                    addr: 0x2001_0db8 << 96,
                    prefix_len: 32,
                    table: 100,
                    oif: 2,
                },
            },
        ]
    );
}

#[test]
fn ipv6_left_alone() {
    let (result, log) = play(
        Update::new(100, 2, true),
        ["1.1.1.0/24\n2.2.2.0/24\n3.3.3.0/24", "2001:db8::/32\n"],
        [Vec::new(), vec![v6_route(1, 128, 100, 2)]],
    );
    assert_eq!(result, Ok(Report { v4: 3, v6: None }));
    assert_eq!(log.len(), 5);
    for request in log {
        match request {
            Request::Fetch { family } | Request::ListRoutes { family } => {
                assert_eq!(family, Family::V4)
            }
            Request::AddRoute { route } | Request::DeleteRoute { route, .. } => {
                assert_eq!(route.family, Family::V4)
            }
        }
    }
}

#[test]
fn an_empty_list_empties_the_table() {
    let old = vec![v4_route(1, 32, 5, 1), v4_route(2, 32, 5, 1)];
    let (result, log) = play(Update::new(5, 1, true), ["# nothing\n\n", ""], [old, Vec::new()]);
    assert_eq!(result, Ok(Report { v4: 0, v6: None }));
    assert_eq!(log.iter().filter(|r| matches!(r, Request::DeleteRoute { .. })).count(), 2);
    assert_eq!(log.iter().filter(|r| matches!(r, Request::AddRoute { .. })).count(), 0);
}

#[test]
fn a_failed_fetch_ends_the_pass_before_any_kernel_call() {
    let (update, requests, poll) = ask(Update::new(100, 2, false));
    assert_eq!(requests, vec![Request::Fetch { family: Family::V4 }]);
    assert_eq!(poll, Poll::Wait);
    assert_eq!(update.outcome(), None);
    let update = update.handle(Reply::FetchFailed);
    let failure = PassError { family: Family::V4, phase: Phase::Fetch };
    assert_eq!(update.outcome(), Some(Err(failure)));
    let (update, requests, poll) = ask(update);
    assert_eq!(requests, vec![]);
    assert_eq!(poll, Poll::Finished(Err(failure)));
    let update = update.handle(Reply::Fetched(String::from("1.1.1.0/24")));
    assert_eq!(update.poll().1, Poll::Finished(Err(failure)));
}

#[test]
fn a_failure_for_ipv6_names_ipv6() {
    let update = Update::new(100, 2, false);
    let (update, _, _) = ask(update);
    let update = update.handle(Reply::Fetched(String::new()));
    let (update, requests, _) = ask(update);
    assert_eq!(requests, vec![Request::ListRoutes { family: Family::V4 }]);
    let update = update.handle(Reply::Listed(Vec::new()));
    let (update, requests, _) = ask(update);
    assert_eq!(requests, vec![Request::Fetch { family: Family::V6 }]);
    let update = update.handle(Reply::Fetched(String::from("fd00::/8\nfd01::/16")));
    let (update, requests, _) = ask(update);
    assert_eq!(requests, vec![Request::ListRoutes { family: Family::V6 }]);
    let update = update.handle(Reply::Listed(Vec::new()));
    let (update, requests, _) = ask(update);
    assert_eq!(requests.len(), 2);
    let update = update.handle(Reply::Completed { ok: false });
    assert_eq!(
        update.poll().1,
        Poll::Finished(Err(PassError { family: Family::V6, phase: Phase::Add }))
    );
}

#[test]
fn a_failed_delete_for_ipv4_keeps_ipv6_untouched() {
    let update = Update::new(100, 2, false);
    let (update, _, _) = ask(update);
    let update = update.handle(Reply::Fetched(String::from("1.1.1.0/24")));
    let (update, _, _) = ask(update);
    let update = update.handle(Reply::Listed(vec![v4_route(5, 32, 100, 2)]));
    let (update, requests, _) = ask(update);
    assert_eq!(requests.len(), 1);
    let update = update.handle(Reply::Completed { ok: false });
    let (_, requests, poll) = ask(update);
    assert_eq!(requests, vec![]);
    assert_eq!(
        poll,
        Poll::Finished(Err(PassError { family: Family::V4, phase: Phase::Delete }))
    );
}

#[test]
fn the_fetch_is_asked_for_once() {
    let (update, poll) = Update::new(1, 1, true).poll();
    assert_eq!(poll, Poll::Perform(Request::Fetch { family: Family::V4 }));
    let (update, poll) = update.poll();
    assert_eq!(poll, Poll::Wait);
    // A reply that is no answer to the fetch changes nothing.
    let update = update.handle(Reply::Completed { ok: true }).handle(Reply::ListFailed);
    assert_eq!(update.poll().1, Poll::Wait);
}
