use rusticore::{
    connection_step, ConnectionEvent, ConnectionState, Handler, IndexHandler, Request,
    Response, Route, Server, ServerState,
};

/// A handler that answers with a fixed body, so a test can see which route
/// was invoked.
#[derive(Clone, Copy, Debug, Default)]
struct Probe(&'static str);

impl Handler for Probe {
    fn handle(&self, _req: &mut Request, res: &mut Response) {
        res.text(self.0, 200);
    }
}

#[test]
/// Tests the creation of a new server instance with default parameters.
/// It checks that the server's host, port, debug mode, log output, state, and routes are initialised correctly.
/// It also verifies that the initial index route is set.
fn new() {
    let server = Server::<IndexHandler>::new("localhost", 8080, false, None);
    assert_eq!(server.host, "localhost");
    assert_eq!(server.port, 8080);
    assert!(!server.debug);
    assert!(server.log_output.is_none());
    assert_eq!(server.state, ServerState::Starting);
    assert_eq!(server.routes.len(), 1);
}

#[test]
/// Tests the addition of single routes to the server.
/// It checks that a new route has been added to the server's routing vector,
fn add_route() {
    let server = &mut Server::<IndexHandler>::new("localhost", 8080, false, None);
    server.add_route(Route::new("GET", "/test", IndexHandler));
    assert_eq!(server.routes.len(), 2);
}

#[test]
/// Tests the addition of multiple routes to the server.
/// It checks that the server's routing vector has been updated with the new routes,
fn add_routes() {
    let server = &mut Server::<IndexHandler>::new("localhost", 8080, false, None);
    let routes = vec![
        Route::new("GET", "/test1", IndexHandler),
        Route::new("POST", "/test2", IndexHandler),
    ];
    server.add_routes(routes);
    assert_eq!(server.routes.len(), 3);
}

#[test]
/// Registering the same path twice leaves the route table length unchanged
/// after the second call.
fn duplicate_route_is_ignored() {
    let server = &mut Server::<IndexHandler>::new("localhost", 8080, false, None);
    server.add_route(Route::new("GET", "/dup", IndexHandler));
    let len_after_first = server.routes.len();
    server.add_route(Route::new("GET", "/dup", IndexHandler));
    assert_eq!(server.routes.len(), len_after_first);
}

#[test]
/// First-match-wins: of two registered routes with overlapping templates
/// matching the same path, the first-registered route's handler is invoked.
fn first_match_wins() {
    let mut server = Server::<Probe>::new("localhost", 8080, false, None);
    server.add_route(Route::new("GET", "/a/{x}", Probe("first")));
    server.add_route(Route::new("GET", "/a/b", Probe("second")));
    let mut req = Request::parse(b"GET /a/b HTTP/1.1\r\n\r\n".to_vec()).unwrap();
    let mut res = Response::new();
    let handled = server.handle_request(&mut req, &mut res);
    assert!(handled);
    let wire = res.wire.expect("the handler sends a response");
    assert!(wire.ends_with(b"\r\n\r\nfirst"));
}

#[test]
/// The default route answers `GET /` with the index page.
fn default_route_serves_index() {
    let server = Server::<IndexHandler>::new("localhost", 8080, false, None);
    let mut req = Request::parse(b"GET / HTTP/1.1\r\nHost: localhost\r\n\r\n".to_vec()).unwrap();
    let mut res = Response::new();
    assert!(server.handle_request(&mut req, &mut res));
    assert_eq!(
        res.wire,
        Some(
            b"HTTP/1.1 200 OK\r\nContent-Type: text/plain; charset=utf-8\r\n\r\nWelcome to the index page!"
                .to_vec()
        )
    );
}

#[test]
/// A request no route matches is reported unhandled and the response is
/// left untouched: nothing answers an unrouted request.
fn unrouted_request_is_unhandled() {
    let mut server = Server::<Probe>::new("localhost", 8080, false, None);
    let mut req = Request::parse(b"GET /missing/path HTTP/1.1\r\n\r\n".to_vec()).unwrap();
    let mut res = Response::new();
    let handled = server.handle_request(&mut req, &mut res);
    assert!(!handled);
    assert!(res.wire.is_none());
}

#[test]
/// The method must match as well as the template.
fn find_route_checks_method() {
    let mut server = Server::<Probe>::new("localhost", 8080, false, None);
    server.add_route(Route::new("POST", "/only-post", Probe("post")));
    assert_eq!(server.find_route(b"POST", b"/only-post"), Some(1));
    assert_eq!(server.find_route(b"GET", b"/only-post"), None);
}

#[test]
/// The state check reports whether the server stands in the given state.
fn check_state_reports() {
    let server = Server::<IndexHandler>::new("localhost", 8080, false, None);
    let (matches_starting, state) = server.check_state(ServerState::Starting);
    assert!(matches_starting);
    assert_eq!(*state, ServerState::Starting);
    let (matches_running, _) = server.check_state(ServerState::Running);
    assert!(!matches_running);
}

#[test]
/// The lifecycle only moves forward: Starting, Running, Stopping, Stopped.
fn lifecycle_is_monotonic() {
    let mut server = Server::<IndexHandler>::new("localhost", 8080, false, None);
    assert!(server.advance_state(ServerState::Running));
    assert_eq!(server.state, ServerState::Running);
    assert!(server.advance_state(ServerState::Stopping));
    assert!(server.advance_state(ServerState::Stopped));
    assert!(!server.advance_state(ServerState::Running));
    assert_eq!(server.state, ServerState::Stopped);
}

#[test]
/// A connection moves Accepted, Parsing, Routed, Handled, Closed; parse
/// errors and unrouted requests fail it; the terminal states admit nothing.
fn connection_lifecycle() {
    let s = ConnectionState::Accepted;
    let s = connection_step(s, ConnectionEvent::StartParsing).unwrap();
    assert_eq!(s, ConnectionState::Parsing);
    let s = connection_step(s, ConnectionEvent::ParseSucceeded).unwrap();
    assert_eq!(s, ConnectionState::Routed);
    let s = connection_step(s, ConnectionEvent::HandlerFinished).unwrap();
    assert_eq!(s, ConnectionState::Handled);
    let s = connection_step(s, ConnectionEvent::TearDown).unwrap();
    assert_eq!(s, ConnectionState::Closed);
    assert_eq!(connection_step(s, ConnectionEvent::StartParsing), None);

    let failed = connection_step(ConnectionState::Parsing, ConnectionEvent::ParseFailed);
    assert_eq!(failed, Some(ConnectionState::Failed));
    let failed = connection_step(ConnectionState::Routed, ConnectionEvent::NoRouteFound);
    assert_eq!(failed, Some(ConnectionState::Failed));
    assert_eq!(
        connection_step(ConnectionState::Failed, ConnectionEvent::TearDown),
        None
    );
}
