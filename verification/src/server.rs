//! The server: its configuration, its lifecycle state, and the route table
//! with first-match-wins resolution.
//!
//! Binding a listener, accepting connections and moving bytes belong to the
//! embedding program; everything that decides — registering routes,
//! resolving a request to the first matching route, invoking its handler —
//! stands here.

use vstd::prelude::*;
use vstd::string::StringSliceAdditionalSpecFns;

use crate::request::{method_token, Request};
use crate::response::Response;
use crate::routing::{
    lemma_find_route_characterization, match_route, route_views, spec_entry_matches,
    spec_find_route, Handler, Route,
};
use crate::scan::bytes_eq;

verus! {

/// The lifecycle states of a server, in the order they are passed through.
#[derive(Clone, Copy, Debug, PartialEq, Eq, Structural)]
pub enum ServerState {
    /// The server is starting up and not yet listening.
    Starting,
    /// The server is listening and serving requests.
    Running,
    /// The server is shutting down.
    Stopping,
    /// The server has stopped.
    Stopped,
}

/// Where a lifecycle state stands in the order.
pub open spec fn state_rank(s: ServerState) -> int {
    match s {
        ServerState::Starting => 0,
        ServerState::Running => 1,
        ServerState::Stopping => 2,
        ServerState::Stopped => 3,
    }
}

/// A server: where it listens, how it logs, where it stands in its
/// lifecycle, and the routes it serves, in registration order.
#[derive(Debug, Clone)]
pub struct Server<H> {
    /// The hostname or address the listener binds.
    pub host: &'static str,
    /// The port the listener binds.
    pub port: u16,
    /// Whether debug logging is enabled.
    pub debug: bool,
    /// Where log output goes, if anywhere.
    pub log_output: Option<&'static str>,
    /// Where the server stands in its lifecycle.
    pub state: ServerState,
    /// The routes, in the order they were registered.
    pub routes: Vec<Route<H>>,
}

/// Whether some registered route uses the given path template.
pub open spec fn spec_has_path<H>(rs: Seq<Route<H>>, path: Seq<u8>) -> bool {
    exists|i: int| 0 <= i < rs.len() && rs[i].path@ == path
}

/// What the table holds after one registration: unchanged when the
/// template is already present, else the route appended.
pub open spec fn spec_add_route<H>(rs: Seq<Route<H>>, route: Route<H>) -> Seq<Route<H>> {
    if spec_has_path(rs, route.path@) {
        rs
    } else {
        rs.push(route)
    }
}

/// What the table holds after registering each route in turn.
pub open spec fn spec_add_routes<H>(rs: Seq<Route<H>>, new: Seq<Route<H>>) -> Seq<Route<H>>
    decreases new.len(),
{
    if new.len() == 0 {
        rs
    } else {
        spec_add_routes(spec_add_route(rs, new[0]), new.drop_first())
    }
}

/// Registration is idempotent on a template collision: registering a route
/// whose template is already in the table — in particular, the same
/// template a second time — leaves the table exactly as it was, so its
/// length does not change either.
pub proof fn lemma_add_route_idempotent<H>(rs: Seq<Route<H>>, first: Route<H>, second: Route<H>)
    requires
        second.path@ == first.path@,
    ensures
        spec_add_route(spec_add_route(rs, first), second) == spec_add_route(rs, first),
{
    let once = spec_add_route(rs, first);
    if spec_has_path(rs, first.path@) {
        assert(spec_has_path(once, second.path@));
    } else {
        assert(once[rs.len() as int].path@ == second.path@);
        assert(spec_has_path(once, second.path@));
    }
}

impl<H: Default> Server<H> {
    /// A server bound for the given host and port, in the `Starting`
    /// state, with one route: `GET /`, answered by the handler type's
    /// default value.
    pub fn new(host: &'static str, port: u16, debug: bool, log_output: Option<&'static str>) -> (r:
        Server<H>)
        ensures
            r.host == host,
            r.port == port,
            r.debug == debug,
            r.log_output == log_output,
            r.state == ServerState::Starting,
            r.routes@.len() == 1,
            route_views(r.routes@) == seq![("GET".spec_bytes(), "/".spec_bytes())],
    {
        let mut routes: Vec<Route<H>> = Vec::new();
        routes.push(Route::new("GET", "/", H::default()));
        proof {
            assert(route_views(routes@) =~= seq![("GET".spec_bytes(), "/".spec_bytes())]);
        }
        Server { host, port, debug, log_output, state: ServerState::Starting, routes }
    }
}

impl<H> Server<H> {
    /// Registers a route. A route whose template is already registered is
    /// ignored; otherwise it goes to the end of the table.
    pub fn add_route(&mut self, route: Route<H>)
        ensures
            final(self).routes@ == spec_add_route(old(self).routes@, route),
            final(self).host == old(self).host,
            final(self).port == old(self).port,
            final(self).debug == old(self).debug,
            final(self).log_output == old(self).log_output,
            final(self).state == old(self).state,
    {
        let n = self.routes.len();
        let mut i: usize = 0;
        while i < n
            invariant
                n == self.routes@.len(),
                i <= n,
                forall|j: int| 0 <= j < i ==> (#[trigger] self.routes@[j]).path@ != route.path@,
            decreases n - i,
        {
            if bytes_eq(self.routes[i].path.as_slice(), route.path.as_slice()) {
                proof {
                    assert(self.routes@[i as int].path@ == route.path@);
                    assert(spec_has_path(self.routes@, route.path@));
                }
                return ;
            }
            i = i + 1;
        }
        proof {
            assert(!spec_has_path(self.routes@, route.path@));
        }
        self.routes.push(route);
    }

    /// Registers each route in turn, each under the one-template-once rule.
    pub fn add_routes(&mut self, routes: Vec<Route<H>>)
        ensures
            final(self).routes@ == spec_add_routes(old(self).routes@, routes@),
            final(self).host == old(self).host,
            final(self).port == old(self).port,
            final(self).debug == old(self).debug,
            final(self).log_output == old(self).log_output,
            final(self).state == old(self).state,
    {
        let mut rest = routes;
        loop
            invariant
                spec_add_routes(old(self).routes@, routes@) == spec_add_routes(
                    self.routes@,
                    rest@,
                ),
                self.host == old(self).host,
                self.port == old(self).port,
                self.debug == old(self).debug,
                self.log_output == old(self).log_output,
                self.state == old(self).state,
            decreases rest@.len(),
        {
            if rest.len() == 0 {
                return ;
            }
            let ghost r0 = rest@;
            let route = rest.remove(0);
            proof {
                assert(route == r0[0]);
                assert(rest@ =~= r0.drop_first());
            }
            self.add_route(route);
        }
    }

    /// Whether the server stands in the given state, beside a view of the
    /// state it does stand in.
    pub fn check_state(&self, state: ServerState) -> (r: (bool, &ServerState))
        ensures
            r.0 == (self.state == state),
            *r.1 == self.state,
    {
        let states_match = self.state == state;
        (states_match, &self.state)
    }

    /// Moves the lifecycle forward to `next` if that does not go against
    /// the order `Starting, Running, Stopping, Stopped`; a step backward is
    /// refused and changes nothing.
    pub fn advance_state(&mut self, next: ServerState) -> (ok: bool)
        ensures
            ok == (state_rank(next) >= state_rank(old(self).state)),
            ok ==> final(self).state == next,
            !ok ==> final(self).state == old(self).state,
            final(self).host == old(self).host,
            final(self).port == old(self).port,
            final(self).debug == old(self).debug,
            final(self).log_output == old(self).log_output,
            final(self).routes == old(self).routes,
    {
        let current = match self.state {
            ServerState::Starting => 0u8,
            ServerState::Running => 1u8,
            ServerState::Stopping => 2u8,
            ServerState::Stopped => 3u8,
        };
        let target = match next {
            ServerState::Starting => 0u8,
            ServerState::Running => 1u8,
            ServerState::Stopping => 2u8,
            ServerState::Stopped => 3u8,
        };
        if target >= current {
            self.state = next;
            true
        } else {
            false
        }
    }

    /// The index of the first registered route whose method and template
    /// both match, in registration order, or `None` when no route does.
    pub fn find_route(&self, method: &[u8], path: &[u8]) -> (r: Option<usize>)
        ensures
            match r {
                Some(i) => i < self.routes@.len() && spec_find_route(
                    route_views(self.routes@),
                    method@,
                    path@,
                ) == Some(i as int),
                None => spec_find_route(route_views(self.routes@), method@, path@) is None,
            },
    {
        let ghost entries = route_views(self.routes@);
        let n = self.routes.len();
        let mut i: usize = 0;
        while i < n
            invariant
                entries == route_views(self.routes@),
                n == self.routes@.len(),
                i <= n,
                forall|j: int| 0 <= j < i ==> !spec_entry_matches(entries[j], method@, path@),
            decreases n - i,
        {
            let rt = &self.routes[i];
            if bytes_eq(rt.method.as_slice(), method) {
                let m = match_route(rt.path.as_slice(), path);
                if m.matched {
                    proof {
                        assert(spec_entry_matches(entries[i as int], method@, path@));
                        lemma_find_route_characterization(entries, method@, path@, i as int);
                    }
                    return Some(i);
                }
            }
            proof {
                assert(!spec_entry_matches(entries[i as int], method@, path@));
            }
            i = i + 1;
        }
        proof {
            lemma_find_route_characterization(entries, method@, path@, n as int);
        }
        None
    }
}

impl<H: Handler> Server<H> {
    /// Resolves a parsed request to the first matching route and invokes
    /// its handler; says whether any route matched. With no match, the
    /// request and response are left untouched — no answer is generated
    /// for an unrouted request.
    pub fn handle_request(&self, req: &mut Request, res: &mut Response) -> (handled: bool)
        ensures
            handled == (spec_find_route(
                route_views(self.routes@),
                method_token(old(req)@.method),
                old(req)@.path,
            ) is Some),
            !handled ==> *final(req) == *old(req) && *final(res) == *old(res),
    {
        let found = self.find_route(req.method_bytes(), req.path());
        match found {
            Some(i) => {
                self.routes[i].handle(req, res);
                true
            },
            None => false,
        }
    }
}

} // verus!
