//! Handlers: the business logic that answers decrypted Message bodies, and
//! a router that dispatches on the route key that prefixes a body.
use vstd::prelude::*;

use crate::errors::AWError;
use crate::route::{be64_value, route_from_payload, Route};
use crate::server::{ServerView, Session};

verus! {

/// The view of a reply: its bytes, or the error.
pub open spec fn bytes_result(r: Result<Vec<u8>, AWError>) -> Result<Seq<u8>, AWError> {
    match r {
        Ok(v) => Ok(v@),
        Err(e) => Err(e),
    }
}

/// Answers the plaintext of a Message frame. The session is the one the
/// message came on; no lock is held on it while the handler runs.
pub trait Handler {
    /// Whether `r` is an answer the handler gives to `msg` on `session`.
    /// A handler that states nothing of its answers admits any.
    open spec fn handles(&self, session: ServerView, msg: Seq<u8>, r: Result<Seq<u8>, AWError>) -> bool {
        true
    }

    /// The reply to `msg`.
    fn handle(&self, session: &Session, msg: Vec<u8>) -> (r: Result<Vec<u8>, AWError>)
        ensures
            self.handles(session@, msg@, bytes_result(r)),
    ;
}

/// The action a router runs for one route. `msg` is the body after the
/// route key.
pub trait RouteAction {
    /// Whether `r` is an answer the action gives to `msg` on `route` and
    /// `session`. An action that states nothing of its answers admits any.
    open spec fn processes(&self, route: Route, session: ServerView, msg: Seq<u8>, r: Result<Seq<u8>, AWError>) -> bool {
        true
    }

    /// The reply to `msg` on `route`.
    fn process(&self, route: &Route, session: &Session, msg: Vec<u8>) -> (r: Result<Vec<u8>, AWError>)
        ensures
            self.processes(*route, session@, msg@, bytes_result(r)),
    ;
}

/// A handler that reads the route key off the front of a message and runs
/// the action registered for it.
pub struct DynamicRouter<A: RouteAction> {
    routes: Vec<(Route, A)>,
}

impl<A: RouteAction> DynamicRouter<A> {
    /// The actions registered, by route key.
    pub closed spec fn routes(&self) -> Map<u64, A> {
        Map::new(
            |k: u64| exists|i: int| 0 <= i < self.routes@.len() && (#[trigger] self.routes@[i]).0.0 == k,
            |k: u64| self.routes@[choose|i: int| 0 <= i < self.routes@.len() && (#[trigger] self.routes@[i]).0.0 == k].1,
        )
    }

    /// Each route key appears at most once.
    #[verifier::type_invariant]
    closed spec fn wf(&self) -> bool {
        forall|i: int, j: int|
            0 <= i < self.routes@.len() && 0 <= j < self.routes@.len() && i != j
                ==> (#[trigger] self.routes@[i]).0.0 != (#[trigger] self.routes@[j]).0.0
    }

    /// A router with no routes.
    pub fn new() -> (r: DynamicRouter<A>)
        ensures
            r.routes() == Map::<u64, A>::empty(),
    {
        let r = DynamicRouter { routes: Vec::new() };
        assert(r.routes() =~= Map::<u64, A>::empty());
        r
    }

    /// Registers `handler` for `route`, in place of any earlier one.
    pub fn register_route(&mut self, route: Route, handler: A)
        ensures
            final(self).routes() == old(self).routes().insert(route.0, handler),
    {
        proof {
            use_type_invariant(&*self);
        }
        let mut routes: Vec<(Route, A)> = Vec::new();
        std::mem::swap(&mut routes, &mut self.routes);
        let ghost old_routes = routes@;
        let mut i: usize = 0;
        while i < routes.len()
            invariant
                i <= routes@.len(),
                routes@ == old_routes,
                forall|j: int| 0 <= j < i ==> (#[trigger] routes@[j]).0.0 != route.0,
            ensures
                i <= routes@.len(),
                routes@ == old_routes,
                forall|j: int| 0 <= j < i ==> (#[trigger] routes@[j]).0.0 != route.0,
                i < routes@.len() ==> routes@[i as int].0.0 == route.0,
            decreases routes@.len() - i,
        {
            if routes[i].0.0 == route.0 {
                break;
            }
            i = i + 1;
        }
        if i < routes.len() {
            routes.set(i, (route, handler));
        } else {
            routes.push((route, handler));
        }
        let ghost idx = i as int;
        assert(routes@[idx] == (route, handler));
        assert(forall|j: int| 0 <= j < routes@.len() && j != idx ==> routes@[j] == old_routes[j]);
        assert(forall|a: int, b: int|
            0 <= a < routes@.len() && 0 <= b < routes@.len() && a != b
                ==> (#[trigger] routes@[a]).0.0 != (#[trigger] routes@[b]).0.0) by {
            assert forall|a: int, b: int|
                0 <= a < routes@.len() && 0 <= b < routes@.len() && a != b
                    implies (#[trigger] routes@[a]).0.0 != (#[trigger] routes@[b]).0.0 by {
                if a != idx && b != idx {
                    assert(old_routes[a].0.0 != old_routes[b].0.0);
                } else if a == idx && b < i {
                } else if b == idx && a < i {
                } else if a == idx {
                    assert(old_routes[idx].0.0 == route.0);
                    assert(old_routes[b].0.0 != old_routes[idx].0.0);
                } else {
                    assert(old_routes[idx].0.0 == route.0);
                    assert(old_routes[a].0.0 != old_routes[idx].0.0);
                }
            }
        }
        self.routes = routes;
        assert(self.routes() =~= old(self).routes().insert(route.0, handler)) by {
            let o = old(self);
            assert forall|k: u64| #[trigger] self.routes().contains_key(k) <==> o.routes().insert(route.0, handler).contains_key(k) by {
                if k != route.0 {
                    if exists|j: int| 0 <= j < self.routes@.len() && (#[trigger] self.routes@[j]).0.0 == k {
                        let j = choose|j: int| 0 <= j < self.routes@.len() && (#[trigger] self.routes@[j]).0.0 == k;
                        assert(j != idx);
                        assert(o.routes@[j] == self.routes@[j]);
                    }
                    if exists|j: int| 0 <= j < o.routes@.len() && (#[trigger] o.routes@[j]).0.0 == k {
                        let j = choose|j: int| 0 <= j < o.routes@.len() && (#[trigger] o.routes@[j]).0.0 == k;
                        assert(j != idx);
                        assert(o.routes@[j] == self.routes@[j]);
                    }
                }
            }
            assert forall|k: u64| #[trigger] self.routes().contains_key(k) implies self.routes()[k] == o.routes().insert(route.0, handler)[k] by {
                let j = choose|j: int| 0 <= j < self.routes@.len() && (#[trigger] self.routes@[j]).0.0 == k;
                if k == route.0 {
                    assert(j == idx);
                } else {
                    assert(j != idx);
                    let j2 = choose|j2: int| 0 <= j2 < o.routes@.len() && (#[trigger] o.routes@[j2]).0.0 == k;
                    assert(o.routes@[j] == self.routes@[j]);
                    assert(j2 == j);
                }
            }
        }
    }

    /// The action registered for `key`, if any.
    fn lookup(&self, key: u64) -> (r: Option<&A>)
        ensures
            r is None <==> !self.routes().contains_key(key),
            r matches Some(a) ==> *a == self.routes()[key],
    {
        proof {
            use_type_invariant(self);
        }
        let mut i: usize = 0;
        while i < self.routes.len()
            invariant
                self.wf(),
                i <= self.routes@.len(),
                forall|j: int| 0 <= j < i ==> (#[trigger] self.routes@[j]).0.0 != key,
            decreases self.routes@.len() - i,
        {
            if self.routes[i].0.0 == key {
                let ghost j = choose|j: int| 0 <= j < self.routes@.len() && (#[trigger] self.routes@[j]).0.0 == key;
                assert(j == i as int);
                return Some(&self.routes[i].1);
            }
            i = i + 1;
        }
        None
    }

    /// What routing `msg` on `session` may answer: a message under 8 bytes
    /// is an invalid route, a route with no action is not implemented, and
    /// otherwise the answer is one that the route's action gives to the
    /// rest of the message.
    pub open spec fn routes_to(&self, session: ServerView, msg: Seq<u8>, r: Result<Seq<u8>, AWError>) -> bool {
        if msg.len() < 8 {
            r == Err::<Seq<u8>, AWError>(AWError::InvalidRoute)
        } else {
            let k = be64_value(msg) as u64;
            if !self.routes().contains_key(k) {
                r == Err::<Seq<u8>, AWError>(AWError::NotImplemented)
            } else {
                self.routes()[k].processes(Route(k), session, msg.subrange(8, msg.len() as int), r)
            }
        }
    }

    /// Routes `msg`: reads the route key off its front and runs the action
    /// registered for it on the rest.
    pub fn dispatch(&self, session: &Session, msg: Vec<u8>) -> (r: Result<Vec<u8>, AWError>)
        ensures
            self.routes_to(session@, msg@, bytes_result(r)),
    {
        let mut body = msg;
        match route_from_payload(&mut body) {
            Err(e) => Err(e),
            Ok(route) => match self.lookup(route.0) {
                None => Err(AWError::NotImplemented),
                Some(action) => action.process(&route, session, body),
            },
        }
    }
}

impl<A: RouteAction> Handler for DynamicRouter<A> {
    open spec fn handles(&self, session: ServerView, msg: Seq<u8>, r: Result<Seq<u8>, AWError>) -> bool {
        self.routes_to(session, msg, r)
    }

    fn handle(&self, session: &Session, msg: Vec<u8>) -> Result<Vec<u8>, AWError> {
        self.dispatch(session, msg)
    }
}

} // verus!
