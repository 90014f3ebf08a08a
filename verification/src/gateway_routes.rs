//! The route tables of the media gateways. The MSE gateway maps a path to a
//! stream with a cap on concurrent HTTP clients; the MoQ gateway maps a path
//! to the session whose node accepts WebTransport connections there. The
//! channels that carry clients to nodes are the server's; these tables hold
//! the decisions: which path is taken, who is admitted, what is refused.
use vstd::prelude::*;

use crate::text::{extend_str, str_equal, string_of};

verus! {

// ---------------------------------------------------------------------------
// MSE streams
// ---------------------------------------------------------------------------

/// Why an HTTP client was not connected to an MSE stream.
#[derive(Debug, Clone, Copy, PartialEq, Eq, Structural)]
pub enum MseConnectError {
    /// No MSE stream is registered for the requested path.
    NotFound,
    /// The stream has reached its maximum number of concurrent clients.
    AtCapacity,
    /// The MSE stream node is no longer running.
    NodeStopped,
}

pub open spec fn mse_error_message(e: MseConnectError) -> Seq<char> {
    match e {
        MseConnectError::NotFound => "No MSE stream registered for this path"@,
        MseConnectError::AtCapacity => "MSE stream at maximum client capacity"@,
        MseConnectError::NodeStopped => "MSE stream node is no longer running"@,
    }
}

impl MseConnectError {
    /// The error's message.
    pub fn to_string(&self) -> (r: String)
        ensures
            r@ == mse_error_message(*self),
    {
        match self {
            MseConnectError::NotFound => "No MSE stream registered for this path".to_owned(),
            MseConnectError::AtCapacity => "MSE stream at maximum client capacity".to_owned(),
            MseConnectError::NodeStopped => "MSE stream node is no longer running".to_owned(),
        }
    }
}

/// A registered MSE stream.
pub struct MseRoute {
    path: String,
    session_id: String,
    content_type: String,
    max_clients: u32,
    active_clients: u32,
    registration: u64,
}

/// What a registered MSE stream is, as contracts see it.
pub struct MseRouteView {
    pub path: Seq<char>,
    pub session_id: Seq<char>,
    pub content_type: Seq<char>,
    pub max_clients: u32,
    pub active_clients: u32,
    pub registration: u64,
}

impl View for MseRoute {
    type V = MseRouteView;

    closed spec fn view(&self) -> MseRouteView {
        MseRouteView {
            path: self.path@,
            session_id: self.session_id@,
            content_type: self.content_type@,
            max_clients: self.max_clients,
            active_clients: self.active_clients,
            registration: self.registration,
        }
    }
}

/// Held by a connected client; handing it back to the table releases the
/// client's place in the stream it was admitted to.
#[derive(Debug)]
pub struct MseClientGuard {
    path: String,
    registration: u64,
}

impl MseClientGuard {
    pub closed spec fn spec_path(&self) -> Seq<char> {
        self.path@
    }

    pub closed spec fn spec_registration(&self) -> u64 {
        self.registration
    }
}

pub open spec fn mse_views(v: Seq<MseRoute>) -> Seq<MseRouteView> {
    v.map_values(|r: MseRoute| r@)
}

/// The position of the stream registered at `path`, if any.
pub open spec fn mse_index(routes: Seq<MseRouteView>, path: Seq<char>) -> Option<int> {
    if exists|i: int| 0 <= i < routes.len() && routes[i].path == path {
        Some(choose|i: int| 0 <= i < routes.len() && routes[i].path == path)
    } else {
        None
    }
}

/// Paths are unique and no stream has more clients than its cap.
pub open spec fn mse_table_valid(routes: Seq<MseRouteView>) -> bool {
    &&& forall|i: int, j: int|
        0 <= i < routes.len() && 0 <= j < routes.len() && i != j ==> #[trigger] routes[i].path
            != #[trigger] routes[j].path
    &&& forall|i: int| 0 <= i < routes.len() ==> #[trigger] routes[i].active_clients <= routes[i].max_clients
}

/// The message of a refused registration.
pub open spec fn mse_duplicate_message(path: Seq<char>) -> Seq<char> {
    "MSE stream path '"@ + path + "' is already registered"@
}

/// The MSE gateway's table of streams.
pub struct MseGateway {
    routes: Vec<MseRoute>,
    next_registration: u64,
}

impl View for MseGateway {
    type V = Seq<MseRouteView>;

    closed spec fn view(&self) -> Seq<MseRouteView> {
        mse_views(self.routes@)
    }
}

impl MseGateway {
    /// The registration the next stream gets; every registered stream has
    /// an earlier one.
    pub closed spec fn next_id(&self) -> u64 {
        self.next_registration
    }

    pub closed spec fn well_formed(&self) -> bool {
        &&& mse_table_valid(self@)
        &&& forall|i: int| 0 <= i < self@.len() ==> (#[trigger] self@[i]).registration < self.next_registration
    }

    /// Whether every registration has been handed out, so that no stream
    /// can be registered any more.
    pub fn registrations_exhausted(&self) -> (r: bool)
        ensures
            r == (self.next_id() == u64::MAX),
    {
        self.next_registration == u64::MAX
    }

    /// An empty table.
    pub fn new() -> (r: Self)
        ensures
            r.well_formed(),
            r@ == Seq::<MseRouteView>::empty(),
    {
        let r = MseGateway { routes: Vec::new(), next_registration: 0 };
        assert(r@ =~= Seq::<MseRouteView>::empty());
        assert(r.well_formed());
        r
    }

    /// The number of registered streams.
    pub fn route_count(&self) -> (r: usize)
        ensures
            r == self@.len(),
    {
        self.routes.len()
    }

    fn find(&self, path: &str) -> (r: Option<usize>)
        requires
            mse_table_valid(self@),
        ensures
            match r {
                Some(i) => i < self@.len() && self@[i as int].path == path@ && mse_index(self@, path@)
                    == Some(i as int),
                None => mse_index(self@, path@) is None,
            },
    {
        for i in 0..self.routes.len()
            invariant
                mse_table_valid(self@),
                forall|j: int| 0 <= j < i ==> (#[trigger] self@[j]).path != path@,
        {
            if str_equal(self.routes[i].path.as_str(), path) {
                proof {
                    assert(self@[i as int].path == path@);
                    let j = choose|j: int| 0 <= j < self@.len() && self@[j].path == path@;
                    assert(self@[j].path == path@);
                    assert(j == i as int);
                }
                return Some(i);
            }
        }
        None
    }

    /// Registers a stream at `path`; a path that is taken is refused and the
    /// table is left as it was. A new stream starts with no clients.
    pub fn register_stream(
        &mut self,
        path: &str,
        session_id: &str,
        content_type: &str,
        max_clients: u32,
    ) -> (r: Result<(), String>)
        requires
            old(self).well_formed(),
            old(self).next_id() < u64::MAX,
        ensures
            final(self).well_formed(),
            mse_index(old(self)@, path@) is Some ==> (r matches Err(m) && m@ == mse_duplicate_message(
                path@,
            )) && final(self)@ == old(self)@ && final(self).next_id() == old(self).next_id(),
            mse_index(old(self)@, path@) is None ==> r is Ok && final(self).next_id() == old(self).next_id() + 1
                && final(self)@.last().registration == old(self).next_id()
                && (forall|i: int| 0 <= i < old(self)@.len() ==> #[trigger] old(self)@[i].registration
                    != final(self)@.last().registration)
                && final(self)@.len() == old(self)@.len() + 1
                && final(self)@.drop_last() == old(self)@ && final(self)@.last().path == path@
                && final(self)@.last().session_id == session_id@ && final(self)@.last().content_type
                == content_type@ && final(self)@.last().max_clients == max_clients
                && final(self)@.last().active_clients == 0,
    {
        if self.find(path).is_some() {
            let mut m: Vec<char> = Vec::new();
            extend_str(&mut m, "MSE stream path '");
            extend_str(&mut m, path);
            extend_str(&mut m, "' is already registered");
            return Err(string_of(&m));
        }
        let ghost before = self@;
        let route = MseRoute {
            path: path.to_owned(),
            session_id: session_id.to_owned(),
            content_type: content_type.to_owned(),
            max_clients,
            active_clients: 0,
            registration: self.next_registration,
        };
        self.routes.push(route);
        self.next_registration = self.next_registration + 1;
        assert(self@ =~= before.push(self.routes@.last()@));
        assert forall|i: int| 0 <= i < self@.len() implies (#[trigger] self@[i]).registration < self.next_registration by {
            if i < before.len() {
                assert(self@[i] == before[i]);
            }
        }
        assert forall|i: int, j: int|
            0 <= i < self@.len() && 0 <= j < self@.len() && i != j implies #[trigger] self@[i].path
            != #[trigger] self@[j].path by {
            if i < before.len() && j < before.len() {
                assert(self@[i] == before[i] && self@[j] == before[j]);
            } else if i < before.len() {
                assert(self@[i] == before[i]);
            } else {
                assert(self@[j] == before[j]);
            }
        }
        assert forall|i: int| 0 <= i < self@.len() implies #[trigger] self@[i].active_clients
            <= self@[i].max_clients by {
            if i < before.len() {
                assert(self@[i] == before[i]);
            }
        }
        Ok(())
    }

    /// Removes the stream at `path`, if there is one; says whether there was.
    pub fn unregister_stream(&mut self, path: &str) -> (r: bool)
        requires
            old(self).well_formed(),
        ensures
            final(self).well_formed(),
            final(self).next_id() == old(self).next_id(),
            r == mse_index(old(self)@, path@) is Some,
            match mse_index(old(self)@, path@) {
                Some(i) => final(self)@ == old(self)@.remove(i),
                None => final(self)@ == old(self)@,
            },
    {
        match self.find(path) {
            None => false,
            Some(i) => {
                let ghost before = self@;
                self.routes.remove(i);
                assert(self@ =~= before.remove(i as int));
                assert forall|a: int, b: int|
                    0 <= a < self@.len() && 0 <= b < self@.len() && a != b implies #[trigger] self@[a].path
                    != #[trigger] self@[b].path by {
                    let a0 = if a < i { a } else { a + 1 };
                    let b0 = if b < i { b } else { b + 1 };
                    assert(self@[a] == before[a0] && self@[b] == before[b0]);
                }
                assert forall|a: int| 0 <= a < self@.len() implies #[trigger] self@[a].active_clients
                    <= self@[a].max_clients by {
                    let a0 = if a < i { a } else { a + 1 };
                    assert(self@[a] == before[a0]);
                }
                true
            },
        }
    }

    /// Admits an HTTP client to the stream at `path`: refused when no stream
    /// is there or the stream is at its cap; otherwise the stream counts one
    /// more client and its content type is returned with the client's guard.
    pub fn connect_client(&mut self, path: &str) -> (r: Result<(String, MseClientGuard), MseConnectError>)
        requires
            old(self).well_formed(),
        ensures
            final(self).well_formed(),
            final(self).next_id() == old(self).next_id(),
            match mse_index(old(self)@, path@) {
                None => r == Err::<(String, MseClientGuard), MseConnectError>(MseConnectError::NotFound)
                    && final(self)@ == old(self)@,
                Some(i) => if old(self)@[i].active_clients >= old(self)@[i].max_clients {
                    r == Err::<(String, MseClientGuard), MseConnectError>(MseConnectError::AtCapacity)
                        && final(self)@ == old(self)@
                } else {
                    r matches Ok((ct, g)) && ct@ == old(self)@[i].content_type && g.spec_path() == path@
                        && g.spec_registration() == old(self)@[i].registration && final(self)@
                        == old(self)@.update(
                        i,
                        MseRouteView { active_clients: (old(self)@[i].active_clients + 1) as u32, ..old(self)@[i] },
                    )
                },
            },
    {
        match self.find(path) {
            None => Err(MseConnectError::NotFound),
            Some(i) => {
                if self.routes[i].active_clients >= self.routes[i].max_clients {
                    return Err(MseConnectError::AtCapacity);
                }
                let ghost before = self@;
                let content_type = self.routes[i].content_type.clone();
                let registration = self.routes[i].registration;
                let mut route = self.routes.remove(i);
                route.active_clients = route.active_clients + 1;
                self.routes.insert(i, route);
                assert(self@ =~= before.update(
                    i as int,
                    MseRouteView { active_clients: (before[i as int].active_clients + 1) as u32, ..before[i as int] },
                ));
                assert forall|a: int, b: int|
                    0 <= a < self@.len() && 0 <= b < self@.len() && a != b implies #[trigger] self@[a].path
                    != #[trigger] self@[b].path by {
                    assert(self@[a].path == before[a].path && self@[b].path == before[b].path);
                }
                assert forall|a: int| 0 <= a < self@.len() implies #[trigger] self@[a].active_clients
                    <= self@[a].max_clients by {
                    if a != i {
                        assert(self@[a] == before[a]);
                    }
                }
                Ok((content_type, MseClientGuard { path: path.to_owned(), registration }))
            },
        }
    }

    /// Releases the place of a client that disconnected. Only the stream the
    /// client was admitted to counts it down; a stream registered again at
    /// the same path is left alone.
    pub fn release_client(&mut self, guard: MseClientGuard)
        requires
            old(self).well_formed(),
        ensures
            final(self).well_formed(),
            final(self).next_id() == old(self).next_id(),
            match mse_index(old(self)@, guard.spec_path()) {
                Some(i) => if old(self)@[i].registration == guard.spec_registration()
                    && old(self)@[i].active_clients > 0 {
                    final(self)@ == old(self)@.update(
                        i,
                        MseRouteView { active_clients: (old(self)@[i].active_clients - 1) as u32, ..old(self)@[i] },
                    )
                } else {
                    final(self)@ == old(self)@
                },
                None => final(self)@ == old(self)@,
            },
    {
        match self.find(guard.path.as_str()) {
            None => {},
            Some(i) => {
                if self.routes[i].registration == guard.registration && self.routes[i].active_clients > 0 {
                    let ghost before = self@;
                    let mut route = self.routes.remove(i);
                    route.active_clients = route.active_clients - 1;
                    self.routes.insert(i, route);
                    assert(self@ =~= before.update(
                        i as int,
                        MseRouteView { active_clients: (before[i as int].active_clients - 1) as u32, ..before[i as int] },
                    ));
                    assert forall|a: int, b: int|
                        0 <= a < self@.len() && 0 <= b < self@.len() && a != b implies #[trigger] self@[a].path
                        != #[trigger] self@[b].path by {
                        assert(self@[a].path == before[a].path && self@[b].path == before[b].path);
                    }
                    assert forall|a: int| 0 <= a < self@.len() implies #[trigger] self@[a].active_clients
                        <= self@[a].max_clients by {
                        if a != i {
                            assert(self@[a] == before[a]);
                        }
                    }
                }
            },
        }
    }
}

/// Every table the operations keep holds no stream with more clients than
/// its cap, and no path twice.
pub proof fn law_mse_clients_within_cap(routes: &MseGateway)
    requires
        routes.well_formed(),
    ensures
        forall|i: int| 0 <= i < routes@.len() ==> #[trigger] routes@[i].active_clients <= routes@[i].max_clients,
        forall|i: int, j: int|
            0 <= i < routes@.len() && 0 <= j < routes@.len() && i != j ==> #[trigger] routes@[i].path
                != #[trigger] routes@[j].path,
{
}

/// Every registered stream has a registration below the next one handed
/// out, so a stream registered later never shares a registration with a
/// stream registered before it, even one removed since.
pub proof fn law_mse_registrations_fresh(routes: &MseGateway)
    requires
        routes.well_formed(),
    ensures
        forall|i: int| 0 <= i < routes@.len() ==> #[trigger] routes@[i].registration < routes.next_id(),
{
}

/// Unregistering the path of a stream that was just registered at a free
/// path gives back the table as it was before the registration.
pub proof fn law_mse_unregister_undoes_register(table: Seq<MseRouteView>, added: MseRouteView)
    requires
        mse_table_valid(table),
        mse_index(table, added.path) is None,
    ensures
        mse_index(table.push(added), added.path) == Some(table.len() as int),
        table.push(added).remove(table.len() as int) == table,
{
    let t2 = table.push(added);
    assert(t2[table.len() as int].path == added.path);
    let k = choose|k: int| 0 <= k < t2.len() && t2[k].path == added.path;
    if k < table.len() {
        assert(t2[k] == table[k]);
    }
    assert(t2.remove(table.len() as int) =~= table);
}

/// Releasing the guard of a client that was just admitted gives back the
/// table as it was before the admission.
pub proof fn law_mse_release_undoes_admit(table: Seq<MseRouteView>, path: Seq<char>)
    requires
        mse_table_valid(table),
        mse_index(table, path) matches Some(i) && table[i].active_clients < table[i].max_clients,
    ensures
        ({
            let i = mse_index(table, path)->0;
            let admitted = table.update(
                i,
                MseRouteView { active_clients: (table[i].active_clients + 1) as u32, ..table[i] },
            );
            &&& mse_table_valid(admitted)
            &&& mse_index(admitted, path) == Some(i)
            &&& admitted[i].registration == table[i].registration
            &&& admitted[i].active_clients > 0
            &&& admitted.update(
                i,
                MseRouteView { active_clients: (admitted[i].active_clients - 1) as u32, ..admitted[i] },
            ) == table
        }),
{
    let i = mse_index(table, path)->0;
    let admitted = table.update(
        i,
        MseRouteView { active_clients: (table[i].active_clients + 1) as u32, ..table[i] },
    );
    assert forall|a: int| 0 <= a < admitted.len() implies #[trigger] admitted[a].path == table[a].path by {}
    assert(admitted[i].path == path);
    let k = choose|k: int| 0 <= k < admitted.len() && admitted[k].path == path;
    assert(admitted[k].path == table[k].path);
    assert(admitted.update(
        i,
        MseRouteView { active_clients: (admitted[i].active_clients - 1) as u32, ..admitted[i] },
    ) =~= table);
}

// ---------------------------------------------------------------------------
// MoQ routes
// ---------------------------------------------------------------------------

/// A registered MoQ route: the path and the session that owns it.
pub struct MoqRoute {
    pub path: String,
    pub session_id: String,
}

pub open spec fn moq_views(v: Seq<MoqRoute>) -> Seq<(Seq<char>, Seq<char>)> {
    v.map_values(|r: MoqRoute| (r.path@, r.session_id@))
}

pub open spec fn moq_index(routes: Seq<(Seq<char>, Seq<char>)>, path: Seq<char>) -> Option<int> {
    if exists|i: int| 0 <= i < routes.len() && routes[i].0 == path {
        Some(choose|i: int| 0 <= i < routes.len() && routes[i].0 == path)
    } else {
        None
    }
}

pub open spec fn moq_paths_distinct(routes: Seq<(Seq<char>, Seq<char>)>) -> bool {
    forall|i: int, j: int|
        0 <= i < routes.len() && 0 <= j < routes.len() && i != j ==> #[trigger] routes[i].0
            != #[trigger] routes[j].0
}

/// The message of a refused MoQ registration.
pub open spec fn moq_duplicate_message(path: Seq<char>) -> Seq<char> {
    "Path pattern '"@ + path + "' is already registered"@
}

/// The MoQ gateway's table of routes, path to owning session.
pub struct MoqGateway {
    routes: Vec<MoqRoute>,
}

impl View for MoqGateway {
    type V = Seq<(Seq<char>, Seq<char>)>;

    closed spec fn view(&self) -> Seq<(Seq<char>, Seq<char>)> {
        moq_views(self.routes@)
    }
}

impl MoqGateway {
    pub closed spec fn well_formed(&self) -> bool {
        moq_paths_distinct(self@)
    }

    /// An empty table.
    pub fn new() -> (r: Self)
        ensures
            r.well_formed(),
            r@ == Seq::<(Seq<char>, Seq<char>)>::empty(),
    {
        let r = MoqGateway { routes: Vec::new() };
        assert(r@ =~= Seq::<(Seq<char>, Seq<char>)>::empty());
        r
    }

    /// The number of registered routes.
    pub fn route_count(&self) -> (r: usize)
        ensures
            r == self@.len(),
    {
        self.routes.len()
    }

    fn find(&self, path: &str) -> (r: Option<usize>)
        requires
            self.well_formed(),
        ensures
            match r {
                Some(i) => i < self@.len() && self@[i as int].0 == path@ && moq_index(self@, path@)
                    == Some(i as int),
                None => moq_index(self@, path@) is None,
            },
    {
        for i in 0..self.routes.len()
            invariant
                self.well_formed(),
                forall|j: int| 0 <= j < i ==> (#[trigger] self@[j]).0 != path@,
        {
            if str_equal(self.routes[i].path.as_str(), path) {
                proof {
                    assert(self@[i as int].0 == path@);
                    let j = choose|j: int| 0 <= j < self@.len() && self@[j].0 == path@;
                    assert(self@[j].0 == path@);
                    assert(j == i as int);
                }
                return Some(i);
            }
        }
        None
    }

    /// Whether a route is registered at `path`.
    pub fn has_route(&self, path: &str) -> (r: bool)
        requires
            self.well_formed(),
        ensures
            r == moq_index(self@, path@) is Some,
    {
        self.find(path).is_some()
    }

    /// Registers a route at `path` for `session_id`; a path that is taken is
    /// refused and the table is left as it was.
    pub fn register_route(&mut self, path: &str, session_id: &str) -> (r: Result<(), String>)
        requires
            old(self).well_formed(),
        ensures
            final(self).well_formed(),
            moq_index(old(self)@, path@) is Some ==> (r matches Err(m) && m@ == moq_duplicate_message(
                path@,
            )) && final(self)@ == old(self)@,
            moq_index(old(self)@, path@) is None ==> r is Ok && final(self)@ == old(self)@.push(
                (path@, session_id@),
            ),
    {
        if self.find(path).is_some() {
            let mut m: Vec<char> = Vec::new();
            extend_str(&mut m, "Path pattern '");
            extend_str(&mut m, path);
            extend_str(&mut m, "' is already registered");
            return Err(string_of(&m));
        }
        let ghost before = self@;
        self.routes.push(MoqRoute { path: path.to_owned(), session_id: session_id.to_owned() });
        assert(self@ =~= before.push((path@, session_id@)));
        assert forall|i: int, j: int|
            0 <= i < self@.len() && 0 <= j < self@.len() && i != j implies #[trigger] self@[i].0
            != #[trigger] self@[j].0 by {
            if i < before.len() && j < before.len() {
                assert(self@[i] == before[i] && self@[j] == before[j]);
            } else if i < before.len() {
                assert(self@[i] == before[i]);
            } else {
                assert(self@[j] == before[j]);
            }
        }
        Ok(())
    }

    /// Removes the route at `path`, if there is one; says whether there was
    /// (waiters are woken only then).
    pub fn unregister_route(&mut self, path: &str) -> (r: bool)
        requires
            old(self).well_formed(),
        ensures
            final(self).well_formed(),
            r == moq_index(old(self)@, path@) is Some,
            match moq_index(old(self)@, path@) {
                Some(i) => final(self)@ == old(self)@.remove(i),
                None => final(self)@ == old(self)@,
            },
    {
        match self.find(path) {
            None => false,
            Some(i) => {
                let ghost before = self@;
                self.routes.remove(i);
                assert(self@ =~= before.remove(i as int));
                assert forall|a: int, b: int|
                    0 <= a < self@.len() && 0 <= b < self@.len() && a != b implies #[trigger] self@[a].0
                    != #[trigger] self@[b].0 by {
                    let a0 = if a < i { a } else { a + 1 };
                    let b0 = if b < i { b } else { b + 1 };
                    assert(self@[a] == before[a0] && self@[b] == before[b0]);
                }
                true
            },
        }
    }

    /// The registered routes as `(path, session id)` pairs.
    pub fn list_routes(&self) -> (r: Vec<(String, String)>)
        ensures
            r@.len() == self@.len(),
            forall|i: int| 0 <= i < r@.len() ==> (#[trigger] r@[i]).0@ == self@[i].0 && r@[i].1@ == self@[i].1,
    {
        let mut r: Vec<(String, String)> = Vec::new();
        for i in 0..self.routes.len()
            invariant
                r@.len() == i,
                forall|k: int| 0 <= k < i ==> (#[trigger] r@[k]).0@ == self@[k].0 && r@[k].1@ == self@[k].1,
        {
            r.push((self.routes[i].path.clone(), self.routes[i].session_id.clone()));
        }
        r
    }
}

/// Unregistering the path of a route that was just registered at a free path
/// gives back the table as it was before the registration.
pub proof fn law_moq_unregister_undoes_register(
    table: Seq<(Seq<char>, Seq<char>)>,
    path: Seq<char>,
    session_id: Seq<char>,
)
    requires
        moq_paths_distinct(table),
        moq_index(table, path) is None,
    ensures
        moq_paths_distinct(table.push((path, session_id))),
        moq_index(table.push((path, session_id)), path) == Some(table.len() as int),
        table.push((path, session_id)).remove(table.len() as int) == table,
{
    let t2 = table.push((path, session_id));
    assert(t2[table.len() as int].0 == path);
    let k = choose|k: int| 0 <= k < t2.len() && t2[k].0 == path;
    if k < table.len() {
        assert(t2[k] == table[k]);
    }
    assert forall|i: int, j: int|
        0 <= i < t2.len() && 0 <= j < t2.len() && i != j implies #[trigger] t2[i].0 != #[trigger] t2[j].0 by {
        if i < table.len() {
            assert(t2[i] == table[i]);
        }
        if j < table.len() {
            assert(t2[j] == table[j]);
        }
    }
    assert(t2.remove(table.len() as int) =~= table);
}

/// The longest a WebTransport connection waits for its route, in ms.
pub const MOQ_ROUTE_WAIT_MS: u64 = 30000;

/// How long a waiting connection sleeps between looks at the table, in ms.
pub const MOQ_ROUTE_POLL_MS: u64 = 200;

/// After a look at the table found no route, having waited `waited_ms`:
/// `Some` with the new total after one more pause, or `None` to give up.
pub fn next_route_wait(waited_ms: u64) -> (r: Option<u64>)
    ensures
        waited_ms >= MOQ_ROUTE_WAIT_MS ==> r is None,
        waited_ms < MOQ_ROUTE_WAIT_MS ==> r == Some((waited_ms + MOQ_ROUTE_POLL_MS) as u64),
{
    if waited_ms >= MOQ_ROUTE_WAIT_MS {
        None
    } else {
        Some(waited_ms + MOQ_ROUTE_POLL_MS)
    }
}

/// What the node answered to a forwarded connection.
pub enum MoqNodeReply {
    Accepted,
    Rejected(String),
    /// The node dropped the connection without answering.
    NoReply,
    /// The node's channel was closed before the connection could be sent.
    Disconnected,
}

/// The outcome of a WebTransport connection at `path` given the node's
/// reply, or `None` for the reply when no route turned up in time.
pub fn moq_connection_outcome(path: &str, reply: Option<MoqNodeReply>) -> (r: Result<(), String>)
    ensures
        match reply {
            None => r matches Err(m) && m@ == "No route found for path '"@ + path@ + "'"@,
            Some(MoqNodeReply::Accepted) => r is Ok,
            Some(MoqNodeReply::Rejected(reason)) => r matches Err(m) && m@ == reason@,
            Some(MoqNodeReply::NoReply) => r matches Err(m) && m@ == "Node did not respond"@,
            Some(MoqNodeReply::Disconnected) => r matches Err(m) && m@ == "Node disconnected"@,
        },
{
    match reply {
        None => {
            let mut m: Vec<char> = Vec::new();
            extend_str(&mut m, "No route found for path '");
            extend_str(&mut m, path);
            extend_str(&mut m, "'");
            Err(string_of(&m))
        },
        Some(MoqNodeReply::Accepted) => Ok(()),
        Some(MoqNodeReply::Rejected(reason)) => Err(reason),
        Some(MoqNodeReply::NoReply) => Err("Node did not respond".to_owned()),
        Some(MoqNodeReply::Disconnected) => Err("Node disconnected".to_owned()),
    }
}

} // verus!
