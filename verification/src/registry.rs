//! Client registry — tracks connected tunnel clients.

use crate::config::{is_reserved, is_reserved_subdomain};
use crate::maps::keys_listed;
use dashmap::DashMap;
use std::sync::Arc;
use vstd::prelude::*;
use vstd::string::*;

verus! {

/// A connected client. The yamux session of the client is kept by the
/// caller; `handle` is the caller's id for it. Times are milliseconds on the
/// caller's monotonic clock.
#[derive(Debug)]
pub struct ClientEntry {
    pub client_id: String,
    pub handle: u64,
    pub connected_at_ms: u64,
    pub metrics: ClientMetrics,
    pub supports_heartbeat: bool,
}

/// Per-client traffic metrics.
#[derive(Debug, Clone, Copy, PartialEq, Eq, Structural)]
pub struct ClientMetrics {
    pub bytes_in: u64,
    pub bytes_out: u64,
    pub requests: u64,
    pub active_streams: u64,
}

impl ClientMetrics {
    /// All counters at zero.
    pub fn new() -> (r: Self)
        ensures
            r == (ClientMetrics { bytes_in: 0, bytes_out: 0, requests: 0, active_streams: 0 }),
    {
        ClientMetrics { bytes_in: 0, bytes_out: 0, requests: 0, active_streams: 0 }
    }
}

/// Serializable client info for the dashboard API.
#[derive(Debug, Clone)]
pub struct ClientInfo {
    pub client_id: String,
    pub connected_at_secs: u64,
    pub bytes_in: u64,
    pub bytes_out: u64,
    pub total_requests: u64,
    pub active_streams: u64,
}

/// Whole seconds elapsed from `since_ms` to `now_ms` (`Instant::elapsed().as_secs()`,
/// which is 0 when the clock reads earlier).
pub open spec fn elapsed_secs(since_ms: u64, now_ms: u64) -> u64 {
    if now_ms >= since_ms {
        ((now_ms - since_ms) / 1000) as u64
    } else {
        0
    }
}

/// The elapsed seconds are the whole seconds between the two times, with
/// no upper limit: `r` seconds are at most the time passed and `r + 1`
/// seconds are more; `k` seconds exactly after `since_ms` give `k`; and no
/// time has passed when the clock reads earlier.
pub proof fn lemma_elapsed_secs(since_ms: u64, now_ms: u64, k: nat)
    ensures
        now_ms >= since_ms ==> elapsed_secs(since_ms, now_ms) * 1000 <= now_ms - since_ms < (
        elapsed_secs(since_ms, now_ms) + 1) * 1000,
        now_ms < since_ms ==> elapsed_secs(since_ms, now_ms) == 0,
        since_ms + 1000 * k <= u64::MAX ==> elapsed_secs(since_ms, (since_ms + 1000 * k) as u64)
            == k,
{
    if now_ms >= since_ms {
        let d = (now_ms - since_ms) as int;
        assert((d / 1000) * 1000 <= d < (d / 1000 + 1) * 1000) by (nonlinear_arith)
            requires
                d >= 0,
        ;
    }
    if since_ms + 1000 * k <= u64::MAX {
        let d = (1000 * k) as int;
        assert(d / 1000 == k) by (nonlinear_arith)
            requires
                d == 1000 * k,
        ;
    }
}

/// Whole seconds elapsed from `since_ms` to `now_ms`.
pub fn elapsed_secs_exec(since_ms: u64, now_ms: u64) -> (r: u64)
    ensures
        r == elapsed_secs(since_ms, now_ms),
        now_ms >= since_ms ==> r * 1000 <= now_ms - since_ms < (r + 1) * 1000,
        now_ms < since_ms ==> r == 0,
{
    proof {
        lemma_elapsed_secs(since_ms, now_ms, 0);
    }
    if now_ms >= since_ms {
        (now_ms - since_ms) / 1000
    } else {
        0
    }
}

/// The dashboard's view of an entry at time `now_ms`.
pub open spec fn info_matches(info: ClientInfo, e: ClientEntry, now_ms: u64) -> bool {
    &&& info.client_id@ == e.client_id@
    &&& info.connected_at_secs == elapsed_secs(e.connected_at_ms, now_ms)
    &&& info.bytes_in == e.metrics.bytes_in
    &&& info.bytes_out == e.metrics.bytes_out
    &&& info.total_requests == e.metrics.requests
    &&& info.active_streams == e.metrics.active_streams
}

/// `after` is `before` with the counters of the client under `id` set to
/// `metrics`: the same IDs, every other field and every other client kept.
pub open spec fn metrics_replaced(
    before: Map<Seq<char>, ClientEntry>,
    after: Map<Seq<char>, ClientEntry>,
    id: Seq<char>,
    metrics: ClientMetrics,
) -> bool {
    &&& after.dom() == before.dom()
    &&& after[id].client_id@ == before[id].client_id@
    &&& after[id].handle == before[id].handle
    &&& after[id].connected_at_ms == before[id].connected_at_ms
    &&& after[id].supports_heartbeat == before[id].supports_heartbeat
    &&& after[id].metrics == metrics
    &&& forall|k: Seq<char>| #[trigger] after.dom().contains(k) && k != id ==> after[k] == before[k]
}

/// Why a client could not register.
#[derive(Debug, Clone, Copy, PartialEq, Eq, Structural)]
pub enum RegistryError {
    /// The client ID is a reserved subdomain.
    Reserved,
    /// A client with this ID is already registered.
    AlreadyRegistered,
}

/// The clients a registry map holds, by client ID.
pub uninterp spec fn registered_clients(m: DashMap<String, Arc<ClientEntry>>) -> Map<
    Seq<char>,
    ClientEntry,
>;

/// The table of a registry with no clients.
pub open spec fn no_clients() -> Map<Seq<char>, ClientEntry> {
    Map::empty()
}

/// `DashMap::new`: an empty map.
#[verifier::external_body]
fn clients_new() -> (r: DashMap<String, Arc<ClientEntry>>)
    ensures
        registered_clients(r) == no_clients(),
{
    DashMap::new()
}

/// `DashMap::get`, cloning the `Arc` found: the entry under the key, if any.
#[verifier::external_body]
fn clients_get(m: &DashMap<String, Arc<ClientEntry>>, key: &str) -> (r: Option<Arc<ClientEntry>>)
    ensures
        r is Some <==> registered_clients(*m).dom().contains(key@),
        r matches Some(e) ==> *e == registered_clients(*m)[key@],
{
    m.get(key).map(|e| e.value().clone())
}

/// `DashMap::insert`: the key now maps to the value; nothing else changes.
#[verifier::external_body]
fn clients_insert(m: &mut DashMap<String, Arc<ClientEntry>>, key: String, value: Arc<ClientEntry>)
    ensures
        registered_clients(*final(m)) == registered_clients(*old(m)).insert(key@, *value),
{
    m.insert(key, value);
}

/// `DashMap::remove`: the key no longer maps to anything; nothing else changes.
#[verifier::external_body]
fn clients_remove(m: &mut DashMap<String, Arc<ClientEntry>>, key: &str)
    ensures
        registered_clients(*final(m)) == registered_clients(*old(m)).remove(key@),
{
    m.remove(key);
}

/// `DashMap::len`: the number of entries.
#[verifier::external_body]
fn clients_len(m: &DashMap<String, Arc<ClientEntry>>) -> (r: usize)
    ensures
        r == registered_clients(*m).len(),
{
    m.len()
}

/// The keys `DashMap::iter` visits: each key once, in no stated order.
#[verifier::external_body]
fn clients_keys(m: &DashMap<String, Arc<ClientEntry>>) -> (r: Vec<String>)
    ensures
        keys_listed(r@, registered_clients(*m).dom()),
{
    m.iter().map(|e| e.key().clone()).collect()
}

/// Thread-safe client registry. Its view maps each client ID to the entry
/// registered under it.
pub struct Registry {
    clients: DashMap<String, Arc<ClientEntry>>,
}

impl View for Registry {
    type V = Map<Seq<char>, ClientEntry>;

    closed spec fn view(&self) -> Map<Seq<char>, ClientEntry> {
        registered_clients(self.clients)
    }
}

impl Registry {
    /// The registry holds finitely many entries, each filed under its own
    /// client ID, and no reserved ID.
    pub closed spec fn wf(&self) -> bool {
        &&& self@.dom().finite()
        &&& forall|k: Seq<char>| #[trigger]
            self@.dom().contains(k) ==> self@[k].client_id@ == k && !is_reserved(k)
    }

    pub fn new() -> (r: Self)
        ensures
            r@ == Map::<Seq<char>, ClientEntry>::empty(),
            r.wf(),
    {
        Registry { clients: clients_new() }
    }

    /// Register a new client. Returns error if client_id already exists or is reserved.
    pub fn register(
        &mut self,
        client_id: String,
        handle: u64,
        supports_heartbeat: bool,
        now_ms: u64,
    ) -> (r: Result<Arc<ClientEntry>, RegistryError>)
        requires
            old(self).wf(),
        ensures
            final(self).wf(),
            is_reserved(client_id@) ==> r == Err::<Arc<ClientEntry>, RegistryError>(
                RegistryError::Reserved,
            ),
            !is_reserved(client_id@) && old(self)@.dom().contains(client_id@) ==> r == Err::<
                Arc<ClientEntry>,
                RegistryError,
            >(RegistryError::AlreadyRegistered),
            r is Err ==> final(self)@ == old(self)@,
            !is_reserved(client_id@) && !old(self)@.dom().contains(client_id@) ==> (r matches Ok(e)
                && e.client_id@ == client_id@ && e.handle == handle && e.connected_at_ms == now_ms
                && e.metrics == ClientMetrics::new_spec() && e.supports_heartbeat
                == supports_heartbeat && final(self)@ == old(self)@.insert(client_id@, *e)),
            r is Ok ==> final(self)@.len() == old(self)@.len() + 1,
    {
        if is_reserved_subdomain(client_id.as_str()) {
            return Err(RegistryError::Reserved);
        }
        if clients_get(&self.clients, client_id.as_str()).is_some() {
            return Err(RegistryError::AlreadyRegistered);
        }
        let key = String::from_str(client_id.as_str());
        let ghost client_id_view = client_id@;
        let entry = Arc::new(
            ClientEntry {
                client_id,
                handle,
                connected_at_ms: now_ms,
                metrics: ClientMetrics::new(),
                supports_heartbeat,
            },
        );
        let stored = Arc::clone(&entry);
        let ghost before = self@;
        clients_insert(&mut self.clients, key, stored);
        proof {
            lemma_register_then_get(before, client_id_view, self@[client_id_view]);
        }
        assert forall|k: Seq<char>| #[trigger] self@.dom().contains(k) implies self@[k].client_id@
            == k && !is_reserved(k) by {
            if k != client_id_view {
                assert(before.dom().contains(k));
            }
        }
        Ok(entry)
    }

    /// Unregister a client.
    pub fn unregister(&mut self, client_id: &str)
        requires
            old(self).wf(),
        ensures
            final(self).wf(),
            final(self)@ == old(self)@.remove(client_id@),
            old(self)@.dom().contains(client_id@) ==> final(self)@.len() == old(self)@.len() - 1,
            !old(self)@.dom().contains(client_id@) ==> final(self)@.len() == old(self)@.len(),
    {
        let ghost before = self@;
        clients_remove(&mut self.clients, client_id);
        proof {
            if before.dom().contains(client_id@) {
                lemma_unregister_then_get(before, client_id@);
            } else {
                assert(before.remove(client_id@) =~= before);
            }
        }
    }

    /// Replace the counters of a registered client, keeping its other
    /// fields; `false`, with nothing changed, for an unknown ID.
    fn set_metrics(&mut self, client_id: &str, metrics: ClientMetrics) -> (r: bool)
        requires
            old(self).wf(),
        ensures
            final(self).wf(),
            r == old(self)@.dom().contains(client_id@),
            r ==> metrics_replaced(old(self)@, final(self)@, client_id@, metrics),
            !r ==> final(self)@ == old(self)@,
    {
        let e = match clients_get(&self.clients, client_id) {
            Some(e) => e,
            None => return false,
        };
        let updated = Arc::new(
            ClientEntry {
                client_id: String::from_str(e.client_id.as_str()),
                handle: e.handle,
                connected_at_ms: e.connected_at_ms,
                metrics,
                supports_heartbeat: e.supports_heartbeat,
            },
        );
        let ghost before = self@;
        let key = String::from_str(client_id);
        clients_insert(&mut self.clients, key, updated);
        assert forall|k: Seq<char>| #[trigger] self@.dom().contains(k) implies self@[k].client_id@
            == k && !is_reserved(k) by {
            if k != client_id@ {
                assert(before.dom().contains(k));
            }
        }
        assert(self@.dom() =~= before.dom());
        true
    }

    /// Count traffic of a registered client: bytes in and out and requests
    /// are added to its counters (wrapping around like atomic adds); `false`,
    /// with nothing changed, for an unknown ID.
    pub fn add_traffic(&mut self, client_id: &str, bytes_in: u64, bytes_out: u64, requests: u64) -> (r: bool)
        requires
            old(self).wf(),
        ensures
            final(self).wf(),
            r == old(self)@.dom().contains(client_id@),
            r ==> metrics_replaced(
                old(self)@,
                final(self)@,
                client_id@,
                ClientMetrics {
                    bytes_in: old(self)@[client_id@].metrics.bytes_in.wrapping_add(bytes_in),
                    bytes_out: old(self)@[client_id@].metrics.bytes_out.wrapping_add(bytes_out),
                    requests: old(self)@[client_id@].metrics.requests.wrapping_add(requests),
                    active_streams: old(self)@[client_id@].metrics.active_streams,
                },
            ),
            !r ==> final(self)@ == old(self)@,
    {
        match clients_get(&self.clients, client_id) {
            None => false,
            Some(e) => {
                let m = ClientMetrics {
                    bytes_in: e.metrics.bytes_in.wrapping_add(bytes_in),
                    bytes_out: e.metrics.bytes_out.wrapping_add(bytes_out),
                    requests: e.metrics.requests.wrapping_add(requests),
                    active_streams: e.metrics.active_streams,
                };
                self.set_metrics(client_id, m)
            },
        }
    }

    /// A stream of a registered client opened (`true`) or closed (`false`):
    /// its active-stream count goes up or down by one (wrapping around like
    /// atomic adds); `false`, with nothing changed, for an unknown ID.
    pub fn stream_changed(&mut self, client_id: &str, opened: bool) -> (r: bool)
        requires
            old(self).wf(),
        ensures
            final(self).wf(),
            r == old(self)@.dom().contains(client_id@),
            r ==> metrics_replaced(
                old(self)@,
                final(self)@,
                client_id@,
                ClientMetrics {
                    active_streams: if opened {
                        old(self)@[client_id@].metrics.active_streams.wrapping_add(1)
                    } else {
                        old(self)@[client_id@].metrics.active_streams.wrapping_sub(1)
                    },
                    ..old(self)@[client_id@].metrics
                },
            ),
            !r ==> final(self)@ == old(self)@,
    {
        match clients_get(&self.clients, client_id) {
            None => false,
            Some(e) => {
                let n = if opened {
                    e.metrics.active_streams.wrapping_add(1)
                } else {
                    e.metrics.active_streams.wrapping_sub(1)
                };
                let m = ClientMetrics { active_streams: n, ..e.metrics };
                self.set_metrics(client_id, m)
            },
        }
    }

    /// Get a client entry by ID.
    pub fn get(&self, client_id: &str) -> (r: Option<Arc<ClientEntry>>)
        ensures
            r is Some <==> self@.dom().contains(client_id@),
            r matches Some(e) ==> *e == self@[client_id@],
    {
        clients_get(&self.clients, client_id)
    }

    /// List all connected clients, each once, in no particular order.
    pub fn list(&self, now_ms: u64) -> (r: Vec<ClientInfo>)
        requires
            self.wf(),
        ensures
            r@.len() == self@.len(),
            forall|i: int|
                0 <= i < r@.len() ==> self@.dom().contains(#[trigger] r@[i].client_id@)
                    && info_matches(r@[i], self@[r@[i].client_id@], now_ms),
            forall|i: int, j: int|
                0 <= i < r@.len() && 0 <= j < r@.len() && i != j ==> r@[i].client_id@
                    != r@[j].client_id@,
            forall|k: Seq<char>|
                self@.dom().contains(k) ==> exists|i: int| 0 <= i < r@.len() && r@[i].client_id@ == k,
    {
        let keys = clients_keys(&self.clients);
        let mut out: Vec<ClientInfo> = Vec::new();
        let mut i: usize = 0;
        while i < keys.len()
            invariant
                self.wf(),
                keys_listed(keys@, self@.dom()),
                i <= keys@.len(),
                out@.len() == i,
                forall|j: int| 0 <= j < i ==> out@[j].client_id@ == keys@[j]@,
                forall|j: int|
                    0 <= j < i ==> info_matches(
                        #[trigger] out@[j],
                        self@[keys@[j]@],
                        now_ms,
                    ),
            decreases keys.len() - i,
        {
            assert(self@.dom().contains(keys@[i as int]@));
            match clients_get(&self.clients, keys[i].as_str()) {
                Some(e) => {
                    let info = ClientInfo {
                        client_id: String::from_str(e.client_id.as_str()),
                        connected_at_secs: elapsed_secs_exec(e.connected_at_ms, now_ms),
                        bytes_in: e.metrics.bytes_in,
                        bytes_out: e.metrics.bytes_out,
                        total_requests: e.metrics.requests,
                        active_streams: e.metrics.active_streams,
                    };
                    out.push(info);
                },
                None => {
                    assert(false);
                },
            }
            i = i + 1;
        }
        assert forall|k: Seq<char>| self@.dom().contains(k) implies exists|i: int|
            0 <= i < out@.len() && out@[i].client_id@ == k by {
            let j = choose|j: int| 0 <= j < keys@.len() && keys@[j]@ == k;
            assert(out@[j].client_id@ == k);
        }
        out
    }

    /// Count connected clients.
    pub fn count(&self) -> (r: usize)
        ensures
            r == self@.len(),
    {
        clients_len(&self.clients)
    }
}

impl ClientMetrics {
    /// All counters at zero.
    pub open spec fn new_spec() -> ClientMetrics {
        ClientMetrics { bytes_in: 0, bytes_out: 0, requests: 0, active_streams: 0 }
    }
}

/// Once a client is registered it is found under its ID, the count grows by
/// one, and a second registration under the same ID is refused.
pub proof fn lemma_register_then_get(
    clients: Map<Seq<char>, ClientEntry>,
    id: Seq<char>,
    entry: ClientEntry,
)
    requires
        clients.dom().finite(),
        !clients.dom().contains(id),
    ensures
        clients.insert(id, entry).dom().contains(id),
        clients.insert(id, entry)[id] == entry,
        clients.insert(id, entry).len() == clients.len() + 1,
        forall|other: Seq<char>|
            other != id ==> (#[trigger] clients.insert(id, entry).dom().contains(other)
                == clients.dom().contains(other)),
{
}

/// Once a client is unregistered it is no longer found, the count drops by
/// one, and its ID can be registered again.
pub proof fn lemma_unregister_then_get(clients: Map<Seq<char>, ClientEntry>, id: Seq<char>)
    requires
        clients.dom().finite(),
        clients.dom().contains(id),
    ensures
        !clients.remove(id).dom().contains(id),
        clients.remove(id).len() == clients.len() - 1,
{
}

/// A registry never holds a reserved subdomain: `new` starts without one,
/// and `register` and `unregister` keep it so (this is part of `wf`, which
/// all three ensure).
pub proof fn lemma_reserved_never_registered(r: Registry, id: Seq<char>)
    requires
        r.wf(),
        is_reserved(id),
    ensures
        !r@.dom().contains(id),
{
}

/// A well-formed registry holds finitely many clients, so its count is
/// the number of registered IDs.
pub proof fn lemma_wf_finite(r: Registry)
    requires
        r.wf(),
    ensures
        r@.dom().finite(),
{
}

} // verus!
