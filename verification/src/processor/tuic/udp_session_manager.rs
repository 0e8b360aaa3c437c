//! The reassembly store: one buffer for each packet of each association of
//! each client, with a byte limit for each buffer, a limit on their number
//! and expiry.

pub use super::reassembly::{ReassemblyBuffer, ReassemblyView, UdpError, UdpFragment};
use super::reassembly::{outcome_view, spec_is_expired, InsertOutcome, UdpFragmentView};
use crate::net::{IpAddress, SocketAddress};
use crate::protocol::tuic::command::packet::MAX_FRAGMENTS;
use dashmap::DashMap;
use vstd::prelude::*;

verus! {

/// What a buffer is kept under: whether the client's address is IPv4, the
/// bits of that address, the client's port, the association and the packet.
pub type SessionKey = (bool, u128, u16, u16, u16);

/// The concurrent hash map of the crate dashmap, which holds the buffers.
#[verifier::external_type_specification]
#[verifier::external_body]
#[verifier::reject_recursive_types(K)]
#[verifier::reject_recursive_types(V)]
#[verifier::reject_recursive_types(S)]
pub struct ExDashMap<K, V, S>(DashMap<K, V, S>);

/// The entries of a map of buffers.
pub uninterp spec fn buffers_of(map: DashMap<SessionKey, ReassemblyBuffer>) -> Map<
    SessionKey,
    ReassemblyBuffer,
>;

/// `DashMap::new` of the crate dashmap: a map without entries.
#[verifier::external_body]
fn map_new() -> (made: DashMap<SessionKey, ReassemblyBuffer>)
    ensures
        buffers_of(made) == (Map::<SessionKey, ReassemblyBuffer>::empty()),
{
    DashMap::new()
}

/// `DashMap::len` of the crate dashmap: the number of entries.
#[verifier::external_body]
fn map_len(map: &DashMap<SessionKey, ReassemblyBuffer>) -> (n: usize)
    ensures
        buffers_of(*map).dom().finite() ==> n == buffers_of(*map).len(),
{
    map.len()
}

/// `DashMap::insert` of the crate dashmap: puts `value` under `key` and
/// hands back what was there before.
#[verifier::external_body]
fn map_insert(
    map: &mut DashMap<SessionKey, ReassemblyBuffer>,
    key: SessionKey,
    value: ReassemblyBuffer,
) -> (previous: Option<ReassemblyBuffer>)
    ensures
        buffers_of(*final(map)) == buffers_of(*old(map)).insert(key, value),
        previous == (if buffers_of(*old(map)).contains_key(key) {
            Some(buffers_of(*old(map))[key])
        } else {
            None
        }),
{
    map.insert(key, value)
}

/// `DashMap::remove` of the crate dashmap: takes the entry under `key` out
/// of the map and hands it back, if there is one.
#[verifier::external_body]
fn map_remove(map: &mut DashMap<SessionKey, ReassemblyBuffer>, key: &SessionKey) -> (removed:
    Option<(SessionKey, ReassemblyBuffer)>)
    ensures
        buffers_of(*final(map)) == buffers_of(*old(map)).remove(*key),
        removed == (if buffers_of(*old(map)).contains_key(*key) {
            Some((*key, buffers_of(*old(map))[*key]))
        } else {
            None
        }),
{
    map.remove(key)
}

/// `DashMap::iter` of the crate dashmap, each entry turned into its key and
/// the time of its last update: every entry occurs once, in no stated
/// order.
#[verifier::external_body]
fn map_snapshot(map: &DashMap<SessionKey, ReassemblyBuffer>) -> (entries: Vec<(SessionKey, u64)>)
    ensures
        forall|i: int|
            0 <= i < entries@.len() ==> buffers_of(*map).contains_key((#[trigger] entries@[i]).0)
                && entries@[i].1 == buffers_of(*map)[entries@[i].0]@.last_update,
        forall|k: SessionKey|
            buffers_of(*map).contains_key(k) ==> exists|i: int|
                0 <= i < entries@.len() && (#[trigger] entries@[i]).0 == k,
        forall|i: int, j: int|
            0 <= i < j < entries@.len() ==> (#[trigger] entries@[i]).0 != (#[trigger] entries@[j]).0,
{
    map.iter().map(|entry| (*entry.key(), entry.value().last_update())).collect()
}

/// The key of the buffer of packet `pkt_id` of association `assoc_id` of
/// `client`.
pub open spec fn spec_session_key(client: SocketAddress, assoc_id: u16, pkt_id: u16)
    -> SessionKey {
    match client.ip {
        IpAddress::V4(v) => (true, v as u128, client.port, assoc_id, pkt_id),
        IpAddress::V6(v) => (false, v, client.port, assoc_id, pkt_id),
    }
}

/// Whether `key` belongs to association `assoc_id` of `client`, whatever
/// its packet.
pub open spec fn spec_key_in_session(key: SessionKey, client: SocketAddress, assoc_id: u16)
    -> bool {
    key == spec_session_key(client, assoc_id, key.4)
}

/// See [`spec_session_key`].
pub fn session_key(client: SocketAddress, assoc_id: u16, pkt_id: u16) -> (key: SessionKey)
    ensures
        key == spec_session_key(client, assoc_id, pkt_id),
{
    match client.ip {
        IpAddress::V4(v) => (true, v as u128, client.port, assoc_id, pkt_id),
        IpAddress::V6(v) => (false, v, client.port, assoc_id, pkt_id),
    }
}

/// See [`spec_key_in_session`].
pub fn key_in_session(key: &SessionKey, client: SocketAddress, assoc_id: u16) -> (r: bool)
    ensures
        r == spec_key_in_session(*key, client, assoc_id),
{
    let want: SessionKey = session_key(client, assoc_id, key.4);
    key.0 == want.0 && key.1 == want.1 && key.2 == want.2 && key.3 == want.3
}

/// Two keys are the same only for the same client, association and packet.
pub proof fn lemma_session_key_injective(
    a: SocketAddress,
    a_assoc: u16,
    a_pkt: u16,
    b: SocketAddress,
    b_assoc: u16,
    b_pkt: u16,
)
    ensures
        spec_session_key(a, a_assoc, a_pkt) == spec_session_key(b, b_assoc, b_pkt) <==> (a == b
            && a_assoc == b_assoc && a_pkt == b_pkt),
{
}

/// A [`UdpSessionManager`] as a value of specifications.
pub struct StoreView {
    /// The buffers, by key.
    pub sessions: Map<SessionKey, ReassemblyView>,
    /// How long a buffer may go without a fragment before it expires.
    pub session_timeout: u64,
    /// How long to wait between two sweeps for expired buffers.
    pub cleanup_interval: u64,
    /// The most buffers kept at a time, if there is a limit.
    pub max_sessions: Option<usize>,
    /// The most payload bytes one buffer holds, if there is a limit.
    pub max_reassembly_bytes_per_session: Option<usize>,
}

/// Whether `after` is what is left of `before` once the oldest buffers had
/// to make room under the limit `max`: nothing is gone where there is no
/// limit or fewer than `max` buffers; else `max - 1` buffers are left (none
/// for a limit of 0), and none that is gone was updated later than one that
/// is left.
pub open spec fn spec_evicted(
    before: Map<SessionKey, ReassemblyView>,
    after: Map<SessionKey, ReassemblyView>,
    max: Option<usize>,
) -> bool {
    match max {
        None => after == before,
        Some(m) => {
            &&& after.submap_of(before)
            &&& before.len() < m ==> after == before
            &&& before.len() >= m ==> after.len() == if m == 0 {
                0
            } else {
                m - 1
            }
            &&& forall|gone: SessionKey, kept: SessionKey|
                #![trigger before.contains_key(gone), after.contains_key(kept)]
                before.contains_key(gone) && !after.contains_key(gone) && after.contains_key(kept)
                    ==> before[gone].last_update <= before[kept].last_update
        },
    }
}

/// `sessions` without the buffers that are expired at `now`.
pub open spec fn spec_without_expired(
    sessions: Map<SessionKey, ReassemblyView>,
    now: u64,
    timeout: u64,
) -> Map<SessionKey, ReassemblyView> {
    Map::new(
        |k: SessionKey|
            sessions.contains_key(k) && !spec_is_expired(sessions[k].last_update, now, timeout),
        |k: SessionKey| sessions[k],
    )
}

/// `sessions` without the buffers of association `assoc_id` of `client`.
pub open spec fn spec_without_session(
    sessions: Map<SessionKey, ReassemblyView>,
    client: SocketAddress,
    assoc_id: u16,
) -> Map<SessionKey, ReassemblyView> {
    Map::new(
        |k: SessionKey| sessions.contains_key(k) && !spec_key_in_session(k, client, assoc_id),
        |k: SessionKey| sessions[k],
    )
}

/// Whether the store `after` and the answer `answer` are what receiving
/// `frag` from `client` at `now` makes of the store `before`.
///
/// Where the packet has a buffer, the fragment is offered to it. A buffer
/// that is complete leaves the store and the answer is the payload; so does
/// a buffer that the fragment would take over the byte limit, with the
/// answer `SessionTooLarge`. In every other case the buffer stays, as the
/// offer left it.
///
/// Where the packet has none, a packet of more than 128 fragments is
/// refused with `InvalidFragmentId` and nothing changes. Else the fragment
/// is offered to a new buffer. Where the answer is "not complete", the
/// oldest buffers make room under the limit on their number and the new
/// buffer enters the store; with any other answer nothing changes.
pub open spec fn spec_received(
    before: StoreView,
    after: StoreView,
    client: SocketAddress,
    frag: UdpFragmentView,
    now: u64,
    answer: InsertOutcome,
) -> bool {
    let key = spec_session_key(client, frag.assoc_id, frag.pkt_id);
    let limit = before.max_reassembly_bytes_per_session;
    &&& after.session_timeout == before.session_timeout
    &&& after.cleanup_interval == before.cleanup_interval
    &&& after.max_sessions == before.max_sessions
    &&& after.max_reassembly_bytes_per_session == before.max_reassembly_bytes_per_session
    &&& if before.sessions.contains_key(key) {
        let (buffer, outcome) = before.sessions[key].insert(frag.frag_id, frag.payload, limit, now);
        &&& answer == outcome
        &&& after.sessions == if outcome is Ok && outcome->Ok_0 is Some || outcome == Err::<
            Option<Seq<u8>>,
            UdpError,
        >(UdpError::SessionTooLarge) {
            before.sessions.remove(key)
        } else {
            before.sessions.insert(key, buffer)
        }
    } else if frag.frag_total > MAX_FRAGMENTS {
        &&& answer == Err::<Option<Seq<u8>>, UdpError>(UdpError::InvalidFragmentId)
        &&& after.sessions == before.sessions
    } else {
        let (buffer, outcome) = ReassemblyView::empty(frag.frag_total, now).insert(
            frag.frag_id,
            frag.payload,
            limit,
            now,
        );
        &&& answer == outcome
        &&& if outcome == Ok::<Option<Seq<u8>>, UdpError>(None) {
            &&& spec_evicted(before.sessions, after.sessions.remove(key), before.max_sessions)
            &&& after.sessions.contains_key(key)
            &&& after.sessions[key] == buffer
        } else {
            after.sessions == before.sessions
        }
    }
}

/// After the buffers of an association were dropped, none of its packets
/// has a buffer, every other buffer is as it was, and the next fragment of
/// the association, whatever its packet, is offered to a new, empty buffer.
pub proof fn lemma_dropped_session_is_gone(
    before: StoreView,
    after: StoreView,
    client: SocketAddress,
    assoc_id: u16,
    frag: UdpFragmentView,
    now: u64,
    answer: InsertOutcome,
)
    requires
        frag.assoc_id == assoc_id,
        frag.frag_total <= MAX_FRAGMENTS,
        spec_received(
            StoreView { sessions: spec_without_session(before.sessions, client, assoc_id), ..before },
            after,
            client,
            frag,
            now,
            answer,
        ),
    ensures
        forall|pkt_id: u16|
            !(#[trigger] spec_without_session(before.sessions, client, assoc_id).contains_key(
                spec_session_key(client, assoc_id, pkt_id),
            )),
        forall|k: SessionKey|
            before.sessions.contains_key(k) && !spec_key_in_session(k, client, assoc_id)
                ==> #[trigger] spec_without_session(before.sessions, client, assoc_id).contains_key(
                k,
            ) && spec_without_session(before.sessions, client, assoc_id)[k] == before.sessions[k],
        answer == ReassemblyView::empty(frag.frag_total, now).insert(
            frag.frag_id,
            frag.payload,
            before.max_reassembly_bytes_per_session,
            now,
        ).1,
{
    let cleared = spec_without_session(before.sessions, client, assoc_id);
    assert forall|pkt_id: u16|
        !(#[trigger] cleared.contains_key(spec_session_key(client, assoc_id, pkt_id))) by {
        assert(spec_key_in_session(spec_session_key(client, assoc_id, pkt_id), client, assoc_id));
    }
    assert(!cleared.contains_key(spec_session_key(client, frag.assoc_id, frag.pkt_id)));
}

/// Dropping the buffers of an association that has none changes nothing.
pub proof fn lemma_drop_unknown_session(
    sessions: Map<SessionKey, ReassemblyView>,
    client: SocketAddress,
    assoc_id: u16,
)
    requires
        forall|pkt_id: u16| !sessions.contains_key(#[trigger] spec_session_key(client, assoc_id, pkt_id)),
    ensures
        spec_without_session(sessions, client, assoc_id) == sessions,
{
    let cleared = spec_without_session(sessions, client, assoc_id);
    assert forall|k: SessionKey| sessions.contains_key(k) implies cleared.contains_key(k) by {
        if spec_key_in_session(k, client, assoc_id) {
            assert(k == spec_session_key(client, assoc_id, k.4));
        }
    }
    assert(cleared =~= sessions);
}

/// The reassembly store.
pub struct UdpSessionManager {
    sessions: DashMap<SessionKey, ReassemblyBuffer>,
    session_timeout: u64,
    cleanup_interval: u64,
    max_sessions: Option<usize>,
    max_reassembly_bytes_per_session: Option<usize>,
}

impl View for UdpSessionManager {
    type V = StoreView;

    closed spec fn view(&self) -> StoreView {
        StoreView {
            sessions: Map::new(
                |k: SessionKey| buffers_of(self.sessions).contains_key(k),
                |k: SessionKey| buffers_of(self.sessions)[k]@,
            ),
            session_timeout: self.session_timeout,
            cleanup_interval: self.cleanup_interval,
            max_sessions: self.max_sessions,
            max_reassembly_bytes_per_session: self.max_reassembly_bytes_per_session,
        }
    }
}

impl UdpSessionManager {
    /// What every store that this library hands out satisfies: it holds
    /// finitely many buffers, each of them well formed, and each waits for
    /// a fragment: a buffer leaves the store with the fragment that
    /// completes it.
    pub closed spec fn wf(&self) -> bool {
        &&& buffers_of(self.sessions).dom().finite()
        &&& forall|k: SessionKey| #[trigger]
            buffers_of(self.sessions).contains_key(k) ==> buffers_of(self.sessions)[k].wf()
                && !buffers_of(self.sessions)[k]@.is_complete()
    }

    /// A well-formed store holds finitely many buffers, each of them well
    /// formed and none of them complete.
    pub proof fn lemma_view_wf(&self)
        requires
            self.wf(),
        ensures
            self@.sessions.dom().finite(),
            forall|k: SessionKey| #[trigger]
                self@.sessions.contains_key(k) ==> self@.sessions[k].wf()
                    && !self@.sessions[k].is_complete(),
    {
        assert(self@.sessions.dom() =~= buffers_of(self.sessions).dom());
        assert forall|k: SessionKey| #[trigger] self@.sessions.contains_key(k) implies self@.sessions[
            k
        ].wf() && !self@.sessions[k].is_complete() by {
            buffers_of(self.sessions)[k].lemma_view_wf();
        }
    }

    /// An empty store without limits. Times are in milliseconds.
    pub fn new(session_timeout: u64, cleanup_interval: u64) -> (m: Self)
        ensures
            m.wf(),
            m@ == (StoreView {
                sessions: Map::empty(),
                session_timeout,
                cleanup_interval,
                max_sessions: None,
                max_reassembly_bytes_per_session: None,
            }),
    {
        let m = UdpSessionManager {
            sessions: map_new(),
            session_timeout,
            cleanup_interval,
            max_sessions: None,
            max_reassembly_bytes_per_session: None,
        };
        assert(m@.sessions =~= Map::<SessionKey, ReassemblyView>::empty());
        m
    }

    /// Sets the most buffers kept at a time; `None` lifts the limit.
    pub fn set_max_sessions(&mut self, max: Option<usize>)
        ensures
            final(self).wf() == old(self).wf(),
            final(self)@ == (StoreView { max_sessions: max, ..old(self)@ }),
    {
        self.max_sessions = max;
    }

    /// Sets the most payload bytes one buffer holds; `None` lifts the
    /// limit.
    pub fn set_max_reassembly_bytes_per_session(&mut self, max: Option<usize>)
        ensures
            final(self).wf() == old(self).wf(),
            final(self)@ == (StoreView { max_reassembly_bytes_per_session: max, ..old(self)@ }),
    {
        self.max_reassembly_bytes_per_session = max;
    }

    /// How long a buffer may go without a fragment before it expires.
    pub fn session_timeout(&self) -> (t: u64)
        ensures
            t == self@.session_timeout,
    {
        self.session_timeout
    }

    /// How long to wait between two sweeps for expired buffers.
    pub fn cleanup_interval(&self) -> (t: u64)
        ensures
            t == self@.cleanup_interval,
    {
        self.cleanup_interval
    }

    /// How many buffers the store holds.
    pub fn session_count(&self) -> (n: usize)
        requires
            self.wf(),
        ensures
            n == self@.sessions.len(),
    {
        assert(self@.sessions.dom() =~= buffers_of(self.sessions).dom());
        map_len(&self.sessions)
    }

    /// Receives one fragment from `client` at time `now`; see
    /// [`spec_received`].
    #[verifier::rlimit(30)]
    pub fn receive_fragment(&mut self, frag: UdpFragment, client: SocketAddress, now: u64) -> (r:
        Result<Option<Vec<u8>>, UdpError>)
        requires
            old(self).wf(),
        ensures
            final(self).wf(),
            spec_received(old(self)@, final(self)@, client, frag@, now, outcome_view(r)),
    {
        let key: SessionKey = session_key(client, frag.assoc_id, frag.pkt_id);
        let limit: Option<usize> = self.max_reassembly_bytes_per_session;
        let ghost before = self@;
        let ghost raw = buffers_of(self.sessions);
        match map_remove(&mut self.sessions, &key) {
            Some((_, mut buffer)) => {
                let r = buffer.insert(frag.frag_id, frag.payload, limit, now);
                let keep: bool = match &r {
                    Ok(Some(_)) => false,
                    Ok(None) => true,
                    Err(UdpError::SessionTooLarge) => false,
                    Err(UdpError::InvalidFragmentId) => true,
                };
                if keep {
                    map_insert(&mut self.sessions, key, buffer);
                    assert(self@.sessions =~= before.sessions.insert(key, buffer@));
                } else {
                    assert(self@.sessions =~= before.sessions.remove(key));
                }
                r
            },
            None => {
                assert(buffers_of(self.sessions) =~= raw);
                assert(self@.sessions =~= before.sessions);
                if frag.frag_total as usize > MAX_FRAGMENTS {
                    return Err(UdpError::InvalidFragmentId);
                }
                let mut buffer = ReassemblyBuffer::new(frag.frag_total, now);
                let r = buffer.insert(frag.frag_id, frag.payload, limit, now);
                match &r {
                    Ok(None) => {
                        self.evict_oldest();
                        let ghost evicted = self@.sessions;
                        assert(!evicted.contains_key(key)) by {
                            if evicted.dom().contains(key) {
                                assert(evicted.submap_of(before.sessions));
                                assert(before.sessions.dom().contains(key));
                            }
                        }
                        map_insert(&mut self.sessions, key, buffer);
                        assert(self@.sessions =~= evicted.insert(key, buffer@));
                        assert(self@.sessions.remove(key) =~= evicted);
                    },
                    _ => {},
                }
                r
            },
        }
    }

    /// Makes room under the limit on the number of buffers: while there are
    /// at least as many as the limit, the one updated longest ago goes.
    #[verifier::rlimit(30)]
    fn evict_oldest(&mut self)
        requires
            old(self).wf(),
        ensures
            final(self).wf(),
            final(self)@ == (StoreView { sessions: final(self)@.sessions, ..old(self)@ }),
            spec_evicted(old(self)@.sessions, final(self)@.sessions, old(self)@.max_sessions),
    {
        let max: usize = match self.max_sessions {
            None => {
                return ;
            },
            Some(m) => m,
        };
        let ghost before = self@.sessions;
        proof {
            self.lemma_view_wf();
        }
        let mut n: usize = self.session_count();
        while n >= max && n > 0
            invariant
                self.wf(),
                self@ == (StoreView { sessions: self@.sessions, ..old(self)@ }),
                before == old(self)@.sessions,
                before.dom().finite(),
                self@.sessions.dom().finite(),
                n == self@.sessions.len(),
                self@.sessions.submap_of(before),
                self@.sessions.len() <= before.len(),
                before.len() < max ==> self@.sessions == before,
                before.len() >= max && max > 0 ==> self@.sessions.len() >= max - 1,
                forall|gone: SessionKey, kept: SessionKey|
                    #![trigger before.contains_key(gone), self@.sessions.contains_key(kept)]
                    before.contains_key(gone) && !self@.sessions.contains_key(gone)
                        && self@.sessions.contains_key(kept) ==> before[gone].last_update
                        <= before[kept].last_update,
            decreases n,
        {
            let ghost cur = self@.sessions;
            let ghost raw = buffers_of(self.sessions);
            let entries: Vec<(SessionKey, u64)> = map_snapshot(&self.sessions);
            proof {
                assert(cur.dom() =~= raw.dom());
                assert(cur.dom().len() > 0);
                let some = cur.dom().choose();
                assert(raw.contains_key(some));
            }
            let mut best: usize = 0;
            let mut j: usize = 1;
            while j < entries.len()
                invariant
                    best < j <= entries@.len(),
                    forall|t: int| 0 <= t < j ==> entries@[best as int].1 <= (#[trigger] entries@[t]).1,
                decreases entries@.len() - j,
            {
                if entries[j].1 < entries[best].1 {
                    best = j;
                }
                j = j + 1;
            }
            let oldest: SessionKey = entries[best].0;
            assert(raw.contains_key(entries@[best as int].0));
            map_remove(&mut self.sessions, &oldest);
            proof {
                let next = self@.sessions;
                assert(next =~= cur.remove(oldest));
                assert(next.dom() =~= cur.dom().remove(oldest));
                assert forall|gone: SessionKey, kept: SessionKey|
                    #![trigger before.contains_key(gone), next.contains_key(kept)]
                    before.contains_key(gone) && !next.contains_key(gone) && next.contains_key(
                        kept,
                    ) implies before[gone].last_update <= before[kept].last_update by {
                    assert(cur.contains_key(kept));
                    if cur.contains_key(gone) {
                        assert(gone == oldest);
                        let t = choose|t: int|
                            0 <= t < entries@.len() && (#[trigger] entries@[t]).0 == kept;
                        assert(entries@[best as int].1 <= entries@[t].1);
                        assert(cur[kept] == before[kept]);
                        assert(cur[gone] == before[gone]);
                    }
                }
            }
            n = n - 1;
        }
    }

    /// Drops every buffer of association `assoc_id` of `client`. Where
    /// there is none, nothing changes.
    pub fn remove_session(&mut self, client: SocketAddress, assoc_id: u16)
        requires
            old(self).wf(),
        ensures
            final(self).wf(),
            final(self)@ == (StoreView {
                sessions: spec_without_session(old(self)@.sessions, client, assoc_id),
                ..old(self)@
            }),
    {
        let ghost before = self@.sessions;
        let ghost raw = buffers_of(self.sessions);
        let entries: Vec<(SessionKey, u64)> = map_snapshot(&self.sessions);
        let mut i: usize = 0;
        while i < entries.len()
            invariant
                i <= entries@.len(),
                self.wf(),
                self@ == (StoreView { sessions: self@.sessions, ..old(self)@ }),
                before == old(self)@.sessions,
                self@.sessions.submap_of(before),
                forall|t: int| 0 <= t < entries@.len() ==> before.contains_key((#[trigger] entries@[t]).0),
                forall|k: SessionKey|
                    before.contains_key(k) ==> exists|t: int|
                        0 <= t < entries@.len() && (#[trigger] entries@[t]).0 == k,
                forall|a: int, b: int|
                    0 <= a < b < entries@.len() ==> (#[trigger] entries@[a]).0 != (#[trigger] entries@[b]).0,
                forall|t: int|
                    0 <= t < entries@.len() ==> (self@.sessions.contains_key((#[trigger] entries@[t]).0)
                        <==> (t >= i || !spec_key_in_session(entries@[t].0, client, assoc_id))),
            decreases entries@.len() - i,
        {
            let key: SessionKey = entries[i].0;
            if key_in_session(&key, client, assoc_id) {
                let ghost cur = self@.sessions;
                map_remove(&mut self.sessions, &key);
                assert(self@.sessions =~= cur.remove(key));
            }
            i = i + 1;
        }
        proof {
            let want = spec_without_session(before, client, assoc_id);
            assert forall|k: SessionKey| self@.sessions.contains_key(k) == want.contains_key(
                k,
            ) by {
                if before.contains_key(k) {
                    let t = choose|t: int|
                        0 <= t < entries@.len() && (#[trigger] entries@[t]).0 == k;
                    assert(self@.sessions.contains_key(entries@[t].0) <==> !spec_key_in_session(
                        entries@[t].0,
                        client,
                        assoc_id,
                    ));
                }
            }
            assert(self@.sessions =~= want);
        }
    }

    /// Drops every buffer that is expired at `now`: that got no fragment
    /// for longer than the session timeout.
    pub fn cleanup_expired_sessions(&mut self, now: u64) -> (r: Result<(), UdpError>)
        requires
            old(self).wf(),
        ensures
            r is Ok,
            final(self).wf(),
            final(self)@ == (StoreView {
                sessions: spec_without_expired(
                    old(self)@.sessions,
                    now,
                    old(self)@.session_timeout,
                ),
                ..old(self)@
            }),
    {
        let ghost before = self@.sessions;
        let timeout: u64 = self.session_timeout;
        let entries: Vec<(SessionKey, u64)> = map_snapshot(&self.sessions);
        let mut i: usize = 0;
        while i < entries.len()
            invariant
                i <= entries@.len(),
                self.wf(),
                self@ == (StoreView { sessions: self@.sessions, ..old(self)@ }),
                before == old(self)@.sessions,
                timeout == old(self)@.session_timeout,
                self@.sessions.submap_of(before),
                forall|t: int|
                    0 <= t < entries@.len() ==> before.contains_key((#[trigger] entries@[t]).0)
                        && entries@[t].1 == before[entries@[t].0].last_update,
                forall|k: SessionKey|
                    before.contains_key(k) ==> exists|t: int|
                        0 <= t < entries@.len() && (#[trigger] entries@[t]).0 == k,
                forall|a: int, b: int|
                    0 <= a < b < entries@.len() ==> (#[trigger] entries@[a]).0 != (#[trigger] entries@[b]).0,
                forall|t: int|
                    0 <= t < entries@.len() ==> (self@.sessions.contains_key((#[trigger] entries@[t]).0)
                        <==> (t >= i || !spec_is_expired(entries@[t].1, now, timeout))),
            decreases entries@.len() - i,
        {
            let key: SessionKey = entries[i].0;
            let last: u64 = entries[i].1;
            if now > last && now - last > timeout {
                let ghost cur = self@.sessions;
                map_remove(&mut self.sessions, &key);
                assert(self@.sessions =~= cur.remove(key));
            }
            i = i + 1;
        }
        proof {
            let want = spec_without_expired(before, now, timeout);
            assert forall|k: SessionKey| self@.sessions.contains_key(k) == want.contains_key(
                k,
            ) by {
                if before.contains_key(k) {
                    let t = choose|t: int|
                        0 <= t < entries@.len() && (#[trigger] entries@[t]).0 == k;
                    assert(self@.sessions.contains_key(entries@[t].0) <==> !spec_is_expired(
                        entries@[t].1,
                        now,
                        timeout,
                    ));
                }
            }
            assert(self@.sessions =~= want);
        }
        Ok(())
    }
}

} // verus!
