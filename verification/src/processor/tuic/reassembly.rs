//! The buffer in which the fragments of one packet wait until all are
//! there.

use super::bitmap::{
    bit_is_set, count_ones, lemma_with_bit, lemma_zero_bits, popcount, popcount_below, set_bit,
    test_bit, with_bit,
};
use crate::protocol::tuic::command::packet::{
    spec_frag_count, spec_frag_end, Packet, MAX_FRAGMENTS, MAX_PAYLOAD,
};
pub use crate::wire::copy_bytes;
use vstd::prelude::*;

verus! {

/// Why a fragment was refused.
#[derive(Debug, Clone, Copy, PartialEq, Eq, Structural)]
pub enum UdpError {
    /// The fragment would take the buffer over the configured byte limit.
    SessionTooLarge,
    /// The fragment number is not below the fragment count.
    InvalidFragmentId,
}

/// One fragment as the reassembly store takes it: a packet without its
/// header and address.
#[derive(Debug, PartialEq, Eq)]
pub struct UdpFragment {
    pub assoc_id: u16,
    pub pkt_id: u16,
    pub frag_id: u8,
    pub frag_total: u8,
    pub payload: Vec<u8>,
}

/// A [`UdpFragment`] as a value of specifications.
pub struct UdpFragmentView {
    pub assoc_id: u16,
    pub pkt_id: u16,
    pub frag_id: u8,
    pub frag_total: u8,
    pub payload: Seq<u8>,
}

impl View for UdpFragment {
    type V = UdpFragmentView;

    open spec fn view(&self) -> UdpFragmentView {
        UdpFragmentView {
            assoc_id: self.assoc_id,
            pkt_id: self.pkt_id,
            frag_id: self.frag_id,
            frag_total: self.frag_total,
            payload: self.payload@,
        }
    }
}

impl UdpFragment {
    /// The fragment that `packet` carries, with a copy of its payload.
    pub fn from_packet(packet: &Packet) -> (f: Self)
        ensures
            f@ == (UdpFragmentView {
                assoc_id: packet.assoc_id,
                pkt_id: packet.pkt_id,
                frag_id: packet.frag_id,
                frag_total: packet.frag_total,
                payload: packet.payload@,
            }),
    {
        UdpFragment {
            assoc_id: packet.assoc_id,
            pkt_id: packet.pkt_id,
            frag_id: packet.frag_id,
            frag_total: packet.frag_total,
            payload: copy_bytes(&packet.payload),
        }
    }
}

/// How many of `frags` are there.
pub open spec fn count_present(frags: Seq<Option<Seq<u8>>>) -> nat
    decreases frags.len(),
{
    if frags.len() == 0 {
        0
    } else {
        count_present(frags.drop_last()) + if frags.last() is Some {
            1nat
        } else {
            0nat
        }
    }
}

/// How many bytes those of `frags` that are there hold together.
pub open spec fn bytes_present(frags: Seq<Option<Seq<u8>>>) -> nat
    decreases frags.len(),
{
    if frags.len() == 0 {
        0
    } else {
        bytes_present(frags.drop_last()) + match frags.last() {
            Some(p) => p.len(),
            None => 0nat,
        }
    }
}

/// The payloads of those of `frags` that are there, one after the other in
/// ascending order of fragment number.
pub open spec fn concat_present(frags: Seq<Option<Seq<u8>>>) -> Seq<u8>
    decreases frags.len(),
{
    if frags.len() == 0 {
        Seq::empty()
    } else {
        concat_present(frags.drop_last()) + match frags.last() {
            Some(p) => p,
            None => Seq::empty(),
        }
    }
}

/// A [`ReassemblyBuffer`] as a value of specifications.
pub struct ReassemblyView {
    /// How many fragments the packet has.
    pub frag_total: u8,
    /// The payload of each fragment that has arrived, by fragment number.
    pub fragments: Seq<Option<Seq<u8>>>,
    /// Bit `i` is set when fragment `i` has arrived.
    pub bitmap: u128,
    /// When a fragment was last recorded.
    pub last_update: u64,
}

/// What [`ReassemblyBuffer::insert`] answers, payload as a sequence.
pub type InsertOutcome = Result<Option<Seq<u8>>, UdpError>;

impl ReassemblyView {
    /// What holds of every buffer: it has a place for each of at most 128
    /// fragments, and bit `i` of the bitmap is set exactly when fragment
    /// `i` is there.
    pub open spec fn wf(self) -> bool {
        &&& self.fragments.len() == self.frag_total
        &&& self.frag_total <= MAX_FRAGMENTS
        &&& forall|i: u8|
            i < 128 ==> (#[trigger] bit_is_set(self.bitmap, i) <==> (i < self.frag_total
                && self.fragments[i as int] is Some))
    }

    /// How many fragments have arrived.
    pub open spec fn received(self) -> nat {
        count_present(self.fragments)
    }

    /// How many payload bytes the buffer holds.
    pub open spec fn total_bytes(self) -> nat {
        bytes_present(self.fragments)
    }

    /// Whether every fragment has arrived.
    pub open spec fn is_complete(self) -> bool {
        self.received() == self.frag_total
    }

    /// The payload so far, in ascending order of fragment number.
    pub open spec fn assembled(self) -> Seq<u8> {
        concat_present(self.fragments)
    }

    /// An empty buffer for a packet of `frag_total` fragments.
    pub open spec fn empty(frag_total: u8, now: u64) -> ReassemblyView {
        ReassemblyView {
            frag_total,
            fragments: Seq::new(frag_total as nat, |i: int| None::<Seq<u8>>),
            bitmap: 0,
            last_update: now,
        }
    }

    /// The buffer after fragment `frag_id` with `payload` was offered at
    /// time `now`, and the answer.
    ///
    /// A fragment number that is not below the count is refused. A fragment
    /// that is already there changes nothing. One that would take the
    /// buffer over `max_total_bytes` is refused. Any other is recorded, and
    /// once all are there the answer is the whole payload.
    pub open spec fn insert(
        self,
        frag_id: u8,
        payload: Seq<u8>,
        max_total_bytes: Option<usize>,
        now: u64,
    ) -> (ReassemblyView, InsertOutcome) {
        if frag_id >= self.frag_total {
            (self, Err(UdpError::InvalidFragmentId))
        } else if self.fragments[frag_id as int] is Some {
            (self, Ok(None))
        } else if max_total_bytes is Some && self.total_bytes() + payload.len()
            > max_total_bytes->Some_0 {
            (self, Err(UdpError::SessionTooLarge))
        } else {
            let next = ReassemblyView {
                frag_total: self.frag_total,
                fragments: self.fragments.update(frag_id as int, Some(payload)),
                bitmap: with_bit(self.bitmap, frag_id),
                last_update: now,
            };
            (
                next,
                if next.is_complete() {
                    Ok(Some(next.assembled()))
                } else {
                    Ok(None)
                },
            )
        }
    }
}

/// At most as many fragments are there as there are places.
pub proof fn lemma_count_bound(frags: Seq<Option<Seq<u8>>>)
    ensures
        count_present(frags) <= frags.len(),
        count_present(frags) == frags.len() <==> (forall|i: int|
            0 <= i < frags.len() ==> frags[i] is Some),
    decreases frags.len(),
{
    if frags.len() > 0 {
        let head = frags.drop_last();
        lemma_count_bound(head);
        if count_present(frags) == frags.len() {
            assert forall|i: int| 0 <= i < frags.len() implies frags[i] is Some by {
                if i < head.len() {
                    assert(head[i] is Some);
                }
            }
        }
        if forall|i: int| 0 <= i < frags.len() ==> frags[i] is Some {
            assert forall|i: int| 0 <= i < head.len() implies head[i] is Some by {
                assert(frags[i] is Some);
            }
        }
    }
}

/// Putting a fragment into an empty place adds one to the count and its
/// length to the bytes.
pub proof fn lemma_update_present(frags: Seq<Option<Seq<u8>>>, i: int, payload: Seq<u8>)
    requires
        0 <= i < frags.len(),
        frags[i] is None,
    ensures
        count_present(frags.update(i, Some(payload))) == count_present(frags) + 1,
        bytes_present(frags.update(i, Some(payload))) == bytes_present(frags) + payload.len(),
    decreases frags.len(),
{
    let next = frags.update(i, Some(payload));
    if i == frags.len() - 1 {
        assert(next.drop_last() =~= frags.drop_last());
    } else {
        lemma_update_present(frags.drop_last(), i, payload);
        assert(next.drop_last() =~= frags.drop_last().update(i, Some(payload)));
    }
}

/// Nothing is there in a sequence of empty places.
pub proof fn lemma_none_present(n: nat)
    ensures
        count_present(Seq::new(n, |i: int| None::<Seq<u8>>)) == 0,
        bytes_present(Seq::new(n, |i: int| None::<Seq<u8>>)) == 0,
        concat_present(Seq::new(n, |i: int| None::<Seq<u8>>)) == Seq::<u8>::empty(),
    decreases n,
{
    let s = Seq::new(n, |i: int| None::<Seq<u8>>);
    if n > 0 {
        lemma_none_present((n - 1) as nat);
        assert(s.drop_last() =~= Seq::new((n - 1) as nat, |i: int| None::<Seq<u8>>));
        assert(concat_present(s) =~= Seq::<u8>::empty());
    }
}

/// The bits of a well-formed buffer count its fragments: below every
/// bound, as many bits are set as fragments are there.
pub proof fn lemma_popcount_counts_prefix(v: ReassemblyView, n: nat)
    requires
        v.wf(),
        n <= v.frag_total,
    ensures
        popcount_below(v.bitmap, n) == count_present(v.fragments.take(n as int)),
    decreases n,
{
    if n > 0 {
        lemma_popcount_counts_prefix(v, (n - 1) as nat);
        assert(v.fragments.take(n as int).drop_last() =~= v.fragments.take(n - 1));
        assert(bit_is_set(v.bitmap, (n - 1) as u8) <==> v.fragments[n - 1] is Some);
    }
}

/// No bit is set at or above the fragment count.
proof fn lemma_popcount_above(v: ReassemblyView, n: nat)
    requires
        v.wf(),
        v.frag_total <= n <= 128,
    ensures
        popcount_below(v.bitmap, n) == popcount_below(v.bitmap, v.frag_total as nat),
    decreases n,
{
    if n > v.frag_total {
        lemma_popcount_above(v, (n - 1) as nat);
        assert(!bit_is_set(v.bitmap, (n - 1) as u8));
    }
}

/// In every well-formed buffer the number of set bits is the number of
/// fragments that have arrived.
pub proof fn lemma_popcount_is_received(v: ReassemblyView)
    requires
        v.wf(),
    ensures
        popcount(v.bitmap) == v.received(),
        v.received() <= v.frag_total,
{
    lemma_popcount_above(v, 128);
    lemma_popcount_counts_prefix(v, v.frag_total as nat);
    assert(v.fragments.take(v.frag_total as int) =~= v.fragments);
    lemma_count_bound(v.fragments);
}

/// Offering a fragment keeps a buffer well formed.
pub proof fn lemma_insert_wf(
    v: ReassemblyView,
    frag_id: u8,
    payload: Seq<u8>,
    max_total_bytes: Option<usize>,
    now: u64,
)
    requires
        v.wf(),
    ensures
        v.insert(frag_id, payload, max_total_bytes, now).0.wf(),
        v.insert(frag_id, payload, max_total_bytes, now).0.frag_total == v.frag_total,
{
    let next = v.insert(frag_id, payload, max_total_bytes, now).0;
    if next != v {
        assert forall|i: u8| i < 128 implies (#[trigger] bit_is_set(next.bitmap, i) <==> (i
            < next.frag_total && next.fragments[i as int] is Some)) by {
            lemma_with_bit(v.bitmap, frag_id, i);
            assert(bit_is_set(v.bitmap, i) <==> (i < v.frag_total && v.fragments[i as int]
                is Some));
        }
    }
}

/// A buffer that is within a byte limit stays within it, whatever is
/// offered to it under that limit.
pub proof fn lemma_insert_keeps_limit(
    v: ReassemblyView,
    frag_id: u8,
    payload: Seq<u8>,
    max: usize,
    now: u64,
)
    requires
        v.wf(),
        v.total_bytes() <= max,
    ensures
        v.insert(frag_id, payload, Some(max), now).0.total_bytes() <= max,
{
    let next = v.insert(frag_id, payload, Some(max), now).0;
    if next != v {
        lemma_update_present(v.fragments, frag_id as int, payload);
    }
}

/// Offering the same fragment a second time changes nothing: the buffer
/// stays as the first offer left it, and the answer is "not complete".
pub proof fn lemma_insert_twice(
    v: ReassemblyView,
    frag_id: u8,
    payload: Seq<u8>,
    again: Seq<u8>,
    max_total_bytes: Option<usize>,
    now: u64,
    later: u64,
)
    requires
        v.wf(),
        v.insert(frag_id, payload, max_total_bytes, now).1 is Ok,
    ensures
        ({
            let once = v.insert(frag_id, payload, max_total_bytes, now).0;
            once.insert(frag_id, again, max_total_bytes, later) == (
                once,
                Ok::<Option<Seq<u8>>, UdpError>(None),
            )
        }),
{
}

/// Whether `order` names each fragment number below `n` exactly once.
pub open spec fn is_permutation(order: Seq<u8>, n: u8) -> bool {
    &&& order.len() == n
    &&& forall|k: int| 0 <= k < n ==> #[trigger] order[k] < n
    &&& forall|j: int, k: int| 0 <= j < k < n ==> order[j] != order[k]
}

/// The buffer of a packet of `n` fragments after the first `k` of them
/// have arrived in the order `order`, fragment `i` carrying `parts[i]`.
pub open spec fn arrivals_state(
    n: u8,
    parts: Seq<Seq<u8>>,
    order: Seq<u8>,
    k: nat,
    now: u64,
) -> ReassemblyView
    decreases k,
{
    if k == 0 {
        ReassemblyView::empty(n, now)
    } else {
        arrivals_state(n, parts, order, (k - 1) as nat, now).insert(
            order[k - 1],
            parts[order[k - 1] as int],
            None,
            now,
        ).0
    }
}

/// What the buffer answers to arrival number `k`, counted from 1.
pub open spec fn arrivals_outcome(
    n: u8,
    parts: Seq<Seq<u8>>,
    order: Seq<u8>,
    k: nat,
    now: u64,
) -> InsertOutcome {
    arrivals_state(n, parts, order, (k - 1) as nat, now).insert(
        order[k - 1],
        parts[order[k - 1] as int],
        None,
        now,
    ).1
}

/// Whether fragment `i` is among the first `k` arrivals.
pub open spec fn has_arrived(order: Seq<u8>, k: nat, i: u8) -> bool
    decreases k,
{
    k > 0 && (order[k - 1] == i || has_arrived(order, (k - 1) as nat, i))
}

proof fn lemma_has_arrived_index(order: Seq<u8>, k: nat, i: u8)
    requires
        has_arrived(order, k, i),
    ensures
        exists|j: int| 0 <= j < k && order[j] == i,
    decreases k,
{
    if order[k - 1] == i {
        assert(0 <= k - 1 < k && order[k - 1] == i);
    } else {
        lemma_has_arrived_index(order, (k - 1) as nat, i);
    }
}

#[verifier::rlimit(30)]
proof fn lemma_arrivals_prefix(n: u8, parts: Seq<Seq<u8>>, order: Seq<u8>, k: nat, now: u64)
    requires
        n <= MAX_FRAGMENTS,
        parts.len() == n,
        is_permutation(order, n),
        k <= n,
    ensures
        ({
            let s = arrivals_state(n, parts, order, k, now);
            &&& s.wf()
            &&& s.frag_total == n
            &&& s.received() == k
            &&& forall|i: int|
                0 <= i < n ==> #[trigger] s.fragments[i] == if has_arrived(order, k, i as u8) {
                    Some(parts[i])
                } else {
                    None
                }
        }),
    decreases k,
{
    let s = arrivals_state(n, parts, order, k, now);
    if k == 0 {
        lemma_none_present(n as nat);
        assert forall|i: u8| i < 128 implies (#[trigger] bit_is_set(s.bitmap, i) <==> (i
            < s.frag_total && s.fragments[i as int] is Some)) by {
            lemma_zero_bits(i);
        }
    } else {
        let prev = arrivals_state(n, parts, order, (k - 1) as nat, now);
        let id = order[k - 1];
        lemma_arrivals_prefix(n, parts, order, (k - 1) as nat, now);
        assert(id < n);
        if has_arrived(order, (k - 1) as nat, id) {
            lemma_has_arrived_index(order, (k - 1) as nat, id);
            let j = choose|j: int| 0 <= j < k - 1 && order[j] == id;
            assert(order[j] != order[k - 1]);
        }
        assert(prev.fragments[id as int] is None);
        lemma_insert_wf(prev, id, parts[id as int], None, now);
        lemma_update_present(prev.fragments, id as int, parts[id as int]);
        assert forall|i: int| 0 <= i < n implies #[trigger] s.fragments[i] == if has_arrived(
            order,
            k,
            i as u8,
        ) {
            Some(parts[i])
        } else {
            None
        } by {
            assert(prev.fragments[i] == if has_arrived(order, (k - 1) as nat, i as u8) {
                Some(parts[i])
            } else {
                None
            });
        }
    }
}

/// The fragments of a packet may arrive in any order: whatever the order,
/// every arrival but the last is answered "not complete", and the last is
/// answered with the payloads in ascending order of fragment number, which
/// is what arrival in that order gives.
#[verifier::rlimit(30)]
pub proof fn lemma_any_order_assembles(n: u8, parts: Seq<Seq<u8>>, order: Seq<u8>, now: u64)
    requires
        1 <= n <= MAX_FRAGMENTS,
        parts.len() == n,
        is_permutation(order, n),
    ensures
        arrivals_outcome(n, parts, order, n as nat, now) == Ok::<Option<Seq<u8>>, UdpError>(
            Some(concat_present(Seq::new(n as nat, |i: int| Some(parts[i])))),
        ),
        forall|k: nat|
            1 <= k < n ==> #[trigger] arrivals_outcome(n, parts, order, k, now) == Ok::<
                Option<Seq<u8>>,
                UdpError,
            >(None),
{
    assert forall|k: nat| 1 <= k <= n implies #[trigger] arrivals_outcome(n, parts, order, k, now)
        == if k == n {
        Ok::<Option<Seq<u8>>, UdpError>(
            Some(concat_present(Seq::new(n as nat, |i: int| Some(parts[i])))),
        )
    } else {
        Ok::<Option<Seq<u8>>, UdpError>(None)
    } by {
        let prev = arrivals_state(n, parts, order, (k - 1) as nat, now);
        let next = arrivals_state(n, parts, order, k, now);
        let id = order[k - 1];
        lemma_arrivals_prefix(n, parts, order, (k - 1) as nat, now);
        lemma_arrivals_prefix(n, parts, order, k, now);
        assert(id < n);
        if has_arrived(order, (k - 1) as nat, id) {
            lemma_has_arrived_index(order, (k - 1) as nat, id);
            let j = choose|j: int| 0 <= j < k - 1 && order[j] == id;
            assert(order[j] != order[k - 1]);
        }
        assert(prev.fragments[id as int] is None);
        if k == n {
            lemma_count_bound(next.fragments);
            assert(next.fragments =~= Seq::new(n as nat, |i: int| Some(parts[i]))) by {
                assert forall|i: int| 0 <= i < n implies next.fragments[i] == Some(parts[i]) by {
                    assert(next.fragments[i] is Some);
                }
            }
        }
    }
}

/// The payloads that the fragments of `payload` carry, by fragment number.
pub open spec fn spec_fragment_payloads(payload: Seq<u8>) -> Seq<Seq<u8>> {
    Seq::new(
        spec_frag_count(payload.len()),
        |i: int| payload.subrange(i * 1200, spec_frag_end(payload.len(), i)),
    )
}

/// The first `k` fragments of a payload, all there, give its first bytes.
proof fn lemma_concat_prefix(payload: Seq<u8>, k: nat)
    requires
        payload.len() <= MAX_PAYLOAD,
        k <= spec_frag_count(payload.len()),
    ensures
        concat_present(Seq::new(k, |i: int| Some(spec_fragment_payloads(payload)[i])))
            == payload.subrange(
            0,
            if k == 0 {
                0
            } else {
                spec_frag_end(payload.len(), k - 1)
            },
        ),
    decreases k,
{
    let parts = spec_fragment_payloads(payload);
    let head = Seq::new(k, |i: int| Some(parts[i]));
    if k == 0 {
        assert(concat_present(head) =~= payload.subrange(0, 0));
    } else {
        lemma_concat_prefix(payload, (k - 1) as nat);
        assert(head.drop_last() =~= Seq::new((k - 1) as nat, |i: int| Some(parts[i])));
        assert(head.last() == Some(parts[k - 1]));
        assert(concat_present(head) =~= payload.subrange(0, spec_frag_end(payload.len(), k - 1)));
    }
}

/// A payload that was cut into fragments comes back whole, in whatever
/// order its fragments arrive: the last arrival is answered with the
/// payload.
pub proof fn lemma_fragments_reassemble(payload: Seq<u8>, order: Seq<u8>, now: u64)
    requires
        1 <= payload.len() <= MAX_PAYLOAD,
        is_permutation(order, spec_frag_count(payload.len()) as u8),
    ensures
        1 <= spec_frag_count(payload.len()) <= MAX_FRAGMENTS,
        arrivals_outcome(
            spec_frag_count(payload.len()) as u8,
            spec_fragment_payloads(payload),
            order,
            spec_frag_count(payload.len()),
            now,
        ) == Ok::<Option<Seq<u8>>, UdpError>(Some(payload)),
{
    let n = spec_frag_count(payload.len());
    let parts = spec_fragment_payloads(payload);
    lemma_any_order_assembles(n as u8, parts, order, now);
    lemma_concat_prefix(payload, n);
    assert(payload.subrange(0, spec_frag_end(payload.len(), n - 1)) =~= payload);
}

/// The fragments of one packet that have arrived so far.
#[derive(Debug)]
pub struct ReassemblyBuffer {
    frag_total: u8,
    fragments: Vec<Option<Vec<u8>>>,
    received_bitmap: u128,
    received_count: usize,
    total_bytes: u128,
    last_update: u64,
}

/// The fragments of a buffer as sequences.
pub open spec fn fragment_views(fragments: Seq<Option<Vec<u8>>>) -> Seq<Option<Seq<u8>>> {
    Seq::new(
        fragments.len(),
        |i: int|
            match fragments[i] {
                Some(v) => Some(v@),
                None => None,
            },
    )
}

impl View for ReassemblyBuffer {
    type V = ReassemblyView;

    closed spec fn view(&self) -> ReassemblyView {
        ReassemblyView {
            frag_total: self.frag_total,
            fragments: fragment_views(self.fragments@),
            bitmap: self.received_bitmap,
            last_update: self.last_update,
        }
    }
}

impl ReassemblyBuffer {
    /// What every buffer that this library hands out satisfies: its view is
    /// well formed and its counters say what its view holds.
    pub closed spec fn wf(&self) -> bool {
        &&& self@.wf()
        &&& self.received_count == self@.received()
        &&& self.total_bytes == self@.total_bytes()
        &&& self.total_bytes <= self.received_count * 0xFFFF_FFFF_FFFF_FFFF
    }

    /// A well-formed buffer has a well-formed view.
    pub proof fn lemma_view_wf(&self)
        requires
            self.wf(),
        ensures
            self@.wf(),
    {
    }

    /// An empty buffer for a packet of `frag_total` fragments, made at time
    /// `now`.
    pub fn new(frag_total: u8, now: u64) -> (b: Self)
        requires
            frag_total <= MAX_FRAGMENTS,
        ensures
            b.wf(),
            b@ == ReassemblyView::empty(frag_total, now),
    {
        let mut fragments: Vec<Option<Vec<u8>>> = Vec::new();
        let mut i: u8 = 0;
        while i < frag_total
            invariant
                i <= frag_total,
                fragments@.len() == i,
                forall|j: int| 0 <= j < i ==> fragments@[j] is None,
            decreases frag_total - i,
        {
            fragments.push(None);
            i = i + 1;
        }
        let b = ReassemblyBuffer {
            frag_total,
            fragments,
            received_bitmap: 0,
            received_count: 0,
            total_bytes: 0,
            last_update: now,
        };
        proof {
            let want = ReassemblyView::empty(frag_total, now);
            assert(b@.fragments =~= want.fragments);
            lemma_none_present(frag_total as nat);
            assert forall|k: u8| k < 128 implies (#[trigger] bit_is_set(b@.bitmap, k) <==> (k
                < b@.frag_total && b@.fragments[k as int] is Some)) by {
                lemma_zero_bits(k);
            }
        }
        b
    }

    /// How many fragments the packet has.
    pub fn frag_total(&self) -> (n: u8)
        ensures
            n == self@.frag_total,
    {
        self.frag_total
    }

    /// How many fragments have arrived.
    pub fn received_count(&self) -> (n: usize)
        requires
            self.wf(),
        ensures
            n == self@.received(),
            n == popcount(self@.bitmap),
    {
        proof {
            lemma_popcount_is_received(self@);
        }
        self.received_count
    }

    /// How many payload bytes the buffer holds.
    pub fn total_bytes(&self) -> (n: u128)
        requires
            self.wf(),
        ensures
            n == self@.total_bytes(),
    {
        self.total_bytes
    }

    /// When a fragment was last recorded.
    pub fn last_update(&self) -> (t: u64)
        ensures
            t == self@.last_update,
    {
        self.last_update
    }

    /// Whether every fragment has arrived: whether as many bits are set as
    /// the packet has fragments.
    pub fn is_complete(&self) -> (r: bool)
        requires
            self.wf(),
        ensures
            r == self@.is_complete(),
            r == (popcount(self@.bitmap) == self@.frag_total),
    {
        proof {
            lemma_popcount_is_received(self@);
        }
        count_ones(self.received_bitmap) == self.frag_total as u32
    }

    /// Whether more than `timeout` has passed at `now` since a fragment was
    /// last recorded. Time that runs backwards counts as no time passed.
    pub fn is_expired(&self, now: u64, timeout: u64) -> (r: bool)
        ensures
            r == spec_is_expired(self@.last_update, now, timeout),
    {
        now > self.last_update && now - self.last_update > timeout
    }

    /// Offers fragment `frag_id`; see [`ReassemblyView::insert`].
    pub fn insert(
        &mut self,
        frag_id: u8,
        payload: Vec<u8>,
        max_total_bytes: Option<usize>,
        now: u64,
    ) -> (r: Result<Option<Vec<u8>>, UdpError>)
        requires
            old(self).wf(),
        ensures
            final(self).wf(),
            (final(self)@, outcome_view(r)) == old(self)@.insert(
                frag_id,
                payload@,
                max_total_bytes,
                now,
            ),
    {
        let idx: usize = frag_id as usize;
        let ghost before = self@;
        if idx >= self.fragments.len() {
            return Err(UdpError::InvalidFragmentId);
        }
        if test_bit(self.received_bitmap, frag_id) {
            assert(bit_is_set(before.bitmap, frag_id));
            return Ok(None);
        }
        assert(!bit_is_set(before.bitmap, frag_id));
        assert(before.fragments[frag_id as int] is None);
        proof {
            lemma_popcount_is_received(before);
        }
        let payload_len: usize = payload.len();
        match max_total_bytes {
            Some(max) => {
                if self.total_bytes + payload_len as u128 > max as u128 {
                    return Err(UdpError::SessionTooLarge);
                }
            },
            None => {},
        }
        let ghost want = before.insert(frag_id, payload@, max_total_bytes, now).0;
        proof {
            lemma_insert_wf(before, frag_id, payload@, max_total_bytes, now);
            lemma_update_present(before.fragments, frag_id as int, payload@);
        }
        self.fragments[idx] = Some(payload);
        self.received_bitmap = set_bit(self.received_bitmap, frag_id);
        self.received_count = self.received_count + 1;
        self.total_bytes = self.total_bytes + payload_len as u128;
        self.last_update = now;
        assert(self@.fragments =~= want.fragments);
        assert(self@ == want);
        proof {
            lemma_popcount_is_received(want);
        }
        if count_ones(self.received_bitmap) == self.frag_total as u32 {
            Ok(Some(self.assemble()))
        } else {
            Ok(None)
        }
    }

    /// What has arrived of the payload, in ascending order of fragment
    /// number.
    pub fn payload(&self) -> (out: Vec<u8>)
        ensures
            out@ == self@.assembled(),
    {
        self.assemble()
    }

    /// The payloads that are there, one after the other.
    fn assemble(&self) -> (out: Vec<u8>)
        ensures
            out@ == self@.assembled(),
    {
        let mut out: Vec<u8> = Vec::new();
        let ghost frags = self@.fragments;
        let mut i: usize = 0;
        while i < self.fragments.len()
            invariant
                i <= self.fragments@.len(),
                frags == fragment_views(self.fragments@),
                out@ == concat_present(frags.take(i as int)),
            decreases self.fragments@.len() - i,
        {
            assert(frags.take(i + 1).drop_last() =~= frags.take(i as int));
            match &self.fragments[i] {
                Some(p) => {
                    crate::wire::put_slice(&mut out, p.as_slice());
                },
                None => {
                    assert(out@ + Seq::<u8>::empty() =~= out@);
                },
            }
            i = i + 1;
        }
        assert(frags.take(i as int) =~= frags);
        out
    }

    /// Lets go of everything the buffer holds: what is left is an empty
    /// buffer for a packet of no fragments.
    pub fn shrink_to_fit(&mut self)
        ensures
            final(self).wf(),
            final(self)@ == ReassemblyView::empty(0, old(self)@.last_update),
    {
        self.frag_total = 0;
        self.fragments = Vec::new();
        self.received_bitmap = 0;
        self.received_count = 0;
        self.total_bytes = 0;
        proof {
            let want = ReassemblyView::empty(0, old(self)@.last_update);
            assert(self@.fragments =~= want.fragments);
            lemma_none_present(0);
            assert forall|k: u8| k < 128 implies (#[trigger] bit_is_set(self@.bitmap, k) <==> (k
                < self@.frag_total && self@.fragments[k as int] is Some)) by {
                lemma_zero_bits(k);
            }
        }
    }
}

/// Whether a buffer last updated at `last_update` is expired at `now`.
pub open spec fn spec_is_expired(last_update: u64, now: u64, timeout: u64) -> bool {
    now - last_update > timeout
}

/// The answer of [`ReassemblyBuffer::insert`] with its payload as a
/// sequence.
pub open spec fn outcome_view(r: Result<Option<Vec<u8>>, UdpError>) -> InsertOutcome {
    match r {
        Ok(Some(v)) => Ok(Some(v@)),
        Ok(None) => Ok(None),
        Err(e) => Err(e),
    }
}

} // verus!
