//! The mathematical model of the bridge: a ghost snapshot of its whole
//! state, one transition function per entry point, and the laws that hold
//! of those transitions. Every executable entry point of
//! [`crate::bridge::Bridge`] promises in its contract that its effect on the
//! bridge equals one of these transitions.

use vstd::prelude::*;
use crate::hashing::md5_of;

verus! {

/// The width, in bytes, of every digest the bridge produces.
pub const DIGEST_LEN: usize = 16;

/// A snapshot of the bridge's state.
#[verifier::ext_equal]
pub ghost struct BridgeModel {
    /// The flat, byte-addressable memory the host and the module share.
    /// Host-visible offsets index into this sequence.
    pub mem: Seq<u8>,
    /// The live allocations: each offset the allocator has handed out and
    /// not yet released, mapped to the size it was requested with.
    pub live: Map<usize, usize>,
    /// Every hash session ever created, indexed by handle: the bytes it has
    /// absorbed so far, or `None` once it has been finalized.
    pub sessions: Seq<Option<Seq<u8>>>,
}

/// The bytes the arena actually reserves for an allocation of `size`: at
/// least one, so that every allocation gets an offset of its own and a
/// zero-sized allocation can still be released by that offset.
pub open spec fn reserved_len(size: usize) -> int {
    if size == 0 {
        1
    } else {
        size as int
    }
}

impl BridgeModel {
    /// Well-formedness: memory is addressable by `usize` offsets, and every
    /// live allocation, padding included, lies inside memory. In
    /// particular, live offsets are strictly below `mem.len()`, so the next
    /// offset the bump allocator hands out is never one that is still live.
    pub open spec fn wf(self) -> bool {
        &&& self.mem.len() <= usize::MAX
        &&& forall|off: usize| #[trigger]
            self.live.dom().contains(off) ==> off + reserved_len(self.live[off]) <= self.mem.len()
    }
}

/// The bridge's state before the host has allocated or created anything.
pub open spec fn empty_model() -> BridgeModel {
    BridgeModel { mem: Seq::empty(), live: Map::empty(), sessions: Seq::empty() }
}

/// The offset the allocator returns next: one past the current end of
/// memory, since the arena only ever grows at its end.
pub open spec fn alloc_offset(m: BridgeModel) -> usize {
    m.mem.len() as usize
}

/// Allocating `size` bytes: memory grows by the reserved length, all of it
/// zeroed, and the fresh region becomes live. Nothing already allocated
/// moves or changes.
pub open spec fn alloc_trans(m: BridgeModel, size: usize) -> BridgeModel {
    BridgeModel {
        mem: m.mem + Seq::new(reserved_len(size) as nat, |i: int| 0u8),
        live: m.live.insert(alloc_offset(m), size),
        sessions: m.sessions,
    }
}

/// Deallocation succeeds exactly when `offset` is a live allocation and
/// `size` is the size it was allocated with.
pub open spec fn dealloc_ok(m: BridgeModel, offset: usize, size: usize) -> bool {
    m.live.dom().contains(offset) && m.live[offset] == size
}

/// Releasing a region: it stops being live. Memory contents are untouched,
/// so no other region is disturbed.
pub open spec fn dealloc_trans(m: BridgeModel, offset: usize) -> BridgeModel {
    BridgeModel { mem: m.mem, live: m.live.remove(offset), sessions: m.sessions }
}

/// Creating a hash session: a fresh slot with no bytes absorbed; its handle
/// is the index of that slot. Memory and allocations are untouched.
pub open spec fn create_trans(m: BridgeModel) -> BridgeModel {
    BridgeModel { mem: m.mem, live: m.live, sessions: m.sessions.push(Some(Seq::empty())) }
}

/// A handle names a session that exists and has not been finalized.
pub open spec fn session_live(m: BridgeModel, handle: usize) -> bool {
    handle < m.sessions.len() && m.sessions[handle as int] is Some
}

/// The region `[offset, offset + len)` lies inside memory.
pub open spec fn region_in_memory(m: BridgeModel, offset: usize, len: usize) -> bool {
    offset + len <= m.mem.len()
}

/// The bytes of the region `[offset, offset + len)`.
pub open spec fn region_bytes(m: BridgeModel, offset: usize, len: usize) -> Seq<u8> {
    m.mem.subrange(offset as int, offset + len)
}

/// Absorbing a chunk into a live session: the chunk is appended to what the
/// session has absorbed. The borrowed region itself — all of memory, in
/// fact — and the allocation table are untouched.
pub open spec fn absorb_trans(m: BridgeModel, handle: usize, chunk: Seq<u8>) -> BridgeModel {
    BridgeModel {
        mem: m.mem,
        live: m.live,
        sessions: m.sessions.update(
            handle as int,
            Some(m.sessions[handle as int]->Some_0 + chunk),
        ),
    }
}

/// The digest bytes that finalizing a live session yields: the MD5 digest
/// of everything it absorbed, in call order.
pub open spec fn finalize_digest(m: BridgeModel, handle: usize) -> Seq<u8> {
    md5_of(m.sessions[handle as int]->Some_0)
}

/// The digest bytes that the one-shot entry point yields for an input.
pub open spec fn one_shot_digest(input: Seq<u8>) -> Seq<u8> {
    md5_of(input)
}

/// Finalizing a live session: the session is consumed — its slot becomes
/// `None`, forever — and a fresh digest buffer is allocated at the end of
/// memory, holding the digest bytes, live with size [`DIGEST_LEN`] and
/// owned by the host from now on.
pub open spec fn finalize_trans(m: BridgeModel, handle: usize) -> BridgeModel {
    BridgeModel {
        mem: m.mem + finalize_digest(m, handle),
        live: m.live.insert(alloc_offset(m), DIGEST_LEN),
        sessions: m.sessions.update(handle as int, None),
    }
}

/// The one-shot digest of a region: as [`finalize_trans`], but over the
/// region's bytes directly, with no session slot involved at any point.
pub open spec fn digest_trans(m: BridgeModel, offset: usize, size: usize) -> BridgeModel {
    BridgeModel {
        mem: m.mem + one_shot_digest(region_bytes(m, offset, size)),
        live: m.live.insert(alloc_offset(m), DIGEST_LEN),
        sessions: m.sessions,
    }
}

/// Absorbing a sequence of chunks into a session, one call per chunk, in
/// order.
pub open spec fn absorb_all_trans(m: BridgeModel, handle: usize, chunks: Seq<Seq<u8>>) -> BridgeModel
    decreases chunks.len(),
{
    if chunks.len() == 0 {
        m
    } else {
        absorb_trans(absorb_all_trans(m, handle, chunks.drop_last()), handle, chunks.last())
    }
}

/// One-shot/incremental equivalence: absorbing any sequence of chunks into
/// a fresh session, one call per chunk, leaves the session holding exactly
/// the concatenation of the chunks; finalizing it therefore yields the very
/// digest bytes that the one-shot entry point yields on the concatenation.
pub proof fn lemma_one_shot_incremental_equivalence(
    m: BridgeModel,
    handle: usize,
    chunks: Seq<Seq<u8>>,
)
    requires
        handle < m.sessions.len(),
        m.sessions[handle as int] == Some(Seq::<u8>::empty()),
    ensures
        absorb_all_trans(m, handle, chunks).sessions.len() == m.sessions.len(),
        absorb_all_trans(m, handle, chunks).sessions[handle as int] == Some(chunks.flatten()),
        finalize_digest(absorb_all_trans(m, handle, chunks), handle) == one_shot_digest(
            chunks.flatten(),
        ),
    decreases chunks.len(),
{
    broadcast use Seq::<_>::lemma_flatten_push;

    if chunks.len() == 0 {
        assert(chunks.flatten() == Seq::<u8>::empty());
        assert(Seq::<u8>::empty() + Seq::<u8>::empty() =~= Seq::<u8>::empty());
    } else {
        let rest = chunks.drop_last();
        lemma_one_shot_incremental_equivalence(m, handle, rest);
        assert(chunks =~= rest.push(chunks.last()));
        assert(rest.push(chunks.last()).flatten() == rest.flatten() + chunks.last());
    }
}

/// Determinism: the one-shot digest of equal inputs is equal. The digest is
/// a function of the input bytes and of nothing else — not of the call
/// count, the session table, or anything in the bridge.
pub proof fn lemma_digest_deterministic(b1: Seq<u8>, b2: Seq<u8>)
    requires
        b1 == b2,
    ensures
        one_shot_digest(b1) == one_shot_digest(b2),
{
}

/// Allocation round trip: allocating any size `s` and releasing the
/// returned offset with that same `s` restores the allocation table
/// exactly, leaves every previously addressable byte unchanged, and leaves
/// the sessions untouched — no leak, no corruption of other regions.
pub proof fn lemma_alloc_dealloc_round_trip(m: BridgeModel, size: usize)
    requires
        m.wf(),
    ensures
        ({
            let m1 = alloc_trans(m, size);
            let m2 = dealloc_trans(m1, alloc_offset(m));
            &&& dealloc_ok(m1, alloc_offset(m), size)
            &&& m2.live == m.live
            &&& m2.sessions == m.sessions
            &&& m2.mem.len() >= m.mem.len()
            &&& forall|i: int| 0 <= i < m.mem.len() ==> m2.mem[i] == m.mem[i]
        }),
{
    let off = alloc_offset(m);
    assert(!m.live.dom().contains(off)) by {
        if m.live.dom().contains(off) {
            assert(off + reserved_len(m.live[off]) <= m.mem.len());
        }
    }
    assert(m.live.insert(off, size).remove(off) =~= m.live);
}

/// Borrow non-consumption: absorbing a chunk into a live session changes no
/// byte of memory and no entry of the allocation table, so any region the
/// host owned before the call — the borrowed input region included — still
/// holds the same bytes, can still be read or rewritten, and can still be
/// released on exactly the same terms; and the handle itself stays live.
pub proof fn lemma_absorb_borrows_only(m: BridgeModel, handle: usize, chunk: Seq<u8>)
    requires
        session_live(m, handle),
    ensures
        absorb_trans(m, handle, chunk).mem == m.mem,
        absorb_trans(m, handle, chunk).live == m.live,
        forall|off: usize, len: usize|
            #[trigger] region_bytes(absorb_trans(m, handle, chunk), off, len) == region_bytes(
                m,
                off,
                len,
            ),
        forall|off: usize, size: usize|
            #[trigger] dealloc_ok(absorb_trans(m, handle, chunk), off, size) == dealloc_ok(
                m,
                off,
                size,
            ),
        session_live(absorb_trans(m, handle, chunk), handle),
{
}

} // verus!
