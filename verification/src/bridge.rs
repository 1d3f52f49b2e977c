//! The bridge itself: a linear byte memory, a table of live allocations,
//! and a table of hash sessions, driven by the integer-only entry points a
//! host calls. Each entry point's contract states its exact effect as a
//! transition of the ghost model in [`crate::model`], and says on which
//! inputs each error is returned — with the state untouched whenever one is.

use vstd::prelude::*;
use std::collections::HashMap;
use crate::hashing::{md5_digest_bytes, Hasher};
use crate::model::{
    absorb_trans, alloc_offset, alloc_trans, create_trans, dealloc_ok, dealloc_trans, digest_trans,
    empty_model, finalize_digest, finalize_trans, one_shot_digest, region_bytes, region_in_memory,
    reserved_len, session_live, BridgeModel, DIGEST_LEN,
};

verus! {

broadcast use vstd::std_specs::hash::group_hash_axioms;

/// Why an entry point refused to act. The underlying protocol leaves these
/// situations undefined; this bridge detects them and reports them instead,
/// leaving its state exactly as it was.
#[derive(Clone, Copy, Debug, PartialEq, Eq)]
pub enum BridgeError {
    /// The offset is not the start of a live allocation.
    UnknownRegion,
    /// The offset is live, but the size given is not the size it was
    /// allocated with.
    SizeMismatch,
    /// The handle was never returned by session creation.
    InvalidHandle,
    /// The handle's session has already been finalized and consumed.
    StaleHandle,
    /// The region reaches past the end of memory.
    RegionOutOfBounds,
}

/// The module-side state the host drives through integer calls: who owns
/// which region of the byte memory, and which hash sessions are live.
pub struct Bridge {
    memory: Vec<u8>,
    live: HashMap<usize, usize>,
    sessions: Vec<Option<Hasher>>,
}

impl Bridge {
    /// The ghost snapshot of this bridge that every contract speaks of.
    pub closed spec fn model(&self) -> BridgeModel {
        BridgeModel {
            mem: self.memory@,
            live: self.live@,
            sessions: Seq::new(
                self.sessions@.len(),
                |i: int|
                    match self.sessions@[i] {
                        Some(h) => Some(h.bytes_absorbed()),
                        None => None,
                    },
            ),
        }
    }

    /// The bridge's state is well formed.
    pub open spec fn wf(&self) -> bool {
        self.model().wf()
    }

    /// A bridge with empty memory, no allocations and no sessions.
    pub fn new() -> (b: Bridge)
        ensures
            b.wf(),
            b.model() == empty_model(),
    {
        let b = Bridge { memory: Vec::new(), live: HashMap::new(), sessions: Vec::new() };
        proof {
            assert(b.model() =~= empty_model());
        }
        b
    }

    /// How many bytes of memory the bridge currently holds. Every offset a
    /// host may pass lies below this.
    pub fn memory_size(&self) -> (n: usize)
        ensures
            n == self.model().mem.len(),
    {
        self.memory.len()
    }

    /// Allocates a region of `size` bytes for the host and returns its
    /// offset: fresh (not live before the call), zero-filled, and the
    /// host's to release later with the same size.
    pub fn md5_alloc_buffer(&mut self, size: usize) -> (offset: usize)
        requires
            old(self).wf(),
        ensures
            final(self).wf(),
            final(self).model() == alloc_trans(old(self).model(), size),
            offset == alloc_offset(old(self).model()),
            !old(self).model().live.dom().contains(offset),
            dealloc_ok(final(self).model(), offset, size),
    {
        let offset = self.memory.len();
        let reserved: usize = if size == 0 {
            1
        } else {
            size
        };
        let mut i: usize = 0;
        while i < reserved
            invariant
                i <= reserved,
                self.memory@ == old(self).memory@ + Seq::new(i as nat, |j: int| 0u8),
                self.live == old(self).live,
                self.sessions == old(self).sessions,
            decreases reserved - i,
        {
            self.memory.push(0u8);
            proof {
                assert(self.memory@ =~= old(self).memory@ + Seq::new(
                    (i + 1) as nat,
                    |j: int| 0u8,
                ));
            }
            i += 1;
        }
        let new_len = self.memory.len();
        self.live.insert(offset, size);
        proof {
            assert(self.memory@.len() == new_len);
            let m0 = old(self).model();
            assert(self.model() =~= alloc_trans(m0, size));
            assert(!m0.live.dom().contains(offset)) by {
                if m0.live.dom().contains(offset) {
                    assert(offset + reserved_len(m0.live[offset]) <= m0.mem.len());
                }
            }
            assert forall|off: usize| #[trigger]
                self.model().live.dom().contains(off) implies off + reserved_len(
                self.model().live[off],
            ) <= self.model().mem.len() by {
                if off != offset {
                    assert(m0.live.dom().contains(off));
                }
            }
        }
        offset
    }

    /// Releases a region the host owns. Succeeds exactly when `offset` is a
    /// live allocation of exactly `size` bytes; the region then stops being
    /// live and no byte of memory changes. A double free or a mismatched
    /// size is refused, with the state untouched.
    pub fn md5_dealloc_buffer(&mut self, offset: usize, size: usize) -> (r: Result<
        (),
        BridgeError,
    >)
        requires
            old(self).wf(),
        ensures
            final(self).wf(),
            r is Ok <==> dealloc_ok(old(self).model(), offset, size),
            r is Ok ==> final(self).model() == dealloc_trans(old(self).model(), offset),
            r == Err::<(), BridgeError>(BridgeError::UnknownRegion) <==> !old(
                self,
            ).model().live.dom().contains(offset),
            r == Err::<(), BridgeError>(BridgeError::SizeMismatch) <==> (old(
                self,
            ).model().live.dom().contains(offset) && old(self).model().live[offset] != size),
            !(r is Ok) ==> final(self).model() == old(self).model(),
    {
        match self.live.get(&offset) {
            Some(sz) => {
                if *sz == size {
                    self.live.remove(&offset);
                    proof {
                        assert(self.model() =~= dealloc_trans(old(self).model(), offset));
                    }
                    Ok(())
                } else {
                    Err(BridgeError::SizeMismatch)
                }
            },
            None => Err(BridgeError::UnknownRegion),
        }
    }

    /// Creates a fresh hash session with nothing absorbed and returns its
    /// handle. Memory and allocations are untouched.
    pub fn md5_create_hasher(&mut self) -> (handle: usize)
        requires
            old(self).wf(),
        ensures
            final(self).wf(),
            final(self).model() == create_trans(old(self).model()),
            handle == old(self).model().sessions.len(),
            session_live(final(self).model(), handle),
    {
        let handle = self.sessions.len();
        self.sessions.push(Some(Hasher::new()));
        proof {
            assert(self.model() =~= create_trans(old(self).model()));
        }
        handle
    }

    /// Reads `len` bytes of memory at `offset` on the host's behalf — the
    /// way a host reaches a digest buffer, or any region it owns.
    pub fn read_region(&self, offset: usize, len: usize) -> (r: Vec<u8>)
        requires
            region_in_memory(self.model(), offset, len),
        ensures
            r@ == region_bytes(self.model(), offset, len),
    {
        let mem_len = self.memory.len();
        let mut out: Vec<u8> = Vec::new();
        let mut i: usize = 0;
        while i < len
            invariant
                i <= len,
                mem_len == self.memory@.len(),
                offset + len <= mem_len,
                out@.len() == i,
                forall|j: int| 0 <= j < i ==> out@[j] == self.memory@[offset + j],
            decreases len - i,
        {
            let b = self.memory[offset + i];
            out.push(b);
            i += 1;
        }
        proof {
            assert(out@ =~= region_bytes(self.model(), offset, len));
        }
        out
    }

    /// Writes the host's bytes into memory at `offset` — the way a host
    /// fills a region it owns before handing it to a hashing entry point.
    /// Only the bytes `[offset, offset + data.len())` change.
    pub fn write_region(&mut self, offset: usize, data: &[u8])
        requires
            old(self).wf(),
            offset + data@.len() <= old(self).model().mem.len(),
        ensures
            final(self).wf(),
            final(self).model().live == old(self).model().live,
            final(self).model().sessions == old(self).model().sessions,
            final(self).model().mem.len() == old(self).model().mem.len(),
            region_bytes(final(self).model(), offset, data@.len() as usize) == data@,
            forall|j: int|
                0 <= j < old(self).model().mem.len() && !(offset <= j < offset + data@.len())
                    ==> final(self).model().mem[j] == old(self).model().mem[j],
    {
        let mem_len = self.memory.len();
        let mut i: usize = 0;
        while i < data.len()
            invariant
                i <= data@.len(),
                mem_len == self.memory@.len(),
                offset + data@.len() <= mem_len,
                self.memory@.len() == old(self).memory@.len(),
                self.live == old(self).live,
                self.sessions == old(self).sessions,
                forall|j: int| 0 <= j < i ==> self.memory@[offset + j] == data@[j],
                forall|j: int|
                    0 <= j < self.memory@.len() && !(offset <= j < offset + i)
                        ==> self.memory@[j] == old(self).memory@[j],
            decreases data@.len() - i,
        {
            let b = data[i];
            self.memory[offset + i] = b;
            i += 1;
        }
        proof {
            assert forall|off: usize| #[trigger]
                self.model().live.dom().contains(off) implies off + reserved_len(
                self.model().live[off],
            ) <= self.model().mem.len() by {
                assert(old(self).model().live.dom().contains(off));
            }
            assert(region_bytes(self.model(), offset, data@.len() as usize) =~= data@);
        }
    }

    /// Feeds the bytes of a region the host owns into a live session. The
    /// region is borrowed, never consumed: no byte of memory and no
    /// allocation changes, and the handle stays live. Absorbed bytes are
    /// appended in call order.
    pub fn md5_update(&mut self, handle: usize, offset: usize, len: usize) -> (r: Result<
        (),
        BridgeError,
    >)
        requires
            old(self).wf(),
        ensures
            final(self).wf(),
            r is Ok <==> (session_live(old(self).model(), handle) && region_in_memory(
                old(self).model(),
                offset,
                len,
            )),
            r is Ok ==> final(self).model() == absorb_trans(
                old(self).model(),
                handle,
                region_bytes(old(self).model(), offset, len),
            ),
            r == Err::<(), BridgeError>(BridgeError::InvalidHandle) <==> handle >= old(
                self,
            ).model().sessions.len(),
            r == Err::<(), BridgeError>(BridgeError::StaleHandle) <==> (handle < old(
                self,
            ).model().sessions.len() && old(self).model().sessions[handle as int] is None),
            r == Err::<(), BridgeError>(BridgeError::RegionOutOfBounds) <==> (session_live(
                old(self).model(),
                handle,
            ) && !region_in_memory(old(self).model(), offset, len)),
            !(r is Ok) ==> final(self).model() == old(self).model(),
    {
        if handle >= self.sessions.len() {
            return Err(BridgeError::InvalidHandle);
        }
        let slot = self.sessions.remove(handle);
        match slot {
            None => {
                self.sessions.insert(handle, None);
                proof {
                    assert(self.sessions@ =~= old(self).sessions@);
                    assert(self.model() =~= old(self).model());
                }
                Err(BridgeError::StaleHandle)
            },
            Some(mut h) => {
                if offset > self.memory.len() || len > self.memory.len() - offset {
                    self.sessions.insert(handle, Some(h));
                    proof {
                        assert(self.sessions@ =~= old(self).sessions@);
                        assert(self.model() =~= old(self).model());
                    }
                    return Err(BridgeError::RegionOutOfBounds);
                }
                let ghost absorbed0 = h.bytes_absorbed();
                let chunk = self.read_region(offset, len);
                h.update(chunk.as_slice());
                self.sessions.insert(handle, Some(h));
                proof {
                    let m0 = old(self).model();
                    assert(m0.sessions[handle as int] == Some(absorbed0));
                    assert(self.model().sessions =~= m0.sessions.update(
                        handle as int,
                        Some(absorbed0 + region_bytes(m0, offset, len)),
                    ));
                    assert(self.model() =~= absorb_trans(
                        m0,
                        handle,
                        region_bytes(m0, offset, len),
                    ));
                }
                Ok(())
            },
        }
    }

    /// Finalizes a live session: the session is consumed — its handle is
    /// permanently stale from here on — and the 16-byte digest of all the
    /// bytes it absorbed is written into a freshly allocated digest buffer,
    /// whose offset is returned and whose ownership passes to the host, to
    /// be released later with size [`DIGEST_LEN`].
    pub fn md5_finalize(&mut self, handle: usize) -> (r: Result<usize, BridgeError>)
        requires
            old(self).wf(),
        ensures
            final(self).wf(),
            r is Ok <==> session_live(old(self).model(), handle),
            r is Ok ==> ({
                let m0 = old(self).model();
                &&& r->Ok_0 == alloc_offset(m0)
                &&& final(self).model() == finalize_trans(m0, handle)
                &&& finalize_digest(m0, handle).len() == DIGEST_LEN
                &&& dealloc_ok(final(self).model(), r->Ok_0, DIGEST_LEN)
                &&& region_bytes(final(self).model(), r->Ok_0, DIGEST_LEN) == finalize_digest(
                    m0,
                    handle,
                )
            }),
            r == Err::<usize, BridgeError>(BridgeError::InvalidHandle) <==> handle >= old(
                self,
            ).model().sessions.len(),
            r == Err::<usize, BridgeError>(BridgeError::StaleHandle) <==> (handle < old(
                self,
            ).model().sessions.len() && old(self).model().sessions[handle as int] is None),
            !(r is Ok) ==> final(self).model() == old(self).model(),
    {
        if handle >= self.sessions.len() {
            return Err(BridgeError::InvalidHandle);
        }
        let slot = self.sessions.remove(handle);
        match slot {
            None => {
                self.sessions.insert(handle, None);
                proof {
                    assert(self.sessions@ =~= old(self).sessions@);
                    assert(self.model() =~= old(self).model());
                }
                Err(BridgeError::StaleHandle)
            },
            Some(h) => {
                self.sessions.insert(handle, None);
                let ghost absorbed0 = h.bytes_absorbed();
                let mut digest = h.finalize();
                let offset = self.memory.len();
                self.memory.append(&mut digest);
                let new_len = self.memory.len();
                self.live.insert(offset, DIGEST_LEN);
                proof {
                    assert(self.memory@.len() == new_len);
                    let m0 = old(self).model();
                    assert(m0.sessions[handle as int] == Some(absorbed0));
                    assert(self.model().sessions =~= m0.sessions.update(handle as int, None));
                    assert(self.model() =~= finalize_trans(m0, handle));
                    assert(region_bytes(self.model(), offset, DIGEST_LEN) =~= finalize_digest(
                        m0,
                        handle,
                    ));
                    assert forall|off: usize| #[trigger]
                        self.model().live.dom().contains(off) implies off + reserved_len(
                        self.model().live[off],
                    ) <= self.model().mem.len() by {
                        if off != offset {
                            assert(m0.live.dom().contains(off));
                        }
                    }
                }
                Ok(offset)
            },
        }
    }

    /// One-shot digest of a region the host owns: exactly a session created,
    /// fed that region once and finalized, collapsed into a single call with
    /// no handle ever observable. The region is borrowed, never consumed;
    /// the returned digest buffer is the host's, to be released with size
    /// [`DIGEST_LEN`].
    pub fn md5_digest(&mut self, offset: usize, size: usize) -> (r: Result<usize, BridgeError>)
        requires
            old(self).wf(),
        ensures
            final(self).wf(),
            r is Ok <==> region_in_memory(old(self).model(), offset, size),
            r is Ok ==> ({
                let m0 = old(self).model();
                &&& r->Ok_0 == alloc_offset(m0)
                &&& final(self).model() == digest_trans(m0, offset, size)
                &&& one_shot_digest(region_bytes(m0, offset, size)).len() == DIGEST_LEN
                &&& dealloc_ok(final(self).model(), r->Ok_0, DIGEST_LEN)
                &&& region_bytes(final(self).model(), r->Ok_0, DIGEST_LEN) == one_shot_digest(
                    region_bytes(m0, offset, size),
                )
            }),
            r == Err::<usize, BridgeError>(BridgeError::RegionOutOfBounds) <==> !region_in_memory(
                old(self).model(),
                offset,
                size,
            ),
            !(r is Ok) ==> final(self).model() == old(self).model(),
    {
        if offset > self.memory.len() || size > self.memory.len() - offset {
            return Err(BridgeError::RegionOutOfBounds);
        }
        let input = self.read_region(offset, size);
        let mut digest = md5_digest_bytes(input.as_slice());
        let doff = self.memory.len();
        self.memory.append(&mut digest);
        let new_len = self.memory.len();
        self.live.insert(doff, DIGEST_LEN);
        proof {
            assert(self.memory@.len() == new_len);
            let m0 = old(self).model();
            assert(self.model() =~= digest_trans(m0, offset, size));
            assert(region_bytes(self.model(), doff, DIGEST_LEN) =~= one_shot_digest(
                region_bytes(m0, offset, size),
            ));
            assert forall|off: usize| #[trigger]
                self.model().live.dom().contains(off) implies off + reserved_len(
                self.model().live[off],
            ) <= self.model().mem.len() by {
                if off != doff {
                    assert(m0.live.dom().contains(off));
                }
            }
        }
        Ok(doff)
    }
}

} // verus!
