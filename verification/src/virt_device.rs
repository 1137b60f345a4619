//! Scoped packet storage and the frame rings that bridge the asynchronous
//! device to the user-space TCP stack's poll interface. A `PacketBuffer`
//! holds one device read; a `FrameRing` never blocks: a full ring refuses a
//! push and an empty ring yields nothing.

use vstd::prelude::*;
use vstd::slice::slice_subrange;

verus! {

/// A fixed-capacity byte region reused for one device read: the length says
/// how many leading bytes are a valid frame and never exceeds the capacity.
pub struct PacketBuffer {
    data: Vec<u8>,
    len: usize,
}

impl PacketBuffer {
    /// The storage capacity in bytes.
    pub closed spec fn spec_capacity(self) -> int {
        self.data@.len() as int
    }

    /// How many leading bytes are valid.
    pub closed spec fn spec_len(self) -> int {
        self.len as int
    }

    /// The valid bytes `[0, len)`.
    pub closed spec fn view(self) -> Seq<u8> {
        self.data@.subrange(0, self.len as int)
    }

    pub open spec fn wf(self) -> bool {
        self.spec_len() <= self.spec_capacity()
    }

    /// A zeroed buffer of capacity `n` with length 0.
    pub fn with_capacity(n: usize) -> (r: PacketBuffer)
        ensures
            r.wf(),
            r.spec_capacity() == n,
            r.spec_len() == 0,
    {
        let data: Vec<u8> = vec![0u8; n];
        PacketBuffer { data, len: 0 }
    }

    /// Declares that bytes `[0, n)` are valid; the caller answers for their
    /// content. `n` must not exceed the capacity.
    pub fn set_len(&mut self, n: usize)
        requires
            old(self).wf(),
            n <= old(self).spec_capacity(),
        ensures
            final(self).wf(),
            final(self).spec_capacity() == old(self).spec_capacity(),
            final(self).spec_len() == n,
    {
        self.len = n;
    }

    pub fn len(&self) -> (r: usize)
        ensures
            r == self.spec_len(),
    {
        self.len
    }

    pub fn capacity(&self) -> (r: usize)
        ensures
            r == self.spec_capacity(),
    {
        self.data.len()
    }

    /// The valid bytes, as a slice.
    pub fn as_bytes(&self) -> (r: &[u8])
        requires
            self.wf(),
        ensures
            r@ == self.view(),
    {
        slice_subrange(self.data.as_slice(), 0, self.len)
    }

    /// The whole storage, for the device read to fill.
    pub fn storage_mut(&mut self) -> (r: &mut Vec<u8>)
        requires
            old(self).wf(),
        ensures
            *r == old(self).data_view_vec(),
            final(self).data_eq(*final(r)),
            final(self).spec_len() == old(self).spec_len(),
    {
        &mut self.data
    }

    /// The storage vector, for contracts about `storage_mut`.
    pub closed spec fn data_view_vec(self) -> Vec<u8> {
        self.data
    }

    pub open spec fn data_eq(self, v: Vec<u8>) -> bool {
        self.data_view_vec() == v
    }
}

/// A bounded queue of frames between the reactor and the stack's poll
/// interface. It never blocks: `push` refuses when full, `pop` yields
/// nothing when empty.
pub struct FrameRing {
    frames: Vec<Vec<u8>>,
    cap: usize,
}

impl FrameRing {
    /// The queued frames, oldest first.
    pub closed spec fn view(self) -> Seq<Seq<u8>> {
        self.frames@.map_values(|f: Vec<u8>| f@)
    }

    pub closed spec fn spec_cap(self) -> int {
        self.cap as int
    }

    pub open spec fn wf(self) -> bool {
        self.view().len() <= self.spec_cap()
    }

    pub fn new(cap: usize) -> (r: FrameRing)
        ensures
            r.wf(),
            r.spec_cap() == cap,
            r.view() == Seq::<Seq<u8>>::empty(),
    {
        proof {
            assert(Seq::<Vec<u8>>::empty().map_values(|f: Vec<u8>| f@)
                =~= Seq::<Seq<u8>>::empty());
        }
        FrameRing { frames: Vec::new(), cap }
    }

    /// Queues a frame unless the ring is full; says whether it was taken.
    pub fn push(&mut self, frame: Vec<u8>) -> (accepted: bool)
        requires
            old(self).wf(),
        ensures
            final(self).wf(),
            final(self).spec_cap() == old(self).spec_cap(),
            accepted == (old(self).view().len() < old(self).spec_cap()),
            accepted ==> final(self).view() == old(self).view().push(frame@),
            !accepted ==> final(self).view() == old(self).view(),
    {
        if self.frames.len() < self.cap {
            self.frames.push(frame);
            proof {
                assert(self.frames@.map_values(|f: Vec<u8>| f@) =~= old(
                    self,
                ).frames@.map_values(|f: Vec<u8>| f@).push(frame@));
            }
            true
        } else {
            false
        }
    }

    /// Takes the oldest frame, when there is one.
    pub fn pop(&mut self) -> (r: Option<Vec<u8>>)
        requires
            old(self).wf(),
        ensures
            final(self).wf(),
            final(self).spec_cap() == old(self).spec_cap(),
            match r {
                Some(f) => {
                    &&& old(self).view().len() > 0
                    &&& f@ == old(self).view()[0]
                    &&& final(self).view() == old(self).view().drop_first()
                },
                None => {
                    &&& old(self).view().len() == 0
                    &&& final(self).view() == old(self).view()
                },
            },
    {
        if self.frames.len() == 0 {
            return None;
        }
        let f = self.frames.remove(0);
        proof {
            assert(self.frames@.map_values(|x: Vec<u8>| x@) =~= old(self).frames@.map_values(
                |x: Vec<u8>| x@,
            ).drop_first());
        }
        Some(f)
    }

    /// The bound the ring was created with.
    pub fn capacity(&self) -> (r: usize)
        ensures
            r == self.spec_cap(),
    {
        self.cap
    }

    /// How many frames are queued.
    pub fn len(&self) -> (r: usize)
        ensures
            r == self.view().len(),
    {
        self.frames.len()
    }
}

} // verus!
