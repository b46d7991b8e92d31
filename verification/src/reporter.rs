//! The per-connection stream-slot table: up to 32768 stream ids, each
//! either free or holding one in-flight request, with a free list so that
//! assignment never scans. Stream ids are recycled only after a response is
//! matched, so a request can never see a response meant for a prior user
//! of its slot.

use vstd::prelude::*;
use crate::error::DriverError;

verus! {

/// The ids 0..=32767 are available on one connection.
pub const MAX_STREAMS: usize = 32768;

/// The state of one stream slot.
#[derive(Copy, Clone, Debug, PartialEq, Eq, Structural)]
pub enum SlotState {
    Free,
    AwaitingHeader,
    AwaitingBody,
    Completed,
}

/// The stream-slot table of one reporter: a fixed array of slots and a
/// free list holding exactly the free ids, each once.
#[derive(Debug, Clone)]
pub struct StreamIds {
    pub slots: Vec<SlotState>,
    pub free: Vec<u16>,
    pub closed: bool,
}

impl StreamIds {
    /// The free list holds exactly the ids of free slots, each exactly
    /// once, and every listed id is in range.
    pub open spec fn wf(self) -> bool {
        &&& self.slots@.len() <= MAX_STREAMS
        &&& self.free@.no_duplicates()
        &&& forall|i: int|
            0 <= i < self.free@.len() ==> (#[trigger] self.free@[i]) < self.slots@.len()
        &&& forall|i: int|
            0 <= i < self.free@.len() ==> self.slots@[(#[trigger] self.free@[i]) as int]
                is Free
        &&& forall|id: int|
            0 <= id < self.slots@.len() && self.slots@[id] is Free && !self.closed
                ==> self.free@.contains(id as u16)
        &&& self.closed ==> self.free@.len() == 0
    }

    /// A table of `count` free slots, `count` at most 32768.
    pub fn new(count: usize) -> (r: Self)
        requires
            count <= MAX_STREAMS,
        ensures
            r.wf(),
            r.slots@.len() == count,
            r.free@.len() == count,
            !r.closed,
    {
        let mut slots: Vec<SlotState> = Vec::new();
        let mut free: Vec<u16> = Vec::new();
        let mut i: usize = 0;
        while i < count
            invariant
                i <= count,
                count <= MAX_STREAMS,
                slots@.len() == i,
                free@.len() == i,
                forall|k: int| 0 <= k < i ==> slots@[k] is Free,
                forall|k: int| 0 <= k < i ==> (#[trigger] free@[k]) == k as u16,
            decreases count - i,
        {
            slots.push(SlotState::Free);
            free.push(i as u16);
            i = i + 1;
        }
        let r = StreamIds { slots, free, closed: false };
        proof {
            assert forall|a: int, b: int| 0 <= a < b < r.free@.len() implies r.free@[a]
                != r.free@[b] by {}
            assert forall|id: int|
                0 <= id < r.slots@.len() && r.slots@[id] is Free && !r.closed implies r.free@
                .contains(id as u16) by {
                assert(r.free@[id] == id as u16);
            }
        }
        r
    }

    /// How many stream ids are currently free.
    pub fn available(&self) -> (r: usize)
        ensures
            r == self.free@.len(),
    {
        self.free.len()
    }

    /// Assign a free stream id to a new in-flight request. The returned id
    /// always names a slot that was free, and that slot leaves the free
    /// list; `None` means every slot is occupied or the table is shut
    /// down, which is the backpressure signal.
    pub fn allocate(&mut self) -> (r: Option<u16>)
        requires
            old(self).wf(),
        ensures
            final(self).wf(),
            final(self).slots@.len() == old(self).slots@.len(),
            final(self).closed == old(self).closed,
            match r {
                Some(id) => {
                    &&& (id as int) < old(self).slots@.len()
                    &&& old(self).slots@[id as int] is Free
                    &&& final(self).slots@[id as int] is AwaitingHeader
                    &&& !final(self).free@.contains(id)
                    &&& final(self).free@ == old(self).free@.drop_last()
                    &&& forall|k: int|
                        0 <= k < old(self).slots@.len() && k != id as int ==> final(
                            self).slots@[k] == old(self).slots@[k]
                },
                None => old(self).free@.len() == 0 && final(self).free@ == old(self).free@
                    && final(self).slots@ == old(self).slots@,
            },
    {
        let id_opt = self.free.pop();
        match id_opt {
            None => None,
            Some(id) => {
                proof {
                    let pre = old(self).free@;
                    assert(pre[pre.len() - 1] == id);
                    assert((id as int) < self.slots@.len());
                    assert(self.slots@[id as int] is Free);
                    assert forall|i: int| 0 <= i < self.free@.len() implies self.free@[i]
                        != id by {
                        assert(pre[i] == self.free@[i]);
                        assert(pre[pre.len() - 1] == id);
                    }
                }
                self.slots.set(id as usize, SlotState::AwaitingHeader);
                proof {
                    assert(!self.free@.contains(id));
                    assert forall|sid: int|
                        0 <= sid < self.slots@.len() && self.slots@[sid] is Free
                            && !self.closed implies self.free@.contains(sid as u16) by {
                        assert(sid != id as int);
                        assert(old(self).slots@[sid] is Free);
                        assert(old(self).free@.contains(sid as u16));
                        let j = choose|j: int|
                            0 <= j < old(self).free@.len() && old(self).free@[j] == sid as u16;
                        assert(j != old(self).free@.len() - 1);
                        assert(self.free@[j] == sid as u16);
                    }
                }
                Some(id)
            },
        }
    }

    /// Record that the header of the response on `id` has been read and
    /// its body is awaited.
    pub fn body_pending(&mut self, id: u16) -> (r: Result<(), DriverError>)
        requires
            old(self).wf(),
        ensures
            final(self).wf(),
            final(self).slots@.len() == old(self).slots@.len(),
            final(self).free@ == old(self).free@,
            final(self).closed == old(self).closed,
            match r {
                Ok(()) => (id as int) < old(self).slots@.len() && old(self).slots@[id as int]
                    is AwaitingHeader && final(self).slots@ == old(self).slots@.update(
                    id as int, SlotState::AwaitingBody),
                Err(e) => e == DriverError::Protocol && *final(self) == *old(self) && ((
                    id as int) >= old(self).slots@.len() || !(old(self).slots@[id as int]
                    is AwaitingHeader)),
            },
    {
        if (id as usize) >= self.slots.len() {
            return Err(DriverError::Protocol);
        }
        match self.slots[id as usize] {
            SlotState::AwaitingHeader => {
                self.slots.set(id as usize, SlotState::AwaitingBody);
                proof {
                    assert forall|i: int| 0 <= i < self.free@.len() implies self.slots@[(
                        #[trigger] self.free@[i]) as int] is Free by {
                        assert(old(self).slots@[old(self).free@[i] as int] is Free);
                    }
                }
                Ok(())
            },
            _ => Err(DriverError::Protocol),
        }
    }

    /// Release a slot after its response has been matched and delivered:
    /// the slot returns to free exactly once. A release of a slot that is
    /// already free is a protocol violation and changes nothing.
    pub fn release(&mut self, id: u16) -> (r: Result<(), DriverError>)
        requires
            old(self).wf(),
            !old(self).closed,
        ensures
            final(self).wf(),
            final(self).slots@.len() == old(self).slots@.len(),
            final(self).closed == old(self).closed,
            match r {
                Ok(()) => {
                    &&& (id as int) < old(self).slots@.len()
                    &&& !(old(self).slots@[id as int] is Free)
                    &&& final(self).slots@ == old(self).slots@.update(id as int,
                        SlotState::Free)
                    &&& final(self).free@ == old(self).free@.push(id)
                },
                Err(e) => e == DriverError::Protocol && *final(self) == *old(self) && ((
                    id as int) >= old(self).slots@.len() || old(self).slots@[id as int]
                    is Free),
            },
    {
        if (id as usize) >= self.slots.len() {
            return Err(DriverError::Protocol);
        }
        match self.slots[id as usize] {
            SlotState::Free => Err(DriverError::Protocol),
            _ => {
                proof {
                    assert(!old(self).free@.contains(id)) by {
                        if old(self).free@.contains(id) {
                            let j = choose|j: int|
                                0 <= j < old(self).free@.len() && old(self).free@[j] == id;
                            assert(old(self).slots@[old(self).free@[j] as int] is Free);
                        }
                    }
                }
                self.slots.set(id as usize, SlotState::Free);
                self.free.push(id);
                proof {
                    assert forall|a: int, b: int| 0 <= a < b < self.free@.len() implies self
                        .free@[a] != self.free@[b] by {
                        if b == self.free@.len() - 1 {
                            assert(old(self).free@[a] == self.free@[a]);
                            assert(old(self).free@.contains(self.free@[a]) || true);
                            if self.free@[a] == id {
                                assert(old(self).free@.contains(id));
                            }
                        }
                    }
                    assert forall|sid: int|
                        0 <= sid < self.slots@.len() && self.slots@[sid] is Free
                            && !self.closed implies self.free@.contains(sid as u16) by {
                        if sid == id as int {
                            assert(self.free@[self.free@.len() - 1] == id);
                        } else {
                            assert(old(self).free@.contains(sid as u16));
                            let j = choose|j: int|
                                0 <= j < old(self).free@.len() && old(self).free@[j] == sid
                                    as u16;
                            assert(self.free@[j] == sid as u16);
                        }
                    }
                }
                Ok(())
            },
        }
    }

    /// Shut the table down on connection loss: every pending id is
    /// returned so that its worker can be failed, every slot is abandoned,
    /// and the free list is emptied so that later assignments signal
    /// backpressure.
    pub fn shutdown(&mut self) -> (r: Vec<u16>)
        requires
            old(self).wf(),
        ensures
            final(self).wf(),
            final(self).closed,
            final(self).free@.len() == 0,
            forall|i: int|
                0 <= i < r@.len() ==> (#[trigger] r@[i]) < old(self).slots@.len() && !(old(
                    self).slots@[r@[i] as int] is Free),
            forall|id: u16|
                (id as int) < old(self).slots@.len() && !(old(self).slots@[id as int] is Free)
                    ==> r@.contains(id),
    {
        let mut pending: Vec<u16> = Vec::new();
        let mut i: usize = 0;
        while i < self.slots.len()
            invariant
                i <= self.slots@.len(),
                self.slots@ == old(self).slots@,
                self.slots@.len() <= MAX_STREAMS,
                forall|k: int|
                    0 <= k < pending@.len() ==> (#[trigger] pending@[k]) < self.slots@.len()
                        && !(self.slots@[pending@[k] as int] is Free),
                forall|id: u16|
                    (id as int) < i && !(self.slots@[id as int] is Free) ==> pending@.contains(
                        id),
            decreases self.slots@.len() - i,
        {
            let ghost prev = pending@;
            match self.slots[i] {
                SlotState::Free => {},
                _ => {
                    pending.push(i as u16);
                },
            }
            proof {
                assert forall|id: u16|
                    (id as int) < i + 1 && !(self.slots@[id as int] is Free)
                        implies pending@.contains(id) by {
                    if (id as int) < i {
                        assert(prev.contains(id));
                        let j = choose|j: int| 0 <= j < prev.len() && prev[j] == id;
                        assert(pending@[j] == id);
                    } else {
                        assert(id as int == i);
                        assert(!(self.slots@[i as int] is Free));
                        assert(pending@[pending@.len() - 1] == id);
                    }
                }
            }
            i = i + 1;
        }
        self.free = Vec::new();
        self.closed = true;
        pending
    }
}

/// The free list names each free slot exactly once: it has no duplicates,
/// and while the table is open, a slot is free exactly when the list holds
/// its id.
pub proof fn lemma_free_list_exact(s: StreamIds, id: u16)
    requires
        s.wf(),
        !s.closed,
        (id as int) < s.slots@.len(),
    ensures
        s.free@.no_duplicates(),
        s.slots@[id as int] is Free <==> s.free@.contains(id),
{
    if s.free@.contains(id) {
        let j = choose|j: int| 0 <= j < s.free@.len() && s.free@[j] == id;
        assert(s.slots@[s.free@[j] as int] is Free);
    }
}

} // verus!
