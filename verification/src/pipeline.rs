//! Double-buffered capture pipeline and the rendezvous channel.
//!
//! Exactly two buffers exist for a pipeline's lifetime. At any instant each
//! is either owned by the capture side (sitting in its pipeline slot), in
//! transit (moved out by a hand-off, possibly sitting in the channel), or
//! owned by storage. Ownership is transferred by moving the `Buffer` value,
//! never by sharing, so no two tasks can ever touch the same buffer at once.
//!
//! The pipeline alternates strictly between its two buffers and refuses to
//! hand a buffer off twice without a fresh fill in between; the hand-off
//! history carries a ghost fill generation per buffer that makes this a
//! proved invariant (`lemma_no_stale_transfer`). The channel holds at most
//! one buffer: a send against an occupied channel does not go through and
//! changes nothing, so the sender stays suspended until the receiver has
//! taken the previous buffer (`lemma_rendezvous_blocking`).

use vstd::prelude::*;

use crate::CaptureError;

verus! {

/// One of the two capture buffers, identified 0 and 1. Created once by the
/// pipeline and recycled forever. `fresh` records that the words were filled
/// after the last hand-off; the ghost generation counts completed fills.
pub struct Buffer {
    pub(crate) id: u8,
    pub(crate) fresh: bool,
    pub(crate) words: Vec<u32>,
    pub(crate) generation: Ghost<nat>,
}

impl Buffer {
    /// Which of the two buffers this is: 0 or 1.
    pub closed spec fn id_spec(&self) -> u8 {
        self.id
    }

    /// Filled since the last hand-off.
    pub closed spec fn fresh_spec(&self) -> bool {
        self.fresh
    }

    /// The sample words, one 32-bit word per channel slot.
    pub closed spec fn words_spec(&self) -> Seq<u32> {
        self.words@
    }

    /// Completed fills of this buffer.
    pub closed spec fn generation_spec(&self) -> nat {
        self.generation@
    }

    /// Which of the two buffers this is.
    pub fn id(&self) -> (r: u8)
        ensures
            r == self.id_spec(),
    {
        self.id
    }

    /// Read access to the sample words.
    pub fn words(&self) -> (r: &Vec<u32>)
        ensures
            r@ == self.words_spec(),
    {
        &self.words
    }

    /// Filled since the last hand-off.
    pub fn is_fresh(&self) -> (r: bool)
        ensures
            r == self.fresh_spec(),
    {
        self.fresh
    }
}

/// What a send does to the channel: an empty slot accepts the buffer, an
/// occupied slot accepts nothing and stays exactly as it is.
pub open spec fn spec_channel_send(slot: Option<Buffer>, b: Buffer) -> (Option<Buffer>, bool) {
    if slot is None {
        (Some(b), true)
    } else {
        (slot, false)
    }
}

/// What a receive does to the channel: it empties the slot and yields
/// whatever was in it.
pub open spec fn spec_channel_receive(slot: Option<Buffer>) -> (Option<Buffer>, Option<Buffer>) {
    (None, slot)
}

/// Rendezvous queue of capacity exactly one, connecting capture to storage.
/// Nothing is ever dropped or reordered: a buffer leaves only by being
/// received, and a second send waits for that.
pub struct SampleChannel {
    slot: Option<Buffer>,
}

impl SampleChannel {
    /// The buffer in transit, if any.
    pub closed spec fn slot_spec(&self) -> Option<Buffer> {
        self.slot
    }

    /// A new, empty channel.
    pub fn new() -> (c: SampleChannel)
        ensures
            c.slot_spec() is None,
    {
        SampleChannel { slot: None }
    }

    /// Offer a buffer. If the previous buffer has not been received yet the
    /// offer does not go through: the caller keeps the buffer, the channel
    /// is untouched, and the caller is expected to stay suspended on the
    /// send until a receive has happened.
    pub fn try_send(&mut self, b: Buffer) -> (r: Result<(), Buffer>)
        ensures
            (final(self).slot_spec(), r is Ok) == spec_channel_send(old(self).slot_spec(), b),
            r matches Err(back) ==> back == b,
    {
        if self.slot.is_some() {
            Err(b)
        } else {
            self.slot = Some(b);
            Ok(())
        }
    }

    /// Take the buffer in transit, if there is one. An empty channel yields
    /// nothing and the caller is expected to stay suspended on the receive.
    pub fn try_receive(&mut self) -> (r: Option<Buffer>)
        ensures
            (final(self).slot_spec(), r) == spec_channel_receive(old(self).slot_spec()),
    {
        let mut taken: Option<Buffer> = None;
        core::mem::swap(&mut self.slot, &mut taken);
        taken
    }
}

/// Rendezvous law: against an occupied channel a send achieves nothing at
/// all, however often it is retried — the channel keeps the earlier buffer
/// and the sender's buffer is not accepted — and after one receive the
/// suspended send goes through. Capacity is exactly one: no silent
/// buffering, no drop, no reorder.
pub proof fn lemma_rendezvous_blocking(slot: Option<Buffer>, b: Buffer)
    requires
        slot is Some,
    ensures
        spec_channel_send(slot, b) == (slot, false),
        spec_channel_send(spec_channel_receive(slot).0, b) == (Some(b), true),
{
}

/// The hand-off history never repeats a buffer without a fresh fill in
/// between: for any two hand-offs of the same buffer, the later one carries
/// a strictly larger fill generation.
pub open spec fn no_stale_handoffs(h: Seq<(u8, nat)>) -> bool {
    forall|i: int, j: int|
        0 <= i < j < h.len() && h[i].0 == h[j].0 ==> h[i].1 < h[j].1
}

/// Hand-offs alternate strictly between buffer 0 and buffer 1.
pub open spec fn alternating_handoffs(h: Seq<(u8, nat)>) -> bool {
    forall|i: int| 0 <= i < h.len() ==> #[trigger] h[i].0 as int == i % 2
}

/// The fill generation of the most recent hand-off of the given buffer,
/// or -1 if it was never handed off.
pub open spec fn last_handoff_gen(h: Seq<(u8, nat)>, id: u8) -> int
    decreases h.len(),
{
    if h.len() == 0 {
        -1
    } else if h.last().0 == id {
        h.last().1 as int
    } else {
        last_handoff_gen(h.drop_last(), id)
    }
}

/// In a history without stale hand-offs, `last_handoff_gen` bounds every
/// hand-off of that buffer.
proof fn lemma_last_handoff_gen_bound(h: Seq<(u8, nat)>, id: u8)
    requires
        no_stale_handoffs(h),
    ensures
        forall|i: int|
            0 <= i < h.len() && h[i].0 == id ==> #[trigger] h[i].1 as int <= last_handoff_gen(
                h,
                id,
            ),
    decreases h.len(),
{
    if h.len() > 0 {
        let hp = h.drop_last();
        assert(no_stale_handoffs(hp)) by {
            assert(forall|i: int, j: int|
                0 <= i < j < hp.len() && hp[i].0 == hp[j].0 ==> h[i] == hp[i] && h[j] == hp[j]);
        }
        lemma_last_handoff_gen_bound(hp, id);
        assert forall|i: int| 0 <= i < h.len() && h[i].0 == id implies #[trigger] h[i].1 as int
            <= last_handoff_gen(h, id) by {
            if i < h.len() - 1 {
                assert(hp[i] == h[i]);
                if h.last().0 == id {
                    assert(h[i].1 < h[h.len() - 1].1);
                } else {
                    assert(h[i].1 as int <= last_handoff_gen(hp, id));
                }
            }
        }
    }
}

/// The double-buffer pipeline: owns the two buffer slots, alternates which
/// buffer is filled next, and records the hand-off history (ghost).
pub struct DoubleBufferPipeline {
    slot0: Option<Buffer>,
    slot1: Option<Buffer>,
    turn: u8,
    capacity: usize,
    handoffs: Ghost<Seq<(u8, nat)>>,
}

impl DoubleBufferPipeline {
    /// The buffer sitting in the slot of the given id, if it is home.
    pub closed spec fn slot_spec(&self, id: int) -> Option<Buffer> {
        if id == 0 {
            self.slot0
        } else {
            self.slot1
        }
    }

    /// Which buffer is filled and handed off next: 0 or 1.
    pub closed spec fn turn_spec(&self) -> u8 {
        self.turn
    }

    /// Words per buffer, fixed at construction.
    pub closed spec fn capacity_spec(&self) -> usize {
        self.capacity
    }

    /// The hand-off history: buffer id and fill generation of each hand-off,
    /// oldest first.
    pub closed spec fn handoffs_spec(&self) -> Seq<(u8, nat)> {
        self.handoffs@
    }

    /// The slot of the buffer whose turn it is.
    pub open spec fn turn_slot(&self) -> Option<Buffer> {
        self.slot_spec(self.turn_spec() as int)
    }

    /// One slot's piece of the invariant: a buffer at home has the matching
    /// id, spans the configured word count, and its generation has kept up
    /// with the hand-off history — strictly ahead of it when freshly filled.
    pub open spec fn slot_wf(&self, id: int) -> bool {
        match self.slot_spec(id) {
            Some(b) => {
                &&& b.id_spec() as int == id
                &&& b.words_spec().len() == self.capacity_spec()
                &&& b.generation_spec() as int >= last_handoff_gen(
                    self.handoffs_spec(),
                    b.id_spec(),
                )
                &&& (b.fresh_spec() ==> b.generation_spec() as int > last_handoff_gen(
                    self.handoffs_spec(),
                    b.id_spec(),
                ))
            },
            None => true,
        }
    }

    /// The pipeline invariant, established by `new` and preserved by every
    /// operation.
    pub open spec fn wf(&self) -> bool {
        &&& self.turn_spec() < 2
        &&& self.turn_spec() as int == self.handoffs_spec().len() % 2
        &&& alternating_handoffs(self.handoffs_spec())
        &&& no_stale_handoffs(self.handoffs_spec())
        &&& self.slot_wf(0)
        &&& self.slot_wf(1)
    }

    /// Allocate the two buffers, zero-filled, once and for all.
    pub fn new(capacity: usize) -> (p: DoubleBufferPipeline)
        ensures
            p.wf(),
            p.capacity_spec() == capacity,
            p.turn_spec() == 0,
            p.handoffs_spec().len() == 0,
            p.slot_spec(0) is Some,
            p.slot_spec(1) is Some,
    {
        let words0 = zero_words(capacity);
        let words1 = zero_words(capacity);
        DoubleBufferPipeline {
            slot0: Some(Buffer { id: 0, fresh: false, words: words0, generation: Ghost(0) }),
            slot1: Some(Buffer { id: 1, fresh: false, words: words1, generation: Ghost(0) }),
            turn: 0,
            capacity,
            handoffs: Ghost(Seq::empty()),
        }
    }

    /// Words per buffer.
    pub fn capacity(&self) -> (r: usize)
        ensures
            r == self.capacity_spec(),
    {
        self.capacity
    }

    /// Install one completed fill into the buffer whose turn it is: the
    /// words a finished DMA transfer produced become the buffer's contents
    /// and its fill generation advances. Fails fast, changing nothing, if
    /// that buffer is away at storage (capture must wait: a transient
    /// capture gap, never a drop), or if it was already filled and not yet
    /// handed off (refusing to overwrite completed data).
    pub fn fill(&mut self, words: Vec<u32>) -> (r: Result<(), CaptureError>)
        requires
            old(self).wf(),
            words@.len() == old(self).capacity_spec(),
        ensures
            final(self).wf(),
            old(self).turn_slot() is None ==> r == Err::<(), CaptureError>(
                CaptureError::BufferInTransit,
            ) && *final(self) == *old(self),
            old(self).turn_slot() matches Some(b) ==> (if b.fresh_spec() {
                r == Err::<(), CaptureError>(CaptureError::BufferAlreadyFilled) && *final(self)
                    == *old(self)
            } else {
                let g = b.generation_spec();
                &&& r == Ok::<(), CaptureError>(())
                &&& final(self).turn_slot() matches Some(nb) && nb.id_spec() == old(
                    self,
                ).turn_spec() && nb.fresh_spec() && nb.words_spec() == words@
                    && nb.generation_spec() == g + 1
                &&& final(self).slot_spec(1 - old(self).turn_spec() as int) == old(
                    self,
                ).slot_spec(1 - old(self).turn_spec() as int)
                &&& final(self).turn_spec() == old(self).turn_spec()
                &&& final(self).capacity_spec() == old(self).capacity_spec()
                &&& final(self).handoffs_spec() == old(self).handoffs_spec()
            }),
    {
        if self.turn == 0 {
            match &self.slot0 {
                None => Err(CaptureError::BufferInTransit),
                Some(b) => {
                    if b.fresh {
                        Err(CaptureError::BufferAlreadyFilled)
                    } else {
                        let ghost next_gen: nat = b.generation@ + 1;
                        self.slot0 = Some(
                            Buffer { id: 0, fresh: true, words, generation: Ghost(next_gen) },
                        );
                        Ok(())
                    }
                },
            }
        } else {
            match &self.slot1 {
                None => Err(CaptureError::BufferInTransit),
                Some(b) => {
                    if b.fresh {
                        Err(CaptureError::BufferAlreadyFilled)
                    } else {
                        let ghost next_gen: nat = b.generation@ + 1;
                        self.slot1 = Some(
                            Buffer { id: 1, fresh: true, words, generation: Ghost(next_gen) },
                        );
                        Ok(())
                    }
                },
            }
        }
    }

    /// Move the freshly filled buffer out for the storage side and swap the
    /// roles of the two buffers. This is an ownership transfer, not a copy.
    /// Fails fast, changing nothing, if the buffer is away or was not
    /// freshly filled: a buffer never goes to storage twice without an
    /// intervening fresh fill.
    pub fn handoff(&mut self) -> (r: Result<Buffer, CaptureError>)
        requires
            old(self).wf(),
        ensures
            final(self).wf(),
            old(self).turn_slot() is None ==> r == Err::<Buffer, CaptureError>(
                CaptureError::BufferInTransit,
            ) && *final(self) == *old(self),
            old(self).turn_slot() matches Some(b) ==> (if !b.fresh_spec() {
                r == Err::<Buffer, CaptureError>(CaptureError::BufferNotFilled) && *final(self)
                    == *old(self)
            } else {
                let g = b.generation_spec();
                let w = b.words_spec();
                &&& r matches Ok(out) && out.id_spec() == old(self).turn_spec()
                    && !out.fresh_spec() && out.words_spec() == w && out.generation_spec() == g
                &&& final(self).slot_spec(old(self).turn_spec() as int) is None
                &&& final(self).slot_spec(1 - old(self).turn_spec() as int) == old(
                    self,
                ).slot_spec(1 - old(self).turn_spec() as int)
                &&& final(self).turn_spec() == 1 - old(self).turn_spec()
                &&& final(self).capacity_spec() == old(self).capacity_spec()
                &&& final(self).handoffs_spec() == old(self).handoffs_spec().push(
                    (old(self).turn_spec(), g),
                )
            }),
    {
        let ghost h = self.handoffs@;
        if self.turn == 0 {
            match &self.slot0 {
                None => return Err(CaptureError::BufferInTransit),
                Some(b) => {
                    if !b.fresh {
                        return Err(CaptureError::BufferNotFilled);
                    }
                },
            }
            let mut taken: Option<Buffer> = None;
            core::mem::swap(&mut self.slot0, &mut taken);
            match taken {
                Some(mut b) => {
                    b.fresh = false;
                    proof {
                        lemma_last_handoff_gen_bound(h, 0);
                        lemma_handoff_push(h, 0, b.generation@);
                    }
                    self.handoffs = Ghost(h.push((0u8, b.generation@)));
                    self.turn = 1;
                    Ok(b)
                },
                None => {
                    // The slot was just seen occupied; this arm cannot run.
                    proof {
                        assert(false);
                    }
                    Err(CaptureError::BufferInTransit)
                },
            }
        } else {
            match &self.slot1 {
                None => return Err(CaptureError::BufferInTransit),
                Some(b) => {
                    if !b.fresh {
                        return Err(CaptureError::BufferNotFilled);
                    }
                },
            }
            let mut taken: Option<Buffer> = None;
            core::mem::swap(&mut self.slot1, &mut taken);
            match taken {
                Some(mut b) => {
                    b.fresh = false;
                    proof {
                        lemma_last_handoff_gen_bound(h, 1);
                        lemma_handoff_push(h, 1, b.generation@);
                    }
                    self.handoffs = Ghost(h.push((1u8, b.generation@)));
                    self.turn = 0;
                    Ok(b)
                },
                None => {
                    // The slot was just seen occupied; this arm cannot run.
                    proof {
                        assert(false);
                    }
                    Err(CaptureError::BufferInTransit)
                },
            }
        }
    }

    /// A buffer the pipeline may take back: one of its own pair, consumed
    /// (not fresh), spanning its word count, and not older than the history
    /// of its own hand-offs — all of which hold of a buffer that came out of
    /// `handoff` and travelled through the channel unchanged.
    pub open spec fn recyclable(&self, b: Buffer) -> bool {
        &&& !b.fresh_spec()
        &&& b.words_spec().len() == self.capacity_spec()
        &&& b.generation_spec() as int >= last_handoff_gen(self.handoffs_spec(), b.id_spec())
    }

    /// Take a consumed buffer back into its slot so it can be filled again.
    /// Buffers are recycled forever, never freed or reallocated. Fails fast,
    /// changing nothing, on a buffer that is not one of the pair or whose
    /// slot is occupied.
    pub fn recycle(&mut self, b: Buffer) -> (r: Result<(), CaptureError>)
        requires
            old(self).wf(),
            old(self).recyclable(b),
        ensures
            final(self).wf(),
            b.id_spec() >= 2 ==> r == Err::<(), CaptureError>(CaptureError::UnknownBuffer)
                && *final(self) == *old(self),
            b.id_spec() < 2 && old(self).slot_spec(b.id_spec() as int) is Some ==> r == Err::<
                (),
                CaptureError,
            >(CaptureError::SlotOccupied) && *final(self) == *old(self),
            b.id_spec() < 2 && old(self).slot_spec(b.id_spec() as int) is None ==> {
                &&& r == Ok::<(), CaptureError>(())
                &&& final(self).slot_spec(b.id_spec() as int) == Some(b)
                &&& final(self).slot_spec(1 - b.id_spec() as int) == old(self).slot_spec(
                    1 - b.id_spec() as int,
                )
                &&& final(self).turn_spec() == old(self).turn_spec()
                &&& final(self).capacity_spec() == old(self).capacity_spec()
                &&& final(self).handoffs_spec() == old(self).handoffs_spec()
            },
    {
        if b.id == 0 {
            if self.slot0.is_some() {
                Err(CaptureError::SlotOccupied)
            } else {
                self.slot0 = Some(b);
                Ok(())
            }
        } else if b.id == 1 {
            if self.slot1.is_some() {
                Err(CaptureError::SlotOccupied)
            } else {
                self.slot1 = Some(b);
                Ok(())
            }
        } else {
            Err(CaptureError::UnknownBuffer)
        }
    }
}

/// Pushing a hand-off with a strictly fresher generation keeps the history
/// alternating-free of stale transfers, and updates `last_handoff_gen`
/// pointwise.
proof fn lemma_handoff_push(h: Seq<(u8, nat)>, id: u8, g: nat)
    requires
        no_stale_handoffs(h),
        g as int > last_handoff_gen(h, id),
    ensures
        no_stale_handoffs(h.push((id, g))),
        last_handoff_gen(h.push((id, g)), id) == g,
        forall|other: u8|
            other != id ==> last_handoff_gen(h.push((id, g)), other) == last_handoff_gen(
                h,
                other,
            ),
{
    let hn = h.push((id, g));
    assert(hn.drop_last() =~= h);
    assert(hn.last() == (id, g));
    lemma_last_handoff_gen_bound(h, id);
    assert forall|i: int, j: int|
        0 <= i < j < hn.len() && hn[i].0 == hn[j].0 implies hn[i].1 < hn[j].1 by {
        if j == hn.len() - 1 {
            assert(hn[i] == h[i]);
            if h[i].0 == id {
                assert(h[i].1 as int <= last_handoff_gen(h, id));
            }
        } else {
            assert(hn[i] == h[i] && hn[j] == h[j]);
        }
    }
}

/// A zero-filled word vector of the given length.
fn zero_words(n: usize) -> (r: Vec<u32>)
    ensures
        r@.len() == n,
        forall|i: int| 0 <= i < n ==> r@[i] == 0u32,
{
    let mut v: Vec<u32> = Vec::new();
    let mut k: usize = 0;
    while k < n
        invariant
            k <= n,
            v@.len() == k,
            forall|i: int| 0 <= i < k ==> v@[i] == 0u32,
        decreases n - k,
    {
        v.push(0);
        k += 1;
    }
    v
}

/// Every run of the pipeline keeps the hand-off history clean: hand-offs
/// alternate strictly between the two buffers, and two hand-offs of the
/// same buffer always carry strictly increasing fill generations — the
/// pipeline never transfers a buffer to storage twice without an
/// intervening fresh fill, so nothing stale and nothing duplicated is ever
/// emitted.
pub proof fn lemma_no_stale_transfer(p: &DoubleBufferPipeline)
    requires
        p.wf(),
    ensures
        no_stale_handoffs(p.handoffs_spec()),
        alternating_handoffs(p.handoffs_spec()),
{
}

} // verus!
