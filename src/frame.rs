//! The ring of frame slots and the rules for reusing them. Each slot owns a
//! command recorder, two semaphores and a fence; here a slot is its state,
//! and the caller performs the GPU work that each transition names.
use vstd::prelude::*;

verus! {

/// Number of frame slots: double buffering.
pub const NUM_FRAMES: usize = 2;

/// Where a frame slot stands.
#[derive(Clone, Copy, Debug, PartialEq, Eq, Structural)]
pub enum SlotState {
    /// Its fence is signalled: the GPU is done with it.
    Idle,
    /// Commands are being recorded into it.
    Recording,
    /// Submitted; its fence is not yet signalled.
    Submitted,
}

/// Why a frame-slot transition was refused.
#[derive(Clone, Copy, Debug, PartialEq, Eq)]
pub enum FrameError {
    /// The current slot's fence has not been waited for.
    FenceNotSignaled,
    /// The current slot is already recording.
    AlreadyRecording,
    /// There is nothing recorded to submit.
    NotRecording,
    /// The slot has no submission outstanding.
    NotSubmitted,
}

/// Number of slots with a submission outstanding.
pub open spec fn outstanding(states: Seq<SlotState>) -> nat
    decreases states.len(),
{
    if states.len() == 0 {
        0
    } else {
        outstanding(states.drop_last()) + if states.last() == SlotState::Submitted {
            1nat
        } else {
            0nat
        }
    }
}

proof fn lemma_outstanding_le_len(states: Seq<SlotState>)
    ensures
        outstanding(states) <= states.len(),
    decreases states.len(),
{
    if states.len() > 0 {
        lemma_outstanding_le_len(states.drop_last());
    }
}

/// The ring of frame slots, and which one the next frame uses.
pub struct FramePool {
    states: Vec<SlotState>,
    current: usize,
}

impl FramePool {
    pub closed spec fn states(&self) -> Seq<SlotState> {
        self.states@
    }

    pub closed spec fn current(&self) -> nat {
        self.current as nat
    }

    /// At least one slot, the current one among them, and no slot but the
    /// current one recording.
    pub open spec fn wf(&self) -> bool {
        &&& self.states().len() >= 1
        &&& self.current() < self.states().len()
        &&& forall|i: int|
            0 <= i < self.states().len() && i != self.current() ==> #[trigger] self.states()[i]
                != SlotState::Recording
    }

    /// A ring of `n` slots, all idle (fences are made signalled), the first
    /// one current.
    pub fn new(n: usize) -> (r: Self)
        requires
            n >= 1,
        ensures
            r.wf(),
            r.states() == Seq::new(n as nat, |i: int| SlotState::Idle),
            r.current() == 0,
    {
        let mut states: Vec<SlotState> = Vec::new();
        let mut i: usize = 0;
        while i < n
            invariant
                i <= n,
                states@ == Seq::new(i as nat, |k: int| SlotState::Idle),
            decreases n - i,
        {
            states.push(SlotState::Idle);
            assert(states@ =~= Seq::new((i + 1) as nat, |k: int| SlotState::Idle));
            i += 1;
        }
        FramePool { states, current: 0 }
    }

    /// The slot the next frame uses.
    pub fn current_slot(&self) -> (r: usize)
        ensures
            r == self.current(),
    {
        self.current
    }

    /// Number of slots.
    pub fn len(&self) -> (r: usize)
        ensures
            r == self.states().len(),
    {
        self.states.len()
    }

    /// The state of slot `slot`.
    pub fn state(&self, slot: usize) -> (r: SlotState)
        requires
            slot < self.states().len(),
        ensures
            r == self.states()[slot as int],
    {
        self.states[slot]
    }

    /// Whether the current slot's fence must be waited for before the next
    /// frame can be recorded into it.
    pub fn needs_wait(&self) -> (r: bool)
        requires
            self.wf(),
        ensures
            r == (self.states()[self.current() as int] == SlotState::Submitted),
    {
        self.states[self.current] == SlotState::Submitted
    }

    /// The fence of `slot` has signalled: the GPU is done with it.
    pub fn fence_signaled(&mut self, slot: usize) -> (r: Result<(), FrameError>)
        requires
            old(self).wf(),
        ensures
            final(self).wf(),
            final(self).current() == old(self).current(),
            r is Ok <==> (slot < old(self).states().len() && old(self).states()[slot as int]
                == SlotState::Submitted),
            r is Ok ==> final(self).states() == old(self).states().update(slot as int, SlotState::Idle),
            r is Err ==> r == Err::<(), FrameError>(FrameError::NotSubmitted) && final(self).states()
                == old(self).states(),
    {
        if slot < self.states.len() && self.states[slot] == SlotState::Submitted {
            self.states.set(slot, SlotState::Idle);
            Ok(())
        } else {
            Err(FrameError::NotSubmitted)
        }
    }

    /// Starts recording the next frame into the current slot. Refused
    /// unless the slot is idle: its previous submission must have completed
    /// and been waited for first.
    pub fn begin_frame(&mut self) -> (r: Result<usize, FrameError>)
        requires
            old(self).wf(),
        ensures
            final(self).wf(),
            final(self).current() == old(self).current(),
            r is Ok <==> old(self).states()[old(self).current() as int] == SlotState::Idle,
            r is Ok ==> r->Ok_0 == old(self).current() && final(self).states() == old(
                self,
            ).states().update(old(self).current() as int, SlotState::Recording),
            old(self).states()[old(self).current() as int] == SlotState::Submitted ==> r == Err::<
                usize,
                FrameError,
            >(FrameError::FenceNotSignaled),
            old(self).states()[old(self).current() as int] == SlotState::Recording ==> r == Err::<
                usize,
                FrameError,
            >(FrameError::AlreadyRecording),
            r is Err ==> final(self).states() == old(self).states(),
    {
        let c = self.current;
        match self.states[c] {
            SlotState::Idle => {
                self.states.set(c, SlotState::Recording);
                Ok(c)
            },
            SlotState::Submitted => Err(FrameError::FenceNotSignaled),
            SlotState::Recording => Err(FrameError::AlreadyRecording),
        }
    }

    /// Submits the frame recorded in the current slot, whose fence is now
    /// unsignalled, and moves on to the next slot of the ring. Returns the
    /// slot submitted.
    pub fn submit(&mut self) -> (r: Result<usize, FrameError>)
        requires
            old(self).wf(),
        ensures
            final(self).wf(),
            r is Ok <==> old(self).states()[old(self).current() as int] == SlotState::Recording,
            r is Ok ==> {
                &&& r->Ok_0 == old(self).current()
                &&& final(self).states() == old(self).states().update(
                    old(self).current() as int,
                    SlotState::Submitted,
                )
                &&& final(self).current() == (old(self).current() + 1) % old(self).states().len()
            },
            r is Err ==> r == Err::<usize, FrameError>(FrameError::NotRecording) && final(self).states()
                == old(self).states() && final(self).current() == old(self).current(),
    {
        let c = self.current;
        let n = self.states.len();
        if self.states[c] == SlotState::Recording {
            self.states.set(c, SlotState::Submitted);
            if c + 1 == n {
                proof {
                    vstd::arithmetic::div_mod::lemma_mod_self_0(n as int);
                }
                self.current = 0;
            } else {
                proof {
                    vstd::arithmetic::div_mod::lemma_small_mod((c + 1) as nat, n as nat);
                }
                self.current = c + 1;
            }
            Ok(c)
        } else {
            Err(FrameError::NotRecording)
        }
    }
}

/// Frame-slot throttling: in any state of a well-formed ring, at most as
/// many submissions are outstanding as there are slots, so with the
/// double-buffered ring never more than two; and a slot is recorded into
/// again only from idle, that is after its fence was waited for.
pub proof fn lemma_frame_throttling(pool: FramePool)
    requires
        pool.wf(),
    ensures
        outstanding(pool.states()) <= pool.states().len(),
        pool.states().len() == NUM_FRAMES ==> outstanding(pool.states()) <= 2,
{
    lemma_outstanding_le_len(pool.states());
}

} // verus!
