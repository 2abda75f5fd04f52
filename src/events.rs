use vstd::prelude::*;
use crate::block::Block;
use crate::pos::BlockPos;

verus! {

/// A block is being broken. Engine code reads `cancelled` after dispatch and,
/// where it is set, skips the break's default action.
#[derive(Clone, Copy, Debug, PartialEq, Eq, Structural)]
pub struct BlockBreakEvent {
    /// Entity id of the breaking player, where a player breaks it.
    pub player: Option<u64>,
    pub block: Block,
    pub block_position: BlockPos,
    /// Experience that the break yields.
    pub exp: u32,
    /// Whether the block drops items.
    pub drop: bool,
    cancelled: bool,
}

impl BlockBreakEvent {
    pub closed spec fn spec_cancelled(&self) -> bool {
        self.cancelled
    }

    /// Everything but the flag: player, block, position, experience, drop.
    pub closed spec fn payload(&self) -> (Option<u64>, Block, BlockPos, u32, bool) {
        (self.player, self.block, self.block_position, self.exp, self.drop)
    }

    pub fn new(player: Option<u64>, block: Block, block_position: BlockPos, exp: u32, drop: bool) -> (r:
        BlockBreakEvent)
        ensures
            r.payload() == (player, block, block_position, exp, drop),
            !r.spec_cancelled(),
    {
        BlockBreakEvent { player, block, block_position, exp, drop, cancelled: false }
    }

    /// The block that the event is about.
    pub fn get_block(&self) -> (r: &Block)
        ensures
            *r == self.payload().1,
    {
        &self.block
    }

    /// The breaking player's entity id, where a player breaks the block.
    pub fn get_player(&self) -> (r: Option<u64>)
        ensures
            r == self.payload().0,
    {
        self.player
    }

    pub fn get_position(&self) -> (r: BlockPos)
        ensures
            r == self.payload().2,
    {
        self.block_position
    }

    pub fn get_exp(&self) -> (r: u32)
        ensures
            r == self.payload().3,
    {
        self.exp
    }

    pub fn get_drop(&self) -> (r: bool)
        ensures
            r == self.payload().4,
    {
        self.drop
    }

    pub fn cancelled(&self) -> (r: bool)
        ensures
            r == self.spec_cancelled(),
    {
        self.cancelled
    }

    /// Sets the flag; nothing clears it.
    pub fn cancel(&mut self)
        ensures
            final(self).spec_cancelled(),
            final(self).payload() == old(self).payload(),
    {
        self.cancelled = true;
    }
}

/// What one listener did with the event.
#[derive(Clone, Copy, Debug, PartialEq, Eq, Structural)]
pub enum ListenerVerdict {
    /// It left the flag as it found it.
    Untouched,
    /// It set the flag.
    Cancel,
    /// It failed: reported elsewhere, and its flag is not trusted.
    Failed,
}

/// The flag after one listener.
pub open spec fn after_verdict(cancelled: bool, v: ListenerVerdict) -> bool {
    cancelled || v == ListenerVerdict::Cancel
}

/// The flag after the listeners' verdicts, in dispatch order.
pub open spec fn after_verdicts(cancelled: bool, vs: Seq<ListenerVerdict>) -> bool
    decreases vs.len(),
{
    if vs.len() == 0 {
        cancelled
    } else {
        after_verdicts(after_verdict(cancelled, vs[0]), vs.drop_first())
    }
}

/// A registered listener, by id, with its priority: lower runs first.
#[derive(Clone, Copy, Debug, PartialEq, Eq, Structural)]
pub struct Listener {
    pub id: u64,
    pub priority: i32,
}

/// The listeners of one event kind, in dispatch order.
pub struct EventBus {
    listeners: Vec<Listener>,
}

impl EventBus {
    pub closed spec fn view(&self) -> Seq<Listener> {
        self.listeners@
    }

    /// Priorities ascend along the dispatch order.
    pub open spec fn wf(&self) -> bool {
        forall|i: int, j: int|
            0 <= i < j < self.view().len() ==> self.view()[i].priority <= self.view()[j].priority
    }

    pub fn new() -> (r: EventBus)
        ensures
            r.wf(),
            r.view() == Seq::<Listener>::empty(),
    {
        EventBus { listeners: Vec::new() }
    }

    /// The listeners, in dispatch order.
    pub fn listeners(&self) -> (r: &Vec<Listener>)
        ensures
            r@ == self.view(),
    {
        &self.listeners
    }

    /// Registers a listener after every one of lower or equal priority, so
    /// that equal priorities run in registration order.
    pub fn register(&mut self, id: u64, priority: i32)
        requires
            old(self).wf(),
        ensures
            final(self).wf(),
            exists|k: int|
                0 <= k <= old(self).view().len() && final(self).view() == old(self).view().insert(
                    k,
                    Listener { id, priority },
                ) && (forall|i: int| 0 <= i < k ==> old(self).view()[i].priority <= priority)
                    && (forall|i: int|
                    k <= i < old(self).view().len() ==> old(self).view()[i].priority > priority),
    {
        let ghost before = self.listeners@;
        proof {
            assert(self.view() == before);
        }
        let mut k: usize = 0;
        while k < self.listeners.len() && self.listeners[k].priority <= priority
            invariant
                self.listeners@ == before,
                forall|a: int, b: int|
                    0 <= a < b < before.len() ==> before[a].priority <= before[b].priority,
                k <= before.len(),
                forall|i: int| 0 <= i < k ==> before[i].priority <= priority,
            decreases before.len() - k,
        {
            k = k + 1;
        }
        let l = Listener { id, priority };
        self.listeners.insert(k, l);
        proof {
            assert forall|i: int| k <= i < before.len() implies before[i].priority > priority by {
                assert(before[k as int].priority > priority);
                if i > k {
                    assert(before[k as int].priority <= before[i].priority);
                }
            }
            let now = self.listeners@;
            assert(now == before.insert(k as int, l));
            assert forall|i: int, j: int| 0 <= i < j < now.len() implies now[i].priority <= now[j].priority by {
                if j < k {
                } else if j == k {
                } else if i < k {
                    assert(now[j] == before[j - 1]);
                } else if i == k {
                    assert(now[j] == before[j - 1]);
                } else {
                    assert(now[i] == before[i - 1]);
                    assert(now[j] == before[j - 1]);
                }
            }
            assert(self.view() == before.insert(k as int, l));
            assert(0 <= k <= before.len() && self.view() == before.insert(k as int, l) && (forall|i: int| 0 <= i < k ==> before[i].priority <= priority) && (forall|i: int| k <= i < before.len() ==> before[i].priority > priority));
        }
    }

    /// Applies the listeners' verdicts to the event, one per listener in
    /// dispatch order, all of them: a cancellation does not cut dispatch short.
    pub fn publish(&self, event: &mut BlockBreakEvent, verdicts: &Vec<ListenerVerdict>)
        requires
            verdicts@.len() == self.view().len(),
        ensures
            final(event).spec_cancelled() == after_verdicts(
                old(event).spec_cancelled(),
                verdicts@,
            ),
            final(event).payload() == old(event).payload(),
    {
        let ghost start = event.spec_cancelled();
        let mut i: usize = 0;
        proof {
            assert(verdicts@.skip(0) =~= verdicts@);
        }
        while i < verdicts.len()
            invariant
                i <= verdicts@.len(),
                after_verdicts(event.spec_cancelled(), verdicts@.skip(i as int)) == after_verdicts(
                    start,
                    verdicts@,
                ),
                event.payload() == old(event).payload(),
            decreases verdicts@.len() - i,
        {
            proof {
                assert(verdicts@.skip(i as int).drop_first() =~= verdicts@.skip(i + 1));
            }
            if verdicts[i] == ListenerVerdict::Cancel {
                event.cancel();
            }
            i = i + 1;
        }
    }
}

/// Cancellation is OR-accumulated: the flag after dispatch is set exactly
/// when it was set before or some listener set it.
pub proof fn lemma_cancellation_accumulates(cancelled: bool, vs: Seq<ListenerVerdict>)
    ensures
        after_verdicts(cancelled, vs) == (cancelled || exists|i: int|
            0 <= i < vs.len() && vs[i] == ListenerVerdict::Cancel),
    decreases vs.len(),
{
    if vs.len() > 0 {
        lemma_cancellation_accumulates(after_verdict(cancelled, vs[0]), vs.drop_first());
        if exists|i: int| 0 <= i < vs.drop_first().len() && vs.drop_first()[i] == ListenerVerdict::Cancel {
            let i = choose|i: int| 0 <= i < vs.drop_first().len() && vs.drop_first()[i] == ListenerVerdict::Cancel;
            assert(vs[i + 1] == ListenerVerdict::Cancel);
        }
        if exists|i: int| 0 <= i < vs.len() && vs[i] == ListenerVerdict::Cancel {
            let i = choose|i: int| 0 <= i < vs.len() && vs[i] == ListenerVerdict::Cancel;
            if i > 0 {
                assert(vs.drop_first()[i - 1] == ListenerVerdict::Cancel);
            }
        }
    }
}

/// Once a listener has set the flag, the listeners after it leave it set,
/// whatever they do.
pub proof fn lemma_cancellation_sticks(cancelled: bool, vs: Seq<ListenerVerdict>, k: int)
    requires
        0 <= k <= vs.len(),
        after_verdicts(cancelled, vs.take(k)),
    ensures
        after_verdicts(cancelled, vs),
{
    lemma_cancellation_accumulates(cancelled, vs.take(k));
    lemma_cancellation_accumulates(cancelled, vs);
    if !cancelled {
        let i = choose|i: int| 0 <= i < vs.take(k).len() && vs.take(k)[i] == ListenerVerdict::Cancel;
        assert(vs[i] == ListenerVerdict::Cancel);
    }
}

} // verus!
