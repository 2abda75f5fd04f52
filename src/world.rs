use vstd::prelude::*;
use crate::pos::BlockPos;

verus! {

/// A client-visible, non-persisted effect kind.
#[derive(Clone, Copy, Debug, PartialEq, Eq, Structural)]
pub enum WorldEvent {
    JukeboxStartsPlaying,
    JukeboxStopsPlaying,
}

/// One effect broadcast at a position, with its payload.
#[derive(Clone, Copy, Debug, PartialEq, Eq, Structural)]
pub struct WorldEffect {
    pub kind: WorldEvent,
    pub pos: BlockPos,
    pub payload: i32,
}

/// How a state write is propagated: whether neighbors are told of it, and
/// whether clients re-render it.
#[derive(Clone, Copy, Debug, PartialEq, Eq, Structural)]
pub struct BlockFlags {
    pub notify_neighbors: bool,
    pub notify_listeners: bool,
}

impl BlockFlags {
    /// No propagation.
    pub fn empty() -> (r: BlockFlags)
        ensures
            r == (BlockFlags { notify_neighbors: false, notify_listeners: false }),
    {
        BlockFlags { notify_neighbors: false, notify_listeners: false }
    }
}

/// One state write, with its flags.
#[derive(Clone, Copy, Debug, PartialEq, Eq, Structural)]
pub struct BlockWrite {
    pub pos: BlockPos,
    pub state_id: u16,
    pub flags: BlockFlags,
}

/// Block states by position (air, id 0, where nothing was written) and the
/// effects emitted and the state writes made so far, each in order.
pub struct World {
    blocks: Vec<(BlockPos, u16)>,
    effects: Vec<WorldEffect>,
    writes: Vec<BlockWrite>,
}

/// The state id stored for `pos` in `blocks`, 0 where none is.
pub open spec fn state_in(blocks: Seq<(BlockPos, u16)>, pos: BlockPos) -> u16 {
    if exists|i: int| 0 <= i < blocks.len() && blocks[i].0 == pos {
        blocks[choose|i: int| 0 <= i < blocks.len() && blocks[i].0 == pos].1
    } else {
        0
    }
}

impl World {
    /// Each position is stored at most once.
    pub closed spec fn wf(&self) -> bool {
        forall|i: int, j: int|
            0 <= i < j < self.blocks@.len() ==> self.blocks@[i].0 != self.blocks@[j].0
    }

    pub closed spec fn spec_state(&self, pos: BlockPos) -> u16 {
        state_in(self.blocks@, pos)
    }

    pub closed spec fn spec_effects(&self) -> Seq<WorldEffect> {
        self.effects@
    }

    pub closed spec fn spec_writes(&self) -> Seq<BlockWrite> {
        self.writes@
    }

    pub fn new() -> (r: World)
        ensures
            r.wf(),
            forall|p: BlockPos| r.spec_state(p) == 0,
            r.spec_effects() == Seq::<WorldEffect>::empty(),
            r.spec_writes() == Seq::<BlockWrite>::empty(),
    {
        World { blocks: Vec::new(), effects: Vec::new(), writes: Vec::new() }
    }

    fn find(&self, pos: &BlockPos) -> (r: Option<usize>)
        requires
            self.wf(),
        ensures
            match r {
                Some(i) => i < self.blocks@.len() && self.blocks@[i as int].0 == *pos
                    && self.spec_state(*pos) == self.blocks@[i as int].1,
                None => self.spec_state(*pos) == 0 && forall|k: int|
                    0 <= k < self.blocks@.len() ==> self.blocks@[k].0 != *pos,
            },
    {
        let mut i: usize = 0;
        while i < self.blocks.len()
            invariant
                self.wf(),
                i <= self.blocks@.len(),
                forall|k: int| 0 <= k < i ==> self.blocks@[k].0 != *pos,
            decreases self.blocks@.len() - i,
        {
            if self.blocks[i].0 == *pos {
                proof {
                    assert(self.blocks@[i as int].0 == *pos);
                    let c = choose|k: int| 0 <= k < self.blocks@.len() && self.blocks@[k].0 == *pos;
                    assert(c == i as int);
                }
                return Some(i);
            }
            i = i + 1;
        }
        None
    }

    /// The state id at `pos`.
    pub fn get_block_state(&self, pos: &BlockPos) -> (r: u16)
        requires
            self.wf(),
        ensures
            r == self.spec_state(*pos),
    {
        match self.find(pos) {
            Some(i) => self.blocks[i].1,
            None => 0,
        }
    }

    /// Writes `state_id` at `pos` and records the write with its flags;
    /// every other position and the effects stay.
    pub fn set_block_state(&mut self, pos: &BlockPos, state_id: u16, flags: BlockFlags)
        requires
            old(self).wf(),
        ensures
            final(self).wf(),
            final(self).spec_state(*pos) == state_id,
            forall|p: BlockPos| p != *pos ==> final(self).spec_state(p) == old(self).spec_state(p),
            final(self).spec_effects() == old(self).spec_effects(),
            final(self).spec_writes() == old(self).spec_writes().push(
                BlockWrite { pos: *pos, state_id, flags },
            ),
    {
        self.writes.push(BlockWrite { pos: *pos, state_id, flags });
        let ghost before = self.blocks@;
        match self.find(pos) {
            Some(i) => {
                self.blocks.set(i, (*pos, state_id));
                proof {
                    assert(self.blocks@[i as int].0 == *pos);
                    assert forall|p: BlockPos| p != *pos implies self.spec_state(p) == state_in(before, p) by {
                        if exists|k: int| 0 <= k < before.len() && before[k].0 == p {
                            let k = choose|k: int| 0 <= k < before.len() && before[k].0 == p;
                            assert(self.blocks@[k].0 == p);
                            let c = choose|k: int| 0 <= k < self.blocks@.len() && self.blocks@[k].0 == p;
                            assert(c == k);
                        } else {
                            assert forall|k: int| 0 <= k < self.blocks@.len() implies self.blocks@[k].0 != p by {
                                if k != i {
                                    assert(self.blocks@[k] == before[k]);
                                }
                            }
                        }
                    }
                }
            },
            None => {
                self.blocks.push((*pos, state_id));
                proof {
                    let n = before.len() as int;
                    assert(self.blocks@[n].0 == *pos);
                    let c = choose|k: int| 0 <= k < self.blocks@.len() && self.blocks@[k].0 == *pos;
                    assert(c == n);
                    assert forall|p: BlockPos| p != *pos implies self.spec_state(p) == state_in(before, p) by {
                        if exists|k: int| 0 <= k < before.len() && before[k].0 == p {
                            let k = choose|k: int| 0 <= k < before.len() && before[k].0 == p;
                            assert(self.blocks@[k].0 == p);
                        } else {
                            assert forall|k: int| 0 <= k < self.blocks@.len() implies self.blocks@[k].0 != p by {
                                if k < n {
                                    assert(self.blocks@[k] == before[k]);
                                }
                            }
                        }
                    }
                }
            },
        }
    }

    /// Broadcasts an effect: it is appended to the effects, the states stay.
    pub fn sync_world_event(&mut self, kind: WorldEvent, pos: BlockPos, payload: i32)
        requires
            old(self).wf(),
        ensures
            final(self).wf(),
            forall|p: BlockPos| final(self).spec_state(p) == old(self).spec_state(p),
            final(self).spec_effects() == old(self).spec_effects().push(
                WorldEffect { kind, pos, payload },
            ),
            final(self).spec_writes() == old(self).spec_writes(),
    {
        self.effects.push(WorldEffect { kind, pos, payload });
    }

    /// The effects emitted so far, in order.
    pub fn effects(&self) -> (r: &Vec<WorldEffect>)
        ensures
            r@ == self.spec_effects(),
    {
        &self.effects
    }

    /// The state writes made so far, in order.
    pub fn writes(&self) -> (r: &Vec<BlockWrite>)
        ensures
            r@ == self.spec_writes(),
    {
        &self.writes
    }
}

} // verus!
