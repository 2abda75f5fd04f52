use vstd::prelude::*;
use crate::block::{Block, decode};
use crate::jukebox::{
    BlockActionResult, JukeboxBlock, SongRegistry, media_view, result_of, stopped_in,
    used_with_item,
};
use crate::pos::BlockPos;
use crate::world::{World, WorldEvent, WorldEffect};

verus! {

/// The behaviors that a block type can have.
#[derive(Clone, Copy, Debug, PartialEq, Eq, Structural)]
pub enum BlockBehavior {
    Jukebox(JukeboxBlock),
}

/// The behavior stored for `block_id` in `entries`.
pub open spec fn behavior_in(entries: Seq<(u16, BlockBehavior)>, block_id: u16) -> Option<BlockBehavior> {
    if exists|i: int| 0 <= i < entries.len() && entries[i].0 == block_id {
        Some(entries[choose|i: int| 0 <= i < entries.len() && entries[i].0 == block_id].1)
    } else {
        None
    }
}

/// One behavior per block type, filled at startup; a registered behavior is
/// never replaced.
pub struct BehaviorRegistry {
    entries: Vec<(u16, BlockBehavior)>,
}

impl BehaviorRegistry {
    /// Each block type is stored at most once.
    pub closed spec fn wf(&self) -> bool {
        forall|i: int, j: int|
            0 <= i < j < self.entries@.len() ==> self.entries@[i].0 != self.entries@[j].0
    }

    pub closed spec fn spec_get(&self, block_id: u16) -> Option<BlockBehavior> {
        behavior_in(self.entries@, block_id)
    }

    pub fn new() -> (r: BehaviorRegistry)
        ensures
            r.wf(),
            forall|b: u16| r.spec_get(b) is None,
    {
        BehaviorRegistry { entries: Vec::new() }
    }

    /// The behavior of `block_id`.
    pub fn get(&self, block_id: u16) -> (r: Option<BlockBehavior>)
        requires
            self.wf(),
        ensures
            r == self.spec_get(block_id),
    {
        let mut i: usize = 0;
        while i < self.entries.len()
            invariant
                self.wf(),
                i <= self.entries@.len(),
                forall|k: int| 0 <= k < i ==> self.entries@[k].0 != block_id,
            decreases self.entries@.len() - i,
        {
            if self.entries[i].0 == block_id {
                proof {
                    let c = choose|k: int| 0 <= k < self.entries@.len() && self.entries@[k].0 == block_id;
                    assert(c == i as int);
                }
                return Some(self.entries[i].1);
            }
            i = i + 1;
        }
        None
    }

    /// Registers `behavior` for `block_id`; refused, with nothing changed,
    /// where the block type already has one.
    pub fn register(&mut self, block_id: u16, behavior: BlockBehavior) -> (r: bool)
        requires
            old(self).wf(),
        ensures
            final(self).wf(),
            r == (old(self).spec_get(block_id) is None),
            r ==> final(self).spec_get(block_id) == Some(behavior),
            !r ==> final(self).spec_get(block_id) == old(self).spec_get(block_id),
            forall|b: u16| b != block_id ==> final(self).spec_get(b) == old(self).spec_get(b),
    {
        if self.get(block_id).is_some() {
            return false;
        }
        let ghost before = self.entries@;
        proof {
            assert forall|k: int| 0 <= k < before.len() implies before[k].0 != block_id by {
                if before[k].0 == block_id {
                    assert(exists|i: int| 0 <= i < before.len() && before[i].0 == block_id);
                }
            }
        }
        self.entries.push((block_id, behavior));
        proof {
            let m = before.len() as int;
            assert(self.entries@[m].0 == block_id);
            let c = choose|k: int| 0 <= k < self.entries@.len() && self.entries@[k].0 == block_id;
            assert(c == m);
            assert forall|b: u16| b != block_id implies behavior_in(self.entries@, b) == behavior_in(before, b) by {
                if exists|k: int| 0 <= k < before.len() && before[k].0 == b {
                    let k = choose|k: int| 0 <= k < before.len() && before[k].0 == b;
                    assert(self.entries@[k].0 == b);
                    let c = choose|k: int| 0 <= k < self.entries@.len() && self.entries@[k].0 == b;
                    assert(c < m);
                    assert(self.entries@[c] == before[c]);
                } else {
                    assert forall|k: int| 0 <= k < self.entries@.len() implies self.entries@[k].0 != b by {
                        if k < m {
                            assert(self.entries@[k] == before[k]);
                        }
                    }
                }
            }
        }
        true
    }

    /// Dispatches a use with a held item to the block type's behavior;
    /// `Continue`, with nothing changed, where it has none.
    pub fn use_with_item(
        &self,
        block: &Block,
        location: &BlockPos,
        world: &mut World,
        media: Option<&str>,
        songs: &SongRegistry,
    ) -> (r: BlockActionResult)
        requires
            self.wf(),
            old(world).wf(),
            block.wf(),
            songs.wf(),
        ensures
            match self.spec_get(block.id) {
                Some(BlockBehavior::Jukebox(_)) => exists|u|
                    used_with_item(
                        *old(world),
                        *final(world),
                        *block,
                        *location,
                        media_view(media),
                        songs.view(),
                        u,
                    ) && r == result_of(u),
                None => r == BlockActionResult::Continue && *final(world) == *old(world),
            },
    {
        match self.get(block.id) {
            Some(BlockBehavior::Jukebox(j)) => {
                let u = j.use_with_item(block, location, world, media, songs);
                u.result()
            },
            None => BlockActionResult::Continue,
        }
    }

    /// Dispatches a plain use; `Continue`, with nothing changed, where the
    /// block type has no behavior.
    pub fn normal_use(&self, block: &Block, location: &BlockPos, world: &mut World) -> (r:
        BlockActionResult)
        requires
            self.wf(),
            old(world).wf(),
            block.wf(),
        ensures
            match self.spec_get(block.id) {
                Some(BlockBehavior::Jukebox(_)) => if decode(
                    old(world).spec_state(*location) as int,
                    *block,
                ).has_record {
                    stopped_in(*old(world), *final(world), *block, *location) && r
                        == BlockActionResult::Consume
                } else {
                    *final(world) == *old(world) && r == BlockActionResult::Continue
                },
                None => r == BlockActionResult::Continue && *final(world) == *old(world),
            },
    {
        match self.get(block.id) {
            Some(BlockBehavior::Jukebox(j)) => j.normal_use(block, location, world),
            None => BlockActionResult::Continue,
        }
    }

    /// Dispatches the break of a block; nothing happens where the block type
    /// has no behavior.
    pub fn broken(&self, block: &Block, location: &BlockPos, world: &mut World)
        requires
            self.wf(),
            old(world).wf(),
        ensures
            final(world).wf(),
            forall|p: BlockPos| final(world).spec_state(p) == old(world).spec_state(p),
            final(world).spec_writes() == old(world).spec_writes(),
            match self.spec_get(block.id) {
                Some(BlockBehavior::Jukebox(_)) => final(world).spec_effects() == old(
                    world,
                ).spec_effects().push(
                    WorldEffect {
                        kind: WorldEvent::JukeboxStopsPlaying,
                        pos: *location,
                        payload: 0,
                    },
                ),
                None => *final(world) == *old(world),
            },
    {
        match self.get(block.id) {
            Some(BlockBehavior::Jukebox(j)) => j.broken(location, world),
            None => {},
        }
    }
}

} // verus!
