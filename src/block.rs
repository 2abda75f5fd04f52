use vstd::prelude::*;

verus! {

/// A block type: its numeric id and the first of the two consecutive state
/// ids that its properties take.
#[derive(Clone, Copy, Debug, PartialEq, Eq, Structural)]
pub struct Block {
    pub id: u16,
    pub first_state_id: u16,
}

impl Block {
    /// The state ids of this block type fit below `u16::MAX`.
    pub open spec fn wf(self) -> bool {
        self.first_state_id < u16::MAX
    }

    pub fn new(id: u16, first_state_id: u16) -> (r: Block)
        ensures
            r.id == id,
            r.first_state_id == first_state_id,
    {
        Block { id, first_state_id }
    }
}

/// The property bag of a record-player-like block.
#[derive(Clone, Copy, Debug, PartialEq, Eq, Structural)]
pub struct JukeboxLikeProperties {
    pub has_record: bool,
}

/// State id of a property bag: `has_record = true` comes first, then `false`.
pub open spec fn encode(props: JukeboxLikeProperties, block: Block) -> int {
    block.first_state_id + if props.has_record {
        0int
    } else {
        1int
    }
}

/// Property bag of a state id: only the first state of the block holds a record.
pub open spec fn decode(state_id: int, block: Block) -> JukeboxLikeProperties {
    JukeboxLikeProperties { has_record: state_id == block.first_state_id }
}

impl JukeboxLikeProperties {
    pub fn to_state_id(&self, block: &Block) -> (r: u16)
        requires
            block.wf(),
        ensures
            r == encode(*self, *block),
    {
        if self.has_record {
            block.first_state_id
        } else {
            block.first_state_id + 1
        }
    }

    pub fn from_state_id(state_id: u16, block: &Block) -> (r: JukeboxLikeProperties)
        ensures
            r == decode(state_id as int, *block),
    {
        JukeboxLikeProperties { has_record: state_id == block.first_state_id }
    }
}

/// Decoding the state id of a property bag gives the bag back.
pub proof fn lemma_round_trip(props: JukeboxLikeProperties, block: Block)
    requires
        block.wf(),
    ensures
        decode(encode(props, block), block) == props,
{
}

/// Encoding the bag decoded from one of the block's state ids gives that id back.
pub proof fn lemma_state_round_trip(state_id: int, block: Block)
    requires
        block.wf(),
        block.first_state_id <= state_id <= block.first_state_id + 1,
    ensures
        encode(decode(state_id, block), block) == state_id,
{
}

} // verus!
