use pumpkin::behavior::{BehaviorRegistry, BlockBehavior};
use pumpkin::block::{Block, JukeboxLikeProperties};
use pumpkin::jukebox::{BlockActionResult, JukeboxBlock, SongRegistry};
use pumpkin::pos::BlockPos;
use pumpkin::world::{BlockFlags, World, WorldEffect, WorldEvent};

fn songs() -> SongRegistry {
    SongRegistry::new(&vec!["a".to_string(), "b".to_string()])
}

#[test]
fn behavior_is_registered_once() {
    let mut r = BehaviorRegistry::new();
    assert!(r.get(7).is_none());
    assert!(r.register(7, BlockBehavior::Jukebox(JukeboxBlock)));
    assert!(!r.register(7, BlockBehavior::Jukebox(JukeboxBlock)));
    assert_eq!(r.get(7), Some(BlockBehavior::Jukebox(JukeboxBlock)));
    assert!(r.get(8).is_none());
}

#[test]
fn dispatch_reaches_the_registered_behavior() {
    let mut r = BehaviorRegistry::new();
    r.register(7, BlockBehavior::Jukebox(JukeboxBlock));
    let jukebox = Block::new(7, 50);
    let pos = BlockPos::new(0, 1, 0);
    let mut w = World::new();
    w.set_block_state(&pos, JukeboxLikeProperties { has_record: false }.to_state_id(&jukebox), BlockFlags::empty());
    assert_eq!(r.use_with_item(&jukebox, &pos, &mut w, Some("x:b"), &songs()), BlockActionResult::Consume);
    assert_eq!(w.get_block_state(&pos), 50);
    assert_eq!(r.normal_use(&jukebox, &pos, &mut w), BlockActionResult::Consume);
    assert_eq!(w.get_block_state(&pos), 51);
    assert_eq!(r.normal_use(&jukebox, &pos, &mut w), BlockActionResult::Continue);
    assert_eq!(w.writes().len(), 3);
    r.broken(&jukebox, &pos, &mut w);
    assert_eq!(
        w.effects(),
        &vec![
            WorldEffect { kind: WorldEvent::JukeboxStartsPlaying, pos, payload: 1 },
            WorldEffect { kind: WorldEvent::JukeboxStopsPlaying, pos, payload: 0 },
            WorldEffect { kind: WorldEvent::JukeboxStopsPlaying, pos, payload: 0 },
        ]
    );
}

#[test]
fn unregistered_block_type_continues() {
    let r = BehaviorRegistry::new();
    let stone = Block::new(1, 1);
    let pos = BlockPos::new(0, 0, 0);
    let mut w = World::new();
    assert_eq!(r.use_with_item(&stone, &pos, &mut w, Some("x:a"), &songs()), BlockActionResult::Continue);
    assert_eq!(r.normal_use(&stone, &pos, &mut w), BlockActionResult::Continue);
    r.broken(&stone, &pos, &mut w);
    assert!(w.effects().is_empty());
    assert_eq!(w.get_block_state(&pos), 0);
}
