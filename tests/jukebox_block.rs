use pumpkin::block::{Block, JukeboxLikeProperties};
use pumpkin::jukebox::{media_song_key, BlockActionResult, JukeboxBlock, JukeboxUse, SongRegistry};
use pumpkin::pos::BlockPos;
use pumpkin::world::{BlockFlags, BlockWrite, World, WorldEffect, WorldEvent};

fn jukebox() -> Block {
    Block::new(7, 100)
}

fn registry() -> SongRegistry {
    let names: Vec<String> = ["song0", "song2", "song4", "song1", "song9"].iter().map(|s| s.to_string()).collect();
    SongRegistry::new(&names)
}

fn world_with(has_record: bool, pos: &BlockPos) -> World {
    let mut w = World::new();
    let id = JukeboxLikeProperties { has_record }.to_state_id(&jukebox());
    w.set_block_state(pos, id, BlockFlags::empty());
    w
}

fn toggle(w: &World, pos: &BlockPos) -> bool {
    JukeboxLikeProperties::from_state_id(w.get_block_state(pos), &jukebox()).has_record
}

#[test]
fn state_id_round_trip() {
    let b = jukebox();
    for has_record in [true, false] {
        let p = JukeboxLikeProperties { has_record };
        assert_eq!(JukeboxLikeProperties::from_state_id(p.to_state_id(&b), &b), p);
    }
    assert_eq!(JukeboxLikeProperties { has_record: true }.to_state_id(&b), 100);
    assert_eq!(JukeboxLikeProperties { has_record: false }.to_state_id(&b), 101);
    for id in [100u16, 101] {
        assert_eq!(JukeboxLikeProperties::from_state_id(id, &b).to_state_id(&b), id);
    }
}

#[test]
fn registered_song_starts() {
    let pos = BlockPos::new(4, 64, -9);
    let mut w = world_with(false, &pos);
    let r = JukeboxBlock.use_with_item(&jukebox(), &pos, &mut w, Some("minecraft:song1"), &registry());
    assert_eq!(r, JukeboxUse::Started(3));
    assert_eq!(r.result(), BlockActionResult::Consume);
    assert!(toggle(&w, &pos));
    assert_eq!(
        w.effects(),
        &vec![WorldEffect { kind: WorldEvent::JukeboxStartsPlaying, pos, payload: 3 }]
    );
    assert_eq!(
        w.writes().last(),
        Some(&BlockWrite { pos, state_id: 100, flags: BlockFlags::empty() })
    );
}

#[test]
fn playing_record_stops_on_use() {
    let pos = BlockPos::new(0, 0, 0);
    for media in [Some("minecraft:song1"), None] {
        let mut w = world_with(true, &pos);
        let r = JukeboxBlock.use_with_item(&jukebox(), &pos, &mut w, media, &registry());
        assert_eq!(r, JukeboxUse::Stopped);
        assert_eq!(r.result(), BlockActionResult::Consume);
        assert!(!toggle(&w, &pos));
        assert_eq!(
            w.effects(),
            &vec![WorldEffect { kind: WorldEvent::JukeboxStopsPlaying, pos, payload: 0 }]
        );
    }
    let mut w = world_with(true, &pos);
    assert_eq!(JukeboxBlock.normal_use(&jukebox(), &pos, &mut w), BlockActionResult::Consume);
    assert!(!toggle(&w, &pos));
    assert_eq!(
        w.effects(),
        &vec![WorldEffect { kind: WorldEvent::JukeboxStopsPlaying, pos, payload: 0 }]
    );
}

#[test]
fn plain_use_without_record_does_nothing() {
    let pos = BlockPos::new(1, 1, 1);
    let mut w = world_with(false, &pos);
    let writes_before = w.writes().len();
    assert_eq!(JukeboxBlock.normal_use(&jukebox(), &pos, &mut w), BlockActionResult::Continue);
    assert!(!toggle(&w, &pos));
    assert!(w.effects().is_empty());
    assert_eq!(w.writes().len(), writes_before);
}

#[test]
fn toggle_reads_back_what_was_written() {
    let pos = BlockPos::new(3, 2, 1);
    let mut w = World::new();
    for h in [true, false, true] {
        JukeboxBlock.set_record(h, &jukebox(), &pos, &mut w);
        assert_eq!(JukeboxBlock.has_record(&jukebox(), &pos, &w), h);
    }
    assert_eq!(
        w.writes().last(),
        Some(&BlockWrite { pos, state_id: 100, flags: BlockFlags::empty() })
    );
}

#[test]
fn no_media_link_continues_untouched() {
    let pos = BlockPos::new(2, 3, 4);
    for media in [None, Some("minecraft")] {
        let mut w = world_with(false, &pos);
        let before = w.get_block_state(&pos);
        let writes_before = w.writes().len();
        let r = JukeboxBlock.use_with_item(&jukebox(), &pos, &mut w, media, &registry());
        assert_eq!(r, JukeboxUse::NoSong);
        assert_eq!(w.writes().len(), writes_before);
        assert_eq!(r.result(), BlockActionResult::Continue);
        assert_eq!(w.get_block_state(&pos), before);
        assert!(w.effects().is_empty());
    }
}

#[test]
fn unregistered_song_continues_untouched() {
    let pos = BlockPos::new(2, 3, 4);
    let mut w = world_with(false, &pos);
    let before = w.get_block_state(&pos);
    let r = JukeboxBlock.use_with_item(&jukebox(), &pos, &mut w, Some("minecraft:song7"), &registry());
    assert_eq!(r, JukeboxUse::UnregisteredSong);
    assert_eq!(r.result(), BlockActionResult::Continue);
    assert_eq!(w.get_block_state(&pos), before);
    assert!(w.effects().is_empty());
}

#[test]
fn serialized_uses_alternate_start_and_stop() {
    let pos = BlockPos::new(5, 5, 5);
    let other = BlockPos::new(6, 5, 5);
    let mut w = world_with(false, &pos);
    w.set_block_state(&other, 42, BlockFlags::empty());
    let mut starts = 0;
    let mut stops = 0;
    for _ in 0..8 {
        match JukeboxBlock.use_with_item(&jukebox(), &pos, &mut w, Some("minecraft:song4"), &registry()) {
            JukeboxUse::Started(i) => {
                assert_eq!(i, 2);
                assert_eq!(starts, stops);
                starts += 1;
            }
            JukeboxUse::Stopped => stops += 1,
            other => panic!("unexpected {:?}", other),
        }
    }
    assert_eq!((starts, stops), (4, 4));
    assert_eq!(w.get_block_state(&other), 42);
}

#[test]
fn broken_always_emits_stop() {
    let pos = BlockPos::new(9, 9, 9);
    for has_record in [true, false] {
        let mut w = world_with(has_record, &pos);
        let before = w.get_block_state(&pos);
        JukeboxBlock.broken(&pos, &mut w);
        assert_eq!(w.get_block_state(&pos), before);
        assert_eq!(
            w.effects(),
            &vec![WorldEffect { kind: WorldEvent::JukeboxStopsPlaying, pos, payload: 0 }]
        );
    }
}

#[test]
fn media_key_is_second_segment() {
    assert_eq!(media_song_key("minecraft:song1"), Some("song1".chars().collect()));
    assert_eq!(media_song_key("a:b:c"), Some(vec!['b']));
    assert_eq!(media_song_key("a:"), Some(vec![]));
    assert_eq!(media_song_key("nocolon"), None);
    assert_eq!(registry().get_index_of(&"song9".chars().collect()), Some(4));
    assert_eq!(registry().get_index_of(&"song3".chars().collect()), None);
}

#[test]
fn unwritten_position_is_air() {
    let w = World::new();
    assert_eq!(w.get_block_state(&BlockPos::new(1, 2, 3)), 0);
}
