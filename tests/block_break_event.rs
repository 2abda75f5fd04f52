use pumpkin::block::Block;
use pumpkin::events::{BlockBreakEvent, EventBus, ListenerVerdict};
use pumpkin::pos::BlockPos;

fn event() -> BlockBreakEvent {
    BlockBreakEvent::new(Some(17), Block::new(3, 30), BlockPos::new(1, 2, 3), 5, true)
}

fn bus(n: u64) -> EventBus {
    let mut b = EventBus::new();
    for id in 0..n {
        b.register(id, 0);
    }
    b
}

#[test]
fn new_event_is_not_cancelled() {
    let e = event();
    assert!(!e.cancelled());
    assert_eq!(e.get_block(), &Block::new(3, 30));
    assert_eq!(e.player, Some(17));
    assert_eq!(e.block_position, BlockPos::new(1, 2, 3));
    assert_eq!(e.exp, 5);
    assert!(e.drop);
    assert_eq!(e.get_player(), Some(17));
    assert_eq!(e.get_position(), BlockPos::new(1, 2, 3));
    assert_eq!(e.get_exp(), 5);
    assert!(e.get_drop());
}

#[test]
fn cancellation_accumulates_across_listeners() {
    let b = bus(3);
    let mut e = event();
    b.publish(&mut e, &vec![ListenerVerdict::Untouched, ListenerVerdict::Cancel, ListenerVerdict::Untouched]);
    assert!(e.cancelled());
    b.publish(&mut e, &vec![ListenerVerdict::Untouched; 3]);
    assert!(e.cancelled());
    assert_eq!(e.exp, 5);
}

#[test]
fn failed_listener_does_not_cancel() {
    let b = bus(2);
    let mut e = event();
    b.publish(&mut e, &vec![ListenerVerdict::Failed, ListenerVerdict::Untouched]);
    assert!(!e.cancelled());
    b.publish(&mut e, &vec![ListenerVerdict::Failed, ListenerVerdict::Cancel]);
    assert!(e.cancelled());
}

#[test]
fn listeners_run_by_priority_then_registration() {
    let mut b = EventBus::new();
    b.register(1, 5);
    b.register(2, -1);
    b.register(3, 5);
    b.register(4, 0);
    let order: Vec<u64> = b.listeners().iter().map(|l| l.id).collect();
    assert_eq!(order, vec![2, 4, 1, 3]);
}
