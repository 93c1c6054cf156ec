use jackdots::bridge::{Bridge, Recv};

#[test]
fn backpressure_drops_beyond_capacity() {
    let mut bridge: Bridge<u32> = Bridge::new(64);
    for i in 0..100u32 {
        let sent = bridge.try_send(i);
        if i < 64 {
            assert!(sent, "item {} should have been queued", i);
        } else {
            assert!(!sent, "item {} should have been dropped", i);
        }
    }
    assert_eq!(bridge.items.len(), 64);
}

#[test]
fn items_come_out_in_production_order() {
    let mut bridge: Bridge<u32> = Bridge::new(8);
    for i in 0..5u32 {
        assert!(bridge.try_send(i * 10));
    }
    for i in 0..5u32 {
        match bridge.recv() {
            Recv::Item(v) => assert_eq!(v, i * 10),
            _ => panic!("expected item {}", i),
        }
    }
    assert!(matches!(bridge.recv(), Recv::Pending));
}

#[test]
fn empty_open_bridge_is_pending() {
    let mut bridge: Bridge<u8> = Bridge::new(4);
    assert!(matches!(bridge.recv(), Recv::Pending));
}

#[test]
fn close_drains_then_signals_end_of_stream() {
    let mut bridge: Bridge<u8> = Bridge::new(4);
    assert!(bridge.try_send(7));
    assert!(bridge.try_send(9));
    bridge.close();
    assert!(!bridge.try_send(11), "a closed bridge accepts nothing");
    assert!(matches!(bridge.recv(), Recv::Item(7)));
    assert!(matches!(bridge.recv(), Recv::Item(9)));
    assert!(matches!(bridge.recv(), Recv::Closed));
    assert!(matches!(bridge.recv(), Recv::Closed));
}

#[test]
fn zero_capacity_drops_everything() {
    let mut bridge: Bridge<u8> = Bridge::new(0);
    assert!(!bridge.try_send(1));
    assert!(matches!(bridge.recv(), Recv::Pending));
}
