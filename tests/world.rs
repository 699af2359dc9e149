use zone_stream::room_graph::RoomGraph;
use zone_stream::transition::{
    resolve_spawn_anchor, step_cooldown, Cooldown, CrossingRules, HorizontalDirection, SceneNode,
    PORTAL_COOLDOWN_FRAMES,
};
use zone_stream::world::{DropReason, PendingTransfer, TickOutcome, World};
use zone_stream::zone_cache::CacheEffect;

fn world(loadable: Vec<bool>) -> (World, Vec<CacheEffect>) {
    let mut w = World::new(RoomGraph::new(), loadable, CrossingRules::standard());
    let mut log = Vec::new();
    assert!(w.spawn_room("room_0_0", &mut log).is_some());
    (w, log)
}

fn request(portal_id: i64, target_zone: i64) -> PendingTransfer {
    PendingTransfer {
        portal_id,
        target_zone,
        spawn_anchor: None,
        offset_x: 3,
        offset_y: -2,
    }
}

fn portal_node(id: i64, x: i32, y: i32) -> SceneNode {
    SceneNode { x, y, portal_id: Some(id) }
}

fn plain_node(x: i32, y: i32) -> SceneNode {
    SceneNode { x, y, portal_id: None }
}

#[test]
fn threshold_at_the_right_edge() {
    let r = CrossingRules::standard();
    // The player's right edge is its position plus half its width.
    assert!(!r.crosses_right(480 - 8, 1));
    assert!(!r.crosses_right(484 - 8, 1));
    assert!(r.crosses_right(488 - 8, 1));
    assert!(!r.crosses_right(488 - 8, 0));
    assert!(r.should_trigger_transition(16));
    assert!(!r.should_trigger_transition(8));
    assert!(!r.should_trigger_transition(0));
}

#[test]
fn threshold_at_the_left_edge() {
    let r = CrossingRules::standard();
    assert!(!r.crosses_left(8, -1));
    assert!(!r.crosses_left(4, -1));
    assert!(r.crosses_left(0, -1));
    assert!(!r.crosses_left(0, 1));
    assert_eq!(r.shift_for(HorizontalDirection::Right), -480);
    assert_eq!(r.shift_for(HorizontalDirection::Left), 480);
}

#[test]
fn threshold_without_velocity_gate() {
    let mut r = CrossingRules::standard();
    r.velocity_gate = false;
    assert!(r.crosses_right(480, 0));
    assert!(r.crosses_left(0, 0));
}

#[test]
fn spawn_room_places_the_player() {
    let (w, log) = world(vec![true, true, true]);
    assert_eq!(w.zones().current_zone(), Some(0));
    assert_eq!(w.player_instance(), w.zones().current_instance());
    assert_eq!(log.len(), 3);
}

#[test]
fn spawn_room_unknown_name_fails() {
    let mut w = World::new(RoomGraph::new(), vec![true, true, true], CrossingRules::standard());
    let mut log = Vec::new();
    assert_eq!(w.spawn_room("room_5_0", &mut log), None);
    assert!(log.is_empty());
    assert_eq!(w.player_instance(), None);
}

#[test]
fn tick_before_the_player_is_placed_is_idle() {
    let mut w = World::new(RoomGraph::new(), vec![true, true, true], CrossingRules::standard());
    let mut log = Vec::new();
    assert!(matches!(w.tick(10_000, 1, &mut log), TickOutcome::Idle));
    assert!(log.is_empty());
}

#[test]
fn crossing_right_moves_to_the_neighbor() {
    let (mut w, mut log) = world(vec![true, true, true]);
    let start = log.len();
    match w.tick(480, 5, &mut log) {
        TickOutcome::Crossed { zone, handle, shift_x } => {
            assert_eq!(zone, 1);
            assert_eq!(shift_x, -480);
            assert_eq!(w.player_instance(), Some(handle));
            assert_eq!(w.zones().current_zone(), Some(1));
        }
        other => panic!("unexpected {:?}", other),
    }
    assert!(log[start..].contains(&CacheEffect::Destroy { handle: 0 }));
}

#[test]
fn crossing_left_moves_back() {
    let (mut w, mut log) = world(vec![true, true, true]);
    w.tick(480, 5, &mut log);
    match w.tick(0, -5, &mut log) {
        TickOutcome::Crossed { zone, shift_x, .. } => {
            assert_eq!(zone, 0);
            assert_eq!(shift_x, 480);
        }
        other => panic!("unexpected {:?}", other),
    }
}

#[test]
fn no_neighbor_means_no_crossing() {
    let (mut w, mut log) = world(vec![true, true, true]);
    assert!(matches!(w.tick(-100, -5, &mut log), TickOutcome::Idle));
    assert_eq!(w.zones().current_zone(), Some(0));
}

#[test]
fn crossing_into_a_missing_zone_keeps_the_player() {
    let (mut w, mut log) = world(vec![true, false, true]);
    let parent = w.player_instance();
    let len = log.len();
    assert!(matches!(w.tick(480, 5, &mut log), TickOutcome::CrossFailed { zone: 1 }));
    assert_eq!(w.player_instance(), parent);
    assert_eq!(log.len(), len);
}

#[test]
fn queued_transfer_waits_for_the_next_tick() {
    let (mut w, mut log) = world(vec![true, true, true]);
    let parent = w.player_instance();
    let len = log.len();
    w.queue_transfer(request(7, 2));
    assert!(w.has_pending_transfer());
    assert_eq!(w.player_instance(), parent);
    assert_eq!(w.zones().current_zone(), Some(0));
    assert_eq!(log.len(), len);
    match w.tick(100, 0, &mut log) {
        TickOutcome::PortalArrived { zone, handle, spawn_anchor } => {
            assert_eq!(zone, 2);
            assert_eq!(spawn_anchor, None);
            assert_eq!(w.player_instance(), Some(handle));
        }
        other => panic!("unexpected {:?}", other),
    }
    assert!(!w.has_pending_transfer());
}

#[test]
fn newer_request_replaces_older() {
    let (mut w, mut log) = world(vec![true, true, true]);
    w.queue_transfer(request(7, 2));
    w.queue_transfer(request(8, 1));
    assert!(matches!(w.tick(100, 0, &mut log), TickOutcome::PortalArrived { zone: 1, .. }));
    assert!(matches!(w.tick(100, 0, &mut log), TickOutcome::Idle));
}

#[test]
fn portal_request_errors() {
    let (mut w, mut log) = world(vec![true, true, true]);
    w.queue_transfer(request(7, 3));
    assert!(matches!(
        w.tick(100, 0, &mut log),
        TickOutcome::PortalDropped { reason: DropReason::OutOfRange }
    ));
    w.queue_transfer(request(7, -1));
    assert!(matches!(
        w.tick(100, 0, &mut log),
        TickOutcome::PortalDropped { reason: DropReason::OutOfRange }
    ));
    w.queue_transfer(request(7, 0));
    assert!(matches!(
        w.tick(100, 0, &mut log),
        TickOutcome::PortalDropped { reason: DropReason::SameZone }
    ));
}

#[test]
fn failed_portal_keeps_the_players_parent() {
    let (mut w, mut log) = world(vec![true, true, false]);
    let parent = w.player_instance();
    let len = log.len();
    w.queue_transfer(request(7, 2));
    assert!(matches!(w.tick(100, 0, &mut log), TickOutcome::PortalFailed { zone: 2 }));
    assert_eq!(w.player_instance(), parent);
    assert_eq!(w.zones().current_zone(), Some(0));
    assert_eq!(log.len(), len);
}

#[test]
fn arrival_portal_cools_down_for_six_ticks() {
    let (mut w, mut log) = world(vec![true, true, true]);
    w.queue_transfer(request(7, 2));
    assert!(matches!(w.tick(100, 0, &mut log), TickOutcome::PortalArrived { zone: 2, .. }));
    let nodes = vec![plain_node(1, 1), portal_node(77, 40, 50)];
    let pos = w.complete_arrival(None, &nodes, plain_node(0, 0));
    assert_eq!(pos, Some((43, 48)));
    assert_eq!(
        w.current_cooldown(),
        Some(Cooldown { portal_id: 77, frames_remaining: PORTAL_COOLDOWN_FRAMES })
    );
    for _ in 1..=6 {
        w.queue_transfer(request(77, 0));
        assert!(matches!(
            w.tick(100, 0, &mut log),
            TickOutcome::PortalDropped { reason: DropReason::Cooldown }
        ));
        assert_eq!(w.zones().current_zone(), Some(2));
    }
    w.queue_transfer(request(77, 0));
    assert!(matches!(w.tick(100, 0, &mut log), TickOutcome::PortalArrived { zone: 0, .. }));
}

#[test]
fn cooldown_ignores_other_portals() {
    let (mut w, mut log) = world(vec![true, true, true]);
    w.queue_transfer(request(7, 2));
    w.tick(100, 0, &mut log);
    w.complete_arrival(Some(portal_node(77, 0, 0)), &Vec::new(), plain_node(0, 0));
    w.queue_transfer(request(78, 0));
    assert!(matches!(w.tick(100, 0, &mut log), TickOutcome::PortalArrived { zone: 0, .. }));
}

#[test]
fn arrival_at_a_plain_node_clears_the_cooldown() {
    let (mut w, mut log) = world(vec![true, true, true]);
    w.queue_transfer(request(7, 2));
    w.tick(100, 0, &mut log);
    w.complete_arrival(None, &vec![portal_node(77, 0, 0)], plain_node(0, 0));
    w.queue_transfer(request(78, 1));
    assert!(matches!(w.tick(100, 0, &mut log), TickOutcome::PortalArrived { zone: 1, .. }));
    let pos = w.complete_arrival(Some(plain_node(10, 20)), &vec![portal_node(5, 0, 0)], plain_node(0, 0));
    assert_eq!(pos, Some((13, 18)));
    assert_eq!(w.current_cooldown(), None);
}

#[test]
fn complete_arrival_without_arrival_does_nothing() {
    let (mut w, _) = world(vec![true, true, true]);
    assert_eq!(w.complete_arrival(None, &Vec::new(), plain_node(1, 1)), None);
    assert_eq!(w.current_cooldown(), None);
}

#[test]
fn spawn_anchor_fallbacks() {
    let origin = plain_node(-5, -6);
    let nodes = vec![plain_node(1, 1), portal_node(3, 2, 2), portal_node(4, 9, 9)];
    assert_eq!(resolve_spawn_anchor(Some(plain_node(8, 8)), &nodes, origin), plain_node(8, 8));
    assert_eq!(resolve_spawn_anchor(None, &nodes, origin), portal_node(3, 2, 2));
    assert_eq!(resolve_spawn_anchor(None, &vec![plain_node(1, 1)], origin), origin);
    assert_eq!(resolve_spawn_anchor(None, &Vec::new(), origin), origin);
}

#[test]
fn cooldown_steps_down_then_ends() {
    let mut c = Some(Cooldown { portal_id: 1, frames_remaining: 2 });
    c = step_cooldown(c);
    assert_eq!(c, Some(Cooldown { portal_id: 1, frames_remaining: 1 }));
    c = step_cooldown(c);
    assert_eq!(c, Some(Cooldown { portal_id: 1, frames_remaining: 0 }));
    c = step_cooldown(c);
    assert_eq!(c, None);
    assert_eq!(step_cooldown(None), None);
}

#[test]
fn portal_to_a_preloaded_zone_creates_a_fresh_instance() {
    let (mut w, mut log) = world(vec![true, true, true]);
    let preloaded = w.zones().preloaded(1).unwrap();
    let start = log.len();
    w.queue_transfer(request(7, 1));
    match w.tick(100, 0, &mut log) {
        TickOutcome::PortalArrived { zone, handle, .. } => {
            assert_eq!(zone, 1);
            assert_ne!(handle, preloaded);
            assert_eq!(handle, 2);
            assert_eq!(w.player_instance(), Some(handle));
        }
        other => panic!("unexpected {:?}", other),
    }
    let effects = &log[start..];
    assert_eq!(
        effects.iter().filter(|e| **e == CacheEffect::Destroy { handle: preloaded }).count(),
        1
    );
    assert!(effects.contains(&CacheEffect::Instantiate { zone: 1, handle: 2 }));
    assert!(effects.contains(&CacheEffect::Destroy { handle: 0 }));
}

#[test]
fn crossing_into_a_preloaded_zone_reuses_it() {
    let (mut w, mut log) = world(vec![true, true, true]);
    let preloaded = w.zones().preloaded(1).unwrap();
    match w.tick(480, 5, &mut log) {
        TickOutcome::Crossed { handle, .. } => assert_eq!(handle, preloaded),
        other => panic!("unexpected {:?}", other),
    }
}

#[test]
fn scaled_rules_keep_the_threshold() {
    let r = CrossingRules::standard_scaled(256);
    assert_eq!(r.zone_width, 480 * 256);
    assert_eq!(r.player_width, 16 * 256);
    // Right edge at 487.75 pixels: overflow 7.75, ratio under one half.
    assert!(!r.crosses_right((487 * 256 + 192) - 8 * 256, 1));
    assert!(r.crosses_right(488 * 256 - 8 * 256, 1));
    assert_eq!(CrossingRules::standard_scaled(1), CrossingRules::standard());
}
