use zone_stream::player::{get_new_animation, plan_step, MotionState, MotionStep, Player};
use zone_stream::portal::{BodyKind, LevelPortal};
use zone_stream::room::{outline_points, refresh_outline, OutlineAction, Room, ROOM_HEIGHT, ROOM_WIDTH};

#[test]
fn portal_requests_transfer_for_the_player() {
    let portal = LevelPortal { target_level: 2, spawn_point: String::from("Arrival") };
    let t = portal.on_body_exited(11, BodyKind::Player, 4, -3).unwrap();
    assert_eq!(t.portal_id, 11);
    assert_eq!(t.target_zone, 2);
    assert_eq!(t.spawn_anchor, Some(String::from("Arrival")));
    assert_eq!((t.offset_x, t.offset_y), (4, -3));
}

#[test]
fn portal_ignores_other_bodies_and_missing_target() {
    let portal = LevelPortal { target_level: 2, spawn_point: String::new() };
    assert!(portal.on_body_exited(11, BodyKind::Other, 0, 0).is_none());
    let t = portal.on_body_exited(11, BodyKind::Player, 0, 0).unwrap();
    assert_eq!(t.spawn_anchor, None);
    let unset = LevelPortal::new();
    assert!(unset.on_body_exited(11, BodyKind::Player, 0, 0).is_none());
}

#[test]
fn player_lands_then_jumps() {
    let mut p = Player::new();
    assert_eq!(p.state(), MotionState::Air);
    let s = p.physics_process(true, true);
    assert_eq!(s, MotionStep { state: MotionState::Floor, walks: false, jumps: false, moves: false });
    let s = p.physics_process(true, false);
    assert_eq!(s.state, MotionState::Floor);
    assert!(s.walks && s.moves && !s.jumps);
    let s = p.physics_process(true, true);
    assert_eq!(s.state, MotionState::Air);
    assert!(s.jumps);
    assert_eq!(p.state(), MotionState::Air);
    let s = plan_step(MotionState::Air, false, true);
    assert!(!s.jumps && s.moves);
}

#[test]
fn player_animation_names() {
    assert_eq!(get_new_animation(MotionState::Floor, true, false), "walk");
    assert_eq!(get_new_animation(MotionState::Floor, false, true), "idle");
    assert_eq!(get_new_animation(MotionState::Air, false, true), "fall");
    assert_eq!(get_new_animation(MotionState::Air, true, false), "jump");
    assert_eq!(Player::new().animation(false, false), "jump");
}

#[test]
fn room_outline_actions() {
    assert_eq!(refresh_outline(false, true), OutlineAction::Remove);
    assert_eq!(refresh_outline(true, true), OutlineAction::Show);
    assert_eq!(refresh_outline(true, false), OutlineAction::Create);
    let mut r = Room::new();
    assert_eq!(r.refresh(), OutlineAction::Create);
    assert_eq!(r.refresh(), OutlineAction::Show);
    r.set_debug_draw_bounds(false);
    assert_eq!(r.refresh(), OutlineAction::Remove);
    assert!(!r.has_outline());
    assert_eq!(
        outline_points(),
        vec![(0, 0), (ROOM_WIDTH, 0), (ROOM_WIDTH, ROOM_HEIGHT), (0, ROOM_HEIGHT)]
    );
}
