use zone_stream::level_neighbors::{LevelNeighbors, LEVELS_LEN};
use zone_stream::room_graph::{RoomGraph, ZoneLinks};

#[test]
fn level_neighbors_at_both_ends_and_middle() {
    let first = LevelNeighbors::for_level(0);
    assert_eq!(first.left, None);
    assert_eq!(first.right, Some(1));
    let middle = LevelNeighbors::for_level(1);
    assert_eq!(middle.left, Some(0));
    assert_eq!(middle.right, Some(2));
    let last = LevelNeighbors::for_level(LEVELS_LEN - 1);
    assert_eq!(last.left, Some(LEVELS_LEN - 2));
    assert_eq!(last.right, None);
}

#[test]
fn level_neighbors_outside_the_strip_are_empty() {
    let n = LevelNeighbors::for_level(LEVELS_LEN);
    assert_eq!(n.left, None);
    assert_eq!(n.right, None);
    let far = LevelNeighbors::for_level(usize::MAX);
    assert_eq!(far.left, None);
    assert_eq!(far.right, None);
}

#[test]
fn room_graph_neighbors_by_name() {
    let g = RoomGraph::new();
    let mid = g.get_neighbors("room_1_0");
    assert_eq!(mid.left, Some("room_0_0"));
    assert_eq!(mid.right, Some("room_2_0"));
    assert_eq!(mid.up, None);
    assert_eq!(mid.down, None);
    let first = g.get_neighbors("room_0_0");
    assert_eq!(first.left, None);
    assert_eq!(first.right, Some("room_1_0"));
    let last = g.get_neighbors("room_2_0");
    assert_eq!(last.left, Some("room_1_0"));
    assert_eq!(last.right, None);
}

#[test]
fn room_graph_unknown_name_has_no_neighbors() {
    let g = RoomGraph::new();
    for name in ["room_9_9", "", "room_1_", "room_1_00"] {
        let n = g.get_neighbors(name);
        assert_eq!(n.left, None);
        assert_eq!(n.right, None);
        assert_eq!(n.up, None);
        assert_eq!(n.down, None);
    }
}

#[test]
fn room_graph_lists_all_rooms() {
    let g = RoomGraph::new();
    assert_eq!(g.all_rooms(), vec!["room_0_0", "room_1_0", "room_2_0"]);
    assert_eq!(g.zone_count(), 3);
    assert_eq!(g.index_of("room_2_0"), Some(2));
    assert_eq!(g.index_of("room_3_0"), None);
    assert_eq!(g.room_name(1), "room_1_0");
}

#[test]
fn room_graph_links_by_index() {
    let g = RoomGraph::new();
    assert_eq!(
        g.zone_links(1),
        ZoneLinks { left: Some(0), right: Some(2), up: None, down: None }
    );
    assert_eq!(g.zone_links(7), ZoneLinks::none());
}
