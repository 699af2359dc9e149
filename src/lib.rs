//! Streams a 2D world zone by zone around a single player: a static
//! adjacency graph, a cache that keeps the active zone and its neighbours
//! instantiated, and a controller that moves the player across zone edges
//! or through portals.


pub mod level_neighbors;
pub mod player;
pub mod portal;
pub mod room;
pub mod room_graph;
pub mod transition;
pub mod world;
pub mod zone_cache;
