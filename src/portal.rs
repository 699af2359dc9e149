use vstd::prelude::*;

use crate::world::PendingTransfer;

verus! {

/// What left a portal's trigger area.
#[derive(Copy, Clone, Debug, PartialEq, Eq, Structural)]
pub enum BodyKind {
    Player,
    Other,
}

/// A portal placed in a zone: it sends the player to `target_level`, at the
/// node named `spawn_point` if that is not empty. A target of zero means the
/// portal is not set up.
#[derive(Clone, Debug)]
pub struct LevelPortal {
    pub target_level: i64,
    pub spawn_point: String,
}

impl LevelPortal {
    /// A portal with no target and no spawn point.
    pub fn new() -> (r: Self)
        ensures
            r.target_level == 0,
            r.spawn_point@.len() == 0,
    {
        LevelPortal { target_level: 0, spawn_point: String::new() }
    }

    /// The request this portal makes when `body` leaves it, standing at
    /// (`offset_x`, `offset_y`) from the portal: none for anything but the
    /// player, or when the portal has no target.
    pub fn on_body_exited(&self, portal_id: i64, body: BodyKind, offset_x: i32, offset_y: i32) -> (r:
        Option<PendingTransfer>)
        ensures
            r is None <==> (body == BodyKind::Other || self.target_level == 0),
            r matches Some(t) ==> {
                &&& t.portal_id == portal_id
                &&& t.target_zone == self.target_level
                &&& t.offset_x == offset_x
                &&& t.offset_y == offset_y
                &&& (self.spawn_point@.len() == 0 ==> t.spawn_anchor is None)
                &&& (self.spawn_point@.len() > 0 ==> (t.spawn_anchor matches Some(s) && s@
                    == self.spawn_point@))
            },
    {
        if body != BodyKind::Player {
            return None;
        }
        if self.target_level == 0 {
            return None;
        }
        let spawn_anchor = if self.spawn_point.as_str().is_empty() {
            None
        } else {
            Some(self.spawn_point.clone())
        };
        Some(
            PendingTransfer {
                portal_id,
                target_zone: self.target_level,
                spawn_anchor,
                offset_x,
                offset_y,
            },
        )
    }
}

} // verus!
