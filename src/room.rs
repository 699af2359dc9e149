use vstd::prelude::*;

verus! {

/// Width of a room, in pixels.
pub const ROOM_WIDTH: i32 = 480;

/// Height of a room, in pixels.
pub const ROOM_HEIGHT: i32 = 270;

/// What to do with a room's debug outline.
#[derive(Copy, Clone, Debug, PartialEq, Eq, Structural)]
pub enum OutlineAction {
    /// Free the outline, if there is one.
    Remove,
    /// Show the outline there is.
    Show,
    /// Create an outline along the room's bounds.
    Create,
}

/// The outline is removed when bounds are not drawn, shown when it exists,
/// and created otherwise.
pub open spec fn spec_refresh_outline(debug_draw_bounds: bool, has_outline: bool) -> OutlineAction {
    if !debug_draw_bounds {
        OutlineAction::Remove
    } else if has_outline {
        OutlineAction::Show
    } else {
        OutlineAction::Create
    }
}

/// What to do with the outline.
pub fn refresh_outline(debug_draw_bounds: bool, has_outline: bool) -> (r: OutlineAction)
    ensures
        r == spec_refresh_outline(debug_draw_bounds, has_outline),
{
    if !debug_draw_bounds {
        OutlineAction::Remove
    } else if has_outline {
        OutlineAction::Show
    } else {
        OutlineAction::Create
    }
}

/// The corners of a room's bounds, clockwise from the origin.
pub fn outline_points() -> (r: Vec<(i32, i32)>)
    ensures
        r@ == seq![(0i32, 0i32), (ROOM_WIDTH, 0i32), (ROOM_WIDTH, ROOM_HEIGHT), (0i32, ROOM_HEIGHT)],
{
    let mut v: Vec<(i32, i32)> = Vec::new();
    v.push((0, 0));
    v.push((ROOM_WIDTH, 0));
    v.push((ROOM_WIDTH, ROOM_HEIGHT));
    v.push((0, ROOM_HEIGHT));
    assert(v@ =~= seq![(0i32, 0i32), (ROOM_WIDTH, 0i32), (ROOM_WIDTH, ROOM_HEIGHT), (0i32, ROOM_HEIGHT)]);
    v
}

/// A room's debug settings: whether its bounds are drawn, and whether it
/// has an outline now.
pub struct Room {
    debug_draw_bounds: bool,
    has_outline: bool,
}

impl Room {
    pub closed spec fn draws_bounds(&self) -> bool {
        self.debug_draw_bounds
    }

    pub closed spec fn outlined(&self) -> bool {
        self.has_outline
    }

    /// A room that draws its bounds and has no outline yet.
    pub fn new() -> (r: Self)
        ensures
            r.draws_bounds(),
            !r.outlined(),
    {
        Room { debug_draw_bounds: true, has_outline: false }
    }

    /// Sets whether the room's bounds are drawn.
    pub fn set_debug_draw_bounds(&mut self, on: bool)
        ensures
            final(self).draws_bounds() == on,
            final(self).outlined() == old(self).outlined(),
    {
        self.debug_draw_bounds = on;
    }

    /// Whether the room has an outline.
    pub fn has_outline(&self) -> (r: bool)
        ensures
            r == self.outlined(),
    {
        self.has_outline
    }

    /// Decides what to do with the outline, and records whether one exists
    /// afterwards.
    pub fn refresh(&mut self) -> (r: OutlineAction)
        ensures
            r == spec_refresh_outline(old(self).draws_bounds(), old(self).outlined()),
            final(self).draws_bounds() == old(self).draws_bounds(),
            final(self).outlined() == old(self).draws_bounds(),
    {
        let r = refresh_outline(self.debug_draw_bounds, self.has_outline);
        self.has_outline = self.debug_draw_bounds;
        r
    }
}

} // verus!
