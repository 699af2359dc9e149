use vstd::prelude::*;

verus! {

/// Frames during which the portal a player arrived at ignores that player.
pub const PORTAL_COOLDOWN_FRAMES: u32 = 6;

/// When a player standing over a zone's edge is moved to the neighbour.
///
/// The player's footprint is `player_width` wide and centred on its
/// position; it overflows the zone by how far its edge lies past the zone's
/// edge. A crossing needs a positive overflow of at least
/// `threshold_num / threshold_den` of the footprint and, when
/// `velocity_gate` is set, a velocity toward the edge.
#[derive(Copy, Clone, Debug, PartialEq, Eq, Structural)]
pub struct CrossingRules {
    pub zone_width: i32,
    pub player_width: i32,
    pub threshold_num: i32,
    pub threshold_den: i32,
    pub velocity_gate: bool,
}

/// The side of the zone a player leaves by.
#[derive(Copy, Clone, Debug, PartialEq, Eq, Structural)]
pub enum HorizontalDirection {
    Left,
    Right,
}

impl CrossingRules {
    /// Widths are positive and the threshold is a non-negative fraction.
    pub open spec fn wf(self) -> bool {
        &&& 0 < self.zone_width
        &&& 0 < self.player_width
        &&& 0 <= self.threshold_num
        &&& 0 < self.threshold_den
    }

    /// Whether an overflow of `twice_overflow / 2` triggers a crossing: it is
    /// positive and its ratio to the player width reaches the threshold.
    pub open spec fn triggers(self, twice_overflow: int) -> bool {
        &&& twice_overflow > 0
        &&& twice_overflow * self.threshold_den >= 2 * self.threshold_num * self.player_width
    }

    /// Twice the overflow past the right edge of a player at `x`:
    /// `2 * (x + player_width / 2 - zone_width)`.
    pub open spec fn twice_overflow_right(self, x: int) -> int {
        2 * x + self.player_width - 2 * self.zone_width
    }

    /// Twice the overflow past the left edge of a player at `x`:
    /// `2 * (0 - (x - player_width / 2))`.
    pub open spec fn twice_overflow_left(self, x: int) -> int {
        self.player_width - 2 * x
    }

    /// Whether a player at `x` with velocity `vx` crosses the right edge.
    pub open spec fn spec_crosses_right(self, x: int, vx: int) -> bool {
        self.triggers(self.twice_overflow_right(x)) && (!self.velocity_gate || vx > 0)
    }

    /// Whether a player at `x` with velocity `vx` crosses the left edge.
    pub open spec fn spec_crosses_left(self, x: int, vx: int) -> bool {
        self.triggers(self.twice_overflow_left(x)) && (!self.velocity_gate || vx < 0)
    }

    /// Zones 480 wide, a player 16 wide, half the footprint over the edge,
    /// and a velocity toward the edge.
    pub fn standard() -> (r: Self)
        ensures
            r == (CrossingRules {
                zone_width: 480,
                player_width: 16,
                threshold_num: 1,
                threshold_den: 2,
                velocity_gate: true,
            }),
            r.wf(),
    {
        CrossingRules {
            zone_width: 480,
            player_width: 16,
            threshold_num: 1,
            threshold_den: 2,
            velocity_gate: true,
        }
    }

    /// The standard rules, measured in units of `1 / units_per_pixel` of a
    /// pixel.
    pub fn standard_scaled(units_per_pixel: i32) -> (r: Self)
        requires
            1 <= units_per_pixel <= 0x10000,
        ensures
            r == (CrossingRules {
                zone_width: (480 * units_per_pixel) as i32,
                player_width: (16 * units_per_pixel) as i32,
                threshold_num: 1,
                threshold_den: 2,
                velocity_gate: true,
            }),
            r.wf(),
    {
        CrossingRules {
            zone_width: 480 * units_per_pixel,
            player_width: 16 * units_per_pixel,
            threshold_num: 1,
            threshold_den: 2,
            velocity_gate: true,
        }
    }

    /// Whether an overflow of `twice_overflow / 2` triggers a crossing.
    pub fn should_trigger_transition(&self, twice_overflow: i64) -> (r: bool)
        requires
            self.wf(),
        ensures
            r == self.triggers(twice_overflow as int),
    {
        if twice_overflow <= 0 {
            return false;
        }
        proof {
            let t = twice_overflow as int;
            let d = self.threshold_den as int;
            let n = self.threshold_num as int;
            let w = self.player_width as int;
            assert(0 < t * d <= 0x7fff_ffff_ffff_ffff * 0x7fff_ffff) by (nonlinear_arith)
                requires
                    0 < t <= 0x7fff_ffff_ffff_ffff,
                    0 < d <= 0x7fff_ffff,
            ;
            assert(0 <= 2 * n * w <= 2 * 0x7fff_ffff * 0x7fff_ffff) by (nonlinear_arith)
                requires
                    0 <= n <= 0x7fff_ffff,
                    0 < w <= 0x7fff_ffff,
            ;
        }
        let lhs: i128 = twice_overflow as i128 * self.threshold_den as i128;
        let rhs: i128 = 2 * self.threshold_num as i128 * self.player_width as i128;
        lhs >= rhs
    }

    /// Whether a player at `x` with velocity `vx` crosses the right edge.
    pub fn crosses_right(&self, x: i32, vx: i32) -> (r: bool)
        requires
            self.wf(),
        ensures
            r == self.spec_crosses_right(x as int, vx as int),
    {
        let twice: i64 = 2 * x as i64 + self.player_width as i64 - 2 * self.zone_width as i64;
        (!self.velocity_gate || vx > 0) && self.should_trigger_transition(twice)
    }

    /// Whether a player at `x` with velocity `vx` crosses the left edge.
    pub fn crosses_left(&self, x: i32, vx: i32) -> (r: bool)
        requires
            self.wf(),
        ensures
            r == self.spec_crosses_left(x as int, vx as int),
    {
        let twice: i64 = self.player_width as i64 - 2 * x as i64;
        (!self.velocity_gate || vx < 0) && self.should_trigger_transition(twice)
    }

    /// How far a player's position moves when it leaves by `dir`: back by
    /// one zone width on the right, forward by one on the left.
    pub fn shift_for(&self, dir: HorizontalDirection) -> (r: i32)
        requires
            self.wf(),
        ensures
            r as int == (match dir {
                HorizontalDirection::Right => -self.zone_width,
                HorizontalDirection::Left => self.zone_width as int,
            }),
    {
        match dir {
            HorizontalDirection::Right => -self.zone_width,
            HorizontalDirection::Left => self.zone_width,
        }
    }
}

/// A node of a zone instance as seen when placing an arriving player: its
/// position, and the id of the portal it is, if it is one.
#[derive(Copy, Clone, Debug, PartialEq, Eq, Structural)]
pub struct SceneNode {
    pub x: i32,
    pub y: i32,
    pub portal_id: Option<i64>,
}

/// Whether `i` is the first portal of `nodes`.
pub open spec fn is_first_portal(nodes: Seq<SceneNode>, i: int) -> bool {
    &&& 0 <= i < nodes.len()
    &&& nodes[i].portal_id is Some
    &&& forall|j: int| 0 <= j < i ==> (#[trigger] nodes[j]).portal_id is None
}

/// The anchor of an arrival: the named node if it was found; else the first
/// portal of the zone's nodes in depth-first order; else the zone's origin.
pub open spec fn spec_spawn_anchor(
    named: Option<SceneNode>,
    nodes: Seq<SceneNode>,
    origin: SceneNode,
) -> SceneNode {
    match named {
        Some(n) => n,
        None => if exists|i: int| is_first_portal(nodes, i) {
            nodes[choose|i: int| is_first_portal(nodes, i)]
        } else {
            origin
        },
    }
}

/// Where an arriving player is placed: the named node if it was found, else
/// the first portal among `nodes` (the zone's nodes in depth-first order),
/// else `origin`.
pub fn resolve_spawn_anchor(named: Option<SceneNode>, nodes: &Vec<SceneNode>, origin: SceneNode) -> (r:
    SceneNode)
    ensures
        r == spec_spawn_anchor(named, nodes@, origin),
        named is None ==> forall|i: int| is_first_portal(nodes@, i) ==> r == nodes@[i],
{
    proof {
        assert forall|i: int, j: int|
            is_first_portal(nodes@, i) && is_first_portal(nodes@, j) implies i == j by {
            if i < j {
                assert(nodes@[i].portal_id is None);
            } else if j < i {
                assert(nodes@[j].portal_id is None);
            }
        }
    }
    if named.is_some() {
        return named.unwrap();
    }
    let mut i: usize = 0;
    while i < nodes.len()
        invariant
            named is None,
            i <= nodes@.len(),
            forall|j: int| 0 <= j < i ==> (#[trigger] nodes@[j]).portal_id is None,
        decreases nodes@.len() - i,
    {
        if nodes[i].portal_id.is_some() {
            proof {
                assert(is_first_portal(nodes@, i as int));
                assert(exists|k: int| is_first_portal(nodes@, k));
                let c = choose|c: int| is_first_portal(nodes@, c);
                assert(is_first_portal(nodes@, c));
                assert(c == i);
            }
            return nodes[i];
        }
        i = i + 1;
    }
    proof {
        assert forall|k: int| !is_first_portal(nodes@, k) by {
            if 0 <= k < nodes@.len() {
                assert(nodes@[k].portal_id is None);
            }
        }
    }
    origin
}

/// The portal that ignores the player, and for how many more frames.
#[derive(Copy, Clone, Debug, PartialEq, Eq, Structural)]
pub struct Cooldown {
    pub portal_id: i64,
    pub frames_remaining: u32,
}

/// One frame of a cooldown: a cooldown with frames left loses one; one with
/// none left ends.
pub open spec fn spec_step_cooldown(c: Option<Cooldown>) -> Option<Cooldown> {
    match c {
        Some(k) => if k.frames_remaining == 0 {
            None
        } else {
            Some(Cooldown { portal_id: k.portal_id, frames_remaining: (k.frames_remaining - 1) as u32 })
        },
        None => None,
    }
}

/// Advances a cooldown by one frame.
pub fn step_cooldown(c: Option<Cooldown>) -> (r: Option<Cooldown>)
    ensures
        r == spec_step_cooldown(c),
{
    match c {
        Some(k) => if k.frames_remaining == 0 {
            None
        } else {
            Some(Cooldown { portal_id: k.portal_id, frames_remaining: k.frames_remaining - 1 })
        },
        None => None,
    }
}

/// The cooldown armed when a player arrives at `anchor`: on its portal, if
/// it is one; none otherwise.
pub open spec fn spec_arrival_cooldown(anchor: SceneNode) -> Option<Cooldown> {
    match anchor.portal_id {
        Some(p) => Some(Cooldown { portal_id: p, frames_remaining: PORTAL_COOLDOWN_FRAMES }),
        None => None,
    }
}

/// The state of a cooldown after `n` frames.
pub open spec fn cooldown_after(c: Option<Cooldown>, n: nat) -> Option<Cooldown>
    decreases n,
{
    if n == 0 {
        c
    } else {
        spec_step_cooldown(cooldown_after(c, (n - 1) as nat))
    }
}

/// A portal ignores the player on each of the first frames after the player
/// arrives at it, as many as the cooldown lasts, and no longer after them:
/// after `n` frames the cooldown still names the portal while `n` is at most
/// its length, and has ended once `n` is past it.
pub proof fn cooldown_window(p: i64, n: nat)
    ensures
        n <= PORTAL_COOLDOWN_FRAMES ==> cooldown_after(
            spec_arrival_cooldown(SceneNode { x: 0, y: 0, portal_id: Some(p) }),
            n,
        ) == Some(Cooldown { portal_id: p, frames_remaining: (PORTAL_COOLDOWN_FRAMES - n) as u32 }),
        n > PORTAL_COOLDOWN_FRAMES ==> cooldown_after(
            spec_arrival_cooldown(SceneNode { x: 0, y: 0, portal_id: Some(p) }),
            n,
        ) is None,
    decreases n,
{
    if n > 0 {
        cooldown_window(p, (n - 1) as nat);
    }
}

} // verus!
