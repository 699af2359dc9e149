use vstd::prelude::*;

verus! {

/// Whether the player stands on the floor or is in the air.
#[derive(Copy, Clone, Debug, PartialEq, Eq, Structural)]
pub enum MotionState {
    Air,
    Floor,
}

/// What one physics step of the player does: the state it ends in, and
/// whether the player walks, jumps and moves during it.
#[derive(Copy, Clone, Debug, PartialEq, Eq, Structural)]
pub struct MotionStep {
    pub state: MotionState,
    pub walks: bool,
    pub jumps: bool,
    pub moves: bool,
}

/// A jump starts when it is asked for while the player is on the floor.
pub open spec fn spec_can_jump(jump_pressed: bool, on_floor: bool) -> bool {
    jump_pressed && on_floor
}

/// The animation for a player in `state`: on the floor, "walk" when it
/// moves sideways and "idle" when not; in the air, "fall" when it goes down
/// and "jump" when not.
pub open spec fn spec_animation(state: MotionState, walking: bool, falling: bool) -> Seq<char> {
    match state {
        MotionState::Floor => if walking {
            "walk"@
        } else {
            "idle"@
        },
        MotionState::Air => if falling {
            "fall"@
        } else {
            "jump"@
        },
    }
}

/// The animation for a player in `state`.
pub fn get_new_animation(state: MotionState, walking: bool, falling: bool) -> (r: &'static str)
    ensures
        r@ == spec_animation(state, walking, falling),
{
    proof {
        reveal_strlit("walk");
        reveal_strlit("idle");
        reveal_strlit("fall");
        reveal_strlit("jump");
    }
    match state {
        MotionState::Floor => if walking {
            "walk"
        } else {
            "idle"
        },
        MotionState::Air => if falling {
            "fall"
        } else {
            "jump"
        },
    }
}

/// One physics step from `state`. A player in the air that lands turns to
/// the floor state and does nothing else this step. Otherwise it walks, may
/// jump, and moves; a player on the floor that jumps goes into the air.
pub open spec fn spec_plan_step(state: MotionState, on_floor: bool, jump_pressed: bool) -> MotionStep {
    if state == MotionState::Air && on_floor {
        MotionStep { state: MotionState::Floor, walks: false, jumps: false, moves: false }
    } else {
        MotionStep {
            state: if state == MotionState::Floor && spec_can_jump(jump_pressed, on_floor) {
                MotionState::Air
            } else {
                state
            },
            walks: true,
            jumps: spec_can_jump(jump_pressed, on_floor),
            moves: true,
        }
    }
}

/// Plans one physics step from `state`.
pub fn plan_step(state: MotionState, on_floor: bool, jump_pressed: bool) -> (r: MotionStep)
    ensures
        r == spec_plan_step(state, on_floor, jump_pressed),
{
    match state {
        MotionState::Air => {
            if on_floor {
                return MotionStep { state: MotionState::Floor, walks: false, jumps: false, moves: false };
            }
            MotionStep { state: MotionState::Air, walks: true, jumps: false, moves: true }
        },
        MotionState::Floor => {
            let jumps = jump_pressed && on_floor;
            MotionStep {
                state: if jumps { MotionState::Air } else { MotionState::Floor },
                walks: true,
                jumps,
                moves: true,
            }
        },
    }
}

/// The player's own state between physics steps.
pub struct Player {
    state: MotionState,
}

impl Player {
    pub closed spec fn motion(&self) -> MotionState {
        self.state
    }

    /// A player that starts in the air.
    pub fn new() -> (r: Self)
        ensures
            r.motion() == MotionState::Air,
    {
        Player { state: MotionState::Air }
    }

    /// The current motion state.
    pub fn state(&self) -> (r: MotionState)
        ensures
            r == self.motion(),
    {
        self.state
    }

    /// Plans one physics step and takes its state.
    pub fn physics_process(&mut self, on_floor: bool, jump_pressed: bool) -> (r: MotionStep)
        ensures
            r == spec_plan_step(old(self).motion(), on_floor, jump_pressed),
            final(self).motion() == r.state,
    {
        let r = plan_step(self.state, on_floor, jump_pressed);
        self.state = r.state;
        r
    }

    /// The animation for the current state.
    pub fn animation(&self, walking: bool, falling: bool) -> (r: &'static str)
        ensures
            r@ == spec_animation(self.motion(), walking, falling),
    {
        get_new_animation(self.state, walking, falling)
    }
}

} // verus!
