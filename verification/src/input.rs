//! Latched keyboard intent.
//!
//! Six independent boolean axes are set by the event layer and read once
//! per frame: four movement keys combined into a move vector clamped to
//! unit length, and two rotation keys combined into an optional rotation
//! direction where pressing both means no rotation.

use vstd::prelude::*;

use crate::geometry::{Vec2Fx, FP_DIAG, FP_ONE};

verus! {

/// Direction of one yaw rotation step.
#[derive(Clone, Copy, PartialEq, Eq, Structural, Debug)]
pub enum RotationDirection {
    Left,
    Right,
}

/// The six key axes, each held as pressed or released.
#[derive(Clone, Copy, PartialEq, Eq, Structural, Debug)]
pub struct InputState {
    pub forward: bool,
    pub backward: bool,
    pub left: bool,
    pub right: bool,
    pub rot_left: bool,
    pub rot_right: bool,
}

impl Default for InputState {
    /// All keys released.
    fn default() -> (r: Self)
        ensures
            r == (InputState {
                forward: false,
                backward: false,
                left: false,
                right: false,
                rot_left: false,
                rot_right: false,
            }),
    {
        InputState {
            forward: false,
            backward: false,
            left: false,
            right: false,
            rot_left: false,
            rot_right: false,
        }
    }
}

impl InputState {
    pub fn forward(&mut self, movement: bool)
        ensures
            *final(self) == (InputState { forward: movement, ..*old(self) }),
    {
        self.forward = movement;
    }

    pub fn backward(&mut self, movement: bool)
        ensures
            *final(self) == (InputState { backward: movement, ..*old(self) }),
    {
        self.backward = movement;
    }

    pub fn left(&mut self, movement: bool)
        ensures
            *final(self) == (InputState { left: movement, ..*old(self) }),
    {
        self.left = movement;
    }

    pub fn right(&mut self, movement: bool)
        ensures
            *final(self) == (InputState { right: movement, ..*old(self) }),
    {
        self.right = movement;
    }

    pub fn rot_left(&mut self, movement: bool)
        ensures
            *final(self) == (InputState { rot_left: movement, ..*old(self) }),
    {
        self.rot_left = movement;
    }

    pub fn rot_right(&mut self, movement: bool)
        ensures
            *final(self) == (InputState { rot_right: movement, ..*old(self) }),
    {
        self.rot_right = movement;
    }

    /// Release every key.
    pub fn clear(&mut self)
        ensures
            *final(self) == InputState::default_spec(),
    {
        self.forward = false;
        self.backward = false;
        self.left = false;
        self.right = false;
        self.rot_left = false;
        self.rot_right = false;
    }

    /// The state with every key released.
    pub open spec fn default_spec() -> InputState {
        InputState {
            forward: false,
            backward: false,
            left: false,
            right: false,
            rot_left: false,
            rot_right: false,
        }
    }

    /// Forward counts `+1`, backward `-1` on the first axis.
    pub open spec fn axis_x(self) -> int {
        (if self.forward { 1int } else { 0int }) + (if self.backward { -1int } else { 0int })
    }

    /// Left counts `-1`, right `+1` on the second axis.
    pub open spec fn axis_y(self) -> int {
        (if self.left { -1int } else { 0int }) + (if self.right { 1int } else { 0int })
    }

    /// The move vector: the raw axis vector where it is not longer than one
    /// unit, and the unit-length diagonal where both axes are active.
    pub open spec fn move_vec_spec(self) -> Vec2Fx {
        if self.axis_x() != 0 && self.axis_y() != 0 {
            Vec2Fx { x: (self.axis_x() * FP_DIAG) as i64, y: (self.axis_y() * FP_DIAG) as i64 }
        } else {
            Vec2Fx { x: (self.axis_x() * FP_ONE) as i64, y: (self.axis_y() * FP_ONE) as i64 }
        }
    }

    /// Combine the four movement keys into a fixed-point move vector,
    /// clamped to unit length.
    pub fn move_vec(&self) -> (r: Vec2Fx)
        ensures
            r == self.move_vec_spec(),
    {
        let x: i64 = (if self.forward { 1i64 } else { 0i64 })
            + (if self.backward { -1i64 } else { 0i64 });
        let y: i64 = (if self.left { -1i64 } else { 0i64 })
            + (if self.right { 1i64 } else { 0i64 });
        if x != 0 && y != 0 {
            Vec2Fx { x: x * FP_DIAG, y: y * FP_DIAG }
        } else {
            Vec2Fx { x: x * FP_ONE, y: y * FP_ONE }
        }
    }

    /// Combine the rotation keys: both pressed (or neither) means no
    /// rotation; otherwise the pressed side wins.
    pub fn rot_dir(&self) -> (r: Option<RotationDirection>)
        ensures
            r == self.rot_dir_spec(),
            self.rot_left && self.rot_right ==> r is None,
    {
        match (self.rot_left, self.rot_right) {
            (true, true) => None,
            (true, false) => Some(RotationDirection::Left),
            (false, true) => Some(RotationDirection::Right),
            (false, false) => None,
        }
    }

    pub open spec fn rot_dir_spec(self) -> Option<RotationDirection> {
        if self.rot_left && !self.rot_right {
            Some(RotationDirection::Left)
        } else if self.rot_right && !self.rot_left {
            Some(RotationDirection::Right)
        } else {
            None
        }
    }
}

/// The move vector never exceeds unit length, and with two perpendicular
/// movement keys held it still has (fixed-point) unit length — within one
/// fixed-point step of exactly one unit — rather than length `sqrt(2)`.
pub proof fn lemma_move_vec_clamped(s: InputState)
    ensures
        s.move_vec_spec().x * s.move_vec_spec().x + s.move_vec_spec().y * s.move_vec_spec().y
            <= FP_ONE * FP_ONE,
        s.axis_x() != 0 && s.axis_y() != 0 ==> s.move_vec_spec().x * s.move_vec_spec().x
            + s.move_vec_spec().y * s.move_vec_spec().y > (FP_ONE - 1) * (FP_ONE - 1),
{
    let v = s.move_vec_spec();
    if s.axis_x() != 0 && s.axis_y() != 0 {
        assert(v.x == FP_DIAG || v.x == -FP_DIAG);
        assert(v.y == FP_DIAG || v.y == -FP_DIAG);
        assert(v.x * v.x + v.y * v.y == 2 * FP_DIAG * FP_DIAG) by (nonlinear_arith)
            requires
                v.x == FP_DIAG || v.x == -FP_DIAG,
                v.y == FP_DIAG || v.y == -FP_DIAG;
    } else {
        assert(v.x == FP_ONE || v.x == -FP_ONE || v.x == 0);
        assert(v.y == FP_ONE || v.y == -FP_ONE || v.y == 0);
        assert(v.x == 0 || v.y == 0);
        assert(v.x * v.x + v.y * v.y <= FP_ONE * FP_ONE) by (nonlinear_arith)
            requires
                v.x == FP_ONE || v.x == -FP_ONE || v.x == 0,
                v.y == FP_ONE || v.y == -FP_ONE || v.y == 0,
                v.x == 0 || v.y == 0;
    }
}

} // verus!
