//! The replicated actor model and the deterministic movement rule
//! used for client-side prediction.
//!
//! The server owns every actor; the client observes snapshots and,
//! for its own pawn, predicts movement locally. Prediction applies the
//! same pure rule the server applies, so the predicted position is
//! later confirmed rather than corrected.

use vstd::prelude::*;
use crate::input::Command;

verus! {

/// The three colors a point actor can carry.
#[derive(Clone, Copy, PartialEq, Eq, Structural, Debug)]
pub enum PointColor {
    Red,
    Blue,
    Yellow,
}

/// A point actor: a 2D position and a color.
#[derive(Clone, Copy, PartialEq, Eq, Structural, Debug)]
pub struct PointActor {
    pub x: u16,
    pub y: u16,
    pub color: PointColor,
}

/// A replicated actor: a tagged variant over the concrete actor
/// kinds. Currently the one kind is the point actor; matching stays
/// exhaustive so a new kind cannot be handled by accident.
#[derive(Clone, Copy, PartialEq, Eq, Structural, Debug)]
pub enum Actor {
    Point(PointActor),
}

/// How far one directional intent moves a pawn in one tick.
pub const MOVE_STEP: u16 = 3;

/// The x coordinate after one movement command: `a` steps left and
/// `d` steps right, each applied independently, wrapping at the
/// numeric bounds.
pub open spec fn moved_x(cmd: Command, x: u16) -> u16 {
    let after_a = if cmd.a { sub_wrap(x, MOVE_STEP) } else { x };
    if cmd.d { add_wrap(after_a, MOVE_STEP) } else { after_a }
}

/// The y coordinate after one movement command: `w` steps up and `s`
/// steps down, each applied independently, wrapping at the numeric
/// bounds.
pub open spec fn moved_y(cmd: Command, y: u16) -> u16 {
    let after_w = if cmd.w { add_wrap(y, MOVE_STEP) } else { y };
    if cmd.s { sub_wrap(after_w, MOVE_STEP) } else { after_w }
}

/// Addition on coordinates, wrapping at the numeric bounds.
pub open spec fn add_wrap(a: u16, b: u16) -> u16 {
    if a + b > u16::MAX {
        (a + b - 0x1_0000) as u16
    } else {
        (a + b) as u16
    }
}

/// Subtraction on coordinates, wrapping at the numeric bounds.
pub open spec fn sub_wrap(a: u16, b: u16) -> u16 {
    if a >= b {
        (a - b) as u16
    } else {
        (a + 0x1_0000 - b) as u16
    }
}

/// Applies the deterministic movement rule to a point actor in place:
/// a pure function of the current position and the four directional
/// intents, identical on client and server. The color is untouched.
pub fn process_command(cmd: &Command, actor: &mut PointActor)
    ensures
        final(actor).x == moved_x(*cmd, old(actor).x),
        final(actor).y == moved_y(*cmd, old(actor).y),
        final(actor).color == old(actor).color,
{
    if cmd.a {
        actor.x = wrapping_sub_u16(actor.x, MOVE_STEP);
    }
    if cmd.d {
        actor.x = wrapping_add_u16(actor.x, MOVE_STEP);
    }
    if cmd.w {
        actor.y = wrapping_add_u16(actor.y, MOVE_STEP);
    }
    if cmd.s {
        actor.y = wrapping_sub_u16(actor.y, MOVE_STEP);
    }
}

/// Executable wrapping addition matching `add_wrap`.
fn wrapping_add_u16(a: u16, b: u16) -> (r: u16)
    ensures
        r == add_wrap(a, b),
{
    if a <= u16::MAX - b {
        a + b
    } else {
        // a + b overflows by exactly a + b - 0x1_0000, which fits
        // because both addends are below 0x1_0000.
        b - (u16::MAX - a) - 1
    }
}

/// Executable wrapping subtraction matching `sub_wrap`.
fn wrapping_sub_u16(a: u16, b: u16) -> (r: u16)
    ensures
        r == sub_wrap(a, b),
{
    if a >= b {
        a - b
    } else {
        u16::MAX - (b - a) + 1
    }
}

} // verus!
