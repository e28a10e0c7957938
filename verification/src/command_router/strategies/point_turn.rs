//! Turns in place by a number of degrees.
//!
//! UDP payload: `{"action": "start", "params": {"degrees": 90, "speed": 1.0}}`
use vstd::prelude::*;

use crate::command_router::strategies::{Script, Strategy, StrategyContext};
use crate::scalar::Scalar;

verus! {

/// 90 degrees, as the bits of a single precision number.
pub const DEFAULT_DEGREES: u32 = 0x42B4_0000;

/// 1 rev/s, as the bits of a single precision number.
pub const DEFAULT_SPEED: u32 = 0x3F80_0000;

#[derive(Clone, Copy, Debug, PartialEq, Eq, Structural)]
pub struct PointTurn;

impl Strategy for PointTurn {
    open spec fn spec_name(&self) -> Seq<char> {
        "point_turn"@
    }

    open spec fn spec_description(&self) -> Seq<char> {
        "Rotate in place — params: degrees, speed"@
    }

    fn name(&self) -> (r: &'static str) {
        "point_turn"
    }

    fn description(&self) -> (r: &'static str) {
        "Rotate in place — params: degrees, speed"
    }
}

impl PointTurn {
    /// The angle to turn by, and the speed.
    pub fn params(&self, ctx: &StrategyContext) -> (r: (Scalar, Scalar))
        ensures
            r.0 == crate::command_router::strategies::scalar_or(
                ctx.params@.double_at("degrees"@),
                Scalar::Single(DEFAULT_DEGREES),
            ),
            r.1 == crate::command_router::strategies::scalar_or(
                ctx.params@.double_at("speed"@),
                Scalar::Single(DEFAULT_SPEED),
            ),
    {
        (
            ctx.param_f32("degrees", Scalar::Single(DEFAULT_DEGREES)),
            ctx.param_f32("speed", Scalar::Single(DEFAULT_SPEED)),
        )
    }

    /// The script of a turn at an absolute speed: the sides run against each
    /// other for the given time. `positive` says that the angle is not negative.
    pub fn script(&self, speed: Scalar, positive: bool, seconds: Scalar) -> (r: Script)
        ensures
            r == (if positive {
                Script::Turn { left: speed, right: speed.negative(), seconds }
            } else {
                Script::Turn { left: speed.negative(), right: speed, seconds }
            }),
    {
        if positive {
            Script::Turn { left: speed, right: speed.negated(), seconds }
        } else {
            Script::Turn { left: speed.negated(), right: speed, seconds }
        }
    }
}

/// Where nothing is given, the robot turns by 90 degrees, at one revolution a second. A
/// single has its exponent, from 127 on for one, in the bits from the 24th on: 90 is 64
/// and 26 parts in 64 of that.
pub proof fn turns_have_defaults()
    ensures
        DEFAULT_DEGREES == (127 + 6) * 0x80_0000 + 26 * 0x2_0000,
        DEFAULT_SPEED == 127 * 0x80_0000,
{
}

} // verus!
