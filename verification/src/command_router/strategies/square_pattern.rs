//! Drives in a square.
//!
//! UDP payload: `{"action": "start", "params": {"speed": 1.0, "side_seconds": 3.0, "laps": 1}}`
use vstd::prelude::*;

use crate::command_router::strategies::{Script, Strategy, StrategyContext};
use crate::scalar::Scalar;

verus! {

/// 1 rev/s, as the bits of a single precision number.
pub const DEFAULT_SPEED: u32 = 0x3F80_0000;

/// 3 s, as the bits of a single precision number.
pub const DEFAULT_SIDE_SECONDS: u32 = 0x4040_0000;

/// 1 s, as the bits of a single precision number.
pub const DEFAULT_TURN_SECONDS: u32 = 0x3F80_0000;

pub const DEFAULT_LAPS: u32 = 1;

#[derive(Clone, Copy, Debug, PartialEq, Eq, Structural)]
pub struct SquarePattern;

impl Strategy for SquarePattern {
    open spec fn spec_name(&self) -> Seq<char> {
        "square_pattern"@
    }

    open spec fn spec_description(&self) -> Seq<char> {
        "Drive in a square — params: speed, side_seconds, turn_seconds, laps"@
    }

    fn name(&self) -> (r: &'static str) {
        "square_pattern"
    }

    fn description(&self) -> (r: &'static str) {
        "Drive in a square — params: speed, side_seconds, turn_seconds, laps"
    }
}

impl SquarePattern {
    /// The script that the parameters ask for.
    pub fn script(&self, ctx: &StrategyContext) -> (r: Script)
        ensures
            r == (Script::Square {
                speed: crate::command_router::strategies::scalar_or(
                    ctx.params@.double_at("speed"@),
                    Scalar::Single(DEFAULT_SPEED),
                ),
                side_seconds: crate::command_router::strategies::scalar_or(
                    ctx.params@.double_at("side_seconds"@),
                    Scalar::Single(DEFAULT_SIDE_SECONDS),
                ),
                turn_seconds: crate::command_router::strategies::scalar_or(
                    ctx.params@.double_at("turn_seconds"@),
                    Scalar::Single(DEFAULT_TURN_SECONDS),
                ),
                laps: crate::command_router::strategies::low_u32(
                    ctx.params@.u64_at("laps"@),
                    DEFAULT_LAPS,
                ),
            }),
    {
        Script::Square {
            speed: ctx.param_f32("speed", Scalar::Single(DEFAULT_SPEED)),
            side_seconds: ctx.param_f32("side_seconds", Scalar::Single(DEFAULT_SIDE_SECONDS)),
            turn_seconds: ctx.param_f32("turn_seconds", Scalar::Single(DEFAULT_TURN_SECONDS)),
            laps: ctx.param_u32("laps", DEFAULT_LAPS),
        }
    }
}

/// Where nothing is given, a square is driven once, at one revolution a second, with
/// three seconds for a side and one for a turn. A single has its exponent, from 127 on
/// for one, in the bits from the 24th on.
pub proof fn squares_have_defaults()
    ensures
        DEFAULT_LAPS == 1,
        DEFAULT_SPEED == 127 * 0x80_0000,
        DEFAULT_SIDE_SECONDS == 128 * 0x80_0000 + 0x40_0000,
        DEFAULT_TURN_SECONDS == 127 * 0x80_0000,
{
}

} // verus!
