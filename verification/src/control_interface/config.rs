//! Configuration of the control interface.
use vstd::prelude::*;

verus! {

/// Configuration of the control interface.
#[derive(Debug)]
pub struct Config {
    pub teleop: TeleopCfg,
    pub ik_engine: IkEngineCfg,
    pub kinova: KinovaCfg,
    pub joint_map: Vec<JointMapEntry>,
}

/// The link to the operator.
#[derive(Debug)]
pub struct TeleopCfg {
    pub listen_host: String,
    pub listen_port: u16,
    /// Where telemetry goes; blank for the peer that last sent a control packet.
    pub telemetry_host: String,
    pub telemetry_port: u16,
    /// The bits of a double.
    pub telemetry_rate_hz: u64,
}

/// The link to the inverse kinematics engine.
#[derive(Debug)]
pub struct IkEngineCfg {
    pub host: String,
    pub joints_port: u16,
    pub twist_port: u16,
    pub velocs_listen_host: String,
    pub velocs_listen_port: u16,
    pub mode: String,
}

/// The link to the driver of the arm.
#[derive(Debug)]
pub struct KinovaCfg {
    pub api_host: String,
    pub data_port: u16,
    pub command_port: u16,
    pub subscribe_interval_ms: u32,
    /// The bits of a double.
    pub command_rate_hz: u64,
}

/// Pairs a joint of the kinematic chain with a joint of the arm.
#[derive(Debug)]
pub struct JointMapEntry {
    pub ik_id: String,
    /// The joint of the arm, counted from one.
    pub kinova_idx: u8,
    /// The angle in degrees that the arm reports at its physical home, as the
    /// bits of a single.
    pub home_deg: u32,
    /// Whether the two turn in opposite directions. Applied both ways: to the
    /// position on its way to the engine and to the velocity on its way back.
    pub invert: bool,
}

/// The number of joints of the arm.
pub const ARM_JOINTS: usize = 6;

impl JointMapEntry {
    /// The slot of the joint, counted from zero; `None` for a joint that the arm
    /// does not have. Joint zero stands for the first one.
    pub open spec fn slot_of(self) -> Option<int> {
        let idx = if self.kinova_idx == 0 {
            0int
        } else {
            self.kinova_idx - 1
        };
        if idx < ARM_JOINTS {
            Some(idx)
        } else {
            None
        }
    }

    /// The slot of the joint.
    pub fn slot(&self) -> (r: Option<usize>)
        ensures
            match r {
                Some(i) => i < ARM_JOINTS && self.slot_of() == Some(i as int),
                None => self.slot_of() is None,
            },
    {
        let idx = if self.kinova_idx == 0 {
            0usize
        } else {
            (self.kinova_idx - 1) as usize
        };
        if idx < ARM_JOINTS {
            Some(idx)
        } else {
            None
        }
    }
}

/// The joints of the arm count from one and their slots from zero: joint 1 has
/// slot 0, joint 6 has slot 5, and each joint between has the slot behind that of
/// the one before it. Joint zero stands for the first one, and from joint 7 on
/// there is none.
pub proof fn joints_count_from_one(entry: JointMapEntry)
    ensures
        1 <= entry.kinova_idx <= 6 ==> entry.slot_of() == Some(entry.kinova_idx - 1),
        entry.kinova_idx == 0 ==> entry.slot_of() == Some(0int),
        entry.kinova_idx > 6 ==> entry.slot_of() is None,
{
}

} // verus!
