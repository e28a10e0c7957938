//! The state of the arm, as it flows between the links.
use vstd::prelude::*;

use crate::json::{Json, JsonTree};
use crate::text::append_decimal;

verus! {

/// What the arm last reported. Numbers are the bits of doubles.
#[derive(Clone, Copy, Debug)]
pub struct ArmSnapshot {
    pub joint_pos_deg: [u64; 6],
    pub joint_vel_deg_s: [u64; 6],
    pub joint_current_a: [u64; 6],
    pub joint_temp_c: [u64; 6],
    pub bus_voltage: u64,
    pub bus_current: u64,
    pub timestamp_ns: i64,
}

/// The mathematical content of an [`ArmSnapshot`].
pub struct ArmView {
    pub joint_pos_deg: Seq<u64>,
    pub joint_vel_deg_s: Seq<u64>,
    pub joint_current_a: Seq<u64>,
    pub joint_temp_c: Seq<u64>,
    pub bus_voltage: u64,
    pub bus_current: u64,
    pub timestamp_ns: i64,
}

impl View for ArmSnapshot {
    type V = ArmView;

    open spec fn view(&self) -> ArmView {
        ArmView {
            joint_pos_deg: self.joint_pos_deg@,
            joint_vel_deg_s: self.joint_vel_deg_s@,
            joint_current_a: self.joint_current_a@,
            joint_temp_c: self.joint_temp_c@,
            bus_voltage: self.bus_voltage,
            bus_current: self.bus_current,
            timestamp_ns: self.timestamp_ns,
        }
    }
}

impl ArmView {
    /// The state before the first report: all zero.
    pub open spec fn unknown() -> ArmView {
        let zeros = Seq::new(6, |i: int| 0u64);
        ArmView {
            joint_pos_deg: zeros,
            joint_vel_deg_s: zeros,
            joint_current_a: zeros,
            joint_temp_c: zeros,
            bus_voltage: 0,
            bus_current: 0,
            timestamp_ns: 0,
        }
    }
}

/// The key of a reading of the joint that counts `n` from one.
pub open spec fn joint_key(n: int, what: Seq<char>) -> Seq<char> {
    "joint_"@ + crate::text::decimal(n as nat) + what
}

/// The reading of the joint in slot `i`.
pub open spec fn joint_reading(data: JsonTree, i: int, what: Seq<char>) -> Option<u64> {
    data.double_at(joint_key(i + 1, what))
}

/// A reading, or zero.
pub open spec fn or_zero(reading: Option<u64>) -> u64 {
    match reading {
        Some(bits) => bits,
        None => 0,
    }
}

/// The readings of all joints, zero where there is none.
pub open spec fn joint_readings(data: JsonTree, what: Seq<char>) -> Seq<u64> {
    Seq::new(6, |i: int| or_zero(joint_reading(data, i, what)))
}

/// The state that `data` reports; `None` where it holds no joint position at
/// all.
pub open spec fn arm_in(data: JsonTree) -> Option<ArmView> {
    if exists|i: int| 0 <= i < 6 && #[trigger] joint_reading(data, i, "_pos"@) is Some {
        Some(
            ArmView {
                joint_pos_deg: joint_readings(data, "_pos"@),
                joint_vel_deg_s: joint_readings(data, "_vel"@),
                joint_current_a: joint_readings(data, "_current"@),
                joint_temp_c: joint_readings(data, "_temp"@),
                bus_voltage: or_zero(data.double_at("bus_voltage"@)),
                bus_current: or_zero(data.double_at("bus_current"@)),
                timestamp_ns: match data.i64_at("timestamp_ns"@) {
                    Some(t) => t,
                    None => 0,
                },
            },
        )
    } else {
        None
    }
}

/// The key of a reading or a setting of the joint in slot `i`.
pub fn joint_key_text(i: usize, what: &str) -> (r: String)
    requires
        i < 6,
    ensures
        r@ == joint_key(i + 1, what@),
{
    let mut key = "joint_".to_owned();
    append_decimal(&mut key, i as u64 + 1);
    key.append(what);
    key
}

/// Reads what the joint in slot `i` reports.
fn read_joint(data: &Json, i: usize, what: &str) -> (r: Option<u64>)
    requires
        i < 6,
    ensures
        r == joint_reading(data@, i as int, what@),
{
    data.double_at(joint_key_text(i, what).as_str())
}

/// The bits of a reading, or zero.
fn bits_or_zero(reading: Option<u64>) -> (r: u64)
    ensures
        r == or_zero(reading),
{
    match reading {
        Some(bits) => bits,
        None => 0,
    }
}

impl Default for ArmSnapshot {
    fn default() -> (r: ArmSnapshot)
        ensures
            r@ == ArmView::unknown(),
    {
        let r = ArmSnapshot {
            joint_pos_deg: [0;6],
            joint_vel_deg_s: [0;6],
            joint_current_a: [0;6],
            joint_temp_c: [0;6],
            bus_voltage: 0,
            bus_current: 0,
            timestamp_ns: 0,
        };
        let ghost zeros = Seq::new(6, |i: int| 0u64);
        assert(r.joint_pos_deg@ =~= zeros);
        r
    }
}

impl ArmSnapshot {
    /// Reads the joints out of a data document of the arm. `None` where it holds
    /// no joint position: such a document is no report.
    pub fn from_kinova_json(v: &Json) -> (r: Option<ArmSnapshot>)
        ensures
            match r {
                Some(s) => arm_in(v@) == Some(s@),
                None => arm_in(v@) is None,
            },
    {
        let mut pos: [u64; 6] = [0;6];
        let mut vel: [u64; 6] = [0;6];
        let mut current: [u64; 6] = [0;6];
        let mut temp: [u64; 6] = [0;6];
        let mut got_any = false;
        for i in 0..6usize
            invariant
                forall|j: int| 0 <= j < i ==> #[trigger] pos@[j] == joint_readings(v@, "_pos"@)[j],
                forall|j: int| 0 <= j < i ==> #[trigger] vel@[j] == joint_readings(v@, "_vel"@)[j],
                forall|j: int|
                    0 <= j < i ==> #[trigger] current@[j] == joint_readings(v@, "_current"@)[j],
                forall|j: int| 0 <= j < i ==> #[trigger] temp@[j] == joint_readings(v@, "_temp"@)[j],
                got_any == exists|j: int|
                    0 <= j < i && #[trigger] joint_reading(v@, j, "_pos"@) is Some,
        {
            let p = read_joint(v, i, "_pos");
            if p.is_some() {
                got_any = true;
            }
            pos[i] = bits_or_zero(p);
            vel[i] = bits_or_zero(read_joint(v, i, "_vel"));
            current[i] = bits_or_zero(read_joint(v, i, "_current"));
            temp[i] = bits_or_zero(read_joint(v, i, "_temp"));
        }
        if !got_any {
            return None;
        }
        let s = ArmSnapshot {
            joint_pos_deg: pos,
            joint_vel_deg_s: vel,
            joint_current_a: current,
            joint_temp_c: temp,
            bus_voltage: bits_or_zero(v.double_at("bus_voltage")),
            bus_current: bits_or_zero(v.double_at("bus_current")),
            timestamp_ns: match v.i64_at("timestamp_ns") {
                Some(t) => t,
                None => 0,
            },
        };
        assert(s@.joint_pos_deg =~= joint_readings(v@, "_pos"@));
        assert(s@.joint_vel_deg_s =~= joint_readings(v@, "_vel"@));
        assert(s@.joint_current_a =~= joint_readings(v@, "_current"@));
        assert(s@.joint_temp_c =~= joint_readings(v@, "_temp"@));
        Some(s)
    }
}

/// A document is a report of the arm exactly if it holds the position of one of the
/// joints 1 to 6. What it says of a joint stands under the keys of that joint and
/// becomes the reading in its slot, joint 1 in the first one; what it does not say
/// is zero.
pub proof fn reports_are_read_joint_by_joint(data: JsonTree, joint: int)
    requires
        1 <= joint <= 6,
    ensures
        ({
            let name = "joint_"@ + seq![('0' as u32 + joint) as char];
            let number = |key: Seq<char>|
                match data.get(key) {
                    Some(JsonTree::Number(n)) => n.double,
                    _ => None,
                };
            let or_none = |reading: Option<u64>|
                match reading {
                    Some(bits) => bits,
                    None => 0u64,
                };
            &&& number(name + "_pos"@) is Some ==> arm_in(data) is Some
            &&& arm_in(data) matches Some(arm) ==> {
                &&& arm.joint_pos_deg.len() == 6
                &&& arm.joint_vel_deg_s.len() == 6
                &&& arm.joint_current_a.len() == 6
                &&& arm.joint_temp_c.len() == 6
                &&& arm.joint_pos_deg[joint - 1] == or_none(number(name + "_pos"@))
                &&& arm.joint_vel_deg_s[joint - 1] == or_none(number(name + "_vel"@))
                &&& arm.joint_current_a[joint - 1] == or_none(number(name + "_current"@))
                &&& arm.joint_temp_c[joint - 1] == or_none(number(name + "_temp"@))
                &&& arm.bus_voltage == or_none(number("bus_voltage"@))
                &&& arm.bus_current == or_none(number("bus_current"@))
                &&& arm.timestamp_ns == match data.get("timestamp_ns"@) {
                    Some(JsonTree::Number(n)) => match n.signed {
                        Some(t) => t,
                        None => 0,
                    },
                    _ => 0,
                }
            }
        }),
{
    let digit = ('0' as u32 + joint) as char;
    assert(crate::text::decimal(joint as nat) =~= seq![digit]);
    assert(joint_reading(data, joint - 1, "_pos"@) == data.double_at(
        "joint_"@ + seq![digit] + "_pos"@,
    ));
}

/// A document without the position of any of the six joints is no report.
pub proof fn reports_need_a_position(data: JsonTree)
    requires
        forall|joint: int|
            1 <= joint <= 6 ==> (#[trigger] data.double_at(
                "joint_"@ + seq![('0' as u32 + joint) as char] + "_pos"@,
            )) is None,
    ensures
        arm_in(data) is None,
{
    assert forall|i: int| 0 <= i < 6 implies !(#[trigger] joint_reading(data, i, "_pos"@)
        is Some) by {
        let joint = i + 1;
        assert(crate::text::decimal(joint as nat) =~= seq![('0' as u32 + joint) as char]);
        assert(data.double_at("joint_"@ + seq![('0' as u32 + joint) as char] + "_pos"@) is None);
    }
}

/// Before the first report every reading is zero.
pub proof fn nothing_is_known_before_the_first_report(slot: int)
    requires
        0 <= slot < 6,
    ensures
        ArmView::unknown().joint_pos_deg.len() == 6,
        ArmView::unknown().joint_pos_deg[slot] == 0,
        ArmView::unknown().joint_vel_deg_s[slot] == 0,
        ArmView::unknown().joint_current_a[slot] == 0,
        ArmView::unknown().joint_temp_c[slot] == 0,
        ArmView::unknown().bus_voltage == 0,
        ArmView::unknown().bus_current == 0,
        ArmView::unknown().timestamp_ns == 0,
{
}

} // verus!
