//! The first-person camera: where it stands, where it looks, how fast it
//! moves.

use vstd::prelude::*;
use vstd::arithmetic::power2::lemma_pow2_pos;
use vstd::arithmetic::power2::lemma_pow2_unfold;
use vstd::arithmetic::power2::pow2;
use crate::input::InputView;
use crate::input::Key;
use crate::pattern::clamp_symmetric;
use crate::pattern::clamped;
use crate::pattern::exponent;
use crate::pattern::fraction;
use crate::pattern::is_nan;
use crate::pattern::lemma_magnitude_orders_values;
use crate::pattern::quanta;
use crate::pattern::within;
use crate::pattern::HALF_PI_BITS;
use crate::pattern::ONE_BITS;
use crate::pattern::ZERO_BITS;

verus! {

/// Walking speed, in world units per second.
pub const NORMAL_SPEED: u32 = 5;

/// Sprint speed, in world units per second.
pub const SPRINT_SPEED: u32 = 40;

/// How many times faster than walking a sprint is.
pub const SPRINT_RATIO: u32 = 8;

/// Pattern of 5.0, the walking speed.
pub const NORMAL_SPEED_BITS: u32 = 0x40a0_0000;

/// Pattern of 40.0, the sprint speed.
pub const SPRINT_SPEED_BITS: u32 = 0x4220_0000;

/// Pattern of 0.002: radians turned per unit of mouse motion.
pub const MOUSE_SENSITIVITY_BITS: u32 = 0x3b03_126f;

/// One of the two speeds at which the camera moves.
#[derive(Clone, Copy, Debug, PartialEq, Eq, Structural)]
pub enum SpeedLevel {
    Normal,
    Sprint,
}

impl SpeedLevel {
    /// The level that goes with the sprint key being down or up.
    pub open spec fn of(sprint: bool) -> SpeedLevel {
        if sprint {
            SpeedLevel::Sprint
        } else {
            SpeedLevel::Normal
        }
    }

    /// The speed in world units per second.
    pub open spec fn units(self) -> u32 {
        match self {
            SpeedLevel::Normal => NORMAL_SPEED,
            SpeedLevel::Sprint => SPRINT_SPEED,
        }
    }

    /// The speed as a single-precision bit pattern.
    pub open spec fn bits(self) -> u32 {
        match self {
            SpeedLevel::Normal => NORMAL_SPEED_BITS,
            SpeedLevel::Sprint => SPRINT_SPEED_BITS,
        }
    }

    /// The level that goes with the sprint key being down or up.
    pub fn from_sprint(sprint: bool) -> (level: SpeedLevel)
        ensures
            level == SpeedLevel::of(sprint),
    {
        if sprint {
            SpeedLevel::Sprint
        } else {
            SpeedLevel::Normal
        }
    }

    /// The speed in world units per second.
    pub fn units_per_second(self) -> (units: u32)
        ensures
            units == self.units(),
    {
        match self {
            SpeedLevel::Normal => NORMAL_SPEED,
            SpeedLevel::Sprint => SPRINT_SPEED,
        }
    }

    /// The speed as a single-precision bit pattern.
    pub fn to_bits(self) -> (bits: u32)
        ensures
            bits == self.bits(),
    {
        match self {
            SpeedLevel::Normal => NORMAL_SPEED_BITS,
            SpeedLevel::Sprint => SPRINT_SPEED_BITS,
        }
    }
}

/// The pattern of a speed level stands for its number of units: 5.0 and
/// 40.0, the second eight times the first.
pub proof fn lemma_speed_patterns(level: SpeedLevel)
    ensures
        quanta(level.bits()) == level.units() * quanta(ONE_BITS),
        quanta(SpeedLevel::Sprint.bits()) == SPRINT_RATIO * quanta(SpeedLevel::Normal.bits()),
{
    let p = pow2(126) as int;
    lemma_pow2_pos(126);
    lemma_pow2_unfold(127);
    lemma_pow2_unfold(128);
    lemma_pow2_unfold(129);
    lemma_pow2_unfold(130);
    lemma_pow2_unfold(131);
    assert(pow2(128) == 4 * p);
    assert(pow2(131) == 32 * p);
    assert(exponent(ONE_BITS) == 127 && fraction(ONE_BITS) == 0);
    assert(exponent(NORMAL_SPEED_BITS) == 129 && fraction(NORMAL_SPEED_BITS) == 0x20_0000);
    assert(exponent(SPRINT_SPEED_BITS) == 132 && fraction(SPRINT_SPEED_BITS) == 0x20_0000);
    assert(quanta(ONE_BITS) == 0x80_0000 * p);
    assert(quanta(NORMAL_SPEED_BITS) == 0xa0_0000 * (4 * p));
    assert(quanta(SPRINT_SPEED_BITS) == 0xa0_0000 * (32 * p));
    assert(0xa0_0000 * (4 * p) == 5 * (0x80_0000 * p)) by (nonlinear_arith);
    assert(0xa0_0000 * (32 * p) == 40 * (0x80_0000 * p)) by (nonlinear_arith);
}

/// The mouse sensitivity is a value between 0.0019999 and 0.0020001.
pub proof fn lemma_sensitivity_pattern()
    ensures
        19_999 * quanta(ONE_BITS) < 10_000_000 * quanta(MOUSE_SENSITIVITY_BITS),
        10_000_000 * quanta(MOUSE_SENSITIVITY_BITS) < 20_001 * quanta(ONE_BITS),
{
    let p = pow2(117) as int;
    lemma_pow2_pos(117);
    lemma_pow2_unfold(118);
    lemma_pow2_unfold(119);
    lemma_pow2_unfold(120);
    lemma_pow2_unfold(121);
    lemma_pow2_unfold(122);
    lemma_pow2_unfold(123);
    lemma_pow2_unfold(124);
    lemma_pow2_unfold(125);
    lemma_pow2_unfold(126);
    assert(pow2(126) == 512 * p);
    assert(exponent(ONE_BITS) == 127 && fraction(ONE_BITS) == 0);
    assert(exponent(MOUSE_SENSITIVITY_BITS) == 118 && fraction(MOUSE_SENSITIVITY_BITS)
        == 0x03_126f);
    assert(quanta(ONE_BITS) == 0x80_0000 * (512 * p));
    assert(quanta(MOUSE_SENSITIVITY_BITS) == 0x83_126f * p);
    assert(19_999 * (0x80_0000 * (512 * p)) < 10_000_000 * (0x83_126f * p)) by (nonlinear_arith)
        requires
            p > 0,
    ;
    assert(10_000_000 * (0x83_126f * p) < 20_001 * (0x80_0000 * (512 * p))) by (nonlinear_arith)
        requires
            p > 0,
    ;
}

/// The speed follows the sprint key at once, whatever was held before:
/// down is sprint speed, up is walking speed, and the first is the second
/// times `SPRINT_RATIO`, with nothing in between.
pub proof fn lemma_sprint_key_sets_speed(before: InputView, pressed: bool)
    ensures
        SpeedLevel::of(before.key(Key::LControl, pressed).sprint) == SpeedLevel::of(pressed),
        SpeedLevel::of(before.key(Key::LControl, true).sprint).units() == SPRINT_RATIO
            * SpeedLevel::of(before.key(Key::LControl, false).sprint).units(),
{
}

/// Position and orientation, each a single-precision bit pattern.
#[derive(Clone, Copy, Debug, PartialEq, Eq, Structural)]
pub struct Pose {
    /// Position along the three world axes; `y` points up.
    pub x: u32,
    pub y: u32,
    pub z: u32,
    /// Heading in radians; it grows without bound.
    pub yaw: u32,
    /// Elevation in radians.
    pub pitch: u32,
}

/// Whether a pitch is one that a camera can have: a value from -pi/2 to
/// pi/2, or a NaN, which no clamp can bring back into the range.
pub open spec fn pitch_settled(pitch: u32) -> bool {
    is_nan(pitch) || within(pitch, HALF_PI_BITS)
}

impl Pose {
    /// At the origin, looking along the z axis.
    pub open spec fn origin() -> Pose {
        Pose { x: ZERO_BITS, y: ZERO_BITS, z: ZERO_BITS, yaw: ZERO_BITS, pitch: ZERO_BITS }
    }

    /// The pose turned to `yaw` and to `pitch` clamped into -pi/2 to pi/2.
    pub open spec fn turned(self, yaw: u32, pitch: u32) -> Pose {
        Pose { yaw, pitch: clamped(pitch, HALF_PI_BITS), ..self }
    }

    /// The pose moved to the given position.
    pub open spec fn moved(self, x: u32, y: u32, z: u32) -> Pose {
        Pose { x, y, z, ..self }
    }

    /// The pose with its pitch clamped into -pi/2 to pi/2.
    pub open spec fn settled(self) -> Pose {
        Pose { pitch: clamped(self.pitch, HALF_PI_BITS), ..self }
    }
}

/// The pose after a sequence of turns, each the yaw and the pitch to turn
/// to.
pub open spec fn turned_through(pose: Pose, turns: Seq<(u32, u32)>) -> Pose
    decreases turns.len(),
{
    if turns.len() == 0 {
        pose
    } else {
        turned_through(pose, turns.drop_last()).turned(turns.last().0, turns.last().1)
    }
}

/// A settled pitch that is no NaN is a value from -pi/2 to pi/2.
pub proof fn lemma_settled_pitch_value(pitch: u32)
    requires
        pitch_settled(pitch),
        !is_nan(pitch),
    ensures
        quanta(pitch) <= quanta(HALF_PI_BITS),
{
    lemma_magnitude_orders_values(pitch, HALF_PI_BITS);
}

/// However the camera is turned, and however often, its pitch stays
/// settled; after a turn to a pitch that is no NaN it is a value from
/// -pi/2 to pi/2, however large the pitch that was asked for.
pub proof fn lemma_turns_keep_pitch_settled(pose: Pose, turns: Seq<(u32, u32)>)
    requires
        pitch_settled(pose.pitch),
    ensures
        pitch_settled(turned_through(pose, turns).pitch),
        turns.len() > 0 && !is_nan(turns.last().1) ==> within(
            turned_through(pose, turns).pitch,
            HALF_PI_BITS,
        ) && quanta(turned_through(pose, turns).pitch) <= quanta(HALF_PI_BITS),
    decreases turns.len(),
{
    if turns.len() > 0 {
        lemma_turns_keep_pitch_settled(pose, turns.drop_last());
        if !is_nan(turns.last().1) {
            lemma_settled_pitch_value(turned_through(pose, turns).pitch);
        }
    }
}

/// What a `CameraState` holds, as a plain value.
pub struct CameraView {
    pub pose: Pose,
    pub speed: SpeedLevel,
}

/// The camera. Its pitch is settled at all times.
pub struct CameraState {
    pose: Pose,
    speed: SpeedLevel,
}

impl View for CameraState {
    type V = CameraView;

    closed spec fn view(&self) -> CameraView {
        CameraView { pose: self.pose, speed: self.speed }
    }
}

impl CameraState {
    #[verifier::type_invariant]
    spec fn pitch_is_settled(self) -> bool {
        pitch_settled(self.pose.pitch)
    }

    /// A camera at the origin that looks along the z axis and walks.
    pub fn new() -> (camera: CameraState)
        ensures
            camera@ == (CameraView { pose: Pose::origin(), speed: SpeedLevel::Normal }),
    {
        CameraState {
            pose: Pose { x: ZERO_BITS, y: ZERO_BITS, z: ZERO_BITS, yaw: ZERO_BITS, pitch: ZERO_BITS },
            speed: SpeedLevel::Normal,
        }
    }

    /// The pose. Its pitch lies from -pi/2 to pi/2, unless it is a NaN.
    pub fn pose(&self) -> (pose: Pose)
        ensures
            pose == self@.pose,
            pitch_settled(pose.pitch),
    {
        proof {
            use_type_invariant(self);
        }
        self.pose
    }

    /// The speed level.
    pub fn speed(&self) -> (speed: SpeedLevel)
        ensures
            speed == self@.speed,
    {
        self.speed
    }

    /// Turns the camera to `yaw` and to `pitch`, the latter clamped into
    /// -pi/2 to pi/2: a pitch outside the range stops at the bound on its
    /// side, it does not wrap. Position and speed stay.
    pub fn turn_to(&mut self, yaw: u32, pitch: u32)
        ensures
            final(self)@.pose == old(self)@.pose.turned(yaw, pitch),
            final(self)@.speed == old(self)@.speed,
            !is_nan(pitch) ==> within(final(self)@.pose.pitch, HALF_PI_BITS),
    {
        let pose = self.pose;
        self.pose = Pose { yaw, pitch: clamp_symmetric(pitch, HALF_PI_BITS), ..pose };
    }

    /// Moves the camera to the given position. Orientation and speed stay.
    pub fn move_to(&mut self, x: u32, y: u32, z: u32)
        ensures
            final(self)@.pose == old(self)@.pose.moved(x, y, z),
            final(self)@.speed == old(self)@.speed,
    {
        proof {
            use_type_invariant(&*self);
        }
        let pose = self.pose;
        self.pose = Pose { x, y, z, ..pose };
    }

    /// Puts the camera where `pose` says, with the pitch clamped into
    /// -pi/2 to pi/2. The speed stays.
    pub fn set_pose(&mut self, pose: Pose)
        ensures
            final(self)@.pose == pose.settled(),
            final(self)@.speed == old(self)@.speed,
            !is_nan(pose.pitch) ==> within(final(self)@.pose.pitch, HALF_PI_BITS),
    {
        self.pose = Pose { pitch: clamp_symmetric(pose.pitch, HALF_PI_BITS), ..pose };
    }

    /// Sets the speed level. The pose stays.
    pub fn set_speed(&mut self, speed: SpeedLevel)
        ensures
            final(self)@.pose == old(self)@.pose,
            final(self)@.speed == speed,
    {
        proof {
            use_type_invariant(&*self);
        }
        self.speed = speed;
    }
}

} // verus!
