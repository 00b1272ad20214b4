//! Control primitives: the steering ramp, pose-gated travel and the
//! visual-servo autopilot.
//!
//! Quantities are fixed-point integers: positions in micrometres, angles in
//! microradians, velocities in micro-units per second, image coordinates in
//! millionths of the image's size, and steering angles in millionths of the
//! servo's unit.
use vstd::prelude::*;

verus! {

/// One million: the fixed-point scale.
pub const MICRO: i64 = 1_000_000;

/// A 2D pose: position in micrometres and heading in microradians.
#[derive(Clone, Copy, Debug, PartialEq, Eq, Structural)]
pub struct Pose {
    pub x: i32,
    pub y: i32,
    pub theta: i32,
}

/// Desired body-frame velocities: micrometres and microradians per second.
#[derive(Clone, Copy, Debug, PartialEq, Eq, Structural)]
pub struct MotionCommand {
    pub linear: i64,
    pub angular: i64,
}

/// The command that stops the robot.
pub open spec fn zero_command() -> MotionCommand {
    MotionCommand { linear: 0, angular: 0 }
}

impl MotionCommand {
    /// The command that stops the robot.
    pub fn zero() -> (r: MotionCommand)
        ensures
            r == zero_command(),
    {
        MotionCommand { linear: 0, angular: 0 }
    }
}

// ---------------------------------------------------------------------------
// Steering ramp
/// Where an angle moves in one tick toward `target` when it may move at most
/// `step`: by `step` toward the target, or onto it when it is that close.
pub open spec fn ramp_toward(angle: int, target: int, step: int) -> int {
    if target - angle > step {
        angle + step
    } else if angle - target > step {
        angle - step
    } else {
        target
    }
}

/// The angle after `n` ticks of the same target and step.
pub open spec fn ramp_after(angle: int, target: int, step: int, n: nat) -> int
    decreases n,
{
    if n == 0 {
        angle
    } else {
        ramp_after(ramp_toward(angle, target, step), target, step, (n - 1) as nat)
    }
}

/// The most the angle moves in `dt_us` microseconds at `max_rate` millionths
/// of a unit per second.
pub open spec fn step_limit(max_rate: u32, dt_us: u32) -> int {
    (max_rate as int * dt_us as int) / 1_000_000
}

/// A rate-limited steering angle.
pub struct SteeringRamp {
    angle: i64,
    max_rate: u32,
}

impl SteeringRamp {
    pub closed spec fn spec_angle(&self) -> int {
        self.angle as int
    }

    pub closed spec fn spec_max_rate(&self) -> u32 {
        self.max_rate
    }

    /// A ramp standing at `angle` that moves at most `max_rate` millionths of a
    /// unit per second.
    pub fn new(angle: i64, max_rate: u32) -> (r: SteeringRamp)
        ensures
            r.spec_angle() == angle,
            r.spec_max_rate() == max_rate,
    {
        SteeringRamp { angle, max_rate }
    }

    /// The current angle.
    pub fn angle(&self) -> (r: i64)
        ensures
            r == self.spec_angle(),
    {
        self.angle
    }

    /// Advances the angle toward `target` over `dt_us` microseconds and
    /// returns the new angle, which is published downstream.
    pub fn tick(&mut self, target: i64, dt_us: u32) -> (r: i64)
        ensures
            final(self).spec_angle() == ramp_toward(
                old(self).spec_angle(),
                target as int,
                step_limit(old(self).spec_max_rate(), dt_us),
            ),
            final(self).spec_max_rate() == old(self).spec_max_rate(),
            r == final(self).spec_angle(),
    {
        assert(0 <= self.max_rate as int * dt_us as int <= 0xffff_ffff * 0xffff_ffff)
            by (nonlinear_arith)
            requires
                self.max_rate <= 0xffff_ffff,
                dt_us <= 0xffff_ffff,
        ;
        let step: u64 = (self.max_rate as u64 * dt_us as u64) / 1_000_000;
        let step = step as i128;
        let angle = self.angle as i128;
        let target_w = target as i128;
        let next: i128 = if target_w - angle > step {
            angle + step
        } else if angle - target_w > step {
            angle - step
        } else {
            target_w
        };
        self.angle = next as i64;
        self.angle
    }
}

/// A tick never carries the angle past the target, nor further than the step.
pub proof fn lemma_ramp_tick_bounded(angle: int, target: int, step: int)
    requires
        step >= 0,
    ensures
        ({
            let next = ramp_toward(angle, target, step);
            &&& (angle <= target ==> angle <= next <= target)
            &&& (angle >= target ==> target <= next <= angle)
            &&& -step <= next - angle <= step
        }),
{
}

/// A ramp that starts within `n` steps of its target stands on the target
/// after `n` ticks, and stays there.
pub proof fn lemma_ramp_converges(angle: int, target: int, step: int, n: nat)
    requires
        step >= 0,
        -(n * step) <= target - angle <= n * step,
    ensures
        ramp_after(angle, target, step, n) == target,
    decreases n,
{
    if n == 0 {
        assert(n * step == 0) by (nonlinear_arith)
            requires
                n == 0,
        ;
    } else {
        let next = ramp_toward(angle, target, step);
        let m = (n - 1) as nat;
        assert(n * step == m * step + step) by (nonlinear_arith)
            requires
                m == n - 1,
        ;
        assert(m * step >= 0) by (nonlinear_arith)
            requires
                step >= 0,
        ;
        assert(-(m * step) <= target - next <= m * step);
        lemma_ramp_converges(next, target, step, m);
        assert(ramp_after(angle, target, step, n) == ramp_after(next, target, step, m));
    }
}

// ---------------------------------------------------------------------------
// Pose-gated travel
/// The forward speed of a pose-gated travel, in micrometres per second.
pub const TRAVEL_SPEED: i64 = 10_000;

/// Whether `pose` lies further than `threshold` micrometres, in a straight
/// line, from `baseline`.
pub open spec fn beyond(baseline: Pose, pose: Pose, threshold: int) -> bool {
    let dx = pose.x as int - baseline.x as int;
    let dy = pose.y as int - baseline.y as int;
    threshold < 0 || dx * dx + dy * dy > threshold * threshold
}

/// A travel of a fixed distance, stopped by pose updates.
pub struct Travel {
    baseline: Pose,
    distance: u32,
    tolerance: u32,
    stopped: bool,
}

impl Travel {
    pub closed spec fn spec_baseline(&self) -> Pose {
        self.baseline
    }

    pub closed spec fn spec_threshold(&self) -> int {
        self.distance - self.tolerance
    }

    pub closed spec fn spec_stopped(&self) -> bool {
        self.stopped
    }

    /// The command that starts a travel.
    pub open spec fn forward() -> MotionCommand {
        MotionCommand { linear: TRAVEL_SPEED, angular: 0 }
    }

    /// Starts a travel of `distance` micrometres from `baseline`; it stops
    /// once the robot is further than `distance - tolerance` from there. The
    /// command returned is to be published now.
    pub fn start(baseline: Pose, distance: u32, tolerance: u32) -> (r: (Travel, MotionCommand))
        ensures
            r.0.spec_baseline() == baseline,
            r.0.spec_threshold() == distance - tolerance,
            !r.0.spec_stopped(),
            r.1 == Travel::forward(),
    {
        let travel = Travel { baseline, distance, tolerance, stopped: false };
        (travel, MotionCommand { linear: TRAVEL_SPEED, angular: 0 })
    }

    /// Whether the travel has stopped.
    pub fn is_stopped(&self) -> (r: bool)
        ensures
            r == self.spec_stopped(),
    {
        self.stopped
    }

    /// Takes a pose update. Returns the stop command, to be published, on the
    /// first update that lies beyond the threshold; nothing otherwise.
    pub fn on_pose(&mut self, pose: Pose) -> (r: Option<MotionCommand>)
        ensures
            final(self).spec_baseline() == old(self).spec_baseline(),
            final(self).spec_threshold() == old(self).spec_threshold(),
            final(self).spec_stopped() == (old(self).spec_stopped() || beyond(
                old(self).spec_baseline(),
                pose,
                old(self).spec_threshold(),
            )),
            r == (if !old(self).spec_stopped() && final(self).spec_stopped() {
                Some(zero_command())
            } else {
                None
            }),
    {
        if self.stopped {
            return None;
        }
        let dx = pose.x as i64 - self.baseline.x as i64;
        let dy = pose.y as i64 - self.baseline.y as i64;
        let dx = dx as i128;
        let dy = dy as i128;
        let t = self.distance as i128 - self.tolerance as i128;
        assert(0 <= dx * dx <= 0x1_0000_0000_0000_0000) by (nonlinear_arith)
            requires
                -0x1_0000_0000 <= dx <= 0x1_0000_0000,
        ;
        assert(0 <= dy * dy <= 0x1_0000_0000_0000_0000) by (nonlinear_arith)
            requires
                -0x1_0000_0000 <= dy <= 0x1_0000_0000,
        ;
        assert(0 <= t * t <= 0x1_0000_0000_0000_0000) by (nonlinear_arith)
            requires
                -0x1_0000_0000 <= t <= 0x1_0000_0000,
        ;
        let reached = t < 0 || dx * dx + dy * dy > t * t;
        if reached {
            self.stopped = true;
            Some(MotionCommand::zero())
        } else {
            None
        }
    }
}

/// How many stop commands a travel issues over a run of pose updates, as
/// `Travel::on_pose` decides them.
pub open spec fn stop_count(baseline: Pose, threshold: int, stopped: bool, poses: Seq<Pose>) -> nat
    decreases poses.len(),
{
    if poses.len() == 0 {
        0
    } else {
        let now = stopped || beyond(baseline, poses[0], threshold);
        (if !stopped && now {
            1nat
        } else {
            0nat
        }) + stop_count(baseline, threshold, now, poses.drop_first())
    }
}

/// Whether some pose of the run lies beyond the threshold.
pub open spec fn reaches(baseline: Pose, threshold: int, poses: Seq<Pose>) -> bool {
    exists|i: int| 0 <= i < poses.len() && #[trigger] beyond(baseline, poses[i], threshold)
}

/// A travel stops exactly once over a run of pose updates when one of them
/// lies beyond the threshold, and never otherwise; a stopped travel stays
/// silent.
pub proof fn lemma_travel_stops_once(baseline: Pose, threshold: int, poses: Seq<Pose>)
    ensures
        stop_count(baseline, threshold, true, poses) == 0,
        stop_count(baseline, threshold, false, poses) == (if reaches(baseline, threshold, poses) {
            1nat
        } else {
            0nat
        }),
    decreases poses.len(),
{
    if poses.len() > 0 {
        let rest = poses.drop_first();
        lemma_travel_stops_once(baseline, threshold, rest);
        if beyond(baseline, poses[0], threshold) {
            assert(beyond(baseline, poses[0], threshold));
        } else {
            if reaches(baseline, threshold, poses) {
                let i = choose|i: int|
                    0 <= i < poses.len() && #[trigger] beyond(baseline, poses[i], threshold);
                assert(rest[i - 1] == poses[i]);
            }
            if reaches(baseline, threshold, rest) {
                let j = choose|j: int|
                    0 <= j < rest.len() && #[trigger] beyond(baseline, rest[j], threshold);
                assert(poses[j + 1] == rest[j]);
            }
        }
    }
}

// ---------------------------------------------------------------------------
// Visual-servo autopilot
/// The least radius of an accepted target, in millionths of the image height.
pub const MIN_TARGET_RADIUS: u32 = 50_000;

/// The horizontal set-point the autopilot steers toward, in millionths.
pub const SET_POINT: i64 = 800_000;

/// The forward speed while driving toward a target, micrometres per second.
pub const DRIVE_SPEED: i64 = 10_000;

/// The distance driven blindly once the target leaves the image, micrometres.
pub const APPROACH_DISTANCE: u32 = 260_000;

/// How much of the approach distance may be left undriven, micrometres: none,
/// so the approach stops only once the robot is strictly beyond the distance.
pub const APPROACH_TOLERANCE: u32 = 0;

/// A visual target: position and radius in millionths of the image size.
#[derive(Clone, Copy, Debug, PartialEq, Eq, Structural)]
pub struct DetectedTarget {
    pub x: u32,
    pub y: u32,
    pub radius: u32,
}

/// Where the autopilot stands.
#[derive(Clone, Copy, Debug, PartialEq, Eq, Structural)]
pub enum AutopilotStage {
    Init,
    Driving,
    Blind,
}

/// What the autopilot asks for on one frame.
#[derive(Clone, Copy, Debug, PartialEq, Eq, Structural)]
pub enum AutopilotAction {
    /// Publish this command.
    Command(MotionCommand),
    /// Publish the stop command, then travel this many micrometres with this
    /// tolerance.
    Approach { distance: u32, tolerance: u32 },
    /// Issue nothing.
    Idle,
}

/// Whether a candidate counts as a target: it is large enough.
pub open spec fn accepted(candidate: Option<DetectedTarget>) -> bool {
    candidate matches Some(t) && t.radius > MIN_TARGET_RADIUS
}

/// The command that steers toward a target at horizontal position `x`.
pub open spec fn steer_command(x: u32) -> MotionCommand {
    MotionCommand { linear: DRIVE_SPEED, angular: ((x as int - SET_POINT) / 5) as i64 }
}

/// The stage and action that follow `stage` on a frame with `candidate`.
pub open spec fn autopilot_next(stage: AutopilotStage, candidate: Option<DetectedTarget>) -> (
    AutopilotStage,
    AutopilotAction,
) {
    match stage {
        AutopilotStage::Init => if accepted(candidate) {
            (AutopilotStage::Driving, AutopilotAction::Command(zero_command()))
        } else {
            (AutopilotStage::Init, AutopilotAction::Command(zero_command()))
        },
        AutopilotStage::Driving => if accepted(candidate) {
            (
                AutopilotStage::Driving,
                AutopilotAction::Command(steer_command(candidate.unwrap().x)),
            )
        } else {
            (
                AutopilotStage::Blind,
                AutopilotAction::Approach {
                    distance: APPROACH_DISTANCE,
                    tolerance: APPROACH_TOLERANCE,
                },
            )
        },
        AutopilotStage::Blind => (AutopilotStage::Blind, AutopilotAction::Idle),
    }
}

/// Whether a detector's candidate counts as a target.
pub fn accept_target(candidate: Option<DetectedTarget>) -> (r: bool)
    ensures
        r == accepted(candidate),
{
    match candidate {
        Some(t) => t.radius > MIN_TARGET_RADIUS,
        None => false,
    }
}

/// Moves the autopilot on by one frame whose detector gave `candidate`.
pub fn autopilot_step(stage: AutopilotStage, candidate: Option<DetectedTarget>) -> (r: (
    AutopilotStage,
    AutopilotAction,
))
    ensures
        r == autopilot_next(stage, candidate),
{
    let present = accept_target(candidate);
    match stage {
        AutopilotStage::Init => {
            let next = if present {
                AutopilotStage::Driving
            } else {
                AutopilotStage::Init
            };
            (next, AutopilotAction::Command(MotionCommand::zero()))
        },
        AutopilotStage::Driving => {
            if present {
                let x = candidate.unwrap().x;
                let shifted: i64 = (x as i64 + (MICRO - SET_POINT)) / 5;
                let angular = shifted - (MICRO / 5);
                assert(angular == (x as int - SET_POINT) / 5);
                (
                    AutopilotStage::Driving,
                    AutopilotAction::Command(MotionCommand { linear: DRIVE_SPEED, angular }),
                )
            } else {
                (
                    AutopilotStage::Blind,
                    AutopilotAction::Approach {
                        distance: APPROACH_DISTANCE,
                        tolerance: APPROACH_TOLERANCE,
                    },
                )
            }
        },
        AutopilotStage::Blind => (AutopilotStage::Blind, AutopilotAction::Idle),
    }
}

/// The stages visited over a run of frames.
pub open spec fn autopilot_stages(
    stage: AutopilotStage,
    frames: Seq<Option<DetectedTarget>>,
) -> Seq<AutopilotStage>
    decreases frames.len(),
{
    if frames.len() == 0 {
        seq![]
    } else {
        let next = autopilot_next(stage, frames[0]).0;
        seq![next] + autopilot_stages(next, frames.drop_first())
    }
}

/// How many approaches a run of frames asks for.
pub open spec fn approach_count(stage: AutopilotStage, frames: Seq<Option<DetectedTarget>>) -> nat
    decreases frames.len(),
{
    if frames.len() == 0 {
        0
    } else {
        let (next, action) = autopilot_next(stage, frames[0]);
        (if action is Approach {
            1nat
        } else {
            0nat
        }) + approach_count(next, frames.drop_first())
    }
}

/// Blind is terminal: from there every frame leaves the autopilot Blind and
/// asks for nothing.
pub proof fn lemma_blind_is_terminal(frames: Seq<Option<DetectedTarget>>)
    ensures
        approach_count(AutopilotStage::Blind, frames) == 0,
        autopilot_stages(AutopilotStage::Blind, frames).len() == frames.len(),
        forall|i: int|
            0 <= i < frames.len() ==> #[trigger] autopilot_stages(AutopilotStage::Blind, frames)[i]
                == AutopilotStage::Blind,
    decreases frames.len(),
{
    if frames.len() > 0 {
        lemma_blind_is_terminal(frames.drop_first());
        let s = autopilot_stages(AutopilotStage::Blind, frames);
        assert forall|i: int| 0 <= i < frames.len() implies #[trigger] s[i]
            == AutopilotStage::Blind by {
            if i > 0 {
                assert(s[i] == autopilot_stages(AutopilotStage::Blind, frames.drop_first())[i - 1]);
            }
        }
    }
}

/// Over any run of frames the autopilot asks for at most one approach.
pub proof fn lemma_single_approach(stage: AutopilotStage, frames: Seq<Option<DetectedTarget>>)
    ensures
        approach_count(stage, frames) <= 1,
    decreases frames.len(),
{
    if frames.len() > 0 {
        let (next, action) = autopilot_next(stage, frames[0]);
        if action is Approach {
            lemma_blind_is_terminal(frames.drop_first());
        } else {
            lemma_single_approach(next, frames.drop_first());
        }
    }
}

} // verus!
