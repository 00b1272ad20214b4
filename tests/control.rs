use capybara::control::{
    autopilot_step, AutopilotAction, AutopilotStage, DetectedTarget, MotionCommand, Pose,
    SteeringRamp, Travel, APPROACH_DISTANCE, APPROACH_TOLERANCE,
};

fn target_at(x: u32) -> Option<DetectedTarget> {
    Some(DetectedTarget { x, y: 500_000, radius: 100_000 })
}

#[test]
fn steering_ramp_converges_without_overshoot() {
    let mut ramp = SteeringRamp::new(10_000_000, 5_000_000);
    let mut seen = vec![];
    for _ in 0..10 {
        seen.push(ramp.tick(50_000_000, 1_000_000));
    }
    assert_eq!(ramp.angle(), 50_000_000);
    assert_eq!(seen[0], 15_000_000);
    assert_eq!(seen[7], 50_000_000);
    assert!(seen.iter().all(|a| *a <= 50_000_000));
}

#[test]
fn steering_ramp_moves_down_and_by_partial_steps() {
    let mut ramp = SteeringRamp::new(0, 5_000_000);
    assert_eq!(ramp.tick(-1_000_000, 10_000), -50_000);
    assert_eq!(ramp.tick(-40_000, 10_000_000), -40_000);
    assert_eq!(ramp.tick(-40_000, 0), -40_000);
}

fn pose(x: i32) -> Pose {
    Pose { x, y: 0, theta: 0 }
}

#[test]
fn travel_stops_once_past_the_distance() {
    let (mut travel, start) = Travel::start(pose(0), 260_000, 0);
    assert_eq!(start, MotionCommand { linear: 10_000, angular: 0 });
    let stops: Vec<Option<MotionCommand>> =
        [100_000, 200_000, 260_000, 270_000].iter().map(|x| travel.on_pose(pose(*x))).collect();
    assert_eq!(stops, vec![None, None, None, Some(MotionCommand { linear: 0, angular: 0 })]);
    assert!(travel.is_stopped());
    assert_eq!(travel.on_pose(pose(300_000)), None);
}

#[test]
fn travel_tolerance_stops_early() {
    let (mut travel, _) = Travel::start(pose(0), 260_000, 5_000);
    assert_eq!(travel.on_pose(pose(255_000)), None);
    assert_eq!(travel.on_pose(pose(255_001)), Some(MotionCommand::zero()));
}

#[test]
fn travel_measures_straight_line_distance() {
    let (mut travel, _) = Travel::start(Pose { x: 1_000, y: 1_000, theta: 0 }, 5_000, 0);
    assert_eq!(travel.on_pose(Pose { x: 4_000, y: 5_000, theta: 9 }), None);
    assert_eq!(travel.on_pose(Pose { x: 4_000, y: 5_001, theta: 9 }), Some(MotionCommand::zero()));
}

#[test]
fn autopilot_runs_init_driving_blind() {
    let inputs = [target_at(500_000), target_at(500_000), None, None];
    let mut stage = AutopilotStage::Init;
    let mut stages = vec![];
    let mut approaches = 0;
    for (i, input) in inputs.iter().enumerate() {
        let (next, action) = autopilot_step(stage, *input);
        if let AutopilotAction::Approach { distance, tolerance } = action {
            approaches += 1;
            assert_eq!(i, 2);
            assert_eq!((distance, tolerance), (APPROACH_DISTANCE, APPROACH_TOLERANCE));
        }
        stage = next;
        stages.push(stage);
    }
    assert_eq!(
        stages,
        vec![
            AutopilotStage::Driving,
            AutopilotStage::Driving,
            AutopilotStage::Blind,
            AutopilotStage::Blind
        ]
    );
    assert_eq!(approaches, 1);
}

#[test]
fn autopilot_steers_toward_the_set_point() {
    let (_, action) = autopilot_step(AutopilotStage::Driving, target_at(500_000));
    assert_eq!(action, AutopilotAction::Command(MotionCommand { linear: 10_000, angular: -60_000 }));
    let (_, action) = autopilot_step(AutopilotStage::Driving, target_at(1_000_000));
    assert_eq!(action, AutopilotAction::Command(MotionCommand { linear: 10_000, angular: 40_000 }));
    let (_, action) = autopilot_step(AutopilotStage::Driving, target_at(800_002));
    assert_eq!(action, AutopilotAction::Command(MotionCommand { linear: 10_000, angular: 0 }));
    let (_, action) = autopilot_step(AutopilotStage::Driving, target_at(799_999));
    assert_eq!(action, AutopilotAction::Command(MotionCommand { linear: 10_000, angular: -1 }));
}

#[test]
fn autopilot_ignores_small_targets() {
    let small = Some(DetectedTarget { x: 500_000, y: 0, radius: 50_000 });
    let (stage, action) = autopilot_step(AutopilotStage::Init, small);
    assert_eq!(stage, AutopilotStage::Init);
    assert_eq!(action, AutopilotAction::Command(MotionCommand::zero()));
    let (stage, _) = autopilot_step(AutopilotStage::Driving, small);
    assert_eq!(stage, AutopilotStage::Blind);
}

#[test]
fn autopilot_blind_issues_nothing() {
    for input in [None, target_at(800_000)] {
        assert_eq!(
            autopilot_step(AutopilotStage::Blind, input),
            (AutopilotStage::Blind, AutopilotAction::Idle)
        );
    }
}

#[test]
fn autopilot_init_waits_then_starts_without_motion() {
    assert_eq!(
        autopilot_step(AutopilotStage::Init, None),
        (AutopilotStage::Init, AutopilotAction::Command(MotionCommand::zero()))
    );
    assert_eq!(
        autopilot_step(AutopilotStage::Init, target_at(100_000)),
        (AutopilotStage::Driving, AutopilotAction::Command(MotionCommand::zero()))
    );
}

#[test]
fn approach_stops_only_after_the_distance() {
    let (mut travel, _) = Travel::start(pose(0), APPROACH_DISTANCE, APPROACH_TOLERANCE);
    let stops: Vec<Option<MotionCommand>> =
        [100_000, 200_000, 260_000, 270_000].iter().map(|x| travel.on_pose(pose(*x))).collect();
    assert_eq!(stops, vec![None, None, None, Some(MotionCommand::zero())]);
}
