use double_pendulum::capture::{ArmId, ArmMode, Capture, CapturePolicy};
use double_pendulum::frame::{Controller, FrameInput, Step};

fn quiet() -> FrameInput {
    FrameInput {
        toggle_running: false,
        reset: false,
        released: false,
        pressed: false,
        near_first: false,
        near_second: false,
    }
}

fn press(near_first: bool, near_second: bool) -> FrameInput {
    FrameInput { pressed: true, near_first, near_second, ..quiet() }
}

fn release() -> FrameInput {
    FrameInput { released: true, ..quiet() }
}

#[test]
fn new_controller_runs_with_nothing_held() {
    let c = Controller::new(CapturePolicy::Independent);
    assert!(c.running);
    assert!(!c.is_moving());
    assert_eq!(c.capture, Capture::new());
    assert_eq!(c.policy, CapturePolicy::Independent);
}

#[test]
fn quiet_running_frame_integrates_then_recouples() {
    let mut c = Controller::new(CapturePolicy::Independent);
    let plan = c.frame(&quiet());
    assert_eq!(
        plan,
        vec![Step::Anchor, Step::Recouple, Step::Integrate, Step::Recouple, Step::Record]
    );
    assert!(c.running);
}

#[test]
fn paused_frame_does_not_integrate() {
    let mut c = Controller::new(CapturePolicy::Independent);
    let plan = c.frame(&FrameInput { toggle_running: true, ..quiet() });
    assert!(!c.running);
    assert_eq!(plan, vec![Step::Anchor, Step::Recouple, Step::Record]);
    let plan = c.frame(&FrameInput { toggle_running: true, ..quiet() });
    assert!(c.running);
    assert!(plan.contains(&Step::Integrate));
}

#[test]
fn dragging_first_arm_freezes_both_and_recouples() {
    let mut c = Controller::new(CapturePolicy::Independent);
    let plan = c.frame(&press(true, false));
    assert_eq!(c.capture.first, ArmMode::Captured);
    assert_eq!(
        plan,
        vec![
            Step::Anchor,
            Step::Recouple,
            Step::FollowPointer(ArmId::First),
            Step::Halt(ArmId::First),
            Step::Halt(ArmId::Second),
            Step::Recouple,
            Step::ClearTrail,
            Step::Record,
        ]
    );
}

#[test]
fn dragging_second_arm_halts_both() {
    let mut c = Controller::new(CapturePolicy::Independent);
    let plan = c.frame(&press(false, true));
    assert_eq!(
        plan,
        vec![
            Step::Anchor,
            Step::Recouple,
            Step::Halt(ArmId::First),
            Step::FollowPointer(ArmId::Second),
            Step::Halt(ArmId::Second),
            Step::ClearTrail,
            Step::Record,
        ]
    );
}

#[test]
fn independent_drag_of_both_arms_follows_both() {
    let mut c = Controller::new(CapturePolicy::Independent);
    let plan = c.frame(&press(true, true));
    assert!(plan.contains(&Step::FollowPointer(ArmId::First)));
    assert!(plan.contains(&Step::FollowPointer(ArmId::Second)));
    assert!(!plan.contains(&Step::Integrate));
}

#[test]
fn single_drag_near_both_follows_first_only() {
    let mut c = Controller::new(CapturePolicy::Single);
    let plan = c.frame(&press(true, true));
    assert!(plan.contains(&Step::FollowPointer(ArmId::First)));
    assert!(!plan.contains(&Step::FollowPointer(ArmId::Second)));
    assert_eq!(c.capture.second, ArmMode::Free);
}

#[test]
fn held_arm_stays_frozen_over_frames_until_release() {
    let mut c = Controller::new(CapturePolicy::Independent);
    c.frame(&press(false, true));
    for _ in 0..5 {
        let plan = c.frame(&quiet());
        assert!(!plan.contains(&Step::Integrate));
        assert!(plan.contains(&Step::FollowPointer(ArmId::Second)));
        assert!(plan.contains(&Step::Halt(ArmId::Second)));
    }
    let plan = c.frame(&release());
    assert!(!c.is_moving());
    assert_eq!(
        plan,
        vec![Step::Anchor, Step::Recouple, Step::Integrate, Step::Recouple, Step::Record]
    );
}

#[test]
fn release_and_press_in_one_frame_ends_captured() {
    let mut c = Controller::new(CapturePolicy::Single);
    c.frame(&press(false, true));
    c.frame(&FrameInput { released: true, ..press(true, false) });
    assert_eq!(c.capture.first, ArmMode::Captured);
    assert_eq!(c.capture.second, ArmMode::Free);
}

#[test]
fn release_far_away_frees_both() {
    let mut c = Controller::new(CapturePolicy::Independent);
    c.frame(&press(true, true));
    c.frame(&release());
    assert_eq!(c.capture, Capture::new());
}

#[test]
fn reset_comes_first_and_keeps_modes() {
    let mut c = Controller::new(CapturePolicy::Independent);
    let plan = c.frame(&FrameInput { reset: true, ..quiet() });
    assert_eq!(
        plan,
        vec![
            Step::ResetSystem,
            Step::ClearHistory,
            Step::Anchor,
            Step::Recouple,
            Step::Integrate,
            Step::Recouple,
            Step::Record,
        ]
    );
    assert!(c.running);
    let plan = c.frame(&quiet());
    assert!(!plan.contains(&Step::ResetSystem));
    assert!(!plan.contains(&Step::ClearHistory));
}

#[test]
fn every_frame_ends_recorded_after_a_recouple() {
    let inputs = [quiet(), press(true, false), press(false, true), press(true, true), release()];
    for policy in [CapturePolicy::Independent, CapturePolicy::Single] {
        let mut c = Controller::new(policy);
        for input in inputs.iter() {
            for reset in [false, true] {
                let plan = c.frame(&FrameInput { reset, ..*input });
                assert_eq!(*plan.last().unwrap(), Step::Record);
                let last_move = plan
                    .iter()
                    .rposition(|s| {
                        matches!(
                            s,
                            Step::ResetSystem
                                | Step::Anchor
                                | Step::FollowPointer(ArmId::First)
                                | Step::Integrate
                        )
                    })
                    .unwrap();
                assert!(plan[last_move..].contains(&Step::Recouple));
            }
        }
    }
}
