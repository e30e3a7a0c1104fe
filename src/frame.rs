use vstd::prelude::*;
use crate::capture::{near, ArmId, ArmMode, Capture, CapturePolicy};

verus! {

/// One thing the application does to the pendulum during a frame.
#[derive(Clone, Copy, Debug, PartialEq, Eq, Structural)]
pub enum Step {
    /// Restore both arms, gravity and damping to their defaults.
    ResetSystem,
    /// Drop every recorded series and restart the history clock.
    ClearHistory,
    /// Place the first arm's pivot at the centre of the canvas.
    Anchor,
    /// Set the arm's angle from the pointer's offset to the arm's pivot.
    FollowPointer(ArmId),
    /// Set the arm's velocity and acceleration to zero.
    Halt(ArmId),
    /// Set the second arm's pivot to the first arm's tip.
    Recouple,
    /// Drop the recorded trail of tip positions.
    ClearTrail,
    /// Advance the coupled system by one time step.
    Integrate,
    /// Append the current state to the recorded series.
    Record,
}

/// What the application observed since the previous frame.
#[derive(Clone, Copy, Debug, PartialEq, Eq, Structural)]
pub struct FrameInput {
    /// The start / stop key was pressed.
    pub toggle_running: bool,
    /// The reset shortcut was pressed.
    pub reset: bool,
    /// The primary button went up.
    pub released: bool,
    /// The primary button went down at a known pointer position.
    pub pressed: bool,
    /// The pointer lies within the first mass's radius of the first tip.
    pub near_first: bool,
    /// The pointer lies within the second mass's radius of the second tip.
    pub near_second: bool,
}

/// Steps that change where the first arm's tip is.
pub open spec fn moves_first_tip(s: Step) -> bool {
    match s {
        Step::ResetSystem | Step::Anchor | Step::FollowPointer(ArmId::First) | Step::Integrate => true,
        _ => false,
    }
}

/// Steps that read the second arm's pivot.
pub open spec fn reads_second_pivot(s: Step) -> bool {
    match s {
        Step::FollowPointer(ArmId::Second) | Step::Integrate | Step::Record => true,
        _ => false,
    }
}

/// Steps that change an arm's angle.
pub open spec fn sets_angle(s: Step, arm: ArmId) -> bool {
    match s {
        Step::ResetSystem | Step::Integrate => true,
        Step::FollowPointer(a) => a == arm,
        _ => false,
    }
}

/// Steps that change an arm's velocity or acceleration.
pub open spec fn sets_motion(s: Step, arm: ArmId) -> bool {
    match s {
        Step::ResetSystem | Step::Integrate => true,
        Step::Halt(a) => a == arm,
        _ => false,
    }
}

/// The capture state after the frame's pointer events: a release is taken
/// before a press of the same frame.
pub open spec fn capture_after(c: Capture, input: FrameInput, policy: CapturePolicy) -> Capture {
    let c1 = if input.released { c.released() } else { c };
    if input.pressed { c1.pressed(input.near_first, input.near_second, policy) } else { c1 }
}

pub open spec fn reset_steps(reset: bool) -> Seq<Step> {
    if reset { seq![Step::ResetSystem, Step::ClearHistory] } else { seq![] }
}

pub open spec fn anchor_steps() -> Seq<Step> {
    seq![Step::Anchor, Step::Recouple]
}

/// Dragging the first arm discards the motion of both arms, since the
/// second arm's frame of reference moves with the first tip.
pub open spec fn drag_first_steps(c: Capture) -> Seq<Step> {
    if c.first == ArmMode::Captured {
        seq![
            Step::FollowPointer(ArmId::First),
            Step::Halt(ArmId::First),
            Step::Halt(ArmId::Second),
            Step::Recouple,
            Step::ClearTrail,
        ]
    } else {
        seq![]
    }
}

pub open spec fn drag_second_steps(c: Capture) -> Seq<Step> {
    if c.second == ArmMode::Captured {
        seq![
            Step::Halt(ArmId::First),
            Step::FollowPointer(ArmId::Second),
            Step::Halt(ArmId::Second),
            Step::ClearTrail,
        ]
    } else {
        seq![]
    }
}

/// The integrator runs only while the simulation runs and no arm is held.
pub open spec fn motion_steps(running: bool, c: Capture) -> Seq<Step> {
    if running && !c.moving() { seq![Step::Integrate, Step::Recouple] } else { seq![] }
}

/// The steps of a frame, given whether a reset was asked for and the state
/// after the frame's events.
pub open spec fn frame_steps(reset: bool, c: Capture, running: bool) -> Seq<Step> {
    reset_steps(reset) + anchor_steps() + drag_first_steps(c) + drag_second_steps(c)
        + motion_steps(running, c) + seq![Step::Record]
}

/// The decisions of the interactive simulation between frames.
#[derive(Clone, Copy, Debug, PartialEq, Eq, Structural)]
pub struct Controller {
    /// The integrator advances the system on frames where no arm is held.
    pub running: bool,
    pub capture: Capture,
    pub policy: CapturePolicy,
}

impl Controller {
    /// Running, with no arm held.
    pub fn new(policy: CapturePolicy) -> (r: Controller)
        ensures
            r.running,
            r.capture.first == ArmMode::Free,
            r.capture.second == ArmMode::Free,
            r.policy == policy,
    {
        Controller { running: true, capture: Capture::new(), policy }
    }

    pub fn is_moving(&self) -> (r: bool)
        ensures
            r == self.capture.moving(),
    {
        self.capture.is_moving()
    }

    /// Takes the frame's events and returns, in order, the steps the
    /// application applies to the pendulum before drawing it.
    pub fn frame(&mut self, input: &FrameInput) -> (plan: Vec<Step>)
        ensures
            final(self).running == (old(self).running != input.toggle_running),
            final(self).capture == capture_after(old(self).capture, *input, old(self).policy),
            final(self).policy == old(self).policy,
            plan@ == frame_steps(input.reset, final(self).capture, final(self).running),
    {
        if input.toggle_running {
            self.running = !self.running;
        }
        if input.released {
            self.capture.release();
        }
        if input.pressed {
            self.capture.press(input.near_first, input.near_second, self.policy);
        }
        let mut plan: Vec<Step> = Vec::new();
        if input.reset {
            plan.push(Step::ResetSystem);
            plan.push(Step::ClearHistory);
        }
        plan.push(Step::Anchor);
        plan.push(Step::Recouple);
        if self.capture.first == ArmMode::Captured {
            plan.push(Step::FollowPointer(ArmId::First));
            plan.push(Step::Halt(ArmId::First));
            plan.push(Step::Halt(ArmId::Second));
            plan.push(Step::Recouple);
            plan.push(Step::ClearTrail);
        }
        if self.capture.second == ArmMode::Captured {
            plan.push(Step::Halt(ArmId::First));
            plan.push(Step::FollowPointer(ArmId::Second));
            plan.push(Step::Halt(ArmId::Second));
            plan.push(Step::ClearTrail);
        }
        if self.running && !self.capture.is_moving() {
            plan.push(Step::Integrate);
            plan.push(Step::Recouple);
        }
        plan.push(Step::Record);
        assert(plan@ =~= frame_steps(input.reset, self.capture, self.running));
        plan
    }
}

/// After any step that moves the first tip, every later step that reads the
/// second arm's pivot has a re-coupling in between.
#[verifier::opaque]
pub open spec fn coupled(s: Seq<Step>) -> bool {
    forall|i: int, k: int|
        0 <= i < k < s.len() && #[trigger] moves_first_tip(s[i]) && #[trigger] reads_second_pivot(s[k])
            ==> exists|j: int|
            i < j < k && s[j] == Step::Recouple
}

/// Every step that moves the first tip is followed by a re-coupling.
#[verifier::opaque]
pub open spec fn ends_coupled(s: Seq<Step>) -> bool {
    forall|i: int|
        0 <= i < s.len() && #[trigger] moves_first_tip(s[i]) ==> exists|j: int|
            i < j < s.len() && s[j] == Step::Recouple
}

/// Every step that reads the second arm's pivot comes after a re-coupling.
#[verifier::opaque]
pub open spec fn recouples_before_reads(s: Seq<Step>) -> bool {
    forall|k: int|
        0 <= k < s.len() && #[trigger] reads_second_pivot(s[k]) ==> exists|j: int|
            0 <= j < k && s[j] == Step::Recouple
}

proof fn lemma_concat_coupled(a: Seq<Step>, b: Seq<Step>)
    requires
        coupled(a),
        coupled(b),
        ends_coupled(a) || recouples_before_reads(b),
    ensures
        coupled(a + b),
{
    reveal(coupled);
    reveal(ends_coupled);
    reveal(recouples_before_reads);
    let s = a + b;
    assert forall|i: int, k: int|
        0 <= i < k < s.len() && #[trigger] moves_first_tip(s[i]) && #[trigger] reads_second_pivot(
            s[k],
        ) implies exists|j: int| i < j < k && s[j] == Step::Recouple by {
        if k < a.len() {
            assert(s[i] == a[i] && s[k] == a[k]);
            assert(moves_first_tip(a[i]) && reads_second_pivot(a[k]));
            let j = choose|j: int| i < j < k && a[j] == Step::Recouple;
            assert(s[j] == a[j]);
        } else if i >= a.len() {
            let i2 = i - a.len();
            let k2 = k - a.len();
            assert(s[i] == b[i2] && s[k] == b[k2]);
            assert(moves_first_tip(b[i2]) && reads_second_pivot(b[k2]));
            let j = choose|j: int| i2 < j < k2 && b[j] == Step::Recouple;
            assert(s[j + a.len()] == b[j]);
        } else if ends_coupled(a) {
            assert(s[i] == a[i]);
            assert(moves_first_tip(a[i]));
            let j = choose|j: int| i < j < a.len() && a[j] == Step::Recouple;
            assert(s[j] == a[j]);
        } else {
            let k2 = k - a.len();
            assert(s[k] == b[k2]);
            assert(reads_second_pivot(b[k2]));
            let j = choose|j: int| 0 <= j < k2 && b[j] == Step::Recouple;
            assert(s[j + a.len()] == b[j]);
        }
    }
}

proof fn lemma_concat_ends_coupled(a: Seq<Step>, b: Seq<Step>)
    requires
        ends_coupled(b),
        ends_coupled(a) || b.contains(Step::Recouple),
    ensures
        ends_coupled(a + b),
{
    reveal(ends_coupled);
    let s = a + b;
    assert forall|i: int| 0 <= i < s.len() && #[trigger] moves_first_tip(s[i]) implies exists|j: int|
        i < j < s.len() && s[j] == Step::Recouple by {
        if i >= a.len() {
            let i2 = i - a.len();
            assert(s[i] == b[i2]);
            assert(moves_first_tip(b[i2]));
            let j = choose|j: int| i2 < j < b.len() && b[j] == Step::Recouple;
            assert(s[j + a.len()] == b[j]);
        } else if ends_coupled(a) {
            assert(s[i] == a[i]);
            assert(moves_first_tip(a[i]));
            let j = choose|j: int| i < j < a.len() && a[j] == Step::Recouple;
            assert(s[j] == a[j]);
        } else {
            let j = choose|j: int| 0 <= j < b.len() && b[j] == Step::Recouple;
            assert(s[j + a.len()] == b[j]);
        }
    }
}

proof fn lemma_no_reads(s: Seq<Step>)
    requires
        forall|k: int| 0 <= k < s.len() ==> !reads_second_pivot(#[trigger] s[k]),
    ensures
        coupled(s),
        recouples_before_reads(s),
{
    reveal(coupled);
    reveal(recouples_before_reads);
}

proof fn lemma_no_moves(s: Seq<Step>)
    requires
        forall|i: int| 0 <= i < s.len() ==> !moves_first_tip(#[trigger] s[i]),
    ensures
        coupled(s),
        ends_coupled(s),
{
    reveal(coupled);
    reveal(ends_coupled);
}

/// A segment whose only step that moves the first tip comes first and is
/// followed, before any read, by a re-coupling at `j`.
proof fn lemma_moves_then_recouples(s: Seq<Step>, j: int)
    requires
        0 < j < s.len(),
        s[j] == Step::Recouple,
        forall|i: int| 0 < i < s.len() ==> !moves_first_tip(#[trigger] s[i]),
        forall|k: int| 0 < k <= j ==> !reads_second_pivot(#[trigger] s[k]),
    ensures
        coupled(s),
        ends_coupled(s),
{
    reveal(coupled);
    reveal(ends_coupled);
    assert forall|i: int, k: int|
        0 <= i < k < s.len() && #[trigger] moves_first_tip(s[i]) && #[trigger] reads_second_pivot(
            s[k],
        ) implies exists|j2: int| i < j2 < k && s[j2] == Step::Recouple by {
        assert(i == 0);
        assert(s[j] == Step::Recouple);
    }
    assert forall|i: int| 0 <= i < s.len() && #[trigger] moves_first_tip(s[i]) implies exists|j2: int|
        i < j2 < s.len() && s[j2] == Step::Recouple by {
        assert(s[j] == Step::Recouple);
    }
}

/// Every frame re-couples the second arm to the first arm's tip after each
/// step that moves that tip and before anything reads the second pivot, and
/// ends by recording a coupled state.
pub proof fn lemma_frame_coupled(reset: bool, c: Capture, running: bool)
    ensures
        coupled(frame_steps(reset, c, running)),
        ends_coupled(frame_steps(reset, c, running)),
        frame_steps(reset, c, running).last() == Step::Record,
{
    let r = reset_steps(reset);
    let a = anchor_steps();
    let d1 = drag_first_steps(c);
    let d2 = drag_second_steps(c);
    let m = motion_steps(running, c);
    let e = seq![Step::Record];
    lemma_no_reads(r);
    lemma_no_reads(a);
    lemma_moves_then_recouples(a, 1);
    assert(a.contains(Step::Recouple)) by {
        assert(a[1] == Step::Recouple);
    }
    if c.first == ArmMode::Captured {
        lemma_no_reads(d1);
        lemma_moves_then_recouples(d1, 3);
    } else {
        lemma_no_moves(d1);
    }
    lemma_no_moves(d2);
    if running && !c.moving() {
        lemma_moves_then_recouples(m, 1);
    } else {
        lemma_no_moves(m);
    }
    lemma_no_moves(e);
    lemma_concat_coupled(r, a);
    lemma_concat_ends_coupled(r, a);
    lemma_concat_coupled(r + a, d1);
    lemma_concat_ends_coupled(r + a, d1);
    lemma_concat_coupled(r + a + d1, d2);
    lemma_concat_ends_coupled(r + a + d1, d2);
    lemma_concat_coupled(r + a + d1 + d2, m);
    lemma_concat_ends_coupled(r + a + d1 + d2, m);
    lemma_concat_coupled(r + a + d1 + d2 + m, e);
    lemma_concat_ends_coupled(r + a + d1 + d2 + m, e);
}

/// In a frame where an arm is held the integrator does not run: the held
/// arm's angle is set from the pointer and by nothing else but a reset, and
/// its velocity and acceleration are set to zero and by nothing else but a
/// reset, which also zeroes them.
pub proof fn lemma_held_arm_frozen(reset: bool, c: Capture, running: bool, arm: ArmId)
    requires
        c.mode(arm) == ArmMode::Captured,
    ensures
        ({
            let plan = frame_steps(reset, c, running);
            &&& forall|i: int| 0 <= i < plan.len() ==> #[trigger] plan[i] != Step::Integrate
            &&& forall|i: int|
                0 <= i < plan.len() && #[trigger] sets_angle(plan[i], arm) ==> plan[i]
                    == Step::FollowPointer(arm) || plan[i] == Step::ResetSystem
            &&& forall|i: int|
                0 <= i < plan.len() && #[trigger] sets_motion(plan[i], arm) ==> plan[i] == Step::Halt(
                    arm,
                ) || plan[i] == Step::ResetSystem
            &&& plan.contains(Step::FollowPointer(arm))
            &&& plan.contains(Step::Halt(arm))
        }),
{
    let plan = frame_steps(reset, c, running);
    let pre: int = (reset_steps(reset) + anchor_steps()).len() as int;
    assert(motion_steps(running, c) =~= seq![]);
    if arm == ArmId::First {
        assert(plan[pre] == Step::FollowPointer(arm));
        assert(plan[pre + 1] == Step::Halt(arm));
    } else {
        let at: int = pre + drag_first_steps(c).len();
        assert(plan[at + 1] == Step::FollowPointer(arm));
        assert(plan[at + 2] == Step::Halt(arm));
    }
}

/// A reset request restores the defaults and clears every recorded series
/// before any other step of the frame; without one neither step occurs.
pub proof fn lemma_reset_first(reset: bool, c: Capture, running: bool)
    ensures
        ({
            let plan = frame_steps(reset, c, running);
            &&& reset ==> plan[0] == Step::ResetSystem && plan[1] == Step::ClearHistory
            &&& forall|i: int|
                0 <= i < plan.len() && (#[trigger] plan[i] == Step::ResetSystem || plan[i]
                    == Step::ClearHistory) ==> reset && i < 2
        }),
{
}

/// A release with no press in the same frame frees both arms, wherever the
/// pointer is.
pub proof fn lemma_frame_release_frees(c: Capture, input: FrameInput, policy: CapturePolicy)
    requires
        input.released,
        !input.pressed,
    ensures
        capture_after(c, input, policy).first == ArmMode::Free,
        capture_after(c, input, policy).second == ArmMode::Free,
{
}

/// Under the independent policy a press near an arm's tip leaves that arm
/// held after the frame.
pub proof fn lemma_frame_press_captures(c: Capture, input: FrameInput, arm: ArmId)
    requires
        input.pressed,
        near(input.near_first, input.near_second, arm),
    ensures
        capture_after(c, input, CapturePolicy::Independent).mode(arm) == ArmMode::Captured,
{
}

/// A held arm stays held over every frame without a release.
pub proof fn lemma_held_until_release(
    c: Capture,
    input: FrameInput,
    policy: CapturePolicy,
    arm: ArmId,
)
    requires
        c.mode(arm) == ArmMode::Captured,
        !input.released,
    ensures
        capture_after(c, input, policy).mode(arm) == ArmMode::Captured,
{
}

} // verus!
