use vstd::prelude::*;

verus! {

/// One of the two arms of the pendulum.
#[derive(Clone, Copy, Debug, PartialEq, Eq, Structural)]
pub enum ArmId {
    First,
    Second,
}

/// Whether an arm follows the integrator or the pointer.
#[derive(Clone, Copy, Debug, PartialEq, Eq, Structural)]
pub enum ArmMode {
    Free,
    Captured,
}

/// How a press near the tips decides which arms are captured.
#[derive(Clone, Copy, Debug, PartialEq, Eq, Structural)]
pub enum CapturePolicy {
    /// Every arm whose tip is near the pointer when it is pressed is captured,
    /// also while another arm is held.
    Independent,
    /// At most one arm is held per gesture: a press while an arm is held
    /// changes nothing, and a press near both tips takes the first arm.
    Single,
}

/// The drag state of both arms.
#[derive(Clone, Copy, Debug, PartialEq, Eq, Structural)]
pub struct Capture {
    pub first: ArmMode,
    pub second: ArmMode,
}

impl Capture {
    pub open spec fn mode(self, arm: ArmId) -> ArmMode {
        match arm {
            ArmId::First => self.first,
            ArmId::Second => self.second,
        }
    }

    /// Some arm is held by the pointer.
    pub open spec fn moving(self) -> bool {
        self.first == ArmMode::Captured || self.second == ArmMode::Captured
    }

    /// Both arms are free.
    pub open spec fn released(self) -> Capture {
        Capture { first: ArmMode::Free, second: ArmMode::Free }
    }

    /// The modes after a press whose position is `near_first` / `near_second`
    /// to the arms' tips.
    pub open spec fn pressed(self, near_first: bool, near_second: bool, policy: CapturePolicy) -> Capture {
        match policy {
            CapturePolicy::Independent => Capture {
                first: if near_first { ArmMode::Captured } else { self.first },
                second: if near_second { ArmMode::Captured } else { self.second },
            },
            CapturePolicy::Single => if self.moving() {
                self
            } else if near_first {
                Capture { first: ArmMode::Captured, second: ArmMode::Free }
            } else if near_second {
                Capture { first: ArmMode::Free, second: ArmMode::Captured }
            } else {
                self
            },
        }
    }

    /// No arm held.
    pub fn new() -> (r: Capture)
        ensures
            r.first == ArmMode::Free,
            r.second == ArmMode::Free,
    {
        Capture { first: ArmMode::Free, second: ArmMode::Free }
    }

    pub fn mode_of(&self, arm: ArmId) -> (r: ArmMode)
        ensures
            r == self.mode(arm),
    {
        match arm {
            ArmId::First => self.first,
            ArmId::Second => self.second,
        }
    }

    pub fn is_moving(&self) -> (r: bool)
        ensures
            r == self.moving(),
    {
        self.first == ArmMode::Captured || self.second == ArmMode::Captured
    }

    /// The pointer was released: both arms go free, wherever the pointer is.
    pub fn release(&mut self)
        ensures
            *final(self) == old(self).released(),
    {
        self.first = ArmMode::Free;
        self.second = ArmMode::Free;
    }

    /// The pointer was pressed; `near_first` and `near_second` tell whether it
    /// lies within the respective mass's radius.
    pub fn press(&mut self, near_first: bool, near_second: bool, policy: CapturePolicy)
        ensures
            *final(self) == old(self).pressed(near_first, near_second, policy),
    {
        match policy {
            CapturePolicy::Independent => {
                if near_first {
                    self.first = ArmMode::Captured;
                }
                if near_second {
                    self.second = ArmMode::Captured;
                }
            },
            CapturePolicy::Single => {
                if !self.is_moving() {
                    if near_first {
                        self.first = ArmMode::Captured;
                        self.second = ArmMode::Free;
                    } else if near_second {
                        self.first = ArmMode::Free;
                        self.second = ArmMode::Captured;
                    }
                }
            },
        }
    }
}

/// The pointer lies within the mass's radius of the arm's tip.
pub open spec fn near(near_first: bool, near_second: bool, arm: ArmId) -> bool {
    match arm {
        ArmId::First => near_first,
        ArmId::Second => near_second,
    }
}

/// Under the single policy, a press near an arm's tip while no arm is held
/// captures that arm, unless the press is also near the first tip, which
/// then wins.
pub proof fn lemma_single_press_captures(c: Capture, near_first: bool, near_second: bool, arm: ArmId)
    requires
        !c.moving(),
        near(near_first, near_second, arm),
        arm == ArmId::Second ==> !near_first,
    ensures
        c.pressed(near_first, near_second, CapturePolicy::Single).mode(arm) == ArmMode::Captured,
{
}

/// Under the single policy, at most one arm is ever held.
pub proof fn lemma_single_holds_one(c: Capture, near_first: bool, near_second: bool)
    requires
        !(c.first == ArmMode::Captured && c.second == ArmMode::Captured),
    ensures
        ({
            let d = c.pressed(near_first, near_second, CapturePolicy::Single);
            !(d.first == ArmMode::Captured && d.second == ArmMode::Captured)
        }),
{
}

} // verus!
