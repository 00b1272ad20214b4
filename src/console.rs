//! The console's command logic: keys pressed and released become driving,
//! steering, arm and photo requests, and those become the commands sent to
//! the robot.
use crate::control::MotionCommand;
use vstd::prelude::*;

verus! {

/// The console's keys.
#[derive(Clone, Copy, Debug, PartialEq, Eq, Structural)]
pub enum Key {
    /// Drive forward.
    W,
    /// Drive backward.
    S,
    /// Turn left.
    A,
    /// Turn right.
    D,
    /// Raise the arm.
    Q,
    /// Lower the arm.
    E,
    /// Take a photo.
    P,
    Other,
}

#[derive(Clone, Copy, Debug, PartialEq, Eq, Structural)]
pub enum Drive {
    Forward,
    Backward,
    Stop,
}

#[derive(Clone, Copy, Debug, PartialEq, Eq, Structural)]
pub enum Rotate {
    Left,
    Right,
    Stop,
}

#[derive(Clone, Copy, Debug, PartialEq, Eq, Structural)]
pub enum Arm {
    Up,
    Down,
}

/// What the operator asked for in one frame of input.
#[derive(Clone, Copy, Debug, PartialEq, Eq, Structural)]
pub struct CommandFromUI {
    pub drive: Option<Drive>,
    pub rotate: Option<Rotate>,
    pub arm: Option<Arm>,
    pub photo: bool,
}

/// The driving request of a key, if it makes one.
pub open spec fn drive_of(k: Key) -> Option<Drive> {
    match k {
        Key::W => Some(Drive::Forward),
        Key::S => Some(Drive::Backward),
        _ => None,
    }
}

/// The turning request of a key, if it makes one.
pub open spec fn rotate_of(k: Key) -> Option<Rotate> {
    match k {
        Key::A => Some(Rotate::Left),
        Key::D => Some(Rotate::Right),
        _ => None,
    }
}

/// The arm request of a key, if it makes one.
pub open spec fn arm_of(k: Key) -> Option<Arm> {
    match k {
        Key::Q => Some(Arm::Up),
        Key::E => Some(Arm::Down),
        _ => None,
    }
}

/// The request of the last key in `keys` that makes one, by `of`.
pub open spec fn last_request<T>(keys: Seq<Key>, of: spec_fn(Key) -> Option<T>) -> Option<T>
    decreases keys.len(),
{
    if keys.len() == 0 {
        None
    } else {
        match of(keys.last()) {
            Some(r) => Some(r),
            None => last_request(keys.drop_last(), of),
        }
    }
}

/// What pressing `pressed` and releasing `released` asks for: the last key
/// pressed of each kind counts, a released driving or turning key stops that
/// motion, and nothing is asked when no key counts.
pub open spec fn request_of(pressed: Seq<Key>, released: Seq<Key>) -> Option<CommandFromUI> {
    let drive = if released.contains(Key::W) || released.contains(Key::S) {
        Some(Drive::Stop)
    } else {
        last_request(pressed, |k: Key| drive_of(k))
    };
    let rotate = if released.contains(Key::A) || released.contains(Key::D) {
        Some(Rotate::Stop)
    } else {
        last_request(pressed, |k: Key| rotate_of(k))
    };
    let arm = last_request(pressed, |k: Key| arm_of(k));
    let photo = pressed.contains(Key::P);
    if drive is Some || rotate is Some || arm is Some || photo {
        Some(CommandFromUI { drive, rotate, arm, photo })
    } else {
        None
    }
}

/// What the keys pressed and released in one frame of input ask for.
pub fn command_from_keys(pressed: &[Key], released: &[Key]) -> (r: Option<CommandFromUI>)
    ensures
        r == request_of(pressed@, released@),
{
    let mut drive: Option<Drive> = None;
    let mut rotate: Option<Rotate> = None;
    let mut arm: Option<Arm> = None;
    let mut photo = false;
    let mut i: usize = 0;
    while i < pressed.len()
        invariant
            i <= pressed@.len(),
            drive == last_request(pressed@.subrange(0, i as int), |k: Key| drive_of(k)),
            rotate == last_request(pressed@.subrange(0, i as int), |k: Key| rotate_of(k)),
            arm == last_request(pressed@.subrange(0, i as int), |k: Key| arm_of(k)),
            photo == pressed@.subrange(0, i as int).contains(Key::P),
        decreases pressed@.len() - i,
    {
        let ghost before = pressed@.subrange(0, i as int);
        let k = pressed[i];
        match k {
            Key::W => drive = Some(Drive::Forward),
            Key::S => drive = Some(Drive::Backward),
            Key::A => rotate = Some(Rotate::Left),
            Key::D => rotate = Some(Rotate::Right),
            Key::Q => arm = Some(Arm::Up),
            Key::E => arm = Some(Arm::Down),
            Key::P => photo = true,
            Key::Other => {},
        }
        i = i + 1;
        let ghost after = pressed@.subrange(0, i as int);
        assert(after.drop_last() =~= before);
        assert(after.last() == k);
        assert(after =~= before.push(k));
        assert(after.contains(Key::P) == (before.contains(Key::P) || k == Key::P)) by {
            if k == Key::P {
                assert(after[i - 1] == k);
            }
            if before.contains(Key::P) {
                let j = choose|j: int| 0 <= j < before.len() && before[j] == Key::P;
                assert(after[j] == Key::P);
            }
        }
    }
    assert(pressed@.subrange(0, pressed@.len() as int) =~= pressed@);
    let mut stop_drive = false;
    let mut stop_rotate = false;
    let mut j: usize = 0;
    while j < released.len()
        invariant
            j <= released@.len(),
            stop_drive == (released@.subrange(0, j as int).contains(Key::W)
                || released@.subrange(0, j as int).contains(Key::S)),
            stop_rotate == (released@.subrange(0, j as int).contains(Key::A)
                || released@.subrange(0, j as int).contains(Key::D)),
        decreases released@.len() - j,
    {
        let ghost before = released@.subrange(0, j as int);
        let k = released[j];
        match k {
            Key::W | Key::S => stop_drive = true,
            Key::A | Key::D => stop_rotate = true,
            _ => {},
        }
        j = j + 1;
        let ghost after = released@.subrange(0, j as int);
        assert(after =~= before.push(k));
        assert forall|x: Key| after.contains(x) == (before.contains(x) || k == x) by {
            if k == x {
                assert(after[j - 1] == x);
            }
            if before.contains(x) {
                let m = choose|m: int| 0 <= m < before.len() && before[m] == x;
                assert(after[m] == x);
            }
            if after.contains(x) {
                let m = choose|m: int| 0 <= m < after.len() && after[m] == x;
                if m < before.len() {
                    assert(before[m] == x);
                }
            }
        }
    }
    assert(released@.subrange(0, released@.len() as int) =~= released@);
    if stop_drive {
        drive = Some(Drive::Stop);
    }
    if stop_rotate {
        rotate = Some(Rotate::Stop);
    }
    if drive.is_some() || rotate.is_some() || arm.is_some() || photo {
        Some(CommandFromUI { drive, rotate, arm, photo })
    } else {
        None
    }
}

/// The driving speed, micrometres per second.
pub const DRIVE_SPEED: i64 = 50_000;

/// The turning speed, microradians per second.
pub const TURN_SPEED: i64 = 100_000;

/// Arm angles, in millionths of the servo's unit.
pub const ARM_UP: i64 = 2_300_000_000;

pub const ARM_DOWN: i64 = 2_500_000_000;

pub const ARM_START: i64 = 2_400_000_000;

/// What the console sends for one request, in this order: a photo request
/// when asked, then the velocity, then the arm angle.
#[derive(Clone, Copy, Debug, PartialEq, Eq, Structural)]
pub struct ConsoleOutput {
    pub take_photo: bool,
    pub velocity: MotionCommand,
    pub arm: i64,
}

/// The console's standing requests.
#[derive(Clone, Copy, Debug, PartialEq, Eq, Structural)]
pub struct ConsoleState {
    pub linear: i64,
    pub angular: i64,
    pub arm: i64,
}

/// The standing requests after `cmd`: each part it names replaces the old one.
pub open spec fn console_next(s: ConsoleState, cmd: CommandFromUI) -> ConsoleState {
    ConsoleState {
        linear: match cmd.drive {
            Some(Drive::Forward) => DRIVE_SPEED,
            Some(Drive::Backward) => (-DRIVE_SPEED) as i64,
            Some(Drive::Stop) => 0,
            None => s.linear,
        },
        angular: match cmd.rotate {
            Some(Rotate::Left) => TURN_SPEED,
            Some(Rotate::Right) => (-TURN_SPEED) as i64,
            Some(Rotate::Stop) => 0,
            None => s.angular,
        },
        arm: match cmd.arm {
            Some(Arm::Up) => ARM_UP,
            Some(Arm::Down) => ARM_DOWN,
            None => s.arm,
        },
    }
}

impl ConsoleState {
    /// Standing still with the arm half way.
    pub fn new() -> (r: ConsoleState)
        ensures
            r == (ConsoleState { linear: 0, angular: 0, arm: ARM_START }),
    {
        ConsoleState { linear: 0, angular: 0, arm: ARM_START }
    }

    /// Takes a request and returns what to send.
    pub fn apply(&mut self, cmd: CommandFromUI) -> (r: ConsoleOutput)
        ensures
            *final(self) == console_next(*old(self), cmd),
            r == (ConsoleOutput {
                take_photo: cmd.photo,
                velocity: MotionCommand { linear: final(self).linear, angular: final(self).angular },
                arm: final(self).arm,
            }),
    {
        match cmd.drive {
            Some(Drive::Forward) => self.linear = DRIVE_SPEED,
            Some(Drive::Backward) => self.linear = -DRIVE_SPEED,
            Some(Drive::Stop) => self.linear = 0,
            None => {},
        }
        match cmd.rotate {
            Some(Rotate::Left) => self.angular = TURN_SPEED,
            Some(Rotate::Right) => self.angular = -TURN_SPEED,
            Some(Rotate::Stop) => self.angular = 0,
            None => {},
        }
        match cmd.arm {
            Some(Arm::Up) => self.arm = ARM_UP,
            Some(Arm::Down) => self.arm = ARM_DOWN,
            None => {},
        }
        ConsoleOutput {
            take_photo: cmd.photo,
            velocity: MotionCommand { linear: self.linear, angular: self.angular },
            arm: self.arm,
        }
    }
}

} // verus!
