use capybara::console::{
    command_from_keys, Arm, CommandFromUI, ConsoleOutput, ConsoleState, Drive, Key, Rotate,
};
use capybara::control::MotionCommand;

#[test]
fn no_keys_ask_nothing() {
    assert_eq!(command_from_keys(&[], &[]), None);
    assert_eq!(command_from_keys(&[Key::Other], &[Key::Q, Key::P]), None);
}

#[test]
fn last_pressed_key_counts() {
    let cmd = command_from_keys(&[Key::W, Key::A, Key::S, Key::Q, Key::D], &[]).unwrap();
    assert_eq!(
        cmd,
        CommandFromUI {
            drive: Some(Drive::Backward),
            rotate: Some(Rotate::Right),
            arm: Some(Arm::Up),
            photo: false
        }
    );
}

#[test]
fn released_keys_stop_motion() {
    let cmd = command_from_keys(&[Key::W, Key::P], &[Key::S, Key::D]).unwrap();
    assert_eq!(
        cmd,
        CommandFromUI { drive: Some(Drive::Stop), rotate: Some(Rotate::Stop), arm: None, photo: true }
    );
}

#[test]
fn console_state_keeps_standing_requests() {
    let mut state = ConsoleState::new();
    let out = state.apply(CommandFromUI {
        drive: Some(Drive::Forward),
        rotate: None,
        arm: Some(Arm::Down),
        photo: true,
    });
    assert_eq!(
        out,
        ConsoleOutput {
            take_photo: true,
            velocity: MotionCommand { linear: 50_000, angular: 0 },
            arm: 2_500_000_000
        }
    );
    let out = state.apply(CommandFromUI {
        drive: None,
        rotate: Some(Rotate::Left),
        arm: None,
        photo: false,
    });
    assert_eq!(
        out,
        ConsoleOutput {
            take_photo: false,
            velocity: MotionCommand { linear: 50_000, angular: 100_000 },
            arm: 2_500_000_000
        }
    );
    let out = state.apply(CommandFromUI {
        drive: Some(Drive::Backward),
        rotate: Some(Rotate::Stop),
        arm: Some(Arm::Up),
        photo: false,
    });
    assert_eq!(out.velocity, MotionCommand { linear: -50_000, angular: 0 });
    assert_eq!(out.arm, 2_300_000_000);
}
