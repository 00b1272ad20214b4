use capybara::actuator::{is_button_press, servo_command};

#[test]
fn servo_command_is_opcode_and_big_endian_angle() {
    assert_eq!(servo_command(2390), vec![0x03, 0, 0, 0x09, 0x56]);
    assert_eq!(servo_command(0), vec![0x03, 0, 0, 0, 0]);
    assert_eq!(servo_command(0x0102_0304), vec![0x03, 1, 2, 3, 4]);
}

#[test]
fn only_the_button_byte_is_a_press() {
    assert!(is_button_press(0x07));
    assert!(!is_button_press(0x06));
    assert!(!is_button_press(0x00));
}

