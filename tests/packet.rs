use borsh::BorshSerialize;
use capybara::packet::{DecodeError, Odometry, PacketToMaster, PacketToSlave, Velocity};

fn commands() -> Vec<PacketToSlave> {
    vec![
        PacketToSlave::TakePhoto,
        PacketToSlave::SetVelocity(Velocity {
            linear: 0.05f64.to_bits(),
            angular: (-0.1f64).to_bits(),
        }),
        PacketToSlave::SetAngle(2390.0f64.to_bits()),
    ]
}

fn telemetry() -> Vec<PacketToMaster> {
    vec![
        PacketToMaster::Video(vec![]),
        PacketToMaster::Video(vec![1, 2, 3, 250]),
        PacketToMaster::Photo((0..=255u8).collect()),
        PacketToMaster::Odometry(Odometry {
            x: 1.25f64.to_bits(),
            y: (-3.5f64).to_bits(),
            theta: 0.75f64.to_bits(),
        }),
    ]
}

#[test]
fn command_round_trip() {
    for p in commands() {
        assert_eq!(PacketToSlave::decode(&p.encode()), Ok(p));
    }
}

#[test]
fn telemetry_round_trip() {
    for p in telemetry() {
        let decoded = PacketToMaster::decode(&p.encode()).unwrap();
        assert!(decoded == p);
    }
}

#[test]
fn command_prefixes_are_truncated() {
    for p in commands() {
        let bytes = p.encode();
        for k in 0..bytes.len() {
            assert_eq!(PacketToSlave::decode(&bytes[..k]), Err(DecodeError::Truncated));
        }
    }
}

#[test]
fn telemetry_prefixes_are_truncated() {
    for p in telemetry() {
        let bytes = p.encode();
        for k in 0..bytes.len() {
            assert!(matches!(PacketToMaster::decode(&bytes[..k]), Err(DecodeError::Truncated)));
        }
    }
}

#[test]
fn command_encodings_are_exact() {
    assert_eq!(PacketToSlave::TakePhoto.encode(), vec![0]);
    let angle = PacketToSlave::SetAngle(1.0f64.to_bits()).encode();
    assert_eq!(angle, vec![2, 0, 0, 0, 0, 0, 0, 0xF0, 0x3F]);
    let v = PacketToSlave::SetVelocity(Velocity { linear: 1, angular: 2 }).encode();
    assert_eq!(v, vec![1, 1, 0, 0, 0, 0, 0, 0, 0, 2, 0, 0, 0, 0, 0, 0, 0]);
}

#[test]
fn telemetry_encodings_are_exact() {
    let video = PacketToMaster::Video(vec![9, 8]).encode();
    assert_eq!(video, vec![0, 2, 0, 0, 0, 9, 8]);
    let photo = PacketToMaster::Photo(vec![7]).encode();
    assert_eq!(photo, vec![1, 1, 0, 0, 0, 7]);
    let odo = PacketToMaster::Odometry(Odometry { x: 1, y: 2, theta: 3 }).encode();
    assert_eq!(odo.len(), 25);
    assert_eq!(odo[0], 2);
    assert_eq!(odo[1], 1);
    assert_eq!(odo[9], 2);
    assert_eq!(odo[17], 3);
}

#[test]
fn encodings_match_borsh_layout() {
    let v = PacketToSlave::SetVelocity(Velocity {
        linear: 0.05f64.to_bits(),
        angular: (-0.1f64).to_bits(),
    });
    assert_eq!(v.encode(), (1u8, 0.05f64, -0.1f64).try_to_vec().unwrap());
    let a = PacketToSlave::SetAngle(2390.0f64.to_bits());
    assert_eq!(a.encode(), (2u8, 2390.0f64).try_to_vec().unwrap());
    let video = PacketToMaster::Video(vec![5, 6, 7]);
    assert_eq!(video.encode(), (0u8, vec![5u8, 6, 7]).try_to_vec().unwrap());
    let odo = PacketToMaster::Odometry(Odometry {
        x: 1.5f64.to_bits(),
        y: 2.5f64.to_bits(),
        theta: (-1.0f64).to_bits(),
    });
    assert_eq!(odo.encode(), (2u8, 1.5f64, 2.5f64, -1.0f64).try_to_vec().unwrap());
}

#[test]
fn unknown_tags_are_refused() {
    assert_eq!(PacketToSlave::decode(&[3]), Err(DecodeError::UnknownTag(3)));
    assert_eq!(PacketToSlave::decode(&[0xFF, 0, 0]), Err(DecodeError::UnknownTag(0xFF)));
    assert!(matches!(PacketToMaster::decode(&[7, 1]), Err(DecodeError::UnknownTag(7))));
}

#[test]
fn trailing_bytes_are_refused() {
    assert_eq!(PacketToSlave::decode(&[0, 0]), Err(DecodeError::TrailingBytes));
    let mut bytes = PacketToMaster::Video(vec![1]).encode();
    bytes.push(0);
    assert!(matches!(PacketToMaster::decode(&bytes), Err(DecodeError::TrailingBytes)));
}

#[test]
fn empty_input_is_truncated() {
    assert_eq!(PacketToSlave::decode(&[]), Err(DecodeError::Truncated));
    assert!(matches!(PacketToMaster::decode(&[]), Err(DecodeError::Truncated)));
}

#[test]
fn packets_differ_by_variant_and_contents() {
    assert!(PacketToMaster::Video(vec![1]) != PacketToMaster::Photo(vec![1]));
    assert!(PacketToMaster::Video(vec![1]) != PacketToMaster::Video(vec![2]));
    assert!(PacketToMaster::Video(vec![1]) == PacketToMaster::Video(vec![1]));
}
