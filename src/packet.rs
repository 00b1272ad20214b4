//! The packet wire format shared by both transports.
//!
//! A packet is one tag byte naming its variant, in declared order, followed by
//! its fields: a 64-bit word as eight little-endian bytes, a byte buffer as a
//! little-endian 32-bit count and then the bytes. There is no padding and no
//! version. Floating-point fields travel as their IEEE 754 binary64 bit
//! patterns, which this module carries as `u64` words.
use crate::bytes::{
    copy_range, le32, le32_bytes, le64, le64_bytes, lemma_le_words, push_all, same_bytes,
};
use vstd::bytes::*;
use vstd::prelude::*;

verus! {

/// Body-frame velocities, each the bit pattern of a binary64 value.
#[derive(Clone, Copy, Debug, PartialEq, Eq, Structural)]
pub struct Velocity {
    pub linear: u64,
    pub angular: u64,
}

/// A pose estimate, each field the bit pattern of a binary64 value.
#[derive(Clone, Copy, Debug, PartialEq, Eq, Structural)]
pub struct Odometry {
    pub x: u64,
    pub y: u64,
    pub theta: u64,
}

/// A command from the console to the robot.
#[derive(Clone, Copy, Debug, PartialEq, Eq, Structural)]
pub enum PacketToSlave {
    TakePhoto,
    SetVelocity(Velocity),
    /// The steering target, as the bit pattern of a binary64 value.
    SetAngle(u64),
}

/// Telemetry from the robot to the console.
#[derive(Debug)]
pub enum PacketToMaster {
    Video(Vec<u8>),
    Photo(Vec<u8>),
    Odometry(Odometry),
}

/// What a telemetry packet holds, with its buffers as sequences.
pub enum TelemetryView {
    Video(Seq<u8>),
    Photo(Seq<u8>),
    Odometry(Odometry),
}

/// Why a byte string is not a packet.
#[derive(Clone, Copy, Debug, PartialEq, Eq, Structural)]
pub enum DecodeError {
    /// Fewer bytes than the tag's fields need.
    Truncated,
    /// The first byte names no variant.
    UnknownTag(u8),
    /// Bytes left over after a complete packet.
    TrailingBytes,
}

pub const TAG_TAKE_PHOTO: u8 = 0;

pub const TAG_SET_VELOCITY: u8 = 1;

pub const TAG_SET_ANGLE: u8 = 2;

pub const TAG_VIDEO: u8 = 0;

pub const TAG_PHOTO: u8 = 1;

pub const TAG_ODOMETRY: u8 = 2;

/// Length of the longest buffer a telemetry packet can carry.
pub const MAX_BUFFER_LEN: usize = 0xffff_ffff;

impl View for PacketToMaster {
    type V = TelemetryView;

    open spec fn view(&self) -> TelemetryView {
        match self {
            PacketToMaster::Video(b) => TelemetryView::Video(b@),
            PacketToMaster::Photo(b) => TelemetryView::Photo(b@),
            PacketToMaster::Odometry(o) => TelemetryView::Odometry(*o),
        }
    }
}

impl TelemetryView {
    /// Every buffer fits the 32-bit count.
    pub open spec fn wf(self) -> bool {
        match self {
            TelemetryView::Video(b) => b.len() <= MAX_BUFFER_LEN,
            TelemetryView::Photo(b) => b.len() <= MAX_BUFFER_LEN,
            TelemetryView::Odometry(_) => true,
        }
    }
}

/// A tag byte followed by a counted buffer.
pub open spec fn buffer_bytes(tag: u8, b: Seq<u8>) -> Seq<u8> {
    seq![tag] + le32(b.len() as u32) + b
}

/// The encoding of a command.
pub open spec fn slave_bytes(p: PacketToSlave) -> Seq<u8> {
    match p {
        PacketToSlave::TakePhoto => seq![TAG_TAKE_PHOTO],
        PacketToSlave::SetVelocity(v) => seq![TAG_SET_VELOCITY] + le64(v.linear) + le64(
            v.angular,
        ),
        PacketToSlave::SetAngle(a) => seq![TAG_SET_ANGLE] + le64(a),
    }
}

/// The encoding of a telemetry packet.
pub open spec fn master_bytes(p: TelemetryView) -> Seq<u8> {
    match p {
        TelemetryView::Video(b) => buffer_bytes(TAG_VIDEO, b),
        TelemetryView::Photo(b) => buffer_bytes(TAG_PHOTO, b),
        TelemetryView::Odometry(o) => seq![TAG_ODOMETRY] + le64(o.x) + le64(o.y) + le64(o.theta),
    }
}

/// The 64-bit word at `b[at..at + 8]`.
pub open spec fn word_at(b: Seq<u8>, at: int) -> u64 {
    spec_u64_from_le_bytes(b.subrange(at, at + 8))
}

/// The outcome for a variant of fixed size `need`: short input is truncated,
/// long input has trailing bytes.
pub open spec fn sized<T>(b: Seq<u8>, need: nat, p: T) -> Result<T, DecodeError> {
    if b.len() < need {
        Err(DecodeError::Truncated)
    } else if b.len() > need {
        Err(DecodeError::TrailingBytes)
    } else {
        Ok(p)
    }
}

/// What a byte string decodes to as a command.
pub open spec fn parse_slave(b: Seq<u8>) -> Result<PacketToSlave, DecodeError> {
    if b.len() == 0 {
        Err(DecodeError::Truncated)
    } else if b[0] == TAG_TAKE_PHOTO {
        sized(b, 1, PacketToSlave::TakePhoto)
    } else if b[0] == TAG_SET_VELOCITY {
        sized(
            b,
            17,
            PacketToSlave::SetVelocity(Velocity { linear: word_at(b, 1), angular: word_at(b, 9) }),
        )
    } else if b[0] == TAG_SET_ANGLE {
        sized(b, 9, PacketToSlave::SetAngle(word_at(b, 1)))
    } else {
        Err(DecodeError::UnknownTag(b[0]))
    }
}

/// The count of a buffer variant, read from `b[1..5]`.
pub open spec fn count_at(b: Seq<u8>) -> nat {
    spec_u32_from_le_bytes(b.subrange(1, 5)) as nat
}

/// What a byte string decodes to as a telemetry packet.
pub open spec fn parse_master(b: Seq<u8>) -> Result<TelemetryView, DecodeError> {
    if b.len() == 0 {
        Err(DecodeError::Truncated)
    } else if b[0] == TAG_VIDEO || b[0] == TAG_PHOTO {
        if b.len() < 5 {
            Err(DecodeError::Truncated)
        } else {
            let body = b.subrange(5, 5 + count_at(b) as int);
            let p = if b[0] == TAG_VIDEO {
                TelemetryView::Video(body)
            } else {
                TelemetryView::Photo(body)
            };
            sized(b, 5 + count_at(b), p)
        }
    } else if b[0] == TAG_ODOMETRY {
        sized(
            b,
            25,
            TelemetryView::Odometry(
                Odometry { x: word_at(b, 1), y: word_at(b, 9), theta: word_at(b, 17) },
            ),
        )
    } else {
        Err(DecodeError::UnknownTag(b[0]))
    }
}

/// Reads the 64-bit word at `b[at..at + 8]`.
fn read_word(b: &[u8], at: usize) -> (r: u64)
    requires
        at <= 17,
        at + 8 <= b@.len(),
    ensures
        r == word_at(b@, at as int),
{
    u64_from_le_bytes(&b[at..at + 8])
}

impl PacketToSlave {
    /// The wire bytes of this command.
    pub fn encode(&self) -> (r: Vec<u8>)
        ensures
            r@ == slave_bytes(*self),
    {
        let mut r: Vec<u8> = Vec::new();
        match self {
            PacketToSlave::TakePhoto => {
                r.push(TAG_TAKE_PHOTO);
            },
            PacketToSlave::SetVelocity(v) => {
                r.push(TAG_SET_VELOCITY);
                push_all(&mut r, le64_bytes(v.linear).as_slice());
                push_all(&mut r, le64_bytes(v.angular).as_slice());
            },
            PacketToSlave::SetAngle(a) => {
                r.push(TAG_SET_ANGLE);
                push_all(&mut r, le64_bytes(*a).as_slice());
            },
        }
        assert(r@ =~= slave_bytes(*self));
        r
    }

    /// The command that `bytes` encodes.
    pub fn decode(bytes: &[u8]) -> (r: Result<PacketToSlave, DecodeError>)
        ensures
            r == parse_slave(bytes@),
    {
        let n = bytes.len();
        if n == 0 {
            return Err(DecodeError::Truncated);
        }
        let tag = bytes[0];
        let need: usize = if tag == TAG_TAKE_PHOTO {
            1
        } else if tag == TAG_SET_VELOCITY {
            17
        } else if tag == TAG_SET_ANGLE {
            9
        } else {
            return Err(DecodeError::UnknownTag(tag));
        };
        if n < need {
            return Err(DecodeError::Truncated);
        }
        if n > need {
            return Err(DecodeError::TrailingBytes);
        }
        if tag == TAG_TAKE_PHOTO {
            Ok(PacketToSlave::TakePhoto)
        } else if tag == TAG_SET_VELOCITY {
            let linear = read_word(bytes, 1);
            let angular = read_word(bytes, 9);
            Ok(PacketToSlave::SetVelocity(Velocity { linear, angular }))
        } else {
            Ok(PacketToSlave::SetAngle(read_word(bytes, 1)))
        }
    }
}

impl PacketToMaster {
    /// Every buffer fits the 32-bit count.
    pub open spec fn wf(&self) -> bool {
        self@.wf()
    }

    /// The wire bytes of this packet.
    pub fn encode(&self) -> (r: Vec<u8>)
        requires
            self.wf(),
        ensures
            r@ == master_bytes(self@),
    {
        let mut r: Vec<u8> = Vec::new();
        match self {
            PacketToMaster::Video(b) => {
                r.push(TAG_VIDEO);
                push_all(&mut r, le32_bytes(b.len() as u32).as_slice());
                push_all(&mut r, b.as_slice());
            },
            PacketToMaster::Photo(b) => {
                r.push(TAG_PHOTO);
                push_all(&mut r, le32_bytes(b.len() as u32).as_slice());
                push_all(&mut r, b.as_slice());
            },
            PacketToMaster::Odometry(o) => {
                r.push(TAG_ODOMETRY);
                push_all(&mut r, le64_bytes(o.x).as_slice());
                push_all(&mut r, le64_bytes(o.y).as_slice());
                push_all(&mut r, le64_bytes(o.theta).as_slice());
            },
        }
        assert(r@ =~= master_bytes(self@));
        r
    }

    /// The telemetry packet that `bytes` encodes.
    pub fn decode(bytes: &[u8]) -> (r: Result<PacketToMaster, DecodeError>)
        ensures
            r matches Ok(p) ==> parse_master(bytes@) == Ok::<TelemetryView, DecodeError>(p@),
            r matches Err(e) ==> parse_master(bytes@) == Err::<TelemetryView, DecodeError>(e),
    {
        let n = bytes.len();
        if n == 0 {
            return Err(DecodeError::Truncated);
        }
        let tag = bytes[0];
        if tag == TAG_VIDEO || tag == TAG_PHOTO {
            if n < 5 {
                return Err(DecodeError::Truncated);
            }
            let count = u32_from_le_bytes(&bytes[1..5]) as usize;
            if n - 5 < count {
                return Err(DecodeError::Truncated);
            }
            if n - 5 > count {
                return Err(DecodeError::TrailingBytes);
            }
            let body = copy_range(bytes, 5, n);
            if tag == TAG_VIDEO {
                Ok(PacketToMaster::Video(body))
            } else {
                Ok(PacketToMaster::Photo(body))
            }
        } else if tag == TAG_ODOMETRY {
            if n < 25 {
                return Err(DecodeError::Truncated);
            }
            if n > 25 {
                return Err(DecodeError::TrailingBytes);
            }
            let x = read_word(bytes, 1);
            let y = read_word(bytes, 9);
            let theta = read_word(bytes, 17);
            Ok(PacketToMaster::Odometry(Odometry { x, y, theta }))
        } else {
            Err(DecodeError::UnknownTag(tag))
        }
    }

    /// Whether two packets hold the same variant and the same contents.
    pub fn same_as(&self, other: &PacketToMaster) -> (r: bool)
        ensures
            r == (self@ == other@),
    {
        match (self, other) {
            (PacketToMaster::Video(a), PacketToMaster::Video(b)) => same_bytes(a, b),
            (PacketToMaster::Photo(a), PacketToMaster::Photo(b)) => same_bytes(a, b),
            (PacketToMaster::Odometry(a), PacketToMaster::Odometry(b)) => *a == *b,
            _ => false,
        }
    }
}

impl PartialEq for PacketToMaster {
    fn eq(&self, other: &PacketToMaster) -> bool {
        self.same_as(other)
    }
}

impl vstd::std_specs::cmp::PartialEqSpecImpl for PacketToMaster {
    open spec fn obeys_eq_spec() -> bool {
        true
    }

    open spec fn eq_spec(&self, other: &PacketToMaster) -> bool {
        self@ == other@
    }
}

/// Decoding the encoding of any command gives that command back.
pub proof fn lemma_slave_round_trip(p: PacketToSlave)
    ensures
        parse_slave(slave_bytes(p)) == Ok::<PacketToSlave, DecodeError>(p),
{
    lemma_le_words();
    let b = slave_bytes(p);
    match p {
        PacketToSlave::TakePhoto => {},
        PacketToSlave::SetVelocity(v) => {
            assert(b.subrange(1, 9) =~= le64(v.linear));
            assert(b.subrange(9, 17) =~= le64(v.angular));
        },
        PacketToSlave::SetAngle(a) => {
            assert(b.subrange(1, 9) =~= le64(a));
        },
    }
}

/// Decoding any proper prefix of a command's encoding reports truncation.
pub proof fn lemma_slave_prefix_truncated(p: PacketToSlave, k: int)
    requires
        0 <= k < slave_bytes(p).len(),
    ensures
        parse_slave(slave_bytes(p).take(k)) == Err::<PacketToSlave, DecodeError>(
            DecodeError::Truncated,
        ),
{
    lemma_le_words();
    let b = slave_bytes(p);
    if k > 0 {
        assert(b.take(k)[0] == b[0]);
    }
}

/// Decoding the encoding of any telemetry packet whose buffers fit the count
/// gives that packet back.
pub proof fn lemma_master_round_trip(p: TelemetryView)
    requires
        p.wf(),
    ensures
        parse_master(master_bytes(p)) == Ok::<TelemetryView, DecodeError>(p),
{
    lemma_le_words();
    let b = master_bytes(p);
    match p {
        TelemetryView::Video(body) => {
            assert(b.subrange(1, 5) =~= le32(body.len() as u32));
            assert(b.subrange(5, 5 + body.len() as int) =~= body);
        },
        TelemetryView::Photo(body) => {
            assert(b.subrange(1, 5) =~= le32(body.len() as u32));
            assert(b.subrange(5, 5 + body.len() as int) =~= body);
        },
        TelemetryView::Odometry(o) => {
            assert(b.subrange(1, 9) =~= le64(o.x));
            assert(b.subrange(9, 17) =~= le64(o.y));
            assert(b.subrange(17, 25) =~= le64(o.theta));
        },
    }
}

/// Decoding any proper prefix of a telemetry packet's encoding reports
/// truncation.
pub proof fn lemma_master_prefix_truncated(p: TelemetryView, k: int)
    requires
        p.wf(),
        0 <= k < master_bytes(p).len(),
    ensures
        parse_master(master_bytes(p).take(k)) == Err::<TelemetryView, DecodeError>(
            DecodeError::Truncated,
        ),
{
    lemma_le_words();
    let b = master_bytes(p);
    let t = b.take(k);
    if k > 0 {
        assert(t[0] == b[0]);
    }
    match p {
        TelemetryView::Video(body) => {
            if k >= 5 {
                assert(t.subrange(1, 5) =~= le32(body.len() as u32));
            }
        },
        TelemetryView::Photo(body) => {
            if k >= 5 {
                assert(t.subrange(1, 5) =~= le32(body.len() as u32));
            }
        },
        TelemetryView::Odometry(_) => {},
    }
}

} // verus!
