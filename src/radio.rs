//! The serial radio link: the modem's configuration handshake and the
//! length-prefixed framing of the data phase.
use crate::bytes::{be32, be32_bytes, be32_read, be32_value, copy_range, lemma_le_words, push_all};
use vstd::prelude::*;

verus! {

/// Settings of the radio modem, in the modem's own codes.
#[derive(Clone, Copy, Debug)]
pub struct RadioConfig {
    pub channel: u8,
    pub band: u8,
    pub rf_rate: u8,
    pub rf_power: u8,
    pub serial_rate: u8,
    pub data_bits: u8,
    pub stop_bits: u8,
    pub parity: u8,
    pub net_id: [u8; 4],
    pub node_id: [u8; 2],
}

/// The byte that ends a set-configuration command.
pub const CONFIG_TERMINATOR: u8 = 0x0A;

/// Length of the modem's settings reply.
pub const SETTINGS_REPLY_LEN: usize = 16;

/// Length of the modem's reply to a set-configuration command.
pub const CONFIG_REPLY_LEN: usize = 4;

/// The command that asks the modem for its settings.
pub open spec fn get_config_bytes() -> Seq<u8> {
    seq![0xAAu8, 0xFAu8, 0x01u8]
}

/// The command that sets the modem's configuration.
pub open spec fn set_config_bytes(c: RadioConfig) -> Seq<u8> {
    seq![0xAAu8, 0xFAu8, 0x03u8, c.channel, c.band, c.rf_rate, c.rf_power, c.serial_rate,
        c.data_bits, c.stop_bits, c.parity]
        + c.net_id@
        + c.node_id@
        + seq![CONFIG_TERMINATOR]
}

/// The reply of a modem that took a configuration: `"OK\r\n"`.
pub open spec fn ok_reply() -> Seq<u8> {
    seq![0x4Fu8, 0x4Bu8, 0x0Du8, 0x0Au8]
}

impl RadioConfig {
    /// The link's configuration: channel 7 on the 433 MHz band, the highest RF
    /// rate and power, 57600 baud with 8 data bits, one stop bit and no parity.
    pub fn link() -> (r: RadioConfig)
        ensures
            r.channel == 7 && r.band == 1 && r.rf_rate == 8 && r.rf_power == 7,
            r.serial_rate == 7 && r.data_bits == 2 && r.stop_bits == 1 && r.parity == 1,
            r.net_id@ == seq![0x22u8, 0xB4u8, 0xE6u8, 0x21u8],
            r.node_id@ == seq![0u8, 0u8],
    {
        RadioConfig {
            channel: 7,
            band: 1,
            rf_rate: 8,
            rf_power: 7,
            serial_rate: 7,
            data_bits: 2,
            stop_bits: 1,
            parity: 1,
            net_id: [0x22, 0xB4, 0xE6, 0x21],
            node_id: [0, 0],
        }
    }
}

/// The command that asks the modem for its settings.
pub fn get_config_command() -> (r: Vec<u8>)
    ensures
        r@ == get_config_bytes(),
{
    let r = vec![0xAAu8, 0xFAu8, 0x01u8];
    assert(r@ =~= get_config_bytes());
    r
}

/// The command that sets the modem's configuration to `c`.
pub fn set_config_command(c: &RadioConfig) -> (r: Vec<u8>)
    ensures
        r@ == set_config_bytes(*c),
        r@.len() == 18,
{
    let r = vec![
        0xAAu8,
        0xFAu8,
        0x03u8,
        c.channel,
        c.band,
        c.rf_rate,
        c.rf_power,
        c.serial_rate,
        c.data_bits,
        c.stop_bits,
        c.parity,
        c.net_id[0],
        c.net_id[1],
        c.net_id[2],
        c.net_id[3],
        c.node_id[0],
        c.node_id[1],
        CONFIG_TERMINATOR,
    ];
    assert(r@ =~= set_config_bytes(*c));
    r
}

/// Whether the modem's reply says that it took the configuration.
pub fn config_accepted(reply: &[u8]) -> (r: bool)
    ensures
        r == (reply@ == ok_reply()),
{
    let ok = reply.len() == 4 && reply[0] == 0x4F && reply[1] == 0x4B && reply[2] == 0x0D
        && reply[3] == 0x0A;
    if ok {
        assert(reply@ =~= ok_reply());
    }
    ok
}

// ---------------------------------------------------------------------------
// Configuration handshake
/// Where the configuration handshake stands.
#[derive(Clone, Copy, Debug, PartialEq, Eq, Structural)]
pub enum HandshakePhase {
    /// Discarding stray bytes before the first command.
    FlushBefore,
    /// Waiting for the settings reply.
    AwaitSettings,
    /// Waiting for the reply to the set-configuration command.
    AwaitReply,
    /// Discarding stray bytes after the exchange.
    FlushAfter,
    Done,
}

/// A command to the modem.
#[derive(Clone, Copy, Debug, PartialEq, Eq, Structural)]
pub enum RadioCommand {
    GetConfig,
    SetConfig,
}

/// What the handshake asks the serial device for next.
#[derive(Clone, Copy, Debug, PartialEq, Eq, Structural)]
pub enum HandshakeAction {
    /// Report how many bytes are waiting.
    QueryPending,
    /// Read and discard one byte, then report how many bytes are waiting.
    DiscardByte,
    /// Write the command, then read exactly `reply_len` bytes and hand them
    /// back.
    Exchange { command: RadioCommand, reply_len: usize },
    /// The handshake is over; the link goes on either way.
    Finish { configured: bool },
}

/// The configuration handshake with the radio modem.
#[derive(Clone, Copy, Debug, PartialEq, Eq, Structural)]
pub struct Handshake {
    pub phase: HandshakePhase,
    /// Whether the modem took the configuration.
    pub configured: bool,
}

/// The handshake before it has begun.
pub open spec fn handshake_start() -> (Handshake, HandshakeAction) {
    (
        Handshake { phase: HandshakePhase::FlushBefore, configured: false },
        HandshakeAction::QueryPending,
    )
}

/// Whether the handshake waits for a count of pending bytes.
pub open spec fn awaits_count(h: Handshake) -> bool {
    h.phase is FlushBefore || h.phase is FlushAfter
}

/// Whether the handshake waits for a reply.
pub open spec fn awaits_reply(h: Handshake) -> bool {
    h.phase is AwaitSettings || h.phase is AwaitReply
}

/// What follows a count of `n` pending bytes.
pub open spec fn after_count(h: Handshake, n: nat) -> (Handshake, HandshakeAction) {
    if n > 0 {
        (h, HandshakeAction::DiscardByte)
    } else if h.phase is FlushBefore {
        (
            Handshake { phase: HandshakePhase::AwaitSettings, ..h },
            HandshakeAction::Exchange {
                command: RadioCommand::GetConfig,
                reply_len: SETTINGS_REPLY_LEN,
            },
        )
    } else {
        (
            Handshake { phase: HandshakePhase::Done, ..h },
            HandshakeAction::Finish { configured: h.configured },
        )
    }
}

/// What follows a reply.
pub open spec fn after_reply(h: Handshake, reply: Seq<u8>) -> (Handshake, HandshakeAction) {
    if h.phase is AwaitSettings {
        (
            Handshake { phase: HandshakePhase::AwaitReply, ..h },
            HandshakeAction::Exchange {
                command: RadioCommand::SetConfig,
                reply_len: CONFIG_REPLY_LEN,
            },
        )
    } else {
        (
            Handshake { phase: HandshakePhase::FlushAfter, configured: reply == ok_reply() },
            HandshakeAction::QueryPending,
        )
    }
}

impl Handshake {
    /// A handshake about to begin, and what it asks for first.
    pub fn start() -> (r: (Handshake, HandshakeAction))
        ensures
            r == handshake_start(),
    {
        (
            Handshake { phase: HandshakePhase::FlushBefore, configured: false },
            HandshakeAction::QueryPending,
        )
    }

    /// Whether the handshake waits for a count of pending bytes.
    pub fn awaits_count(&self) -> (r: bool)
        ensures
            r == awaits_count(*self),
    {
        match self.phase {
            HandshakePhase::FlushBefore | HandshakePhase::FlushAfter => true,
            _ => false,
        }
    }

    /// Whether the handshake waits for a reply.
    pub fn awaits_reply(&self) -> (r: bool)
        ensures
            r == awaits_reply(*self),
    {
        match self.phase {
            HandshakePhase::AwaitSettings | HandshakePhase::AwaitReply => true,
            _ => false,
        }
    }

    /// Takes the number of bytes waiting on the line.
    pub fn on_pending(&mut self, n: usize) -> (r: HandshakeAction)
        requires
            awaits_count(*old(self)),
        ensures
            (*final(self), r) == after_count(*old(self), n as nat),
    {
        if n > 0 {
            HandshakeAction::DiscardByte
        } else if self.phase == HandshakePhase::FlushBefore {
            self.phase = HandshakePhase::AwaitSettings;
            HandshakeAction::Exchange {
                command: RadioCommand::GetConfig,
                reply_len: SETTINGS_REPLY_LEN,
            }
        } else {
            self.phase = HandshakePhase::Done;
            HandshakeAction::Finish { configured: self.configured }
        }
    }

    /// Takes the modem's reply to the last command.
    pub fn on_reply(&mut self, reply: &[u8]) -> (r: HandshakeAction)
        requires
            awaits_reply(*old(self)),
        ensures
            (*final(self), r) == after_reply(*old(self), reply@),
    {
        if self.phase == HandshakePhase::AwaitSettings {
            self.phase = HandshakePhase::AwaitReply;
            HandshakeAction::Exchange {
                command: RadioCommand::SetConfig,
                reply_len: CONFIG_REPLY_LEN,
            }
        } else {
            self.phase = HandshakePhase::FlushAfter;
            self.configured = config_accepted(reply);
            HandshakeAction::QueryPending
        }
    }
}

/// On a quiet line the handshake exchanges the two commands and finishes,
/// whatever the modem replies: it reports the configuration as taken exactly
/// when the reply is `"OK\r\n"`.
pub proof fn lemma_handshake_finishes(settings: Seq<u8>, reply: Seq<u8>)
    ensures
        ({
            let (h0, a0) = handshake_start();
            let (h1, a1) = after_count(h0, 0);
            let (h2, a2) = after_reply(h1, settings);
            let (h3, a3) = after_reply(h2, reply);
            let (h4, a4) = after_count(h3, 0);
            &&& a0 == HandshakeAction::QueryPending
            &&& a1 == HandshakeAction::Exchange {
                command: RadioCommand::GetConfig,
                reply_len: SETTINGS_REPLY_LEN,
            }
            &&& a2 == HandshakeAction::Exchange {
                command: RadioCommand::SetConfig,
                reply_len: CONFIG_REPLY_LEN,
            }
            &&& a3 == HandshakeAction::QueryPending
            &&& a4 == HandshakeAction::Finish { configured: reply == ok_reply() }
            &&& h4.phase == HandshakePhase::Done
        }),
{
}

// ---------------------------------------------------------------------------
// Data-phase framing
/// The largest payload a frame can carry.
pub const MAX_FRAME_PAYLOAD: usize = 0xffff_ffff;

/// A payload behind its big-endian 32-bit length.
pub open spec fn frame_bytes(p: Seq<u8>) -> Seq<u8> {
    be32(p.len() as u32) + p
}

/// The framed payloads one after another.
pub open spec fn framed(ps: Seq<Seq<u8>>) -> Seq<u8>
    decreases ps.len(),
{
    if ps.len() == 0 {
        seq![]
    } else {
        frame_bytes(ps[0]) + framed(ps.drop_first())
    }
}

/// The complete frames at the front of `s`, and the bytes after them.
pub open spec fn split_frames(s: Seq<u8>) -> (Seq<Seq<u8>>, Seq<u8>)
    decreases s.len(),
{
    if s.len() < 4 {
        (seq![], s)
    } else {
        let n = be32_value(s.subrange(0, 4)) as int;
        if s.len() < 4 + n {
            (seq![], s)
        } else {
            let rest = split_frames(s.subrange(4 + n, s.len() as int));
            (seq![s.subrange(4, 4 + n)] + rest.0, rest.1)
        }
    }
}

/// The frame that carries `payload`, or nothing when it is too long for the
/// 32-bit length.
pub fn frame(payload: &[u8]) -> (r: Option<Vec<u8>>)
    ensures
        payload@.len() > MAX_FRAME_PAYLOAD ==> r is None,
        payload@.len() <= MAX_FRAME_PAYLOAD ==> (r matches Some(f) && f@ == frame_bytes(payload@)),
{
    if payload.len() > MAX_FRAME_PAYLOAD {
        return None;
    }
    let mut r = be32_bytes(payload.len() as u32);
    push_all(&mut r, payload);
    Some(r)
}

/// Collects the bytes read from the line and hands out whole frames.
pub struct FrameReader {
    pending: Vec<u8>,
}

impl FrameReader {
    /// Bytes read but not yet part of a whole frame.
    pub closed spec fn spec_pending(&self) -> Seq<u8> {
        self.pending@
    }

    /// A reader that has seen nothing.
    pub fn new() -> (r: FrameReader)
        ensures
            r.spec_pending() == Seq::<u8>::empty(),
    {
        FrameReader { pending: Vec::new() }
    }

    /// Takes bytes read from the line and returns the frames' payloads they
    /// complete, in order.
    pub fn push(&mut self, bytes: &[u8]) -> (r: Vec<Vec<u8>>)
        ensures
            ({
                let (frames, rest) = split_frames(old(self).spec_pending() + bytes@);
                &&& r@.map_values(|f: Vec<u8>| f@) == frames
                &&& final(self).spec_pending() == rest
            }),
    {
        let mut all: Vec<u8> = Vec::new();
        std::mem::swap(&mut all, &mut self.pending);
        push_all(&mut all, bytes);
        let ghost whole = all@;
        let mut frames: Vec<Vec<u8>> = Vec::new();
        let mut pos: usize = 0;
        assert(whole.subrange(0, whole.len() as int) =~= whole);
        assert(frames@.map_values(|f: Vec<u8>| f@) + split_frames(whole).0 =~= split_frames(
            whole,
        ).0);
        while all.len() - pos >= 4
            invariant
                all@ == whole,
                pos <= all@.len(),
                split_frames(whole) == (frames@.map_values(|f: Vec<u8>| f@) + split_frames(
                    whole.subrange(pos as int, whole.len() as int),
                ).0, split_frames(whole.subrange(pos as int, whole.len() as int)).1),
            ensures
                split_frames(whole.subrange(pos as int, whole.len() as int)).0 =~= Seq::<
                    Seq<u8>,
                >::empty(),
            decreases all@.len() - pos,
        {
            let ghost tail = whole.subrange(pos as int, whole.len() as int);
            let n = be32_read(&all[pos..pos + 4]) as usize;
            assert(all@.subrange(pos as int, pos + 4) =~= tail.subrange(0, 4));
            if all.len() - pos - 4 < n {
                break;
            }
            let end = pos + 4 + n;
            let payload = copy_range(&all, pos + 4, end);
            assert(payload@ =~= tail.subrange(4, 4 + n as int));
            assert(whole.subrange(end as int, whole.len() as int) =~= tail.subrange(
                4 + n as int,
                tail.len() as int,
            ));
            let ghost before = frames@.map_values(|f: Vec<u8>| f@);
            frames.push(payload);
            assert(frames@.map_values(|f: Vec<u8>| f@) =~= before.push(payload@));
            assert(before.push(payload@) + split_frames(
                whole.subrange(end as int, whole.len() as int),
            ).0 =~= before + split_frames(tail).0);
            pos = end;
        }
        self.pending = copy_range(&all, pos, all.len());
        assert(frames@.map_values(|f: Vec<u8>| f@) + Seq::<Seq<u8>>::empty() =~= frames@.map_values(
            |f: Vec<u8>| f@,
        ));
        frames
    }
}

/// Framing payloads one after another and splitting the result gives the
/// payloads back, with nothing left over.
pub proof fn lemma_frames_round_trip(ps: Seq<Seq<u8>>)
    requires
        forall|i: int| 0 <= i < ps.len() ==> #[trigger] ps[i].len() <= MAX_FRAME_PAYLOAD,
    ensures
        split_frames(framed(ps)) == (ps, Seq::<u8>::empty()),
    decreases ps.len(),
{
    lemma_le_words();
    if ps.len() == 0 {
    } else {
        let p = ps[0];
        let rest = ps.drop_first();
        assert forall|i: int| 0 <= i < rest.len() implies #[trigger] rest[i].len()
            <= MAX_FRAME_PAYLOAD by {
            assert(rest[i] == ps[i + 1]);
        }
        lemma_frames_round_trip(rest);
        let s = framed(ps);
        let n = p.len() as int;
        assert(s.subrange(0, 4) =~= be32(p.len() as u32));
        assert(s.subrange(4, 4 + n) =~= p);
        assert(s.subrange(4 + n, s.len() as int) =~= framed(rest));
        assert(seq![p] + rest =~= ps);
    }
}

/// Splitting is indifferent to how the bytes arrive: splitting `a` and then
/// the bytes it left over followed by `b` gives the same frames, in the same
/// order, and the same leftover as splitting `a + b` at once.
pub proof fn lemma_split_frames_append(a: Seq<u8>, b: Seq<u8>)
    ensures
        ({
            let (f1, r1) = split_frames(a);
            let (f2, r2) = split_frames(r1 + b);
            split_frames(a + b) == (f1 + f2, r2)
        }),
    decreases a.len(),
{
    let (f1, r1) = split_frames(a);
    let (f2, r2) = split_frames(r1 + b);
    let ab = a + b;
    if a.len() < 4 || a.len() < 4 + be32_value(a.subrange(0, 4)) {
        assert(f1 =~= Seq::<Seq<u8>>::empty());
        assert(f1 + f2 =~= f2);
    } else {
        let n = be32_value(a.subrange(0, 4)) as int;
        let tail = a.subrange(4 + n, a.len() as int);
        lemma_split_frames_append(tail, b);
        assert(ab.subrange(0, 4) =~= a.subrange(0, 4));
        assert(ab.subrange(4, 4 + n) =~= a.subrange(4, 4 + n));
        assert(ab.subrange(4 + n, ab.len() as int) =~= tail + b);
        let (g1, s1) = split_frames(tail);
        assert(f1 == seq![a.subrange(4, 4 + n)] + g1);
        assert(r1 == s1);
        assert(seq![a.subrange(4, 4 + n)] + (g1 + f2) =~= f1 + f2);
    }
}

} // verus!
