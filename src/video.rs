//! The video pipeline's own logic: colour conversion of captured frames, the
//! encoder's frame intake and the codecs' status handling.
use dcv_color_primitives as dcp;
use dcv_color_primitives::{ColorSpace as Cs, PixelFormat as Pf};
use vstd::prelude::*;

verus! {

// ---------------------------------------------------------------------------
// RGB to YCbCr (BT.601, studio range)
/// Saturates an integer to a byte.
pub open spec fn clamp_byte(v: int) -> u8 {
    if v < 0 {
        0
    } else if v > 255 {
        255
    } else {
        v as u8
    }
}

/// `num / den` rounded to the nearest integer, halves away from zero, for a
/// non-negative `num` and positive `den`.
pub open spec fn round_div(num: int, den: int) -> int {
    (2 * num + den) / (2 * den)
}

/// Luma of a pixel: `16 + (65.481 r + 128.553 g + 24.966 b) / 255`, rounded.
pub open spec fn luma(r: u8, g: u8, b: u8) -> u8 {
    clamp_byte(round_div(16 * 255_000 + 65_481 * r + 128_553 * g + 24_966 * b, 255_000))
}

/// Blue-difference chroma: `128 + (-37.797 r - 74.203 g + 112 b) / 255`,
/// rounded.
pub open spec fn chroma_blue(r: u8, g: u8, b: u8) -> u8 {
    clamp_byte(round_div(128 * 255_000 - 37_797 * r - 74_203 * g + 112_000 * b, 255_000))
}

/// Red-difference chroma: `128 + (112 r - 93.786 g - 18.214 b) / 255`,
/// rounded.
pub open spec fn chroma_red(r: u8, g: u8, b: u8) -> u8 {
    clamp_byte(round_div(128 * 255_000 + 112_000 * r - 93_786 * g - 18_214 * b, 255_000))
}

/// Saturates `v` to a byte.
pub fn clamp(v: i64) -> (r: u8)
    ensures
        r == clamp_byte(v as int),
{
    if v < 0 {
        0
    } else if v > 255 {
        255
    } else {
        v as u8
    }
}

/// The luma and chroma bytes of one RGB pixel.
pub fn to_ycbcr(r: u8, g: u8, b: u8) -> (out: (u8, u8, u8))
    ensures
        out == (luma(r, g, b), chroma_blue(r, g, b), chroma_red(r, g, b)),
{
    let (r, g, b) = (r as i64, g as i64, b as i64);
    let y = 16 * 255_000 + 65_481 * r + 128_553 * g + 24_966 * b;
    let cb = 128 * 255_000 - 37_797 * r - 74_203 * g + 112_000 * b;
    let cr = 128 * 255_000 + 112_000 * r - 93_786 * g - 18_214 * b;
    (clamp((2 * y + 255_000) / 510_000), clamp((2 * cb + 255_000) / 510_000), clamp(
        (2 * cr + 255_000) / 510_000,
    ))
}

/// Three planes, one byte of each per pixel.
pub struct Planes {
    pub y: Vec<u8>,
    pub cb: Vec<u8>,
    pub cr: Vec<u8>,
}

/// Splits interleaved RGB pixels into planar luma and chroma.
pub fn rgb_to_planes(rgb: &[u8]) -> (p: Planes)
    requires
        rgb@.len() % 3 == 0,
    ensures
        p.y@.len() == rgb@.len() / 3,
        p.cb@.len() == rgb@.len() / 3,
        p.cr@.len() == rgb@.len() / 3,
        forall|i: int|
            0 <= i < rgb@.len() / 3 ==> {
                let (r, g, b) = (rgb@[3 * i], rgb@[3 * i + 1], rgb@[3 * i + 2]);
                &&& #[trigger] p.y@[i] == luma(r, g, b)
                &&& p.cb@[i] == chroma_blue(r, g, b)
                &&& p.cr@[i] == chroma_red(r, g, b)
            },
{
    let len = rgb.len();
    let n = len / 3;
    let mut y: Vec<u8> = Vec::with_capacity(n);
    let mut cb: Vec<u8> = Vec::with_capacity(n);
    let mut cr: Vec<u8> = Vec::with_capacity(n);
    let mut i: usize = 0;
    while i < n
        invariant
            len == rgb@.len(),
            n == rgb@.len() / 3,
            rgb@.len() % 3 == 0,
            i <= n,
            y@.len() == i && cb@.len() == i && cr@.len() == i,
            forall|j: int|
                0 <= j < i ==> {
                    let (r, g, b) = (rgb@[3 * j], rgb@[3 * j + 1], rgb@[3 * j + 2]);
                    &&& #[trigger] y@[j] == luma(r, g, b)
                    &&& cb@[j] == chroma_blue(r, g, b)
                    &&& cr@[j] == chroma_red(r, g, b)
                },
        decreases n - i,
    {
        assert(3 * i + 2 < rgb@.len()) by (nonlinear_arith)
            requires
                i < n,
                n == rgb@.len() / 3,
        ;
        let (py, pb, pr) = to_ycbcr(rgb[3 * i], rgb[3 * i + 1], rgb[3 * i + 2]);
        y.push(py);
        cb.push(pb);
        cr.push(pr);
        i = i + 1;
    }
    Planes { y, cb, cr }
}

// ---------------------------------------------------------------------------
// Encoder intake
/// The most frames that may wait for the encoder before it coalesces.
pub const MAX_QUEUED_FRAMES: usize = 2;

/// How many of `queued` waiting frames the encoder discards before it takes
/// one: all but the newest once more than two wait, none otherwise.
pub open spec fn drop_count(queued: nat) -> nat {
    if queued > MAX_QUEUED_FRAMES {
        (queued - 1) as nat
    } else {
        0
    }
}

/// How many of `queued` waiting frames the encoder discards before it takes
/// one.
pub fn frames_to_drop(queued: usize) -> (r: usize)
    ensures
        r == drop_count(queued as nat),
{
    if queued > MAX_QUEUED_FRAMES {
        queued - 1
    } else {
        0
    }
}

/// Takes the next frame to encode from the waiting frames, oldest first,
/// discarding all but the newest once more than two wait.
pub fn take_for_encode<T>(queue: &mut Vec<T>) -> (r: Option<T>)
    ensures
        old(queue)@.len() == 0 ==> r is None && final(queue)@ == old(queue)@,
        old(queue)@.len() > 0 ==> ({
            let rest = old(queue)@.skip(drop_count(old(queue)@.len() as nat) as int);
            &&& r == Some(rest[0])
            &&& final(queue)@ == rest.drop_first()
        }),
{
    if queue.len() == 0 {
        return None;
    }
    let drop = frames_to_drop(queue.len());
    let ghost start = queue@;
    let mut k: usize = 0;
    while k < drop
        invariant
            drop == drop_count(start.len() as nat),
            drop < start.len(),
            k <= drop,
            queue@ == start.skip(k as int),
        decreases drop - k,
    {
        queue.remove(0);
        k = k + 1;
        assert(queue@ =~= start.skip(k as int));
    }
    let first = queue.remove(0);
    assert(queue@ =~= start.skip(drop as int).drop_first());
    Some(first)
}

/// The frame the next encode cycle takes from `q`, and what stays waiting.
pub open spec fn encode_cycle<A>(q: Seq<A>) -> (A, Seq<A>) {
    let rest = q.skip(drop_count(q.len()) as int);
    (rest[0], rest.drop_first())
}

/// The frames that encode cycles take from `q` when no new frame arrives, in
/// order.
pub open spec fn encoded_frames<A>(q: Seq<A>) -> Seq<A>
    decreases q.len(),
{
    if q.len() == 0 {
        seq![]
    } else {
        let (frame, rest) = encode_cycle(q);
        seq![frame] + encoded_frames(rest)
    }
}

/// Encoding the frames that wait never falls behind: when more than two wait,
/// fewer frames are encoded than waited, and the newest frame is always the
/// last one encoded.
pub proof fn lemma_coalescing<A>(q: Seq<A>)
    requires
        q.len() > 0,
    ensures
        encoded_frames(q).len() <= q.len(),
        q.len() > MAX_QUEUED_FRAMES ==> encoded_frames(q).len() < q.len(),
        encoded_frames(q).last() == q.last(),
{
    let (frame, rest) = encode_cycle(q);
    if q.len() > MAX_QUEUED_FRAMES {
        assert(rest.len() == 0);
        assert(encoded_frames(rest) =~= Seq::<A>::empty());
        assert(encoded_frames(q) =~= seq![q.last()]);
    } else if q.len() == 2 {
        assert(rest =~= seq![q[1]]);
        let (f2, r2) = encode_cycle(rest);
        assert(r2.len() == 0);
        assert(encoded_frames(r2) =~= Seq::<A>::empty());
        assert(encoded_frames(rest) =~= seq![q[1]]);
        assert(encoded_frames(q) =~= seq![q[0], q[1]]);
    } else {
        assert(rest.len() == 0);
        assert(encoded_frames(rest) =~= Seq::<A>::empty());
        assert(encoded_frames(q) =~= seq![q[0]]);
    }
}

/// Samples one of every `period` published frames, the first one included.
pub struct Decimator {
    period: u32,
    countdown: u32,
}

impl Decimator {
    pub closed spec fn spec_period(&self) -> u32 {
        self.period
    }

    /// How many samples go by before the next one is kept.
    pub closed spec fn spec_countdown(&self) -> u32 {
        self.countdown
    }

    pub open spec fn wf(&self) -> bool {
        self.spec_period() >= 1 && self.spec_countdown() < self.spec_period()
    }

    /// Keeps one sample of every `period`, starting with the next.
    pub fn new(period: u32) -> (r: Decimator)
        requires
            period >= 1,
        ensures
            r.wf(),
            r.spec_period() == period,
            r.spec_countdown() == 0,
    {
        Decimator { period, countdown: 0 }
    }

    /// Whether to keep the sample that has just arrived.
    pub fn keep_next(&mut self) -> (r: bool)
        requires
            old(self).wf(),
        ensures
            final(self).wf(),
            final(self).spec_period() == old(self).spec_period(),
            r == (old(self).spec_countdown() == 0),
            r ==> final(self).spec_countdown() == old(self).spec_period() - 1,
            !r ==> final(self).spec_countdown() == old(self).spec_countdown() - 1,
    {
        if self.countdown == 0 {
            self.countdown = self.period - 1;
            true
        } else {
            self.countdown = self.countdown - 1;
            false
        }
    }
}

// ---------------------------------------------------------------------------
// Encoder and decoder status handling
/// What the encoder reports when it does not hand out a packet or take a frame.
#[derive(Clone, Copy, Debug, PartialEq, Eq, Structural)]
pub enum EncoderStatus {
    /// It needs more frames before it can produce a packet.
    NeedMoreData,
    /// Its frame queue is full.
    EnoughData,
    /// It reached its frame limit.
    LimitReached,
    /// A frame was encoded without a packet to show for it yet.
    Encoded,
    /// It failed.
    Failure,
    /// It is not ready for this request.
    NotReady,
}

/// What the encoder loop does after handing a frame to the encoder.
#[derive(Clone, Copy, Debug, PartialEq, Eq, Structural)]
pub enum SendOutcome {
    /// The frame was queued.
    Queued,
    /// The encoder's queue was full: the frame is dropped, with a warning.
    Dropped,
    /// The encoder task ends with an error.
    Fatal,
}

/// What the encoder loop does after asking the encoder for a packet.
#[derive(Clone, Copy, Debug, PartialEq, Eq, Structural)]
pub enum ReceiveOutcome {
    /// Publish the packet.
    Publish,
    /// No packet this time; go on with the next frame.
    Continue,
    /// The frame limit was reached: warn and go on.
    Limit,
    /// The encoder task ends with an error.
    Fatal,
}

/// The outcome of handing a frame over: `None` when the encoder took it.
pub fn on_frame_sent(status: Option<EncoderStatus>) -> (r: SendOutcome)
    ensures
        status is None ==> r == SendOutcome::Queued,
        status == Some(EncoderStatus::EnoughData) ==> r == SendOutcome::Dropped,
        status matches Some(s) && s != EncoderStatus::EnoughData ==> r == SendOutcome::Fatal,
{
    match status {
        None => SendOutcome::Queued,
        Some(EncoderStatus::EnoughData) => SendOutcome::Dropped,
        Some(_) => SendOutcome::Fatal,
    }
}

/// The outcome of asking for a packet: `None` when one came.
pub fn on_packet_received(status: Option<EncoderStatus>) -> (r: ReceiveOutcome)
    ensures
        status is None ==> r == ReceiveOutcome::Publish,
        status == Some(EncoderStatus::LimitReached) ==> r == ReceiveOutcome::Limit,
        status == Some(EncoderStatus::Encoded) ==> r == ReceiveOutcome::Continue,
        status == Some(EncoderStatus::NeedMoreData) ==> r == ReceiveOutcome::Continue,
        status == Some(EncoderStatus::EnoughData) ==> r == ReceiveOutcome::Fatal,
        status == Some(EncoderStatus::Failure) ==> r == ReceiveOutcome::Fatal,
        status == Some(EncoderStatus::NotReady) ==> r == ReceiveOutcome::Fatal,
{
    match status {
        None => ReceiveOutcome::Publish,
        Some(EncoderStatus::LimitReached) => ReceiveOutcome::Limit,
        Some(EncoderStatus::Encoded) => ReceiveOutcome::Continue,
        Some(EncoderStatus::NeedMoreData) => ReceiveOutcome::Continue,
        Some(_) => ReceiveOutcome::Fatal,
    }
}

/// What the decoder reports when it refuses a request.
#[derive(Clone, Copy, Debug, PartialEq, Eq, Structural)]
pub enum DecoderStatus {
    /// It must hand out pictures before it takes more data.
    Again,
    /// The data is malformed.
    InvalidArgument,
    /// Any other failure.
    Other,
}

/// What the decode loop does after handing a chunk to the decoder.
#[derive(Clone, Copy, Debug, PartialEq, Eq, Structural)]
pub enum ChunkOutcome {
    /// The chunk was taken; wait for the next one.
    Taken,
    /// Drain pending pictures, then hand the chunk over again.
    Drain,
    /// Skip the malformed chunk, with a warning.
    Skip,
    /// The decoder task ends with an error.
    Fatal,
}

/// What the drain loop does after asking the decoder to take pending data.
#[derive(Clone, Copy, Debug, PartialEq, Eq, Structural)]
pub enum DrainOutcome {
    /// The pending data went in; hand the chunk over again.
    Retry,
    /// Fetch a picture, publish it if one came, and ask again.
    FetchPicture,
    /// The decoder task ends with an error.
    Fatal,
}

/// The outcome of handing a chunk over: `None` when the decoder took it.
pub fn on_chunk_sent(status: Option<DecoderStatus>) -> (r: ChunkOutcome)
    ensures
        status is None ==> r == ChunkOutcome::Taken,
        status == Some(DecoderStatus::Again) ==> r == ChunkOutcome::Drain,
        status == Some(DecoderStatus::InvalidArgument) ==> r == ChunkOutcome::Skip,
        status == Some(DecoderStatus::Other) ==> r == ChunkOutcome::Fatal,
{
    match status {
        None => ChunkOutcome::Taken,
        Some(DecoderStatus::Again) => ChunkOutcome::Drain,
        Some(DecoderStatus::InvalidArgument) => ChunkOutcome::Skip,
        Some(DecoderStatus::Other) => ChunkOutcome::Fatal,
    }
}

/// The outcome of handing pending data over: `None` when the decoder took it.
pub fn on_pending_sent(status: Option<DecoderStatus>) -> (r: DrainOutcome)
    ensures
        status is None ==> r == DrainOutcome::Retry,
        status == Some(DecoderStatus::Again) ==> r == DrainOutcome::FetchPicture,
        status == Some(DecoderStatus::InvalidArgument) ==> r == DrainOutcome::Fatal,
        status == Some(DecoderStatus::Other) ==> r == DrainOutcome::Fatal,
{
    match status {
        None => DrainOutcome::Retry,
        Some(DecoderStatus::Again) => DrainOutcome::FetchPicture,
        Some(_) => DrainOutcome::Fatal,
    }
}

// ---------------------------------------------------------------------------
// Planar YCbCr 4:4:4 to interleaved RGB
/// A pixel layout that the colour converter reads or writes.
#[derive(Clone, Copy, Debug, PartialEq, Eq, Structural)]
pub enum PixelLayout {
    /// Three full-size planes of BT.601 luma and chroma.
    I444,
    /// One plane of blue, green, red and alpha bytes.
    Bgra,
    /// One plane of red, green and blue bytes.
    Rgb,
}

/// Why a picture could not be converted.
#[derive(Clone, Copy, Debug, PartialEq, Eq, Structural)]
pub enum ColorError {
    /// Not three planes with three strides.
    PlaneCount,
    /// The output does not fit in memory.
    TooLarge,
    /// A plane's rows are shorter than the picture is wide.
    Stride,
    /// A plane holds fewer than its stride times the height bytes.
    ShortPlane,
}

/// The colour converter, set up for this machine.
pub struct ColorConverter {
    ready: bool,
}

/// The distance between rows of a plane: a stride of 0 means rows of
/// `row_len` bytes packed together.
pub open spec fn row_step(stride: usize, row_len: int) -> int {
    if stride == 0 {
        row_len
    } else {
        stride as int
    }
}

/// Whether a plane of one byte per pixel, read with `stride`, holds whole
/// `width`-pixel rows for all `height` rows.
pub open spec fn plane_fits(plane: Seq<u8>, stride: usize, width: u32, height: u32) -> bool {
    row_step(stride, width as int) >= width && plane.len() >= row_step(stride, width as int)
        * height
}

/// The bytes of each buffer.
pub open spec fn planes_view(planes: Seq<Vec<u8>>) -> Seq<Seq<u8>> {
    planes.map_values(|p: Vec<u8>| p@)
}

/// The size of a packed `width` by `height` picture in `layout`, for the
/// layouts of one plane.
pub open spec fn packed_len(width: u32, height: u32, layout: PixelLayout) -> int {
    match layout {
        PixelLayout::Bgra => width * height * 4,
        _ => width * height * 3,
    }
}

/// Whether the converter takes these buffers: BT.601 planes that hold their
/// rows to BGRA, or a packed BGRA plane to RGB, into an output of the packed
/// size.
pub open spec fn conversion_admitted(
    width: u32,
    height: u32,
    from: PixelLayout,
    planes: Seq<Seq<u8>>,
    strides: Seq<usize>,
    to: PixelLayout,
    out_len: usize,
) -> bool {
    &&& out_len == packed_len(width, height, to)
    &&& from == PixelLayout::I444 ==> {
        &&& to == PixelLayout::Bgra
        &&& planes.len() == 3 && strides.len() == 3
        &&& forall|i: int| 0 <= i < 3 ==> #[trigger] plane_fits(planes[i], strides[i], width, height)
    }
    &&& from == PixelLayout::Bgra ==> {
        &&& to == PixelLayout::Rgb
        &&& planes.len() == 1 && strides == seq![0usize]
        &&& planes[0].len() == width * height * 4
    }
    &&& from != PixelLayout::Rgb
}

impl ColorConverter {
    /// Sets the converter up. No other conversion may run meanwhile.
    pub fn new() -> (r: ColorConverter) {
        converter_init();
        ColorConverter { ready: true }
    }
}

/// Relies on `dcv_color_primitives::initialize`, which picks the conversion
/// routines for this machine once; later calls return at once.
#[verifier::external_body]
fn converter_init() {
    dcp::initialize();
}

/// Relies on `dcv_color_primitives::convert_image`. Once the library is set
/// up, it takes I444 (BT.601) to BGRA and BGRA to RGB. It refuses a plane
/// only by its own bounds check (stride not above the plane's length, and
/// width times height less one not above the rest), which the admitted
/// planes pass, and it fills the whole output of the packed size. Which
/// routine runs depends on the machine, so nothing is said of the bytes.
#[verifier::external_body]
fn convert_image(
    converter: &ColorConverter,
    width: u32,
    height: u32,
    from: PixelLayout,
    planes: &Vec<Vec<u8>>,
    strides: &Vec<usize>,
    to: PixelLayout,
    out_len: usize,
) -> (r: Result<Vec<u8>, ColorError>)
    requires
        conversion_admitted(width, height, from, planes_view(planes@), strides@, to, out_len),
    ensures
        r is Ok,
        r matches Ok(out) ==> out@.len() == out_len,
{
    let fmt = |l: PixelLayout| {
        let (pixel_format, color_space, num_planes) = match l {
            PixelLayout::I444 => (Pf::I444, Cs::Bt601, 3),
            PixelLayout::Bgra => (Pf::Bgra, Cs::Rgb, 1),
            PixelLayout::Rgb => (Pf::Rgb, Cs::Rgb, 1),
        };
        dcp::ImageFormat { pixel_format, color_space, num_planes }
    };
    let src: Vec<&[u8]> = planes.iter().map(Vec::as_slice).collect();
    let mut out = vec![0u8; out_len];
    let dst = &mut [&mut out[..]];
    dcp::convert_image(width, height, &fmt(from), Some(strides), &src, &fmt(to), None, dst)
        .map(|_| out)
        .map_err(|_| ColorError::ShortPlane)
}

/// Why three planes, read with three strides, cannot make a `width` by
/// `height` picture, checked in this order; nothing when they can.
pub open spec fn conversion_error(
    width: u32,
    height: u32,
    planes: Seq<Seq<u8>>,
    strides: Seq<usize>,
) -> Option<ColorError> {
    if planes.len() != 3 || strides.len() != 3 {
        Some(ColorError::PlaneCount)
    } else if width * height * 4 > usize::MAX {
        Some(ColorError::TooLarge)
    } else if exists|i: int|
        0 <= i < 3 && #[trigger] row_step(strides[i], width as int) < width {
        Some(ColorError::Stride)
    } else if exists|i: int|
        0 <= i < 3 && !#[trigger] plane_fits(planes[i], strides[i], width, height) {
        Some(ColorError::ShortPlane)
    } else {
        None
    }
}

/// Checks one plane: whether its rows are wide enough, and whether it holds
/// all of them.
fn check_plane(plane: &Vec<u8>, stride: usize, width: u32, height: u32) -> (r: (bool, bool))
    ensures
        r.0 == (row_step(stride, width as int) >= width),
        r.0 ==> r.1 == plane_fits(plane@, stride, width, height),
{
    let step: usize = if stride == 0 {
        width as usize
    } else {
        stride
    };
    if step < width as usize {
        return (false, false);
    }
    assert(0 <= step as int * height as int <= 0xffff_ffff_ffff_ffff * 0xffff_ffff)
        by (nonlinear_arith)
        requires
            step <= 0xffff_ffff_ffff_ffff,
            height <= 0xffff_ffff,
    ;
    (true, plane.len() as u128 >= step as u128 * height as u128)
}

/// Converts a decoded `width` by `height` picture, three planes of BT.601 luma
/// and chroma read with their strides (0 for packed rows), to interleaved RGB
/// by way of BGRA. It succeeds exactly when each plane's rows are at least
/// the picture's width apart and the plane holds stride times height bytes.
pub fn yuv_to_bgra(
    converter: &ColorConverter,
    width: u32,
    height: u32,
    planes: &Vec<Vec<u8>>,
    strides: &Vec<usize>,
) -> (r: Result<Vec<u8>, ColorError>)
    ensures
        conversion_error(width, height, planes_view(planes@), strides@) matches Some(e) ==> r
            == Err::<Vec<u8>, ColorError>(e),
        conversion_error(width, height, planes_view(planes@), strides@) is None ==> (r matches Ok(
            rgb,
        ) && rgb@.len() == width * height * 3),
{
    if planes.len() != 3 || strides.len() != 3 {
        return Err(ColorError::PlaneCount);
    }
    assert(0 <= width as int * height as int <= 0xffff_ffff * 0xffff_ffff) by (nonlinear_arith)
        requires
            width <= 0xffff_ffff,
            height <= 0xffff_ffff,
    ;
    let pixels = width as u128 * height as u128;
    if pixels * 4 > usize::MAX as u128 {
        return Err(ColorError::TooLarge);
    }
    let pixels = pixels as usize;
    let ghost pv = planes_view(planes@);
    let c0 = check_plane(&planes[0], strides[0], width, height);
    let c1 = check_plane(&planes[1], strides[1], width, height);
    let c2 = check_plane(&planes[2], strides[2], width, height);
    assert(pv[0] == planes@[0]@ && pv[1] == planes@[1]@ && pv[2] == planes@[2]@);
    if !c0.0 || !c1.0 || !c2.0 {
        proof {
            let i: int = if !c0.0 {
                0
            } else if !c1.0 {
                1
            } else {
                2
            };
            assert(row_step(strides@[i], width as int) < width);
        }
        return Err(ColorError::Stride);
    }
    assert forall|i: int| 0 <= i < 3 implies #[trigger] row_step(strides@[i], width as int)
        >= width by {
        if i == 1 {
        } else if i == 2 {
        }
    }
    if !c0.1 || !c1.1 || !c2.1 {
        proof {
            let i: int = if !c0.1 {
                0
            } else if !c1.1 {
                1
            } else {
                2
            };
            assert(!plane_fits(pv[i], strides@[i], width, height));
        }
        return Err(ColorError::ShortPlane);
    }
    assert forall|i: int| 0 <= i < 3 implies #[trigger] plane_fits(pv[i], strides@[i], width, height) by {
        if i == 1 {
        } else if i == 2 {
        }
    }
    let bgra = convert_image(
        converter,
        width,
        height,
        PixelLayout::I444,
        planes,
        strides,
        PixelLayout::Bgra,
        pixels * 4,
    );
    let bgra = match bgra {
        Ok(b) => b,
        Err(e) => return Err(e),
    };
    let bgra_planes = vec![bgra];
    let packed = vec![0usize];
    assert(packed@ =~= seq![0usize]);
    assert(planes_view(bgra_planes@)[0] == bgra_planes@[0]@);
    convert_image(
        converter,
        width,
        height,
        PixelLayout::Bgra,
        &bgra_planes,
        &packed,
        PixelLayout::Rgb,
        pixels * 3,
    )
}

} // verus!
