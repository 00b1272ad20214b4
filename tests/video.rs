use capybara::video::{
    clamp, frames_to_drop, on_chunk_sent, on_frame_sent, on_packet_received, on_pending_sent,
    rgb_to_planes, take_for_encode, to_ycbcr, yuv_to_bgra, ChunkOutcome, ColorConverter, ColorError,
    Decimator,
    DecoderStatus, DrainOutcome, EncoderStatus, ReceiveOutcome, SendOutcome,
};

#[test]
fn ycbcr_of_primaries() {
    assert_eq!(to_ycbcr(0, 0, 0), (16, 128, 128));
    assert_eq!(to_ycbcr(255, 255, 255), (235, 128, 128));
    assert_eq!(to_ycbcr(255, 0, 0), (81, 90, 240));
    assert_eq!(to_ycbcr(0, 255, 0), (145, 54, 34));
    assert_eq!(to_ycbcr(0, 0, 255), (41, 240, 110));
}

#[test]
fn clamp_saturates() {
    assert_eq!(clamp(-5), 0);
    assert_eq!(clamp(0), 0);
    assert_eq!(clamp(200), 200);
    assert_eq!(clamp(256), 255);
}

#[test]
fn planes_split_pixels() {
    let p = rgb_to_planes(&[0, 0, 0, 255, 0, 0]);
    assert_eq!(p.y, vec![16, 81]);
    assert_eq!(p.cb, vec![128, 90]);
    assert_eq!(p.cr, vec![128, 240]);
    let empty = rgb_to_planes(&[]);
    assert!(empty.y.is_empty());
}

#[test]
fn coalescing_keeps_the_newest_of_five() {
    let mut queue: Vec<u32> = vec![1, 2, 3, 4, 5];
    let mut encoded = vec![];
    while let Some(f) = take_for_encode(&mut queue) {
        encoded.push(f);
    }
    assert!(encoded.len() < 5);
    assert_eq!(*encoded.last().unwrap(), 5);
}

#[test]
fn short_queues_are_taken_in_order() {
    let mut queue: Vec<u32> = vec![7, 8];
    assert_eq!(take_for_encode(&mut queue), Some(7));
    assert_eq!(take_for_encode(&mut queue), Some(8));
    assert_eq!(take_for_encode(&mut queue), None);
}

#[test]
fn drop_counts() {
    assert_eq!(frames_to_drop(0), 0);
    assert_eq!(frames_to_drop(2), 0);
    assert_eq!(frames_to_drop(3), 2);
    assert_eq!(frames_to_drop(5), 4);
}

#[test]
fn decimator_keeps_every_other_frame() {
    let mut d = Decimator::new(2);
    let kept: Vec<bool> = (0..5).map(|_| d.keep_next()).collect();
    assert_eq!(kept, vec![true, false, true, false, true]);
    let mut d = Decimator::new(5);
    let kept: Vec<bool> = (0..6).map(|_| d.keep_next()).collect();
    assert_eq!(kept, vec![true, false, false, false, false, true]);
}

#[test]
fn encoder_statuses() {
    assert_eq!(on_frame_sent(None), SendOutcome::Queued);
    assert_eq!(on_frame_sent(Some(EncoderStatus::EnoughData)), SendOutcome::Dropped);
    assert_eq!(on_frame_sent(Some(EncoderStatus::Failure)), SendOutcome::Fatal);
    assert_eq!(on_packet_received(None), ReceiveOutcome::Publish);
    assert_eq!(on_packet_received(Some(EncoderStatus::NeedMoreData)), ReceiveOutcome::Continue);
    assert_eq!(on_packet_received(Some(EncoderStatus::Encoded)), ReceiveOutcome::Continue);
    assert_eq!(on_packet_received(Some(EncoderStatus::LimitReached)), ReceiveOutcome::Limit);
    assert_eq!(on_packet_received(Some(EncoderStatus::NotReady)), ReceiveOutcome::Fatal);
}

#[test]
fn decoder_statuses() {
    assert_eq!(on_chunk_sent(None), ChunkOutcome::Taken);
    assert_eq!(on_chunk_sent(Some(DecoderStatus::Again)), ChunkOutcome::Drain);
    assert_eq!(on_chunk_sent(Some(DecoderStatus::InvalidArgument)), ChunkOutcome::Skip);
    assert_eq!(on_chunk_sent(Some(DecoderStatus::Other)), ChunkOutcome::Fatal);
    assert_eq!(on_pending_sent(None), DrainOutcome::Retry);
    assert_eq!(on_pending_sent(Some(DecoderStatus::Again)), DrainOutcome::FetchPicture);
    assert_eq!(on_pending_sent(Some(DecoderStatus::Other)), DrainOutcome::Fatal);
}

#[test]
fn yuv_planes_become_rgb() {
    let (w, h) = (16u32, 2u32);
    let n = (w * h) as usize;
    let mut y = vec![16u8; n];
    y[1] = 235;
    let planes = vec![y, vec![128u8; n], vec![128u8; n]];
    let strides = vec![w as usize; 3];
    let rgb = yuv_to_bgra(&ColorConverter::new(), w, h, &planes, &strides).unwrap();
    assert_eq!(rgb.len(), n * 3);
    assert_eq!(&rgb[0..3], &[0, 0, 0]);
    assert_eq!(&rgb[3..6], &[255, 255, 255]);
    assert!(yuv_to_bgra(&ColorConverter::new(), w, h, &planes, &strides).unwrap() == rgb);
}

#[test]
fn yuv_needs_three_planes() {
    let planes = vec![vec![0u8; 4], vec![0u8; 4]];
    assert_eq!(yuv_to_bgra(&ColorConverter::new(), 2, 2, &planes, &vec![2, 2]), Err(ColorError::PlaneCount));
}

#[test]
fn yuv_output_must_fit_in_memory() {
    let planes = vec![vec![0u8; 1], vec![0u8; 1], vec![0u8; 1]];
    let strides = vec![1usize; 3];
    assert_eq!(yuv_to_bgra(&ColorConverter::new(), u32::MAX, u32::MAX, &planes, &strides), Err(ColorError::TooLarge));
}

#[test]
fn short_planes_are_refused() {
    let c = ColorConverter::new();
    let planes = vec![vec![16u8; 1], vec![128u8; 1], vec![128u8; 1]];
    let strides = vec![16usize; 3];
    assert_eq!(yuv_to_bgra(&c, 16, 2, &planes, &strides), Err(ColorError::ShortPlane));
    let planes = vec![vec![16u8; 48], vec![128u8; 48], vec![128u8; 47]];
    let strides = vec![24usize; 3];
    assert_eq!(yuv_to_bgra(&c, 16, 2, &planes, &strides), Err(ColorError::ShortPlane));
}

#[test]
fn narrow_strides_are_refused() {
    let c = ColorConverter::new();
    let planes = vec![vec![16u8; 64], vec![128u8; 64], vec![128u8; 64]];
    assert_eq!(yuv_to_bgra(&c, 16, 2, &planes, &vec![16, 1, 16]), Err(ColorError::Stride));
    assert_eq!(yuv_to_bgra(&c, 16, 2, &planes, &vec![15, 16, 16]), Err(ColorError::Stride));
}

#[test]
fn padded_and_packed_strides_convert() {
    let c = ColorConverter::new();
    let (w, h) = (640u32, 480u32);
    let planes = vec![vec![235u8; 704 * 480], vec![128u8; 640 * 480], vec![128u8; 640 * 480]];
    let rgb = yuv_to_bgra(&c, w, h, &planes, &vec![704, 0, 640]).unwrap();
    assert_eq!(rgb.len(), 640 * 480 * 3);
    assert!(rgb.iter().all(|b| *b == 255));
}
