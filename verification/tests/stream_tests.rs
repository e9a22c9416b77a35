use bevy_video::components::VideoDecoder;
use bevy_video::frame::VideoFrame;
use bevy_video::presenter::PresentOutcome;
use bevy_video::store::SurfaceStore;
use bevy_video::surface::{create_image, Surface};
use bevy_video::systems::{apply_decode, present_pending};
use openh264::decoder::Decoder;
use openh264::encoder::{Encoder, EncoderConfig};
use openh264::formats::YUVBuffer;

const SIDE: usize = 32;

fn picture(seed: u8) -> Vec<u8> {
    let mut rgb = Vec::new();
    for y in 0..SIDE {
        for x in 0..SIDE {
            rgb.push(((x * 8) as u8).wrapping_add(seed));
            rgb.push(((y * 8) as u8).wrapping_add(seed));
            rgb.push(((x * y) as u8).wrapping_add(seed));
        }
    }
    rgb
}

fn encoded(seed: u8) -> Vec<u8> {
    let config = EncoderConfig::new(SIDE as u32, SIDE as u32);
    let mut encoder = Encoder::with_config(config).expect("encoder");
    let yuv = YUVBuffer::with_rgb(SIDE, SIDE, &picture(seed));
    encoder.encode(&yuv).expect("encode").to_vec()
}

fn reference(packet: &[u8]) -> VideoFrame {
    let mut decoder = Decoder::new().expect("decoder");
    let yuv = decoder.decode(packet).expect("decodes").expect("has a picture");
    let (width, height) = yuv.dimension_rgb();
    let mut buffer = vec![0u8; width * height * 3];
    yuv.write_rgb8(&mut buffer);
    VideoFrame { buffer, width, height }
}

fn shown(frame: &VideoFrame) -> Surface {
    let mut data = Vec::new();
    for pixel in frame.buffer.chunks_exact(3) {
        data.extend_from_slice(&[pixel[2], pixel[1], pixel[0], 255]);
    }
    Surface { width: frame.width as u32, height: frame.height as u32, data }
}

fn placeholder() -> Surface {
    let mut data = vec![0u8; 576];
    data[0..4].copy_from_slice(&[255, 255, 255, 255]);
    Surface { width: 12, height: 12, data }
}

fn garbage() -> Vec<u8> {
    vec![0, 0, 0, 1, 0x65, 0xff, 0xfe, 0x12, 0x34, 0x56, 0x78]
}

#[test]
fn create_adds_the_placeholder_surface() {
    let mut images = SurfaceStore::new();
    assert_eq!(images.add(create_image(1, 1)), 0);
    assert_eq!(images.add(create_image(2, 2)), 1);
    assert_eq!(images.remove(1), Some(create_image(2, 2)));
    let (handle, decoder) = VideoDecoder::create(&mut images);
    assert_eq!(handle, 2);
    assert_eq!(decoder.get_render_target(), 2);
    assert_eq!(images.len(), 3);
    assert_eq!(images.get(0), Some(&create_image(1, 1)));
    assert_eq!(images.get(1), None);
    assert_eq!(images.get(2), Some(&placeholder()));
    assert!(decoder.is_running());
}

#[test]
fn new_stream_has_no_frame() {
    let mut images = SurfaceStore::new();
    let (_, mut decoder) = VideoDecoder::create(&mut images);
    assert_eq!(decoder.take_frame_rgb8(), None);
    assert_eq!(decoder.pump(), 0);
    assert_eq!(decoder.take_frame_rgb8(), None);
}

#[test]
fn packet_goes_through_to_the_mailbox() {
    let mut images = SurfaceStore::new();
    let (_, mut decoder) = VideoDecoder::create(&mut images);
    let packet = encoded(0);
    decoder.add_video_packet(packet.clone());
    assert_eq!(decoder.take_frame_rgb8(), None);
    assert_eq!(decoder.pump(), 1);
    assert_eq!(decoder.take_frame_rgb8(), Some(reference(&packet)));
    assert_eq!(decoder.take_frame_rgb8(), None);
    assert_eq!(decoder.pump(), 0);
    assert_eq!(decoder.take_frame_rgb8(), None);
}

#[test]
fn presenter_sees_only_the_newest_frame() {
    let mut images = SurfaceStore::new();
    let (_, mut decoder) = VideoDecoder::create(&mut images);
    let packets = vec![encoded(0), encoded(40), encoded(80)];
    for packet in &packets {
        decoder.add_video_packet(packet.clone());
    }
    assert_eq!(decoder.pump(), 3);
    assert_eq!(decoder.take_frame_rgb8(), Some(reference(&packets[2])));
    assert_eq!(decoder.take_frame_rgb8(), None);
}

#[test]
fn frames_follow_the_order_of_submission() {
    let mut images = SurfaceStore::new();
    let (_, mut decoder) = VideoDecoder::create(&mut images);
    let packets = vec![encoded(0), encoded(40), encoded(80)];
    let mut seen = Vec::new();
    for packet in &packets {
        decoder.add_video_packet(packet.clone());
        assert_eq!(decoder.pump(), 1);
        seen.push(decoder.take_frame_rgb8().expect("a frame"));
    }
    let expected: Vec<VideoFrame> = packets.iter().map(|packet| reference(packet)).collect();
    assert_eq!(seen, expected);
}

#[test]
fn bad_packet_among_good_ones_is_skipped() {
    let mut images = SurfaceStore::new();
    let (_, mut decoder) = VideoDecoder::create(&mut images);
    let first = encoded(0);
    let last = encoded(40);
    decoder.add_video_packet(first.clone());
    assert_eq!(decoder.pump(), 1);
    decoder.add_video_packet(garbage());
    assert_eq!(decoder.pump(), 0);
    assert!(decoder.is_running());
    assert_eq!(decoder.take_frame_rgb8(), Some(reference(&first)));
    decoder.add_video_packet(garbage());
    decoder.add_video_packet(last.clone());
    assert_eq!(decoder.pump(), 1);
    assert_eq!(decoder.take_frame_rgb8(), Some(reference(&last)));
}

#[test]
fn open_stream_keeps_running_whatever_is_pumped() {
    let mut images = SurfaceStore::new();
    let (_, mut decoder) = VideoDecoder::create(&mut images);
    for round in 0..3u8 {
        decoder.add_video_packet(garbage());
        decoder.add_video_packet(encoded(round));
        assert_eq!(decoder.pump(), 1);
        assert!(decoder.is_running());
    }
}

#[test]
fn shutdown_lets_the_queue_be_decoded_and_stops_the_worker() {
    let mut images = SurfaceStore::new();
    let (handle, mut decoder) = VideoDecoder::create(&mut images);
    let first = encoded(0);
    let second = encoded(40);
    decoder.add_video_packet(first);
    decoder.add_video_packet(second.clone());
    let mut closed = decoder.shutdown();
    assert!(closed.is_running());
    assert_eq!(closed.get_render_target(), handle);
    assert_eq!(closed.take_frame_rgb8(), None);
    assert_eq!(closed.pump(), 2);
    assert!(!closed.is_running());
    assert_eq!(closed.take_frame_rgb8(), Some(reference(&second)));
    assert_eq!(closed.pump(), 0);
    assert_eq!(closed.take_frame_rgb8(), None);
    assert!(!closed.is_running());
}

#[test]
fn shutdown_keeps_the_waiting_frame() {
    let mut images = SurfaceStore::new();
    let (_, mut decoder) = VideoDecoder::create(&mut images);
    let packet = encoded(0);
    decoder.add_video_packet(packet.clone());
    assert_eq!(decoder.pump(), 1);
    let mut closed = decoder.shutdown();
    assert_eq!(closed.pump(), 0);
    assert!(!closed.is_running());
    assert_eq!(closed.take_frame_rgb8(), Some(reference(&packet)));
}

#[test]
fn shutdown_of_an_idle_stream_stops_the_worker() {
    let mut images = SurfaceStore::new();
    let (_, decoder) = VideoDecoder::create(&mut images);
    let mut closed = decoder.shutdown();
    assert!(closed.is_running());
    assert_eq!(closed.pump(), 0);
    assert!(!closed.is_running());
    assert_eq!(closed.take_frame_rgb8(), None);
}

#[test]
fn tick_without_frame_is_idle() {
    let mut images = SurfaceStore::new();
    let (handle, mut decoder) = VideoDecoder::create(&mut images);
    assert_eq!(present_pending(&mut decoder, &mut images), PresentOutcome::Idle);
    assert_eq!(images.get(handle), Some(&placeholder()));
}

#[test]
fn tick_presents_the_waiting_frame_once() {
    let mut images = SurfaceStore::new();
    let (handle, mut decoder) = VideoDecoder::create(&mut images);
    let packet = encoded(0);
    decoder.add_video_packet(packet.clone());
    assert_eq!(decoder.pump(), 1);
    assert_eq!(
        present_pending(&mut decoder, &mut images),
        PresentOutcome::Presented { resized: true }
    );
    assert_eq!(images.get(handle), Some(&shown(&reference(&packet))));
    assert_eq!(present_pending(&mut decoder, &mut images), PresentOutcome::Idle);
    let next = encoded(40);
    decoder.add_video_packet(next.clone());
    assert_eq!(decoder.pump(), 1);
    assert_eq!(
        present_pending(&mut decoder, &mut images),
        PresentOutcome::Presented { resized: false }
    );
    assert_eq!(images.get(handle), Some(&shown(&reference(&next))));
}

#[test]
fn tick_reports_a_stream_whose_surface_is_gone() {
    let mut images = SurfaceStore::new();
    let (handle, mut decoder) = VideoDecoder::create(&mut images);
    decoder.add_video_packet(encoded(0));
    assert_eq!(decoder.pump(), 1);
    assert_eq!(images.remove(handle), Some(placeholder()));
    assert_eq!(present_pending(&mut decoder, &mut images), PresentOutcome::Detached);
    assert_eq!(images.get(handle), None);
    assert_eq!(decoder.take_frame_rgb8(), None);
    assert_eq!(present_pending(&mut decoder, &mut images), PresentOutcome::Idle);
}

#[test]
fn tick_sends_nothing_to_the_worker() {
    let mut images = SurfaceStore::new();
    let (handle, mut decoder) = VideoDecoder::create(&mut images);
    decoder.add_video_packet(encoded(0));
    assert_eq!(decoder.pump(), 1);
    images.remove(handle);
    assert_eq!(present_pending(&mut decoder, &mut images), PresentOutcome::Detached);
    assert_eq!(decoder.pump(), 0);
    assert!(decoder.is_running());
    let later = encoded(40);
    decoder.add_video_packet(later.clone());
    assert_eq!(decoder.pump(), 1);
    assert!(decoder.is_running());
    assert_eq!(decoder.take_frame_rgb8(), Some(reference(&later)));
}

#[test]
fn tick_reports_a_stream_whose_handle_is_unknown() {
    let mut images = SurfaceStore::new();
    let (_, mut decoder) = VideoDecoder::create(&mut images);
    decoder.add_video_packet(encoded(0));
    assert_eq!(decoder.pump(), 1);
    let mut elsewhere = SurfaceStore::new();
    assert_eq!(present_pending(&mut decoder, &mut elsewhere), PresentOutcome::Detached);
    assert_eq!(elsewhere.len(), 0);
}

#[test]
fn idle_stream_without_surface_stays() {
    let mut images = SurfaceStore::new();
    let (handle, decoder) = VideoDecoder::create(&mut images);
    images.remove(handle);
    let mut decoders = vec![decoder];
    let tick = apply_decode(&mut decoders, &mut images);
    assert_eq!(tick.outcomes, vec![PresentOutcome::Idle]);
    assert!(tick.detached.is_empty());
    assert_eq!(decoders.len(), 1);
    assert!(decoders[0].is_running());
}

#[test]
fn apply_decode_serves_every_stream_and_hands_back_the_detached() {
    let mut images = SurfaceStore::new();
    let (first_handle, mut first) = VideoDecoder::create(&mut images);
    let (second_handle, mut second) = VideoDecoder::create(&mut images);
    let (third_handle, third) = VideoDecoder::create(&mut images);
    let (fourth_handle, mut fourth) = VideoDecoder::create(&mut images);
    assert_eq!((first_handle, second_handle, third_handle, fourth_handle), (0, 1, 2, 3));
    let packet = encoded(0);
    let other = encoded(40);
    first.add_video_packet(other.clone());
    second.add_video_packet(packet.clone());
    fourth.add_video_packet(other);
    assert_eq!(first.pump(), 1);
    assert_eq!(second.pump(), 1);
    assert_eq!(fourth.pump(), 1);
    assert_eq!(images.remove(first_handle), Some(placeholder()));
    assert_eq!(images.remove(fourth_handle), Some(placeholder()));
    let mut decoders = vec![first, second, third, fourth];
    let mut tick = apply_decode(&mut decoders, &mut images);
    assert_eq!(
        tick.outcomes,
        vec![
            PresentOutcome::Detached,
            PresentOutcome::Presented { resized: true },
            PresentOutcome::Idle,
            PresentOutcome::Detached
        ]
    );
    let kept: Vec<usize> = decoders.iter().map(|decoder| decoder.get_render_target()).collect();
    assert_eq!(kept, vec![second_handle, third_handle]);
    let gone: Vec<usize> =
        tick.detached.iter().map(|decoder| decoder.get_render_target()).collect();
    assert_eq!(gone, vec![first_handle, fourth_handle]);
    assert_eq!(images.get(first_handle), None);
    assert_eq!(images.get(second_handle), Some(&shown(&reference(&packet))));
    assert_eq!(images.get(third_handle), Some(&placeholder()));
    assert_eq!(images.get(fourth_handle), None);
    for decoder in tick.detached.iter_mut().chain(decoders.iter_mut()) {
        assert_eq!(decoder.take_frame_rgb8(), None);
        assert_eq!(decoder.pump(), 0);
        assert!(decoder.is_running());
    }
    let tick = apply_decode(&mut decoders, &mut images);
    assert_eq!(tick.outcomes, vec![PresentOutcome::Idle, PresentOutcome::Idle]);
    assert!(tick.detached.is_empty());
    assert_eq!(decoders.len(), 2);
}

#[test]
fn host_tears_down_what_the_tick_detached() {
    let mut images = SurfaceStore::new();
    let (handle, mut decoder) = VideoDecoder::create(&mut images);
    decoder.add_video_packet(encoded(0));
    assert_eq!(decoder.pump(), 1);
    decoder.add_video_packet(encoded(40));
    images.remove(handle);
    let mut decoders = vec![decoder];
    let mut tick = apply_decode(&mut decoders, &mut images);
    assert!(decoders.is_empty());
    let mut closed = tick.detached.pop().expect("the detached stream").shutdown();
    assert_eq!(closed.pump(), 1);
    assert!(!closed.is_running());
    assert_eq!(closed.pump(), 0);
}

#[test]
fn apply_decode_without_streams_does_nothing() {
    let mut images = SurfaceStore::new();
    images.add(create_image(2, 2));
    let mut decoders: Vec<VideoDecoder> = Vec::new();
    let tick = apply_decode(&mut decoders, &mut images);
    assert_eq!(tick.outcomes, Vec::<PresentOutcome>::new());
    assert!(tick.detached.is_empty());
    assert_eq!(images.len(), 1);
    assert_eq!(images.get(0), Some(&create_image(2, 2)));
}

#[test]
fn two_streams_on_one_surface_show_the_later_one() {
    let mut images = SurfaceStore::new();
    let (handle, mut first) = VideoDecoder::create(&mut images);
    let packet = encoded(0);
    let other = encoded(40);
    first.add_video_packet(packet);
    assert_eq!(first.pump(), 1);
    let mut elsewhere = SurfaceStore::new();
    let (same, mut second) = VideoDecoder::create(&mut elsewhere);
    assert_eq!(same, handle);
    second.add_video_packet(other.clone());
    assert_eq!(second.pump(), 1);
    let mut decoders = vec![first, second];
    let tick = apply_decode(&mut decoders, &mut images);
    assert_eq!(
        tick.outcomes,
        vec![
            PresentOutcome::Presented { resized: true },
            PresentOutcome::Presented { resized: false }
        ]
    );
    assert_eq!(decoders.len(), 2);
    assert_eq!(images.get(handle), Some(&shown(&reference(&other))));
}
