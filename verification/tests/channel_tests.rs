use std::sync::mpsc::{channel, Receiver};
use std::sync::{Arc, Mutex};

use bevy_video::frame::VideoFrame;
use bevy_video::mailbox::FrameMailbox;
use bevy_video::worker::{deliver, DecodeWorker, DecoderMessage};
use openh264::decoder::Decoder;
use openh264::encoder::{Encoder, EncoderConfig};
use openh264::formats::YUVBuffer;

fn encoded(seed: u8) -> Vec<u8> {
    let mut rgb = Vec::new();
    for y in 0..32usize {
        for x in 0..32usize {
            rgb.push(((x * 8) as u8).wrapping_add(seed));
            rgb.push(((y * 8) as u8).wrapping_add(seed));
            rgb.push(((x * y) as u8).wrapping_add(seed));
        }
    }
    let mut encoder = Encoder::with_config(EncoderConfig::new(32, 32)).expect("encoder");
    encoder.encode(&YUVBuffer::with_rgb(32, 32, &rgb)).expect("encode").to_vec()
}

fn reference(packet: &[u8]) -> VideoFrame {
    let mut decoder = Decoder::new().expect("decoder");
    let yuv = decoder.decode(packet).expect("decodes").expect("has a picture");
    let (width, height) = yuv.dimension_rgb();
    let mut buffer = vec![0u8; width * height * 3];
    yuv.write_rgb8(&mut buffer);
    VideoFrame { buffer, width, height }
}

fn work(receiver: Receiver<DecoderMessage>, mailbox: Arc<Mutex<FrameMailbox>>) -> usize {
    let mut worker = DecodeWorker::new().expect("worker");
    let mut handled = 0;
    for message in receiver {
        let step = worker.handle(&message);
        handled += 1;
        let running = deliver(&mut mailbox.lock().unwrap(), step);
        if !running {
            break;
        }
    }
    handled
}

#[test]
fn worker_loop_stops_at_stop_and_leaves_the_rest() {
    let (sender, receiver) = channel::<DecoderMessage>();
    let mailbox = Arc::new(Mutex::new(FrameMailbox::new()));
    let first = encoded(0);
    sender.send(DecoderMessage::Frame(first.clone())).unwrap();
    sender.send(DecoderMessage::Stop).unwrap();
    sender.send(DecoderMessage::Frame(encoded(40))).unwrap();
    let handled = work(receiver, mailbox.clone());
    assert_eq!(handled, 2);
    assert_eq!(mailbox.lock().unwrap().take(), Some(reference(&first)));
    assert_eq!(mailbox.lock().unwrap().take(), None);
    assert!(sender.send(DecoderMessage::Frame(encoded(80))).is_err());
}

#[test]
fn worker_loop_ends_when_every_sender_is_gone() {
    let (sender, receiver) = channel::<DecoderMessage>();
    let mailbox = Arc::new(Mutex::new(FrameMailbox::new()));
    let packets = vec![encoded(0), encoded(40)];
    for packet in &packets {
        sender.send(DecoderMessage::Frame(packet.clone())).unwrap();
    }
    drop(sender);
    assert_eq!(work(receiver, mailbox.clone()), 2);
    assert_eq!(mailbox.lock().unwrap().take(), Some(reference(&packets[1])));
}
