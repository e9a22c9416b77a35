use bevy_video::nal_units;
use bevy_video::prelude::{apply_decode, SurfaceStore, VideoDecoder, VideoFrame};
use bevy_video::presenter::PresentOutcome;

#[test]
fn prelude_names_a_whole_stream() {
    let mut images = SurfaceStore::new();
    let (handle, decoder) = VideoDecoder::create(&mut images);
    assert_eq!(handle, 0);
    let mut decoders = vec![decoder];
    assert_eq!(apply_decode(&mut decoders, &mut images).outcomes, vec![PresentOutcome::Idle]);
    let frame = VideoFrame { buffer: vec![1, 2, 3], width: 1, height: 1 };
    assert!(frame.check());
}

#[test]
fn bitstream_is_split_at_start_codes() {
    let stream = [9, 0, 0, 1, 2, 0, 0, 1, 3, 4];
    let units: Vec<Vec<u8>> = nal_units(&stream).map(|unit| unit.to_vec()).collect();
    assert_eq!(units, vec![vec![0, 0, 1, 2], vec![0, 0, 1, 3, 4]]);
}
