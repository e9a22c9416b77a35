use bevy_video::frame::VideoFrame;
use bevy_video::presenter::PresentOutcome;
use bevy_video::store::SurfaceStore;
use bevy_video::surface::{create_image, Surface};

#[test]
fn new_store_has_no_surface() {
    let store = SurfaceStore::new();
    assert_eq!(store.len(), 0);
    assert_eq!(store.get(0), None);
    assert_eq!(store.get(usize::MAX), None);
}

#[test]
fn handles_count_up_from_zero() {
    let mut store = SurfaceStore::new();
    assert_eq!(store.add(create_image(1, 1)), 0);
    assert_eq!(store.add(create_image(2, 1)), 1);
    assert_eq!(store.add(create_image(3, 1)), 2);
    assert_eq!(store.len(), 3);
    assert_eq!(store.get(1), Some(&create_image(2, 1)));
    assert_eq!(store.get(3), None);
}

#[test]
fn removed_surface_is_gone_and_its_handle_stays_taken() {
    let mut store = SurfaceStore::new();
    store.add(create_image(1, 1));
    store.add(create_image(2, 1));
    assert_eq!(store.remove(0), Some(create_image(1, 1)));
    assert_eq!(store.remove(0), None);
    assert_eq!(store.remove(7), None);
    assert_eq!(store.get(0), None);
    assert_eq!(store.get(1), Some(&create_image(2, 1)));
    assert_eq!(store.len(), 2);
    assert_eq!(store.add(create_image(3, 1)), 2);
}

#[test]
fn store_presents_on_the_surface_under_the_handle() {
    let mut store = SurfaceStore::new();
    store.add(create_image(1, 1));
    store.add(create_image(1, 1));
    let frame = VideoFrame { buffer: vec![10, 20, 30], width: 1, height: 1 };
    assert_eq!(store.present(1, Some(frame)), PresentOutcome::Presented { resized: false });
    assert_eq!(store.get(0), Some(&Surface { width: 1, height: 1, data: vec![255; 4] }));
    assert_eq!(store.get(1), Some(&Surface { width: 1, height: 1, data: vec![30, 20, 10, 255] }));
}

#[test]
fn store_tells_idle_and_detached_apart() {
    let mut store = SurfaceStore::new();
    store.add(create_image(1, 1));
    let frame = VideoFrame { buffer: vec![10, 20, 30], width: 1, height: 1 };
    assert_eq!(store.present(0, None), PresentOutcome::Idle);
    assert_eq!(store.present(5, None), PresentOutcome::Idle);
    assert_eq!(store.present(5, Some(frame.clone())), PresentOutcome::Detached);
    store.remove(0);
    assert_eq!(store.present(0, Some(frame)), PresentOutcome::Detached);
    assert_eq!(store.get(0), None);
}
