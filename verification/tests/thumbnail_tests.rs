use lib::model::{CaptureDims, Transform};
use lib::thumbnail::{thumbnail_frame, transform_is_rotated, Proportion};

fn dims(width: u32, height: u32, transform: Transform) -> CaptureDims {
    CaptureDims { width, height, transform }
}

#[test]
fn rotated_transforms() {
    assert!(!transform_is_rotated(Transform::Normal));
    assert!(transform_is_rotated(Transform::Rotate90));
    assert!(!transform_is_rotated(Transform::Rotate180));
    assert!(transform_is_rotated(Transform::Rotate270));
    assert!(!transform_is_rotated(Transform::Flipped));
    assert!(transform_is_rotated(Transform::Flipped90));
    assert!(!transform_is_rotated(Transform::Flipped180));
    assert!(transform_is_rotated(Transform::Flipped270));
}

#[test]
fn empty_frame() {
    let f = thumbnail_frame(None);
    assert_eq!(f.max_width, Some(224));
    assert_eq!(f.max_height, Some(126));
    assert_eq!(f.width, Proportion { scale: 224, num: 1, den: 1 });
    assert_eq!(f.height, Proportion { scale: 126, num: 1, den: 1 });
}

#[test]
fn landscape_frame_fixes_height() {
    let f = thumbnail_frame(Some(dims(1920, 1080, Transform::Normal)));
    assert_eq!(f.max_width, None);
    assert_eq!(f.max_height, Some(126));
    assert_eq!(f.width, Proportion { scale: 126, num: 1920, den: 1080 });
    assert_eq!(f.height, Proportion { scale: 126, num: 1, den: 1 });
    let w = 126.0 * f.width.num as f32 / f.width.den as f32;
    assert_eq!(w, 224.0);
}

#[test]
fn portrait_and_square_frames_fix_width() {
    let f = thumbnail_frame(Some(dims(1080, 1920, Transform::Flipped180)));
    assert_eq!(f.max_width, Some(160));
    assert_eq!(f.max_height, None);
    assert_eq!(f.width, Proportion { scale: 160, num: 1, den: 1 });
    assert_eq!(f.height, Proportion { scale: 160, num: 1920, den: 1080 });
    let f = thumbnail_frame(Some(dims(500, 500, Transform::Normal)));
    assert_eq!(f.max_width, Some(160));
    assert_eq!(f.height, Proportion { scale: 160, num: 500, den: 500 });
}

#[test]
fn rotated_capture_framed_by_displayed_size() {
    let turned = thumbnail_frame(Some(dims(1920, 1080, Transform::Rotate90)));
    let upright = thumbnail_frame(Some(dims(1080, 1920, Transform::Normal)));
    assert_eq!(turned, upright);
    assert_eq!(turned.height, Proportion { scale: 160, num: 1920, den: 1080 });
    let turned = thumbnail_frame(Some(dims(1080, 1920, Transform::Flipped270)));
    assert_eq!(turned, thumbnail_frame(Some(dims(1920, 1080, Transform::Normal))));
}

#[test]
fn frame_keeps_aspect_ratio() {
    for d in [dims(1920, 1080, Transform::Normal), dims(800, 1280, Transform::Rotate270), dims(7, 7, Transform::Flipped)] {
        let f = thumbnail_frame(Some(d));
        let (w, h) = if transform_is_rotated(d.transform) { (d.height, d.width) } else { (d.width, d.height) };
        let lhs = f.width.scale as u128 * f.width.num as u128 * f.height.den as u128 * h as u128;
        let rhs = f.height.scale as u128 * f.height.num as u128 * f.width.den as u128 * w as u128;
        assert_eq!(lhs, rhs);
    }
}
