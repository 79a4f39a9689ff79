//! How a workspace thumbnail is framed in its sidebar item.
use vstd::prelude::*;
use crate::model::{CaptureDims, Transform};

verus! {

/// Height of a landscape thumbnail, and of the empty frame.
pub const FIT_HEIGHT: u32 = 126;

/// Width of a portrait (or square) thumbnail.
pub const FIT_WIDTH: u32 = 160;

/// Width of the empty frame shown before any capture arrived.
pub const EMPTY_WIDTH: u32 = 224;

/// Height of the footer (name and pin button) below a thumbnail.
pub const FOOTER_HEIGHT: u32 = 28;

/// A length `scale * num / den`, left unevaluated so that the caller computes it in
/// its own number type in exactly this order.
#[derive(Clone, Copy, Debug, PartialEq, Eq, Structural)]
pub struct Proportion {
    pub scale: u32,
    pub num: u32,
    pub den: u32,
}

/// The frame of a thumbnail: the caps on its container and the size of the image.
#[derive(Clone, Copy, Debug, PartialEq, Eq, Structural)]
pub struct ThumbnailFrame {
    /// Cap on the container's width, if any.
    pub max_width: Option<u32>,
    /// Cap on the container's height, if any.
    pub max_height: Option<u32>,
    /// Width of the image.
    pub width: Proportion,
    /// Height of the image.
    pub height: Proportion,
}

/// The transform turns the image by a quarter or three quarters.
pub open spec fn is_rotated(t: Transform) -> bool {
    ||| t is Rotate90
    ||| t is Rotate270
    ||| t is Flipped90
    ||| t is Flipped270
}

/// Whether the transform turns the image on its side.
pub fn transform_is_rotated(t: Transform) -> (b: bool)
    ensures
        b == is_rotated(t),
{
    match t {
        Transform::Rotate90 | Transform::Rotate270 | Transform::Flipped90 | Transform::Flipped270 => true,
        _ => false,
    }
}

/// Width and height of the image as displayed, after its transform.
pub open spec fn effective_size(d: CaptureDims) -> (u32, u32) {
    if is_rotated(d.transform) {
        (d.height, d.width)
    } else {
        (d.width, d.height)
    }
}

/// A whole number of pixels as a proportion.
pub open spec fn whole(n: u32) -> Proportion {
    Proportion { scale: n, num: 1, den: 1 }
}

/// The frame of a thumbnail: a landscape image gets the fixed height and a width in
/// proportion; any other image the fixed width and a height in proportion; no image
/// an empty frame of fixed size.
pub open spec fn frame_for(img: Option<CaptureDims>) -> ThumbnailFrame {
    match img {
        None => ThumbnailFrame {
            max_width: Some(EMPTY_WIDTH),
            max_height: Some(FIT_HEIGHT),
            width: whole(EMPTY_WIDTH),
            height: whole(FIT_HEIGHT),
        },
        Some(d) => {
            let (w, h) = effective_size(d);
            if w > h {
                ThumbnailFrame {
                    max_width: None,
                    max_height: Some(FIT_HEIGHT),
                    width: Proportion { scale: FIT_HEIGHT, num: w, den: h },
                    height: whole(FIT_HEIGHT),
                }
            } else {
                ThumbnailFrame {
                    max_width: Some(FIT_WIDTH),
                    max_height: None,
                    width: whole(FIT_WIDTH),
                    height: Proportion { scale: FIT_WIDTH, num: h, den: w },
                }
            }
        },
    }
}

/// Frames the thumbnail of an image, or the empty frame when there is none.
pub fn thumbnail_frame(img: Option<CaptureDims>) -> (f: ThumbnailFrame)
    ensures
        f == frame_for(img),
{
    match img {
        None => ThumbnailFrame {
            max_width: Some(EMPTY_WIDTH),
            max_height: Some(FIT_HEIGHT),
            width: Proportion { scale: EMPTY_WIDTH, num: 1, den: 1 },
            height: Proportion { scale: FIT_HEIGHT, num: 1, den: 1 },
        },
        Some(d) => {
            let (w, h) = if transform_is_rotated(d.transform) {
                (d.height, d.width)
            } else {
                (d.width, d.height)
            };
            if w > h {
                ThumbnailFrame {
                    max_width: None,
                    max_height: Some(FIT_HEIGHT),
                    width: Proportion { scale: FIT_HEIGHT, num: w, den: h },
                    height: Proportion { scale: FIT_HEIGHT, num: 1, den: 1 },
                }
            } else {
                ThumbnailFrame {
                    max_width: Some(FIT_WIDTH),
                    max_height: None,
                    width: Proportion { scale: FIT_WIDTH, num: 1, den: 1 },
                    height: Proportion { scale: FIT_WIDTH, num: h, den: w },
                }
            }
        },
    }
}

/// A turned capture is framed exactly as an unturned capture of its displayed size.
pub proof fn lemma_frame_follows_displayed_size(d: CaptureDims)
    ensures
        frame_for(Some(d)) == frame_for(
            Some(
                CaptureDims {
                    width: effective_size(d).0,
                    height: effective_size(d).1,
                    transform: Transform::Normal,
                },
            ),
        ),
{
}

/// A framed capture keeps its displayed aspect ratio: width over height of the frame
/// equals width over height of the displayed image.
pub proof fn lemma_frame_keeps_aspect_ratio(d: CaptureDims)
    requires
        d.width > 0,
        d.height > 0,
    ensures
        ({
            let f = frame_for(Some(d));
            let (w, h) = effective_size(d);
            f.width.scale * f.width.num * f.height.den * h == f.height.scale * f.height.num
                * f.width.den * w
        }),
{
    let (w, h) = effective_size(d);
    let f = frame_for(Some(d));
    if w > h {
        assert(f.width.scale * f.width.num * f.height.den * h == f.height.scale * f.height.num
            * f.width.den * w) by (nonlinear_arith)
            requires
                f.width.scale == 126,
                f.width.num == w,
                f.width.den == h,
                f.height.scale == 126,
                f.height.num == 1,
                f.height.den == 1,
        ;
    } else {
        assert(f.width.scale * f.width.num * f.height.den * h == f.height.scale * f.height.num
            * f.width.den * w) by (nonlinear_arith)
            requires
                f.width.scale == 160,
                f.width.num == 1,
                f.width.den == 1,
                f.height.scale == 160,
                f.height.num == h,
                f.height.den == w,
        ;
    }
}

/// The frame of a capture follows its orientation on screen: a capture shown wider than
/// high is held to a height of 126 pixels, has no cap on its width and a width in
/// proportion; any other capture is held to a width of 160 pixels, has no cap on its
/// height and a height in proportion. A capture turned by a quarter is shown with its
/// width and height exchanged.
pub proof fn lemma_frame_follows_orientation(d: CaptureDims)
    ensures
        ({
            let f = frame_for(Some(d));
            let turned = d.transform == Transform::Rotate90 || d.transform == Transform::Rotate270
                || d.transform == Transform::Flipped90 || d.transform == Transform::Flipped270;
            let w = if turned {
                d.height
            } else {
                d.width
            };
            let h = if turned {
                d.width
            } else {
                d.height
            };
            &&& w > h ==> {
                &&& f.max_height == Some(126u32)
                &&& f.max_width is None
                &&& f.height == (Proportion { scale: 126, num: 1, den: 1 })
                &&& f.width == (Proportion { scale: 126, num: w, den: h })
            }
            &&& w <= h ==> {
                &&& f.max_width == Some(160u32)
                &&& f.max_height is None
                &&& f.width == (Proportion { scale: 160, num: 1, den: 1 })
                &&& f.height == (Proportion { scale: 160, num: h, den: w })
            }
        }),
{
}

/// Without a capture the frame is the fixed empty box of 224 by 126 pixels.
pub proof fn lemma_empty_frame()
    ensures
        frame_for(None) == (ThumbnailFrame {
            max_width: Some(224u32),
            max_height: Some(126u32),
            width: Proportion { scale: 224, num: 1, den: 1 },
            height: Proportion { scale: 126, num: 1, den: 1 },
        }),
{
}

} // verus!
