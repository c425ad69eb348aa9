//! Pixel sizes and the placement of the video inside the window.

use vstd::prelude::*;

verus! {

/// A width and a height in pixels, as the protocol carries them.
#[derive(Clone, Copy, Debug, PartialEq, Eq, Structural)]
pub struct Size {
    pub width: i32,
    pub height: i32,
}

impl Size {
    /// Both dimensions are greater than zero.
    pub open spec fn is_positive(self) -> bool {
        self.width > 0 && self.height > 0
    }

    pub fn new(width: i32, height: i32) -> (size: Size)
        ensures
            size.width == width,
            size.height == height,
    {
        Size { width, height }
    }

    /// Tells whether both dimensions are greater than zero.
    pub fn positive(&self) -> (r: bool)
        ensures
            r == self.is_positive(),
    {
        self.width > 0 && self.height > 0
    }
}

/// An offset from the window's top left corner, in pixels.
#[derive(Clone, Copy, Debug, PartialEq, Eq, Structural)]
pub struct Offset {
    pub x: i32,
    pub y: i32,
}

/// Where the video goes inside the window: the offset of its top left
/// corner and the size it is shown at.
#[derive(Clone, Copy, Debug, PartialEq, Eq, Structural)]
pub struct Placement {
    pub x: i32,
    pub y: i32,
    pub width: i32,
    pub height: i32,
}

/// The video scaled to the window's width: the height follows in proportion,
/// rounded down. A video that already has the window's width is left as it is.
pub open spec fn scaled_to_width(window: Size, video: Size) -> (int, int) {
    if video.width != window.width {
        (window.width as int, video.height * window.width / (video.width as int))
    } else {
        (video.width as int, video.height as int)
    }
}

/// The size the video is shown at: scaled to the window's width, or, where
/// that is taller than the window, scaled down again to the window's height.
pub open spec fn fitted_size(window: Size, video: Size) -> (int, int) {
    let (w, h) = scaled_to_width(window, video);
    if h > window.height {
        (w * window.height / h, window.height as int)
    } else {
        (w, h)
    }
}

/// The offset that centers `inner` in `outer`: half of what is left over.
pub open spec fn centered(outer: int, inner: int) -> int {
    (outer - inner) / 2
}

/// The inputs on which a placement is defined: a window without a negative
/// dimension and a video with two positive ones.
pub open spec fn can_fit(window: Size, video: Size) -> bool {
    window.width >= 0 && window.height >= 0 && video.is_positive()
}

/// `p` is the fitted size of the video, centered in the window.
pub open spec fn is_fit(window: Size, video: Size, p: Placement) -> bool {
    let (w, h) = fitted_size(window, video);
    &&& p.width == w
    &&& p.height == h
    &&& p.x == centered(window.width as int, w)
    &&& p.y == centered(window.height as int, h)
}

/// Where the video is placed: its fitted size, centered in the window.
/// Nothing is placed where `can_fit` does not hold.
#[verifier::opaque]
pub open spec fn fit(window: Size, video: Size) -> Option<Placement> {
    if can_fit(window, video) {
        let (w, h) = fitted_size(window, video);
        Some(
            Placement {
                x: centered(window.width as int, w) as i32,
                y: centered(window.height as int, h) as i32,
                width: w as i32,
                height: h as i32,
            },
        )
    } else {
        None
    }
}

/// The fitted video has no negative dimension and never exceeds the window
/// in either one, so the centering offsets are not negative either.
pub proof fn lemma_fitted_size_bounds(window: Size, video: Size)
    requires
        can_fit(window, video),
    ensures
        0 <= fitted_size(window, video).0 <= window.width,
        0 <= fitted_size(window, video).1 <= window.height,
        0 <= centered(window.width as int, fitted_size(window, video).0) <= window.width,
        0 <= centered(window.height as int, fitted_size(window, video).1) <= window.height,
        is_fit(window, video, fit(window, video).unwrap()),
{
    reveal(fit);
    let (w, h) = scaled_to_width(window, video);
    let ww = window.width as int;
    let wh = window.height as int;
    let vw = video.width as int;
    let vh = video.height as int;
    assert(w == ww);
    assert(h >= 0) by (nonlinear_arith)
        requires
            h == vh * ww / vw || h == vh,
            vh > 0,
            ww >= 0,
            vw > 0,
    ;
    if h > wh {
        assert(0 <= w * wh / h <= w) by (nonlinear_arith)
            requires
                h > wh,
                wh >= 0,
                w >= 0,
        ;
    }
}

/// The fitted video is as wide as the window or as tall as the window, and
/// where it is as wide, its height is the height that keeps the video's
/// proportions, rounded down. What the centering leaves over at the far
/// edge is what it leaves at the near edge, or one pixel more.
pub proof fn lemma_fitted_fills_one_axis(window: Size, video: Size)
    requires
        can_fit(window, video),
    ensures
        fitted_size(window, video).0 == window.width || fitted_size(window, video).1
            == window.height,
        scaled_to_width(window, video).1 <= window.height ==> {
            &&& fitted_size(window, video).0 == window.width
            &&& 0 <= video.height * window.width - fitted_size(window, video).1 * video.width
                < video.width
        },
        ({
            let left = centered(window.width as int, fitted_size(window, video).0);
            let right = window.width - fitted_size(window, video).0 - left;
            left <= right <= left + 1
        }),
        ({
            let top = centered(window.height as int, fitted_size(window, video).1);
            let bottom = window.height - fitted_size(window, video).1 - top;
            top <= bottom <= top + 1
        }),
{
    lemma_fitted_size_bounds(window, video);
    let ww = window.width as int;
    let vw = video.width as int;
    let vh = video.height as int;
    if vw != ww {
        let h = vh * ww / vw;
        assert(0 <= vh * ww - h * vw < vw) by (nonlinear_arith)
            requires
                h == vh * ww / vw,
                vw > 0,
        ;
    }
}

/// Places a video of size `video` in a window of size `window`, keeping the
/// video's aspect ratio: as wide as the window, or as tall where that would
/// not fit, and centered in the axis that has room left.
///
/// Nothing is placed in a window with a negative dimension or for a video
/// without two positive dimensions.
pub fn fit_video(window: Size, video: Size) -> (placement: Option<Placement>)
    ensures
        placement == fit(window, video),
        placement is Some <==> can_fit(window, video),
        placement matches Some(p) ==> is_fit(window, video, p),
{
    proof {
        reveal(fit);
    }
    if window.width < 0 || window.height < 0 || video.width <= 0 || video.height <= 0 {
        return None;
    }
    proof {
        lemma_fitted_size_bounds(window, video);
    }
    let ww: i64 = window.width as i64;
    let wh: i64 = window.height as i64;
    let vw: i64 = video.width as i64;
    let vh: i64 = video.height as i64;
    let mut w: i64 = vw;
    let mut h: i64 = vh;
    if vw != ww {
        assert(0 <= vh * ww <= 0x7fff_ffff * 0x7fff_ffff) by (nonlinear_arith)
            requires
                0 < vh <= 0x7fff_ffff,
                0 <= ww <= 0x7fff_ffff,
        ;
        h = vh * ww / vw;
        w = ww;
    }
    assert((w as int, h as int) == scaled_to_width(window, video));
    if h > wh {
        assert(0 <= w * wh <= 0x7fff_ffff * 0x7fff_ffff) by (nonlinear_arith)
            requires
                0 <= w <= 0x7fff_ffff,
                0 <= wh <= 0x7fff_ffff,
        ;
        w = w * wh / h;
        h = wh;
    }
    assert((w as int, h as int) == fitted_size(window, video));
    let x: i64 = (ww - w) / 2;
    let y: i64 = (wh - h) / 2;
    Some(Placement { x: x as i32, y: y as i32, width: w as i32, height: h as i32 })
}

} // verus!
