//! Pixel-buffer logic: which part of a frame changed, cropping, the RGB test
//! pattern, alpha bounding boxes, tinting and bounded sensor histories.
//!
//! Frames are row-major byte buffers: three bytes per pixel for RGB, four for
//! RGBA.
use vstd::prelude::*;

verus! {

/// An RGB frame: `width * height` pixels of three bytes, row by row.
#[derive(Clone, Debug)]
pub struct RgbFrame {
    pub width: u32,
    pub height: u32,
    pub pixels: Vec<u8>,
}

impl RgbFrame {
    /// The buffer holds exactly one RGB triple per pixel.
    pub open spec fn wf(&self) -> bool {
        self.pixels@.len() == 3 * self.width * self.height
    }
}

/// What to send to the panel for a new frame.
#[derive(Clone, Copy, Debug, PartialEq, Eq, Structural)]
pub enum FrameUpdate {
    /// Send the whole frame from the origin.
    Full,
    /// Nothing changed.
    Unchanged,
    /// Send only this rectangle of the new frame.
    Region { x: u32, y: u32, width: u32, height: u32 },
}

/// Byte offset of pixel (`x`, `y`) in a row-major buffer.
pub open spec fn offset(width: int, x: int, y: int, bytes_per_pixel: int) -> int {
    bytes_per_pixel * (y * width + x)
}

/// Whether pixel (`x`, `y`) differs between two RGB buffers.
pub open spec fn pixel_changed(previous: Seq<u8>, current: Seq<u8>, width: int, x: int, y: int) -> bool {
    let i = offset(width, x, y, 3);
    ||| previous[i] != current[i]
    ||| previous[i + 1] != current[i + 1]
    ||| previous[i + 2] != current[i + 2]
}

/// The change predicate of two frames.
pub open spec fn changes(previous: RgbFrame, current: RgbFrame) -> spec_fn(int, int) -> bool {
    |x: int, y: int| pixel_changed(previous.pixels@, current.pixels@, current.width as int, x, y)
}

/// `(left, top, right, bottom)` is the smallest box (inclusive bounds) that
/// holds every marked pixel of a `width` x `height` grid: every marked pixel
/// lies inside and each side touches a marked pixel.
pub open spec fn is_tight_box(
    marked: spec_fn(int, int) -> bool,
    width: int,
    height: int,
    left: int,
    top: int,
    right: int,
    bottom: int,
) -> bool {
    &&& forall|x: int, y: int|
        0 <= x < width && 0 <= y < height && #[trigger] marked(x, y) ==> left <= x <= right && top <= y
            <= bottom
    &&& exists|x: int, y: int| 0 <= x < width && 0 <= y < height && #[trigger] marked(x, y) && x == left
    &&& exists|x: int, y: int| 0 <= x < width && 0 <= y < height && #[trigger] marked(x, y) && y == top
    &&& exists|x: int, y: int| 0 <= x < width && 0 <= y < height && #[trigger] marked(x, y) && x == right
    &&& exists|x: int, y: int| 0 <= x < width && 0 <= y < height && #[trigger] marked(x, y) && y == bottom
}

/// Whether any pixel of the grid is marked.
pub open spec fn any_marked(marked: spec_fn(int, int) -> bool, width: int, height: int) -> bool {
    exists|x: int, y: int| 0 <= x < width && 0 <= y < height && #[trigger] marked(x, y)
}

/// Pixels visited before (`x`, `y`) in row-major order.
pub open spec fn visited_before(px: int, py: int, x: int, y: int) -> bool {
    py < y || (py == y && px < x)
}

proof fn lemma_pixel_in_buffer(width: int, height: int, x: int, y: int, bpp: int)
    requires
        0 <= x < width,
        0 <= y < height,
        1 <= bpp,
    ensures
        0 <= offset(width, x, y, bpp),
        offset(width, x, y, bpp) + bpp <= bpp * width * height,
        offset(width, x, y, bpp) + bpp == offset(width, x + 1, y, bpp),
        x + 1 == width ==> offset(width, x + 1, y, bpp) == offset(width, 0, y + 1, bpp),
{
    assert(y * width + x + 1 <= width * height) by (nonlinear_arith)
        requires 0 <= x < width, 0 <= y < height;
    assert(0 <= y * width + x) by (nonlinear_arith)
        requires 0 <= x < width, 0 <= y < height;
    assert(bpp * (y * width + x) + bpp == bpp * (y * width + x + 1)) by (nonlinear_arith);
    assert(bpp * (y * width + x + 1) <= bpp * (width * height)) by (nonlinear_arith)
        requires y * width + x + 1 <= width * height, 1 <= bpp;
    assert(bpp * (width * height) == bpp * width * height) by (nonlinear_arith);
    assert(0 <= bpp * (y * width + x)) by (nonlinear_arith)
        requires 0 <= y * width + x, 1 <= bpp;
    if x + 1 == width {
        assert(y * width + width == (y + 1) * width) by (nonlinear_arith);
    }
}

/// The tight box of the pixels that differ between two frames of the same
/// size, or `None` when they are equal. Scans row by row.
pub fn changed_box(previous: &RgbFrame, current: &RgbFrame) -> (found: Option<(u32, u32, u32, u32)>)
    requires
        previous.wf(),
        current.wf(),
        previous.width == current.width,
        previous.height == current.height,
    ensures
        found is None <==> !any_marked(changes(*previous, *current), current.width as int, current.height as int),
        found matches Some(b) ==> is_tight_box(
            changes(*previous, *current),
            current.width as int,
            current.height as int,
            b.0 as int,
            b.1 as int,
            b.2 as int,
            b.3 as int,
        ),
{
    let w = current.width;
    let h = current.height;
    let ghost p = previous.pixels@;
    let ghost c = current.pixels@;
    let ghost marked = changes(*previous, *current);
    let mut left: u32 = w;
    let mut top: u32 = h;
    let mut right: u32 = 0;
    let mut bottom: u32 = 0;
    let mut changed = false;
    let len = current.pixels.len();
    let mut y: u32 = 0;
    let mut idx: usize = 0;
    while y < h
        invariant
            w == current.width,
            h == current.height,
            p == previous.pixels@,
            c == current.pixels@,
            p.len() == c.len() == 3 * w * h,
            len == c.len(),
            marked == changes(*previous, *current),
            y <= h,
            idx == offset(w as int, 0, y as int, 3),
            changed <==> exists|px: int, py: int| 0 <= px < w && 0 <= py < y && #[trigger] marked(px, py),
            forall|px: int, py: int|
                0 <= px < w && 0 <= py < y && #[trigger] marked(px, py) ==> left <= px <= right && top <= py <= bottom,
            changed ==> exists|px: int, py: int| 0 <= px < w && 0 <= py < y && #[trigger] marked(px, py) && px == left,
            changed ==> exists|px: int, py: int| 0 <= px < w && 0 <= py < y && #[trigger] marked(px, py) && py == top,
            changed ==> exists|px: int, py: int| 0 <= px < w && 0 <= py < y && #[trigger] marked(px, py) && px == right,
            changed ==> exists|px: int, py: int| 0 <= px < w && 0 <= py < y && #[trigger] marked(px, py) && py == bottom,
        decreases h - y,
    {
        let mut x: u32 = 0;
        while x < w
            invariant
                w == current.width,
                h == current.height,
                p == previous.pixels@,
                c == current.pixels@,
                p.len() == c.len() == 3 * w * h,
                len == c.len(),
            len == c.len(),
                marked == changes(*previous, *current),
                y < h,
                x <= w,
                idx == offset(w as int, x as int, y as int, 3),
                changed <==> exists|px: int, py: int|
                    0 <= px < w && 0 <= py < h && visited_before(px, py, x as int, y as int) && #[trigger] marked(px, py),
                forall|px: int, py: int|
                    0 <= px < w && 0 <= py < h && visited_before(px, py, x as int, y as int) && #[trigger] marked(px, py)
                        ==> left <= px <= right && top <= py <= bottom,
                changed ==> exists|px: int, py: int|
                    0 <= px < w && 0 <= py < h && visited_before(px, py, x as int, y as int) && #[trigger] marked(px, py) && px == left,
                changed ==> exists|px: int, py: int|
                    0 <= px < w && 0 <= py < h && visited_before(px, py, x as int, y as int) && #[trigger] marked(px, py) && py == top,
                changed ==> exists|px: int, py: int|
                    0 <= px < w && 0 <= py < h && visited_before(px, py, x as int, y as int) && #[trigger] marked(px, py) && px == right,
                changed ==> exists|px: int, py: int|
                    0 <= px < w && 0 <= py < h && visited_before(px, py, x as int, y as int) && #[trigger] marked(px, py) && py == bottom,
            decreases w - x,
        {
            proof {
                lemma_pixel_in_buffer(w as int, h as int, x as int, y as int, 3);
            }
            let differs = previous.pixels[idx] != current.pixels[idx]
                || previous.pixels[idx + 1] != current.pixels[idx + 1]
                || previous.pixels[idx + 2] != current.pixels[idx + 2];
            assert(differs == marked(x as int, y as int));
            if differs {
                if !changed {
                    left = x;
                    top = y;
                    right = x;
                    bottom = y;
                } else {
                    if x < left {
                        left = x;
                    }
                    if y < top {
                        top = y;
                    }
                    if x > right {
                        right = x;
                    }
                    if y > bottom {
                        bottom = y;
                    }
                }
                changed = true;
            }
            idx = idx + 3;
            x = x + 1;
        }
        proof {
            if w > 0 {
                lemma_pixel_in_buffer(w as int, h as int, (w - 1) as int, y as int, 3);
            } else {
                assert(offset(w as int, 0, y as int, 3) == offset(w as int, 0, y + 1, 3)) by (nonlinear_arith)
                    requires w == 0;
            }
        }
        y = y + 1;
    }
    if changed {
        Some((left, top, right, bottom))
    } else {
        None
    }
}

} // verus!

verus! {

/// Whether two RGB frames have the same size.
pub open spec fn same_size(a: RgbFrame, b: RgbFrame) -> bool {
    a.width == b.width && a.height == b.height
}

/// The update for a box of changes: the whole frame when the box covers more
/// than three quarters of it, the box otherwise.
pub open spec fn update_for_box(current: RgbFrame, left: int, top: int, right: int, bottom: int) -> FrameUpdate {
    let width = right - left + 1;
    let height = bottom - top + 1;
    if width * height > (current.width * current.height * 3) / 4 {
        FrameUpdate::Full
    } else {
        FrameUpdate::Region {
            x: left as u32,
            y: top as u32,
            width: width as u32,
            height: height as u32,
        }
    }
}

/// Chooses what to send for `current` after `previous` was shown: the whole
/// frame when there is no previous frame of the same size; nothing when no
/// pixel changed; otherwise the smallest rectangle holding every changed
/// pixel, or the whole frame when that rectangle covers more than three
/// quarters of it.
pub fn plan_update(previous: Option<&RgbFrame>, current: &RgbFrame) -> (update: FrameUpdate)
    requires
        current.wf(),
        previous matches Some(p) ==> p.wf(),
        previous matches Some(p) ==> (same_size(*p, *current) && any_marked(changes(*p, *current), current.width as int, current.height as int)
            ==> 3 * current.width * current.height <= u32::MAX),
    ensures
        match previous {
            None => update == FrameUpdate::Full,
            Some(p) => if !same_size(*p, *current) {
                update == FrameUpdate::Full
            } else if !any_marked(changes(*p, *current), current.width as int, current.height as int) {
                update == FrameUpdate::Unchanged
            } else {
                exists|l: int, t: int, r: int, b: int|
                    is_tight_box(changes(*p, *current), current.width as int, current.height as int, l, t, r, b)
                        && update == update_for_box(*current, l, t, r, b)
            },
        },
{
    let ghost given = previous;
    let prev = match previous {
        Some(p) => p,
        None => return FrameUpdate::Full,
    };
    if prev.width != current.width || prev.height != current.height {
        return FrameUpdate::Full;
    }
    match changed_box(prev, current) {
        None => FrameUpdate::Unchanged,
        Some((left, top, right, bottom)) => {
            proof {
                let m = changes(*prev, *current);
                let ghost_x = choose|x: int, y: int| 0 <= x < current.width && 0 <= y < current.height && #[trigger] m(x, y) && x == left;
                assert(left <= right && top <= bottom);
                assert(right < current.width && bottom < current.height) by {
                    let (xr, yr) = choose|x: int, y: int| 0 <= x < current.width && 0 <= y < current.height && #[trigger] m(x, y) && x == right;
                    let (xb, yb) = choose|x: int, y: int| 0 <= x < current.width && 0 <= y < current.height && #[trigger] m(x, y) && y == bottom;
                }
            }
            let width = right - left + 1;
            let height = bottom - top + 1;
            assert(width * height <= current.width * current.height) by (nonlinear_arith)
                requires width <= current.width, height <= current.height;
            assert(any_marked(changes(*prev, *current), current.width as int, current.height as int));
            assert(given == Some(prev));
            assert(3 * current.width * current.height <= u32::MAX);
            assert(current.width * current.height * 3 <= u32::MAX) by (nonlinear_arith)
                requires 3 * current.width * current.height <= u32::MAX;
            assert(current.width * current.height <= 3 * current.width * current.height) by (nonlinear_arith);
            let update = if width * height > current.width * current.height * 3 / 4 {
                FrameUpdate::Full
            } else {
                FrameUpdate::Region { x: left, y: top, width, height }
            };
            assert(is_tight_box(changes(*prev, *current), current.width as int, current.height as int, left as int, top as int, right as int, bottom as int)
                && update == update_for_box(*current, left as int, top as int, right as int, bottom as int));
            update
        },
    }
}

/// A tight box is determined by what it bounds.
pub proof fn law_tight_box_is_unique(
    marked: spec_fn(int, int) -> bool,
    width: int,
    height: int,
    l1: int, t1: int, r1: int, b1: int,
    l2: int, t2: int, r2: int, b2: int,
)
    requires
        is_tight_box(marked, width, height, l1, t1, r1, b1),
        is_tight_box(marked, width, height, l2, t2, r2, b2),
    ensures
        l1 == l2 && t1 == t2 && r1 == r2 && b1 == b2,
{
    let (x, y) = choose|x: int, y: int| 0 <= x < width && 0 <= y < height && #[trigger] marked(x, y) && x == l1;
    let (x, y) = choose|x: int, y: int| 0 <= x < width && 0 <= y < height && #[trigger] marked(x, y) && x == l2;
    let (x, y) = choose|x: int, y: int| 0 <= x < width && 0 <= y < height && #[trigger] marked(x, y) && y == t1;
    let (x, y) = choose|x: int, y: int| 0 <= x < width && 0 <= y < height && #[trigger] marked(x, y) && y == t2;
    let (x, y) = choose|x: int, y: int| 0 <= x < width && 0 <= y < height && #[trigger] marked(x, y) && x == r1;
    let (x, y) = choose|x: int, y: int| 0 <= x < width && 0 <= y < height && #[trigger] marked(x, y) && x == r2;
    let (x, y) = choose|x: int, y: int| 0 <= x < width && 0 <= y < height && #[trigger] marked(x, y) && y == b1;
    let (x, y) = choose|x: int, y: int| 0 <= x < width && 0 <= y < height && #[trigger] marked(x, y) && y == b2;
}

/// A partial update loses nothing: every pixel outside the rectangle that is
/// sent is the same in both frames, so the panel ends up showing the new frame.
pub proof fn law_region_update_reproduces_frame(previous: RgbFrame, current: RgbFrame, l: int, t: int, r: int, b: int, x: int, y: int)
    requires
        is_tight_box(changes(previous, current), current.width as int, current.height as int, l, t, r, b),
        0 <= x < current.width,
        0 <= y < current.height,
        !(l <= x <= r && t <= y <= b),
    ensures
        !pixel_changed(previous.pixels@, current.pixels@, current.width as int, x, y),
{
    let m = changes(previous, current);
    assert(!m(x, y));
}

/// The pixels of a frame inside a rectangle.
pub fn crop(frame: &RgbFrame, x: u32, y: u32, width: u32, height: u32) -> (region: RgbFrame)
    requires
        frame.wf(),
        x + width <= frame.width,
        y + height <= frame.height,
    ensures
        region.wf(),
        region.width == width,
        region.height == height,
        forall|i: int, j: int, k: int|
            0 <= i < width && 0 <= j < height && 0 <= k < 3 ==> #[trigger] region.pixels@[offset(width as int, i, j, 3) + k]
                == frame.pixels@[offset(frame.width as int, x + i, y + j, 3) + k],
{
    let mut pixels: Vec<u8> = Vec::new();
    let mut j: u32 = 0;
    let fw = frame.width;
    while j < height
        invariant
            frame.wf(),
            fw == frame.width,
            x + width <= fw,
            y + height <= frame.height,
            j <= height,
            pixels@.len() == offset(width as int, 0, j as int, 3),
            forall|i: int, jj: int, k: int|
                0 <= i < width && 0 <= jj < j && 0 <= k < 3 ==> #[trigger] pixels@[offset(width as int, i, jj, 3) + k]
                    == frame.pixels@[offset(fw as int, x + i, y + jj, 3) + k],
        decreases height - j,
    {
        let mut i: u32 = 0;
        while i < width
            invariant
                frame.wf(),
                fw == frame.width,
                x + width <= fw,
                y + height <= frame.height,
                j < height,
                i <= width,
                pixels@.len() == offset(width as int, i as int, j as int, 3),
                forall|ii: int, jj: int, k: int|
                    0 <= ii < width && 0 <= jj < height && 0 <= k < 3 && visited_before(ii, jj, i as int, j as int)
                        ==> #[trigger] pixels@[offset(width as int, ii, jj, 3) + k]
                        == frame.pixels@[offset(fw as int, x + ii, y + jj, 3) + k],
            decreases width - i,
        {
            proof {
                lemma_pixel_in_buffer(fw as int, frame.height as int, (x + i) as int, (y + j) as int, 3);
                lemma_pixel_in_buffer(width as int, height as int, i as int, j as int, 3);
            }
            let len = frame.pixels.len();
            assert(3 * ((y + j) * fw + (x + i)) + 3 <= len);
            assert((y + j) * fw <= (y + j) * fw + (x + i)) by (nonlinear_arith)
                requires 0 <= x + i;
            let src = 3 * ((y + j) as usize * fw as usize + (x + i) as usize);
            pixels.push(frame.pixels[src]);
            pixels.push(frame.pixels[src + 1]);
            pixels.push(frame.pixels[src + 2]);
            proof {
                assert forall|ii: int, jj: int, k: int|
                    0 <= ii < width && 0 <= jj < height && 0 <= k < 3 && visited_before(ii, jj, i + 1, j as int)
                        implies #[trigger] pixels@[offset(width as int, ii, jj, 3) + k]
                        == frame.pixels@[offset(fw as int, x + ii, y + jj, 3) + k] by {
                    if ii == i && jj == j {
                    } else {
                        lemma_offset_order(width as int, height as int, ii, jj, i as int, j as int);
                    }
                }
            }
            i = i + 1;
        }
        proof {
            if width > 0 {
                lemma_pixel_in_buffer(width as int, height as int, (width - 1) as int, j as int, 3);
            } else {
                assert(offset(width as int, 0, j as int, 3) == offset(width as int, 0, j + 1, 3)) by (nonlinear_arith)
                    requires width == 0;
            }
        }
        j = j + 1;
    }
    assert(offset(width as int, 0, height as int, 3) == 3 * width * height) by (nonlinear_arith);
    RgbFrame { width, height, pixels }
}

proof fn lemma_offset_order(width: int, height: int, a: int, b: int, x: int, y: int)
    requires
        0 <= a < width,
        0 <= b < height,
        0 <= x < width,
        0 <= y < height,
        visited_before(a, b, x, y),
    ensures
        offset(width, a, b, 3) + 3 <= offset(width, x, y, 3),
{
    assert(b * width + a < y * width + x) by (nonlinear_arith)
        requires 0 <= a < width, 0 <= x < width, visited_before(a, b, x, y);
}

} // verus!

verus! {

/// The colour of the RGB test pattern at (`x`, `y`): red, green, blue and
/// white quadrants, left to right and top to bottom.
pub open spec fn test_pattern_colour(width: int, height: int, x: int, y: int) -> (u8, u8, u8) {
    if x < width / 2 {
        if y < height / 2 { (255, 0, 0) } else { (0, 0, 255) }
    } else {
        if y < height / 2 { (0, 255, 0) } else { (255, 255, 255) }
    }
}

/// The four-colour frame sent to check a panel's wiring and orientation.
pub fn test_pattern(width: u32, height: u32) -> (frame: RgbFrame)
    requires
        3 * width * height <= usize::MAX,
    ensures
        frame.wf(),
        frame.width == width,
        frame.height == height,
        forall|x: int, y: int|
            0 <= x < width && 0 <= y < height ==> {
                let i = #[trigger] offset(width as int, x, y, 3);
                (frame.pixels@[i], frame.pixels@[i + 1], frame.pixels@[i + 2]) == test_pattern_colour(width as int, height as int, x, y)
            },
{
    let half_width = width / 2;
    let half_height = height / 2;
    let mut pixels: Vec<u8> = Vec::new();
    let mut y: u32 = 0;
    while y < height
        invariant
            3 * width * height <= usize::MAX,
            half_width == width / 2,
            half_height == height / 2,
            y <= height,
            pixels@.len() == offset(width as int, 0, y as int, 3),
            forall|px: int, py: int|
                0 <= px < width && 0 <= py < y ==> {
                    let i = #[trigger] offset(width as int, px, py, 3);
                    (pixels@[i], pixels@[i + 1], pixels@[i + 2]) == test_pattern_colour(width as int, height as int, px, py)
                },
        decreases height - y,
    {
        let mut x: u32 = 0;
        while x < width
            invariant
                3 * width * height <= usize::MAX,
                half_width == width / 2,
                half_height == height / 2,
                y < height,
                x <= width,
                pixels@.len() == offset(width as int, x as int, y as int, 3),
                forall|px: int, py: int|
                    0 <= px < width && 0 <= py < height && visited_before(px, py, x as int, y as int) ==> {
                        let i = #[trigger] offset(width as int, px, py, 3);
                        (pixels@[i], pixels@[i + 1], pixels@[i + 2]) == test_pattern_colour(width as int, height as int, px, py)
                    },
            decreases width - x,
        {
            proof {
                lemma_pixel_in_buffer(width as int, height as int, x as int, y as int, 3);
            }
            let (r, g, b): (u8, u8, u8) = if x < half_width {
                if y < half_height { (255, 0, 0) } else { (0, 0, 255) }
            } else {
                if y < half_height { (0, 255, 0) } else { (255, 255, 255) }
            };
            pixels.push(r);
            pixels.push(g);
            pixels.push(b);
            proof {
                assert forall|px: int, py: int|
                    0 <= px < width && 0 <= py < height && visited_before(px, py, x + 1, y as int) implies {
                        let i = #[trigger] offset(width as int, px, py, 3);
                        (pixels@[i], pixels@[i + 1], pixels@[i + 2]) == test_pattern_colour(width as int, height as int, px, py)
                    } by {
                    if px == x && py == y {
                    } else {
                        lemma_offset_order(width as int, height as int, px, py, x as int, y as int);
                    }
                }
            }
            x = x + 1;
        }
        proof {
            if width > 0 {
                lemma_pixel_in_buffer(width as int, height as int, (width - 1) as int, y as int, 3);
            } else {
                assert(offset(width as int, 0, y as int, 3) == offset(width as int, 0, y + 1, 3)) by (nonlinear_arith)
                    requires width == 0;
            }
        }
        y = y + 1;
    }
    assert(offset(width as int, 0, height as int, 3) == 3 * width * height) by (nonlinear_arith);
    RgbFrame { width, height, pixels }
}

/// Whether the pixel at (`x`, `y`) of an RGBA buffer is more opaque than `threshold`.
pub open spec fn alpha_above(rgba: Seq<u8>, width: int, threshold: u8) -> spec_fn(int, int) -> bool {
    |x: int, y: int| rgba[offset(width, x, y, 4) + 3] > threshold
}

/// The tight box `(left, top, right, bottom)` of the pixels whose alpha is
/// above `threshold`, or `None` when there is none. Scans row by row.
pub fn alpha_bounds_above(rgba: &Vec<u8>, width: u32, height: u32, threshold: u8) -> (found: Option<(u32, u32, u32, u32)>)
    requires
        rgba@.len() == 4 * width * height,
    ensures
        found is None <==> !any_marked(alpha_above(rgba@, width as int, threshold), width as int, height as int),
        found matches Some(b) ==> is_tight_box(
            alpha_above(rgba@, width as int, threshold),
            width as int,
            height as int,
            b.0 as int,
            b.1 as int,
            b.2 as int,
            b.3 as int,
        ),
{
    let w = width;
    let h = height;
    let ghost marked = alpha_above(rgba@, width as int, threshold);
    let mut left: u32 = w;
    let mut top: u32 = h;
    let mut right: u32 = 0;
    let mut bottom: u32 = 0;
    let mut found = false;
    let len = rgba.len();
    let mut y: u32 = 0;
    let mut idx: usize = 0;
    while y < h
        invariant
            w == width,
            h == height,
            rgba@.len() == 4 * w * h,
            len == rgba@.len(),
            marked == alpha_above(rgba@, width as int, threshold),
            y <= h,
            idx == offset(w as int, 0, y as int, 4),
            found <==> exists|px: int, py: int| 0 <= px < w && 0 <= py < y && #[trigger] marked(px, py),
            forall|px: int, py: int|
                0 <= px < w && 0 <= py < y && #[trigger] marked(px, py) ==> left <= px <= right && top <= py <= bottom,
            found ==> exists|px: int, py: int| 0 <= px < w && 0 <= py < y && #[trigger] marked(px, py) && px == left,
            found ==> exists|px: int, py: int| 0 <= px < w && 0 <= py < y && #[trigger] marked(px, py) && py == top,
            found ==> exists|px: int, py: int| 0 <= px < w && 0 <= py < y && #[trigger] marked(px, py) && px == right,
            found ==> exists|px: int, py: int| 0 <= px < w && 0 <= py < y && #[trigger] marked(px, py) && py == bottom,
        decreases h - y,
    {
        let mut x: u32 = 0;
        while x < w
            invariant
                w == width,
                h == height,
                rgba@.len() == 4 * w * h,
                len == rgba@.len(),
                marked == alpha_above(rgba@, width as int, threshold),
                y < h,
                x <= w,
                idx == offset(w as int, x as int, y as int, 4),
                found <==> exists|px: int, py: int|
                    0 <= px < w && 0 <= py < h && visited_before(px, py, x as int, y as int) && #[trigger] marked(px, py),
                forall|px: int, py: int|
                    0 <= px < w && 0 <= py < h && visited_before(px, py, x as int, y as int) && #[trigger] marked(px, py)
                        ==> left <= px <= right && top <= py <= bottom,
                found ==> exists|px: int, py: int|
                    0 <= px < w && 0 <= py < h && visited_before(px, py, x as int, y as int) && #[trigger] marked(px, py) && px == left,
                found ==> exists|px: int, py: int|
                    0 <= px < w && 0 <= py < h && visited_before(px, py, x as int, y as int) && #[trigger] marked(px, py) && py == top,
                found ==> exists|px: int, py: int|
                    0 <= px < w && 0 <= py < h && visited_before(px, py, x as int, y as int) && #[trigger] marked(px, py) && px == right,
                found ==> exists|px: int, py: int|
                    0 <= px < w && 0 <= py < h && visited_before(px, py, x as int, y as int) && #[trigger] marked(px, py) && py == bottom,
            decreases w - x,
        {
            proof {
                lemma_pixel_in_buffer(w as int, h as int, x as int, y as int, 4);
            }
            let visible = rgba[idx + 3] > threshold;
            assert(visible == marked(x as int, y as int));
            if visible {
                if !found {
                    left = x;
                    top = y;
                    right = x;
                    bottom = y;
                } else {
                    if x < left {
                        left = x;
                    }
                    if y < top {
                        top = y;
                    }
                    if x > right {
                        right = x;
                    }
                    if y > bottom {
                        bottom = y;
                    }
                }
                found = true;
            }
            idx = idx + 4;
            x = x + 1;
        }
        proof {
            if w > 0 {
                lemma_pixel_in_buffer(w as int, h as int, (w - 1) as int, y as int, 4);
            } else {
                assert(offset(w as int, 0, y as int, 4) == offset(w as int, 0, y + 1, 4)) by (nonlinear_arith)
                    requires w == 0;
            }
        }
        y = y + 1;
    }
    if found {
        Some((left, top, right, bottom))
    } else {
        None
    }
}

/// The bounds of what a drawn glyph visibly covers (alpha above 8).
pub fn visible_alpha_bounds(rgba: &Vec<u8>, width: u32, height: u32) -> (found: Option<(u32, u32, u32, u32)>)
    requires
        rgba@.len() == 4 * width * height,
    ensures
        found is None <==> !any_marked(alpha_above(rgba@, width as int, 8), width as int, height as int),
        found matches Some(b) ==> is_tight_box(alpha_above(rgba@, width as int, 8), width as int, height as int, b.0 as int, b.1 as int, b.2 as int, b.3 as int),
{
    alpha_bounds_above(rgba, width, height, 8)
}

/// A shadow layer: every pixel takes `colour`'s RGB, and its alpha scaled by
/// `colour`'s alpha (`a * colour.a / 255`).
pub fn tint(rgba: &Vec<u8>, colour: [u8; 4]) -> (tinted: Vec<u8>)
    requires
        rgba@.len() % 4 == 0,
    ensures
        tinted@.len() == rgba@.len(),
        forall|p: int| 0 <= p < rgba@.len() / 4 ==> {
            &&& #[trigger] tinted@[4 * p] == colour@[0]
            &&& tinted@[4 * p + 1] == colour@[1]
            &&& tinted@[4 * p + 2] == colour@[2]
            &&& tinted@[4 * p + 3] == (rgba@[4 * p + 3] as int * colour@[3] as int / 255) as u8
        },
{
    let len = rgba.len();
    let mut tinted: Vec<u8> = Vec::new();
    let mut p: usize = 0;
    while p < len / 4
        invariant
            len == rgba@.len(),
            len % 4 == 0,
            p <= len / 4,
            tinted@.len() == 4 * p,
            forall|q: int| 0 <= q < p ==> {
                &&& #[trigger] tinted@[4 * q] == colour@[0]
                &&& tinted@[4 * q + 1] == colour@[1]
                &&& tinted@[4 * q + 2] == colour@[2]
                &&& tinted@[4 * q + 3] == (rgba@[4 * q + 3] as int * colour@[3] as int / 255) as u8
            },
        decreases len / 4 - p,
    {
        assert(4 * p + 3 < len);
        let a = rgba[4 * p + 3] as u16;
        let c = colour[3] as u16;
        assert(a * c <= 65025 && a * c / 255 < 256) by (nonlinear_arith)
            requires a < 256, c < 256;
        let alpha = a * c / 255;
        let ghost before = tinted@;
        tinted.push(colour[0]);
        tinted.push(colour[1]);
        tinted.push(colour[2]);
        tinted.push(alpha as u8);
        proof {
            assert forall|q: int| 0 <= q < p + 1 implies {
                &&& #[trigger] tinted@[4 * q] == colour@[0]
                &&& tinted@[4 * q + 1] == colour@[1]
                &&& tinted@[4 * q + 2] == colour@[2]
                &&& tinted@[4 * q + 3] == (rgba@[4 * q + 3] as int * colour@[3] as int / 255) as u8
            } by {
                if q < p {
                    assert(tinted@[4 * q] == before[4 * q]);
                    assert(tinted@[4 * q + 1] == before[4 * q + 1]);
                    assert(tinted@[4 * q + 2] == before[4 * q + 2]);
                    assert(tinted@[4 * q + 3] == before[4 * q + 3]);
                }
            }
        }
        p = p + 1;
    }
    tinted
}

/// A history after recording `value`: the value (if any) is appended and the
/// oldest entries are dropped so that at most `limit` remain.
pub open spec fn bounded_history<T>(history: Seq<T>, value: Option<T>, limit: nat) -> Seq<T> {
    let all = match value {
        Some(v) => history.push(v),
        None => history,
    };
    if all.len() > limit {
        all.subrange(all.len() - limit, all.len() as int)
    } else {
        all
    }
}

/// Records a sensor reading in a history that keeps the latest `limit` values.
pub fn append_bounded<T: Copy>(history: Vec<T>, value: Option<T>, limit: usize) -> (updated: Vec<T>)
    requires
        history@.len() < usize::MAX,
    ensures
        updated@ == bounded_history(history@, value, limit as nat),
{
    let mut all = history;
    if let Some(v) = value {
        all.push(v);
    }
    if all.len() <= limit {
        return all;
    }
    let start = all.len() - limit;
    let mut kept: Vec<T> = Vec::new();
    let mut i = start;
    while i < all.len()
        invariant
            start <= i <= all@.len(),
            kept@ == all@.subrange(start as int, i as int),
        decreases all@.len() - i,
    {
        kept.push(all[i]);
        assert(all@.subrange(start as int, i + 1) == all@.subrange(start as int, i as int).push(all@[i as int]));
        i += 1;
    }
    kept
}

/// A history never holds more than `limit` values once a value is recorded,
/// and the newest reading is always kept (when `limit` allows any).
pub proof fn law_history_is_bounded<T>(history: Seq<T>, value: T, limit: nat)
    requires
        limit > 0,
    ensures
        bounded_history(history, Some(value), limit).len() <= limit,
        bounded_history(history, Some(value), limit).last() == value,
{
}

} // verus!
