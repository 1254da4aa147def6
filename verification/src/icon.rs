//! The icon bitmaps: one for the notification area, one for the corner widget.
//!
//! Both are generated, and both show three bars of increasing height. Laying a
//! partly transparent colour over another one takes fractional arithmetic; the
//! caller hands that mixing in, and everything else is decided here.

use crate::theme::Rgba;
use vstd::prelude::*;

verus! {

/// Tray icon edge length in pixels.
pub const SIZE: u32 = 32;

/// Corner widget edge length at rest, in pixels.
pub const WIDGET_SIZE: u32 = 56;

/// The largest square that the level glyph is laid out in. Up to this size its
/// proportions come out the same in single precision as in whole numbers; in the
/// next larger square single precision rounds the height of the box up.
pub const MAX_GLYPH_SIZE: u32 = 638_276;

/// The pixel with the given index in four-byte groups of red, green, blue and
/// alpha.
pub open spec fn quad(bytes: Seq<u8>, index: int) -> Rgba {
    Rgba {
        r: bytes[4 * index],
        g: bytes[4 * index + 1],
        b: bytes[4 * index + 2],
        a: bytes[4 * index + 3],
    }
}

/// The index of a pixel in an image of the given width.
pub open spec fn position(width: int, x: int, y: int) -> int {
    y * width + x
}

/// A pixel of an image lies between its first and its last one.
pub proof fn position_is_inside(width: int, height: int, x: int, y: int)
    requires
        0 <= x < width,
        0 <= y < height,
    ensures
        0 <= position(width, x, y) < width * height,
{
    assert(0 <= y * width + x < width * height) by (nonlinear_arith)
        requires
            0 <= x < width,
            0 <= y < height,
    ;
}

/// Two pixels at one index are the same pixel.
proof fn position_is_unique(width: int, x: int, y: int, i: int, j: int)
    requires
        0 <= x < width,
        0 <= i < width,
        position(width, x, y) == position(width, i, j),
    ensures
        x == i && y == j,
{
    assert(y == j) by (nonlinear_arith)
        requires
            0 <= x < width,
            0 <= i < width,
            y * width + x == j * width + i,
    ;
}

/// Whether the pixel is inside one of the tray icon's bars.
pub open spec fn in_tray_bar(x: int, y: int) -> bool {
    y < 28 && (6 <= x < 11 && 18 <= y || 13 <= x < 18 && 10 <= y || 20 <= x < 25 && 4 <= y)
}

/// The ink of the tray icon.
pub open spec fn tray_ink() -> Rgba {
    Rgba { r: 0xF5, g: 0xF5, b: 0xF3, a: 0xFF }
}

/// A pixel that nothing was drawn on.
pub open spec fn clear() -> Rgba {
    Rgba { r: 0, g: 0, b: 0, a: 0 }
}

/// A pixel of the tray icon.
pub open spec fn tray_pixel(x: int, y: int) -> Rgba {
    if in_tray_bar(x, y) {
        tray_ink()
    } else {
        clear()
    }
}

/// Three bars of increasing height, drawn light on a transparent background so
/// that the icon reads on both light and dark taskbars. Gives the pixels, the
/// width and the height.
pub fn tray_icon_rgba() -> (icon: (Vec<u8>, u32, u32))
    ensures
        icon.1 == SIZE,
        icon.2 == SIZE,
        icon.0@.len() == 4 * (icon.1 * icon.2),
        forall|x: int, y: int|
            0 <= x < SIZE && 0 <= y < SIZE ==> #[trigger] quad(
                icon.0@,
                position(SIZE as int, x, y),
            ) == tray_pixel(x, y),
{
    let mut rgba: Vec<u8> = Vec::new();
    let mut k: u32 = 0;
    while k < SIZE * SIZE
        invariant
            k <= SIZE * SIZE,
            rgba@.len() == 4 * k,
            forall|j: int| 0 <= j < k ==> #[trigger] quad(rgba@, j) == tray_pixel(j % 32, j / 32),
        decreases SIZE * SIZE - k,
    {
        let x: u32 = k % SIZE;
        let y: u32 = k / SIZE;
        let inked = y < 28 && ((6 <= x && x < 11 && 18 <= y) || (13 <= x && x < 18 && 10 <= y) || (
        20 <= x && x < 25 && 4 <= y));
        let ghost before = rgba@;
        if inked {
            rgba.push(0xF5);
            rgba.push(0xF5);
            rgba.push(0xF3);
            rgba.push(0xFF);
        } else {
            rgba.push(0);
            rgba.push(0);
            rgba.push(0);
            rgba.push(0);
        }
        assert forall|j: int| 0 <= j < k + 1 implies #[trigger] quad(rgba@, j) == tray_pixel(
            j % 32,
            j / 32,
        ) by {
            if j < k {
                assert(quad(before, j) == tray_pixel(j % 32, j / 32));
            }
        }
        k += 1;
    }
    assert forall|x: int, y: int| 0 <= x < SIZE && 0 <= y < SIZE implies #[trigger] quad(
        rgba@,
        position(SIZE as int, x, y),
    ) == tray_pixel(x, y) by {
        let k = position(SIZE as int, x, y);
        assert(k == 32 * y + x);
        assert(k % 32 == x && k / 32 == y);
    }
    (rgba, SIZE, SIZE)
}

/// A straight-alpha image.
#[derive(Debug)]
pub struct Canvas {
    pub pixels: Vec<u8>,
    pub width: u32,
    pub height: u32,
}

/// What becomes of a pixel when `colour` is laid over it: nothing where the
/// colour is fully transparent, the colour itself where it is opaque or the
/// pixel was clear, and what `mix` gives otherwise.
pub open spec fn laid_over<F: Fn(Rgba, Rgba) -> Rgba>(
    mix: F,
    under: Rgba,
    colour: Rgba,
    result: Rgba,
) -> bool {
    if colour.a == 0 {
        result == under
    } else if colour.a == 255 || under.a == 0 {
        result == colour
    } else {
        call_ensures(mix, (under, colour), result)
    }
}

/// A function that mixes any two colours.
pub open spec fn mixes<F: Fn(Rgba, Rgba) -> Rgba>(mix: F) -> bool {
    forall|under: Rgba, colour: Rgba| call_requires(mix, (under, colour))
}

impl Canvas {
    /// One quad for each pixel.
    pub open spec fn wf(&self) -> bool {
        &&& self.pixels@.len() == 4 * (self.width * self.height)
        &&& 4 * (self.width * self.height) <= u32::MAX
    }

    /// The pixel at `(x, y)`.
    pub open spec fn at(&self, x: int, y: int) -> Rgba {
        quad(self.pixels@, position(self.width as int, x, y))
    }

    /// Whether `(x, y)` is on the canvas.
    pub open spec fn covers(&self, x: int, y: int) -> bool {
        0 <= x < self.width && 0 <= y < self.height
    }

    /// A fully transparent canvas.
    pub fn new(width: u32, height: u32) -> (canvas: Self)
        requires
            4 * (width * height) <= u32::MAX,
        ensures
            canvas.wf(),
            canvas.width == width,
            canvas.height == height,
            forall|x: int, y: int| canvas.covers(x, y) ==> #[trigger] canvas.at(x, y) == clear(),
    {
        assert(0 <= width * height) by (nonlinear_arith)
            requires
                width >= 0,
                height >= 0,
        ;
        let count: u32 = width * height * 4;
        let mut pixels: Vec<u8> = Vec::new();
        let mut i: u32 = 0;
        while i < count
            invariant
                i <= count,
                pixels@.len() == i,
                forall|j: int| 0 <= j < i ==> pixels@[j] == 0,
            decreases count - i,
        {
            pixels.push(0);
            i += 1;
        }
        let canvas = Canvas { pixels, width, height };
        assert forall|x: int, y: int| canvas.covers(x, y) implies #[trigger] canvas.at(x, y)
            == clear() by {
            position_is_inside(width as int, height as int, x, y);
        }
        canvas
    }

    /// Where the quad of a pixel begins.
    pub fn index(&self, x: u32, y: u32) -> (index: usize)
        requires
            self.wf(),
            self.covers(x as int, y as int),
        ensures
            index == 4 * position(self.width as int, x as int, y as int),
            index + 3 < self.pixels@.len(),
    {
        proof {
            position_is_inside(self.width as int, self.height as int, x as int, y as int);
            assert(0 <= y * self.width) by (nonlinear_arith)
                requires
                    y >= 0,
                    self.width >= 0,
            ;
        }
        ((y * self.width + x) * 4) as usize
    }

    /// The pixel at `(x, y)`.
    pub fn pixel(&self, x: u32, y: u32) -> (pixel: Rgba)
        requires
            self.wf(),
            self.covers(x as int, y as int),
        ensures
            pixel == self.at(x as int, y as int),
    {
        let index: usize = self.index(x, y);
        Rgba {
            r: self.pixels[index],
            g: self.pixels[index + 1],
            b: self.pixels[index + 2],
            a: self.pixels[index + 3],
        }
    }

    /// Replaces the pixel at `(x, y)`.
    pub fn set_pixel(&mut self, x: u32, y: u32, pixel: Rgba)
        requires
            old(self).wf(),
            old(self).covers(x as int, y as int),
        ensures
            final(self).wf(),
            final(self).width == old(self).width,
            final(self).height == old(self).height,
            forall|i: int, j: int|
                old(self).covers(i, j) ==> #[trigger] final(self).at(i, j) == if i == x && j == y {
                    pixel
                } else {
                    old(self).at(i, j)
                },
    {
        let index: usize = self.index(x, y);
        self.pixels.set(index, pixel.r);
        self.pixels.set(index + 1, pixel.g);
        self.pixels.set(index + 2, pixel.b);
        self.pixels.set(index + 3, pixel.a);
        assert forall|i: int, j: int| old(self).covers(i, j) implies #[trigger] self.at(i, j)
            == if i == x && j == y {
            pixel
        } else {
            old(self).at(i, j)
        } by {
            position_is_inside(self.width as int, self.height as int, i, j);
            if position(self.width as int, i, j) == position(self.width as int, x as int, y as int) {
                position_is_unique(self.width as int, i, j, x as int, y as int);
            }
        }
    }

    /// Lays `colour` over one pixel; outside the canvas there is none.
    pub fn blend<F: Fn(Rgba, Rgba) -> Rgba>(&mut self, x: u32, y: u32, colour: Rgba, mix: &F)
        requires
            old(self).wf(),
            mixes(*mix),
        ensures
            final(self).wf(),
            final(self).width == old(self).width,
            final(self).height == old(self).height,
            forall|i: int, j: int|
                #![trigger final(self).at(i, j)]
                old(self).covers(i, j) ==> if i == x && j == y {
                    laid_over(*mix, old(self).at(i, j), colour, final(self).at(i, j))
                } else {
                    final(self).at(i, j) == old(self).at(i, j)
                },
    {
        if x >= self.width || y >= self.height || colour.a == 0 {
            return;
        }
        let under = self.pixel(x, y);
        let result = if colour.a == 255 || under.a == 0 {
            colour
        } else {
            mix(under, colour)
        };
        self.set_pixel(x, y, result);
    }

    /// The alpha channel on its own.
    pub fn alpha_mask(&self) -> (mask: Vec<u8>)
        requires
            self.wf(),
        ensures
            mask@.len() == self.width * self.height,
            forall|k: int| 0 <= k < mask@.len() ==> #[trigger] mask@[k] == quad(self.pixels@, k).a,
    {
        let mut mask: Vec<u8> = Vec::new();
        let mut k: usize = 0;
        while k < self.pixels.len() / 4
            invariant
                self.wf(),
                k <= self.pixels@.len() / 4,
                mask@.len() == k,
                forall|j: int| 0 <= j < k ==> #[trigger] mask@[j] == quad(self.pixels@, j).a,
            decreases self.pixels@.len() / 4 - k,
        {
            mask.push(self.pixels[4 * k + 3]);
            k += 1;
        }
        mask
    }
}

/// A rectangle of pixels.
pub open spec fn in_rect(x: int, y: int, width: int, height: int, i: int, j: int) -> bool {
    x <= i < x + width && y <= j < y + height
}

/// The part of a span of pixels that is at or after zero and before `limit`.
fn clip(start: i32, length: u32, limit: u32) -> (span: (u32, u32))
    ensures
        span.0 <= span.1 <= limit,
        if span.0 < span.1 {
            &&& span.0 == at_least(0, start as int)
            &&& span.1 == start + length || span.1 == limit && limit <= start + length
        } else {
            start + length <= 0 || limit <= start || length == 0 || limit == 0
        },
{
    let from: i64 = if start < 0 {
        0
    } else {
        start as i64
    };
    let end: i64 = start as i64 + length as i64;
    let to: i64 = if end < limit as i64 {
        end
    } else {
        limit as i64
    };
    if to <= from {
        (0, 0)
    } else {
        (from as u32, to as u32)
    }
}

impl Canvas {
    /// Lays a flat rectangle over whatever is there. What lies outside the
    /// canvas is left away.
    pub fn fill_rect<F: Fn(Rgba, Rgba) -> Rgba>(
        &mut self,
        x: i32,
        y: i32,
        width: u32,
        height: u32,
        colour: Rgba,
        mix: &F,
    )
        requires
            old(self).wf(),
            mixes(*mix),
        ensures
            final(self).wf(),
            final(self).width == old(self).width,
            final(self).height == old(self).height,
            forall|i: int, j: int|
                #![trigger final(self).at(i, j)]
                old(self).covers(i, j) ==> if in_rect(
                    x as int,
                    y as int,
                    width as int,
                    height as int,
                    i,
                    j,
                ) {
                    laid_over(*mix, old(self).at(i, j), colour, final(self).at(i, j))
                } else {
                    final(self).at(i, j) == old(self).at(i, j)
                },
    {
        let columns = clip(x, width, self.width);
        let rows = clip(y, height, self.height);
        let mut row: u32 = rows.0;
        while row < rows.1
            invariant
                self.wf(),
                mixes(*mix),
                self.width == old(self).width,
                self.height == old(self).height,
                rows.0 <= row <= rows.1,
                columns.0 <= columns.1,
                forall|i: int, j: int|
                    #![trigger self.at(i, j)]
                    old(self).covers(i, j) ==> if columns.0 <= i < columns.1 && rows.0 <= j < row {
                        laid_over(*mix, old(self).at(i, j), colour, self.at(i, j))
                    } else {
                        self.at(i, j) == old(self).at(i, j)
                    },
            decreases rows.1 - row,
        {
            let mut column: u32 = columns.0;
            while column < columns.1
                invariant
                    self.wf(),
                    mixes(*mix),
                    self.width == old(self).width,
                    self.height == old(self).height,
                    rows.0 <= row < rows.1,
                    columns.0 <= column <= columns.1,
                    forall|i: int, j: int|
                        #![trigger self.at(i, j)]
                        old(self).covers(i, j) ==> if columns.0 <= i < columns.1 && rows.0 <= j
                            < row || columns.0 <= i < column && j == row {
                            laid_over(*mix, old(self).at(i, j), colour, self.at(i, j))
                        } else {
                            self.at(i, j) == old(self).at(i, j)
                        },
                decreases columns.1 - column,
            {
                let ghost before = *self;
                self.blend(column, row, colour, mix);
                assert forall|i: int, j: int|
                    #![trigger self.at(i, j)]
                    old(self).covers(i, j) implies if columns.0 <= i < columns.1 && rows.0 <= j
                    < row || columns.0 <= i < column + 1 && j == row {
                    laid_over(*mix, old(self).at(i, j), colour, self.at(i, j))
                } else {
                    self.at(i, j) == old(self).at(i, j)
                } by {
                    assert(before.at(i, j) == before.at(i, j));
                }
                column += 1;
            }
            row += 1;
        }
    }
}

/// The larger of two numbers.
pub open spec fn at_least(least: int, n: int) -> int {
    if n < least {
        least
    } else {
        n
    }
}

/// A fraction to the nearest whole number, halves up.
pub open spec fn nearest(numerator: int, denominator: int) -> int {
    (2 * numerator + denominator) / (2 * denominator)
}

/// Where the level glyph's bars are in a square of the given size: offsets from
/// the square's corner, and lengths.
pub struct GlyphModel {
    pub left: int,
    pub bottom: int,
    pub bar_width: int,
    pub step: int,
    pub heights: (int, int, int),
}

/// The level glyph in a square of the given size. The box around the bars is
/// 24/56 of the square wide, 23/56 of it high, and centred; a bar is a quarter
/// of the box wide, and what three bars leave is halved between them.
pub open spec fn glyph(size: int) -> GlyphModel {
    let box_width = at_least(3, nearest(24 * size, 56));
    let box_height = at_least(3, nearest(23 * size, 56));
    let bar_width = at_least(1, nearest(box_width, 4));
    let gap = at_least(1, nearest(box_width - 3 * bar_width, 2));
    GlyphModel {
        left: (size - box_width) / 2,
        bottom: (size - box_height) / 2 + box_height,
        bar_width,
        step: bar_width + gap,
        heights: (
            at_least(1, nearest(8 * box_height, 23)),
            at_least(1, nearest(15 * box_height, 23)),
            box_height,
        ),
    }
}

/// Whether a pixel is inside one of the bars of a glyph at `(x, y)`.
pub open spec fn in_glyph(x: int, y: int, size: int, i: int, j: int) -> bool {
    let g = glyph(size);
    let left = x + g.left;
    let bottom = y + g.bottom;
    ||| in_rect(left, bottom - g.heights.0, g.bar_width, g.heights.0, i, j)
    ||| in_rect(left + g.step, bottom - g.heights.1, g.bar_width, g.heights.1, i, j)
    ||| in_rect(left + 2 * g.step, bottom - g.heights.2, g.bar_width, g.heights.2, i, j)
}

/// Whether every pixel of a glyph at `(x, y)` has coordinates that are numbers
/// of the machine.
pub open spec fn glyph_fits(x: int, y: int, size: int) -> bool {
    let g = glyph(size);
    &&& i32::MIN <= x + g.left
    &&& x + g.left + 2 * g.step + g.bar_width <= i32::MAX
    &&& i32::MIN <= y + g.bottom - g.heights.2
    &&& y + g.bottom <= i32::MAX
}

/// The arithmetic of [`glyph`].
struct Glyph {
    left: i64,
    bottom: i64,
    bar_width: u32,
    step: i64,
    heights: (u32, u32, u32),
}

fn lay_out(size: u32) -> (laid: Glyph)
    requires
        size <= MAX_GLYPH_SIZE,
    ensures
        laid.left == glyph(size as int).left,
        laid.bottom == glyph(size as int).bottom,
        laid.bar_width == glyph(size as int).bar_width,
        laid.step == glyph(size as int).step,
        laid.heights.0 == glyph(size as int).heights.0,
        laid.heights.1 == glyph(size as int).heights.1,
        laid.heights.2 == glyph(size as int).heights.2,
        1 <= laid.bar_width < laid.step <= 2 * MAX_GLYPH_SIZE,
        1 <= laid.heights.0 <= laid.heights.1 <= laid.heights.2 <= MAX_GLYPH_SIZE,
        -2 <= laid.left <= MAX_GLYPH_SIZE,
        0 <= laid.bottom <= 2 * MAX_GLYPH_SIZE,
{
    let wide: u32 = (48 * size + 56) / 112;
    let high: u32 = (46 * size + 56) / 112;
    let box_width: u32 = if wide < 3 {
        3
    } else {
        wide
    };
    let box_height: u32 = if high < 3 {
        3
    } else {
        high
    };
    let quarter: u32 = (2 * box_width + 4) / 8;
    let bar_width: u32 = if quarter < 1 {
        1
    } else {
        quarter
    };
    let rest: i64 = box_width as i64 - 3 * bar_width as i64;
    let half: i64 = if rest < 0 {
        0
    } else {
        (2 * rest + 2) / 4
    };
    let gap: i64 = if half < 1 {
        1
    } else {
        half
    };
    let short: u32 = (16 * box_height + 23) / 46;
    let middle: u32 = (30 * box_height + 23) / 46;
    let left: i64 = if size >= box_width {
        (size as i64 - box_width as i64) / 2
    } else {
        -((box_width as i64 - size as i64 + 1) / 2)
    };
    let above: i64 = if size >= box_height {
        (size as i64 - box_height as i64) / 2
    } else {
        -((box_height as i64 - size as i64 + 1) / 2)
    };
    Glyph {
        left,
        bottom: above + box_height as i64,
        bar_width,
        step: bar_width as i64 + gap,
        heights: (short, middle, box_height),
    }
}

impl Canvas {
    /// Draws the three bars of the level glyph inside the square box at
    /// `(x, y)`.
    ///
    /// Everything about the bars is a fraction of the box, so the glyph keeps
    /// its proportions at every size.
    pub fn draw_level_glyph<F: Fn(Rgba, Rgba) -> Rgba>(
        &mut self,
        x: i32,
        y: i32,
        size: u32,
        colour: Rgba,
        mix: &F,
    )
        requires
            old(self).wf(),
            mixes(*mix),
            size <= MAX_GLYPH_SIZE,
            glyph_fits(x as int, y as int, size as int),
        ensures
            final(self).wf(),
            final(self).width == old(self).width,
            final(self).height == old(self).height,
            forall|i: int, j: int|
                #![trigger final(self).at(i, j)]
                old(self).covers(i, j) ==> if in_glyph(x as int, y as int, size as int, i, j) {
                    laid_over(*mix, old(self).at(i, j), colour, final(self).at(i, j))
                } else {
                    final(self).at(i, j) == old(self).at(i, j)
                },
    {
        let laid = lay_out(size);
        let left: i64 = x as i64 + laid.left;
        let bottom: i64 = y as i64 + laid.bottom;
        let (short, middle, tall) = laid.heights;

        self.fill_rect(left as i32, (bottom - short as i64) as i32, laid.bar_width, short, colour, mix);
        let ghost first = *self;
        self.fill_rect(
            (left + laid.step) as i32,
            (bottom - middle as i64) as i32,
            laid.bar_width,
            middle,
            colour,
            mix,
        );
        let ghost second = *self;
        self.fill_rect(
            (left + 2 * laid.step) as i32,
            (bottom - tall as i64) as i32,
            laid.bar_width,
            tall,
            colour,
            mix,
        );
        assert forall|i: int, j: int|
            #![trigger self.at(i, j)]
            old(self).covers(i, j) implies if in_glyph(x as int, y as int, size as int, i, j) {
            laid_over(*mix, old(self).at(i, j), colour, self.at(i, j))
        } else {
            self.at(i, j) == old(self).at(i, j)
        } by {
            assert(first.at(i, j) == first.at(i, j));
            assert(second.at(i, j) == second.at(i, j));
        }
    }
}

/// The bars of the level glyph ascend to the right, and they stay apart: at
/// least one column is free between two of them.
pub proof fn bars_ascend_and_stay_apart(size: int)
    requires
        0 <= size,
    ensures
        glyph(size).heights.0 <= glyph(size).heights.1 <= glyph(size).heights.2,
        8 <= size ==> glyph(size).heights.0 < glyph(size).heights.1 < glyph(size).heights.2,
        1 <= glyph(size).bar_width < glyph(size).step,
{
    let h = at_least(3, nearest(23 * size, 56));
    assert(nearest(8 * h, 23) == (16 * h + 23) / 46);
    assert(nearest(15 * h, 23) == (30 * h + 23) / 46);
    assert((16 * h + 23) / 46 <= (30 * h + 23) / 46 <= h);
}

proof fn bars_fit_their_box(wide: int, bar: int, gap: int)
    requires
        3 <= wide,
        bar == at_least(1, (2 * wide + 4) / 8),
        gap == at_least(1, (2 * (wide - 3 * bar) + 2) / 4),
    ensures
        3 * bar + 2 * gap <= wide + 2,
{
    if wide < 6 {
        assert((2 * wide + 4) / 8 == 1);
    } else {
        assert(8 * ((2 * wide + 4) / 8) <= 2 * wide + 4);
    }
    assert(3 * bar <= wide);
}

proof fn glyph_is_inside_across(size: int)
    requires
        8 <= size,
    ensures
        0 < glyph(size).left,
        glyph(size).left + 2 * glyph(size).step + glyph(size).bar_width < size,
{
    let wide = at_least(3, nearest(24 * size, 56));
    assert(nearest(24 * size, 56) == (48 * size + 56) / 112);
    let bar = at_least(1, nearest(wide, 4));
    assert(nearest(wide, 4) == (2 * wide + 4) / 8);
    let gap = at_least(1, nearest(wide - 3 * bar, 2));
    assert(nearest(wide - 3 * bar, 2) == (2 * (wide - 3 * bar) + 2) / 4);
    bars_fit_their_box(wide, bar, gap);
    assert((size - wide) / 2 + wide + 2 < size);
}

proof fn glyph_is_inside_down(size: int)
    requires
        8 <= size,
    ensures
        0 < glyph(size).bottom - glyph(size).heights.2,
        glyph(size).bottom < size,
{
    let high = at_least(3, nearest(23 * size, 56));
    assert(nearest(23 * size, 56) == (46 * size + 56) / 112);
    assert(0 < (size - high) / 2);
    assert((size - high) / 2 + high < size);
}

/// From a few pixels on, the level glyph stays inside its square and leaves a
/// margin on every side.
pub proof fn glyph_stays_inside_its_square(size: int, i: int, j: int)
    requires
        8 <= size,
        in_glyph(0, 0, size, i, j),
    ensures
        0 < i < size - 1,
        0 < j < size - 1,
{
    bars_ascend_and_stay_apart(size);
    glyph_is_inside_across(size);
    glyph_is_inside_down(size);
}

/// The pixels of an image lie row by row, each row from the left, in four bytes each:
/// red, green, blue and alpha.
pub proof fn pixels_lie_row_by_row(bytes: Seq<u8>, width: int, x: int, y: int)
    ensures
        position(width, 0, 0) == 0,
        position(width, x + 1, y) == position(width, x, y) + 1,
        position(width, x, y + 1) == position(width, x, y) + width,
        quad(bytes, position(width, x, y)).r == bytes[4 * position(width, x, y)],
        quad(bytes, position(width, x, y)).g == bytes[4 * position(width, x, y) + 1],
        quad(bytes, position(width, x, y)).b == bytes[4 * position(width, x, y) + 2],
        quad(bytes, position(width, x, y)).a == bytes[4 * position(width, x, y) + 3],
{
    assert((y + 1) * width == y * width + width) by (nonlinear_arith);
    assert(0 * width == 0);
}

/// The tray icon has three bars that end at the same height, five pixels wide and two
/// apart, each higher than the one to its left; they are opaque and light, and the rest
/// is clear.
pub proof fn tray_icon_has_three_bars(x: int, y: int)
    ensures
        in_tray_bar(x, y) <==> {
            ||| 6 <= x < 11 && 18 <= y < 28
            ||| 13 <= x < 18 && 10 <= y < 28
            ||| 20 <= x < 25 && 4 <= y < 28
        },
        in_tray_bar(x, y) ==> tray_pixel(x, y) == (Rgba { r: 245, g: 245, b: 243, a: 255 }),
        !in_tray_bar(x, y) ==> tray_pixel(x, y) == (Rgba { r: 0, g: 0, b: 0, a: 0 }),
{
}

/// A clear colour laid over a pixel leaves it as it is; an opaque one, and any over a
/// clear pixel, replaces it; only two that are both seen are mixed.
pub proof fn only_what_is_seen_is_mixed<F: Fn(Rgba, Rgba) -> Rgba>(
    mix: F,
    under: Rgba,
    colour: Rgba,
    result: Rgba,
)
    requires
        laid_over(mix, under, colour, result),
    ensures
        colour.a == 0 ==> result == under,
        colour.a == 255 ==> result == colour,
        colour.a != 0 && under.a == 0 ==> result == colour,
        0 < colour.a < 255 && under.a != 0 ==> call_ensures(mix, (under, colour), result),
{
}

/// Whether a width is 24/56 of a square's, to the nearest pixel.
pub open spec fn is_box_width(size: int, wide: int) -> bool {
    -28 <= 56 * wide - 24 * size <= 28
}

/// The bars of the glyph have the proportions of its square: the box around them is
/// 24/56 wide and 23/56 high, to the nearest pixel, and centred; a bar is a quarter of
/// the box wide, what three bars leave is shared by the two gaps, and the lower bars are
/// 8/23 and 15/23 as high as the highest.
pub proof fn glyph_has_the_proportions_of_its_square(size: int)
    requires
        8 <= size,
    ensures
        ({
            let g = glyph(size);
            let gap = g.step - g.bar_width;
            &&& -28 <= 56 * g.heights.2 - 23 * size <= 28
            &&& -23 <= 2 * (23 * g.heights.1 - 15 * g.heights.2) <= 23
            &&& -23 <= 2 * (23 * g.heights.0 - 8 * g.heights.2) <= 23
            &&& 0 <= size - g.heights.2 - 2 * (g.bottom - g.heights.2) <= 1
            &&& exists|wide: int|
                {
                    &&& #[trigger] is_box_width(size, wide)
                    &&& -2 <= 4 * g.bar_width - wide <= 2
                    &&& gap == 1 || -1 <= 2 * gap - (wide - 3 * g.bar_width) <= 1
                    &&& 0 <= size - wide - 2 * g.left <= 1
                }
        }),
{
    let wide = at_least(3, nearest(24 * size, 56));
    assert(nearest(24 * size, 56) == (48 * size + 56) / 112);
    assert(is_box_width(size, wide));
    let high = at_least(3, nearest(23 * size, 56));
    assert(nearest(23 * size, 56) == (46 * size + 56) / 112);
    assert(nearest(8 * high, 23) == (16 * high + 23) / 46);
    assert(nearest(15 * high, 23) == (30 * high + 23) / 46);
    let bar = at_least(1, nearest(wide, 4));
    assert(nearest(wide, 4) == (2 * wide + 4) / 8);
    assert(nearest(wide - 3 * bar, 2) == (2 * (wide - 3 * bar) + 2) / 4);
}

/// The glyph is drawn as three bars beside each other that end at the same height.
pub proof fn glyph_is_drawn_as_three_bars(x: int, y: int, size: int, i: int, j: int)
    ensures
        ({
            let g = glyph(size);
            let across = i - (x + g.left);
            let up = (y + g.bottom) - j;
            in_glyph(x, y, size, i, j) <==> {
                ||| 0 <= across < g.bar_width && 1 <= up <= g.heights.0
                ||| g.step <= across < g.step + g.bar_width && 1 <= up <= g.heights.1
                ||| 2 * g.step <= across < 2 * g.step + g.bar_width && 1 <= up <= g.heights.2
            }
        }),
{
}

/// A canvas has a place for each pixel of its width and its height, and for no other.
pub proof fn canvas_has_its_size(canvas: Canvas, x: int, y: int)
    ensures
        canvas.covers(x, y) <==> !(x < 0) && !(y < 0) && x <= canvas.width - 1 && y <= canvas.height
            - 1,
        canvas.wf() ==> canvas.pixels@.len() == 4 * (canvas.width * canvas.height),
{
}

} // verus!
