use resonance::icon::{tray_icon_rgba, Canvas, SIZE, WIDGET_SIZE};
use resonance::theme::{
    colour, colourref, control_paints, rgba, surface_with_alpha, Interaction, Paint, Rgba,
};

const WHITE: Rgba = Rgba { r: 0xFF, g: 0xFF, b: 0xFF, a: 0xFF };

/// Lays one colour over another the way the widget does.
fn mix(under: Rgba, over: Rgba) -> Rgba {
    let source = f32::from(over.a) / 255.0;
    let below = f32::from(under.a) / 255.0;
    let combined = source + below * (1.0 - source);
    if combined <= 0.0 {
        return under;
    }
    let channel = |over: u8, under: u8| {
        let mixed = (f32::from(over) * source + f32::from(under) * below * (1.0 - source))
            / combined;
        mixed.round() as u8
    };
    Rgba {
        r: channel(over.r, under.r),
        g: channel(over.g, under.g),
        b: channel(over.b, under.b),
        a: (combined * 255.0).round() as u8,
    }
}

/// A shape of the widget between badge and panel: a rounded rectangle over the
/// whole canvas, with the glyph in its middle.
fn badge(width: u32, height: u32, radius: f32, backdrop_alpha: f32, glyph_opacity: f32) -> Canvas {
    let mut canvas = Canvas::new(width, height);
    let half_w = width as f32 / 2.0;
    let half_h = height as f32 / 2.0;
    let radius = radius.clamp(0.0, half_w.min(half_h));
    for y in 0..height {
        for x in 0..width {
            let dx = ((x as f32 + 0.5) - half_w).abs() - (half_w - radius);
            let dy = ((y as f32 + 0.5) - half_h).abs() - (half_h - radius);
            let outside = (dx.max(0.0).powi(2) + dy.max(0.0).powi(2)).sqrt();
            let distance = outside + dx.max(dy).min(0.0) - radius;
            let coverage = (0.5 - distance).clamp(0.0, 1.0);
            if coverage > 0.0 {
                let alpha = (backdrop_alpha * coverage).round() as u8;
                canvas.blend(x, y, Rgba { a: alpha, ..rgba(Paint::Surface) }, &mix);
            }
        }
    }
    if glyph_opacity > 0.0 {
        canvas.draw_level_glyph(
            (width as i32 - WIDGET_SIZE as i32) / 2,
            (height as i32 - WIDGET_SIZE as i32) / 2,
            WIDGET_SIZE,
            Rgba { a: (glyph_opacity * 255.0).round() as u8, ..rgba(Paint::TextPrimary) },
            &mix,
        );
    }
    canvas
}

/// The badge while nothing hovers over it: with a radius of half its edge it is a
/// circle.
fn resting_badge() -> Canvas {
    badge(WIDGET_SIZE, WIDGET_SIZE, WIDGET_SIZE as f32 / 2.0, 235.0, 1.0)
}

#[test]
fn icon_has_one_rgba_quad_per_pixel() {
    let (rgba, w, h) = tray_icon_rgba();
    assert_eq!(rgba.len(), (w * h * 4) as usize);
}

#[test]
fn icon_is_not_entirely_blank() {
    let (rgba, _, _) = tray_icon_rgba();
    assert!(
        rgba.chunks_exact(4).any(|px| px[3] != 0),
        "icon must have at least one opaque pixel"
    );
}

#[test]
fn the_tray_icon_shows_three_bars() {
    let (rgba, w, _) = tray_icon_rgba();
    let at = |x: u32, y: u32| {
        let index = ((y * w + x) * 4) as usize;
        [rgba[index], rgba[index + 1], rgba[index + 2], rgba[index + 3]]
    };
    assert_eq!(at(6, 18), [0xF5, 0xF5, 0xF3, 0xFF]);
    assert_eq!(at(6, 17), [0, 0, 0, 0]);
    assert_eq!(at(11, 20), [0, 0, 0, 0]);
    assert_eq!(at(17, 10), [0xF5, 0xF5, 0xF3, 0xFF]);
    assert_eq!(at(24, 27), [0xF5, 0xF5, 0xF3, 0xFF]);
    assert_eq!(at(24, 28), [0, 0, 0, 0]);
    assert!(SIZE < WIDGET_SIZE);
}

#[test]
fn the_level_glyph_keeps_its_proportions_at_any_size() {
    for size in [16u32, 24, 56, 96] {
        let mut canvas = Canvas::new(size, size);
        canvas.draw_level_glyph(0, 0, size, WHITE, &mix);

        let column_has_ink = |x: u32| (0..size).any(|y| canvas.pixels[canvas.index(x, y) + 3] > 0);
        let row_has_ink = |y: u32| (0..size).any(|x| canvas.pixels[canvas.index(x, y) + 3] > 0);

        let inked_columns = (0..size).filter(|x| column_has_ink(*x)).count();
        let inked_rows = (0..size).filter(|y| row_has_ink(*y)).count();

        // Three bars plus two gaps never fill the whole box, and the tallest bar
        // spans the box's full height.
        assert!(inked_columns > 0 && inked_columns < size as usize, "size {size}");
        assert!(inked_rows > 0 && inked_rows < size as usize, "size {size}");

        // The bars ascend: the rightmost inked column reaches higher than the
        // leftmost one.
        let first = (0..size).find(|x| column_has_ink(*x)).expect("ink");
        let last = (0..size).rev().find(|x| column_has_ink(*x)).expect("ink");
        let top_of = |x: u32| (0..size).find(|y| canvas.pixels[canvas.index(x, *y) + 3] > 0);
        assert!(top_of(last) < top_of(first), "size {size}: bars must ascend");
    }
}

/// The layout of the glyph in fractional arithmetic.
fn glyph_in_fractions(size: u32) -> Vec<(i32, i32, u32, u32)> {
    let box_width = (size as f32 * (24.0 / 56.0)).round().max(3.0);
    let box_height = (size as f32 * (23.0 / 56.0)).round().max(3.0);
    let bar_width = (box_width / 4.0).round().max(1.0);
    let gap = ((box_width - bar_width * 3.0) / 2.0).round().max(1.0);
    let left = ((size as f32 - box_width) / 2.0).floor() as i32;
    let bottom = ((size as f32 - box_height) / 2.0).floor() as i32 + box_height as i32;
    [8.0f32 / 23.0, 15.0 / 23.0, 1.0]
        .iter()
        .enumerate()
        .map(|(bar, fraction)| {
            let height = (box_height * fraction).round().max(1.0);
            (
                left + (bar as f32 * (bar_width + gap)) as i32,
                bottom - height as i32,
                bar_width as u32,
                height as u32,
            )
        })
        .collect()
}

#[test]
fn the_glyph_is_where_its_fractions_put_it() {
    for size in 1..=200u32 {
        let mut canvas = Canvas::new(size + 8, size + 8);
        canvas.draw_level_glyph(4, 4, size, WHITE, &mix);
        let bars = glyph_in_fractions(size);
        for y in 0..canvas.height {
            for x in 0..canvas.width {
                let inside = bars.iter().any(|(left, top, width, height)| {
                    let (px, py) = (x as i32 - 4, y as i32 - 4);
                    px >= *left
                        && px < left + *width as i32
                        && py >= *top
                        && py < top + *height as i32
                });
                assert_eq!(canvas.pixel(x, y).a > 0, inside, "size {size} at {x},{y}");
            }
        }
    }
}

#[test]
fn a_rectangle_is_clipped_to_the_canvas() {
    let mut canvas = Canvas::new(4, 3);
    canvas.fill_rect(-2, 1, 4, 9, WHITE, &mix);
    canvas.fill_rect(3, -5, 7, 6, WHITE, &mix);
    let drawn: Vec<(u32, u32)> = (0..3)
        .flat_map(|y| (0..4).map(move |x| (x, y)))
        .filter(|(x, y)| canvas.pixel(*x, *y) == WHITE)
        .collect();
    assert_eq!(drawn, vec![(3, 0), (0, 1), (1, 1), (0, 2), (1, 2)]);
}

#[test]
fn a_colour_is_laid_over_what_is_there() {
    let tint = Rgba { r: 255, g: 0, b: 0, a: 128 };
    let mut canvas = Canvas::new(2, 1);
    canvas.blend(0, 0, tint, &mix);
    // Over a clear pixel the colour is kept as it is, not dimmed.
    assert_eq!(canvas.pixel(0, 0), tint);
    canvas.set_pixel(1, 0, Rgba { r: 0, g: 0, b: 255, a: 255 });
    canvas.blend(1, 0, tint, &mix);
    assert_eq!(canvas.pixel(1, 0), Rgba { r: 128, g: 0, b: 127, a: 255 });
    canvas.blend(1, 0, Rgba { a: 0, ..tint }, &mix);
    assert_eq!(canvas.pixel(1, 0), Rgba { r: 128, g: 0, b: 127, a: 255 });
    canvas.blend(9, 9, tint, &mix);
}

#[test]
fn the_shortcuts_of_blending_are_what_mixing_gives() {
    for channel in 0..=255u8 {
        let under = Rgba { r: channel, g: 7, b: 255, a: channel };
        let over = Rgba { r: 200, g: channel, b: 3, a: 255 };
        assert_eq!(mix(under, over), over);
        let clear = Rgba { r: 9, g: 99, b: 199, a: 0 };
        for alpha in 1..=254u8 {
            let faint = Rgba { r: channel, g: 255 - channel, b: 13, a: alpha };
            assert_eq!(mix(clear, faint), faint);
        }
    }
}

#[test]
fn the_alpha_mask_is_the_canvas_alpha_channel() {
    let mut canvas = Canvas::new(5, 4);
    canvas.fill_rect(1, 1, 3, 2, Rgba { r: 1, g: 2, b: 3, a: 77 }, &mix);
    let mask = canvas.alpha_mask();
    assert_eq!(mask.len(), (canvas.width * canvas.height) as usize);
    for (index, pixel) in canvas.pixels.chunks_exact(4).enumerate() {
        assert_eq!(mask[index], pixel[3]);
    }
    assert_eq!(mask.iter().filter(|alpha| **alpha == 77).count(), 6);
}

#[test]
fn the_palette_is_the_one_of_the_colour_library() {
    let tint = egui::Color32::from_rgba_unmultiplied(94, 158, 255, 40);
    let c = colour(Paint::AccentTint);
    assert_eq!([c.r, c.g, c.b, c.a], tint.to_array());
    let straight = rgba(Paint::AccentTint);
    assert_eq!([straight.r, straight.g, straight.b, straight.a], tint.to_srgba_unmultiplied());
    // The precision lost on the way is visible.
    assert_eq!(straight, Rgba { r: 96, g: 159, b: 255, a: 40 });

    assert_eq!(rgba(Paint::Surface), Rgba { r: 29, g: 29, b: 31, a: 255 });
    assert_eq!(colour(Paint::Transparent), Rgba { r: 0, g: 0, b: 0, a: 0 });
    assert_eq!(surface_with_alpha(128), Rgba { r: 15, g: 15, b: 16, a: 128 });
    assert_eq!(colourref(rgba(Paint::Accent)), 0x00FF_9E5E);

    let resting = control_paints(Interaction::Inactive);
    assert_eq!((resting.fill, resting.face), (Paint::FillTrack, Paint::FillRaised));
    assert_eq!(control_paints(Interaction::Hovered), control_paints(Interaction::Open));
    assert_eq!(control_paints(Interaction::Active).face, Paint::FillPressed);
    assert_eq!(control_paints(Interaction::Noninteractive).face, Paint::Transparent);
}

#[test]
fn widget_icon_has_one_rgba_quad_per_pixel() {
    let canvas = resting_badge();
    assert_eq!(canvas.pixels.len(), (canvas.width * canvas.height * 4) as usize);
    assert_eq!(canvas.width, canvas.height);
    assert!(canvas.width > SIZE, "the widget icon must be larger than the tray one");
}

#[test]
fn widget_icon_corners_are_clear_and_its_centre_is_not() {
    let canvas = resting_badge();
    let w = canvas.width;
    let alpha_at = |x: u32, y: u32| canvas.pixels[canvas.index(x, y) + 3];
    assert_eq!(alpha_at(0, 0), 0);
    assert_eq!(alpha_at(w - 1, 0), 0);
    assert_eq!(alpha_at(0, w - 1), 0);
    assert_eq!(alpha_at(w - 1, w - 1), 0);
    assert!(alpha_at(w / 2, w / 2) > 0);
}

#[test]
fn widget_icon_draws_the_glyph_over_the_backdrop() {
    let canvas = resting_badge();
    let pixel_at = |x: u32, y: u32| {
        let idx = canvas.index(x, y);
        [
            canvas.pixels[idx],
            canvas.pixels[idx + 1],
            canvas.pixels[idx + 2],
            canvas.pixels[idx + 3],
        ]
    };

    let glyph = rgba(Paint::TextPrimary);
    // Inside the tallest bar.
    assert_eq!(pixel_at(36, 20), [glyph.r, glyph.g, glyph.b, 0xFF]);

    // Between two bars: backdrop, not glyph.
    let surface = rgba(Paint::Surface);
    let gap = pixel_at(23, 35);
    assert_eq!([gap[0], gap[1], gap[2]], [surface.r, surface.g, surface.b]);
    assert!(gap[3] > 0 && gap[3] < 0xFF);
}

#[test]
fn the_alpha_mask_matches_the_canvas_alpha_channel() {
    let canvas = resting_badge();
    let mask = canvas.alpha_mask();

    assert_eq!(mask.len(), (canvas.width * canvas.height) as usize);
    for (index, pixel) in canvas.pixels.chunks_exact(4).enumerate() {
        assert_eq!(mask[index], pixel[3]);
    }
}
