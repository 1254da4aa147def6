use resonance::icon::{Canvas, WIDGET_SIZE};
use resonance::messages::{EndpointState, EndpointView, Snapshot};
use resonance::theme::{rgba, Paint, Rgba};
use resonance::widget::{
    bitmap, clamp_to_work_area, client_point, compose_panel, current_rect, grown_rect, initial_origin,
    panel_height, premultiplied_bgra, premultiply, read_rows, restore_alpha, row_at, Area, Row,
    ANIMATION_STEPS, MAX_ROWS, PANEL_PADDING, PANEL_WIDTH, REST_SIZE, ROW_HEIGHT, ROW_TEXT_LEFT,
};

const AREA: Option<Area> = Some(Area { left: 0, top: 0, right: 1920, bottom: 1040 });

fn rows(count: usize) -> Vec<Row> {
    (0..count)
        .map(|index| Row {
            id: Some(format!("endpoint-{index}")),
            name: format!("Device {index}"),
            is_default: index == 0,
        })
        .collect()
}

fn endpoint(id: &str, name: &str, state: EndpointState) -> EndpointView {
    EndpointView { id: id.to_string(), friendly_name: name.to_string(), state }
}

/// A solid backdrop of the given size.
fn backdrop(width: i32, height: i32) -> Canvas {
    let mut canvas = Canvas::new(width as u32, height as u32);
    let surface = Rgba { r: 29, g: 29, b: 31, a: 255 };
    canvas.fill_rect(0, 0, width as u32, height as u32, surface, &half);
    canvas
}

/// A stand-in for the mixing of two colours.
fn half(under: Rgba, over: Rgba) -> Rgba {
    Rgba {
        r: under.r / 2 + over.r / 2,
        g: under.g / 2 + over.g / 2,
        b: under.b / 2 + over.b / 2,
        a: 255,
    }
}

/// A mixing of two colours that keeps their translucency.
fn mix(under: Rgba, over: Rgba) -> Rgba {
    let source = f32::from(over.a) / 255.0;
    let below = f32::from(under.a) / 255.0;
    let combined = source + below * (1.0 - source);
    if combined <= 0.0 {
        return under;
    }
    let channel = |over: u8, under: u8| {
        let mixed = (f32::from(over) * source + f32::from(under) * below * (1.0 - source))
            / combined;
        mixed.round() as u8
    };
    Rgba {
        r: channel(over.r, under.r),
        g: channel(over.g, under.g),
        b: channel(over.b, under.b),
        a: (combined * 255.0).round() as u8,
    }
}

/// A frame of the size that the widget has at a step: a translucent sheet with
/// the glyph in its middle, and the panel itself at the last step.
fn composed(origin: (i32, i32), list: &Vec<Row>, hovered: Option<usize>, progress: i32) -> Canvas {
    let (x, y, width, height) = current_rect(origin, list.len(), progress, AREA);
    let sheet = Rgba { a: 235 + 4 * progress as u8, ..rgba(Paint::Surface) };
    let mut canvas = Canvas::new(width as u32, height as u32);
    canvas.fill_rect(0, 0, width as u32, height as u32, sheet, &mix);
    if progress >= ANIMATION_STEPS {
        return compose_panel((x, y), canvas, list, hovered, &mix).canvas;
    }
    canvas.draw_level_glyph(
        (width - WIDGET_SIZE as i32) / 2,
        (height - WIDGET_SIZE as i32) / 2,
        WIDGET_SIZE,
        Rgba { a: 255 - 50 * progress as u8, ..rgba(Paint::TextPrimary) },
        &mix,
    );
    canvas
}

#[test]
fn no_channel_of_a_composed_frame_exceeds_its_alpha() {
    // A channel above its own alpha is what a missed multiplication looks like.
    for progress in 0..=ANIMATION_STEPS {
        let canvas = composed((100, 100), &rows(3), Some(1), progress);
        let bgra = premultiplied_bgra(&canvas.pixels);
        for (index, pixel) in bgra.chunks_exact(4).enumerate() {
            let alpha = pixel[3];
            assert!(
                pixel[0] <= alpha && pixel[1] <= alpha && pixel[2] <= alpha,
                "step {progress}, pixel {index} is not premultiplied: {pixel:?}"
            );
        }
    }
}

#[test]
fn an_opaque_pixel_only_changes_channel_order() {
    // One opaque pixel, red.
    let bgra = premultiplied_bgra(&[0xFF, 0x00, 0x00, 0xFF]);
    assert_eq!(bgra, vec![0x00, 0x00, 0xFF, 0xFF]);

    // ...and one opaque grey, where the order alone would hide a mistake.
    let bgra = premultiplied_bgra(&[0x10, 0x20, 0x30, 0xFF]);
    assert_eq!(bgra, vec![0x30, 0x20, 0x10, 0xFF]);
}

#[test]
fn a_transparent_pixel_loses_its_colour_entirely() {
    // White at zero alpha: every colour channel has to go to zero, or the window
    // shows a white fringe where the icon is meant to be clear.
    let bgra = premultiplied_bgra(&[0xFF, 0xFF, 0xFF, 0x00]);
    assert_eq!(bgra, vec![0x00, 0x00, 0x00, 0x00]);
}

#[test]
fn a_partly_transparent_pixel_is_scaled_by_its_alpha() {
    let bgra = premultiplied_bgra(&[0xFF, 0xFF, 0xFF, 0x80]);
    assert_eq!(bgra, vec![0x80, 0x80, 0x80, 0x80]);

    // A quarter-opaque pure blue.
    let bgra = premultiplied_bgra(&[0x00, 0x00, 0xFF, 0x40]);
    assert_eq!(bgra, vec![0x40, 0x00, 0x00, 0x40]);
}

#[test]
fn scaling_rounds_to_the_nearest_value() {
    for channel in 0..=255u32 {
        for alpha in 0..=255u32 {
            let expected = (channel * alpha + 127) / 255;
            assert_eq!(u32::from(premultiply(channel as u8, alpha as u8)), expected);
        }
    }
    assert_eq!(premultiplied_bgra(&[1, 2, 3]), Vec::<u8>::new());
}

#[test]
fn no_channel_of_a_composed_panel_exceeds_its_alpha() {
    let list = rows(3);
    let (x, y, width, height) = grown_rect((100, 100), 3, AREA);
    let frame = compose_panel((x, y), backdrop(width, height), &list, Some(1), &half);
    let bgra = premultiplied_bgra(&frame.canvas.pixels);
    for (index, pixel) in bgra.chunks_exact(4).enumerate() {
        let alpha = pixel[3];
        assert!(
            pixel[0] <= alpha && pixel[1] <= alpha && pixel[2] <= alpha,
            "pixel {index} is not premultiplied: {pixel:?}"
        );
    }
}

#[test]
fn the_widget_grows_from_a_square_badge_into_a_wider_panel() {
    let origin = (400, 400);
    let list = rows(3);

    let (_, _, rest_w, rest_h) = current_rect(origin, list.len(), 0, AREA);
    assert_eq!((rest_w, rest_h), (REST_SIZE, REST_SIZE));

    let (_, _, grown_w, grown_h) = current_rect(origin, list.len(), ANIMATION_STEPS, AREA);
    assert_eq!(grown_w, PANEL_WIDTH);
    assert_eq!(grown_h, panel_height(3));

    // Every intermediate step lies between the two and never goes backwards,
    // which is what keeps the animation from stuttering.
    let mut previous = rest_w;
    for progress in 1..ANIMATION_STEPS {
        let (_, _, width, height) = current_rect(origin, list.len(), progress, AREA);
        assert!(width >= previous, "step {progress} shrank mid-grow");
        assert!(width <= grown_w && height <= grown_h);
        previous = width;
    }
}

#[test]
fn the_steps_in_between_follow_the_smooth_curve() {
    let eased = |progress: i32| {
        let t = (progress as f32 / ANIMATION_STEPS as f32).clamp(0.0, 1.0);
        t * t * (3.0 - 2.0 * t)
    };
    let lerp = |from: i32, to: i32, t: f32| {
        (from as f32 + (to as f32 - from as f32) * t).round() as i32
    };
    for origin in [(0, 0), (1864, 984), (-700, 333), (12_345, -20_000), (32_000, 31_000)] {
        for count in 0..12 {
            let (gx, gy, gw, gh) = grown_rect(origin, count, AREA);
            for progress in 1..ANIMATION_STEPS {
                let t = eased(progress);
                assert_eq!(
                    current_rect(origin, count, progress, AREA),
                    (
                        lerp(origin.0, gx, t),
                        lerp(origin.1, gy, t),
                        lerp(REST_SIZE, gw, t),
                        lerp(REST_SIZE, gh, t),
                    )
                );
            }
        }
    }
}

#[test]
fn the_panel_keeps_the_badges_bottom_right_corner() {
    // Grown from a badge in open space, the panel unfolds up and left, so the
    // corner the badge occupied stays put.
    let origin = (800, 700);
    let (x, y, width, height) = grown_rect(origin, 3, AREA);

    assert_eq!(x + width, origin.0 + REST_SIZE);
    assert_eq!(y + height, origin.1 + REST_SIZE);
}

#[test]
fn a_panel_grown_from_a_corner_stays_on_screen() {
    // Dragged hard into the top-left, there is no room up and to the left, so
    // the panel has to give up the anchor rather than leave the screen.
    for area in [AREA, None] {
        let (x, y, _, _) = grown_rect((0, 0), 4, area);

        assert!(x >= 0, "the panel ran off the left edge");
        assert!(y >= 0, "the panel ran off the top edge");
    }
}

#[test]
fn rows_are_found_by_where_they_are_on_the_panel() {
    let height = panel_height(3);

    // The padding above the first row and below the last belongs to no row:
    // clicking it must not switch anything.
    assert_eq!(row_at(3, height, 0), None);
    assert_eq!(row_at(3, height, height - 1), None);

    assert_eq!(row_at(3, height, PANEL_PADDING), Some(0));
    assert_eq!(row_at(3, height, PANEL_PADDING + ROW_HEIGHT - 1), Some(0));
    assert_eq!(row_at(3, height, PANEL_PADDING + ROW_HEIGHT), Some(1));
    assert_eq!(row_at(3, height, PANEL_PADDING + 2 * ROW_HEIGHT), Some(2));

    // A point past the last row of a panel sized for fewer rows.
    assert_eq!(row_at(1, panel_height(1), PANEL_PADDING + ROW_HEIGHT), None);
}

#[test]
fn every_row_gets_a_label_to_draw() {
    let list = rows(3);
    let (x, y, width, height) = grown_rect((600, 600), list.len(), AREA);
    let frame = compose_panel((x, y), backdrop(width, height), &list, None, &half);

    assert_eq!(frame.texts.len(), 3);
    for (index, run) in frame.texts.iter().enumerate() {
        let text = String::from_utf16(&run.text).expect("utf-16");
        assert_eq!(text, format!("Device {index}"));

        // The label sits clear of the row's marker and inside the panel.
        assert_eq!(run.left, ROW_TEXT_LEFT);
        assert!(run.right <= width - PANEL_PADDING);
        assert_eq!(run.bottom - run.top, ROW_HEIGHT);
        assert_eq!(run.colour, 0x00F3_F5F5);
    }
    assert_eq!(frame.position, (x, y));
}

#[test]
fn rows_are_washed_by_what_they_stand_for() {
    let list = rows(3);
    let (_, _, width, height) = grown_rect((600, 600), list.len(), AREA);
    let plain = Rgba { r: 29, g: 29, b: 31, a: 255 };
    let frame = compose_panel((0, 0), backdrop(width, height), &list, Some(2), &half);
    let at = |row: i32| frame.canvas.pixel(200, (PANEL_PADDING + row * ROW_HEIGHT + 14) as u32);
    // The endpoint in use, one that is neither, and the one under the pointer.
    assert_ne!(at(0), plain);
    assert_eq!(at(1), plain);
    assert_ne!(at(2), plain);
    assert_ne!(at(0), at(2));
    // The marker of the endpoint in use is drawn in the accent.
    let marker = Rgba { r: 94, g: 158, b: 255, a: 255 };
    assert!((0..20).any(|x| frame.canvas.pixel(10 + x, 8 + 4 + 12) == marker));
    // The padding is left alone.
    assert_eq!(frame.canvas.pixel(3, 3), plain);
}

#[test]
fn a_panel_never_grows_past_the_row_cap() {
    // A machine with more endpoints than the shortcut shows must still produce a
    // panel of a bounded height.
    assert_eq!(panel_height(MAX_ROWS + 5), panel_height(MAX_ROWS));
    assert_eq!(panel_height(0), panel_height(1));
    assert_eq!(panel_height(3), 16 + 3 * 28);
}

#[test]
fn the_badge_starts_where_it_was_left_or_in_the_corner() {
    assert_eq!(initial_origin(None, AREA), (1920 - 56 - 16, 1040 - 56 - 16));
    assert_eq!(initial_origin(None, None), (16, 16));
    assert_eq!(initial_origin(Some((300, 200)), AREA), (300, 200));
    assert_eq!(initial_origin(Some((5000, -40)), AREA), (1920 - 56, 0));
    assert_eq!(initial_origin(Some((-3, 7)), None), (0, 7));
}

#[test]
fn a_rectangle_that_does_not_fit_goes_to_the_low_edge() {
    let narrow = Some(Area { left: 100, top: 50, right: 150, bottom: 90 });
    assert_eq!(clamp_to_work_area(120, 60, 260, 44, narrow), (100, 50));
    assert_eq!(clamp_to_work_area(100, 50, 260, 44, narrow), (100, 50));
    // A size below zero leaves more room than the area has.
    assert_eq!(clamp_to_work_area(500, 60, -10, 4, narrow), (160, 60));
}

#[test]
fn every_side_goes_from_the_badge_to_the_panel_and_never_back() {
    for origin in [(400, 400), (0, 0), (-300, 2_000), (1_000_003, -1_000_003)] {
        for count in [1, 3, 8] {
            let rest = current_rect(origin, count, 0, AREA);
            let grown = grown_rect(origin, count, AREA);
            assert_eq!(rest, (origin.0, origin.1, REST_SIZE, REST_SIZE));
            assert_eq!(current_rect(origin, count, ANIMATION_STEPS, AREA), grown);
            let mut before = rest;
            for progress in 1..=ANIMATION_STEPS {
                let after = current_rect(origin, count, progress, AREA);
                for (from, first, second, to) in [
                    (rest.0, before.0, after.0, grown.0),
                    (rest.1, before.1, after.1, grown.1),
                    (rest.2, before.2, after.2, grown.2),
                    (rest.3, before.3, after.3, grown.3),
                ] {
                    assert!(
                        (from <= first && first <= second && second <= to)
                            || (from >= first && first >= second && second >= to)
                    );
                }
                before = after;
            }
        }
    }
}

#[test]
fn only_devices_that_are_present_are_listed() {
    let snapshot = Snapshot {
        endpoints: vec![
            endpoint("a", "Speakers", EndpointState::Active),
            endpoint("b", "Headset", EndpointState::Unplugged),
            endpoint("c", "Monitor", EndpointState::Active),
        ],
        default_endpoint: Some("c".to_string()),
        live_sessions: vec![],
        revision: 1,
    };
    let listed = read_rows(Some(&snapshot));
    let names: Vec<(&str, bool)> =
        listed.iter().map(|row| (row.name.as_str(), row.is_default)).collect();
    assert_eq!(names, vec![("Speakers", false), ("Monitor", true)]);
    assert_eq!(listed[0].id.as_deref(), Some("a"));
}

#[test]
fn the_list_is_capped_and_never_empty() {
    let many = Snapshot {
        endpoints: (0..11)
            .map(|n| endpoint(&format!("e{n}"), &format!("E{n}"), EndpointState::Active))
            .collect(),
        default_endpoint: None,
        live_sessions: vec![],
        revision: 1,
    };
    let listed = read_rows(Some(&many));
    assert_eq!(listed.len(), MAX_ROWS);
    assert_eq!(listed[7].name, "E7");

    for nothing in [None, Some(&Snapshot {
        endpoints: vec![endpoint("b", "Headset", EndpointState::Disabled)],
        default_endpoint: None,
        live_sessions: vec![],
        revision: 1,
    })] {
        let listed = read_rows(nothing);
        assert_eq!(listed.len(), 1);
        assert_eq!(listed[0].name, "No devices");
        assert!(listed[0].id.is_none());
        assert!(!listed[0].is_default);
    }
}

#[test]
fn only_the_alpha_is_written_back() {
    let mut pixels = vec![1, 2, 3, 0, 5, 6, 7, 0];
    restore_alpha(&mut pixels, &vec![200, 100]);
    assert_eq!(pixels, vec![1, 2, 3, 200, 5, 6, 7, 100]);
    // A mask of another size is not applied.
    restore_alpha(&mut pixels, &vec![9]);
    assert_eq!(pixels, vec![1, 2, 3, 200, 5, 6, 7, 100]);
}

#[test]
fn a_bitmap_has_four_bytes_for_each_pixel() {
    let mut canvas = Canvas::new(3, 2);
    canvas.set_pixel(2, 1, Rgba { r: 255, g: 128, b: 0, a: 128 });
    let map = bitmap(&canvas);
    assert_eq!((map.width, map.height), (3, 2));
    assert_eq!(map.pixels.len(), 24);
    assert_eq!(&map.pixels[20..], &[0, 64, 128, 128]);
    assert_eq!(map.mask, vec![0, 0, 0, 0, 0, 128]);
}

#[test]
fn client_coordinates_are_signed() {
    assert_eq!(client_point(0x0020_0010), (16, 32));
    assert_eq!(client_point(0xFFFE_FFFF), (-1, -2));
    assert_eq!(client_point(0x8000_7FFF), (32_767, -32_768));
}
