//! The corner widget: where it is, what it lists and how a frame of it is
//! composed.
//!
//! At rest the widget is a square badge. Under the pointer it grows into a
//! panel with one row for each endpoint that can be switched to.

use crate::icon;
use crate::icon::Canvas;
use crate::messages::{EndpointId, EndpointModel, EndpointState, EndpointView, Snapshot};
use crate::messages;
use crate::text::same;
use crate::theme;
use crate::theme::{Paint, Rgba};
use crate::wide;
use crate::wide::encode_utf16;
use vstd::prelude::*;
use vstd::string::*;

verus! {

/// Edge length of the badge.
pub const REST_SIZE: i32 = 56;

/// Distance between the badge and the corner of the work area it starts in.
pub const MARGIN: i32 = 16;

/// Width of the grown panel.
pub const PANEL_WIDTH: i32 = 260;

/// Height of one row.
pub const ROW_HEIGHT: i32 = 28;

/// Space between the edge of the panel and its rows.
pub const PANEL_PADDING: i32 = 8;

/// Edge length of the marker in front of a row's label.
pub const ROW_GLYPH_SIZE: i32 = 20;

/// Where the label of a row begins.
pub const ROW_TEXT_LEFT: i32 = 38;

/// The most rows that the panel shows.
pub const MAX_ROWS: usize = 8;

/// The steps in which the badge grows into the panel.
pub const ANIMATION_STEPS: i32 = 5;

/// The part of the desktop that windows may cover.
#[derive(Debug, Clone, Copy, PartialEq, Eq, Structural)]
pub struct Area {
    pub left: i32,
    pub top: i32,
    pub right: i32,
    pub bottom: i32,
}

/// Where a length goes that would begin at `start`: fully inside the range, at
/// its low end where it does not fit, and at zero or later where there is no
/// range.
pub open spec fn fitted(start: int, length: int, range: Option<(int, int)>) -> int {
    match range {
        None => icon::at_least(0, start),
        Some((low, high)) => {
            let last = icon::at_least(low, high - length);
            if start < low {
                low
            } else if last < start {
                last
            } else {
                start
            }
        },
    }
}

/// The horizontal range of an area.
pub open spec fn across(area: Option<Area>) -> Option<(int, int)> {
    match area {
        Some(a) => Some((a.left as int, a.right as int)),
        None => None,
    }
}

/// The vertical range of an area.
pub open spec fn down(area: Option<Area>) -> Option<(int, int)> {
    match area {
        Some(a) => Some((a.top as int, a.bottom as int)),
        None => None,
    }
}

fn fit(start: i64, length: i32, range: Option<(i32, i32)>) -> (place: i32)
    requires
        -0x2_0000_0000 <= start <= 0x2_0000_0000,
        match range {
            Some((_, high)) => high - length <= i32::MAX,
            None => start <= i32::MAX,
        },
    ensures
        place == fitted(
            start as int,
            length as int,
            match range {
                Some((low, high)) => Some((low as int, high as int)),
                None => None,
            },
        ),
{
    match range {
        None => {
            if start < 0 {
                0
            } else {
                start as i32
            }
        },
        Some((low, high)) => {
            let room: i64 = high as i64 - length as i64;
            let last: i64 = if room < low as i64 {
                low as i64
            } else {
                room
            };
            if start < low as i64 {
                low
            } else if last < start {
                last as i32
            } else {
                start as i32
            }
        },
    }
}

/// Keeps a rectangle of this size fully inside the work area. The coordinates
/// are wider than a screen's so that a sum of two of them can be handed in.
pub fn clamp_to_work_area(x: i64, y: i64, width: i32, height: i32, area: Option<Area>) -> (place: (
    i32,
    i32,
))
    requires
        -0x2_0000_0000 <= x <= 0x2_0000_0000,
        -0x2_0000_0000 <= y <= 0x2_0000_0000,
        match area {
            Some(a) => a.right - width <= i32::MAX && a.bottom - height <= i32::MAX,
            None => x <= i32::MAX && y <= i32::MAX,
        },
    ensures
        place.0 == fitted(x as int, width as int, across(area)),
        place.1 == fitted(y as int, height as int, down(area)),
{
    match area {
        None => (fit(x, width, None), fit(y, height, None)),
        Some(a) => (
            fit(x, width, Some((a.left, a.right))),
            fit(y, height, Some((a.top, a.bottom))),
        ),
    }
}

/// Where the badge sits when the widget starts: at the saved position, kept
/// inside the work area, or in the area's bottom right corner.
///
/// A saved position is still clamped, because the display it was saved on may
/// have been resized, rotated or unplugged since.
pub fn initial_origin(position: Option<(i32, i32)>, area: Option<Area>) -> (origin: (i32, i32))
    requires
        position is None && area is Some ==> i32::MIN + REST_SIZE + MARGIN <= area->0.right
            && i32::MIN + REST_SIZE + MARGIN <= area->0.bottom,
    ensures
        match (position, area) {
            (Some((x, y)), _) => {
                &&& origin.0 == fitted(x as int, REST_SIZE as int, across(area))
                &&& origin.1 == fitted(y as int, REST_SIZE as int, down(area))
            },
            (None, Some(a)) => origin == (
                (a.right - REST_SIZE - MARGIN) as i32,
                (a.bottom - REST_SIZE - MARGIN) as i32,
            ),
            (None, None) => origin == (MARGIN, MARGIN),
        },
{
    match position {
        Some((x, y)) => clamp_to_work_area(x as i64, y as i64, REST_SIZE, REST_SIZE, area),
        None => match area {
            Some(a) => (a.right - REST_SIZE - MARGIN, a.bottom - REST_SIZE - MARGIN),
            None => (MARGIN, MARGIN),
        },
    }
}

/// The number of rows that the panel is high enough for.
pub open spec fn shown_rows(rows: int) -> int {
    if rows < 1 {
        1
    } else if MAX_ROWS < rows {
        MAX_ROWS as int
    } else {
        rows
    }
}

/// The height of a panel with the given number of rows.
pub open spec fn height_for(rows: int) -> int {
    2 * PANEL_PADDING + shown_rows(rows) * ROW_HEIGHT
}

/// How tall the panel is for a given number of rows.
pub fn panel_height(rows: usize) -> (height: i32)
    ensures
        height == height_for(rows as int),
{
    let shown: i32 = if rows < 1 {
        1
    } else if MAX_ROWS < rows {
        MAX_ROWS as i32
    } else {
        rows as i32
    };
    PANEL_PADDING * 2 + shown * ROW_HEIGHT
}

/// A rectangle: its corner, its width and its height.
pub struct RectModel {
    pub x: int,
    pub y: int,
    pub width: int,
    pub height: int,
}

/// The model of a rectangle.
pub open spec fn rect_of(rect: (i32, i32, i32, i32)) -> RectModel {
    RectModel {
        x: rect.0 as int,
        y: rect.1 as int,
        width: rect.2 as int,
        height: rect.3 as int,
    }
}

/// The badge.
pub open spec fn badge(origin: (i32, i32)) -> RectModel {
    RectModel {
        x: origin.0 as int,
        y: origin.1 as int,
        width: REST_SIZE as int,
        height: REST_SIZE as int,
    }
}

/// The panel that a badge grows into: it has the badge's bottom right corner,
/// unless there is no room for it there.
pub open spec fn panel(origin: (i32, i32), rows: int, area: Option<Area>) -> RectModel {
    let height = height_for(rows);
    RectModel {
        x: fitted(origin.0 + REST_SIZE - PANEL_WIDTH, PANEL_WIDTH as int, across(area)),
        y: fitted(origin.1 + REST_SIZE - height, height, down(area)),
        width: PANEL_WIDTH as int,
        height,
    }
}

/// The panel's rectangle when fully grown.
pub fn grown_rect(origin: (i32, i32), rows: usize, area: Option<Area>) -> (rect: (
    i32,
    i32,
    i32,
    i32,
))
    requires
        origin.1 <= i32::MAX - REST_SIZE,
    ensures
        rect_of(rect) == panel(origin, rows as int, area),
{
    let width: i32 = PANEL_WIDTH;
    let height: i32 = panel_height(rows);
    let (x, y) = clamp_to_work_area(
        origin.0 as i64 + REST_SIZE as i64 - width as i64,
        origin.1 as i64 + REST_SIZE as i64 - height as i64,
        width,
        height,
        area,
    );
    (x, y, width, height)
}

/// How far a transition has come at a step, as a number of 125ths: a cubic that
/// starts and ends gently.
pub open spec fn eased(progress: int) -> int {
    progress * progress * (15 - 2 * progress)
}

proof fn eased_steps()
    by (nonlinear_arith)
    ensures
        eased(0) == 0,
        eased(1) == 13,
        eased(2) == 44,
        eased(3) == 81,
        eased(4) == 112,
        eased(5) == 125,
{
}

/// Whether `n` is the whole number nearest to the point that lies the given
/// number of 125ths of the way between two numbers.
pub open spec fn is_between(from: int, to: int, way: int, n: int) -> bool {
    -125 < 2 * (125 * n - 125 * from - (to - from) * way) < 125
}

fn interpolate(from: i32, to: i32, progress: i32) -> (n: i32)
    requires
        0 < progress < ANIMATION_STEPS,
    ensures
        is_between(from as int, to as int, eased(progress as int), n as int),
{
    let distance: i64 = to as i64 - from as i64;
    let travelled: i64 = match progress {
        1 => distance * 13,
        2 => distance * 44,
        3 => distance * 81,
        _ => distance * 112,
    };
    proof {
        eased_steps();
    }
    // Shifted so that the division is one of positive numbers.
    let shifted: i64 = 2 * (125 * from as i64 + travelled) + 125 + 250 * 0x8000_0000;
    (shifted / 250 - 0x8000_0000) as i32
}

/// The window's rectangle at a step of the animation.
pub open spec fn is_current(
    origin: (i32, i32),
    rows: int,
    progress: int,
    area: Option<Area>,
    rect: RectModel,
) -> bool {
    let rest = badge(origin);
    let grown = panel(origin, rows, area);
    if progress <= 0 {
        rect == rest
    } else if ANIMATION_STEPS <= progress {
        rect == grown
    } else {
        &&& is_between(rest.x, grown.x, eased(progress), rect.x)
        &&& is_between(rest.y, grown.y, eased(progress), rect.y)
        &&& is_between(rest.width, grown.width, eased(progress), rect.width)
        &&& is_between(rest.height, grown.height, eased(progress), rect.height)
    }
}

/// The window's rectangle at the current point in the animation.
pub fn current_rect(origin: (i32, i32), rows: usize, progress: i32, area: Option<Area>) -> (rect: (
    i32,
    i32,
    i32,
    i32,
))
    requires
        0 < progress ==> origin.1 <= i32::MAX - REST_SIZE,
    ensures
        is_current(origin, rows as int, progress as int, area, rect_of(rect)),
{
    if progress <= 0 {
        return (origin.0, origin.1, REST_SIZE, REST_SIZE);
    }
    let (x, y, width, height) = grown_rect(origin, rows, area);
    if progress >= ANIMATION_STEPS {
        return (x, y, width, height);
    }
    (
        interpolate(origin.0, x, progress),
        interpolate(origin.1, y, progress),
        interpolate(REST_SIZE, width, progress),
        interpolate(REST_SIZE, height, progress),
    )
}

/// The row at a height of the panel.
pub open spec fn row_of(rows: int, height: int, y: int) -> Option<int> {
    if PANEL_PADDING <= y < height - PANEL_PADDING && (y - PANEL_PADDING) / (ROW_HEIGHT as int)
        < rows {
        Some((y - PANEL_PADDING) / (ROW_HEIGHT as int))
    } else {
        None
    }
}

/// Which row a point in the panel falls in, if any.
pub fn row_at(rows: usize, height: i32, y: i32) -> (row: Option<usize>)
    ensures
        match row {
            Some(index) => row_of(rows as int, height as int, y as int) == Some(index as int),
            None => row_of(rows as int, height as int, y as int) is None,
        },
        row matches Some(index) ==> index < rows,
{
    if y < PANEL_PADDING || y as i64 >= height as i64 - PANEL_PADDING as i64 {
        return None;
    }
    let index: usize = ((y - PANEL_PADDING) / ROW_HEIGHT) as usize;
    if index < rows {
        Some(index)
    } else {
        None
    }
}

/// One line of the grown list.
#[derive(Debug)]
pub struct Row {
    /// `None` for the placeholder shown when there is nothing to list, which
    /// keeps it from being clickable.
    pub id: Option<EndpointId>,
    pub name: String,
    pub is_default: bool,
}

/// What a [`Row`] holds.
pub struct RowModel {
    pub id: Option<Seq<char>>,
    pub name: Seq<char>,
    pub is_default: bool,
}

impl View for Row {
    type V = RowModel;

    open spec fn view(&self) -> RowModel {
        RowModel {
            id: messages::optional_text(self.id),
            name: self.name@,
            is_default: self.is_default,
        }
    }
}

/// The models of some rows.
pub open spec fn row_models(rows: Seq<Row>) -> Seq<RowModel> {
    rows.map_values(|row: Row| row@)
}

/// The row of an endpoint.
pub open spec fn row_for(endpoint: EndpointModel, default: Option<Seq<char>>) -> RowModel {
    RowModel {
        id: Some(endpoint.id),
        name: endpoint.friendly_name,
        is_default: default == Some(endpoint.id),
    }
}

/// The row shown when there is nothing to list.
pub open spec fn placeholder() -> RowModel {
    RowModel { id: None, name: "No devices"@, is_default: false }
}

/// Whether an endpoint can be switched to.
pub open spec fn is_present(endpoint: EndpointModel) -> bool {
    endpoint.state == EndpointState::Active
}

/// The endpoints that are present, in their order.
pub open spec fn present(endpoints: Seq<EndpointModel>) -> Seq<EndpointModel> {
    endpoints.filter(|endpoint: EndpointModel| is_present(endpoint))
}

/// As many of some endpoints as the panel shows.
pub open spec fn shown(endpoints: Seq<EndpointModel>) -> Seq<EndpointModel> {
    if endpoints.len() <= MAX_ROWS {
        endpoints
    } else {
        endpoints.take(MAX_ROWS as int)
    }
}

/// A row for each of the first endpoints that are present.
pub open spec fn rows_for(endpoints: Seq<EndpointModel>, default: Option<Seq<char>>) -> Seq<
    RowModel,
> {
    shown(present(endpoints)).map_values(|endpoint: EndpointModel| row_for(endpoint, default))
}

/// What the panel lists: never nothing.
pub open spec fn listed(endpoints: Seq<EndpointModel>, default: Option<Seq<char>>) -> Seq<
    RowModel,
> {
    if present(endpoints).len() == 0 {
        seq![placeholder()]
    } else {
        rows_for(endpoints, default)
    }
}

/// Whether the optional text is the given one.
fn is_text(text: &Option<String>, other: &String) -> (yes: bool)
    ensures
        yes == (messages::optional_text(*text) == Some(other@)),
{
    match text {
        Some(t) => same(t.as_str(), other.as_str()),
        None => false,
    }
}

proof fn present_grows(endpoints: Seq<EndpointModel>, i: int)
    requires
        0 <= i < endpoints.len(),
    ensures
        present(endpoints.take(i + 1)) == if is_present(endpoints[i]) {
            present(endpoints.take(i)).push(endpoints[i])
        } else {
            present(endpoints.take(i))
        },
{
    reveal(Seq::filter);
    assert(endpoints.take(i + 1).drop_last() =~= endpoints.take(i));
}

/// The endpoints to list, read from the newest snapshot.
///
/// Only the endpoints that are present are offered: switching to one that is
/// unplugged or disabled would fail.
pub fn read_rows(snapshot: Option<&Snapshot>) -> (rows: Vec<Row>)
    ensures
        row_models(rows@) == match snapshot {
            Some(s) => listed(
                messages::endpoint_models(s.endpoints@),
                messages::optional_text(s.default_endpoint),
            ),
            None => seq![placeholder()],
        },
        1 <= rows@.len() <= MAX_ROWS,
{
    let mut rows: Vec<Row> = Vec::new();
    if let Some(s) = snapshot {
        let ghost all = messages::endpoint_models(s.endpoints@);
        let ghost default = messages::optional_text(s.default_endpoint);
        let mut i: usize = 0;
        proof {
            reveal(Seq::filter);
            assert(row_models(rows@) =~= rows_for(all.take(0), default));
        }
        while i < s.endpoints.len()
            invariant
                all == messages::endpoint_models(s.endpoints@),
                default == messages::optional_text(s.default_endpoint),
                i <= s.endpoints@.len(),
                row_models(rows@) == rows_for(all.take(i as int), default),
                rows@.len() == shown(present(all.take(i as int))).len(),
            decreases s.endpoints@.len() - i,
        {
            let endpoint: &EndpointView = &s.endpoints[i];
            proof {
                assert(all[i as int] == endpoint@);
                present_grows(all, i as int);
            }
            let ghost before = rows@;
            let active = matches!(endpoint.state, EndpointState::Active);
            if active && rows.len() < MAX_ROWS {
                rows.push(
                    Row {
                        id: Some(endpoint.id.clone()),
                        name: endpoint.friendly_name.clone(),
                        is_default: is_text(&s.default_endpoint, &endpoint.id),
                    },
                );
                assert(rows@.last()@ == row_for(endpoint@, default));
                assert(row_models(rows@) =~= row_models(before).push(rows@.last()@));
            }
            assert(row_models(rows@) =~= rows_for(all.take(i + 1), default));
            i += 1;
        }
        assert(all.take(all.len() as int) =~= all);
    }
    if rows.len() == 0 {
        rows.push(Row { id: None, name: String::from_str("No devices"), is_default: false });
        assert(row_models(rows@) =~= seq![placeholder()]);
    }
    rows
}

/// Only a row of the list that stands for an endpoint has an identifier, and it
/// is the identifier of an endpoint that is present.
pub proof fn listed_rows_are_present(
    endpoints: Seq<EndpointModel>,
    default: Option<Seq<char>>,
    index: int,
)
    requires
        0 <= index < listed(endpoints, default).len(),
        listed(endpoints, default)[index].id is Some,
    ensures
        exists|endpoint: EndpointModel|
            #![trigger endpoints.contains(endpoint)]
            endpoints.contains(endpoint) && endpoint.state == EndpointState::Active
                && listed(endpoints, default)[index] == row_for(endpoint, default),
{
    let pred = |endpoint: EndpointModel| is_present(endpoint);
    let endpoint = present(endpoints)[index];
    assert(endpoints.filter(pred).contains(endpoint));
    endpoints.lemma_filter_contains_rev(pred, endpoint);
    endpoints.lemma_filter_pred(pred, index);
    assert(endpoints.contains(endpoint));
}

/// What a layer of the panel covers.
pub enum Shape {
    Rect { x: int, y: int, width: int, height: int },
    Glyph { x: int, y: int, size: int },
}

/// One thing that is laid over what is there already.
pub struct Layer {
    pub shape: Shape,
    pub paint: Paint,
}

/// Whether a shape covers a pixel.
pub open spec fn covered(shape: Shape, i: int, j: int) -> bool {
    match shape {
        Shape::Rect { x, y, width, height } => icon::in_rect(x, y, width, height, i, j),
        Shape::Glyph { x, y, size } => icon::in_glyph(x, y, size, i, j),
    }
}

/// Whether a canvas is another one with a layer laid over it.
pub open spec fn lays<F: Fn(Rgba, Rgba) -> Rgba>(
    before: Canvas,
    layer: Layer,
    mix: F,
    after: Canvas,
) -> bool {
    &&& after.wf()
    &&& after.width == before.width
    &&& after.height == before.height
    &&& forall|i: int, j: int|
        #![trigger after.at(i, j)]
        before.covers(i, j) ==> if covered(layer.shape, i, j) {
            icon::laid_over(mix, before.at(i, j), theme::rgba_of(layer.paint), after.at(i, j))
        } else {
            after.at(i, j) == before.at(i, j)
        }
}

/// Whether a canvas is another one with some layers laid over it, the first one
/// first.
pub open spec fn lays_all<F: Fn(Rgba, Rgba) -> Rgba>(
    before: Canvas,
    layers: Seq<Layer>,
    mix: F,
    after: Canvas,
) -> bool
    decreases layers.len(),
{
    if layers.len() == 0 {
        after == before
    } else {
        exists|middle: Canvas|
            lays_all(before, layers.drop_last(), mix, middle) && #[trigger] lays(
                middle,
                layers.last(),
                mix,
                after,
            )
    }
}

proof fn lays_one_more<F: Fn(Rgba, Rgba) -> Rgba>(
    before: Canvas,
    layers: Seq<Layer>,
    mix: F,
    middle: Canvas,
    layer: Layer,
    after: Canvas,
)
    requires
        lays_all(before, layers, mix, middle),
        lays(middle, layer, mix, after),
    ensures
        lays_all(before, layers.push(layer), mix, after),
{
    assert(layers.push(layer).drop_last() =~= layers);
    assert(layers.push(layer).last() == layer);
}

/// Where a row begins.
pub open spec fn row_top(index: int) -> int {
    PANEL_PADDING + index * ROW_HEIGHT
}

/// The full width of a row.
pub open spec fn row_wash(index: int, row_width: int) -> Shape {
    Shape::Rect {
        x: PANEL_PADDING as int,
        y: row_top(index),
        width: row_width,
        height: ROW_HEIGHT as int,
    }
}

/// The colour of the marker in front of a row's label.
pub open spec fn marker_paint(row: RowModel) -> Paint {
    if row.is_default {
        Paint::Accent
    } else if row.id is Some {
        Paint::TextSecondary
    } else {
        Paint::TextDisabled
    }
}

/// The colour of a row's label.
pub open spec fn label_paint(row: RowModel) -> Paint {
    if row.id is Some {
        Paint::TextPrimary
    } else {
        Paint::TextDisabled
    }
}

/// What is drawn for a row: an accent wash behind the endpoint in use, a faint
/// one behind the row under the pointer, and the marker.
pub open spec fn row_layers(row: RowModel, index: int, hovered: bool, row_width: int) -> Seq<
    Layer,
> {
    let wash = row_wash(index, row_width);
    let in_use = if row.is_default {
        seq![Layer { shape: wash, paint: Paint::AccentTint }]
    } else {
        Seq::empty()
    };
    let under_pointer = if hovered && row.id is Some {
        in_use.push(Layer { shape: wash, paint: Paint::Hairline })
    } else {
        in_use
    };
    under_pointer.push(
        Layer {
            shape: Shape::Glyph {
                x: PANEL_PADDING + 2,
                y: row_top(index) + 4,
                size: ROW_GLYPH_SIZE as int,
            },
            paint: marker_paint(row),
        },
    )
}

/// What is drawn for the rows of a panel, from the first one down.
pub open spec fn panel_layers(
    rows: Seq<RowModel>,
    hovered_row: Option<int>,
    row_width: int,
) -> Seq<Layer>
    decreases rows.len(),
{
    if rows.len() == 0 {
        Seq::empty()
    } else {
        let last = rows.len() - 1;
        panel_layers(rows.drop_last(), hovered_row, row_width) + row_layers(
            rows.last(),
            last,
            hovered_row == Some(last),
            row_width,
        )
    }
}

/// A line of text to draw once the bitmap underneath it is in place.
#[derive(Debug)]
pub struct TextRun {
    pub left: i32,
    pub top: i32,
    pub right: i32,
    pub bottom: i32,
    pub text: Vec<u16>,
    pub colour: u32,
}

/// Whether a run is the label of a row: it begins behind the marker, spans the
/// row, and holds the row's name.
pub open spec fn labels(run: TextRun, row: RowModel, index: int, width: int) -> bool {
    let colour = theme::rgba_of(label_paint(row));
    &&& run.left == ROW_TEXT_LEFT
    &&& run.top == row_top(index)
    &&& run.right == width - PANEL_PADDING
    &&& run.bottom == row_top(index) + ROW_HEIGHT
    &&& run.text@ == wide::utf16(row.name)
    &&& run.colour == colour.r + 0x100 * colour.g + 0x1_0000 * colour.b
}

/// One composed frame: the pixels, the text still to be drawn over them, and
/// where the window should be when it appears.
#[derive(Debug)]
pub struct Frame {
    pub canvas: Canvas,
    pub texts: Vec<TextRun>,
    pub position: (i32, i32),
}

fn draw_row<F: Fn(Rgba, Rgba) -> Rgba>(
    canvas: &mut Canvas,
    row: &Row,
    top: i32,
    hovered: bool,
    row_width: u32,
    mix: &F,
    Ghost(index): Ghost<int>,
)
    requires
        old(canvas).wf(),
        icon::mixes(*mix),
        0 <= index,
        top == row_top(index),
        row_top(index) + ROW_HEIGHT <= i32::MAX,
    ensures
        final(canvas).wf(),
        final(canvas).width == old(canvas).width,
        final(canvas).height == old(canvas).height,
        lays_all(*old(canvas), row_layers(row@, index, hovered, row_width as int), *mix, *final(canvas)),
{
    let ghost before = *canvas;
    let ghost wash = row_wash(index, row_width as int);
    let ghost mut drawn: Seq<Layer> = Seq::empty();
    assert(lays_all(before, drawn, *mix, *canvas));
    if row.is_default {
        let ghost middle = *canvas;
        canvas.fill_rect(
            PANEL_PADDING,
            top,
            row_width,
            ROW_HEIGHT as u32,
            theme::rgba(Paint::AccentTint),
            mix,
        );
        proof {
            let layer = Layer { shape: wash, paint: Paint::AccentTint };
            assert(lays(middle, layer, *mix, *canvas));
            lays_one_more(before, drawn, *mix, middle, layer, *canvas);
            drawn = drawn.push(layer);
            assert(drawn =~= seq![layer]);
        }
    }
    if hovered && row.id.is_some() {
        let ghost middle = *canvas;
        canvas.fill_rect(
            PANEL_PADDING,
            top,
            row_width,
            ROW_HEIGHT as u32,
            theme::rgba(Paint::Hairline),
            mix,
        );
        proof {
            let layer = Layer { shape: wash, paint: Paint::Hairline };
            assert(lays(middle, layer, *mix, *canvas));
            lays_one_more(before, drawn, *mix, middle, layer, *canvas);
            drawn = drawn.push(layer);
        }
    }
    let paint = if row.is_default {
        Paint::Accent
    } else if row.id.is_some() {
        Paint::TextSecondary
    } else {
        Paint::TextDisabled
    };
    let ghost middle = *canvas;
    canvas.draw_level_glyph(
        PANEL_PADDING + 2,
        top + (ROW_HEIGHT - ROW_GLYPH_SIZE) / 2,
        ROW_GLYPH_SIZE as u32,
        theme::rgba(paint),
        mix,
    );
    proof {
        let layer = Layer {
            shape: Shape::Glyph {
                x: PANEL_PADDING + 2,
                y: row_top(index) + 4,
                size: ROW_GLYPH_SIZE as int,
            },
            paint,
        };
        assert(lays(middle, layer, *mix, *canvas));
        lays_one_more(before, drawn, *mix, middle, layer, *canvas);
        drawn = drawn.push(layer);
        assert(drawn =~= row_layers(row@, index, hovered, row_width as int));
    }
}

proof fn lays_in_turn<F: Fn(Rgba, Rgba) -> Rgba>(
    before: Canvas,
    first: Seq<Layer>,
    mix: F,
    middle: Canvas,
    second: Seq<Layer>,
    after: Canvas,
)
    requires
        lays_all(before, first, mix, middle),
        lays_all(middle, second, mix, after),
    ensures
        lays_all(before, first + second, mix, after),
    decreases second.len(),
{
    if second.len() == 0 {
        assert(first + second =~= first);
    } else {
        let between = choose|between: Canvas|
            lays_all(middle, second.drop_last(), mix, between) && #[trigger] lays(
                between,
                second.last(),
                mix,
                after,
            );
        lays_in_turn(before, first, mix, middle, second.drop_last(), between);
        lays_one_more(before, first + second.drop_last(), mix, between, second.last(), after);
        assert((first + second.drop_last()).push(second.last()) =~= first + second);
    }
}

/// The width of a row on a panel of the given width.
pub open spec fn row_width(width: int) -> int {
    icon::at_least(0, width - 2 * PANEL_PADDING)
}

/// An optional index as a number.
pub open spec fn index_of(index: Option<usize>) -> Option<int> {
    match index {
        Some(i) => Some(i as int),
        None => None,
    }
}

/// Composes the grown panel over its backdrop: one row per endpoint, and a label
/// for each.
pub fn compose_panel<F: Fn(Rgba, Rgba) -> Rgba>(
    position: (i32, i32),
    backdrop: Canvas,
    rows: &Vec<Row>,
    hovered_row: Option<usize>,
    mix: &F,
) -> (frame: Frame)
    requires
        backdrop.wf(),
        backdrop.width <= i32::MAX,
        row_top(rows@.len() as int) <= i32::MAX,
        icon::mixes(*mix),
    ensures
        frame.position == position,
        lays_all(
            backdrop,
            panel_layers(
                row_models(rows@),
                index_of(hovered_row),
                row_width(backdrop.width as int),
            ),
            *mix,
            frame.canvas,
        ),
        frame.texts@.len() == rows@.len(),
        forall|i: int|
            0 <= i < rows@.len() ==> labels(
                #[trigger] frame.texts@[i],
                rows@[i]@,
                i,
                backdrop.width as int,
            ),
{
    let width: i32 = backdrop.width as i32;
    let inner: i32 = width - PANEL_PADDING * 2;
    let across: u32 = if inner < 0 {
        0
    } else {
        inner as u32
    };
    let mut canvas = backdrop;
    let mut texts: Vec<TextRun> = Vec::new();
    let mut index: usize = 0;
    let mut top: i32 = PANEL_PADDING;
    let ghost models = row_models(rows@);
    let ghost hovered = index_of(hovered_row);
    assert(models.take(0) =~= Seq::<RowModel>::empty());
    while index < rows.len()
        invariant
            index <= rows@.len(),
            models == row_models(rows@),
            hovered == index_of(hovered_row),
            row_top(rows@.len() as int) <= i32::MAX,
            icon::mixes(*mix),
            top == row_top(index as int),
            across == row_width(backdrop.width as int),
            width == backdrop.width,
            canvas.wf(),
            canvas.width == backdrop.width,
            canvas.height == backdrop.height,
            lays_all(
                backdrop,
                panel_layers(models.take(index as int), hovered, across as int),
                *mix,
                canvas,
            ),
            texts@.len() == index,
            forall|i: int|
                0 <= i < index ==> labels(
                    #[trigger] texts@[i],
                    rows@[i]@,
                    i,
                    backdrop.width as int,
                ),
        decreases rows@.len() - index,
    {
        let row = &rows[index];
        let under_pointer = match hovered_row {
            Some(i) => i == index,
            None => false,
        };
        let ghost before = canvas;
        draw_row(&mut canvas, row, top, under_pointer, across, mix, Ghost(index as int));
        proof {
            let taken = models.take(index + 1);
            assert(taken.drop_last() =~= models.take(index as int));
            assert(taken.last() == row@);
            lays_in_turn(
                backdrop,
                panel_layers(models.take(index as int), hovered, across as int),
                *mix,
                before,
                row_layers(row@, index as int, under_pointer, across as int),
                canvas,
            );
        }
        let colour = theme::rgba(
            if row.id.is_some() {
                Paint::TextPrimary
            } else {
                Paint::TextDisabled
            },
        );
        texts.push(
            TextRun {
                left: ROW_TEXT_LEFT,
                top,
                right: width - PANEL_PADDING,
                bottom: top + ROW_HEIGHT,
                text: encode_utf16(row.name.as_str()),
                colour: theme::colourref(colour),
            },
        );
        top = top + ROW_HEIGHT;
        index += 1;
    }
    assert(models.take(models.len() as int) =~= models);
    Frame { canvas, texts, position }
}

/// A bitmap with its alpha channel replaced by a mask, where the two belong
/// together.
pub open spec fn with_alpha(pixels: Seq<u8>, mask: Seq<u8>) -> Seq<u8> {
    if pixels.len() == 4 * mask.len() {
        Seq::new(
            pixels.len(),
            |k: int|
                if k % 4 == 3 {
                    mask[k / 4]
                } else {
                    pixels[k]
                },
        )
    } else {
        pixels
    }
}

/// Writes the composed alpha channel back over a bitmap on which text was drawn
/// since. Nothing is written where the two do not belong together.
pub fn restore_alpha(pixels: &mut Vec<u8>, mask: &Vec<u8>)
    ensures
        final(pixels)@ == with_alpha(old(pixels)@, mask@),
{
    if pixels.len() % 4 != 0 || pixels.len() / 4 != mask.len() {
        return;
    }
    let count: usize = pixels.len();
    let mut index: usize = 0;
    while index < mask.len()
        invariant
            index <= mask@.len(),
            pixels@.len() == count,
            pixels@.len() == old(pixels)@.len(),
            pixels@.len() == 4 * mask@.len(),
            forall|k: int|
                0 <= k < old(pixels)@.len() ==> #[trigger] pixels@[k] == if k % 4 == 3 && k / 4
                    < index {
                    mask@[k / 4]
                } else {
                    old(pixels)@[k]
                },
        decreases mask@.len() - index,
    {
        pixels.set(index * 4 + 3, mask[index]);
        index += 1;
    }
    assert(pixels@ =~= with_alpha(old(pixels)@, mask@));
}

/// A channel scaled by an alpha, to the nearest value.
pub fn premultiply(channel: u8, alpha: u8) -> (scaled: u8)
    ensures
        scaled == theme::scaled(channel, alpha),
        scaled <= alpha,
{
    proof {
        theme::scaled_is_within_the_alpha(channel, alpha);
        assert(0 <= channel * alpha <= 255 * 255) by (nonlinear_arith)
            requires
                0 <= channel <= 255,
                0 <= alpha <= 255,
        ;
        assert(2 * channel * alpha == 2 * (channel * alpha)) by (nonlinear_arith);
        let n = channel * alpha;
        assert((2 * n + 255) / 510 == (n + 127) / 255);
    }
    ((channel as u32 * alpha as u32 + 127) / 255) as u8
}

/// A pixel as a layered window takes it: blue first, and each channel scaled by
/// the alpha.
pub open spec fn layered(pixel: Rgba) -> Seq<u8> {
    let scaled = theme::premultiplied(pixel);
    seq![scaled.b, scaled.g, scaled.r, scaled.a]
}

/// Converts the composed straight-alpha pixels to the premultiplied ones that a
/// layered window blends. Bytes that make no whole pixel are left away.
pub fn premultiplied_bgra(rgba: &[u8]) -> (bgra: Vec<u8>)
    ensures
        bgra@.len() == rgba@.len() / 4 * 4,
        forall|k: int|
            0 <= k < rgba@.len() / 4 ==> #[trigger] bgra@.subrange(4 * k, 4 * k + 4) == layered(
                icon::quad(rgba@, k),
            ),
{
    let mut bgra: Vec<u8> = Vec::new();
    let mut index: usize = 0;
    while index < rgba.len() / 4
        invariant
            index <= rgba@.len() / 4,
            bgra@.len() == 4 * index,
            forall|k: int|
                0 <= k < index ==> #[trigger] bgra@.subrange(4 * k, 4 * k + 4) == layered(
                    icon::quad(rgba@, k),
                ),
        decreases rgba@.len() / 4 - index,
    {
        let ghost before = bgra@;
        let alpha: u8 = rgba[4 * index + 3];
        bgra.push(premultiply(rgba[4 * index + 2], alpha));
        bgra.push(premultiply(rgba[4 * index + 1], alpha));
        bgra.push(premultiply(rgba[4 * index], alpha));
        bgra.push(alpha);
        assert forall|k: int| 0 <= k < index + 1 implies #[trigger] bgra@.subrange(4 * k, 4 * k + 4)
            == layered(icon::quad(rgba@, k)) by {
            if k < index {
                assert(bgra@.subrange(4 * k, 4 * k + 4) =~= before.subrange(4 * k, 4 * k + 4));
            } else {
                assert(bgra@.subrange(4 * k, 4 * k + 4) =~= layered(icon::quad(rgba@, k)));
            }
        }
        index += 1;
    }
    bgra
}

/// In a pixel that a layered window takes, no channel exceeds the alpha. One
/// that was opaque only changed its order, and one that was clear has lost its
/// colour.
pub proof fn layered_pixels_are_premultiplied(pixel: Rgba)
    ensures
        layered(pixel)[0] <= pixel.a,
        layered(pixel)[1] <= pixel.a,
        layered(pixel)[2] <= pixel.a,
        layered(pixel)[3] == pixel.a,
        pixel.a == 255 ==> layered(pixel) == seq![pixel.b, pixel.g, pixel.r, 255u8],
        pixel.a == 0 ==> layered(pixel) == seq![0u8, 0u8, 0u8, 0u8],
{
    theme::scaled_is_within_the_alpha(pixel.r, pixel.a);
    theme::scaled_is_within_the_alpha(pixel.g, pixel.a);
    theme::scaled_is_within_the_alpha(pixel.b, pixel.a);
    theme::opaque_is_unscaled(pixel.r);
    theme::opaque_is_unscaled(pixel.g);
    theme::opaque_is_unscaled(pixel.b);
}

/// A frame as the window takes it: its pixels, and the alpha channel that is
/// written back once text has been drawn over them.
#[derive(Debug)]
pub struct Bitmap {
    pub width: u32,
    pub height: u32,
    pub pixels: Vec<u8>,
    pub mask: Vec<u8>,
}

/// Prepares a composed canvas for the window: one pixel of four bytes for each
/// pixel of the canvas.
pub fn bitmap(canvas: &Canvas) -> (bitmap: Bitmap)
    requires
        canvas.wf(),
    ensures
        bitmap.width == canvas.width,
        bitmap.height == canvas.height,
        bitmap.pixels@.len() == 4 * (canvas.width * canvas.height),
        bitmap.mask@.len() == canvas.width * canvas.height,
        forall|x: int, y: int|
            canvas.covers(x, y) ==> {
                let k = icon::position(canvas.width as int, x, y);
                &&& bitmap.pixels@.subrange(4 * k, 4 * k + 4) == layered(
                    #[trigger] canvas.at(x, y),
                )
                &&& bitmap.mask@[k] == canvas.at(x, y).a
            },
{
    let pixels = premultiplied_bgra(canvas.pixels.as_slice());
    let mask = canvas.alpha_mask();
    assert forall|x: int, y: int| canvas.covers(x, y) implies {
        let k = icon::position(canvas.width as int, x, y);
        &&& pixels@.subrange(4 * k, 4 * k + 4) == layered(#[trigger] canvas.at(x, y))
        &&& mask@[k] == canvas.at(x, y).a
    } by {
        icon::position_is_inside(canvas.width as int, canvas.height as int, x, y);
    }
    Bitmap { width: canvas.width, height: canvas.height, pixels, mask }
}

/// Whatever text drawing left in the alpha channel, writing the mask back gives
/// every pixel the alpha it was composed with, and leaves its colour alone.
pub proof fn restored_alpha_is_the_composed_one(drawn: Seq<u8>, mask: Seq<u8>, k: int)
    requires
        drawn.len() == 4 * mask.len(),
        0 <= k < mask.len(),
    ensures
        with_alpha(drawn, mask)[4 * k + 3] == mask[k],
        with_alpha(drawn, mask)[4 * k] == drawn[4 * k],
        with_alpha(drawn, mask)[4 * k + 1] == drawn[4 * k + 1],
        with_alpha(drawn, mask)[4 * k + 2] == drawn[4 * k + 2],
{
}

/// Sixteen bits as a signed number.
pub open spec fn signed(bits: int) -> int {
    if bits < 0x8000 {
        bits
    } else {
        bits - 0x1_0000
    }
}

/// The client-relative point that a mouse message carries, packed into one
/// number: the horizontal coordinate in the low half, the vertical one in the
/// high half.
pub fn client_point(packed: u32) -> (point: (i32, i32))
    ensures
        point.0 == signed(packed as int % 0x1_0000),
        point.1 == signed(packed as int / 0x1_0000),
{
    let low: i32 = (packed % 0x1_0000) as i32;
    let high: i32 = (packed / 0x1_0000) as i32;
    (
        if low < 0x8000 {
            low
        } else {
            low - 0x1_0000
        },
        if high < 0x8000 {
            high
        } else {
            high - 0x1_0000
        },
    )
}

/// A panel is never higher than the one for the most rows, nor lower than the
/// one for a single row.
pub proof fn height_is_bounded(rows: int)
    ensures
        height_for(1) <= height_for(rows) <= height_for(MAX_ROWS as int),
        MAX_ROWS <= rows ==> height_for(rows) == height_for(MAX_ROWS as int),
        rows <= 1 ==> height_for(rows) == height_for(1),
{
}

/// What fits a range stays inside it, and stays where it is when it was inside
/// already. What is too large for it starts where the range starts.
pub proof fn fitted_stays_inside(start: int, length: int, low: int, high: int)
    ensures
        ({
            let place = fitted(start, length, Some((low, high)));
            &&& low <= place
            &&& length <= high - low ==> place + length <= high
            &&& low <= start && start + length <= high ==> place == start
            &&& high - low <= length ==> place == low
        }),
{
}

/// What was fitted is not moved by fitting it again.
pub proof fn fitting_twice_is_fitting_once(start: int, length: int, range: Option<(int, int)>)
    ensures
        fitted(fitted(start, length, range), length, range) == fitted(start, length, range),
        range is None ==> fitted(start, length, range) == icon::at_least(0, start),
{
}

/// A panel that has room up and to the left keeps the badge's bottom right
/// corner.
pub proof fn panel_keeps_the_corner(origin: (i32, i32), rows: int, area: Area)
    requires
        area.left <= origin.0 + REST_SIZE - PANEL_WIDTH,
        area.top <= origin.1 + REST_SIZE - height_for(rows),
        origin.0 + REST_SIZE <= area.right,
        origin.1 + REST_SIZE <= area.bottom,
    ensures
        panel(origin, rows, Some(area)).x + PANEL_WIDTH == origin.0 + REST_SIZE,
        panel(origin, rows, Some(area)).y + height_for(rows) == origin.1 + REST_SIZE,
{
    height_is_bounded(rows);
}

/// A panel stays inside any work area that is large enough for it, wherever the
/// badge is.
pub proof fn panel_stays_in_the_area(origin: (i32, i32), rows: int, area: Area)
    requires
        PANEL_WIDTH <= area.right - area.left,
        height_for(rows) <= area.bottom - area.top,
    ensures
        area.left <= panel(origin, rows, Some(area)).x,
        panel(origin, rows, Some(area)).x + PANEL_WIDTH <= area.right,
        area.top <= panel(origin, rows, Some(area)).y,
        panel(origin, rows, Some(area)).y + height_for(rows) <= area.bottom,
{
    height_is_bounded(rows);
}

/// Every pixel line of a row leads to that row, and the padding above the first
/// row and below the last leads to none.
pub proof fn rows_are_where_they_are_drawn(rows: int, index: int, offset: int)
    requires
        1 <= rows <= MAX_ROWS,
        0 <= index < rows,
        0 <= offset < ROW_HEIGHT,
    ensures
        row_of(rows, height_for(rows), row_top(index) + offset) == Some(index),
        forall|y: int|
            y < PANEL_PADDING || row_top(rows) <= y ==> #[trigger] row_of(rows, height_for(rows), y)
                is None,
{
}

/// The transition goes from one end to the other, and each step takes it
/// further.
pub proof fn eased_runs_from_end_to_end(progress: int)
    requires
        0 <= progress < ANIMATION_STEPS,
    ensures
        eased(0) == 0,
        eased(ANIMATION_STEPS as int) == 125,
        0 <= eased(progress) < eased(progress + 1) <= 125,
{
    eased_steps();
}

/// Whether two numbers lie on the way from one end to the other, the first not
/// behind the second.
pub open spec fn in_order(from: int, first: int, second: int, to: int) -> bool {
    from <= first <= second <= to || from >= first >= second >= to
}

proof fn between_is_monotone(from: int, to: int, earlier: int, later: int, n: int, m: int)
    requires
        0 <= earlier <= later <= 125,
        is_between(from, to, earlier, n),
        is_between(from, to, later, m),
    ensures
        in_order(from, n, m, to),
{
    let d = to - from;
    if 0 <= d {
        assert(0 <= d * earlier <= d * later <= d * 125) by (nonlinear_arith)
            requires
                0 <= d,
                0 <= earlier <= later <= 125,
        ;
    } else {
        assert(0 >= d * earlier >= d * later >= d * 125) by (nonlinear_arith)
            requires
                d < 0,
                0 <= earlier <= later <= 125,
        ;
    }
}

/// While it grows, every side of the widget only goes from where it is on the
/// badge to where it is on the panel, never back and never past it. It starts as
/// the badge and ends as the panel.
pub proof fn widget_grows_steadily(
    origin: (i32, i32),
    rows: int,
    earlier: int,
    later: int,
    area: Option<Area>,
    before: RectModel,
    after: RectModel,
)
    requires
        earlier <= later,
        is_current(origin, rows, earlier, area, before),
        is_current(origin, rows, later, area, after),
    ensures
        in_order(origin.0 as int, before.x, after.x, panel(origin, rows, area).x),
        in_order(origin.1 as int, before.y, after.y, panel(origin, rows, area).y),
        REST_SIZE <= before.width <= after.width <= PANEL_WIDTH,
        in_order(REST_SIZE as int, before.height, after.height, height_for(rows)),
        earlier <= 0 ==> before == badge(origin),
        ANIMATION_STEPS <= later ==> after == panel(origin, rows, area),
{
    eased_steps();
    let rest = badge(origin);
    let grown = panel(origin, rows, area);
    let first = way_at(earlier);
    let second = way_at(later);
    ends_are_reached(rest.height, grown.height);
    between_is_monotone(rest.x, grown.x, first, second, before.x, after.x);
    between_is_monotone(rest.y, grown.y, first, second, before.y, after.y);
    between_is_monotone(rest.width, grown.width, first, second, before.width, after.width);
    between_is_monotone(rest.height, grown.height, first, second, before.height, after.height);
}

proof fn ends_are_reached(from: int, to: int)
    by (nonlinear_arith)
    ensures
        is_between(from, to, 0, from),
        is_between(from, to, 125, to),
{
}

/// How far the transition has come, also before it starts and once it is over.
spec fn way_at(progress: int) -> int {
    if progress <= 0 {
        0
    } else if ANIMATION_STEPS <= progress {
        125
    } else {
        eased(progress)
    }
}

/// What does not lie in a range is moved to the nearest place in it, and no further.
/// Without a range only what lies before zero is moved, to zero.
pub proof fn fitted_is_the_nearest_place(start: int, length: int, low: int, high: int)
    ensures
        start < low ==> fitted(start, length, Some((low, high))) == low,
        low <= high - length && high - length < start ==> fitted(start, length, Some((low, high)))
            == high - length,
        low <= start && start <= high - length ==> fitted(start, length, Some((low, high)))
            == start,
        high - length < low ==> fitted(start, length, Some((low, high))) == low,
        start < 0 ==> fitted(start, length, None) == 0,
        0 <= start ==> fitted(start, length, None) == start,
{
}

/// What the panel lists for some endpoints: a row without an endpoint where none is
/// active, and otherwise a row for each active endpoint in their order, as many as there
/// are up to eight. A row has the endpoint's identifier and name, and marks the default.
pub proof fn active_endpoints_are_listed(
    endpoints: Seq<EndpointModel>,
    default: Option<Seq<char>>,
    index: int,
)
    requires
        0 <= index < listed(endpoints, default).len(),
    ensures
        ({
            let rows = listed(endpoints, default);
            let active = present(endpoints);
            &&& (forall|i: int|
                0 <= i < endpoints.len() ==> !((#[trigger] endpoints[i]).state is Active))
                ==> rows.len() == 1 && rows[0].id is None && rows[0].name == "No devices"@
                && !rows[0].is_default
            &&& active.len() > 0 ==> {
                &&& rows.len() == if active.len() < 8 {
                    active.len()
                } else {
                    8
                }
                &&& rows[index].id == Some(active[index].id)
                &&& rows[index].name == active[index].friendly_name
                &&& rows[index].is_default == (default == Some(active[index].id))
            }
        }),
{
    let pred = |endpoint: EndpointModel| is_present(endpoint);
    if present(endpoints).len() > 0 {
        let first = present(endpoints)[0];
        assert(present(endpoints).contains(first));
        endpoints.lemma_filter_contains_rev(pred, first);
        endpoints.lemma_filter_pred(pred, 0);
        let i = choose|i: int| 0 <= i < endpoints.len() && endpoints[i] == first;
        assert(endpoints[i].state is Active);
    }
}

/// The active endpoints are those in that state and no others, in their order.
pub proof fn active_endpoints_keep_their_order(endpoints: Seq<EndpointModel>)
    ensures
        endpoints.len() == 0 ==> present(endpoints).len() == 0,
        endpoints.len() > 0 ==> present(endpoints) == present(endpoints.drop_last())
            + if endpoints.last().state is Active {
            seq![endpoints.last()]
        } else {
            Seq::empty()
        },
{
    reveal(Seq::filter);
    if endpoints.len() > 0 {
        assert(present(endpoints) =~= present(endpoints.drop_last())
            + if endpoints.last().state is Active {
            seq![endpoints.last()]
        } else {
            Seq::empty()
        });
    }
}

/// A panel has room for its rows, from one to eight, each 28 pixels high, and for eight
/// pixels above and below them. It is 260 pixels wide, and has the bottom right corner of
/// the badge of 56 pixels wherever the area leaves room for that.
pub proof fn panel_has_room_for_its_rows(origin: (i32, i32), rows: int, area: Option<Area>)
    ensures
        1 <= rows <= 8 ==> height_for(rows) == 16 + 28 * rows,
        rows < 1 ==> height_for(rows) == 44,
        8 < rows ==> height_for(rows) == 240,
        panel(origin, rows, area).width == 260,
        panel(origin, rows, area).height == height_for(rows),
        panel(origin, rows, area).x == fitted(origin.0 + 56 - 260, 260, across(area)),
        panel(origin, rows, area).y == fitted(
            origin.1 + 56 - height_for(rows),
            height_for(rows),
            down(area),
        ),
        badge(origin) == (RectModel {
            x: origin.0 as int,
            y: origin.1 as int,
            width: 56,
            height: 56,
        }),
        area matches Some(a) ==> across(area) == Some((a.left as int, a.right as int)) && down(area)
            == Some((a.top as int, a.bottom as int)),
        area is None ==> across(area) is None && down(area) is None,
{
}

/// The animation takes five steps, slow at both ends, and the same both ways.
pub proof fn transition_is_gentle(progress: int)
    requires
        0 <= progress <= 5,
    ensures
        eased(progress) + eased(5 - progress) == 125,
        eased(1) == 13,
        eased(2) == 44,
{
    eased_steps();
}

/// A step of the animation is the nearest whole number to its part of the way.
pub proof fn step_is_the_nearest(from: int, to: int, way: int, n: int)
    requires
        is_between(from, to, way, n),
    ensures
        -125 < 2 * (125 * (n - from) - (to - from) * way) < 125,
{
}

/// A point is in a row exactly where that row is drawn, inside the padding.
pub proof fn point_is_in_the_row_drawn_there(rows: int, height: int, y: int, row: int)
    ensures
        row_of(rows, height, y) == Some(row) <==> {
            &&& 8 + 28 * row <= y < 8 + 28 * (row + 1)
            &&& 8 <= y < height - 8
            &&& row < rows
        },
        row_top(row) == 8 + 28 * row,
{
}

/// A row of the panel is washed with the accent where it is the endpoint in use, and
/// then faintly where it can be chosen and is under the pointer; the marker is drawn
/// last, in front of the label, and says whether the row is in use, can be chosen or
/// neither.
pub proof fn row_shows_what_it_stands_for(row: RowModel, index: int, hovered: bool, width: int)
    ensures
        ({
            let layers = row_layers(row, index, hovered, width);
            let wash = Shape::Rect { x: 8, y: 8 + 28 * index, width, height: 28 };
            let faint = hovered && row.id is Some;
            let marker = layers.last();
            &&& layers.len() == 1 + (if row.is_default {
                1int
            } else {
                0
            }) + (if faint {
                1int
            } else {
                0
            })
            &&& row.is_default ==> layers[0] == (Layer { shape: wash, paint: Paint::AccentTint })
            &&& faint ==> layers[layers.len() - 2] == (Layer { shape: wash, paint: Paint::Hairline })
            &&& marker.shape == (Shape::Glyph { x: 10, y: 12 + 28 * index, size: 20 })
            &&& marker.paint is Accent <==> row.is_default
            &&& marker.paint is TextSecondary <==> !row.is_default && row.id is Some
            &&& marker.paint is TextDisabled <==> !row.is_default && row.id is None
        }),
{
}

/// The rows of a panel are drawn from the first one down, the one under the pointer
/// alone as such, each as wide as the panel without its padding.
pub proof fn rows_are_drawn_in_turn(
    rows: Seq<RowModel>,
    row: RowModel,
    hovered_row: Option<int>,
    width: int,
)
    ensures
        panel_layers(rows.push(row), hovered_row, width) == panel_layers(rows, hovered_row, width)
            + row_layers(row, rows.len() as int, hovered_row == Some(rows.len() as int), width),
        panel_layers(Seq::empty(), hovered_row, width).len() == 0,
        row_width(width) == if width < 16 {
            0
        } else {
            width - 16
        },
{
    assert(rows.push(row).drop_last() =~= rows);
    assert(rows.push(row).last() == row);
}

/// A label begins behind the marker, is as high as its row and ends before the padding.
/// It holds the name of the row, in the colour of text where the row can be chosen and
/// dimmed where it cannot.
pub proof fn label_names_its_row(run: TextRun, row: RowModel, index: int, width: int)
    requires
        labels(run, row, index, width),
    ensures
        run.left == 38,
        run.right == width - 8,
        run.top == 8 + 28 * index,
        run.bottom == 8 + 28 * (index + 1),
        run.text@ == wide::utf16(row.name),
        ({
            let colour = theme::rgba_of(
                if row.id is Some {
                    Paint::TextPrimary
                } else {
                    Paint::TextDisabled
                },
            );
            run.colour == colour.r + 256 * colour.g + 65536 * colour.b
        }),
{
}

/// A layer changes the pixels that it covers and no others.
pub proof fn layer_changes_what_it_covers<F: Fn(Rgba, Rgba) -> Rgba>(
    before: Canvas,
    layer: Layer,
    mix: F,
    after: Canvas,
    i: int,
    j: int,
)
    requires
        lays(before, layer, mix, after),
        before.covers(i, j),
    ensures
        after.width == before.width,
        after.height == before.height,
        layer.shape matches Shape::Rect { x, y, width, height } ==> if x <= i < x + width && y <= j
            < y + height {
            icon::laid_over(mix, before.at(i, j), theme::rgba_of(layer.paint), after.at(i, j))
        } else {
            after.at(i, j) == before.at(i, j)
        },
        layer.shape matches Shape::Glyph { x, y, size } ==> if icon::in_glyph(x, y, size, i, j) {
            icon::laid_over(mix, before.at(i, j), theme::rgba_of(layer.paint), after.at(i, j))
        } else {
            after.at(i, j) == before.at(i, j)
        },
{
}

/// A pixel for the window has its channels scaled by its alpha, blue first.
pub proof fn window_takes_blue_first(pixel: Rgba)
    ensures
        layered(pixel).len() == 4,
        layered(pixel)[0] == theme::scaled(pixel.b, pixel.a),
        layered(pixel)[1] == theme::scaled(pixel.g, pixel.a),
        layered(pixel)[2] == theme::scaled(pixel.r, pixel.a),
        layered(pixel)[3] == pixel.a,
{
}

/// A mask that does not belong to a bitmap is not written to it.
pub proof fn foreign_mask_changes_nothing(pixels: Seq<u8>, mask: Seq<u8>)
    ensures
        pixels.len() != 4 * mask.len() ==> with_alpha(pixels, mask) == pixels,
        with_alpha(pixels, mask).len() == pixels.len(),
{
}

/// Sixteen bits stand for the number from -32768 to 32767 that they are the last bits
/// of.
pub proof fn sixteen_bits_are_signed(bits: int)
    requires
        0 <= bits < 65536,
    ensures
        -32768 <= signed(bits) < 32768,
        (signed(bits) - bits) % 65536 == 0,
{
}

/// Layers are laid in turn: each over what those before it left.
pub proof fn layers_are_laid_in_turn<F: Fn(Rgba, Rgba) -> Rgba>(
    before: Canvas,
    layers: Seq<Layer>,
    layer: Layer,
    mix: F,
    middle: Canvas,
    after: Canvas,
)
    ensures
        lays_all(before, Seq::empty(), mix, after) ==> after == before,
        lays_all(before, layers, mix, middle) && lays(middle, layer, mix, after) ==> lays_all(
            before,
            layers.push(layer),
            mix,
            after,
        ),
{
    assert(layers.push(layer).drop_last() =~= layers);
    assert(layers.push(layer).last() == layer);
}

/// The window is the badge before the animation begins and the panel from its fifth step
/// on; in between it is on the way from the one to the other, in its place and its size.
pub proof fn window_grows_into_the_panel(
    origin: (i32, i32),
    rows: int,
    progress: int,
    area: Option<Area>,
    rect: RectModel,
)
    requires
        is_current(origin, rows, progress, area, rect),
    ensures
        progress <= 0 ==> rect == badge(origin),
        progress >= 5 ==> rect == panel(origin, rows, area),
        0 < progress < 5 ==> {
            let grown = panel(origin, rows, area);
            let way = eased(progress);
            &&& -125 < 2 * (125 * (rect.width - 56) - 204 * way) < 125
            &&& -125 < 2 * (125 * (rect.height - 56) - (grown.height - 56) * way) < 125
            &&& -125 < 2 * (125 * (rect.x - origin.0) - (grown.x - origin.0) * way) < 125
            &&& -125 < 2 * (125 * (rect.y - origin.1) - (grown.y - origin.1) * way) < 125
        },
{
}

/// A widget that was put somewhere is there again, as far as the area lets it; another is
/// sixteen pixels from the right and the lower edge.
pub proof fn widget_is_where_it_was_put(
    position: Option<(i32, i32)>,
    area: Area,
    origin: (i32, i32),
)
    requires
        call_ensures(initial_origin, (position, Some(area)), origin),
        i32::MIN + 72 <= area.right,
        i32::MIN + 72 <= area.bottom,
    ensures
        position is None ==> origin.0 + 56 + 16 == area.right && origin.1 + 56 + 16 == area.bottom,
        position matches Some(put) ==> {
            &&& area.left <= put.0 && put.0 + 56 <= area.right ==> origin.0 == put.0
            &&& area.top <= put.1 && put.1 + 56 <= area.bottom ==> origin.1 == put.1
        },
{
}

} // verus!
