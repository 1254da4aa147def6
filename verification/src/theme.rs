//! The palette that the overlay and the corner widget are drawn with.
//!
//! One warm neutral ramp for text on a near-black ground, translucent white for
//! every fill and edge, and a single accent that marks state.

use vstd::prelude::*;

verus! {

/// A colour with an alpha channel.
#[derive(Debug, Clone, Copy, PartialEq, Eq, Structural)]
pub struct Rgba {
    pub r: u8,
    pub g: u8,
    pub b: u8,
    pub a: u8,
}

/// What something is painted with.
#[derive(Debug, Clone, Copy, PartialEq, Eq, Structural)]
pub enum Paint {
    /// Nothing at all.
    Transparent,
    /// The ground of the panel.
    Surface,
    TextPrimary,
    /// Headings, readouts and hints.
    TextSecondary,
    /// Text of something that cannot be used right now.
    TextDisabled,
    /// The one accent, reserved for state.
    Accent,
    /// The accent behind a selected row.
    AccentTint,
    /// The accent around a selected row.
    AccentEdge,
    /// Marks a muted session and the control that drops an entry.
    Danger,
    DangerTint,
    /// The edge of every surface.
    Hairline,
    HairlineStrong,
    /// The face of a card or of a resting button.
    FillRaised,
    FillHover,
    FillPressed,
    /// The unfilled part of a slider, and a switch that is off.
    FillTrack,
}

/// A paint as it is written down: the channels apart from the alpha.
pub open spec fn straight(paint: Paint) -> Rgba {
    match paint {
        Paint::Transparent => Rgba { r: 0, g: 0, b: 0, a: 0 },
        Paint::Surface => Rgba { r: 29, g: 29, b: 31, a: 255 },
        Paint::TextPrimary => Rgba { r: 245, g: 245, b: 243, a: 255 },
        Paint::TextSecondary => Rgba { r: 168, g: 168, b: 166, a: 255 },
        Paint::TextDisabled => Rgba { r: 110, g: 110, b: 108, a: 255 },
        Paint::Accent => Rgba { r: 94, g: 158, b: 255, a: 255 },
        Paint::AccentTint => Rgba { r: 94, g: 158, b: 255, a: 40 },
        Paint::AccentEdge => Rgba { r: 94, g: 158, b: 255, a: 110 },
        Paint::Danger => Rgba { r: 255, g: 107, b: 107, a: 255 },
        Paint::DangerTint => Rgba { r: 255, g: 107, b: 107, a: 38 },
        Paint::Hairline => Rgba { r: 255, g: 255, b: 255, a: 26 },
        Paint::HairlineStrong => Rgba { r: 255, g: 255, b: 255, a: 40 },
        Paint::FillRaised => Rgba { r: 255, g: 255, b: 255, a: 13 },
        Paint::FillHover => Rgba { r: 255, g: 255, b: 255, a: 24 },
        Paint::FillPressed => Rgba { r: 255, g: 255, b: 255, a: 38 },
        Paint::FillTrack => Rgba { r: 255, g: 255, b: 255, a: 56 },
    }
}

fn written(paint: Paint) -> (colour: Rgba)
    ensures
        colour == straight(paint),
{
    match paint {
        Paint::Transparent => Rgba { r: 0, g: 0, b: 0, a: 0 },
        Paint::Surface => Rgba { r: 29, g: 29, b: 31, a: 255 },
        Paint::TextPrimary => Rgba { r: 245, g: 245, b: 243, a: 255 },
        Paint::TextSecondary => Rgba { r: 168, g: 168, b: 166, a: 255 },
        Paint::TextDisabled => Rgba { r: 110, g: 110, b: 108, a: 255 },
        Paint::Accent => Rgba { r: 94, g: 158, b: 255, a: 255 },
        Paint::AccentTint => Rgba { r: 94, g: 158, b: 255, a: 40 },
        Paint::AccentEdge => Rgba { r: 94, g: 158, b: 255, a: 110 },
        Paint::Danger => Rgba { r: 255, g: 107, b: 107, a: 255 },
        Paint::DangerTint => Rgba { r: 255, g: 107, b: 107, a: 38 },
        Paint::Hairline => Rgba { r: 255, g: 255, b: 255, a: 26 },
        Paint::HairlineStrong => Rgba { r: 255, g: 255, b: 255, a: 40 },
        Paint::FillRaised => Rgba { r: 255, g: 255, b: 255, a: 13 },
        Paint::FillHover => Rgba { r: 255, g: 255, b: 255, a: 24 },
        Paint::FillPressed => Rgba { r: 255, g: 255, b: 255, a: 38 },
        Paint::FillTrack => Rgba { r: 255, g: 255, b: 255, a: 56 },
    }
}

/// A channel scaled by an alpha, to the nearest value.
pub open spec fn scaled(channel: u8, alpha: u8) -> u8 {
    ((2 * channel * alpha + 255) / 510) as u8
}

/// A colour with its channels scaled by its alpha.
pub open spec fn premultiplied(colour: Rgba) -> Rgba {
    Rgba {
        r: scaled(colour.r, colour.a),
        g: scaled(colour.g, colour.a),
        b: scaled(colour.b, colour.a),
        a: colour.a,
    }
}

/// `egui::Color32::from_rgba_unmultiplied`: scales each channel by the alpha,
/// rounded to the nearest value, and keeps the alpha.
#[verifier::external_body]
pub(crate) fn multiply(colour: Rgba) -> (multiplied: Rgba)
    ensures
        multiplied == premultiplied(colour),
{
    let [r, g, b, a] =
        egui::Color32::from_rgba_unmultiplied(colour.r, colour.g, colour.b, colour.a).to_array();
    Rgba { r, g, b, a }
}

/// The channel that `egui::Color32::to_srgba_unmultiplied` gives for a channel
/// that was scaled by an alpha.
pub uninterp spec fn unmultiplied(channel: u8, alpha: u8) -> u8;

/// `egui::Color32::to_srgba_unmultiplied`: divides each channel by the alpha,
/// with the rounding of single-precision arithmetic, and keeps the alpha. A
/// colour that is opaque or fully transparent comes back as it is.
#[verifier::external_body]
fn divide(colour: Rgba) -> (divided: Rgba)
    ensures
        divided.r == unmultiplied(colour.r, colour.a),
        divided.g == unmultiplied(colour.g, colour.a),
        divided.b == unmultiplied(colour.b, colour.a),
        divided.a == colour.a,
        colour.a == 0 || colour.a == 255 ==> divided == colour,
{
    let [r, g, b, a] =
        egui::Color32::from_rgba_premultiplied(colour.r, colour.g, colour.b, colour.a)
            .to_srgba_unmultiplied();
    Rgba { r, g, b, a }
}

/// A paint with its channels scaled by its alpha, as the overlay draws it.
pub fn colour(paint: Paint) -> (colour: Rgba)
    ensures
        colour == premultiplied(straight(paint)),
{
    multiply(written(paint))
}

/// An opaque channel is left as it is.
pub proof fn opaque_is_unscaled(channel: u8)
    ensures
        scaled(channel, 255) == channel,
        scaled(0, 0) == 0,
{
}

/// A paint with its channels scaled by its alpha and divided by it again.
pub open spec fn rgba_of(paint: Paint) -> Rgba {
    let scaled = premultiplied(straight(paint));
    Rgba {
        r: unmultiplied(scaled.r, scaled.a),
        g: unmultiplied(scaled.g, scaled.a),
        b: unmultiplied(scaled.b, scaled.a),
        a: scaled.a,
    }
}

/// A paint with its channels apart from its alpha, as the widget composes it.
///
/// The channels of a translucent paint went through [`colour`] and lost some
/// precision there; those of an opaque one are exactly the palette's.
pub fn rgba(paint: Paint) -> (rgba: Rgba)
    ensures
        rgba == rgba_of(paint),
        straight(paint).a == 0 || straight(paint).a == 255 ==> rgba == straight(paint),
{
    proof {
        let written = straight(paint);
        opaque_is_unscaled(written.r);
        opaque_is_unscaled(written.g);
        opaque_is_unscaled(written.b);
    }
    divide(colour(paint))
}

/// The surface with another alpha, as the panel is filled with it.
pub fn surface_with_alpha(alpha: u8) -> (colour: Rgba)
    ensures
        colour == premultiplied(Rgba { a: alpha, ..straight(Paint::Surface) }),
        alpha == 255 ==> colour == straight(Paint::Surface),
{
    let surface = written(Paint::Surface);
    proof {
        opaque_is_unscaled(surface.r);
        opaque_is_unscaled(surface.b);
    }
    multiply(Rgba { r: surface.r, g: surface.g, b: surface.b, a: alpha })
}

/// How a stock control is being used.
#[derive(Debug, Clone, Copy, PartialEq, Eq, Structural)]
pub enum Interaction {
    /// Plain text and separators.
    Noninteractive,
    /// At rest.
    Inactive,
    Hovered,
    Active,
    Open,
}

/// What a stock control is drawn with.
#[derive(Debug, Clone, Copy, PartialEq, Eq, Structural)]
pub struct ControlPaints {
    /// The rail of a slider and its handle.
    pub fill: Paint,
    /// The face of a button.
    pub face: Paint,
    pub edge: Paint,
    /// Text, and the ring of a slider's handle.
    pub ink: Paint,
}

/// What a stock control is drawn with while it is used in that way.
pub open spec fn paints_for(interaction: Interaction) -> ControlPaints {
    match interaction {
        Interaction::Noninteractive => ControlPaints {
            fill: Paint::FillRaised,
            face: Paint::Transparent,
            edge: Paint::Hairline,
            ink: Paint::TextPrimary,
        },
        Interaction::Inactive => ControlPaints {
            fill: Paint::FillTrack,
            face: Paint::FillRaised,
            edge: Paint::Hairline,
            ink: Paint::TextPrimary,
        },
        Interaction::Active => ControlPaints {
            fill: Paint::TextPrimary,
            face: Paint::FillPressed,
            edge: Paint::HairlineStrong,
            ink: Paint::TextPrimary,
        },
        Interaction::Hovered | Interaction::Open => ControlPaints {
            fill: Paint::TextPrimary,
            face: Paint::FillHover,
            edge: Paint::HairlineStrong,
            ink: Paint::TextPrimary,
        },
    }
}

/// What a stock control is drawn with while it is used in that way: faces lift
/// under the pointer, and the handle of a slider goes from a ring to a disc.
pub fn control_paints(interaction: Interaction) -> (paints: ControlPaints)
    ensures
        paints == paints_for(interaction),
{
    let (fill, face, edge) = match interaction {
        Interaction::Noninteractive => (Paint::FillRaised, Paint::Transparent, Paint::Hairline),
        Interaction::Inactive => (Paint::FillTrack, Paint::FillRaised, Paint::Hairline),
        Interaction::Active => (Paint::TextPrimary, Paint::FillPressed, Paint::HairlineStrong),
        Interaction::Hovered | Interaction::Open => {
            (Paint::TextPrimary, Paint::FillHover, Paint::HairlineStrong)
        },
    };
    ControlPaints { fill, face, edge, ink: Paint::TextPrimary }
}

/// A colour as one number, with red in the low byte and no alpha.
pub fn colourref(colour: Rgba) -> (number: u32)
    ensures
        number == colour.r + 0x100 * colour.g + 0x1_0000 * colour.b,
{
    colour.r as u32 + 0x100 * colour.g as u32 + 0x1_0000 * colour.b as u32
}

/// A channel that was scaled by an alpha is at most the alpha, and the alpha
/// itself where the channel was full.
pub proof fn scaled_is_within_the_alpha(channel: u8, alpha: u8)
    ensures
        scaled(channel, alpha) <= alpha,
        scaled(255, alpha) == alpha,
{
    assert(channel * alpha <= 255 * alpha) by (nonlinear_arith)
        requires
            channel <= 255,
            alpha >= 0,
    ;
    assert(2 * channel * alpha == 2 * (channel * alpha)) by (nonlinear_arith);
    assert(0 <= channel * alpha) by (nonlinear_arith)
        requires
            channel >= 0,
            alpha >= 0,
    ;
    assert(2 * 255u8 * alpha == 510 * alpha) by (nonlinear_arith);
}

/// A scaled channel is the nearest whole number to the channel times the alpha, as a
/// fraction of 255.
pub proof fn scaled_is_the_nearest(channel: u8, alpha: u8)
    ensures
        -255 <= 2 * (255 * scaled(channel, alpha) - channel * alpha) <= 255,
        scaled(channel, 0) == 0,
{
    let product = channel * alpha;
    assert(0 <= product <= 255 * 255) by (nonlinear_arith)
        requires
            product == channel * alpha,
    ;
    assert(2 * channel * alpha == 2 * product) by (nonlinear_arith)
        requires
            product == channel * alpha,
    ;
    assert(channel * 0 == 0);
}

/// A colour that is scaled keeps its alpha, and each channel is scaled by it.
pub proof fn channels_are_scaled_by_the_alpha(colour: Rgba)
    ensures
        premultiplied(colour).a == colour.a,
        premultiplied(colour).r == scaled(colour.r, colour.a),
        premultiplied(colour).g == scaled(colour.g, colour.a),
        premultiplied(colour).b == scaled(colour.b, colour.a),
{
}

/// Whether two paints have the same hue.
pub open spec fn same_hue(a: Rgba, b: Rgba) -> bool {
    a.r == b.r && a.g == b.g && a.b == b.b
}

/// Text, ground, accent and warning are opaque, and nothing is drawn with a transparent
/// paint. Text is brighter the more it matters, and brighter than the ground. A tint has
/// the hue of its colour; edges and faces are white, and stronger the more they mark.
pub proof fn palette_has_its_order(faint: Paint)
    ensures
        straight(Paint::Transparent).a == 0,
        straight(Paint::Surface) == (Rgba { r: 29, g: 29, b: 31, a: 255 }),
        straight(Paint::TextPrimary) == (Rgba { r: 245, g: 245, b: 243, a: 255 }),
        straight(Paint::TextSecondary) == (Rgba { r: 168, g: 168, b: 166, a: 255 }),
        straight(Paint::TextDisabled) == (Rgba { r: 110, g: 110, b: 108, a: 255 }),
        straight(Paint::Accent) == (Rgba { r: 94, g: 158, b: 255, a: 255 }),
        straight(Paint::Danger) == (Rgba { r: 255, g: 107, b: 107, a: 255 }),
        same_hue(straight(Paint::AccentTint), straight(Paint::Accent)),
        same_hue(straight(Paint::AccentEdge), straight(Paint::Accent)),
        same_hue(straight(Paint::DangerTint), straight(Paint::Danger)),
        straight(Paint::AccentTint).a == 40,
        straight(Paint::AccentEdge).a == 110,
        straight(Paint::DangerTint).a == 38,
        faint is Hairline || faint is HairlineStrong || faint is FillRaised || faint is FillHover
            || faint is FillPressed || faint is FillTrack ==> straight(faint).r == 255 && straight(
            faint,
        ).g == 255 && straight(faint).b == 255,
        straight(Paint::Hairline).a == 26,
        straight(Paint::HairlineStrong).a == 40,
        straight(Paint::FillRaised).a == 13,
        straight(Paint::FillHover).a == 24,
        straight(Paint::FillPressed).a == 38,
        straight(Paint::FillTrack).a == 56,
{
}

/// A control lifts under the pointer and more when it is pressed, its handle is filled
/// while it is used, and its text never changes.
pub proof fn controls_lift_as_they_are_used(used: Interaction)
    ensures
        ({
            let paints = paints_for(used);
            &&& paints.ink is TextPrimary
            &&& paints.face is Transparent <==> used is Noninteractive
            &&& paints.face is FillRaised <==> used is Inactive
            &&& paints.face is FillPressed <==> used is Active
            &&& paints.face is FillHover <==> used is Hovered || used is Open
            &&& paints.fill is TextPrimary <==> used is Active || used is Hovered || used is Open
            &&& paints.fill is FillTrack <==> used is Inactive
            &&& paints.fill is FillRaised <==> used is Noninteractive
            &&& paints.edge is HairlineStrong <==> used is Active || used is Hovered || used is Open
            &&& paints.edge is Hairline <==> used is Inactive || used is Noninteractive
        }),
{
}

} // verus!
