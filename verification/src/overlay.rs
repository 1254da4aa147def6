//! The overlay window: the state that it keeps while the program runs, and what
//! it shows and asks for.
//!
//! The overlay owns no application state beyond presentation preferences:
//! everything it shows comes from the newest snapshot, and every change the user
//! makes leaves as a command. Laying the window out and painting it is the
//! caller's.

use crate::hotkey;
use crate::hotkey::{egui_key_to_vk, has_modifier, HotkeyControl, Key, Request};
use crate::messages;
use crate::messages::{
    EndpointId, EndpointModel, EndpointState, EndpointView, HotkeyConfig, SessionModel,
    SessionState, SessionView, Snapshot, UiCommand,
};
use crate::single;
use crate::single::{Single, ONE_BITS, QUARTER_BITS};
use crate::text::same;
use crate::theme;
use crate::theme::{Paint, Rgba};
use vstd::prelude::*;
use vstd::string::*;

verus! {

/// Bit pattern of the lowest backdrop opacity that can be dialled in, `0.25`.
/// Below it the controls are hard to hit against a busy desktop.
pub const MIN_OPACITY_BITS: u32 = QUARTER_BITS;

/// Bit pattern of the backdrop opacity of a fresh session, `0.88`.
pub const DEFAULT_OPACITY_BITS: u32 = 0x3F61_47AE;

/// A line of feedback about the shortcut.
#[derive(Debug, Clone, Copy, PartialEq, Eq, Structural)]
pub enum Notice {
    /// The key pressed while recording cannot be stored in a shortcut.
    KeyNotSupported,
    /// The combination carried no modifier.
    ModifierRequired,
    /// The system refused the combination.
    ShortcutUnavailable,
}

/// The text of a notice.
pub open spec fn notice_text(notice: Notice) -> Seq<char> {
    match notice {
        Notice::KeyNotSupported => {
            "That key cannot be used. Try a letter, a digit or a function key."@
        },
        Notice::ModifierRequired => "Hold Ctrl, Alt or Shift as well."@,
        Notice::ShortcutUnavailable => "Could not register that shortcut; it may be in use."@,
    }
}

impl Notice {
    /// The text shown under the shortcut row.
    pub fn text(self) -> (text: &'static str)
        ensures
            text@ == notice_text(self),
    {
        match self {
            Notice::KeyNotSupported => {
                "That key cannot be used. Try a letter, a digit or a function key."
            },
            Notice::ModifierRequired => "Hold Ctrl, Alt or Shift as well.",
            Notice::ShortcutUnavailable => "Could not register that shortcut; it may be in use.",
        }
    }
}

/// Presentation state that survives the overlay window, but not a restart of the
/// program.
#[derive(Debug)]
pub struct OverlayState {
    pub snapshot: Option<Snapshot>,
    pub selected_endpoint: Option<EndpointId>,
    pub opacity: Single,
    pub opaque_mode: bool,
    pub settings_open: bool,
    /// Set while the settings panel listens for the combination to store.
    pub recording_hotkey: bool,
    pub hotkey_notice: Option<Notice>,
    /// Where the window was last, so that it can be put back there.
    pub position: Option<(Single, Single)>,
    /// Set from inside the overlay when the user closes it.
    pub close_requested: bool,
    /// Set when a setting changed that takes effect on a new window only.
    pub restart_requested: bool,
}

/// The number pulled into the range that the opacity slider offers. A value that
/// is not a number stays one.
pub open spec fn usable_opacity(opacity: Single) -> Single {
    if single::is_nan(opacity) {
        opacity
    } else {
        single::clamped(
            opacity,
            Single { bits: MIN_OPACITY_BITS },
            Single { bits: ONE_BITS },
        )
    }
}

fn clamp_opacity(opacity: Single) -> (usable: Single)
    ensures
        usable == usable_opacity(opacity),
        !single::is_nan(opacity) ==> MIN_OPACITY_BITS <= usable.bits <= ONE_BITS,
{
    if opacity.is_nan() {
        opacity
    } else {
        opacity.clamp(Single { bits: MIN_OPACITY_BITS }, Single { bits: ONE_BITS })
    }
}

/// The alpha painted behind the controls.
pub open spec fn backdrop(opaque_mode: bool, opacity: Single) -> int {
    if opaque_mode {
        255
    } else if single::is_nan(opacity) {
        0
    } else {
        single::byte(usable_opacity(opacity))
    }
}

/// Whether an endpoint with the identifier is listed.
pub open spec fn is_listed(endpoints: Seq<EndpointModel>, id: Seq<char>) -> bool {
    exists|i: int| 0 <= i < endpoints.len() && (#[trigger] endpoints[i]).id == id
}

/// The endpoint whose sessions are shown: the selected one while it exists,
/// otherwise the default one, otherwise the first.
pub open spec fn selection(
    selected: Option<Seq<char>>,
    endpoints: Seq<EndpointModel>,
    default: Option<Seq<char>>,
) -> Option<Seq<char>> {
    if selected is Some && is_listed(endpoints, selected->0) {
        selected
    } else if default is Some && is_listed(endpoints, default->0) {
        default
    } else if endpoints.len() > 0 {
        Some(endpoints[0].id)
    } else {
        None
    }
}

/// Whether an endpoint with the identifier is in the list.
fn lists(endpoints: &Vec<EndpointView>, id: &EndpointId) -> (yes: bool)
    ensures
        yes == is_listed(messages::endpoint_models(endpoints@), id@),
{
    let ghost models = messages::endpoint_models(endpoints@);
    let mut i: usize = 0;
    while i < endpoints.len()
        invariant
            models == messages::endpoint_models(endpoints@),
            i <= endpoints@.len(),
            forall|j: int| 0 <= j < i ==> (#[trigger] models[j]).id != id@,
        decreases endpoints@.len() - i,
    {
        assert(models[i as int] == endpoints@[i as int]@);
        if same(endpoints[i].id.as_str(), id.as_str()) {
            return true;
        }
        i += 1;
    }
    false
}

/// What the overlay shows in place of its contents, or which endpoint they are
/// of.
#[derive(Debug)]
pub enum Contents {
    /// "Waiting for the audio core…"
    Waiting,
    /// "No active playback devices."
    NoDevices,
    /// The devices, and the sessions of this one.
    Devices(EndpointId),
}

/// How the overlay window is to be created. Whether it has a per-pixel alpha
/// surface is fixed at that moment.
#[derive(Debug, Clone, Copy)]
pub struct OverlayWindow {
    pub transparent: bool,
    pub position: Option<(Single, Single)>,
}

/// What is left to do about a recorded combination.
#[derive(Debug)]
pub enum Recorded {
    /// Nothing: the recorder goes on or was left.
    Nothing,
    /// Register this shortcut, and hand the answer to
    /// [`OverlayState::hotkey_answered`].
    Register { config: HotkeyConfig, request: Request },
    /// Send this command: the combination is in effect.
    Send(UiCommand),
}

/// One press or release of a key, with the modifiers held.
#[derive(Debug, Clone, Copy, PartialEq, Eq, Structural)]
pub struct KeyEvent {
    pub key: Key,
    pub pressed: bool,
    pub ctrl: bool,
    pub alt: bool,
    pub shift: bool,
}

/// The combination that a key press stands for. The Windows key is never part
/// of it: it is not reported as a modifier.
pub open spec fn combination(event: KeyEvent, vk: u32) -> HotkeyConfig {
    HotkeyConfig { ctrl: event.ctrl, alt: event.alt, shift: event.shift, win: false, key: vk }
}

/// The first event that ends the recording of a frame: the press of the Escape
/// key, or of a key that has a code.
pub open spec fn ends_recording(event: KeyEvent) -> bool {
    event.pressed && (event.key == Key::Escape || hotkey::key_code(event.key) is Some)
}

/// Whether an event is the press of a key that cannot be stored.
pub open spec fn is_refused(event: KeyEvent) -> bool {
    event.pressed && event.key != Key::Escape && hotkey::key_code(event.key) is None
}

/// The state once the recorder has taken a combination, as far as that is
/// decided without the system.
pub open spec fn took(
    state: OverlayState,
    config: HotkeyConfig,
    control: hotkey::ControlModel,
) -> OverlayState {
    if !hotkey::is_combination(config) {
        OverlayState { hotkey_notice: Some(Notice::ModifierRequired), ..state }
    } else if hotkey::in_effect(control, config) {
        OverlayState { recording_hotkey: false, hotkey_notice: None, ..state }
    } else {
        state
    }
}

/// Whether this is what is left to do about a combination.
pub open spec fn is_left_to_do(
    config: HotkeyConfig,
    control: hotkey::ControlModel,
    left: Recorded,
) -> bool {
    if !hotkey::is_combination(config) {
        left == Recorded::Nothing
    } else if hotkey::in_effect(control, config) {
        left == Recorded::Send(UiCommand::SetHotkey(config))
    } else {
        left == (Recorded::Register { config, request: hotkey::request_of(config) })
    }
}

/// The state once some events of a frame have been read without any of them
/// ending the recording.
pub open spec fn read_so_far(state: OverlayState, events: Seq<KeyEvent>) -> OverlayState {
    if exists|i: int| 0 <= i < events.len() && is_refused(#[trigger] events[i]) {
        OverlayState { hotkey_notice: Some(Notice::KeyNotSupported), ..state }
    } else {
        state
    }
}

impl OverlayState {
    /// A fresh session.
    pub fn new() -> (state: Self)
        ensures
            state == (OverlayState {
                snapshot: None,
                selected_endpoint: None,
                opacity: Single { bits: DEFAULT_OPACITY_BITS },
                opaque_mode: false,
                settings_open: false,
                recording_hotkey: false,
                hotkey_notice: None,
                position: None,
                close_requested: false,
                restart_requested: false,
            }),
    {
        OverlayState {
            snapshot: None,
            selected_endpoint: None,
            opacity: Single { bits: DEFAULT_OPACITY_BITS },
            opaque_mode: false,
            settings_open: false,
            recording_hotkey: false,
            hotkey_notice: None,
            position: None,
            close_requested: false,
            restart_requested: false,
        }
    }

    /// Takes a newer snapshot.
    pub fn set_snapshot(&mut self, snapshot: Snapshot)
        ensures
            *final(self) == (OverlayState { snapshot: Some(snapshot), ..*old(self) }),
    {
        self.snapshot = Some(snapshot);
    }

    /// Whether the window is solid.
    pub fn opaque_mode(&self) -> (yes: bool)
        ensures
            yes == self.opaque_mode,
    {
        self.opaque_mode
    }

    /// Whether the user has closed the overlay since the last call.
    pub fn take_close_request(&mut self) -> (requested: bool)
        ensures
            requested == old(self).close_requested,
            *final(self) == (OverlayState { close_requested: false, ..*old(self) }),
    {
        let requested = self.close_requested;
        self.close_requested = false;
        requested
    }

    /// Whether a new window was asked for since the last call.
    pub fn take_restart_request(&mut self) -> (requested: bool)
        ensures
            requested == old(self).restart_requested,
            *final(self) == (OverlayState { restart_requested: false, ..*old(self) }),
    {
        let requested = self.restart_requested;
        self.restart_requested = false;
        requested
    }

    /// The user asked to close the overlay.
    pub fn request_close(&mut self)
        ensures
            *final(self) == (OverlayState { close_requested: true, ..*old(self) }),
    {
        self.close_requested = true;
    }

    /// The user opened or closed the settings.
    pub fn toggle_settings(&mut self)
        ensures
            *final(self) == (OverlayState {
                settings_open: !old(self).settings_open,
                ..*old(self)
            }),
    {
        self.settings_open = !self.settings_open;
    }

    /// Remembers where the window is, when that is known.
    pub fn remember_position(&mut self, position: Option<(Single, Single)>)
        ensures
            *final(self) == match position {
                Some(_) => OverlayState { position, ..*old(self) },
                None => *old(self),
            },
    {
        if position.is_some() {
            self.position = position;
        }
    }

    /// Stores an opacity in the range that the slider offers.
    pub fn set_opacity(&mut self, opacity: Single)
        ensures
            *final(self) == (OverlayState { opacity: usable_opacity(opacity), ..*old(self) }),
    {
        self.opacity = clamp_opacity(opacity);
    }

    /// Switches opaque mode. Per-pixel transparency is decided when the window
    /// is created, so a new window is asked for.
    pub fn set_opaque_mode(&mut self, opaque_mode: bool)
        ensures
            *final(self) == (OverlayState { opaque_mode, restart_requested: true, ..*old(self) }),
    {
        self.opaque_mode = opaque_mode;
        self.restart_requested = true;
    }

    /// The alpha painted behind the controls. In opaque mode every pixel is
    /// solid, so that the overlay is readable however the driver treats the
    /// alpha channel.
    pub fn backdrop_alpha(&self) -> (alpha: u8)
        ensures
            alpha == backdrop(self.opaque_mode, self.opacity),
    {
        if self.opaque_mode {
            255
        } else if self.opacity.is_nan() {
            0
        } else {
            clamp_opacity(self.opacity).to_byte()
        }
    }

    /// The colour painted behind the controls.
    pub fn backdrop_color(&self) -> (colour: Rgba)
        ensures
            colour == theme::premultiplied(
                Rgba {
                    a: backdrop(self.opaque_mode, self.opacity) as u8,
                    ..theme::straight(Paint::Surface)
                },
            ),
            self.opaque_mode ==> colour == theme::straight(Paint::Surface),
    {
        theme::surface_with_alpha(self.backdrop_alpha())
    }

    /// What the surface is cleared to before anything is drawn: the solid ground
    /// in opaque mode, and nothing otherwise.
    pub fn clear_paint(&self) -> (paint: Paint)
        ensures
            paint == if self.opaque_mode {
                Paint::Surface
            } else {
                Paint::Transparent
            },
    {
        if self.opaque_mode {
            Paint::Surface
        } else {
            Paint::Transparent
        }
    }

    /// Describes the overlay window.
    pub fn overlay_viewport(&self) -> (window: OverlayWindow)
        ensures
            window.transparent == !self.opaque_mode,
            window.position == self.position,
    {
        OverlayWindow { transparent: !self.opaque_mode, position: self.position }
    }

    /// The endpoint whose sessions are listed, resolved against a snapshot.
    pub fn resolved_selection(&self, snapshot: &Snapshot) -> (selected: Option<EndpointId>)
        ensures
            messages::optional_text(selected) == selection(
                messages::optional_text(self.selected_endpoint),
                messages::endpoint_models(snapshot.endpoints@),
                messages::optional_text(snapshot.default_endpoint),
            ),
    {
        if let Some(selected) = &self.selected_endpoint {
            if lists(&snapshot.endpoints, selected) {
                return Some(selected.clone());
            }
        }
        if let Some(default) = &snapshot.default_endpoint {
            if lists(&snapshot.endpoints, default) {
                return Some(default.clone());
            }
        }
        if snapshot.endpoints.len() > 0 {
            assert(messages::endpoint_models(snapshot.endpoints@)[0] == snapshot.endpoints@[0]@);
            Some(snapshot.endpoints[0].id.clone())
        } else {
            None
        }
    }

    /// What the overlay shows.
    pub fn contents(&self) -> (contents: Contents)
        ensures
            match (contents, self.snapshot) {
                (Contents::Waiting, snapshot) => snapshot is None,
                (Contents::NoDevices, snapshot) => snapshot matches Some(s) && s.endpoints@.len()
                    == 0,
                (Contents::Devices(id), snapshot) => snapshot matches Some(s) && s.endpoints@.len()
                    > 0 && selection(
                    messages::optional_text(self.selected_endpoint),
                    messages::endpoint_models(s.endpoints@),
                    messages::optional_text(s.default_endpoint),
                ) == Some(id@),
            },
    {
        match &self.snapshot {
            None => Contents::Waiting,
            Some(snapshot) => match self.resolved_selection(snapshot) {
                Some(id) => {
                    assert(is_listed(
                        messages::endpoint_models(snapshot.endpoints@),
                        id@,
                    ) ==> snapshot.endpoints@.len() > 0);
                    Contents::Devices(id)
                },
                None => Contents::NoDevices,
            },
        }
    }

    /// The user clicked the row of an endpoint.
    pub fn select_endpoint(&mut self, id: &EndpointId)
        ensures
            final(self).selected_endpoint matches Some(selected) && selected@ == id@,
            *final(self) == (OverlayState {
                selected_endpoint: final(self).selected_endpoint,
                ..*old(self)
            }),
    {
        self.selected_endpoint = Some(id.clone());
    }

    /// Starts listening for the combination to store.
    pub fn start_recording_hotkey(&mut self)
        ensures
            *final(self) == (OverlayState {
                recording_hotkey: true,
                hotkey_notice: None,
                ..*old(self)
            }),
    {
        self.recording_hotkey = true;
        self.hotkey_notice = None;
    }

    /// Stops listening, leaving the shortcut as it was.
    pub fn cancel_recording_hotkey(&mut self)
        ensures
            *final(self) == (OverlayState {
                recording_hotkey: false,
                hotkey_notice: None,
                ..*old(self)
            }),
    {
        self.recording_hotkey = false;
        self.hotkey_notice = None;
    }

    /// Takes a recorded combination.
    ///
    /// Registration decides whether the change happened: the command goes out
    /// only once the system has accepted the combination, so that a shortcut
    /// which does not work is never saved. A refusal leaves the panel recording.
    pub fn store_recorded_hotkey(
        &mut self,
        config: HotkeyConfig,
        control: &HotkeyControl,
    ) -> (left: Recorded)
        ensures
            *final(self) == took(*old(self), config, control@),
            is_left_to_do(config, control@, left),
    {
        if !has_modifier(config) {
            self.hotkey_notice = Some(Notice::ModifierRequired);
            return Recorded::Nothing;
        }
        match control.apply(config) {
            Some(request) => Recorded::Register { config, request },
            None => {
                self.recording_hotkey = false;
                self.hotkey_notice = None;
                Recorded::Send(UiCommand::SetHotkey(config))
            },
        }
    }

    /// Takes the system's answer to the registration of a recorded combination;
    /// gives the command that saves it, where it was accepted.
    pub fn hotkey_answered(
        &mut self,
        config: HotkeyConfig,
        accepted: bool,
        control: &mut HotkeyControl,
    ) -> (command: Option<UiCommand>)
        ensures
            final(control)@ == hotkey::answered(old(control)@, config, accepted),
            *final(self) == if accepted {
                OverlayState { recording_hotkey: false, hotkey_notice: None, ..*old(self) }
            } else {
                OverlayState { hotkey_notice: Some(Notice::ShortcutUnavailable), ..*old(self) }
            },
            command == if accepted {
                Some(UiCommand::SetHotkey(config))
            } else {
                None
            },
    {
        if control.answer(config, accepted) {
            self.recording_hotkey = false;
            self.hotkey_notice = None;
            Some(UiCommand::SetHotkey(config))
        } else {
            self.hotkey_notice = Some(Notice::ShortcutUnavailable);
            None
        }
    }

    /// The line shown under the shortcut row, if there is one.
    ///
    /// A shortcut that the system never accepted is reported even when the user
    /// has not touched the recorder: the row would otherwise name a combination
    /// that does nothing.
    pub fn hotkey_notice(&self, control: &HotkeyControl) -> (notice: Option<Notice>)
        ensures
            notice == if self.hotkey_notice is Some {
                self.hotkey_notice
            } else if !self.recording_hotkey && !control@.registered {
                Some(Notice::ShortcutUnavailable)
            } else {
                None
            },
    {
        match self.hotkey_notice {
            Some(notice) => Some(notice),
            None => if !self.recording_hotkey && !control.is_registered() {
                Some(Notice::ShortcutUnavailable)
            } else {
                None
            },
        }
    }

    /// Turns the key events of a frame into a shortcut while the recorder is
    /// open.
    ///
    /// Only a key that is not a modifier arrives as a key event at all, so what
    /// is read here is always a complete combination.
    pub fn read_recorded_hotkey(
        &mut self,
        events: &Vec<KeyEvent>,
        control: &HotkeyControl,
    ) -> (left: Recorded)
        ensures
            (forall|i: int| 0 <= i < events@.len() ==> !ends_recording(#[trigger] events@[i]))
                ==> left == Recorded::Nothing && *final(self) == read_so_far(*old(self), events@),
            forall|n: int|
                #![trigger events@.take(n)]
                0 <= n < events@.len() && ends_recording(events@[n]) && (forall|i: int|
                    0 <= i < n ==> !ends_recording(#[trigger] events@[i])) ==> {
                    let before = read_so_far(*old(self), events@.take(n));
                    let event = events@[n];
                    if event.key == Key::Escape {
                        &&& left == Recorded::Nothing
                        &&& *final(self) == (OverlayState {
                            recording_hotkey: false,
                            hotkey_notice: None,
                            ..before
                        })
                    } else {
                        let config = combination(event, hotkey::key_code(event.key)->0);
                        &&& *final(self) == took(before, config, control@)
                        &&& is_left_to_do(config, control@, left)
                    }
                },
    {
        let mut i: usize = 0;
        while i < events.len()
            invariant
                i <= events@.len(),
                *self == read_so_far(*old(self), events@.take(i as int)),
                forall|j: int| 0 <= j < i ==> !ends_recording(#[trigger] events@[j]),
            decreases events@.len() - i,
        {
            let event = events[i];
            let ghost before = *self;
            if event.pressed {
                if event.key == Key::Escape {
                    self.cancel_recording_hotkey();
                    assert(ends_recording(events@[i as int]));
                    return Recorded::Nothing;
                }
                match egui_key_to_vk(event.key) {
                    None => {
                        self.hotkey_notice = Some(Notice::KeyNotSupported);
                        assert(events@.take(i + 1)[i as int] == event);
                        assert(is_refused(events@.take(i + 1)[i as int]));
                    },
                    Some(vk) => {
                        assert(ends_recording(events@[i as int]));
                        return self.store_recorded_hotkey(
                            HotkeyConfig {
                                ctrl: event.ctrl,
                                alt: event.alt,
                                shift: event.shift,
                                win: false,
                                key: vk,
                            },
                            control,
                        );
                    },
                }
            }
            proof {
                let shorter = events@.take(i as int);
                let longer = events@.take(i + 1);
                assert(forall|j: int| 0 <= j < i ==> shorter[j] == longer[j]);
                if exists|j: int| 0 <= j < shorter.len() && is_refused(#[trigger] shorter[j]) {
                    let j = choose|j: int|
                        0 <= j < shorter.len() && is_refused(#[trigger] shorter[j]);
                    assert(is_refused(longer[j]));
                }
                if exists|j: int| 0 <= j < longer.len() && is_refused(#[trigger] longer[j]) {
                    let j = choose|j: int|
                        0 <= j < longer.len() && is_refused(#[trigger] longer[j]);
                    if j < i {
                        assert(is_refused(shorter[j]));
                    }
                }
            }
            i += 1;
        }
        assert(events@.take(events@.len() as int) =~= events@);
        Recorded::Nothing
    }
}

/// The models of some borrowed sessions.
pub open spec fn borrowed_models(sessions: Seq<&SessionView>) -> Seq<SessionModel> {
    sessions.map_values(|session: &SessionView| session@)
}

/// The sessions of an endpoint, in their order.
pub open spec fn sessions_on(sessions: Seq<SessionModel>, endpoint: Seq<char>) -> Seq<
    SessionModel,
> {
    sessions.filter(|session: SessionModel| session.endpoint == endpoint)
}

/// Sessions belonging to one endpoint, in snapshot order.
pub fn sessions_for<'a>(snapshot: &'a Snapshot, endpoint: &EndpointId) -> (sessions: Vec<
    &'a SessionView,
>)
    ensures
        borrowed_models(sessions@) == sessions_on(
            messages::session_models(snapshot.live_sessions@),
            endpoint@,
        ),
{
    let ghost all = messages::session_models(snapshot.live_sessions@);
    let mut sessions: Vec<&'a SessionView> = Vec::new();
    let mut i: usize = 0;
    proof {
        reveal(Seq::filter);
        assert(borrowed_models(sessions@) =~= sessions_on(all.take(0), endpoint@));
    }
    while i < snapshot.live_sessions.len()
        invariant
            all == messages::session_models(snapshot.live_sessions@),
            i <= snapshot.live_sessions@.len(),
            borrowed_models(sessions@) == sessions_on(all.take(i as int), endpoint@),
        decreases snapshot.live_sessions@.len() - i,
    {
        let session = &snapshot.live_sessions[i];
        let ghost before = sessions@;
        proof {
            reveal(Seq::filter);
            assert(all.take(i + 1).drop_last() =~= all.take(i as int));
            assert(all.take(i + 1).last() == session@);
        }
        if same(session.endpoint.as_str(), endpoint.as_str()) {
            sessions.push(session);
            assert(borrowed_models(sessions@) =~= borrowed_models(before).push(session@));
        }
        i += 1;
    }
    assert(all.take(all.len() as int) =~= all);
    sessions
}

/// The name of an endpoint state.
pub open spec fn state_name(state: EndpointState) -> Seq<char> {
    match state {
        EndpointState::Active => "Active"@,
        EndpointState::Disabled => "Disabled"@,
        EndpointState::NotPresent => "Not present"@,
        EndpointState::Unplugged => "Unplugged"@,
    }
}

/// The text shown over the name of an endpoint in that state.
pub fn endpoint_state_text(state: EndpointState) -> (text: &'static str)
    ensures
        text@ == state_name(state),
{
    match state {
        EndpointState::Active => "Active",
        EndpointState::Disabled => "Disabled",
        EndpointState::NotPresent => "Not present",
        EndpointState::Unplugged => "Unplugged",
    }
}

/// The face of a control and what is drawn on it.
#[derive(Debug, Clone, Copy, PartialEq, Eq, Structural)]
pub struct Faces {
    pub fill: Paint,
    pub ink: Paint,
}

/// A square icon button. It has no face at rest: a chip appears under the
/// pointer.
pub fn icon_button_faces(pressed: bool, hovered: bool) -> (faces: Faces)
    ensures
        faces.fill == if pressed {
            Paint::FillPressed
        } else if hovered {
            Paint::FillHover
        } else {
            Paint::Transparent
        },
        faces.ink == if hovered {
            Paint::TextPrimary
        } else {
            Paint::TextSecondary
        },
{
    Faces {
        fill: if pressed {
            Paint::FillPressed
        } else if hovered {
            Paint::FillHover
        } else {
            Paint::Transparent
        },
        ink: if hovered {
            Paint::TextPrimary
        } else {
            Paint::TextSecondary
        },
    }
}

/// A text button inside a row. One that discards something turns red under the
/// pointer, and one that is disabled has no face.
pub fn row_button_faces(enabled: bool, danger: bool, hovered: bool, pressed: bool) -> (faces: Faces)
    ensures
        faces.fill == if !enabled {
            Paint::Transparent
        } else if danger && hovered {
            Paint::DangerTint
        } else if pressed {
            Paint::FillPressed
        } else if hovered {
            Paint::FillHover
        } else {
            Paint::FillRaised
        },
        faces.ink == if !enabled {
            Paint::TextDisabled
        } else if danger && hovered {
            Paint::Danger
        } else {
            Paint::TextPrimary
        },
{
    let marked = danger && hovered;
    Faces {
        fill: if !enabled {
            Paint::Transparent
        } else if marked {
            Paint::DangerTint
        } else if pressed {
            Paint::FillPressed
        } else if hovered {
            Paint::FillHover
        } else {
            Paint::FillRaised
        },
        ink: if !enabled {
            Paint::TextDisabled
        } else if marked {
            Paint::Danger
        } else {
            Paint::TextPrimary
        },
    }
}

/// The row of an endpoint in the device list.
#[derive(Debug, Clone, Copy, PartialEq, Eq, Structural)]
pub struct EndpointTab {
    pub is_selected: bool,
    pub is_default: bool,
    /// Whether the button that switches to the endpoint is enabled.
    pub can_switch: bool,
    pub fill: Paint,
    /// The edge of the row; `Transparent` where it has none.
    pub edge: Paint,
    pub name: Paint,
}

/// The row of an endpoint, given whether it is the selected one and the default
/// one.
pub open spec fn tab_of(
    state: EndpointState,
    is_selected: bool,
    is_default: bool,
    hovered: bool,
) -> EndpointTab {
    EndpointTab {
        is_selected,
        is_default,
        can_switch: !is_default && state == EndpointState::Active,
        fill: if is_selected {
            Paint::AccentTint
        } else if hovered {
            Paint::FillHover
        } else {
            Paint::Transparent
        },
        edge: if is_selected {
            Paint::AccentEdge
        } else {
            Paint::Transparent
        },
        name: if state == EndpointState::Active {
            Paint::TextPrimary
        } else {
            Paint::TextDisabled
        },
    }
}

/// Whether the optional text is the given one.
fn is_text(text: Option<&EndpointId>, other: &EndpointId) -> (yes: bool)
    ensures
        yes == match text {
            Some(t) => t@ == other@,
            None => false,
        },
{
    match text {
        Some(t) => same(t.as_str(), other.as_str()),
        None => false,
    }
}

/// The row of an endpoint in the device list. Only a device that is active and
/// not the default already can be switched to.
pub fn endpoint_tab(
    endpoint: &EndpointView,
    selected: Option<&EndpointId>,
    default: Option<&EndpointId>,
    hovered: bool,
) -> (tab: EndpointTab)
    ensures
        tab == tab_of(
            endpoint.state,
            selected matches Some(s) && s@ == endpoint.id@,
            default matches Some(d) && d@ == endpoint.id@,
            hovered,
        ),
{
    let is_selected = is_text(selected, &endpoint.id);
    let is_default = is_text(default, &endpoint.id);
    let active = matches!(endpoint.state, EndpointState::Active);
    EndpointTab {
        is_selected,
        is_default,
        can_switch: !is_default && active,
        fill: if is_selected {
            Paint::AccentTint
        } else if hovered {
            Paint::FillHover
        } else {
            Paint::Transparent
        },
        edge: if is_selected {
            Paint::AccentEdge
        } else {
            Paint::Transparent
        },
        name: if active {
            Paint::TextPrimary
        } else {
            Paint::TextDisabled
        },
    }
}

/// The face of a switch that is off.
pub fn switch_off_paint(hovered: bool) -> (paint: Paint)
    ensures
        paint == if hovered {
            Paint::FillPressed
        } else {
            Paint::FillTrack
        },
{
    if hovered {
        Paint::FillPressed
    } else {
        Paint::FillTrack
    }
}

/// The card of a session in the mixer.
#[derive(Debug, Clone, Copy)]
pub struct SessionCard {
    /// The colour of the name: dimmed while the session does not play.
    pub name: Paint,
    /// What the name says under the pointer.
    pub name_hint: Option<&'static str>,
    /// What the mute switch says under the pointer.
    pub mute_hint: &'static str,
}

/// The card of a session.
pub fn session_card(session: &SessionView) -> (card: SessionCard)
    ensures
        card.name == if session.state == SessionState::Active {
            Paint::TextPrimary
        } else {
            Paint::TextDisabled
        },
        match card.name_hint {
            Some(text) => session.state != SessionState::Active && text@
                == "This session is not currently playing"@,
            None => session.state == SessionState::Active,
        },
        card.mute_hint@ == if session.muted {
            "Unmute"@
        } else {
            "Mute"@
        },
{
    let active = matches!(session.state, SessionState::Active);
    SessionCard {
        name: if active {
            Paint::TextPrimary
        } else {
            Paint::TextDisabled
        },
        name_hint: if active {
            None
        } else {
            Some("This session is not currently playing")
        },
        mute_hint: if session.muted {
            "Unmute"
        } else {
            "Mute"
        },
    }
}

/// The shortcut row of the settings.
#[derive(Debug)]
pub struct HotkeyRow {
    pub button: &'static str,
    pub hint: &'static str,
    /// What stands beside the button.
    pub text: String,
    pub paint: Paint,
    /// The line under the row.
    pub notice: Option<Notice>,
    pub notice_paint: Paint,
}

/// What the shortcut row says beside its button: what it waits for, or the
/// shortcut in effect.
pub open spec fn row_text(recording: bool, config: HotkeyConfig) -> Seq<char> {
    if recording {
        "Press a combination\u{2026}"@
    } else {
        hotkey::description(config)
    }
}

impl OverlayState {
    /// The shortcut row: what is registered now, and the control that records
    /// something else. While recording the button cancels, so that the recorder
    /// can always be left the way it was entered.
    pub fn hotkey_row(&self, control: &HotkeyControl) -> (row: HotkeyRow)
        ensures
            row.button@ == if self.recording_hotkey {
                "Cancel"@
            } else {
                "Change"@
            },
            row.hint@ == if self.recording_hotkey {
                "Keep the current shortcut"@
            } else {
                "Record a new combination for showing and hiding the overlay"@
            },
            row.text@ == row_text(self.recording_hotkey, control@.config),
            row.paint == if self.recording_hotkey {
                Paint::Accent
            } else {
                Paint::TextSecondary
            },
            row.notice == if self.hotkey_notice is Some {
                self.hotkey_notice
            } else if !self.recording_hotkey && !control@.registered {
                Some(Notice::ShortcutUnavailable)
            } else {
                None
            },
            row.notice_paint == if self.recording_hotkey {
                Paint::Danger
            } else {
                Paint::TextSecondary
            },
    {
        let notice = self.hotkey_notice(control);
        if self.recording_hotkey {
            HotkeyRow {
                button: "Cancel",
                hint: "Keep the current shortcut",
                text: String::from_str("Press a combination\u{2026}"),
                paint: Paint::Accent,
                notice,
                notice_paint: Paint::Danger,
            }
        } else {
            HotkeyRow {
                button: "Change",
                hint: "Record a new combination for showing and hiding the overlay",
                text: hotkey::describe(control.config()),
                paint: Paint::TextSecondary,
                notice,
                notice_paint: Paint::TextSecondary,
            }
        }
    }

    /// The user pressed the button of the shortcut row. Says whether recording
    /// began: a widget that holds the keyboard focus would act on the keys being
    /// recorded, so it has to give the focus up.
    pub fn press_hotkey_button(&mut self) -> (began: bool)
        ensures
            began == !old(self).recording_hotkey,
            *final(self) == (OverlayState {
                recording_hotkey: !old(self).recording_hotkey,
                hotkey_notice: None,
                ..*old(self)
            }),
    {
        if self.recording_hotkey {
            self.cancel_recording_hotkey();
            false
        } else {
            self.start_recording_hotkey();
            true
        }
    }
}

/// What the user did to the card of a session.
#[derive(Debug, Clone, Copy, PartialEq, Eq, Structural)]
pub enum CardAction {
    /// The entry stored for this device is to be dropped.
    Forget,
    /// The mute switch was flipped.
    ToggleMute,
    /// The slider was moved here.
    Volume(Single),
}

/// The command that an action on the card of a session on `endpoint` leaves as.
pub fn card_command(endpoint: &EndpointId, session: &SessionView, action: CardAction) -> (command:
    UiCommand)
    ensures
        match action {
            CardAction::Forget => command matches UiCommand::ForgetProfileEntry {
                endpoint: e,
                process,
            } && e@ == endpoint@ && process@ == session.process@,
            CardAction::ToggleMute => command matches UiCommand::SetSessionMute {
                endpoint: e,
                process,
                muted,
            } && e@ == endpoint@ && process@ == session.process@ && muted == !session.muted,
            CardAction::Volume(v) => command matches UiCommand::SetSessionVolume {
                endpoint: e,
                process,
                volume,
            } && e@ == endpoint@ && process@ == session.process@ && volume == v,
        },
{
    match action {
        CardAction::Forget => UiCommand::ForgetProfileEntry {
            endpoint: endpoint.clone(),
            process: session.process.clone(),
        },
        CardAction::ToggleMute => UiCommand::SetSessionMute {
            endpoint: endpoint.clone(),
            process: session.process.clone(),
            muted: !session.muted,
        },
        CardAction::Volume(volume) => UiCommand::SetSessionVolume {
            endpoint: endpoint.clone(),
            process: session.process.clone(),
            volume,
        },
    }
}

/// The overlay is never blank while there are endpoints, and what it shows is
/// one of them.
pub proof fn something_is_always_shown(
    selected: Option<Seq<char>>,
    endpoints: Seq<EndpointModel>,
    default: Option<Seq<char>>,
)
    ensures
        endpoints.len() > 0 <==> selection(selected, endpoints, default) is Some,
        selection(selected, endpoints, default) matches Some(id) ==> is_listed(endpoints, id),
{
    if endpoints.len() > 0 {
        assert(endpoints[0].id == endpoints[0].id);
    }
}

/// An explicit selection wins while its endpoint exists, and is passed over once
/// it does not.
pub proof fn selection_lasts_as_long_as_its_endpoint(
    selected: Seq<char>,
    endpoints: Seq<EndpointModel>,
    default: Option<Seq<char>>,
)
    ensures
        is_listed(endpoints, selected) ==> selection(Some(selected), endpoints, default) == Some(
            selected,
        ),
        !is_listed(endpoints, selected) ==> selection(Some(selected), endpoints, default)
            == selection(None, endpoints, default),
{
}

/// Whatever opacity was asked for, the controls stay usable: a number that was
/// stored is at least the lowest opacity, and is kept as it is when it is stored
/// again.
pub proof fn opacity_stays_usable(opacity: Single)
    requires
        !single::is_nan(opacity),
    ensures
        MIN_OPACITY_BITS <= usable_opacity(opacity).bits <= ONE_BITS,
        usable_opacity(usable_opacity(opacity)) == usable_opacity(opacity),
{
}

/// The backdrop is solid in opaque mode whatever the opacity, and at full
/// opacity in either mode.
pub proof fn backdrop_is_solid(opacity: Single)
    ensures
        backdrop(true, opacity) == 255,
        backdrop(false, Single { bits: ONE_BITS }) == 255,
        backdrop(false, Single { bits: MIN_OPACITY_BITS }) == 64,
{
}

/// A combination without a modifier is never registered nor saved, and the
/// recorder stays open for the next one.
pub proof fn bare_key_is_not_stored(
    state: OverlayState,
    config: HotkeyConfig,
    control: hotkey::ControlModel,
    left: Recorded,
)
    requires
        !config.ctrl && !config.alt && !config.shift && !config.win,
        is_left_to_do(config, control, left),
    ensures
        left == Recorded::Nothing,
        took(state, config, control).recording_hotkey == state.recording_hotkey,
        took(state, config, control).hotkey_notice == Some(Notice::ModifierRequired),
{
}

/// A combination is saved only when it is in effect: without the system's answer
/// nothing is sent for one that is not.
pub proof fn saved_combination_is_in_effect(
    config: HotkeyConfig,
    control: hotkey::ControlModel,
    left: Recorded,
)
    requires
        is_left_to_do(config, control, left),
        left is Send,
    ensures
        hotkey::in_effect(control, config),
        left == Recorded::Send(UiCommand::SetHotkey(config)),
{
}

/// Where nothing is selected the default endpoint is shown, and where that is not
/// listed the first one.
pub proof fn default_is_shown_unless_another_is_selected(
    endpoints: Seq<EndpointModel>,
    default: Option<Seq<char>>,
)
    ensures
        default is Some && (exists|i: int|
            0 <= i < endpoints.len() && (#[trigger] endpoints[i]).id == default->0) ==> selection(
            None,
            endpoints,
            default,
        ) == default,
        endpoints.len() > 0 && (default is None || forall|i: int|
            0 <= i < endpoints.len() ==> (#[trigger] endpoints[i]).id != default->0) ==> selection(
            None,
            endpoints,
            default,
        ) == Some(endpoints[0].id),
        forall|id: Seq<char>| #[trigger]
            is_listed(endpoints, id) <==> exists|i: int|
                0 <= i < endpoints.len() && (#[trigger] endpoints[i]).id == id,
{
}

/// An opacity between a quarter and one is kept as it is; a lower one becomes a
/// quarter and a higher one becomes one.
pub proof fn opacity_is_kept_in_its_range(opacity: Single)
    ensures
        0x3E80_0000 <= opacity.bits <= 0x3F80_0000 ==> usable_opacity(opacity) == opacity,
        opacity.bits < 0x3E80_0000 ==> usable_opacity(opacity).bits == 0x3E80_0000,
        0x3F80_0000 < opacity.bits <= 0x7F80_0000 ==> usable_opacity(opacity).bits == 0x3F80_0000,
        0x8000_0000 <= opacity.bits <= 0xFF80_0000 ==> usable_opacity(opacity).bits == 0x3E80_0000,
        (0x7F80_0000 < opacity.bits < 0x8000_0000 || 0xFF80_0000 < opacity.bits) ==> usable_opacity(
            opacity,
        ) == opacity && backdrop(false, opacity) == 0,
{
}

/// A higher opacity never gives a fainter backdrop.
pub proof fn backdrop_follows_the_opacity(lower: Single, higher: Single)
    requires
        0x3E80_0000 <= lower.bits <= higher.bits <= 0x3F80_0000,
    ensures
        64 <= backdrop(false, lower) <= backdrop(false, higher) <= 255,
{
    single::bytes_grow(lower, higher);
    backdrop_is_solid(lower);
    single::bytes_grow(Single { bits: MIN_OPACITY_BITS }, lower);
    single::bytes_grow(higher, Single { bits: ONE_BITS });
}

/// The combination of a key press has the modifiers that were held and the key that
/// was pressed, and never the Windows key.
pub proof fn combination_is_what_was_pressed(event: KeyEvent, vk: u32)
    ensures
        ({
            let config = combination(event, vk);
            &&& config.ctrl == event.ctrl
            &&& config.alt == event.alt
            &&& config.shift == event.shift
            &&& !config.win
            &&& config.key == vk
        }),
{
}

/// Recording goes on over every release of a key, and over the press of a key that
/// cannot be stored, of which the user is told.
pub proof fn recording_ends_with_a_key(event: KeyEvent)
    ensures
        ends_recording(event) <==> event.pressed && event.key != Key::Backtick && event.key
            != Key::Other,
        is_refused(event) <==> event.pressed && (event.key == Key::Backtick || event.key
            == Key::Other),
{
}

/// Whether two states differ in the recorder and its notice at most.
pub open spec fn same_but_for_the_recorder(a: OverlayState, b: OverlayState) -> bool {
    &&& a.snapshot == b.snapshot
    &&& a.selected_endpoint == b.selected_endpoint
    &&& a.opacity == b.opacity
    &&& a.opaque_mode == b.opaque_mode
    &&& a.settings_open == b.settings_open
    &&& a.position == b.position
    &&& a.close_requested == b.close_requested
    &&& a.restart_requested == b.restart_requested
}

/// A combination without a modifier is not taken: the user is told, and the recorder
/// goes on. One that the system holds already is saved, and the recorder ends. For any
/// other the system is asked first, for its key, and nothing is saved yet.
pub proof fn combination_is_taken_with_a_modifier(
    state: OverlayState,
    config: HotkeyConfig,
    control: hotkey::ControlModel,
    left: Recorded,
)
    requires
        is_left_to_do(config, control, left),
    ensures
        ({
            let after = took(state, config, control);
            let bare = !config.ctrl && !config.alt && !config.shift && !config.win;
            let held = control.registered && control.config == config;
            &&& same_but_for_the_recorder(after, state)
            &&& bare ==> {
                &&& after.recording_hotkey == state.recording_hotkey
                &&& after.hotkey_notice == Some(Notice::ModifierRequired)
                &&& left == Recorded::Nothing
            }
            &&& !bare && held ==> {
                &&& !after.recording_hotkey
                &&& after.hotkey_notice is None
                &&& left == Recorded::Send(UiCommand::SetHotkey(config))
            }
            &&& !bare && !held ==> {
                &&& after == state
                &&& left matches Recorded::Register { config: asked, request }
                &&& asked == config
                &&& request.key == config.key
                &&& request == hotkey::request_of(config)
            }
        }),
{
}

/// Events that do not end the recording leave the recorder as it is, and the user is
/// told exactly when one of them was a key that cannot be stored.
pub proof fn refused_key_is_told(state: OverlayState, events: Seq<KeyEvent>)
    ensures
        ({
            let after = read_so_far(state, events);
            &&& same_but_for_the_recorder(after, state)
            &&& after.recording_hotkey == state.recording_hotkey
            &&& (exists|i: int|
                0 <= i < events.len() && (#[trigger] events[i]).pressed && (events[i].key
                    == Key::Backtick || events[i].key == Key::Other)) ==> after.hotkey_notice
                == Some(Notice::KeyNotSupported)
            &&& (forall|i: int|
                0 <= i < events.len() ==> !((#[trigger] events[i]).pressed && (events[i].key
                    == Key::Backtick || events[i].key == Key::Other))) ==> after.hotkey_notice
                == state.hotkey_notice
        }),
{
    if exists|i: int|
        0 <= i < events.len() && (#[trigger] events[i]).pressed && (events[i].key == Key::Backtick
            || events[i].key == Key::Other) {
        let i = choose|i: int|
            0 <= i < events.len() && (#[trigger] events[i]).pressed && (events[i].key
                == Key::Backtick || events[i].key == Key::Other);
        assert(is_refused(events[i]));
    }
}

/// The sessions that are listed for an endpoint are exactly those on it.
pub proof fn sessions_of_the_endpoint_are_listed(
    sessions: Seq<SessionModel>,
    endpoint: Seq<char>,
    session: SessionModel,
)
    ensures
        sessions_on(sessions, endpoint).contains(session) <==> sessions.contains(session)
            && session.endpoint == endpoint,
        sessions.len() > 0 ==> sessions_on(sessions, endpoint) == sessions_on(
            sessions.drop_last(),
            endpoint,
        ) + if sessions.last().endpoint == endpoint {
            seq![sessions.last()]
        } else {
            Seq::empty()
        },
{
    let here = |s: SessionModel| s.endpoint == endpoint;
    let listed = sessions.filter(here);
    if listed.contains(session) {
        sessions.lemma_filter_contains_rev(here, session);
        let k = choose|k: int| 0 <= k < listed.len() && listed[k] == session;
        sessions.lemma_filter_pred(here, k);
    }
    if sessions.contains(session) && session.endpoint == endpoint {
        let k = choose|k: int| 0 <= k < sessions.len() && sessions[k] == session;
        sessions.lemma_filter_contains(here, k);
    }
    if sessions.len() > 0 {
        reveal(Seq::filter);
        assert(sessions_on(sessions, endpoint) =~= sessions_on(sessions.drop_last(), endpoint)
            + if sessions.last().endpoint == endpoint {
            seq![sessions.last()]
        } else {
            Seq::empty()
        });
    }
}

/// An endpoint can be switched to exactly when it is active and not the default one.
/// The selected one alone is marked, and the name of one that is not active is dimmed.
pub proof fn only_another_active_endpoint_can_be_switched_to(
    state: EndpointState,
    is_selected: bool,
    is_default: bool,
    hovered: bool,
)
    ensures
        ({
            let tab = tab_of(state, is_selected, is_default, hovered);
            &&& tab.can_switch <==> state is Active && !is_default
            &&& tab.is_selected == is_selected
            &&& tab.is_default == is_default
            &&& tab.fill is AccentTint <==> is_selected
            &&& tab.fill is FillHover <==> !is_selected && hovered
            &&& tab.fill is Transparent <==> !is_selected && !hovered
            &&& tab.edge is AccentEdge <==> is_selected
            &&& tab.edge is Transparent <==> !is_selected
            &&& tab.name is TextPrimary <==> state is Active
            &&& tab.name is TextDisabled <==> !(state is Active)
        }),
{
}

/// Each endpoint state has its own text, and the shortcut row says what is waited for
/// while recording and the shortcut in effect otherwise.
pub proof fn states_and_shortcut_are_named(config: HotkeyConfig)
    ensures
        state_name(EndpointState::Active) == "Active"@,
        state_name(EndpointState::Disabled) == "Disabled"@,
        state_name(EndpointState::NotPresent) == "Not present"@,
        state_name(EndpointState::Unplugged) == "Unplugged"@,
        row_text(true, config) == "Press a combination\u{2026}"@,
        row_text(false, config) == hotkey::description(config),
        notice_text(Notice::ModifierRequired) == "Hold Ctrl, Alt or Shift as well."@,
        notice_text(Notice::ShortcutUnavailable)
            == "Could not register that shortcut; it may be in use."@,
        notice_text(Notice::KeyNotSupported)
            == "That key cannot be used. Try a letter, a digit or a function key."@,
{
}

/// What is done on the card of a session is asked for its program on the endpoint of the
/// card: to forget it, to set the volume that was chosen, or to turn its mute over.
pub proof fn card_asks_for_its_program(
    endpoint: &EndpointId,
    session: &SessionView,
    action: CardAction,
    command: UiCommand,
)
    requires
        call_ensures(card_command, (endpoint, session, action), command),
    ensures
        action is Forget ==> command is ForgetProfileEntry
            && command->ForgetProfileEntry_endpoint@ == endpoint@
            && command->ForgetProfileEntry_process@ == session.process@,
        action is ToggleMute ==> command is SetSessionMute && command->SetSessionMute_endpoint@
            == endpoint@ && command->SetSessionMute_process@ == session.process@
            && command->SetSessionMute_muted != session.muted,
        action matches CardAction::Volume(chosen) ==> command is SetSessionVolume
            && command->SetSessionVolume_endpoint@ == endpoint@
            && command->SetSessionVolume_process@ == session.process@
            && command->SetSessionVolume_volume == chosen,
{
}

/// The card of a session that does not play is dimmed and says so, and the hint of its
/// mute says what a press does.
pub proof fn card_shows_what_plays(session: &SessionView, card: SessionCard)
    requires
        call_ensures(session_card, (session,), card),
    ensures
        card.name is TextPrimary <==> session.state is Active,
        card.name is TextDisabled <==> !(session.state is Active),
        card.name_hint is Some <==> !(session.state is Active),
        session.muted ==> card.mute_hint@ == "Unmute"@,
        !session.muted ==> card.mute_hint@ == "Mute"@,
{
}

/// A button that cannot be pressed is dimmed and has no face; one that destroys warns
/// under the pointer.
pub proof fn buttons_show_what_they_do(
    enabled: bool,
    danger: bool,
    hovered: bool,
    pressed: bool,
    faces: Faces,
)
    requires
        call_ensures(row_button_faces, (enabled, danger, hovered, pressed), faces),
    ensures
        faces.fill is Transparent <==> !enabled,
        faces.ink is TextDisabled <==> !enabled,
        faces.fill is DangerTint <==> enabled && danger && hovered,
        faces.ink is Danger <==> enabled && danger && hovered,
        enabled && !(danger && hovered) ==> (faces.fill is FillPressed <==> pressed),
        enabled && !danger && !pressed ==> (faces.fill is FillHover <==> hovered),
        enabled && !hovered && !pressed ==> faces.fill is FillRaised,
{
}

} // verus!
