//! The messages that the audio layer, the state manager and the user interface
//! exchange.

use crate::single::Single;
use vstd::prelude::*;

verus! {

pub type EndpointId = String;

pub type SessionInstanceId = String;

pub type ProcessKey = String;

#[derive(Debug, Clone, Copy, PartialEq, Eq, Structural)]
pub enum DataFlow {
    Render,
    Capture,
}

#[derive(Debug, Clone, Copy, PartialEq, Eq, Structural)]
pub enum Role {
    Console,
    Multimedia,
    Communications,
}

/// A global keyboard shortcut: the modifier keys held plus one other key, given
/// by its raw virtual-key code.
#[derive(Debug, Clone, Copy, PartialEq, Eq, Structural)]
pub struct HotkeyConfig {
    pub ctrl: bool,
    pub alt: bool,
    pub shift: bool,
    pub win: bool,
    pub key: u32,
}

/// Ctrl+Alt+V.
pub open spec fn default_hotkey() -> HotkeyConfig {
    HotkeyConfig { ctrl: true, alt: true, shift: false, win: false, key: 0x56 }
}

impl Default for HotkeyConfig {
    /// Ctrl+Alt+V; `0x56` is the virtual-key code of `V`.
    fn default() -> (config: Self)
        ensures
            config == default_hotkey(),
    {
        HotkeyConfig { ctrl: true, alt: true, shift: false, win: false, key: 0x56 }
    }
}

/// The roles that a switch of the default endpoint reaches.
#[derive(Debug, Clone, Copy, PartialEq, Eq, Structural)]
pub struct RoleSet {
    pub console: bool,
    pub multimedia: bool,
    pub communications: bool,
}

/// Every role.
pub open spec fn all_roles() -> RoleSet {
    RoleSet { console: true, multimedia: true, communications: true }
}

impl Default for RoleSet {
    /// No role at all.
    fn default() -> (roles: Self)
        ensures
            roles == (RoleSet { console: false, multimedia: false, communications: false }),
    {
        RoleSet { console: false, multimedia: false, communications: false }
    }
}

impl RoleSet {
    /// Every role.
    pub fn all() -> (roles: Self)
        ensures
            roles == all_roles(),
    {
        RoleSet { console: true, multimedia: true, communications: true }
    }
}

#[derive(Debug, Clone, Copy, PartialEq, Eq, Structural)]
pub enum EndpointState {
    Active,
    Disabled,
    NotPresent,
    Unplugged,
}

#[derive(Debug, Clone, Copy, PartialEq, Eq, Structural)]
pub enum SessionState {
    Active,
    Inactive,
    Expired,
}

#[derive(Debug, Clone, Copy, PartialEq, Eq, Structural)]
pub enum DisconnectReason {
    DeviceRemoval,
    ServerShutdown,
    FormatChanged,
    SessionLogoff,
    SessionDisconnected,
    ExclusiveModeOverride,
}

/// A session as the audio layer found it.
#[derive(Debug)]
pub struct SessionInfo {
    pub instance: SessionInstanceId,
    pub process: ProcessKey,
    pub endpoint: EndpointId,
    pub volume: Single,
    pub muted: bool,
}

/// A render endpoint that is present.
#[derive(Debug)]
pub struct EndpointView {
    pub id: EndpointId,
    pub friendly_name: String,
    pub state: EndpointState,
}

/// What an [`EndpointView`] holds.
pub struct EndpointModel {
    pub id: Seq<char>,
    pub friendly_name: Seq<char>,
    pub state: EndpointState,
}

impl View for EndpointView {
    type V = EndpointModel;

    open spec fn view(&self) -> EndpointModel {
        EndpointModel { id: self.id@, friendly_name: self.friendly_name@, state: self.state }
    }
}

impl Clone for EndpointView {
    fn clone(&self) -> (copy: Self)
        ensures
            copy@ == self@,
    {
        EndpointView {
            id: self.id.clone(),
            friendly_name: self.friendly_name.clone(),
            state: self.state,
        }
    }
}

/// A session that is live.
#[derive(Debug)]
pub struct SessionView {
    pub instance: SessionInstanceId,
    pub process: ProcessKey,
    pub endpoint: EndpointId,
    pub volume: Single,
    pub muted: bool,
    pub state: SessionState,
}

/// What a [`SessionView`] holds.
pub struct SessionModel {
    pub instance: Seq<char>,
    pub process: Seq<char>,
    pub endpoint: Seq<char>,
    pub volume: Single,
    pub muted: bool,
    pub state: SessionState,
}

impl View for SessionView {
    type V = SessionModel;

    open spec fn view(&self) -> SessionModel {
        SessionModel {
            instance: self.instance@,
            process: self.process@,
            endpoint: self.endpoint@,
            volume: self.volume,
            muted: self.muted,
            state: self.state,
        }
    }
}

impl Clone for SessionView {
    fn clone(&self) -> (copy: Self)
        ensures
            copy@ == self@,
    {
        SessionView {
            instance: self.instance.clone(),
            process: self.process.clone(),
            endpoint: self.endpoint.clone(),
            volume: self.volume,
            muted: self.muted,
            state: self.state,
        }
    }
}

/// The models of a list of endpoints.
pub open spec fn endpoint_models(endpoints: Seq<EndpointView>) -> Seq<EndpointModel> {
    endpoints.map_values(|endpoint: EndpointView| endpoint@)
}

/// The models of a list of sessions.
pub open spec fn session_models(sessions: Seq<SessionView>) -> Seq<SessionModel> {
    sessions.map_values(|session: SessionView| session@)
}

#[derive(Debug, Clone)]
pub enum CoreError {
    ComInitFailed(String),
    DeviceEnumerationFailed(String),
    Other(String),
}

/// What the audio layer reports.
#[allow(inconsistent_fields)]
#[derive(Debug)]
pub enum AudioEvent {
    DefaultEndpointChanged { flow: DataFlow, role: Role, id: Option<EndpointId> },
    EndpointStateChanged { id: EndpointId, state: EndpointState },
    /// A render endpoint appeared. `friendly_name` is the display name read from
    /// the device, empty when the device gave none.
    EndpointAdded { id: EndpointId, friendly_name: String },
    EndpointRemoved(EndpointId),
    SessionCreated { endpoint: EndpointId, session: SessionInfo },
    SessionVolumeChanged {
        instance: SessionInstanceId,
        volume: Single,
        muted: bool,
        own_change: bool,
    },
    SessionStateChanged { instance: SessionInstanceId, state: SessionState },
    SessionDisconnected { instance: SessionInstanceId, reason: DisconnectReason },
    CoreError(CoreError),
}

/// What the audio layer is asked to do.
#[derive(Debug)]
pub enum CoreCommand {
    ApplySessionVolume { instance: SessionInstanceId, volume: Single, muted: bool },
    SetDefaultEndpoint { id: EndpointId, roles: RoleSet },
    ResyncEndpoint(EndpointId),
    Shutdown,
}

/// What a [`CoreCommand`] holds.
pub enum CommandModel {
    ApplySessionVolume { instance: Seq<char>, volume: Single, muted: bool },
    SetDefaultEndpoint { id: Seq<char>, roles: RoleSet },
    ResyncEndpoint(Seq<char>),
    Shutdown,
}

impl View for CoreCommand {
    type V = CommandModel;

    open spec fn view(&self) -> CommandModel {
        match self {
            CoreCommand::ApplySessionVolume { instance, volume, muted } => {
                CommandModel::ApplySessionVolume {
                    instance: instance@,
                    volume: *volume,
                    muted: *muted,
                }
            },
            CoreCommand::SetDefaultEndpoint { id, roles } => CommandModel::SetDefaultEndpoint {
                id: id@,
                roles: *roles,
            },
            CoreCommand::ResyncEndpoint(id) => CommandModel::ResyncEndpoint(id@),
            CoreCommand::Shutdown => CommandModel::Shutdown,
        }
    }
}

/// What the user interface asks for.
#[derive(Debug)]
pub enum UiCommand {
    SwitchEndpoint(EndpointId),
    SetSessionVolume { endpoint: EndpointId, process: ProcessKey, volume: Single },
    SetSessionMute { endpoint: EndpointId, process: ProcessKey, muted: bool },
    ForgetProfileEntry { endpoint: EndpointId, process: ProcessKey },
    SetHotkey(HotkeyConfig),
    SetAutostart(bool),
    SetWidgetVisible(bool),
    SetWidgetPosition(Single, Single),
    ToggleOverlay,
    Quit,
}

/// The read model of the user interface.
#[derive(Debug, Clone)]
pub struct Snapshot {
    pub endpoints: Vec<EndpointView>,
    pub default_endpoint: Option<EndpointId>,
    pub live_sessions: Vec<SessionView>,
    pub revision: u64,
}

/// The text that an optional string holds.
pub open spec fn optional_text(text: Option<String>) -> Option<Seq<char>> {
    match text {
        Some(t) => Some(t@),
        None => None,
    }
}

/// Every role is among all roles; the first shortcut is Ctrl, Alt and V.
pub proof fn all_roles_are_all()
    ensures
        all_roles().console && all_roles().multimedia && all_roles().communications,
        default_hotkey().ctrl && default_hotkey().alt && !default_hotkey().shift,
        !default_hotkey().win,
        default_hotkey().key == 0x56,
{
}

} // verus!
