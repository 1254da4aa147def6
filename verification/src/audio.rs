//! What the audio layer decides between its calls into Windows: what a raw value
//! means, which sessions are new, and what an event says.

use crate::messages::{
    AudioEvent, CoreCommand, CoreError, DataFlow, DisconnectReason, EndpointId, EndpointState,
    EndpointView, Role, RoleSet, SessionInfo, SessionInstanceId, SessionState,
};
use crate::messages;
use crate::process_key;
use crate::process_key::resolve_process_key;
use crate::single::Single;
use crate::single;
use crate::table::Table;
use crate::table;
use crate::text;
use vstd::prelude::*;
use vstd::string::*;

verus! {

/// The world as it was when the audio layer came up.
#[derive(Debug)]
pub struct CoreStartup {
    /// Active render endpoints, in the order in which they were listed.
    pub endpoints: Vec<EndpointView>,
    /// Default render endpoint for the console role, if there is one.
    pub default_render: Option<EndpointId>,
}

// ----- raw values

/// The endpoint state that a raw value stands for.
pub open spec fn state_of(raw: u32) -> Option<EndpointState> {
    match raw {
        1u32 => Some(EndpointState::Active),
        2u32 => Some(EndpointState::Disabled),
        4u32 => Some(EndpointState::NotPresent),
        8u32 => Some(EndpointState::Unplugged),
        _ => None,
    }
}

/// The state of an endpoint, from the raw value; `None` for an unknown one.
pub fn endpoint_state(raw: u32) -> (state: Option<EndpointState>)
    ensures
        state == state_of(raw),
{
    if raw == 1 {
        Some(EndpointState::Active)
    } else if raw == 2 {
        Some(EndpointState::Disabled)
    } else if raw == 4 {
        Some(EndpointState::NotPresent)
    } else if raw == 8 {
        Some(EndpointState::Unplugged)
    } else {
        None
    }
}

/// The direction of an endpoint, from the raw value; `None` for an unknown one.
pub fn data_flow(raw: i32) -> (flow: Option<DataFlow>)
    ensures
        flow == match raw {
            0i32 => Some(DataFlow::Render),
            1i32 => Some(DataFlow::Capture),
            _ => None,
        },
{
    if raw == 0 {
        Some(DataFlow::Render)
    } else if raw == 1 {
        Some(DataFlow::Capture)
    } else {
        None
    }
}

/// A role, from the raw value; `None` for an unknown one.
pub fn endpoint_role(raw: i32) -> (role: Option<Role>)
    ensures
        role == match raw {
            0i32 => Some(Role::Console),
            1i32 => Some(Role::Multimedia),
            2i32 => Some(Role::Communications),
            _ => None,
        },
{
    if raw == 0 {
        Some(Role::Console)
    } else if raw == 1 {
        Some(Role::Multimedia)
    } else if raw == 2 {
        Some(Role::Communications)
    } else {
        None
    }
}

/// What a raw session state means. An unknown one counts as inactive, the state
/// without side effects.
pub open spec fn session_state(raw: i32) -> SessionState {
    match raw {
        1i32 => SessionState::Active,
        2i32 => SessionState::Expired,
        _ => SessionState::Inactive,
    }
}

impl From<i32> for SessionState {
    fn from(raw: i32) -> (state: SessionState) {
        if raw == 1 {
            SessionState::Active
        } else if raw == 2 {
            SessionState::Expired
        } else {
            SessionState::Inactive
        }
    }
}

impl vstd::std_specs::convert::FromSpecImpl<i32> for SessionState {
    open spec fn obeys_from_spec() -> bool {
        true
    }

    open spec fn from_spec(raw: i32) -> SessionState {
        session_state(raw)
    }
}

/// What a raw disconnect reason means. An unknown one counts as a shutdown of
/// the server: letting the session go is right for any cause.
pub open spec fn disconnect_reason(raw: i32) -> DisconnectReason {
    match raw {
        0i32 => DisconnectReason::DeviceRemoval,
        2i32 => DisconnectReason::FormatChanged,
        3i32 => DisconnectReason::SessionLogoff,
        4i32 => DisconnectReason::SessionDisconnected,
        5i32 => DisconnectReason::ExclusiveModeOverride,
        _ => DisconnectReason::ServerShutdown,
    }
}

impl From<i32> for DisconnectReason {
    fn from(raw: i32) -> (reason: DisconnectReason) {
        if raw == 0 {
            DisconnectReason::DeviceRemoval
        } else if raw == 2 {
            DisconnectReason::FormatChanged
        } else if raw == 3 {
            DisconnectReason::SessionLogoff
        } else if raw == 4 {
            DisconnectReason::SessionDisconnected
        } else if raw == 5 {
            DisconnectReason::ExclusiveModeOverride
        } else {
            DisconnectReason::ServerShutdown
        }
    }
}

impl vstd::std_specs::convert::FromSpecImpl<i32> for DisconnectReason {
    open spec fn obeys_from_spec() -> bool {
        true
    }

    open spec fn from_spec(raw: i32) -> DisconnectReason {
        disconnect_reason(raw)
    }
}

/// Whether a volume change carries the context that this process stamps on its
/// own changes.
pub fn is_own_event_context(observed: Option<u128>, ours: Option<u128>) -> (own: bool)
    ensures
        own == (observed is Some && observed == ours),
{
    match (observed, ours) {
        (Some(a), Some(b)) => a == b,
        _ => false,
    }
}

/// The volume that is set on a session: pulled into `0.0..=1.0`. NaN stays.
pub fn applied_volume(volume: Single) -> (applied: Single)
    ensures
        applied == if single::is_nan(volume) {
            volume
        } else {
            single::clamped(
                volume,
                Single { bits: single::ZERO_BITS },
                Single { bits: single::ONE_BITS },
            )
        },
{
    if volume.is_nan() {
        volume
    } else {
        volume.clamp(Single { bits: single::ZERO_BITS }, Single { bits: single::ONE_BITS })
    }
}

// ----- notifications

/// The event for an endpoint whose state changed. A notification without an id,
/// or with an unknown state, says nothing.
pub fn device_state_changed(id: Option<EndpointId>, raw_state: u32) -> (event: Option<AudioEvent>)
    ensures
        event == match (id, state_of(raw_state)) {
            (Some(i), Some(s)) => Some(AudioEvent::EndpointStateChanged { id: i, state: s }),
            _ => None,
        },
{
    match (id, endpoint_state(raw_state)) {
        (Some(id), Some(state)) => Some(AudioEvent::EndpointStateChanged { id, state }),
        _ => None,
    }
}

/// The event for an endpoint that appeared. A device that gives no name gets an
/// empty one.
pub fn device_added(id: Option<EndpointId>, friendly_name: Option<String>) -> (event: Option<
    AudioEvent,
>)
    ensures
        match id {
            None => event is None,
            Some(i) => match friendly_name {
                Some(name) => event == Some(
                    AudioEvent::EndpointAdded { id: i, friendly_name: name },
                ),
                None => event matches Some(AudioEvent::EndpointAdded { id: e, friendly_name: n })
                    && e == i && n@ == Seq::<char>::empty(),
            },
        },
{
    match id {
        None => None,
        Some(id) => Some(
            AudioEvent::EndpointAdded {
                id,
                friendly_name: match friendly_name {
                    Some(name) => name,
                    None => String::new(),
                },
            },
        ),
    }
}

/// The event for an endpoint that is gone.
pub fn device_removed(id: Option<EndpointId>) -> (event: Option<AudioEvent>)
    ensures
        event == match id {
            Some(i) => Some(AudioEvent::EndpointRemoved(i)),
            None => None,
        },
{
    match id {
        Some(id) => Some(AudioEvent::EndpointRemoved(id)),
        None => None,
    }
}

/// The event for a new default endpoint. No id means that there is no default
/// any more; an unknown direction or role says nothing.
pub fn default_device_changed(raw_flow: i32, raw_role: i32, id: Option<EndpointId>) -> (event:
    Option<AudioEvent>)
    ensures
        event == if 0 <= raw_flow <= 1 && 0 <= raw_role <= 2 {
            Some(
                AudioEvent::DefaultEndpointChanged {
                    flow: if raw_flow == 0 {
                        DataFlow::Render
                    } else {
                        DataFlow::Capture
                    },
                    role: if raw_role == 0 {
                        Role::Console
                    } else if raw_role == 1 {
                        Role::Multimedia
                    } else {
                        Role::Communications
                    },
                    id,
                },
            )
        } else {
            None
        },
{
    match (data_flow(raw_flow), endpoint_role(raw_role)) {
        (Some(flow), Some(role)) => Some(AudioEvent::DefaultEndpointChanged { flow, role, id }),
        _ => None,
    }
}

/// The event for a session whose volume changed.
pub fn simple_volume_changed(
    instance: &SessionInstanceId,
    volume: Single,
    muted: bool,
    observed: Option<u128>,
    ours: Option<u128>,
) -> (event: AudioEvent)
    ensures
        event == (AudioEvent::SessionVolumeChanged {
            instance: *instance,
            volume,
            muted,
            own_change: observed is Some && observed == ours,
        }),
{
    AudioEvent::SessionVolumeChanged {
        instance: instance.clone(),
        volume,
        muted,
        own_change: is_own_event_context(observed, ours),
    }
}

/// The event for a session whose state changed.
pub fn state_changed(instance: &SessionInstanceId, raw_state: i32) -> (event: AudioEvent)
    ensures
        event == (AudioEvent::SessionStateChanged {
            instance: *instance,
            state: session_state(raw_state),
        }),
{
    AudioEvent::SessionStateChanged {
        instance: instance.clone(),
        state: SessionState::from(raw_state),
    }
}

/// The event for a session that was disconnected.
pub fn session_disconnected(instance: &SessionInstanceId, raw_reason: i32) -> (event: AudioEvent)
    ensures
        event == (AudioEvent::SessionDisconnected {
            instance: *instance,
            reason: disconnect_reason(raw_reason),
        }),
{
    AudioEvent::SessionDisconnected {
        instance: instance.clone(),
        reason: DisconnectReason::from(raw_reason),
    }
}

// ----- taking up a session

/// The calls that take up a session, in the order in which they are made.
#[derive(Debug, Clone, Copy, PartialEq, Eq, Structural)]
pub enum HookCall {
    SessionControl,
    InstanceIdentifier,
    ProcessId,
    SimpleVolume,
    Register,
    ReadVolume,
}

/// What a failed call is called in an error.
pub open spec fn hook_failure_text(call: HookCall) -> Seq<char> {
    match call {
        HookCall::SessionControl => "cast to IAudioSessionControl2 failed: "@,
        HookCall::InstanceIdentifier => "GetSessionInstanceIdentifier failed: "@,
        HookCall::ProcessId => "GetProcessId failed: "@,
        HookCall::SimpleVolume => "cast to ISimpleAudioVolume failed: "@,
        HookCall::Register => "RegisterAudioSessionNotification failed: "@,
        HookCall::ReadVolume => "could not read the session volume: "@,
    }
}

/// The error for a call that failed while a session was taken up.
pub fn hook_failure(call: HookCall, reason: &str) -> (error: CoreError)
    ensures
        error matches CoreError::Other(message) && message@ == hook_failure_text(call) + reason@,
{
    let what = match call {
        HookCall::SessionControl => "cast to IAudioSessionControl2 failed: ",
        HookCall::InstanceIdentifier => "GetSessionInstanceIdentifier failed: ",
        HookCall::ProcessId => "GetProcessId failed: ",
        HookCall::SimpleVolume => "cast to ISimpleAudioVolume failed: ",
        HookCall::Register => "RegisterAudioSessionNotification failed: ",
        HookCall::ReadVolume => "could not read the session volume: ",
    };
    let mut message = String::from_str(what);
    message.append(reason);
    session_error(message)
}

/// An error that concerns one session.
pub fn session_error(message: String) -> (error: CoreError)
    ensures
        error == CoreError::Other(message),
{
    CoreError::Other(message)
}

/// What the calls that take up a session gave, in the order in which they are
/// made. A call behind one that failed is not made, and its result not looked
/// at.
#[derive(Debug)]
pub struct SessionFacts {
    pub control: Result<(), String>,
    /// Whether this is the session of the system sounds.
    pub system_sounds: bool,
    /// The instance identifier; `None` when it is no usable string.
    pub instance: Result<Option<String>, String>,
    /// The identifier of the application, where it was given.
    pub identifier: Option<String>,
    pub process_id: Result<u32, String>,
    /// The path of the image of the process, where it was given.
    pub image: Option<String>,
    pub simple_volume: Result<(), String>,
    pub registered: Result<(), String>,
    /// Volume and mute.
    pub level: Result<(Single, bool), String>,
}

/// Whether an error is the one for a call that failed.
pub open spec fn reports(error: CoreError, call: HookCall, reason: String) -> bool {
    error matches CoreError::Other(message) && message@ == hook_failure_text(call) + reason@
}

/// Whether this is what becomes of an announced session: nothing for the system
/// sounds, the error of the first call that failed, and the session otherwise.
pub open spec fn is_hooked_as(
    endpoint: Seq<char>,
    facts: SessionFacts,
    result: Result<Option<SessionInfo>, CoreError>,
) -> bool {
    if let Err(e) = facts.control {
        result matches Err(error) && reports(error, HookCall::SessionControl, e)
    } else if facts.system_sounds {
        result matches Ok(None)
    } else if let Err(e) = facts.instance {
        result matches Err(error) && reports(error, HookCall::InstanceIdentifier, e)
    } else if facts.instance matches Ok(None) {
        result matches Err(CoreError::Other(message)) && message@
            == "GetSessionInstanceIdentifier returned no usable string"@
    } else if let Err(e) = facts.process_id {
        result matches Err(error) && reports(error, HookCall::ProcessId, e)
    } else if let Err(e) = facts.simple_volume {
        result matches Err(error) && reports(error, HookCall::SimpleVolume, e)
    } else if let Err(e) = facts.registered {
        result matches Err(error) && reports(error, HookCall::Register, e)
    } else if let Err(e) = facts.level {
        result matches Err(error) && reports(error, HookCall::ReadVolume, e)
    } else {
        &&& result matches Ok(Some(info))
        &&& facts.instance matches Ok(Some(instance)) && info.instance@ == instance@
        &&& info.process@ == process_key::process_key(
            facts.process_id->Ok_0,
            messages::optional_text(facts.image),
            messages::optional_text(facts.identifier),
        )
        &&& info.endpoint@ == endpoint
        &&& info.volume == (facts.level->Ok_0).0
        &&& info.muted == (facts.level->Ok_0).1
    }
}

fn borrowed(text: &Option<String>) -> (result: Option<&str>)
    ensures
        process_key::optional_str(result) == messages::optional_text(*text),
{
    match text {
        Some(t) => Some(t.as_str()),
        None => None,
    }
}

/// Turns what is known of an announced session into the session that is taken
/// up; `None` for the system sounds, which are left alone.
pub fn hook_session(endpoint: &EndpointId, facts: SessionFacts) -> (result: Result<
    Option<SessionInfo>,
    CoreError,
>)
    ensures
        is_hooked_as(endpoint@, facts, result),
{
    if let Err(e) = &facts.control {
        return Err(hook_failure(HookCall::SessionControl, e.as_str()));
    }
    if facts.system_sounds {
        return Ok(None);
    }
    let instance = match &facts.instance {
        Err(e) => {
            return Err(hook_failure(HookCall::InstanceIdentifier, e.as_str()));
        },
        Ok(None) => {
            return Err(
                session_error(
                    String::from_str("GetSessionInstanceIdentifier returned no usable string"),
                ),
            );
        },
        Ok(Some(text)) => text.clone(),
    };
    let pid: u32 = match &facts.process_id {
        Err(e) => {
            return Err(hook_failure(HookCall::ProcessId, e.as_str()));
        },
        Ok(pid) => *pid,
    };
    let process = resolve_process_key(pid, borrowed(&facts.image), borrowed(&facts.identifier));
    if let Err(e) = &facts.simple_volume {
        return Err(hook_failure(HookCall::SimpleVolume, e.as_str()));
    }
    if let Err(e) = &facts.registered {
        return Err(hook_failure(HookCall::Register, e.as_str()));
    }
    match &facts.level {
        Err(e) => Err(hook_failure(HookCall::ReadVolume, e.as_str())),
        Ok((volume, muted)) => Ok(
            Some(
                SessionInfo {
                    instance,
                    process,
                    endpoint: endpoint.clone(),
                    volume: *volume,
                    muted: *muted,
                },
            ),
        ),
    }
}

// ----- describing an endpoint

/// What reading the identifier of a device gave.
#[derive(Debug)]
pub enum IdRead {
    Failed(String),
    Null,
    /// The text is no valid UTF-16; the message says why.
    Invalid(String),
    Text(String),
}

/// What reading the name of a device gave.
#[derive(Debug)]
pub enum NameRead {
    StoreFailed(String),
    ValueFailed(String),
    /// The property is no text.
    NotText,
    Text(String),
}

fn enumeration_error(what: &str, reason: &str) -> (error: CoreError)
    ensures
        error matches CoreError::DeviceEnumerationFailed(message) && message@ == what@ + reason@,
{
    let mut message = String::from_str(what);
    message.append(reason);
    CoreError::DeviceEnumerationFailed(message)
}

/// Why a device has no identifier.
pub open spec fn id_failure(read: IdRead) -> Option<Seq<char>> {
    match read {
        IdRead::Failed(e) => Some("IMMDevice::GetId failed: "@ + e@),
        IdRead::Null => Some("IMMDevice::GetId returned a null string"@),
        IdRead::Invalid(e) => Some("IMMDevice::GetId returned invalid UTF-16: "@ + e@),
        IdRead::Text(_) => None,
    }
}

/// The identifier of a device.
pub fn device_id(read: IdRead) -> (id: Result<EndpointId, CoreError>)
    ensures
        match id_failure(read) {
            Some(text) => id matches Err(CoreError::DeviceEnumerationFailed(message)) && message@
                == text,
            None => id matches Ok(i) && read == IdRead::Text(i),
        },
{
    match read {
        IdRead::Failed(e) => Err(enumeration_error("IMMDevice::GetId failed: ", e.as_str())),
        IdRead::Null => Err(
            CoreError::DeviceEnumerationFailed(
                String::from_str("IMMDevice::GetId returned a null string"),
            ),
        ),
        IdRead::Invalid(e) => Err(
            enumeration_error("IMMDevice::GetId returned invalid UTF-16: ", e.as_str()),
        ),
        IdRead::Text(text) => Ok(text),
    }
}

/// Why a device has no name.
pub open spec fn name_failure(read: NameRead) -> Option<Seq<char>> {
    match read {
        NameRead::StoreFailed(e) => Some("IMMDevice::OpenPropertyStore failed: "@ + e@),
        NameRead::ValueFailed(e) => Some(
            "IPropertyStore::GetValue(PKEY_Device_FriendlyName) failed: "@ + e@,
        ),
        NameRead::NotText => Some("PKEY_Device_FriendlyName was not a string value"@),
        NameRead::Text(_) => None,
    }
}

/// The name of a device.
pub fn friendly_name(read: NameRead) -> (name: Result<String, CoreError>)
    ensures
        match name_failure(read) {
            Some(text) => name matches Err(CoreError::DeviceEnumerationFailed(message)) && message@
                == text,
            None => name matches Ok(n) && read == NameRead::Text(n),
        },
{
    match read {
        NameRead::StoreFailed(e) => Err(
            enumeration_error("IMMDevice::OpenPropertyStore failed: ", e.as_str()),
        ),
        NameRead::ValueFailed(e) => Err(
            enumeration_error(
                "IPropertyStore::GetValue(PKEY_Device_FriendlyName) failed: ",
                e.as_str(),
            ),
        ),
        NameRead::NotText => Err(
            CoreError::DeviceEnumerationFailed(
                String::from_str("PKEY_Device_FriendlyName was not a string value"),
            ),
        ),
        NameRead::Text(text) => Ok(text),
    }
}

/// Whether this is the view of a device: its identifier, its state and its name,
/// or the error of the first of them that could not be read.
pub open spec fn is_view_of(
    id: IdRead,
    state: Result<u32, String>,
    name: NameRead,
    view: Result<EndpointView, CoreError>,
) -> bool {
    if let Some(text) = id_failure(id) {
        view matches Err(CoreError::DeviceEnumerationFailed(message)) && message@ == text
    } else if let Err(e) = state {
        view matches Err(CoreError::DeviceEnumerationFailed(message)) && message@
            == "IMMDevice::GetState failed for "@ + id->Text_0@ + ": "@ + e@
    } else if state_of(state->Ok_0) is None {
        view matches Err(CoreError::DeviceEnumerationFailed(message)) && message@
            == "IMMDevice::GetState returned unknown state "@ + text::decimal(
            state->Ok_0 as nat,
        ) + " for "@ + id->Text_0@
    } else if let Some(text) = name_failure(name) {
        view matches Err(CoreError::DeviceEnumerationFailed(message)) && message@ == text
    } else {
        &&& view matches Ok(v)
        &&& v.id@ == id->Text_0@
        &&& Some(v.state) == state_of(state->Ok_0)
        &&& v.friendly_name@ == name->Text_0@
    }
}

/// Describes a device from what was read of it.
pub fn endpoint_view(id: IdRead, state: Result<u32, String>, name: NameRead) -> (view: Result<
    EndpointView,
    CoreError,
>)
    ensures
        is_view_of(id, state, name, view),
{
    let id = match device_id(id) {
        Ok(id) => id,
        Err(error) => {
            return Err(error);
        },
    };
    let raw: u32 = match state {
        Ok(raw) => raw,
        Err(e) => {
            let mut message = String::from_str("IMMDevice::GetState failed for ");
            message.append(id.as_str());
            message.append(": ");
            message.append(e.as_str());
            return Err(CoreError::DeviceEnumerationFailed(message));
        },
    };
    let state = match endpoint_state(raw) {
        Some(state) => state,
        None => {
            let mut message = String::from_str("IMMDevice::GetState returned unknown state ");
            message.append(text::decimal_of(raw as u64).as_str());
            message.append(" for ");
            message.append(id.as_str());
            return Err(CoreError::DeviceEnumerationFailed(message));
        },
    };
    match friendly_name(name) {
        Ok(friendly_name) => Ok(EndpointView { id, friendly_name, state }),
        Err(error) => Err(error),
    }
}

/// The calls that bring the audio layer up.
#[derive(Debug, Clone, Copy, PartialEq, Eq, Structural)]
pub enum StartupCall {
    Initialize,
    EventContext,
    Enumerator,
    RegisterCallback,
    ListEndpoints,
    CountEndpoints,
}

/// What a failed call is called in an error.
pub open spec fn startup_failure_text(call: StartupCall) -> Seq<char> {
    match call {
        StartupCall::Initialize => "CoInitializeEx(COINIT_MULTITHREADED) failed: "@,
        StartupCall::EventContext => "CoCreateGuid failed: "@,
        StartupCall::Enumerator => "CoCreateInstance(MMDeviceEnumerator) failed: "@,
        StartupCall::RegisterCallback => "RegisterEndpointNotificationCallback failed: "@,
        StartupCall::ListEndpoints => "EnumAudioEndpoints(eRender) failed: "@,
        StartupCall::CountEndpoints => "IMMDeviceCollection::GetCount failed: "@,
    }
}

/// The error for a call that failed while the audio layer came up. Listing the
/// endpoints is an error of its own.
pub fn startup_failure(call: StartupCall, reason: &str) -> (error: CoreError)
    ensures
        match call {
            StartupCall::ListEndpoints | StartupCall::CountEndpoints => error matches
                CoreError::DeviceEnumerationFailed(message) && message@ == startup_failure_text(
                call,
            ) + reason@,
            _ => error matches CoreError::ComInitFailed(message) && message@
                == startup_failure_text(call) + reason@,
        },
{
    let what = match call {
        StartupCall::Initialize => "CoInitializeEx(COINIT_MULTITHREADED) failed: ",
        StartupCall::EventContext => "CoCreateGuid failed: ",
        StartupCall::Enumerator => "CoCreateInstance(MMDeviceEnumerator) failed: ",
        StartupCall::RegisterCallback => "RegisterEndpointNotificationCallback failed: ",
        StartupCall::ListEndpoints => "EnumAudioEndpoints(eRender) failed: ",
        StartupCall::CountEndpoints => "IMMDeviceCollection::GetCount failed: ",
    };
    let mut message = String::from_str(what);
    message.append(reason);
    match call {
        StartupCall::ListEndpoints | StartupCall::CountEndpoints => {
            CoreError::DeviceEnumerationFailed(message)
        },
        _ => CoreError::ComInitFailed(message),
    }
}

/// What the thread of the audio layer reported once it was up; `None` when it
/// ended without a report.
pub fn started(report: Option<Result<CoreStartup, CoreError>>) -> (result: Result<
    CoreStartup,
    CoreError,
>)
    ensures
        match report {
            Some(r) => result == r,
            None => result matches Err(CoreError::Other(message)) && message@
                == "audio core thread exited before reporting initialisation"@,
        },
{
    match report {
        Some(result) => result,
        None => Err(
            CoreError::Other(
                String::from_str("audio core thread exited before reporting initialisation"),
            ),
        ),
    }
}

// ----- the sessions that are taken up

/// The sessions that are taken up on one endpoint.
#[derive(Debug)]
pub struct SessionList {
    instances: Vec<SessionInstanceId>,
}

impl View for SessionList {
    type V = Seq<Seq<char>>;

    closed spec fn view(&self) -> Seq<Seq<char>> {
        self.instances@.map_values(|instance: SessionInstanceId| instance@)
    }
}

impl SessionList {
    fn new() -> (list: Self)
        ensures
            list@ == Seq::<Seq<char>>::empty(),
    {
        let list = SessionList { instances: Vec::new() };
        assert(list@ =~= Seq::<Seq<char>>::empty());
        list
    }

    fn contains(&self, instance: &str) -> (yes: bool)
        ensures
            yes == self@.contains(instance@),
    {
        let mut i: usize = 0;
        while i < self.instances.len()
            invariant
                i <= self.instances@.len(),
                forall|j: int| 0 <= j < i ==> (#[trigger] self.instances@[j])@ != instance@,
            decreases self.instances@.len() - i,
        {
            if text::same(self.instances[i].as_str(), instance) {
                assert(self@[i as int] == instance@);
                return true;
            }
            i += 1;
        }
        proof {
            if self@.contains(instance@) {
                let j = choose|j: int| 0 <= j < self@.len() && self@[j] == instance@;
                assert(self.instances@[j]@ == instance@);
            }
        }
        false
    }

    fn push(&mut self, instance: SessionInstanceId)
        ensures
            final(self)@ == old(self)@.push(instance@),
    {
        let ghost before = self@;
        self.instances.push(instance);
        assert(self@ =~= before.push(instance@));
    }

    fn copy(&self) -> (instances: Vec<SessionInstanceId>)
        ensures
            instances@.map_values(|instance: SessionInstanceId| instance@) == self@,
    {
        let mut instances: Vec<SessionInstanceId> = Vec::new();
        let mut i: usize = 0;
        while i < self.instances.len()
            invariant
                i <= self.instances@.len(),
                instances@.len() == i,
                forall|j: int| 0 <= j < i ==> (#[trigger] instances@[j])@ == self.instances@[j]@,
            decreases self.instances@.len() - i,
        {
            instances.push(self.instances[i].clone());
            i += 1;
        }
        assert(instances@.map_values(|instance: SessionInstanceId| instance@) =~= self@);
        instances
    }
}

/// The endpoints whose sessions are listened to, and those sessions.
#[derive(Debug)]
pub struct HookRegistry {
    endpoints: Table<SessionList>,
}

/// The sessions by endpoint.
pub open spec fn session_lists(lists: Map<Seq<char>, SessionList>) -> Map<
    Seq<char>,
    Seq<Seq<char>>,
> {
    lists.map_values(|list: SessionList| list@)
}

impl View for HookRegistry {
    type V = Map<Seq<char>, Seq<Seq<char>>>;

    closed spec fn view(&self) -> Map<Seq<char>, Seq<Seq<char>>> {
        session_lists(self.endpoints@)
    }
}

/// Whether no session is taken up twice on one endpoint.
pub open spec fn hooked_once(hooks: Map<Seq<char>, Seq<Seq<char>>>) -> bool {
    forall|endpoint: Seq<char>| #[trigger]
        hooks.contains_key(endpoint) ==> hooks[endpoint].no_duplicates()
}

/// What became of a session that was announced.
#[derive(Debug)]
pub enum Announcement {
    /// The endpoint is not listened to.
    NotHooked,
    /// The session is taken up already.
    Duplicate,
    /// The session is new: this event reports it.
    Created(AudioEvent),
}

impl HookRegistry {
    /// No endpoint is listed twice, and no session twice on one endpoint.
    pub closed spec fn wf(&self) -> bool {
        self.endpoints.wf() && hooked_once(self@)
    }

    /// The endpoints in the order in which they were taken up.
    pub closed spec fn order(&self) -> Seq<Seq<char>> {
        self.endpoints.keys()
    }

    pub fn new() -> (registry: Self)
        ensures
            registry.wf(),
            registry@ == Map::<Seq<char>, Seq<Seq<char>>>::empty(),
            registry.order() == Seq::<Seq<char>>::empty(),
    {
        let registry = HookRegistry { endpoints: Table::new() };
        proof {
            assert(registry@ =~= Map::<Seq<char>, Seq<Seq<char>>>::empty());
            table::keys_are_the_domain(registry.endpoints);
            if registry.order().len() > 0 {
                assert(registry.order().to_set().contains(registry.order()[0]));
            }
            assert(registry.order() =~= Seq::<Seq<char>>::empty());
        }
        registry
    }

    /// Whether an endpoint is listened to.
    pub fn is_hooked(&self, endpoint: &str) -> (yes: bool)
        ensures
            yes == self@.contains_key(endpoint@),
    {
        self.endpoints.contains_key(endpoint)
    }

    /// Takes up an endpoint, without sessions. Gives whether it was new.
    pub fn hook_endpoint(&mut self, endpoint: &str) -> (added: bool)
        requires
            old(self).wf(),
        ensures
            final(self).wf(),
            added == !old(self)@.contains_key(endpoint@),
            final(self)@ == if added {
                old(self)@.insert(endpoint@, Seq::empty())
            } else {
                old(self)@
            },
            final(self).order() == if added {
                old(self).order().push(endpoint@)
            } else {
                old(self).order()
            },
    {
        if self.endpoints.contains_key(endpoint) {
            return false;
        }
        self.endpoints.insert(endpoint.to_owned(), SessionList::new());
        assert(self@ =~= old(self)@.insert(endpoint@, Seq::empty()));
        true
    }

    /// Takes up a session that was announced for an endpoint. One that is taken
    /// up already changes nothing.
    pub fn on_session_created(&mut self, endpoint: &EndpointId, session: SessionInfo) -> (result:
        Announcement)
        requires
            old(self).wf(),
        ensures
            final(self).wf(),
            final(self).order() == old(self).order(),
            if !old(self)@.contains_key(endpoint@) {
                result is NotHooked && final(self)@ == old(self)@
            } else if old(self)@[endpoint@].contains(session.instance@) {
                result is Duplicate && final(self)@ == old(self)@
            } else {
                &&& result == Announcement::Created(
                    AudioEvent::SessionCreated { endpoint: *endpoint, session },
                )
                &&& final(self)@ == old(self)@.insert(
                    endpoint@,
                    old(self)@[endpoint@].push(session.instance@),
                )
            },
    {
        let ghost before = self@;
        match self.endpoints.get(endpoint.as_str()) {
            None => {
                return Announcement::NotHooked;
            },
            Some(list) => {
                assert(list@ == before[endpoint@]);
                if list.contains(session.instance.as_str()) {
                    return Announcement::Duplicate;
                }
            },
        }
        let instance = session.instance.clone();
        if let Some(list) = self.endpoints.get_mut(endpoint.as_str()) {
            list.push(instance);
        }
        proof {
            let after = before.insert(endpoint@, before[endpoint@].push(session.instance@));
            assert(self@ =~= after);
            assert forall|e: Seq<char>| #[trigger] after.contains_key(e) implies after[e].no_duplicates() by {
                assert(before.contains_key(e));
            }
        }
        Announcement::Created(AudioEvent::SessionCreated { endpoint: endpoint.clone(), session })
    }

    /// The sessions on an endpoint; `None` when it is not listened to.
    pub fn sessions_on(&self, endpoint: &str) -> (instances: Option<Vec<SessionInstanceId>>)
        requires
            self.wf(),
        ensures
            match instances {
                Some(list) => self@.contains_key(endpoint@) && list@.map_values(
                    |instance: SessionInstanceId| instance@,
                ) == self@[endpoint@],
                None => !self@.contains_key(endpoint@),
            },
    {
        match self.endpoints.get(endpoint) {
            Some(list) => Some(list.copy()),
            None => None,
        }
    }

    /// The endpoint on which a session is taken up: the first that was taken up
    /// itself.
    pub fn endpoint_of(&self, instance: &str) -> (endpoint: Option<EndpointId>)
        requires
            self.wf(),
        ensures
            match endpoint {
                Some(e) => exists|i: int|
                    {
                        &&& 0 <= i < self.order().len()
                        &&& #[trigger] self.order()[i] == e@
                        &&& self@[e@].contains(instance@)
                        &&& forall|j: int|
                            0 <= j < i ==> !self@[#[trigger] self.order()[j]].contains(instance@)
                    },
                None => forall|j: int|
                    0 <= j < self.order().len() ==> !self@[#[trigger] self.order()[j]].contains(
                        instance@,
                    ),
            },
    {
        let count: usize = self.endpoints.len();
        let mut i: usize = 0;
        while i < count
            invariant
                i <= count,
                count == self.order().len(),
                self.wf(),
                forall|j: int|
                    0 <= j < i ==> !self@[#[trigger] self.order()[j]].contains(instance@),
            decreases count - i,
        {
            let (endpoint, list) = self.endpoints.entry_at(i);
            assert(self@[endpoint@] == list@);
            if list.contains(instance) {
                assert(self.order()[i as int] == endpoint@);
                return Some(endpoint.clone());
            }
            i += 1;
        }
        None
    }

    /// How many sessions are taken up on all endpoints.
    pub fn session_count(&self) -> (count: u64)
        requires
            self.wf(),
            sessions_in(self@, self.order()) <= u64::MAX,
        ensures
            count == sessions_in(self@, self.order()),
    {
        let endpoints: usize = self.endpoints.len();
        let mut count: u64 = 0;
        let mut i: usize = 0;
        let ghost order = self.order();
        assert(order.take(0) =~= Seq::<Seq<char>>::empty());
        while i < endpoints
            invariant
                i <= endpoints,
                endpoints == order.len(),
                order == self.order(),
                self.wf(),
                count == sessions_in(self@, order.take(i as int)),
                sessions_in(self@, order) <= u64::MAX,
            decreases endpoints - i,
        {
            let (endpoint, list) = self.endpoints.entry_at(i);
            proof {
                assert(self@[endpoint@] == list@);
                assert(order.take(i + 1).drop_last() =~= order.take(i as int));
                counting_on(self@, order, i + 1);
            }
            count = count + list.instances.len() as u64;
            i += 1;
        }
        assert(order.take(endpoints as int) =~= order);
        count
    }
}

/// How many sessions are taken up on the listed endpoints.
pub open spec fn sessions_in(hooks: Map<Seq<char>, Seq<Seq<char>>>, endpoints: Seq<Seq<char>>) -> nat
    decreases endpoints.len(),
{
    if endpoints.len() == 0 {
        0
    } else {
        sessions_in(hooks, endpoints.drop_last()) + hooks[endpoints.last()].len()
    }
}

proof fn counting_on(hooks: Map<Seq<char>, Seq<Seq<char>>>, endpoints: Seq<Seq<char>>, n: int)
    requires
        0 <= n <= endpoints.len(),
    ensures
        sessions_in(hooks, endpoints.take(n)) <= sessions_in(hooks, endpoints),
    decreases endpoints.len(),
{
    if n == endpoints.len() {
        assert(endpoints.take(n) =~= endpoints);
    } else {
        counting_on(hooks, endpoints.drop_last(), n);
        assert(endpoints.drop_last().take(n) =~= endpoints.take(n));
    }
}

/// A session read while an endpoint is gone through again.
#[derive(Debug)]
pub struct SessionReading {
    pub instance: SessionInstanceId,
    /// Volume and mute; `None` when they could not be read.
    pub level: Option<(Single, bool)>,
}

/// The event that reports a reading as a change that is not our own.
pub open spec fn reading_event(reading: SessionReading) -> AudioEvent {
    AudioEvent::SessionVolumeChanged {
        instance: reading.instance,
        volume: reading.level->Some_0.0,
        muted: reading.level->Some_0.1,
        own_change: false,
    }
}

/// The events that report again, in order, every session that could be read.
pub fn resync_events(readings: Vec<SessionReading>) -> (events: Vec<AudioEvent>)
    ensures
        events@ == readings@.filter(|reading: SessionReading| reading.level is Some).map_values(
            |reading: SessionReading| reading_event(reading),
        ),
{
    let ghost readable = |reading: SessionReading| reading.level is Some;
    let ghost report = |reading: SessionReading| reading_event(reading);
    let mut events: Vec<AudioEvent> = Vec::new();
    let mut i: usize = 0;
    proof {
        reveal(Seq::filter);
        assert(events@ =~= readings@.take(0).filter(readable).map_values(report));
    }
    while i < readings.len()
        invariant
            i <= readings@.len(),
            readable == (|reading: SessionReading| reading.level is Some),
            report == (|reading: SessionReading| reading_event(reading)),
            events@ == readings@.take(i as int).filter(readable).map_values(report),
        decreases readings@.len() - i,
    {
        let ghost before = readings@.take(i as int).filter(readable);
        proof {
            reveal(Seq::filter);
            assert(readings@.take(i + 1).drop_last() =~= readings@.take(i as int));
        }
        if let Some((volume, muted)) = readings[i].level {
            events.push(
                AudioEvent::SessionVolumeChanged {
                    instance: readings[i].instance.clone(),
                    volume,
                    muted,
                    own_change: false,
                },
            );
            assert(before.push(readings@[i as int]).map_values(report) =~= before.map_values(
                report,
            ).push(reading_event(readings@[i as int])));
        }
        i += 1;
    }
    assert(readings@.take(readings@.len() as int) =~= readings@);
    events
}

// ----- commands

/// What the audio layer does next.
#[derive(Debug)]
pub enum CoreStep {
    Stop,
    ApplySessionVolume { instance: SessionInstanceId, volume: Single, muted: bool },
    SetDefaultEndpoint { id: EndpointId, roles: RoleSet },
    ResyncEndpoint(EndpointId),
}

/// What a command asks for. `None` is the end of the commands: the audio layer
/// then stops, as it does when it is told to.
pub fn core_step(command: Option<CoreCommand>) -> (step: CoreStep)
    ensures
        step == match command {
            None | Some(CoreCommand::Shutdown) => CoreStep::Stop,
            Some(CoreCommand::ApplySessionVolume { instance, volume, muted }) => {
                CoreStep::ApplySessionVolume { instance, volume, muted }
            },
            Some(CoreCommand::SetDefaultEndpoint { id, roles }) => CoreStep::SetDefaultEndpoint {
                id,
                roles,
            },
            Some(CoreCommand::ResyncEndpoint(id)) => CoreStep::ResyncEndpoint(id),
        },
{
    match command {
        None | Some(CoreCommand::Shutdown) => CoreStep::Stop,
        Some(CoreCommand::ApplySessionVolume { instance, volume, muted }) => {
            CoreStep::ApplySessionVolume { instance, volume, muted }
        },
        Some(CoreCommand::SetDefaultEndpoint { id, roles }) => CoreStep::SetDefaultEndpoint {
            id,
            roles,
        },
        Some(CoreCommand::ResyncEndpoint(id)) => CoreStep::ResyncEndpoint(id),
    }
}

/// A session that is announced a second time is not taken up, or reported, a
/// second time.
pub proof fn announced_twice_is_taken_up_once(
    hooks: Map<Seq<char>, Seq<Seq<char>>>,
    endpoint: Seq<char>,
    instance: Seq<char>,
)
    requires
        hooked_once(hooks),
        hooks.contains_key(endpoint),
        !hooks[endpoint].contains(instance),
    ensures
        ({
            let once = hooks.insert(endpoint, hooks[endpoint].push(instance));
            once[endpoint].contains(instance) && hooked_once(once)
        }),
{
    let once = hooks.insert(endpoint, hooks[endpoint].push(instance));
    assert(once[endpoint][hooks[endpoint].len() as int] == instance);
    assert forall|e: Seq<char>| #[trigger] once.contains_key(e) implies once[e].no_duplicates() by {
        assert(hooks.contains_key(e));
    }
}

/// Each raw endpoint state is one bit and stands for one state; every other value
/// stands for none.
pub proof fn raw_endpoint_states(raw: u32)
    ensures
        state_of(raw) == Some(EndpointState::Active) <==> raw == 1,
        state_of(raw) == Some(EndpointState::Disabled) <==> raw == 2,
        state_of(raw) == Some(EndpointState::NotPresent) <==> raw == 4,
        state_of(raw) == Some(EndpointState::Unplugged) <==> raw == 8,
{
}

/// Only the raw values of an active and of an expired session stand for those states;
/// every other counts as inactive.
pub proof fn raw_session_states(raw: i32)
    ensures
        session_state(raw) == SessionState::Active <==> raw == 1,
        session_state(raw) == SessionState::Expired <==> raw == 2,
        session_state(raw) == SessionState::Inactive <==> raw != 1 && raw != 2,
{
}

/// Each raw reason stands for one reason of its own; every unknown one counts as a
/// shutdown of the server.
pub proof fn raw_disconnect_reasons(raw: i32)
    ensures
        disconnect_reason(raw) == DisconnectReason::DeviceRemoval <==> raw == 0,
        disconnect_reason(raw) == DisconnectReason::FormatChanged <==> raw == 2,
        disconnect_reason(raw) == DisconnectReason::SessionLogoff <==> raw == 3,
        disconnect_reason(raw) == DisconnectReason::SessionDisconnected <==> raw == 4,
        disconnect_reason(raw) == DisconnectReason::ExclusiveModeOverride <==> raw == 5,
        disconnect_reason(raw) == DisconnectReason::ServerShutdown <==> raw == 1 || raw < 0 || raw
            > 5,
{
}

/// Whether an error ends in the reason that a call gave.
pub open spec fn gives_reason(result: Result<Option<SessionInfo>, CoreError>, reason: String) -> bool {
    &&& result matches Err(CoreError::Other(message))
    &&& reason@.is_suffix_of(message@)
}

/// An announced session is taken up exactly when every call succeeded, the identifier
/// is a usable string and it is not the session of the system sounds. It is then
/// taken up with its instance, the key of its process, the endpoint, and the volume
/// and the mute that were read.
pub proof fn session_is_taken_up_as_read(
    endpoint: Seq<char>,
    facts: SessionFacts,
    result: Result<Option<SessionInfo>, CoreError>,
)
    requires
        is_hooked_as(endpoint, facts, result),
    ensures
        (result matches Ok(Some(_))) <==> {
            &&& facts.control is Ok
            &&& !facts.system_sounds
            &&& facts.instance matches Ok(Some(_))
            &&& facts.process_id is Ok
            &&& facts.simple_volume is Ok
            &&& facts.registered is Ok
            &&& facts.level is Ok
        },
        result matches Ok(Some(info)) ==> {
            &&& facts.instance->Ok_0 == Some(info.instance) || facts.instance->Ok_0->0@
                == info.instance@
            &&& info.endpoint@ == endpoint
            &&& facts.level == Ok::<(Single, bool), String>((info.volume, info.muted))
            &&& info.process@ == process_key::process_key(
                facts.process_id->Ok_0,
                messages::optional_text(facts.image),
                messages::optional_text(facts.identifier),
            )
        },
        (result matches Ok(None)) <==> facts.control is Ok && facts.system_sounds,
{
}

/// Where a session is not taken up, the error gives the reason of the first call that
/// failed.
pub proof fn first_failed_call_is_reported(
    endpoint: Seq<char>,
    facts: SessionFacts,
    result: Result<Option<SessionInfo>, CoreError>,
)
    requires
        is_hooked_as(endpoint, facts, result),
    ensures
        facts.control is Err ==> gives_reason(result, facts.control->Err_0),
        facts.control is Ok && !facts.system_sounds ==> {
            &&& facts.instance is Err ==> gives_reason(result, facts.instance->Err_0)
            &&& facts.instance is Ok && facts.instance->Ok_0 is None ==> result is Err
            &&& facts.instance is Ok && facts.instance->Ok_0 is Some ==> {
                &&& facts.process_id is Err ==> gives_reason(result, facts.process_id->Err_0)
                &&& facts.process_id is Ok && facts.simple_volume is Err ==> gives_reason(
                    result,
                    facts.simple_volume->Err_0,
                )
                &&& facts.process_id is Ok && facts.simple_volume is Ok && facts.registered is Err
                    ==> gives_reason(result, facts.registered->Err_0)
                &&& facts.process_id is Ok && facts.simple_volume is Ok && facts.registered is Ok
                    && facts.level is Err ==> gives_reason(result, facts.level->Err_0)
            }
        },
{
    if let Err(CoreError::Other(message)) = result {
        let reasons = seq![
            (HookCall::SessionControl, facts.control->Err_0),
            (HookCall::InstanceIdentifier, facts.instance->Err_0),
            (HookCall::ProcessId, facts.process_id->Err_0),
            (HookCall::SimpleVolume, facts.simple_volume->Err_0),
            (HookCall::Register, facts.registered->Err_0),
            (HookCall::ReadVolume, facts.level->Err_0),
        ];
        assert forall|i: int|
            0 <= i < 6 && message@ == hook_failure_text((#[trigger] reasons[i]).0)
                + reasons[i].1@ implies reasons[i].1@.is_suffix_of(message@) by {
            let start = hook_failure_text(reasons[i].0);
            assert(reasons[i].1@ =~= message@.subrange(
                message@.len() - reasons[i].1@.len(),
                message@.len() as int,
            ));
        }
        assert(reasons[0].1 == facts.control->Err_0 && reasons[1].1 == facts.instance->Err_0);
        assert(reasons[2].1 == facts.process_id->Err_0 && reasons[3].1
            == facts.simple_volume->Err_0);
        assert(reasons[4].1 == facts.registered->Err_0 && reasons[5].1 == facts.level->Err_0);
    }
}

/// A device is described exactly when its identifier, its state and its name could be
/// read and the state is a known one. It is then described by what was read.
pub proof fn device_is_described_as_read(
    id: IdRead,
    state: Result<u32, String>,
    name: NameRead,
    view: Result<EndpointView, CoreError>,
)
    requires
        is_view_of(id, state, name, view),
    ensures
        view is Ok <==> {
            &&& id is Text
            &&& name is Text
            &&& state is Ok
            &&& state->Ok_0 == 1 || state->Ok_0 == 2 || state->Ok_0 == 4 || state->Ok_0 == 8
        },
        view matches Ok(v) ==> {
            &&& v.id@ == id->Text_0@
            &&& v.friendly_name@ == name->Text_0@
            &&& v.state == EndpointState::Active <==> state->Ok_0 == 1
            &&& v.state == EndpointState::Disabled <==> state->Ok_0 == 2
            &&& v.state == EndpointState::NotPresent <==> state->Ok_0 == 4
            &&& v.state == EndpointState::Unplugged <==> state->Ok_0 == 8
        },
        id_failure(id) is None <==> id is Text,
        name_failure(name) is None <==> name is Text,
{
}

/// A session that is read again is reported with the volume and the mute that were
/// read, as a change that is not our own.
pub proof fn resync_reports_what_was_read(reading: SessionReading)
    requires
        reading.level is Some,
    ensures
        ({
            let event = reading_event(reading);
            &&& event is SessionVolumeChanged
            &&& event->SessionVolumeChanged_instance == reading.instance
            &&& Some((event->SessionVolumeChanged_volume, event->SessionVolumeChanged_muted))
                == reading.level
            &&& !event->own_change
        }),
{
}

/// A session that is taken up counts once more; the others count as before.
pub proof fn each_session_counts_once(
    hooks: Map<Seq<char>, Seq<Seq<char>>>,
    endpoints: Seq<Seq<char>>,
    endpoint: Seq<char>,
    instance: Seq<char>,
)
    requires
        endpoints.no_duplicates(),
        hooks.contains_key(endpoint),
    ensures
        sessions_in(
            hooks.insert(endpoint, hooks[endpoint].push(instance)),
            endpoints,
        ) == sessions_in(hooks, endpoints) + if endpoints.contains(endpoint) {
            1nat
        } else {
            0
        },
        endpoints.len() == 0 ==> sessions_in(hooks, endpoints) == 0,
    decreases endpoints.len(),
{
    if endpoints.len() > 0 {
        let rest = endpoints.drop_last();
        assert(rest.no_duplicates());
        each_session_counts_once(hooks, rest, endpoint, instance);
        if rest.contains(endpoint) {
            let i = choose|i: int| 0 <= i < rest.len() && rest[i] == endpoint;
            assert(endpoints[i] == endpoint);
        }
        if endpoints.contains(endpoint) && endpoints.last() != endpoint {
            let i = choose|i: int| 0 <= i < endpoints.len() && endpoints[i] == endpoint;
            assert(rest[i] == endpoint);
        }
        assert(endpoints[endpoints.len() - 1] == endpoints.last());
    }
}

/// A call that fails while the audio layer comes up is named in the error.
pub proof fn startup_calls_are_named()
    ensures
        startup_failure_text(StartupCall::Initialize)
            == "CoInitializeEx(COINIT_MULTITHREADED) failed: "@,
        startup_failure_text(StartupCall::EventContext) == "CoCreateGuid failed: "@,
        startup_failure_text(StartupCall::Enumerator)
            == "CoCreateInstance(MMDeviceEnumerator) failed: "@,
        startup_failure_text(StartupCall::RegisterCallback)
            == "RegisterEndpointNotificationCallback failed: "@,
        startup_failure_text(StartupCall::ListEndpoints) == "EnumAudioEndpoints(eRender) failed: "@,
        startup_failure_text(StartupCall::CountEndpoints)
            == "IMMDeviceCollection::GetCount failed: "@,
{
}

/// A call that fails while a session is taken up is named in the error.
pub proof fn hook_calls_are_named()
    ensures
        hook_failure_text(HookCall::SessionControl) == "cast to IAudioSessionControl2 failed: "@,
        hook_failure_text(HookCall::InstanceIdentifier)
            == "GetSessionInstanceIdentifier failed: "@,
        hook_failure_text(HookCall::ProcessId) == "GetProcessId failed: "@,
        hook_failure_text(HookCall::SimpleVolume) == "cast to ISimpleAudioVolume failed: "@,
        hook_failure_text(HookCall::Register) == "RegisterAudioSessionNotification failed: "@,
        hook_failure_text(HookCall::ReadVolume) == "could not read the session volume: "@,
{
}

/// A direction and a role have the numbers that Windows gives them, and no other number
/// stands for one.
pub proof fn raw_directions_and_roles(
    raw: i32,
    flow: Option<DataFlow>,
    role: Option<Role>,
)
    requires
        call_ensures(data_flow, (raw,), flow),
        call_ensures(endpoint_role, (raw,), role),
    ensures
        flow == Some(DataFlow::Render) <==> raw == 0,
        flow == Some(DataFlow::Capture) <==> raw == 1,
        role == Some(Role::Console) <==> raw == 0,
        role == Some(Role::Multimedia) <==> raw == 1,
        role == Some(Role::Communications) <==> raw == 2,
{
}

/// A new default is reported with the direction and the role of its numbers, and with
/// the endpoint as it was told; numbers that stand for nothing are not reported.
pub proof fn default_is_reported_as_told(
    raw_flow: i32,
    raw_role: i32,
    id: Option<EndpointId>,
    event: Option<AudioEvent>,
    flow: Option<DataFlow>,
    role: Option<Role>,
)
    requires
        call_ensures(default_device_changed, (raw_flow, raw_role, id), event),
        call_ensures(data_flow, (raw_flow,), flow),
        call_ensures(endpoint_role, (raw_role,), role),
    ensures
        event is Some <==> flow is Some && role is Some,
        event matches Some(e) ==> e is DefaultEndpointChanged && Some(e->flow) == flow && Some(
            e->role,
        ) == role && e->DefaultEndpointChanged_id == id,
{
}

/// A change counts as our own exactly where it comes with the context that this program
/// gives its changes; one without a context is another's. The volume and the mute are
/// reported as they were told.
pub proof fn only_our_context_is_our_own(
    instance: &SessionInstanceId,
    volume: Single,
    muted: bool,
    observed: Option<u128>,
    ours: Option<u128>,
    event: AudioEvent,
)
    requires
        call_ensures(simple_volume_changed, (instance, volume, muted, observed, ours), event),
    ensures
        event is SessionVolumeChanged,
        event->SessionVolumeChanged_instance == *instance,
        event->SessionVolumeChanged_volume == volume,
        event->SessionVolumeChanged_muted == muted,
        observed is None ==> !event->own_change,
        ours is None ==> !event->own_change,
        observed is Some && ours is Some ==> event->own_change == (observed->0 == ours->0),
{
}

/// A device that appears, goes or changes is reported under its own id, with its name or
/// none, and one without an id is not reported.
pub proof fn device_is_reported_under_its_id(
    id: Option<EndpointId>,
    name: Option<String>,
    raw_state: u32,
    added: Option<AudioEvent>,
    removed: Option<AudioEvent>,
    changed: Option<AudioEvent>,
)
    requires
        call_ensures(device_added, (id, name), added),
        call_ensures(device_removed, (id,), removed),
        call_ensures(device_state_changed, (id, raw_state), changed),
    ensures
        id is None ==> added is None && removed is None && changed is None,
        id matches Some(i) ==> {
            &&& added matches Some(AudioEvent::EndpointAdded { id: e, friendly_name })
            &&& e == i
            &&& name matches Some(n) ==> friendly_name == n
            &&& name is None ==> friendly_name@.len() == 0
        },
        id matches Some(i) ==> removed == Some(AudioEvent::EndpointRemoved(i)),
        changed matches Some(event) ==> event is EndpointStateChanged && Some(
            event->EndpointStateChanged_id,
        ) == id && state_of(raw_state) == Some(event->EndpointStateChanged_state),
        id is Some ==> (changed is Some <==> state_of(raw_state) is Some),
{
}

/// Each command is carried out with what it holds, and the audio layer stops when it is
/// told to and when no more commands can come.
pub proof fn commands_are_carried_out_as_given(command: Option<CoreCommand>, step: CoreStep)
    requires
        call_ensures(core_step, (command,), step),
    ensures
        command is None ==> step is Stop,
        command matches Some(CoreCommand::Shutdown) ==> step is Stop,
        command matches Some(CoreCommand::ApplySessionVolume { instance, volume, muted })
            ==> step == (CoreStep::ApplySessionVolume { instance, volume, muted }),
        command matches Some(CoreCommand::SetDefaultEndpoint { id, roles }) ==> step == (
        CoreStep::SetDefaultEndpoint { id, roles }),
        command matches Some(CoreCommand::ResyncEndpoint(id)) ==> step == CoreStep::ResyncEndpoint(
            id,
        ),
{
}

/// A device is known by the id and the name that were read of it, and what could not be
/// read is told with the call and its reason.
pub proof fn failed_reads_are_told(
    id_read: IdRead,
    name_read: NameRead,
    id: Result<EndpointId, CoreError>,
    name: Result<String, CoreError>,
)
    requires
        call_ensures(device_id, (id_read,), id),
        call_ensures(friendly_name, (name_read,), name),
    ensures
        id is Ok <==> id_read is Text,
        id matches Ok(i) ==> i == id_read->Text_0,
        id matches Err(error) ==> error matches CoreError::DeviceEnumerationFailed(message) && {
            &&& id_read matches IdRead::Failed(e) ==> message@ == "IMMDevice::GetId failed: "@ + e@
            &&& id_read is Null ==> message@ == "IMMDevice::GetId returned a null string"@
            &&& id_read matches IdRead::Invalid(e) ==> message@
                == "IMMDevice::GetId returned invalid UTF-16: "@ + e@
        },
        name is Ok <==> name_read is Text,
        name matches Ok(n) ==> n == name_read->Text_0,
        name matches Err(error) ==> error matches CoreError::DeviceEnumerationFailed(message) && {
            &&& name_read matches NameRead::StoreFailed(e) ==> message@
                == "IMMDevice::OpenPropertyStore failed: "@ + e@
            &&& name_read matches NameRead::ValueFailed(e) ==> message@
                == "IPropertyStore::GetValue(PKEY_Device_FriendlyName) failed: "@ + e@
            &&& name_read is NotText ==> message@
                == "PKEY_Device_FriendlyName was not a string value"@
        },
{
}

} // verus!
