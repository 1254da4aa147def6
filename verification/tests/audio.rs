use resonance::audio::{
    applied_volume, core_step, data_flow, default_device_changed, device_added, device_removed,
    device_state_changed, endpoint_role, endpoint_state, endpoint_view, hook_failure,
    hook_session, is_own_event_context, resync_events, session_disconnected,
    simple_volume_changed, started, startup_failure, state_changed, Announcement, CoreStartup,
    CoreStep, HookCall, HookRegistry, IdRead, NameRead, SessionFacts, SessionReading, StartupCall,
};
use resonance::messages::{
    AudioEvent, CoreCommand, CoreError, DataFlow, DisconnectReason, EndpointState, Role, RoleSet,
    SessionInfo, SessionState,
};
use resonance::single::Single;

const TEST_ID: &str = "{0.0.0.00000000}.{11111111-2222-3333-4444-555555555555}";
const TEST_INSTANCE: &str = "{0.0.0.00000000}.{1111}|\\Device\\HarddiskVolume4\\a.exe%b{2222}";

const DEVICE_STATE_UNPLUGGED: u32 = 8;
const RENDER: i32 = 0;
const CAPTURE: i32 = 1;
const CONSOLE: i32 = 0;
const MULTIMEDIA: i32 = 1;

fn single(x: f32) -> Single {
    Single { bits: x.to_bits() }
}

fn number(x: Single) -> f32 {
    f32::from_bits(x.bits)
}

fn session(instance: &str, endpoint: &str) -> SessionInfo {
    SessionInfo {
        instance: instance.to_string(),
        process: "a.exe".to_string(),
        endpoint: endpoint.to_string(),
        volume: single(0.5),
        muted: false,
    }
}

#[test]
fn notification_callbacks_enqueue_owned_events() {
    let id = || Some(TEST_ID.to_string());
    let events = [
        device_added(id(), None),
        device_state_changed(id(), DEVICE_STATE_UNPLUGGED),
        default_device_changed(RENDER, MULTIMEDIA, id()),
        default_device_changed(CAPTURE, CONSOLE, None),
        device_removed(id()),
    ];

    match events[0].as_ref().expect("EndpointAdded") {
        AudioEvent::EndpointAdded { id, friendly_name } => {
            assert_eq!(id, TEST_ID);
            assert_eq!(friendly_name, "");
        }
        _ => panic!("expected EndpointAdded"),
    }
    match events[1].as_ref().expect("EndpointStateChanged") {
        AudioEvent::EndpointStateChanged { id, state } => {
            assert_eq!(id, TEST_ID);
            assert_eq!(*state, EndpointState::Unplugged);
        }
        _ => panic!("expected EndpointStateChanged"),
    }
    match events[2].as_ref().expect("DefaultEndpointChanged") {
        AudioEvent::DefaultEndpointChanged { flow, role, id } => {
            assert_eq!(*flow, DataFlow::Render);
            assert_eq!(*role, Role::Multimedia);
            assert_eq!(id.as_deref(), Some(TEST_ID));
        }
        _ => panic!("expected DefaultEndpointChanged"),
    }
    match events[3].as_ref().expect("DefaultEndpointChanged with no device") {
        AudioEvent::DefaultEndpointChanged { flow, role, id } => {
            assert_eq!(*flow, DataFlow::Capture);
            assert_eq!(*role, Role::Console);
            assert!(id.is_none(), "a null device id must become None");
        }
        _ => panic!("expected DefaultEndpointChanged"),
    }
    match events[4].as_ref().expect("EndpointRemoved") {
        AudioEvent::EndpointRemoved(id) => assert_eq!(id, TEST_ID),
        _ => panic!("expected EndpointRemoved"),
    }
}

#[test]
fn callbacks_without_a_known_device_or_value_report_nothing() {
    assert!(device_added(None, None).is_none());
    assert!(device_removed(None).is_none());
    assert!(device_state_changed(None, DEVICE_STATE_UNPLUGGED).is_none());
    assert!(device_state_changed(Some(TEST_ID.to_string()), 16).is_none());
    assert!(default_device_changed(2, MULTIMEDIA, None).is_none());
    assert!(default_device_changed(RENDER, 7, None).is_none());
}

#[test]
fn session_volume_callback_flags_only_our_own_writes() {
    let ours: u128 = 0xfeed_0000_0000_0000_0000_0000_0000_0001;
    let foreign: u128 = 0x0123_4567_89ab_cdef_0123_4567_89ab_cdef;
    let instance = TEST_INSTANCE.to_string();

    let events = [
        simple_volume_changed(&instance, single(0.42), false, Some(ours), Some(ours)),
        simple_volume_changed(&instance, single(0.13), true, Some(foreign), Some(ours)),
        simple_volume_changed(&instance, single(0.99), false, None, Some(ours)),
    ];
    let expected = [(0.42_f32, false, true), (0.13, true, false), (0.99, false, false)];
    for (event, (volume, muted, own_change)) in events.iter().zip(expected) {
        match event {
            AudioEvent::SessionVolumeChanged {
                instance,
                volume: got_volume,
                muted: got_muted,
                own_change: got_own,
            } => {
                assert_eq!(instance, TEST_INSTANCE);
                assert_eq!(number(*got_volume), volume);
                assert_eq!(*got_muted, muted);
                assert_eq!(*got_own, own_change, "own_change for volume {volume}");
            }
            _ => panic!("expected SessionVolumeChanged"),
        }
    }
    assert!(!is_own_event_context(Some(ours), None));
    assert!(!is_own_event_context(None, None));
}

#[test]
fn session_state_and_disconnect_callbacks_map_to_events() {
    let instance = TEST_INSTANCE.to_string();
    match state_changed(&instance, 1) {
        AudioEvent::SessionStateChanged { instance, state } => {
            assert_eq!(instance, TEST_INSTANCE);
            assert_eq!(state, SessionState::Active);
        }
        _ => panic!("expected SessionStateChanged"),
    }
    match session_disconnected(&instance, 2) {
        AudioEvent::SessionDisconnected { instance, reason } => {
            assert_eq!(instance, TEST_INSTANCE);
            assert_eq!(reason, DisconnectReason::FormatChanged);
        }
        _ => panic!("expected SessionDisconnected"),
    }
}

#[test]
fn session_state_conversion_covers_every_documented_value() {
    assert_eq!(SessionState::from(1), SessionState::Active);
    assert_eq!(SessionState::from(0), SessionState::Inactive);
    assert_eq!(SessionState::from(2), SessionState::Expired);
    assert_eq!(
        SessionState::from(99),
        SessionState::Inactive,
        "an unknown state must not be reported as active"
    );
}

#[test]
fn disconnect_reason_conversion_covers_every_documented_value() {
    let pairs = [
        (0, DisconnectReason::DeviceRemoval),
        (1, DisconnectReason::ServerShutdown),
        (2, DisconnectReason::FormatChanged),
        (3, DisconnectReason::SessionLogoff),
        (4, DisconnectReason::SessionDisconnected),
        (5, DisconnectReason::ExclusiveModeOverride),
    ];
    for (raw, expected) in pairs {
        assert_eq!(DisconnectReason::from(raw), expected);
    }
    assert_eq!(DisconnectReason::from(99), DisconnectReason::ServerShutdown);
}

#[test]
fn raw_device_values_are_told_apart() {
    assert_eq!(endpoint_state(1), Some(EndpointState::Active));
    assert_eq!(endpoint_state(2), Some(EndpointState::Disabled));
    assert_eq!(endpoint_state(4), Some(EndpointState::NotPresent));
    assert_eq!(endpoint_state(3), None);
    assert_eq!(data_flow(0), Some(DataFlow::Render));
    assert_eq!(data_flow(2), None);
    assert_eq!(endpoint_role(2), Some(Role::Communications));
    assert_eq!(endpoint_role(-1), None);
}

#[test]
fn a_session_announced_twice_is_taken_up_once() {
    let mut registry = HookRegistry::new();
    let endpoint = TEST_ID.to_string();
    assert!(matches!(
        registry.on_session_created(&endpoint, session("s1", TEST_ID)),
        Announcement::NotHooked
    ));
    assert!(registry.hook_endpoint(TEST_ID));
    assert!(!registry.hook_endpoint(TEST_ID));
    assert!(matches!(
        registry.on_session_created(&endpoint, session("s1", TEST_ID)),
        Announcement::Created(AudioEvent::SessionCreated { .. })
    ));
    assert!(matches!(
        registry.on_session_created(&endpoint, session("s1", TEST_ID)),
        Announcement::Duplicate
    ));
    assert!(registry.is_hooked(TEST_ID));
    assert_eq!(registry.session_count(), 1);
    assert_eq!(registry.endpoint_of("s1").as_deref(), Some(TEST_ID));
    assert_eq!(registry.endpoint_of("s2"), None);
    assert_eq!(registry.sessions_on(TEST_ID), Some(vec!["s1".to_string()]));
    assert_eq!(registry.sessions_on("elsewhere"), None);
}

#[test]
fn a_resync_reports_what_could_be_read() {
    let events = resync_events(vec![
        SessionReading { instance: "a".to_string(), level: Some((single(0.25), true)) },
        SessionReading { instance: "b".to_string(), level: None },
        SessionReading { instance: "c".to_string(), level: Some((single(1.0), false)) },
    ]);
    assert_eq!(events.len(), 2);
    match &events[0] {
        AudioEvent::SessionVolumeChanged { instance, volume, muted, own_change } => {
            assert_eq!(instance, "a");
            assert_eq!(number(*volume), 0.25);
            assert!(*muted);
            assert!(!*own_change, "a resync is not our own write");
        }
        _ => panic!("expected SessionVolumeChanged"),
    }
}

#[test]
fn applied_volumes_are_pulled_into_range() {
    assert_eq!(number(applied_volume(single(1.5))), 1.0);
    assert_eq!(number(applied_volume(single(-1.5))), 0.0);
    assert_eq!(number(applied_volume(single(0.5))), 0.5);
    assert!(number(applied_volume(single(f32::NAN))).is_nan());
}

#[test]
fn failures_of_a_hook_say_which_call_failed() {
    match hook_failure(HookCall::ProcessId, "access denied") {
        CoreError::Other(message) => assert!(message.ends_with("access denied")),
        _ => panic!("expected Other"),
    }
}

fn facts() -> SessionFacts {
    SessionFacts {
        control: Ok(()),
        system_sounds: false,
        instance: Ok(Some(TEST_INSTANCE.to_string())),
        identifier: Some("{1}|\\Device\\Other.exe%b{2}".to_string()),
        process_id: Ok(12),
        image: Some("C:\\Apps\\A.EXE".to_string()),
        simple_volume: Ok(()),
        registered: Ok(()),
        level: Ok((single(0.5), true)),
    }
}

#[test]
fn a_session_is_taken_up_from_what_is_known_of_it() {
    let endpoint = TEST_ID.to_string();
    let info = hook_session(&endpoint, facts()).expect("hooked").expect("a session");
    assert_eq!(info.instance, TEST_INSTANCE);
    assert_eq!(info.process, "a.exe");
    assert_eq!(info.endpoint, TEST_ID);
    assert_eq!((number(info.volume), info.muted), (0.5, true));

    let protected = SessionFacts { image: None, ..facts() };
    let info = hook_session(&endpoint, protected).expect("hooked").expect("a session");
    assert_eq!(info.process, "other.exe");

    let sounds = SessionFacts { system_sounds: true, process_id: Err("?".to_string()), ..facts() };
    assert!(hook_session(&endpoint, sounds).expect("ignored").is_none());
}

#[test]
fn the_first_failing_call_of_a_hook_is_reported() {
    let endpoint = TEST_ID.to_string();
    let no = || "denied".to_string();
    let error = |facts: SessionFacts| match hook_session(&endpoint, facts) {
        Err(CoreError::Other(message)) => message,
        _ => panic!("expected an error"),
    };
    assert_eq!(
        error(SessionFacts { control: Err(no()), system_sounds: true, ..facts() }),
        "cast to IAudioSessionControl2 failed: denied"
    );
    assert_eq!(
        error(SessionFacts { instance: Err(no()), process_id: Err(no()), ..facts() }),
        "GetSessionInstanceIdentifier failed: denied"
    );
    assert_eq!(
        error(SessionFacts { instance: Ok(None), ..facts() }),
        "GetSessionInstanceIdentifier returned no usable string"
    );
    assert_eq!(
        error(SessionFacts { process_id: Err(no()), level: Err(no()), ..facts() }),
        "GetProcessId failed: denied"
    );
    assert_eq!(
        error(SessionFacts { simple_volume: Err(no()), ..facts() }),
        "cast to ISimpleAudioVolume failed: denied"
    );
    assert_eq!(
        error(SessionFacts { registered: Err(no()), ..facts() }),
        "RegisterAudioSessionNotification failed: denied"
    );
    assert_eq!(
        error(SessionFacts { level: Err(no()), ..facts() }),
        "could not read the session volume: denied"
    );
}

#[test]
fn a_device_is_described_or_its_first_failure_reported() {
    let id = || IdRead::Text("{dev}".to_string());
    let name = || NameRead::Text("Speakers".to_string());
    let view = endpoint_view(id(), Ok(4), name()).expect("a view");
    assert_eq!((view.id.as_str(), view.friendly_name.as_str()), ("{dev}", "Speakers"));
    assert_eq!(view.state, EndpointState::NotPresent);

    let error = |view: Result<_, CoreError>| match view {
        Err(CoreError::DeviceEnumerationFailed(message)) => message,
        _ => panic!("expected an error"),
    };
    assert_eq!(
        error(endpoint_view(IdRead::Null, Ok(1), name())),
        "IMMDevice::GetId returned a null string"
    );
    assert_eq!(
        error(endpoint_view(IdRead::Failed("x".to_string()), Ok(1), name())),
        "IMMDevice::GetId failed: x"
    );
    assert_eq!(
        error(endpoint_view(IdRead::Invalid("y".to_string()), Ok(1), name())),
        "IMMDevice::GetId returned invalid UTF-16: y"
    );
    assert_eq!(
        error(endpoint_view(id(), Err("z".to_string()), name())),
        "IMMDevice::GetState failed for {dev}: z"
    );
    assert_eq!(
        error(endpoint_view(id(), Ok(16), name())),
        "IMMDevice::GetState returned unknown state 16 for {dev}"
    );
    assert_eq!(
        error(endpoint_view(id(), Ok(1), NameRead::NotText)),
        "PKEY_Device_FriendlyName was not a string value"
    );
    assert_eq!(
        error(endpoint_view(id(), Ok(1), NameRead::StoreFailed("a".to_string()))),
        "IMMDevice::OpenPropertyStore failed: a"
    );
    assert_eq!(
        error(endpoint_view(id(), Ok(1), NameRead::ValueFailed("b".to_string()))),
        "IPropertyStore::GetValue(PKEY_Device_FriendlyName) failed: b"
    );
}

#[test]
fn failures_of_the_startup_say_which_call_failed() {
    match startup_failure(StartupCall::Enumerator, "x") {
        CoreError::ComInitFailed(message) => {
            assert_eq!(message, "CoCreateInstance(MMDeviceEnumerator) failed: x")
        }
        _ => panic!("expected ComInitFailed"),
    }
    match startup_failure(StartupCall::CountEndpoints, "x") {
        CoreError::DeviceEnumerationFailed(message) => {
            assert_eq!(message, "IMMDeviceCollection::GetCount failed: x")
        }
        _ => panic!("expected DeviceEnumerationFailed"),
    }
    match started(None) {
        Err(CoreError::Other(message)) => {
            assert_eq!(message, "audio core thread exited before reporting initialisation")
        }
        _ => panic!("expected an error"),
    }
    let startup = CoreStartup { endpoints: vec![], default_render: Some(TEST_ID.to_string()) };
    assert_eq!(started(Some(Ok(startup))).expect("up").default_render.as_deref(), Some(TEST_ID));
}

#[test]
fn the_end_of_the_commands_stops_the_core() {
    assert!(matches!(core_step(None), CoreStep::Stop));
    assert!(matches!(core_step(Some(CoreCommand::Shutdown)), CoreStep::Stop));
    match core_step(Some(CoreCommand::SetDefaultEndpoint {
        id: TEST_ID.to_string(),
        roles: RoleSet::all(),
    })) {
        CoreStep::SetDefaultEndpoint { id, roles } => {
            assert_eq!(id, TEST_ID);
            assert_eq!(roles, RoleSet::all());
        }
        _ => panic!("expected SetDefaultEndpoint"),
    }
}
