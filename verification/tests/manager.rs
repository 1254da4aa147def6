use resonance::manager::{Dispatch, PersistResult, StateManager};
use resonance::messages::{
    AudioEvent, CoreCommand, CoreError, DataFlow, DisconnectReason, EndpointState, Role, RoleSet,
    SessionInfo, SessionState, UiCommand,
};
use resonance::repository::{InMemoryRepository, ProfileRepository, RepoError};
use resonance::single::Single;
use resonance::store::{EndpointProfile, ProfileStore, SessionEntry};
use resonance::table::Table;
use resonance::time::{Moment, Reading, Timestamp};

const HEADPHONES: &str = "{headphones}";
const SPEAKERS: &str = "{speakers}";
const SECONDS_PER_DAY: i64 = 86_400;

fn id(s: &str) -> String {
    s.to_string()
}

fn single(x: f32) -> Single {
    Single { bits: x.to_bits() }
}

fn number(x: Single) -> f32 {
    f32::from_bits(x.bits)
}

fn later(from: Moment, millis: u64) -> Moment {
    Moment { nanos: from.nanos + millis * 1_000_000 }
}

fn at(millis: u64) -> Reading {
    Reading {
        moment: Moment { nanos: millis * 1_000_000 },
        wall: Timestamp { secs: 1_700_000_000, nanos: 0 },
    }
}

fn manager() -> StateManager {
    StateManager::from_store(ProfileStore::default())
}

fn default_changed(endpoint: Option<&str>) -> AudioEvent {
    AudioEvent::DefaultEndpointChanged {
        flow: DataFlow::Render,
        role: Role::Multimedia,
        id: endpoint.map(id),
    }
}

fn endpoint_added(endpoint: &str) -> AudioEvent {
    AudioEvent::EndpointAdded { id: id(endpoint), friendly_name: String::new() }
}

fn session_created(endpoint: &str, process: &str, instance: &str, volume: f32) -> AudioEvent {
    AudioEvent::SessionCreated {
        endpoint: id(endpoint),
        session: SessionInfo {
            instance: instance.to_string(),
            process: process.to_string(),
            endpoint: id(endpoint),
            volume: single(volume),
            muted: false,
        },
    }
}

fn volume_changed(instance: &str, volume: f32, muted: bool, own_change: bool) -> AudioEvent {
    AudioEvent::SessionVolumeChanged {
        instance: instance.to_string(),
        volume: single(volume),
        muted,
        own_change,
    }
}

fn disconnected(instance: &str, reason: DisconnectReason) -> AudioEvent {
    AudioEvent::SessionDisconnected { instance: instance.to_string(), reason }
}

/// (instance, volume, muted) of every `ApplySessionVolume` in `dispatches`.
fn applies(dispatches: &[Dispatch]) -> Vec<(String, f32, bool)> {
    dispatches
        .iter()
        .filter_map(|d| match &d.command {
            CoreCommand::ApplySessionVolume { instance, volume, muted } => {
                Some((instance.to_string(), number(*volume), *muted))
            }
            _ => None,
        })
        .collect()
}

fn resyncs(dispatches: &[Dispatch]) -> Vec<String> {
    dispatches
        .iter()
        .filter_map(|d| match &d.command {
            CoreCommand::ResyncEndpoint(endpoint) => Some(endpoint.to_string()),
            _ => None,
        })
        .collect()
}

fn stored(manager: &StateManager, endpoint: &str, process: &str) -> Option<SessionEntry> {
    manager
        .store()
        .endpoints
        .get(endpoint)
        .and_then(|p| p.sessions.get(process))
        .copied()
}

fn stored_volume(manager: &StateManager, endpoint: &str, process: &str) -> f32 {
    number(stored(manager, endpoint, process).expect("stored").volume)
}

/// Repository whose `load` always fails, for the corrupt-store path.
struct FailingRepository;

impl ProfileRepository for FailingRepository {
    fn load(&self) -> Result<ProfileStore, RepoError> {
        Err(RepoError::Deserialize("bad json".into()))
    }
    fn save(&mut self, _store: &ProfileStore) -> Result<(), RepoError> {
        Ok(())
    }
}

#[test]
fn new_loads_the_store_from_the_repository() {
    let mut seed = ProfileStore::default();
    seed.settings.prune_after_days = 7;
    let repo = InMemoryRepository::seeded(seed.clone());

    let manager = StateManager::new(&repo);

    assert!(manager.store().same(&seed));
    assert!(manager.load_error().is_none());
}

#[test]
fn new_falls_back_to_default_store_when_load_fails() {
    let manager = StateManager::new(&FailingRepository);

    assert!(manager.store().same(&ProfileStore::default()));
    assert!(matches!(manager.load_error(), Some(RepoError::Deserialize(_))));
}

#[test]
fn capture_flow_default_change_is_ignored() {
    let mut m = manager();

    let out = m.handle_audio_event(AudioEvent::DefaultEndpointChanged {
        flow: DataFlow::Capture,
        role: Role::Multimedia,
        id: Some(id(HEADPHONES)),
    });

    assert!(out.is_empty());
    assert!(m.default_endpoint().is_none());
    assert_eq!(m.current_switch_generation(), 0);
}

#[test]
fn console_and_communications_roles_do_not_trigger_a_restore() {
    let mut m = manager();

    for role in [Role::Console, Role::Communications] {
        let out = m.handle_audio_event(AudioEvent::DefaultEndpointChanged {
            flow: DataFlow::Render,
            role,
            id: Some(id(HEADPHONES)),
        });
        assert!(out.is_empty());
    }

    assert!(m.default_endpoint().is_none());
    assert_eq!(m.current_switch_generation(), 0);
}

#[test]
fn repeated_default_change_to_the_same_endpoint_restores_once() {
    let mut m = manager();
    m.handle_audio_event(session_created(HEADPHONES, "spotify.exe", "s1", 0.5));

    let first = m.handle_audio_event(default_changed(Some(HEADPHONES)));
    let second = m.handle_audio_event(default_changed(Some(HEADPHONES)));

    assert_eq!(resyncs(&first), vec![HEADPHONES.to_string()]);
    assert!(second.is_empty(), "duplicate notification must be a no-op");
    assert_eq!(m.current_switch_generation(), 1);
}

#[test]
fn first_sighting_seeds_the_profile_instead_of_applying() {
    let mut m = manager();

    let out = m.handle_audio_event(session_created(HEADPHONES, "spotify.exe", "s1", 0.42));

    assert!(applies(&out).is_empty(), "nothing to restore yet");
    let entry = stored(&m, HEADPHONES, "spotify.exe").expect("profile seeded");
    assert_eq!(number(entry.volume), 0.42);
    assert!(!entry.muted);
    assert!(m.is_dirty());
}

#[test]
fn known_session_is_restored_on_session_created() {
    let mut m = manager();
    m.handle_audio_event(session_created(HEADPHONES, "spotify.exe", "s1", 0.30));
    m.handle_audio_event(disconnected("s1", DisconnectReason::SessionDisconnected));

    let out = m.handle_audio_event(session_created(HEADPHONES, "spotify.exe", "s2", 0.90));

    assert_eq!(applies(&out), vec![("s2".to_string(), 0.30, false)]);
    // The seeded value stays authoritative; the fresh session's 0.90 is what is
    // being corrected, not what is recorded.
    assert_eq!(stored_volume(&m, HEADPHONES, "spotify.exe"), 0.30);
}

#[test]
fn switch_restores_stored_entries_and_seeds_unknown_ones() {
    let mut m = manager();
    // Learn spotify on speakers at 0.80, then move the session there.
    m.handle_audio_event(session_created(SPEAKERS, "spotify.exe", "s1", 0.80));
    m.handle_audio_event(disconnected("s1", DisconnectReason::DeviceRemoval));
    m.handle_audio_event(session_created(SPEAKERS, "spotify.exe", "s2", 0.10));
    // discord is live on the endpoint but has no profile entry at switch time,
    // which is the seed branch of the restore loop.
    m.handle_audio_event(session_created(SPEAKERS, "discord.exe", "s3", 0.55));
    m.handle_ui_command(UiCommand::ForgetProfileEntry {
        endpoint: id(SPEAKERS),
        process: "discord.exe".to_string(),
    });

    let out = m.handle_audio_event(default_changed(Some(SPEAKERS)));

    assert_eq!(resyncs(&out), vec![SPEAKERS.to_string()]);
    assert!(
        matches!(out.first().map(|d| &d.command), Some(CoreCommand::ResyncEndpoint(_))),
        "resync must be dispatched before any apply"
    );
    // spotify has a stored entry: restored. discord has none: seeded from
    // whatever it currently is, with no apply.
    assert_eq!(applies(&out), vec![("s2".to_string(), 0.80, false)]);
    assert_eq!(stored_volume(&m, SPEAKERS, "discord.exe"), 0.55);
    assert_eq!(m.default_endpoint(), Some(&id(SPEAKERS)));
}

#[test]
fn sessions_on_other_endpoints_are_not_touched_by_a_switch() {
    let mut m = manager();
    m.handle_audio_event(session_created(HEADPHONES, "spotify.exe", "s1", 0.20));
    m.handle_audio_event(default_changed(Some(SPEAKERS)));

    m.handle_audio_event(default_changed(Some(HEADPHONES)));

    let out = m.handle_audio_event(default_changed(Some(SPEAKERS)));
    assert!(applies(&out).is_empty());
}

#[test]
fn own_change_updates_live_view_but_not_the_profile() {
    let mut m = manager();
    m.handle_audio_event(session_created(HEADPHONES, "spotify.exe", "s1", 0.30));
    let seeded = stored(&m, HEADPHONES, "spotify.exe").unwrap();

    m.handle_audio_event(volume_changed("s1", 0.77, true, true));

    let live = m.live_session("s1").unwrap();
    assert_eq!(number(live.volume), 0.77);
    assert!(live.muted);
    assert_eq!(
        stored(&m, HEADPHONES, "spotify.exe").unwrap(),
        seeded,
        "our own write must not be recorded as user intent"
    );
}

#[test]
fn user_change_is_recorded_in_the_profile() {
    let mut m = manager();
    m.handle_audio_event(session_created(HEADPHONES, "spotify.exe", "s1", 0.30));

    m.handle_audio_event(volume_changed("s1", 0.65, false, false));

    assert_eq!(stored_volume(&m, HEADPHONES, "spotify.exe"), 0.65);
    assert_eq!(number(m.live_session("s1").unwrap().volume), 0.65);
}

#[test]
fn volume_changed_for_an_unknown_session_is_ignored() {
    let mut m = manager();

    m.handle_audio_event(volume_changed("ghost", 0.5, false, false));

    assert!(m.store().endpoints.is_empty());
    assert!(!m.is_dirty());
}

#[test]
fn rapid_double_switch_bumps_the_generation_and_marks_the_first_batch_stale() {
    let mut m = manager();
    m.handle_audio_event(session_created(HEADPHONES, "spotify.exe", "s1", 0.20));
    m.handle_audio_event(session_created(SPEAKERS, "spotify.exe", "s2", 0.80));

    let first = m.handle_audio_event(default_changed(Some(HEADPHONES)));
    let second = m.handle_audio_event(default_changed(Some(SPEAKERS)));

    assert_eq!(m.current_switch_generation(), 2);
    assert!(first.iter().all(|d| d.generation == 1));
    assert!(second.iter().all(|d| d.generation == 2));
    let current = m.current_switch_generation();
    assert!(first.iter().all(|d| d.is_stale(current)));
    assert!(second.iter().all(|d| !d.is_stale(current)));
}

#[test]
fn debounce_holds_for_300ms_and_is_not_extended_by_later_mutations() {
    let mut m = manager();
    let t0 = m.now();
    m.handle_audio_event(session_created(HEADPHONES, "spotify.exe", "s1", 0.20));

    assert!(m.take_persist_request(later(t0, 100)).is_none());

    // A second mutation inside the window must not push the deadline out.
    m.handle_audio_event(volume_changed("s1", 0.25, false, false));

    assert!(m.take_persist_request(later(t0, 250)).is_none());
    let request = m.take_persist_request(later(t0, 500)).expect("window elapsed");
    let profile = request.0.endpoints.get(HEADPHONES).expect("profile");
    assert_eq!(number(profile.sessions.get("spotify.exe").expect("entry").volume), 0.25);
    assert!(!m.is_dirty());
    assert!(m.take_persist_request(later(t0, 10_000)).is_none());
}

#[test]
fn flush_returns_pending_state_regardless_of_the_window() {
    let mut m = manager();
    assert!(m.flush_persist_request().is_none());

    m.handle_audio_event(session_created(HEADPHONES, "spotify.exe", "s1", 0.20));
    assert!(m.flush_persist_request().is_some());
    assert!(!m.is_dirty());
}

#[test]
fn failed_persist_rearms_the_debounce() {
    let mut m = manager();
    m.handle_audio_event(session_created(HEADPHONES, "spotify.exe", "s1", 0.20));
    let t0 = m.now();
    m.take_persist_request(later(t0, 500)).unwrap();
    assert!(!m.is_dirty());

    m.on_persist_result(PersistResult::Failed(RepoError::Io("disk full".into())));

    assert!(m.is_dirty(), "a failed save must be retried");
    assert!(m.persist_error().is_some());

    m.take_persist_request(later(m.now(), 500)).expect("retry");
    m.on_persist_result(PersistResult::Saved);
    assert!(m.persist_error().is_none());
}

#[test]
fn ui_switch_endpoint_uses_the_configured_roles() {
    let mut store = ProfileStore::default();
    store.settings.switch_roles = RoleSet { console: true, multimedia: true, communications: false };
    let mut m = StateManager::from_store(store);

    let out = m.handle_ui_command(UiCommand::SwitchEndpoint(id(SPEAKERS)));

    match out.as_slice() {
        [Dispatch { command: CoreCommand::SetDefaultEndpoint { id: target, roles }, .. }] => {
            assert_eq!(target, &id(SPEAKERS));
            assert!(!roles.communications);
        }
        _ => panic!("expected a single SetDefaultEndpoint"),
    }
    // The switch is not "done" until the core reports it back.
    assert!(m.default_endpoint().is_none());
    assert_eq!(m.current_switch_generation(), 0);
}

#[test]
fn ui_set_session_volume_records_updates_live_view_and_applies_to_all_matching_sessions() {
    let mut m = manager();
    m.handle_audio_event(session_created(HEADPHONES, "chrome.exe", "tab1", 0.50));
    m.handle_audio_event(session_created(HEADPHONES, "chrome.exe", "tab2", 0.50));
    m.handle_audio_event(session_created(SPEAKERS, "chrome.exe", "other", 0.50));

    let out = m.handle_ui_command(UiCommand::SetSessionVolume {
        endpoint: id(HEADPHONES),
        process: "chrome.exe".to_string(),
        volume: single(0.25),
    });

    let mut applied = applies(&out);
    applied.sort_by(|a, b| a.0.cmp(&b.0));
    assert_eq!(
        applied,
        vec![("tab1".to_string(), 0.25, false), ("tab2".to_string(), 0.25, false)]
    );
    assert_eq!(stored_volume(&m, HEADPHONES, "chrome.exe"), 0.25);
    assert_eq!(stored_volume(&m, SPEAKERS, "chrome.exe"), 0.50);
    assert_eq!(number(m.live_session("tab1").unwrap().volume), 0.25);
    assert_eq!(number(m.live_session("other").unwrap().volume), 0.50);
}

#[test]
fn ui_set_session_mute_keeps_the_recorded_volume() {
    let mut m = manager();
    m.handle_audio_event(session_created(HEADPHONES, "spotify.exe", "s1", 0.30));

    let out = m.handle_ui_command(UiCommand::SetSessionMute {
        endpoint: id(HEADPHONES),
        process: "spotify.exe".to_string(),
        muted: true,
    });

    assert_eq!(applies(&out), vec![("s1".to_string(), 0.30, true)]);
    let entry = stored(&m, HEADPHONES, "spotify.exe").unwrap();
    assert_eq!(number(entry.volume), 0.30);
    assert!(entry.muted);
}

#[test]
fn ui_change_for_an_endpoint_with_no_live_session_still_records() {
    let mut m = manager();

    let out = m.handle_ui_command(UiCommand::SetSessionVolume {
        endpoint: id(SPEAKERS),
        process: "spotify.exe".to_string(),
        volume: single(0.10),
    });

    assert!(out.is_empty(), "nothing live to apply to");
    assert_eq!(stored_volume(&m, SPEAKERS, "spotify.exe"), 0.10);
}

#[test]
fn ui_forget_profile_entry_removes_the_record() {
    let mut m = manager();
    m.handle_audio_event(session_created(HEADPHONES, "spotify.exe", "s1", 0.30));
    m.take_persist_request(later(m.now(), 500));

    let out = m.handle_ui_command(UiCommand::ForgetProfileEntry {
        endpoint: id(HEADPHONES),
        process: "spotify.exe".to_string(),
    });

    assert!(out.is_empty());
    assert!(stored(&m, HEADPHONES, "spotify.exe").is_none());
    assert!(m.is_dirty());
}

#[test]
fn ui_forget_unknown_entry_does_not_dirty_the_store() {
    let mut m = manager();

    m.handle_ui_command(UiCommand::ForgetProfileEntry {
        endpoint: id(HEADPHONES),
        process: "nothing.exe".to_string(),
    });

    assert!(!m.is_dirty());
}

#[test]
fn overlay_and_quit_commands_are_no_ops_in_this_layer() {
    let mut m = manager();
    let revision = m.revision();

    assert!(m.handle_ui_command(UiCommand::ToggleOverlay).is_empty());
    assert!(m.handle_ui_command(UiCommand::Quit).is_empty());
    assert_eq!(m.revision(), revision);
    assert!(!m.is_dirty());
}

#[test]
fn endpoint_lifecycle_updates_the_live_view() {
    let mut m = manager();
    m.handle_audio_event(endpoint_added(HEADPHONES));
    m.handle_audio_event(session_created(HEADPHONES, "spotify.exe", "s1", 0.30));

    m.handle_audio_event(AudioEvent::EndpointStateChanged {
        id: id(HEADPHONES),
        state: EndpointState::Unplugged,
    });
    assert_eq!(m.snapshot().endpoints[0].state, EndpointState::Unplugged);

    m.handle_audio_event(AudioEvent::EndpointRemoved(id(HEADPHONES)));
    let snapshot = m.snapshot();
    assert!(snapshot.endpoints.is_empty());
    assert!(snapshot.live_sessions.is_empty());
    // The profile survives the device going away - that is the point.
    assert!(stored(&m, HEADPHONES, "spotify.exe").is_some());
}

#[test]
fn session_state_change_and_disconnect_are_reflected_live() {
    let mut m = manager();
    m.handle_audio_event(session_created(HEADPHONES, "spotify.exe", "s1", 0.30));

    m.handle_audio_event(AudioEvent::SessionStateChanged {
        instance: "s1".to_string(),
        state: SessionState::Inactive,
    });
    assert_eq!(m.live_session("s1").unwrap().state, SessionState::Inactive);

    m.handle_audio_event(disconnected("s1", DisconnectReason::SessionLogoff));
    assert_eq!(m.live_session_count(), 0);
}

#[test]
fn snapshot_is_sorted_and_carries_revision_and_default() {
    let mut m = manager();
    m.handle_audio_event(session_created(HEADPHONES, "zed.exe", "s2", 0.30));
    m.handle_audio_event(session_created(HEADPHONES, "arc.exe", "s1", 0.30));
    m.handle_audio_event(default_changed(Some(HEADPHONES)));

    let snapshot = m.snapshot();
    let processes: Vec<&str> = snapshot.live_sessions.iter().map(|s| s.process.as_str()).collect();
    assert_eq!(processes, vec!["arc.exe", "zed.exe"]);
    assert_eq!(snapshot.default_endpoint, Some(id(HEADPHONES)));
    assert_eq!(snapshot.revision, m.revision());
    assert!(snapshot.revision > 0);
}

#[test]
fn core_error_does_not_touch_the_state() {
    let mut m = manager();
    let revision = m.revision();

    let out = m.handle_audio_event(AudioEvent::CoreError(CoreError::Other("boom".into())));

    assert!(out.is_empty());
    assert_eq!(m.revision(), revision);
    assert!(!m.is_dirty());
}

#[test]
fn prune_drops_stale_profiles_but_keeps_present_ones() {
    let now = manager().reading().wall;
    let ancient = Timestamp { secs: now.secs - 200 * SECONDS_PER_DAY, nanos: now.nanos };
    let mut store = ProfileStore::default();
    for endpoint in [HEADPHONES, SPEAKERS, "{old}"] {
        store.endpoints.insert(
            id(endpoint),
            EndpointProfile {
                friendly_name: endpoint.to_string(),
                last_seen: ancient,
                sessions: Table::new(),
            },
        );
    }
    let mut m = StateManager::from_store(store);
    m.handle_audio_event(endpoint_added(HEADPHONES));
    m.handle_audio_event(default_changed(Some(SPEAKERS)));

    let removed = m.prune(now);

    assert_eq!(removed, 1);
    assert!(m.store().endpoints.contains_key(HEADPHONES));
    assert!(m.store().endpoints.contains_key(SPEAKERS));
    assert!(!m.store().endpoints.contains_key("{old}"));
}

#[test]
fn prune_is_disabled_when_prune_after_days_is_zero() {
    let mut store = ProfileStore::default();
    store.settings.prune_after_days = 0;
    store.endpoints.insert(
        id("{old}"),
        EndpointProfile {
            friendly_name: String::new(),
            last_seen: Timestamp { secs: 0, nanos: 0 },
            sessions: Table::new(),
        },
    );
    let mut m = StateManager::from_store(store);

    let now = m.reading().wall;
    assert_eq!(m.prune(now), 0);
    assert_eq!(m.store().endpoints.len(), 1);
}

#[test]
fn volumes_are_clamped_into_the_unit_range() {
    let mut m = manager();
    m.handle_audio_event(session_created(HEADPHONES, "loud.exe", "s1", 4.2));
    assert_eq!(stored_volume(&m, HEADPHONES, "loud.exe"), 1.0);

    m.handle_audio_event(session_created(HEADPHONES, "nan.exe", "s2", f32::NAN));
    assert_eq!(stored_volume(&m, HEADPHONES, "nan.exe"), 0.0);

    let out = m.handle_ui_command(UiCommand::SetSessionVolume {
        endpoint: id(HEADPHONES),
        process: "loud.exe".to_string(),
        volume: single(-3.0),
    });
    assert_eq!(applies(&out), vec![("s1".to_string(), 0.0, false)]);
    assert_eq!(stored_volume(&m, HEADPHONES, "loud.exe"), 0.0);
}

#[test]
fn switching_records_the_endpoint_as_seen() {
    let mut m = manager();
    m.handle_audio_event(endpoint_added(SPEAKERS));

    m.handle_audio_event(default_changed(Some(SPEAKERS)));

    let profile = m.store().endpoints.get(SPEAKERS).expect("touched");
    assert_eq!(profile.friendly_name, SPEAKERS);
    assert!(m.is_dirty());
}

#[test]
fn losing_the_default_endpoint_is_handled() {
    let mut m = manager();
    m.handle_audio_event(default_changed(Some(HEADPHONES)));

    let out = m.handle_audio_event(default_changed(None));

    assert!(out.is_empty());
    assert!(m.default_endpoint().is_none());
    assert_eq!(m.current_switch_generation(), 2);
}

#[test]
fn a_named_endpoint_is_shown_and_remembered_under_its_name() {
    let mut m = manager();
    m.handle_audio_event(AudioEvent::EndpointAdded {
        id: id(SPEAKERS),
        friendly_name: "Speakers (Realtek)".to_string(),
    });
    m.handle_audio_event(default_changed(Some(SPEAKERS)));

    assert_eq!(m.snapshot().endpoints[0].friendly_name, "Speakers (Realtek)");
    assert_eq!(m.store().endpoints.get(SPEAKERS).unwrap().friendly_name, "Speakers (Realtek)");
}

#[test]
fn a_session_keyed_by_its_process_id_is_shown_but_not_remembered() {
    let mut m = manager();
    let out = m.handle_audio_event(session_created(HEADPHONES, "pid:4242", "s1", 0.30));
    assert!(out.is_empty());
    assert_eq!(m.live_session_count(), 1);
    assert!(stored(&m, HEADPHONES, "pid:4242").is_none());

    let out = m.handle_ui_command(UiCommand::SetSessionVolume {
        endpoint: id(HEADPHONES),
        process: "pid:4242".to_string(),
        volume: single(0.75),
    });
    assert_eq!(applies(&out), vec![("s1".to_string(), 0.75, false)]);
    assert!(stored(&m, HEADPHONES, "pid:4242").is_none());
}

fn forget(endpoint: &str, process: &str) -> UiCommand {
    UiCommand::ForgetProfileEntry { endpoint: id(endpoint), process: process.to_string() }
}

#[test]
fn a_forgotten_entry_is_not_learned_again_from_the_next_session() {
    let mut m = manager();
    m.handle_audio_event(session_created(HEADPHONES, "spotify.exe", "s1", 0.30));
    m.handle_ui_command(forget(HEADPHONES, "spotify.exe"));
    m.handle_audio_event(disconnected("s1", DisconnectReason::SessionDisconnected));

    let out = m.handle_audio_event(session_created(HEADPHONES, "spotify.exe", "s2", 0.90));
    assert!(out.is_empty());
    assert_eq!(m.live_session_count(), 1);
    assert!(stored(&m, HEADPHONES, "spotify.exe").is_none());

    // The same program elsewhere, and another program there, are remembered.
    m.handle_audio_event(session_created(SPEAKERS, "spotify.exe", "s3", 0.40));
    m.handle_audio_event(session_created(HEADPHONES, "game.exe", "s4", 0.50));
    assert_eq!(stored_volume(&m, SPEAKERS, "spotify.exe"), 0.40);
    assert_eq!(stored_volume(&m, HEADPHONES, "game.exe"), 0.50);
}

#[test]
fn forgetting_what_is_not_stored_keeps_it_from_being_learned() {
    let mut m = manager();
    assert!(m.handle_ui_command(forget(HEADPHONES, "spotify.exe")).is_empty());
    m.handle_audio_event(session_created(HEADPHONES, "spotify.exe", "s1", 0.30));
    assert!(stored(&m, HEADPHONES, "spotify.exe").is_none());
}

#[test]
fn a_forgotten_entry_is_learned_again_from_the_next_change() {
    let mut m = manager();
    m.handle_audio_event(session_created(HEADPHONES, "spotify.exe", "s1", 0.30));
    m.handle_ui_command(forget(HEADPHONES, "spotify.exe"));
    m.handle_audio_event(volume_changed("s1", 0.60, true, false));
    assert_eq!(stored_volume(&m, HEADPHONES, "spotify.exe"), 0.60);

    m.handle_ui_command(forget(HEADPHONES, "spotify.exe"));
    m.handle_ui_command(UiCommand::SetSessionVolume {
        endpoint: id(HEADPHONES),
        process: "spotify.exe".to_string(),
        volume: single(0.75),
    });
    assert_eq!(stored_volume(&m, HEADPHONES, "spotify.exe"), 0.75);

    // Once it is remembered again, a new session gets it.
    let out = m.handle_audio_event(session_created(HEADPHONES, "spotify.exe", "s2", 0.10));
    assert_eq!(applies(&out), vec![("s2".to_string(), 0.75, true)]);
}

#[test]
fn a_switch_learns_the_live_sessions_of_a_forgotten_entry() {
    let mut m = manager();
    m.handle_audio_event(session_created(HEADPHONES, "spotify.exe", "s1", 0.30));
    m.handle_ui_command(forget(HEADPHONES, "spotify.exe"));
    m.handle_audio_event(default_changed(Some(HEADPHONES)));
    assert_eq!(stored_volume(&m, HEADPHONES, "spotify.exe"), 0.30);
}

#[test]
fn two_snapshots_without_a_change_in_between_are_the_same() {
    let mut m = manager();
    for (endpoint, instance) in [(SPEAKERS, "s3"), (HEADPHONES, "s1"), (SPEAKERS, "s2")] {
        m.handle_audio_event(endpoint_added(endpoint));
        m.handle_audio_event(session_created(endpoint, "app.exe", instance, 0.5));
    }
    let first = m.snapshot();
    let second = m.snapshot();
    assert_eq!(format!("{first:?}"), format!("{second:?}"));

    // What changes nothing that is shown leaves the revision as it is.
    m.handle_audio_event(AudioEvent::CoreError(CoreError::Other("x".to_string())));
    assert_eq!(format!("{first:?}"), format!("{:?}", m.snapshot()));
    m.handle_audio_event(volume_changed("s1", 0.25, false, false));
    assert_eq!(m.snapshot().revision, first.revision + 1);
}

#[test]
fn the_window_closes_exactly_three_hundred_milliseconds_after_the_first_change() {
    let mut m = manager();
    m.handle_audio_event_at(session_created(HEADPHONES, "a.exe", "s1", 0.20), at(1_000));
    m.handle_audio_event_at(volume_changed("s1", 0.25, false, false), at(1_200));
    let just_before = Moment { nanos: at(1_300).moment.nanos - 1 };
    assert!(m.take_persist_request(just_before).is_none());
    assert!(m.take_persist_request(at(1_300).moment).is_some());
    assert!(m.take_persist_request(at(9_000).moment).is_none());
}

#[test]
fn a_failed_save_opens_a_new_window() {
    let mut m = manager();
    m.handle_audio_event_at(session_created(HEADPHONES, "a.exe", "s1", 0.20), at(0));
    m.take_persist_request(at(300).moment).unwrap();
    m.on_persist_result_at(PersistResult::Failed(RepoError::Io("x".into())), at(400).moment);
    assert!(m.take_persist_request(at(600).moment).is_none());
    assert!(m.take_persist_request(at(700).moment).is_some());
}

#[test]
fn settings_commands_are_stored() {
    let mut m = manager();
    m.handle_ui_command(UiCommand::SetAutostart(true));
    m.handle_ui_command(UiCommand::SetWidgetVisible(false));
    m.handle_ui_command(UiCommand::SetWidgetPosition(single(12.0), single(-7.5)));
    let settings = m.settings();
    assert!(settings.autostart);
    assert!(!settings.widget_visible);
    let position = settings.widget_position.expect("stored");
    assert_eq!((number(position.x), number(position.y)), (12.0, -7.5));
    assert!(m.is_dirty());
}

#[test]
fn pruning_twice_drops_nothing_more_and_spares_the_boundary() {
    let now = Timestamp { secs: 200 * SECONDS_PER_DAY, nanos: 0 };
    let mut store = ProfileStore::default();
    for (endpoint, days) in [("{at}", 90), ("{inside}", 89), ("{future}", -1)] {
        store.endpoints.insert(
            id(endpoint),
            EndpointProfile {
                friendly_name: String::new(),
                last_seen: Timestamp { secs: now.secs - days * SECONDS_PER_DAY, nanos: 0 },
                sessions: Table::new(),
            },
        );
    }
    let mut m = StateManager::from_store(store);
    assert_eq!(m.prune_at(now, at(0).moment), 1);
    assert!(!m.store().endpoints.contains_key("{at}"));
    assert!(m.store().endpoints.contains_key("{inside}"));
    assert!(m.store().endpoints.contains_key("{future}"));
    assert_eq!(m.prune_at(now, at(0).moment), 0);
}
