//! What each event and each command does to the state, as functions on models.

use crate::forgotten::Place;
use crate::messages::{
    AudioEvent, CommandModel, DataFlow, EndpointModel, EndpointState, Role, SessionModel,
    SessionState, UiCommand,
};
use crate::messages;
use crate::repository::RepoErrorModel;
use crate::single::Single;
use crate::single;
use crate::store::{Position, ProfileModel, SessionEntry, Settings, StoreModel};
use crate::time::{Moment, Reading, Timestamp};
use crate::time;
use vstd::prelude::*;

verus! {

/// What the state manager holds.
pub struct ManagerModel {
    pub store: StoreModel,
    pub default_endpoint: Option<Seq<char>>,
    pub endpoints: Seq<EndpointModel>,
    pub sessions: Seq<SessionModel>,
    pub revision: nat,
    pub dirty_since: Option<Moment>,
    pub generation: nat,
    pub load_error: Option<RepoErrorModel>,
    pub persist_error: Option<RepoErrorModel>,
    /// The programs that the user made the library forget, by endpoint and
    /// program. This is not stored.
    pub forgotten: Set<Place>,
}

/// A command together with the switch generation it belongs to.
pub struct DispatchModel {
    pub generation: nat,
    pub command: CommandModel,
}

/// A state and the commands that were dispatched on the way to it.
pub struct Outcome {
    pub state: ManagerModel,
    pub dispatches: Seq<DispatchModel>,
}

/// No endpoint and no session is listed twice.
pub open spec fn listed_once(m: ManagerModel) -> bool {
    &&& forall|i: int, j: int|
        0 <= i < j < m.endpoints.len() ==> (#[trigger] m.endpoints[i]).id != (
        #[trigger] m.endpoints[j]).id
    &&& forall|i: int, j: int|
        0 <= i < j < m.sessions.len() ==> (#[trigger] m.sessions[i]).instance != (
        #[trigger] m.sessions[j]).instance
}

/// The state of a manager that was just made around `store`.
pub open spec fn initial(store: StoreModel) -> ManagerModel {
    ManagerModel {
        store,
        default_endpoint: None,
        endpoints: Seq::empty(),
        sessions: Seq::empty(),
        revision: 0,
        dirty_since: None,
        generation: 0,
        load_error: None,
        persist_error: None,
        forgotten: Set::empty(),
    }
}

/// A volume as it is recorded and applied: NaN counts as silence, and anything
/// else is pulled into `0.0..=1.0`.
pub open spec fn clamped_volume(volume: Single) -> Single {
    if single::is_nan(volume) {
        Single { bits: single::ZERO_BITS }
    } else {
        single::clamped(
            volume,
            Single { bits: single::ZERO_BITS },
            Single { bits: single::ONE_BITS },
        )
    }
}

/// The characters that start the key of a program known only by its process id.
pub open spec fn pid_prefix() -> Seq<char> {
    seq!['p', 'i', 'd', ':']
}

/// Whether a process key names a program only by its process id. Windows reuses
/// process ids, so nothing is remembered under such a key.
pub open spec fn is_pid_keyed(process: Seq<char>) -> bool {
    pid_prefix().is_prefix_of(process)
}

/// The state with a change to be saved, noted at `at` unless an earlier change
/// is still waiting.
pub open spec fn marked_dirty(m: ManagerModel, at: Moment) -> ManagerModel {
    ManagerModel {
        dirty_since: match m.dirty_since {
            Some(since) => Some(since),
            None => Some(at),
        },
        ..m
    }
}

/// The place of the endpoint `id` in a list.
pub open spec fn endpoint_place(endpoints: Seq<EndpointModel>, id: Seq<char>) -> Option<int> {
    if exists|i: int| 0 <= i < endpoints.len() && (#[trigger] endpoints[i]).id == id {
        Some(choose|i: int| 0 <= i < endpoints.len() && (#[trigger] endpoints[i]).id == id)
    } else {
        None
    }
}

/// The place of the session `instance` in a list.
pub open spec fn session_place(sessions: Seq<SessionModel>, instance: Seq<char>) -> Option<int> {
    if exists|i: int| 0 <= i < sessions.len() && (#[trigger] sessions[i]).instance == instance {
        Some(
            choose|i: int| 0 <= i < sessions.len() && (#[trigger] sessions[i]).instance == instance,
        )
    } else {
        None
    }
}

/// The list with `endpoint` in it: in the place of the one with the same id, or
/// at the end.
pub open spec fn endpoint_put(
    endpoints: Seq<EndpointModel>,
    endpoint: EndpointModel,
) -> Seq<EndpointModel> {
    match endpoint_place(endpoints, endpoint.id) {
        Some(i) => endpoints.update(i, endpoint),
        None => endpoints.push(endpoint),
    }
}

/// The list with `session` in it: in the place of the one with the same
/// instance, or at the end.
pub open spec fn session_put(
    sessions: Seq<SessionModel>,
    session: SessionModel,
) -> Seq<SessionModel> {
    match session_place(sessions, session.instance) {
        Some(i) => sessions.update(i, session),
        None => sessions.push(session),
    }
}

/// The display name of the endpoint `id` among those present; empty when it is
/// not present.
pub open spec fn live_name(endpoints: Seq<EndpointModel>, id: Seq<char>) -> Seq<char> {
    match endpoint_place(endpoints, id) {
        Some(i) => endpoints[i].friendly_name,
        None => Seq::empty(),
    }
}

/// The display name of the endpoint `id` when nothing but its id is known: the
/// remembered name, or else the id itself.
pub open spec fn known_name(store: StoreModel, id: Seq<char>) -> Seq<char> {
    if store.endpoints.contains_key(id) && store.endpoints[id].friendly_name.len() > 0 {
        store.endpoints[id].friendly_name
    } else {
        id
    }
}

/// The profile of `id` after the endpoint was seen at `at`: created if needed,
/// with the present display name if there is one.
pub open spec fn seen_profile(m: ManagerModel, id: Seq<char>, at: Timestamp) -> ProfileModel {
    let name = live_name(m.endpoints, id);
    let known = m.store.endpoints.contains_key(id);
    ProfileModel {
        friendly_name: if name.len() > 0 {
            name
        } else if known {
            m.store.endpoints[id].friendly_name
        } else {
            Seq::empty()
        },
        last_seen: at,
        sessions: if known {
            m.store.endpoints[id].sessions
        } else {
            Map::empty()
        },
    }
}

/// The state with `profile` as the profile of `id`.
pub open spec fn with_profile(m: ManagerModel, id: Seq<char>, profile: ProfileModel) -> ManagerModel {
    ManagerModel {
        store: StoreModel { endpoints: m.store.endpoints.insert(id, profile), ..m.store },
        ..m
    }
}

/// The state after the endpoint `id` was seen at `at`.
pub open spec fn touched(m: ManagerModel, id: Seq<char>, at: Timestamp) -> ManagerModel {
    with_profile(m, id, seen_profile(m, id, at))
}

/// The state after a volume was recorded for a program on an endpoint, which is
/// then no longer forgotten there. Nothing is recorded for a program known only by
/// its process id.
pub open spec fn recorded(
    m: ManagerModel,
    endpoint: Seq<char>,
    process: Seq<char>,
    volume: Single,
    muted: bool,
    now: Reading,
) -> ManagerModel {
    if is_pid_keyed(process) {
        m
    } else {
        let seen = seen_profile(m, endpoint, now.wall);
        let entry = SessionEntry { volume: clamped_volume(volume), muted, updated_at: now.wall };
        let profile = ProfileModel { sessions: seen.sessions.insert(process, entry), ..seen };
        let known = ManagerModel { forgotten: m.forgotten.remove((endpoint, process)), ..m };
        marked_dirty(with_profile(known, endpoint, profile), now.moment)
    }
}

/// What is remembered of a program on an endpoint.
pub open spec fn stored_entry(
    store: StoreModel,
    endpoint: Seq<char>,
    process: Seq<char>,
) -> Option<SessionEntry> {
    if store.endpoints.contains_key(endpoint) && store.endpoints[endpoint].sessions.contains_key(
        process,
    ) {
        Some(store.endpoints[endpoint].sessions[process])
    } else {
        None
    }
}

/// The command that sets a session to a remembered volume.
pub open spec fn apply_entry(
    session: SessionModel,
    entry: SessionEntry,
    generation: nat,
) -> DispatchModel {
    DispatchModel {
        generation,
        command: CommandModel::ApplySessionVolume {
            instance: session.instance,
            volume: clamped_volume(entry.volume),
            muted: entry.muted,
        },
    }
}

/// A session is set to what is remembered of its program on its endpoint; on a
/// first sighting its present volume is recorded instead.
pub open spec fn restored_or_seeded(
    m: ManagerModel,
    session: SessionModel,
    generation: nat,
    now: Reading,
) -> Outcome {
    match stored_entry(m.store, session.endpoint, session.process) {
        Some(entry) => Outcome {
            state: m,
            dispatches: seq![apply_entry(session, entry, generation)],
        },
        None => Outcome {
            state: recorded(
                m,
                session.endpoint,
                session.process,
                session.volume,
                session.muted,
                now,
            ),
            dispatches: Seq::empty(),
        },
    }
}

/// [`restored_or_seeded`] for each of `sessions` that plays on `endpoint`, one
/// after the other.
pub open spec fn restored_each(
    m: ManagerModel,
    sessions: Seq<SessionModel>,
    endpoint: Seq<char>,
    generation: nat,
    now: Reading,
) -> Outcome
    decreases sessions.len(),
{
    if sessions.len() == 0 {
        Outcome { state: m, dispatches: Seq::empty() }
    } else {
        let before = restored_each(m, sessions.drop_last(), endpoint, generation, now);
        if sessions.last().endpoint == endpoint {
            let here = restored_or_seeded(before.state, sessions.last(), generation, now);
            Outcome { state: here.state, dispatches: before.dispatches + here.dispatches }
        } else {
            before
        }
    }
}

/// The default endpoint changed. Only the multimedia role of the render flow
/// counts, and only a change: the endpoint's sessions are then resynchronised
/// and restored under a new generation.
pub open spec fn default_changed(
    m: ManagerModel,
    flow: DataFlow,
    role: Role,
    id: Option<Seq<char>>,
    now: Reading,
) -> Outcome {
    if flow != DataFlow::Render || role != Role::Multimedia || m.default_endpoint == id {
        Outcome { state: m, dispatches: Seq::empty() }
    } else {
        let generation = m.generation + 1;
        let switched = ManagerModel {
            default_endpoint: id,
            generation,
            revision: m.revision + 1,
            ..m
        };
        match id {
            None => Outcome { state: switched, dispatches: Seq::empty() },
            Some(endpoint) => {
                let seen = touched(switched, endpoint, now.wall);
                let each = restored_each(seen, m.sessions, endpoint, generation, now);
                Outcome {
                    state: marked_dirty(each.state, now.moment),
                    dispatches: seq![
                        DispatchModel {
                            generation,
                            command: CommandModel::ResyncEndpoint(endpoint),
                        },
                    ] + each.dispatches,
                }
            },
        }
    }
}

/// A session was created: it joins the live ones, active, and is restored or
/// seeded. Of a program that the user made the library forget there, it is neither.
pub open spec fn session_created(
    m: ManagerModel,
    session: SessionModel,
    now: Reading,
) -> Outcome {
    let live = SessionModel {
        volume: clamped_volume(session.volume),
        state: SessionState::Active,
        ..session
    };
    let joined = ManagerModel {
        sessions: session_put(m.sessions, live),
        revision: m.revision + 1,
        ..m
    };
    if m.forgotten.contains((session.endpoint, session.process)) {
        Outcome { state: joined, dispatches: Seq::empty() }
    } else {
        restored_or_seeded(joined, live, m.generation, now)
    }
}

/// A session's volume changed. The live view follows; the profile does too,
/// unless the change is the echo of our own.
pub open spec fn volume_changed(
    m: ManagerModel,
    instance: Seq<char>,
    volume: Single,
    muted: bool,
    own_change: bool,
    now: Reading,
) -> ManagerModel {
    match session_place(m.sessions, instance) {
        None => m,
        Some(i) => {
            let session = SessionModel {
                volume: clamped_volume(volume),
                muted,
                ..m.sessions[i]
            };
            let live = ManagerModel {
                sessions: m.sessions.update(i, session),
                revision: m.revision + 1,
                ..m
            };
            if own_change {
                live
            } else {
                recorded(live, session.endpoint, session.process, volume, muted, now)
            }
        },
    }
}

/// A session became active, inactive or expired.
pub open spec fn session_state_changed(
    m: ManagerModel,
    instance: Seq<char>,
    state: SessionState,
) -> ManagerModel {
    match session_place(m.sessions, instance) {
        None => m,
        Some(i) => ManagerModel {
            sessions: m.sessions.update(i, SessionModel { state, ..m.sessions[i] }),
            revision: m.revision + 1,
            ..m
        },
    }
}

/// A session is gone.
pub open spec fn session_disconnected(m: ManagerModel, instance: Seq<char>) -> ManagerModel {
    match session_place(m.sessions, instance) {
        None => m,
        Some(i) => ManagerModel {
            sessions: m.sessions.remove(i),
            revision: m.revision + 1,
            ..m
        },
    }
}

/// An endpoint appeared, active. Its name is the one the device gave, or the
/// best one known.
pub open spec fn endpoint_added(
    m: ManagerModel,
    id: Seq<char>,
    friendly_name: Seq<char>,
) -> ManagerModel {
    let endpoint = EndpointModel {
        id,
        friendly_name: if friendly_name.len() > 0 {
            friendly_name
        } else {
            known_name(m.store, id)
        },
        state: EndpointState::Active,
    };
    ManagerModel {
        endpoints: endpoint_put(m.endpoints, endpoint),
        revision: m.revision + 1,
        ..m
    }
}

/// An endpoint's state changed; one that was not present appears.
pub open spec fn endpoint_state_changed(
    m: ManagerModel,
    id: Seq<char>,
    state: EndpointState,
) -> ManagerModel {
    let endpoint = EndpointModel {
        id,
        friendly_name: match endpoint_place(m.endpoints, id) {
            Some(i) => m.endpoints[i].friendly_name,
            None => known_name(m.store, id),
        },
        state,
    };
    ManagerModel {
        endpoints: endpoint_put(m.endpoints, endpoint),
        revision: m.revision + 1,
        ..m
    }
}

/// The sessions that do not play on `id`.
pub open spec fn sessions_elsewhere(
    sessions: Seq<SessionModel>,
    id: Seq<char>,
) -> Seq<SessionModel> {
    sessions.filter(|session: SessionModel| session.endpoint != id)
}

/// An endpoint is gone, and the sessions on it with it.
pub open spec fn endpoint_removed(m: ManagerModel, id: Seq<char>) -> ManagerModel {
    let place = endpoint_place(m.endpoints, id);
    let sessions = sessions_elsewhere(m.sessions, id);
    ManagerModel {
        endpoints: match place {
            Some(i) => m.endpoints.remove(i),
            None => m.endpoints,
        },
        sessions,
        revision: if place is Some || sessions.len() != m.sessions.len() {
            m.revision + 1
        } else {
            m.revision
        },
        ..m
    }
}

/// What one audio event does.
pub open spec fn audio_step(m: ManagerModel, event: AudioEvent, now: Reading) -> Outcome {
    match event {
        AudioEvent::DefaultEndpointChanged { flow, role, id } => {
            default_changed(m, flow, role, messages::optional_text(id), now)
        },
        AudioEvent::EndpointStateChanged { id, state } => Outcome {
            state: endpoint_state_changed(m, id@, state),
            dispatches: Seq::empty(),
        },
        AudioEvent::EndpointAdded { id, friendly_name } => Outcome {
            state: endpoint_added(m, id@, friendly_name@),
            dispatches: Seq::empty(),
        },
        AudioEvent::EndpointRemoved(id) => Outcome {
            state: endpoint_removed(m, id@),
            dispatches: Seq::empty(),
        },
        AudioEvent::SessionCreated { endpoint, session } => session_created(
            m,
            SessionModel {
                instance: session.instance@,
                process: session.process@,
                endpoint: endpoint@,
                volume: session.volume,
                muted: session.muted,
                state: SessionState::Active,
            },
            now,
        ),
        AudioEvent::SessionVolumeChanged { instance, volume, muted, own_change } => Outcome {
            state: volume_changed(m, instance@, volume, muted, own_change, now),
            dispatches: Seq::empty(),
        },
        AudioEvent::SessionStateChanged { instance, state } => Outcome {
            state: session_state_changed(m, instance@, state),
            dispatches: Seq::empty(),
        },
        AudioEvent::SessionDisconnected { instance, reason } => Outcome {
            state: session_disconnected(m, instance@),
            dispatches: Seq::empty(),
        },
        AudioEvent::CoreError(_) => Outcome { state: m, dispatches: Seq::empty() },
    }
}

/// Whether a session belongs to `process` on `endpoint`.
pub open spec fn belongs(session: SessionModel, endpoint: Seq<char>, process: Seq<char>) -> bool {
    session.endpoint == endpoint && session.process == process
}

/// The best known volume and mute of a program on an endpoint: what is
/// remembered, else what its first live session has, else full and unmuted.
pub open spec fn resolved(m: ManagerModel, endpoint: Seq<char>, process: Seq<char>) -> (
    Single,
    bool,
) {
    match stored_entry(m.store, endpoint, process) {
        Some(entry) => (entry.volume, entry.muted),
        None => {
            let matching = m.sessions.filter(
                |session: SessionModel| belongs(session, endpoint, process),
            );
            if matching.len() > 0 {
                (matching[0].volume, matching[0].muted)
            } else {
                (Single { bits: single::ONE_BITS }, false)
            }
        },
    }
}

/// The sessions after those of a program on an endpoint were set to a volume.
pub open spec fn sessions_set(
    sessions: Seq<SessionModel>,
    endpoint: Seq<char>,
    process: Seq<char>,
    volume: Single,
    muted: bool,
) -> Seq<SessionModel> {
    sessions.map_values(
        |session: SessionModel|
            if belongs(session, endpoint, process) {
                SessionModel { volume, muted, ..session }
            } else {
                session
            },
    )
}

/// The commands that set each session of a program on an endpoint.
pub open spec fn apply_each(
    sessions: Seq<SessionModel>,
    endpoint: Seq<char>,
    process: Seq<char>,
    volume: Single,
    muted: bool,
    generation: nat,
) -> Seq<DispatchModel> {
    sessions.filter(
        |session: SessionModel| belongs(session, endpoint, process),
    ).map_values(
        |session: SessionModel|
            DispatchModel {
                generation,
                command: CommandModel::ApplySessionVolume {
                    instance: session.instance,
                    volume,
                    muted,
                },
            },
    )
}

/// The user set the volume or the mute of a program on an endpoint: that is
/// recorded, shown at once, and applied to every live session of the program
/// there. What was not given stays as it is best known.
pub open spec fn set_by_user(
    m: ManagerModel,
    endpoint: Seq<char>,
    process: Seq<char>,
    volume: Option<Single>,
    muted: Option<bool>,
    now: Reading,
) -> Outcome {
    let current = resolved(m, endpoint, process);
    let new_volume = clamped_volume(
        match volume {
            Some(v) => v,
            None => current.0,
        },
    );
    let new_muted = match muted {
        Some(b) => b,
        None => current.1,
    };
    let noted = recorded(m, endpoint, process, new_volume, new_muted, now);
    let dispatches = apply_each(m.sessions, endpoint, process, new_volume, new_muted, m.generation);
    Outcome {
        state: ManagerModel {
            sessions: sessions_set(m.sessions, endpoint, process, new_volume, new_muted),
            revision: if dispatches.len() > 0 {
                m.revision + 1
            } else {
                m.revision
            },
            ..noted
        },
        dispatches,
    }
}

/// The user made the library forget a program on an endpoint: what is remembered
/// of it there goes, and the next session of it does not bring it back. A volume
/// that the user sets, a change outside, or a switch to the endpoint does.
pub open spec fn forgotten(
    m: ManagerModel,
    endpoint: Seq<char>,
    process: Seq<char>,
    now: Reading,
) -> ManagerModel {
    let left_out = ManagerModel { forgotten: m.forgotten.insert((endpoint, process)), ..m };
    match stored_entry(m.store, endpoint, process) {
        None => left_out,
        Some(_) => {
            let profile = m.store.endpoints[endpoint];
            marked_dirty(
                with_profile(
                    left_out,
                    endpoint,
                    ProfileModel { sessions: profile.sessions.remove(process), ..profile },
                ),
                now.moment,
            )
        },
    }
}

/// The state with other settings, to be saved.
pub open spec fn with_settings(m: ManagerModel, settings: Settings, now: Reading) -> ManagerModel {
    marked_dirty(ManagerModel { store: StoreModel { settings, ..m.store }, ..m }, now.moment)
}

/// What one user command does.
pub open spec fn ui_step(m: ManagerModel, command: UiCommand, now: Reading) -> Outcome {
    match command {
        UiCommand::SwitchEndpoint(id) => Outcome {
            state: m,
            dispatches: seq![
                DispatchModel {
                    generation: m.generation,
                    command: CommandModel::SetDefaultEndpoint {
                        id: id@,
                        roles: m.store.settings.switch_roles,
                    },
                },
            ],
        },
        UiCommand::SetSessionVolume { endpoint, process, volume } => {
            set_by_user(m, endpoint@, process@, Some(volume), None, now)
        },
        UiCommand::SetSessionMute { endpoint, process, muted } => {
            set_by_user(m, endpoint@, process@, None, Some(muted), now)
        },
        UiCommand::ForgetProfileEntry { endpoint, process } => Outcome {
            state: forgotten(m, endpoint@, process@, now),
            dispatches: Seq::empty(),
        },
        UiCommand::SetHotkey(hotkey) => Outcome {
            state: with_settings(m, Settings { hotkey, ..m.store.settings }, now),
            dispatches: Seq::empty(),
        },
        UiCommand::SetAutostart(autostart) => Outcome {
            state: with_settings(m, Settings { autostart, ..m.store.settings }, now),
            dispatches: Seq::empty(),
        },
        UiCommand::SetWidgetVisible(widget_visible) => Outcome {
            state: with_settings(m, Settings { widget_visible, ..m.store.settings }, now),
            dispatches: Seq::empty(),
        },
        UiCommand::SetWidgetPosition(x, y) => Outcome {
            state: with_settings(
                m,
                Settings { widget_position: Some(Position { x, y }), ..m.store.settings },
                now,
            ),
            dispatches: Seq::empty(),
        },
        UiCommand::ToggleOverlay => Outcome { state: m, dispatches: Seq::empty() },
        UiCommand::Quit => Outcome { state: m, dispatches: Seq::empty() },
    }
}

/// Whether the waiting change is old enough to be saved at `now`.
pub open spec fn window_elapsed(m: ManagerModel, now: Moment) -> bool {
    match m.dirty_since {
        Some(since) => now.nanos >= since.nanos + crate::manager::PERSIST_DEBOUNCE,
        None => false,
    }
}

/// The state once what it holds was handed out for saving.
pub open spec fn handed_out(m: ManagerModel) -> ManagerModel {
    ManagerModel { dirty_since: None, ..m }
}

/// The state after a save was reported: a failure is kept, and makes the change
/// wait again from `at`.
pub open spec fn save_reported(
    m: ManagerModel,
    failure: Option<RepoErrorModel>,
    at: Moment,
) -> ManagerModel {
    match failure {
        None => ManagerModel { persist_error: None, ..m },
        Some(error) => marked_dirty(ManagerModel { persist_error: Some(error), ..m }, at),
    }
}

/// Whether the profile of `id` is dropped at `now`: neither present nor the
/// default, and not seen for the number of days that the settings give.
pub open spec fn is_stale(m: ManagerModel, id: Seq<char>, now: Timestamp) -> bool {
    &&& m.store.settings.prune_after_days != 0
    &&& m.store.endpoints.contains_key(id)
    &&& endpoint_place(m.endpoints, id) is None
    &&& m.default_endpoint != Some(id)
    &&& time::since_epoch(now) - time::since_epoch(m.store.endpoints[id].last_seen)
        >= m.store.settings.prune_after_days * 86_400 * 1_000_000_000
}

/// The profiles that are dropped at `now`.
pub open spec fn stale_endpoints(m: ManagerModel, now: Timestamp) -> Set<Seq<char>> {
    m.store.endpoints.dom().filter(|id: Seq<char>| is_stale(m, id, now))
}

/// The state after pruning at `now`, noted as a change at `at` if anything was
/// dropped.
pub open spec fn pruned(m: ManagerModel, now: Timestamp, at: Moment) -> ManagerModel {
    let stale = stale_endpoints(m, now);
    if stale.len() == 0 {
        m
    } else {
        marked_dirty(
            ManagerModel {
                store: StoreModel {
                    endpoints: m.store.endpoints.remove_keys(stale),
                    ..m.store
                },
                ..m
            },
            at,
        )
    }
}

} // verus!
