//! What holds of the state manager over several calls and in every state.

use crate::arrange::Arranged;
use crate::arrange;
use crate::messages::{
    AudioEvent, CommandModel, DataFlow, EndpointModel, EndpointView, Role, SessionModel,
    SessionState, SessionView, Snapshot, UiCommand,
};
use crate::manager;
use crate::messages;
use crate::reducer::{DispatchModel, ManagerModel, Outcome};
use crate::reducer;
use crate::repository::RepoErrorModel;
use crate::single::Single;
use crate::single;
use crate::store::{ProfileModel, SessionEntry, StoreModel};
use crate::text;
use crate::time::{Moment, Reading, Timestamp};
use vstd::prelude::*;

verus! {

// ----- volumes

/// Whether a volume lies in `0.0..=1.0`.
pub open spec fn in_range(volume: Single) -> bool {
    single::le(Single { bits: single::ZERO_BITS }, volume) && single::le(
        volume,
        Single { bits: single::ONE_BITS },
    )
}

/// Clamping brings every volume, NaN included, into the range, and leaves a
/// volume alone that is already there.
pub proof fn clamping_is_into_the_range(volume: Single)
    ensures
        in_range(reducer::clamped_volume(volume)),
        in_range(volume) ==> reducer::clamped_volume(volume) == volume,
        reducer::clamped_volume(reducer::clamped_volume(volume)) == reducer::clamped_volume(volume),
{
}

/// Whether every volume that is shown lies in the range.
pub open spec fn live_volumes_in_range(m: ManagerModel) -> bool {
    forall|i: int| 0 <= i < m.sessions.len() ==> in_range((#[trigger] m.sessions[i]).volume)
}

/// Whether nothing is remembered of a program where it is forgotten.
pub open spec fn forgotten_is_gone(m: ManagerModel) -> bool {
    forall|e: Seq<char>, p: Seq<char>| #[trigger]
        m.forgotten.contains((e, p)) ==> reducer::stored_entry(m.store, e, p) is None
}

/// Whether every volume that is remembered or shown lies in the range.
pub open spec fn volumes_in_range(m: ManagerModel) -> bool {
    &&& forall|e: Seq<char>, p: Seq<char>|
        #![trigger m.store.endpoints[e].sessions[p]]
        m.store.endpoints.contains_key(e) && m.store.endpoints[e].sessions.contains_key(p)
            ==> in_range(m.store.endpoints[e].sessions[p].volume)
    &&& live_volumes_in_range(m)
}

/// Whether every volume that is applied lies in the range.
pub open spec fn applies_in_range(dispatches: Seq<DispatchModel>) -> bool {
    forall|i: int|
        0 <= i < dispatches.len() ==> ((#[trigger] dispatches[i]).command matches
            CommandModel::ApplySessionVolume { volume, .. } ==> in_range(volume))
}

proof fn recording_keeps_volumes_in_range(
    m: ManagerModel,
    endpoint: Seq<char>,
    process: Seq<char>,
    volume: Single,
    muted: bool,
    now: Reading,
)
    requires
        volumes_in_range(m),
    ensures
        volumes_in_range(reducer::recorded(m, endpoint, process, volume, muted, now)),
{
    clamping_is_into_the_range(volume);
}

proof fn restoring_keeps_volumes_in_range(
    m: ManagerModel,
    session: SessionModel,
    generation: nat,
    now: Reading,
)
    requires
        volumes_in_range(m),
    ensures
        volumes_in_range(reducer::restored_or_seeded(m, session, generation, now).state),
        applies_in_range(reducer::restored_or_seeded(m, session, generation, now).dispatches),
{
    recording_keeps_volumes_in_range(
        m,
        session.endpoint,
        session.process,
        session.volume,
        session.muted,
        now,
    );
    if let Some(entry) = reducer::stored_entry(m.store, session.endpoint, session.process) {
        clamping_is_into_the_range(entry.volume);
    }
}

proof fn restoring_each_keeps_volumes_in_range(
    m: ManagerModel,
    sessions: Seq<SessionModel>,
    endpoint: Seq<char>,
    generation: nat,
    now: Reading,
)
    requires
        volumes_in_range(m),
    ensures
        volumes_in_range(
            reducer::restored_each(m, sessions, endpoint, generation, now).state,
        ),
        applies_in_range(
            reducer::restored_each(m, sessions, endpoint, generation, now).dispatches,
        ),
    decreases sessions.len(),
{
    if sessions.len() > 0 {
        let rest = sessions.drop_last();
        restoring_each_keeps_volumes_in_range(m, rest, endpoint, generation, now);
        let before = reducer::restored_each(m, rest, endpoint, generation, now);
        restoring_keeps_volumes_in_range(before.state, sessions.last(), generation, now);
    }
}

proof fn restoring_applies_in_range(
    m: ManagerModel,
    sessions: Seq<SessionModel>,
    endpoint: Seq<char>,
    generation: nat,
    now: Reading,
)
    ensures
        applies_in_range(
            reducer::restored_each(m, sessions, endpoint, generation, now).dispatches,
        ),
        reducer::restored_each(m, sessions, endpoint, generation, now).state.sessions
            == m.sessions,
    decreases sessions.len(),
{
    if sessions.len() > 0 {
        restoring_applies_in_range(m, sessions.drop_last(), endpoint, generation, now);
    }
}

/// Whatever the store holds, no audio event brings a volume out of range into the
/// live view or a command.
pub proof fn audio_events_keep_live_volumes_in_range(
    m: ManagerModel,
    event: AudioEvent,
    now: Reading,
)
    requires
        live_volumes_in_range(m),
    ensures
        live_volumes_in_range(reducer::audio_step(m, event, now).state),
        applies_in_range(reducer::audio_step(m, event, now).dispatches),
{
    let after = reducer::audio_step(m, event, now).state.sessions;
    match event {
        AudioEvent::DefaultEndpointChanged { flow, role, id } => {
            if let Some(endpoint) = messages::optional_text(id) {
                let generation = m.generation + 1;
                let switched = ManagerModel {
                    default_endpoint: Some(endpoint),
                    generation,
                    revision: m.revision + 1,
                    ..m
                };
                let seen = reducer::touched(switched, endpoint, now.wall);
                restoring_applies_in_range(seen, m.sessions, endpoint, generation, now);
            }
        },
        AudioEvent::SessionCreated { endpoint, session } => {
            clamping_is_into_the_range(session.volume);
            assert forall|i: int| 0 <= i < after.len() implies in_range(
                (#[trigger] after[i]).volume,
            ) by {
                if i < m.sessions.len() {
                    assert(in_range(m.sessions[i].volume));
                }
            }
        },
        AudioEvent::SessionVolumeChanged { instance, volume, muted, own_change } => {
            clamping_is_into_the_range(volume);
            assert forall|i: int| 0 <= i < after.len() implies in_range(
                (#[trigger] after[i]).volume,
            ) by {
                assert(in_range(m.sessions[i].volume));
            }
        },
        AudioEvent::SessionStateChanged { instance, state } => {
            assert forall|i: int| 0 <= i < after.len() implies in_range(
                (#[trigger] after[i]).volume,
            ) by {
                assert(in_range(m.sessions[i].volume));
            }
        },
        AudioEvent::SessionDisconnected { instance, reason } => {
            if let Some(gone) = reducer::session_place(m.sessions, instance@) {
                assert forall|i: int| 0 <= i < after.len() implies in_range(
                    (#[trigger] after[i]).volume,
                ) by {
                    let j = if i < gone {
                        i
                    } else {
                        i + 1
                    };
                    assert(in_range(m.sessions[j].volume));
                }
            }
        },
        AudioEvent::EndpointRemoved(id) => {
            let keep = |session: SessionModel| session.endpoint != id@;
            assert forall|i: int| 0 <= i < after.len() implies in_range(
                (#[trigger] after[i]).volume,
            ) by {
                assert(after.contains(after[i]));
                m.sessions.lemma_filter_contains_rev(keep, after[i]);
            }
        },
        _ => {},
    }
}

/// Whatever the store holds, no user command brings a volume out of range into the
/// live view or a command.
pub proof fn user_commands_keep_live_volumes_in_range(
    m: ManagerModel,
    command: UiCommand,
    now: Reading,
)
    requires
        live_volumes_in_range(m),
    ensures
        live_volumes_in_range(reducer::ui_step(m, command, now).state),
        applies_in_range(reducer::ui_step(m, command, now).dispatches),
{
    let after = reducer::ui_step(m, command, now).state.sessions;
    assert forall|i: int| 0 <= i < after.len() implies in_range((#[trigger] after[i]).volume) by {
        assert(in_range(m.sessions[i].volume));
    }
}

/// No audio event brings a volume out of range into the store, the live view or
/// a command.
pub proof fn audio_events_keep_volumes_in_range(m: ManagerModel, event: AudioEvent, now: Reading)
    requires
        volumes_in_range(m),
    ensures
        volumes_in_range(reducer::audio_step(m, event, now).state),
        applies_in_range(reducer::audio_step(m, event, now).dispatches),
{
    audio_events_keep_live_volumes_in_range(m, event, now);
    match event {
        AudioEvent::DefaultEndpointChanged { flow, role, id } => {
            if let Some(endpoint) = messages::optional_text(id) {
                let generation = m.generation + 1;
                let switched = ManagerModel {
                    default_endpoint: Some(endpoint),
                    generation,
                    revision: m.revision + 1,
                    ..m
                };
                let seen = reducer::touched(switched, endpoint, now.wall);
                assert(volumes_in_range(seen));
                restoring_each_keeps_volumes_in_range(
                    seen,
                    m.sessions,
                    endpoint,
                    generation,
                    now,
                );
            }
        },
        AudioEvent::SessionCreated { endpoint, session } => {
            clamping_is_into_the_range(session.volume);
            let live = SessionModel {
                instance: session.instance@,
                process: session.process@,
                endpoint: endpoint@,
                volume: reducer::clamped_volume(session.volume),
                muted: session.muted,
                state: SessionState::Active,
            };
            let joined = ManagerModel {
                sessions: reducer::session_put(m.sessions, live),
                revision: m.revision + 1,
                ..m
            };
            assert(volumes_in_range(joined)) by {
                let after = joined.sessions;
                assert forall|i: int| 0 <= i < after.len() implies in_range(
                    (#[trigger] after[i]).volume,
                ) by {
                    if i < m.sessions.len() && after[i] != live {
                        assert(after[i] == m.sessions[i]);
                    }
                }
            }
            restoring_keeps_volumes_in_range(joined, live, m.generation, now);
        },
        AudioEvent::SessionVolumeChanged { instance, volume, muted, own_change } => {
            clamping_is_into_the_range(volume);
            if let Some(i) = reducer::session_place(m.sessions, instance@) {
                let session = SessionModel {
                    volume: reducer::clamped_volume(volume),
                    muted,
                    ..m.sessions[i]
                };
                let live = ManagerModel {
                    sessions: m.sessions.update(i, session),
                    revision: m.revision + 1,
                    ..m
                };
                assert(volumes_in_range(live));
                recording_keeps_volumes_in_range(
                    live,
                    session.endpoint,
                    session.process,
                    volume,
                    muted,
                    now,
                );
            }
        },
        _ => {},
    }
}

/// No user command brings a volume out of range into the store, the live view or
/// a command.
pub proof fn user_commands_keep_volumes_in_range(m: ManagerModel, command: UiCommand, now: Reading)
    requires
        volumes_in_range(m),
    ensures
        volumes_in_range(reducer::ui_step(m, command, now).state),
        applies_in_range(reducer::ui_step(m, command, now).dispatches),
{
    match command {
        UiCommand::SetSessionVolume { endpoint, process, volume } => {
            setting_keeps_volumes_in_range(m, endpoint@, process@, Some(volume), None, now);
        },
        UiCommand::SetSessionMute { endpoint, process, muted } => {
            setting_keeps_volumes_in_range(m, endpoint@, process@, None, Some(muted), now);
        },
        _ => {},
    }
}

proof fn setting_keeps_volumes_in_range(
    m: ManagerModel,
    endpoint: Seq<char>,
    process: Seq<char>,
    volume: Option<Single>,
    muted: Option<bool>,
    now: Reading,
)
    requires
        volumes_in_range(m),
    ensures
        volumes_in_range(reducer::set_by_user(m, endpoint, process, volume, muted, now).state),
        applies_in_range(
            reducer::set_by_user(m, endpoint, process, volume, muted, now).dispatches,
        ),
{
    let current = reducer::resolved(m, endpoint, process);
    let chosen = match volume {
        Some(v) => v,
        None => current.0,
    };
    let new_volume = reducer::clamped_volume(chosen);
    let new_muted = match muted {
        Some(b) => b,
        None => current.1,
    };
    clamping_is_into_the_range(chosen);
    recording_keeps_volumes_in_range(m, endpoint, process, new_volume, new_muted, now);
    let after = reducer::set_by_user(m, endpoint, process, volume, muted, now);
    assert forall|i: int| 0 <= i < after.state.sessions.len() implies in_range(
        (#[trigger] after.state.sessions[i]).volume,
    ) by {
        assert(in_range(m.sessions[i].volume));
    }
}

// ----- what is remembered

/// What was recorded for a program on an endpoint is what a session of the
/// program there is set to, with the volume clamped.
pub proof fn recorded_is_restored(
    m: ManagerModel,
    session: SessionModel,
    volume: Single,
    muted: bool,
    recorded_at: Reading,
    generation: nat,
    restored_at: Reading,
)
    requires
        !reducer::is_pid_keyed(session.process),
    ensures
        ({
            let noted = reducer::recorded(
                m,
                session.endpoint,
                session.process,
                volume,
                muted,
                recorded_at,
            );
            let restored = reducer::restored_or_seeded(noted, session, generation, restored_at);
            &&& restored.state == noted
            &&& restored.dispatches == seq![
                DispatchModel {
                    generation,
                    command: CommandModel::ApplySessionVolume {
                        instance: session.instance,
                        volume: reducer::clamped_volume(volume),
                        muted,
                    },
                },
            ]
        }),
{
    clamping_is_into_the_range(volume);
}

/// A volume that the user set comes back: the next session of the program on the
/// endpoint is set to it, whatever volume that session starts with.
pub proof fn volume_set_by_user_comes_back(
    m: ManagerModel,
    endpoint: Seq<char>,
    process: Seq<char>,
    volume: Single,
    set_at: Reading,
    session: SessionModel,
    created_at: Reading,
)
    requires
        !reducer::is_pid_keyed(process),
        session.endpoint == endpoint,
        session.process == process,
    ensures
        ({
            let set = reducer::set_by_user(m, endpoint, process, Some(volume), None, set_at);
            let created = reducer::session_created(set.state, session, created_at);
            &&& created.state.store == set.state.store
            &&& created.dispatches == seq![
                DispatchModel {
                    generation: m.generation,
                    command: CommandModel::ApplySessionVolume {
                        instance: session.instance,
                        volume: reducer::clamped_volume(volume),
                        muted: reducer::resolved(m, endpoint, process).1,
                    },
                },
            ]
        }),
{
    clamping_is_into_the_range(volume);
}

/// A volume change that was made outside comes back in the same way.
pub proof fn volume_changed_outside_comes_back(
    m: ManagerModel,
    i: int,
    volume: Single,
    muted: bool,
    changed_at: Reading,
    session: SessionModel,
    created_at: Reading,
)
    requires
        reducer::listed_once(m),
        0 <= i < m.sessions.len(),
        !reducer::is_pid_keyed(m.sessions[i].process),
        session.endpoint == m.sessions[i].endpoint,
        session.process == m.sessions[i].process,
    ensures
        ({
            let changed = reducer::volume_changed(
                m,
                m.sessions[i].instance,
                volume,
                muted,
                false,
                changed_at,
            );
            let created = reducer::session_created(changed, session, created_at);
            &&& created.state.store == changed.store
            &&& created.dispatches == seq![
                DispatchModel {
                    generation: m.generation,
                    command: CommandModel::ApplySessionVolume {
                        instance: session.instance,
                        volume: reducer::clamped_volume(volume),
                        muted,
                    },
                },
            ]
        }),
{
    clamping_is_into_the_range(volume);
    let instance = m.sessions[i].instance;
    let j = choose|j: int|
        0 <= j < m.sessions.len() && (#[trigger] m.sessions[j]).instance == instance;
    assert(i == j);
}

/// Recording for one program on one endpoint leaves what is remembered of every
/// other program, and of the program on every other endpoint, as it is.
pub proof fn recording_touches_one_entry(
    m: ManagerModel,
    endpoint: Seq<char>,
    process: Seq<char>,
    volume: Single,
    muted: bool,
    now: Reading,
    other_endpoint: Seq<char>,
    other_process: Seq<char>,
)
    requires
        other_endpoint != endpoint || other_process != process,
    ensures
        reducer::stored_entry(
            reducer::recorded(m, endpoint, process, volume, muted, now).store,
            other_endpoint,
            other_process,
        ) == reducer::stored_entry(m.store, other_endpoint, other_process),
{
}

/// The echo of our own volume change never changes what is remembered.
pub proof fn own_change_is_not_remembered(
    m: ManagerModel,
    instance: Seq<char>,
    volume: Single,
    muted: bool,
    now: Reading,
)
    ensures
        reducer::volume_changed(m, instance, volume, muted, true, now).store == m.store,
        reducer::volume_changed(m, instance, volume, muted, true, now).dirty_since
            == m.dirty_since,
{
}

/// A session on a first sighting is recorded as it is, and nothing is applied.
pub proof fn first_sighting_is_remembered(m: ManagerModel, session: SessionModel, now: Reading)
    requires
        !reducer::is_pid_keyed(session.process),
        reducer::stored_entry(m.store, session.endpoint, session.process) is None,
        !m.forgotten.contains((session.endpoint, session.process)),
    ensures
        ({
            let created = reducer::session_created(m, session, now);
            &&& created.dispatches == Seq::<DispatchModel>::empty()
            &&& reducer::stored_entry(created.state.store, session.endpoint, session.process)
                == Some(
                SessionEntry {
                    volume: reducer::clamped_volume(session.volume),
                    muted: session.muted,
                    updated_at: now.wall,
                },
            )
            &&& created.state.dirty_since is Some
        }),
{
    clamping_is_into_the_range(session.volume);
}

/// After a program was forgotten on an endpoint nothing is remembered of it
/// there, and the next session of it does not bring it back: nothing is stored and
/// nothing is applied.
pub proof fn forgotten_entry_stays_forgotten(
    m: ManagerModel,
    session: SessionModel,
    forgotten_at: Reading,
    created_at: Reading,
)
    ensures
        ({
            let gone = reducer::forgotten(m, session.endpoint, session.process, forgotten_at);
            let created = reducer::session_created(gone, session, created_at);
            &&& reducer::stored_entry(gone.store, session.endpoint, session.process) is None
            &&& created.state.store == gone.store
            &&& created.state.dirty_since == gone.dirty_since
            &&& created.state.forgotten == gone.forgotten
            &&& created.dispatches == Seq::<DispatchModel>::empty()
        }),
{
}

/// Forgetting a program on an endpoint leaves what is remembered of every other
/// program, and of the program on every other endpoint, as it is.
pub proof fn forgetting_touches_one_entry(
    m: ManagerModel,
    endpoint: Seq<char>,
    process: Seq<char>,
    now: Reading,
    other_endpoint: Seq<char>,
    other_process: Seq<char>,
)
    requires
        other_endpoint != endpoint || other_process != process,
    ensures
        ({
            let gone = reducer::forgotten(m, endpoint, process, now);
            &&& reducer::stored_entry(gone.store, other_endpoint, other_process)
                == reducer::stored_entry(m.store, other_endpoint, other_process)
            &&& gone.forgotten.contains((other_endpoint, other_process)) == m.forgotten.contains(
                (other_endpoint, other_process),
            )
        }),
{
}

proof fn restoring_each_ends_forgetting(
    m: ManagerModel,
    sessions: Seq<SessionModel>,
    endpoint: Seq<char>,
    generation: nat,
    now: Reading,
)
    requires
        forgotten_is_gone(m),
    ensures
        ({
            let after = reducer::restored_each(m, sessions, endpoint, generation, now).state;
            &&& forgotten_is_gone(after)
            &&& forall|e: Seq<char>, p: Seq<char>| #[trigger]
                after.forgotten.contains((e, p)) ==> m.forgotten.contains((e, p))
            &&& forall|j: int|
                0 <= j < sessions.len() && (#[trigger] sessions[j]).endpoint == endpoint
                    && !reducer::is_pid_keyed(sessions[j].process) ==> reducer::stored_entry(
                    after.store,
                    endpoint,
                    sessions[j].process,
                ) is Some
        }),
    decreases sessions.len(),
{
    if sessions.len() > 0 {
        let rest = sessions.drop_last();
        restoring_each_ends_forgetting(m, rest, endpoint, generation, now);
        let before = reducer::restored_each(m, rest, endpoint, generation, now).state;
        let after = reducer::restored_each(m, sessions, endpoint, generation, now).state;
        assert forall|j: int|
            0 <= j < sessions.len() && (#[trigger] sessions[j]).endpoint == endpoint
                && !reducer::is_pid_keyed(sessions[j].process) implies reducer::stored_entry(
            after.store,
            endpoint,
            sessions[j].process,
        ) is Some by {
            if j < rest.len() {
                assert(rest[j] == sessions[j]);
                assert(reducer::stored_entry(before.store, endpoint, sessions[j].process) is Some);
            }
        }
    }
}

/// A switch to an endpoint learns a forgotten program again that plays there.
pub proof fn switch_ends_forgetting(m: ManagerModel, endpoint: Seq<char>, now: Reading, j: int)
    requires
        forgotten_is_gone(m),
        m.default_endpoint != Some(endpoint),
        0 <= j < m.sessions.len(),
        m.sessions[j].endpoint == endpoint,
        !reducer::is_pid_keyed(m.sessions[j].process),
    ensures
        ({
            let after = reducer::default_changed(
                m,
                DataFlow::Render,
                Role::Multimedia,
                Some(endpoint),
                now,
            ).state;
            &&& reducer::stored_entry(after.store, endpoint, m.sessions[j].process) is Some
            &&& !after.forgotten.contains((endpoint, m.sessions[j].process))
        }),
{
    let generation = m.generation + 1;
    let moved = ManagerModel {
        default_endpoint: Some(endpoint),
        generation,
        revision: m.revision + 1,
        ..m
    };
    let seen = reducer::touched(moved, endpoint, now.wall);
    assert(forgotten_is_gone(seen));
    restoring_each_ends_forgetting(seen, m.sessions, endpoint, generation, now);
}

/// A device that goes away keeps its profile.
pub proof fn removed_endpoint_keeps_its_profile(m: ManagerModel, id: Seq<char>)
    ensures
        reducer::endpoint_removed(m, id).store == m.store,
        reducer::endpoint_removed(m, id).dirty_since == m.dirty_since,
{
}

/// A device that goes away takes its sessions, and no others, off the live view.
pub proof fn removed_endpoint_has_no_sessions(m: ManagerModel, id: Seq<char>, session: SessionModel)
    ensures
        reducer::endpoint_removed(m, id).sessions.contains(session) <==> m.sessions.contains(
            session,
        ) && session.endpoint != id,
{
    let keep = |s: SessionModel| s.endpoint != id;
    let after = m.sessions.filter(keep);
    if after.contains(session) {
        m.sessions.lemma_filter_contains_rev(keep, session);
        let i = choose|i: int| 0 <= i < after.len() && after[i] == session;
        m.sessions.lemma_filter_pred(keep, i);
    }
    if m.sessions.contains(session) && session.endpoint != id {
        let i = choose|i: int| 0 <= i < m.sessions.len() && m.sessions[i] == session;
        m.sessions.lemma_filter_contains(keep, i);
    }
}

// ----- programs known only by their process id

/// Whether nothing is remembered under a process id.
pub open spec fn no_pid_entries(store: StoreModel) -> bool {
    forall|e: Seq<char>, p: Seq<char>|
        #![trigger store.endpoints[e].sessions.contains_key(p)]
        store.endpoints.contains_key(e) && store.endpoints[e].sessions.contains_key(p)
            ==> !reducer::is_pid_keyed(p)
}

/// A session known only by its process id joins the live view and leaves no
/// trace in the store; it gives the writer nothing to do.
pub proof fn pid_keyed_session_is_not_remembered(m: ManagerModel, session: SessionModel, now: Reading)
    requires
        reducer::is_pid_keyed(session.process),
    ensures
        reducer::session_created(m, session, now).state.store == m.store,
        reducer::session_created(m, session, now).state.dirty_since == m.dirty_since,
        reducer::session_created(m, session, now).state.sessions == reducer::session_put(
            m.sessions,
            SessionModel {
                volume: reducer::clamped_volume(session.volume),
                state: SessionState::Active,
                ..session
            },
        ),
{
}

proof fn restoring_each_stores_no_pid(
    m: ManagerModel,
    sessions: Seq<SessionModel>,
    endpoint: Seq<char>,
    generation: nat,
    now: Reading,
)
    requires
        no_pid_entries(m.store),
    ensures
        no_pid_entries(
            reducer::restored_each(m, sessions, endpoint, generation, now).state.store,
        ),
    decreases sessions.len(),
{
    if sessions.len() > 0 {
        restoring_each_stores_no_pid(m, sessions.drop_last(), endpoint, generation, now);
    }
}

/// No audio event makes the store remember anything under a process id.
pub proof fn audio_events_store_no_pid(m: ManagerModel, event: AudioEvent, now: Reading)
    requires
        no_pid_entries(m.store),
    ensures
        no_pid_entries(reducer::audio_step(m, event, now).state.store),
{
    if let AudioEvent::DefaultEndpointChanged { flow, role, id } = event {
        if let Some(endpoint) = messages::optional_text(id) {
            let generation = m.generation + 1;
            let switched = ManagerModel {
                default_endpoint: Some(endpoint),
                generation,
                revision: m.revision + 1,
                ..m
            };
            let seen = reducer::touched(switched, endpoint, now.wall);
            restoring_each_stores_no_pid(seen, m.sessions, endpoint, generation, now);
        }
    }
}

/// No user command makes the store remember anything under a process id.
pub proof fn user_commands_store_no_pid(m: ManagerModel, command: UiCommand, now: Reading)
    requires
        no_pid_entries(m.store),
    ensures
        no_pid_entries(reducer::ui_step(m, command, now).state.store),
{
}

// ----- switching

/// Whether a notification makes the endpoint of a switch the default: it is for
/// the multimedia role of the render flow, and the default is another one.
pub open spec fn is_switch(
    m: ManagerModel,
    flow: DataFlow,
    role: Role,
    id: Option<Seq<char>>,
) -> bool {
    flow == DataFlow::Render && role == Role::Multimedia && m.default_endpoint != id
}

/// One physical switch is restored once: a repeated notification, and those for
/// the other roles, change nothing and dispatch nothing.
pub proof fn one_restore_per_switch(
    m: ManagerModel,
    id: Option<Seq<char>>,
    first: Reading,
    role: Role,
    again: Reading,
)
    ensures
        ({
            let switched = reducer::default_changed(
                m,
                DataFlow::Render,
                Role::Multimedia,
                id,
                first,
            ).state;
            reducer::default_changed(switched, DataFlow::Render, role, id, again) == (Outcome {
                state: switched,
                dispatches: Seq::empty(),
            })
        }),
{
    if let Some(endpoint) = id {
        let generation = m.generation + 1;
        let moved = ManagerModel {
            default_endpoint: id,
            generation,
            revision: m.revision + 1,
            ..m
        };
        let seen = reducer::touched(moved, endpoint, first.wall);
        restoring_keeps_everything_else(seen, m.sessions, endpoint, generation, first);
    }
}

/// Restoring changes nothing but the store, what is forgotten and the waiting
/// change.
proof fn restoring_keeps_everything_else(
    m: ManagerModel,
    sessions: Seq<SessionModel>,
    endpoint: Seq<char>,
    generation: nat,
    now: Reading,
)
    ensures
        ({
            let after = reducer::restored_each(m, sessions, endpoint, generation, now).state;
            after == (ManagerModel {
                store: after.store,
                dirty_since: after.dirty_since,
                forgotten: after.forgotten,
                ..m
            })
        }),
        ({
            let after = reducer::restored_each(m, sessions, endpoint, generation, now).state;
            &&& after.store.settings == m.store.settings
            &&& m.dirty_since is Some ==> after.dirty_since == m.dirty_since
            &&& m.store.endpoints.dom().subset_of(after.store.endpoints.dom())
        }),
    decreases sessions.len(),
{
    if sessions.len() > 0 {
        restoring_keeps_everything_else(m, sessions.drop_last(), endpoint, generation, now);
    }
}

/// A switch counts the generation up by one, whatever else it does.
pub proof fn switch_counts_the_generation_up(
    m: ManagerModel,
    flow: DataFlow,
    role: Role,
    id: Option<Seq<char>>,
    now: Reading,
)
    ensures
        ({
            let after = reducer::default_changed(m, flow, role, id, now).state;
            if is_switch(m, flow, role, id) {
                after.generation == m.generation + 1 && after.revision == m.revision + 1
                    && after.default_endpoint == id
            } else {
                after == m
            }
        }),
{
    if is_switch(m, flow, role, id) {
        if let Some(endpoint) = id {
            let generation = m.generation + 1;
            let moved = ManagerModel {
                default_endpoint: id,
                generation,
                revision: m.revision + 1,
                ..m
            };
            let seen = reducer::touched(moved, endpoint, now.wall);
            restoring_keeps_everything_else(seen, m.sessions, endpoint, generation, now);
        }
    }
}

/// Whether every dispatch belongs to `generation`.
pub open spec fn all_of_generation(dispatches: Seq<DispatchModel>, generation: nat) -> bool {
    forall|i: int| 0 <= i < dispatches.len() ==> (#[trigger] dispatches[i]).generation == generation
}

proof fn restoring_dispatches_one_generation(
    m: ManagerModel,
    sessions: Seq<SessionModel>,
    endpoint: Seq<char>,
    generation: nat,
    now: Reading,
)
    ensures
        all_of_generation(
            reducer::restored_each(m, sessions, endpoint, generation, now).dispatches,
            generation,
        ),
    decreases sessions.len(),
{
    if sessions.len() > 0 {
        restoring_dispatches_one_generation(m, sessions.drop_last(), endpoint, generation, now);
    }
}

/// What an audio event dispatches belongs to the generation the state is then
/// in, and the generation never goes back.
pub proof fn audio_events_dispatch_the_newest_generation(
    m: ManagerModel,
    event: AudioEvent,
    now: Reading,
)
    ensures
        reducer::audio_step(m, event, now).state.generation >= m.generation,
        all_of_generation(
            reducer::audio_step(m, event, now).dispatches,
            reducer::audio_step(m, event, now).state.generation,
        ),
{
    if let AudioEvent::DefaultEndpointChanged { flow, role, id } = event {
        let target = messages::optional_text(id);
        switch_counts_the_generation_up(m, flow, role, target, now);
        if let Some(endpoint) = target {
            let generation = m.generation + 1;
            let moved = ManagerModel {
                default_endpoint: target,
                generation,
                revision: m.revision + 1,
                ..m
            };
            let seen = reducer::touched(moved, endpoint, now.wall);
            restoring_dispatches_one_generation(seen, m.sessions, endpoint, generation, now);
        }
    }
}

/// What a user command dispatches belongs to the generation the state is in, and
/// the command leaves the generation alone.
pub proof fn user_commands_dispatch_the_newest_generation(
    m: ManagerModel,
    command: UiCommand,
    now: Reading,
)
    ensures
        reducer::ui_step(m, command, now).state.generation == m.generation,
        all_of_generation(reducer::ui_step(m, command, now).dispatches, m.generation),
{
}

/// After a rapid second switch everything that the first one dispatched is stale,
/// and nothing that the second one dispatched is.
pub proof fn second_switch_supersedes_the_first(
    m: ManagerModel,
    first: Option<Seq<char>>,
    first_at: Reading,
    second: Option<Seq<char>>,
    second_at: Reading,
)
    requires
        m.default_endpoint != first,
        first != second,
    ensures
        ({
            let one = reducer::default_changed(
                m,
                DataFlow::Render,
                Role::Multimedia,
                first,
                first_at,
            );
            let two = reducer::default_changed(
                one.state,
                DataFlow::Render,
                Role::Multimedia,
                second,
                second_at,
            );
            &&& forall|i: int|
                0 <= i < one.dispatches.len() ==> (#[trigger] one.dispatches[i]).generation
                    < two.state.generation
            &&& forall|i: int|
                0 <= i < two.dispatches.len() ==> !((#[trigger] two.dispatches[i]).generation
                    < two.state.generation)
        }),
{
    let one = reducer::default_changed(m, DataFlow::Render, Role::Multimedia, first, first_at);
    switch_counts_the_generation_up(m, DataFlow::Render, Role::Multimedia, first, first_at);
    switch_counts_the_generation_up(
        one.state,
        DataFlow::Render,
        Role::Multimedia,
        second,
        second_at,
    );
    dispatches_of_a_switch(m, first, first_at);
    dispatches_of_a_switch(one.state, second, second_at);
}

proof fn dispatches_of_a_switch(m: ManagerModel, id: Option<Seq<char>>, now: Reading)
    requires
        m.default_endpoint != id,
    ensures
        all_of_generation(
            reducer::default_changed(m, DataFlow::Render, Role::Multimedia, id, now).dispatches,
            m.generation + 1,
        ),
{
    if let Some(endpoint) = id {
        let generation = m.generation + 1;
        let moved = ManagerModel {
            default_endpoint: id,
            generation,
            revision: m.revision + 1,
            ..m
        };
        let seen = reducer::touched(moved, endpoint, now.wall);
        restoring_dispatches_one_generation(seen, m.sessions, endpoint, generation, now);
    }
}

/// Whether a dispatch sets the session `instance`.
pub open spec fn sets_session(dispatch: DispatchModel, instance: Seq<char>) -> bool {
    dispatch.command matches CommandModel::ApplySessionVolume { instance: set, .. } && set
        == instance
}

/// Whether a dispatch sets one of the sessions that play on `endpoint`.
pub open spec fn sets_one_on(
    dispatch: DispatchModel,
    sessions: Seq<SessionModel>,
    endpoint: Seq<char>,
) -> bool {
    exists|j: int|
        0 <= j < sessions.len() && (#[trigger] sessions[j]).endpoint == endpoint && sets_session(
            dispatch,
            sessions[j].instance,
        )
}

proof fn restored_sessions(
    m: ManagerModel,
    sessions: Seq<SessionModel>,
    endpoint: Seq<char>,
    generation: nat,
    now: Reading,
    i: int,
)
    requires
        0 <= i < reducer::restored_each(m, sessions, endpoint, generation, now).dispatches.len(),
    ensures
        sets_one_on(
            reducer::restored_each(m, sessions, endpoint, generation, now).dispatches[i],
            sessions,
            endpoint,
        ),
    decreases sessions.len(),
{
    if sessions.len() > 0 {
        let rest = sessions.drop_last();
        let before = reducer::restored_each(m, rest, endpoint, generation, now);
        let all = reducer::restored_each(m, sessions, endpoint, generation, now);
        if i < before.dispatches.len() {
            restored_sessions(m, rest, endpoint, generation, now, i);
            assert(all.dispatches[i] == before.dispatches[i]);
            let j = choose|j: int|
                0 <= j < rest.len() && (#[trigger] rest[j]).endpoint == endpoint && sets_session(
                    before.dispatches[i],
                    rest[j].instance,
                );
            assert(sessions[j] == rest[j]);
        } else {
            assert(sets_session(all.dispatches[i], sessions[sessions.len() - 1].instance));
        }
    }
}

/// A switch asks for a resynchronisation of the endpoint first and once, and then
/// sets only sessions that play on it.
pub proof fn switch_touches_only_its_endpoint(m: ManagerModel, endpoint: Seq<char>, now: Reading)
    requires
        m.default_endpoint != Some(endpoint),
    ensures
        ({
            let dispatches = reducer::default_changed(
                m,
                DataFlow::Render,
                Role::Multimedia,
                Some(endpoint),
                now,
            ).dispatches;
            &&& dispatches.len() > 0
            &&& dispatches[0].command == CommandModel::ResyncEndpoint(endpoint)
            &&& forall|i: int|
                1 <= i < dispatches.len() ==> sets_one_on(
                    #[trigger] dispatches[i],
                    m.sessions,
                    endpoint,
                )
        }),
{
    let generation = m.generation + 1;
    let moved = ManagerModel {
        default_endpoint: Some(endpoint),
        generation,
        revision: m.revision + 1,
        ..m
    };
    let seen = reducer::touched(moved, endpoint, now.wall);
    let each = reducer::restored_each(seen, m.sessions, endpoint, generation, now).dispatches;
    let dispatches = reducer::default_changed(
        m,
        DataFlow::Render,
        Role::Multimedia,
        Some(endpoint),
        now,
    ).dispatches;
    assert forall|i: int| 1 <= i < dispatches.len() implies sets_one_on(
        #[trigger] dispatches[i],
        m.sessions,
        endpoint,
    ) by {
        restored_sessions(seen, m.sessions, endpoint, generation, now, i - 1);
        assert(dispatches[i] == each[i - 1]);
    }
}

proof fn remembered_sessions_are_restored(
    m: ManagerModel,
    sessions: Seq<SessionModel>,
    endpoint: Seq<char>,
    generation: nat,
    now: Reading,
)
    ensures
        forall|p: Seq<char>|
            #![trigger m.store.endpoints[endpoint].sessions[p]]
            reducer::stored_entry(m.store, endpoint, p) is Some ==> reducer::stored_entry(
                reducer::restored_each(m, sessions, endpoint, generation, now).state.store,
                endpoint,
                p,
            ) == reducer::stored_entry(m.store, endpoint, p),
        forall|j: int|
            0 <= j < sessions.len() && (#[trigger] sessions[j]).endpoint == endpoint
                && reducer::stored_entry(m.store, endpoint, sessions[j].process) is Some
                ==> reducer::restored_each(
                m,
                sessions,
                endpoint,
                generation,
                now,
            ).dispatches.contains(
                reducer::apply_entry(
                    sessions[j],
                    reducer::stored_entry(m.store, endpoint, sessions[j].process)->Some_0,
                    generation,
                ),
            ),
    decreases sessions.len(),
{
    if sessions.len() > 0 {
        let rest = sessions.drop_last();
        remembered_sessions_are_restored(m, rest, endpoint, generation, now);
        let before = reducer::restored_each(m, rest, endpoint, generation, now);
        let all = reducer::restored_each(m, sessions, endpoint, generation, now);
        assert forall|p: Seq<char>|
            #![trigger m.store.endpoints[endpoint].sessions[p]]
            reducer::stored_entry(m.store, endpoint, p) is Some implies reducer::stored_entry(
            all.state.store,
            endpoint,
            p,
        ) == reducer::stored_entry(m.store, endpoint, p) by {
            let kept = m.store.endpoints[endpoint].sessions[p];
            assert(reducer::stored_entry(before.state.store, endpoint, p) == Some(kept));
        }
        assert forall|j: int|
            0 <= j < sessions.len() && (#[trigger] sessions[j]).endpoint == endpoint
                && reducer::stored_entry(
                m.store,
                endpoint,
                sessions[j].process,
            ) is Some implies all.dispatches.contains(
            reducer::apply_entry(
                sessions[j],
                reducer::stored_entry(m.store, endpoint, sessions[j].process)->Some_0,
                generation,
            ),
        ) by {
            let entry = m.store.endpoints[endpoint].sessions[sessions[j].process];
            let apply = reducer::apply_entry(sessions[j], entry, generation);
            if j < rest.len() {
                assert(rest[j] == sessions[j]);
                assert(before.dispatches.contains(apply));
                let k = choose|k: int|
                    0 <= k < before.dispatches.len() && before.dispatches[k] == apply;
                assert(all.dispatches[k] == apply);
            } else {
                assert(reducer::stored_entry(before.state.store, endpoint, sessions[j].process)
                    == Some(entry));
                assert(all.dispatches[all.dispatches.len() - 1] == apply);
            }
        }
    }
}

/// A switch sets every session on the endpoint whose program is remembered there
/// to exactly what is remembered.
pub proof fn switch_restores_what_is_remembered(
    m: ManagerModel,
    endpoint: Seq<char>,
    now: Reading,
    j: int,
)
    requires
        m.default_endpoint != Some(endpoint),
        0 <= j < m.sessions.len(),
        m.sessions[j].endpoint == endpoint,
        reducer::stored_entry(m.store, endpoint, m.sessions[j].process) is Some,
    ensures
        reducer::default_changed(
            m,
            DataFlow::Render,
            Role::Multimedia,
            Some(endpoint),
            now,
        ).dispatches.contains(
            reducer::apply_entry(
                m.sessions[j],
                reducer::stored_entry(m.store, endpoint, m.sessions[j].process)->Some_0,
                m.generation + 1,
            ),
        ),
{
    let generation = m.generation + 1;
    let moved = ManagerModel {
        default_endpoint: Some(endpoint),
        generation,
        revision: m.revision + 1,
        ..m
    };
    let seen = reducer::touched(moved, endpoint, now.wall);
    let entry = m.store.endpoints[endpoint].sessions[m.sessions[j].process];
    let apply = reducer::apply_entry(m.sessions[j], entry, generation);
    assert(reducer::stored_entry(seen.store, endpoint, m.sessions[j].process) == Some(entry));
    remembered_sessions_are_restored(seen, m.sessions, endpoint, generation, now);
    let each = reducer::restored_each(seen, m.sessions, endpoint, generation, now).dispatches;
    assert(each.contains(apply));
    let k = choose|k: int| 0 <= k < each.len() && each[k] == apply;
    let dispatches = reducer::default_changed(
        m,
        DataFlow::Render,
        Role::Multimedia,
        Some(endpoint),
        now,
    ).dispatches;
    assert(dispatches[k + 1] == apply);
}

// ----- saving

/// A change that waits to be saved keeps its time, whatever audio events follow:
/// a burst of changes cannot postpone the save.
pub proof fn audio_events_do_not_move_the_deadline(m: ManagerModel, event: AudioEvent, now: Reading)
    requires
        m.dirty_since is Some,
    ensures
        reducer::audio_step(m, event, now).state.dirty_since == m.dirty_since,
{
    if let AudioEvent::DefaultEndpointChanged { flow, role, id } = event {
        if let Some(endpoint) = messages::optional_text(id) {
            let generation = m.generation + 1;
            let moved = ManagerModel {
                default_endpoint: Some(endpoint),
                generation,
                revision: m.revision + 1,
                ..m
            };
            let seen = reducer::touched(moved, endpoint, now.wall);
            restoring_keeps_everything_else(seen, m.sessions, endpoint, generation, now);
        }
    }
}

/// A change that waits to be saved keeps its time, whatever user commands follow.
pub proof fn user_commands_do_not_move_the_deadline(
    m: ManagerModel,
    command: UiCommand,
    now: Reading,
)
    requires
        m.dirty_since is Some,
    ensures
        reducer::ui_step(m, command, now).state.dirty_since == m.dirty_since,
{
}

/// A store that an audio event changed waits to be saved.
pub proof fn audio_events_note_what_they_change(m: ManagerModel, event: AudioEvent, now: Reading)
    ensures
        reducer::audio_step(m, event, now).state.store == m.store || reducer::audio_step(
            m,
            event,
            now,
        ).state.dirty_since is Some,
{
}

/// A store that a user command changed waits to be saved.
pub proof fn user_commands_note_what_they_change(m: ManagerModel, command: UiCommand, now: Reading)
    ensures
        reducer::ui_step(m, command, now).state.store == m.store || reducer::ui_step(
            m,
            command,
            now,
        ).state.dirty_since is Some,
{
}

/// A failed save is tried again: the change waits from the moment of the report,
/// and is handed out once the window has passed.
pub proof fn failed_save_is_retried(
    m: ManagerModel,
    error: RepoErrorModel,
    at: Moment,
    later: Moment,
)
    requires
        m.dirty_since is None,
        later.nanos >= at.nanos + crate::manager::PERSIST_DEBOUNCE,
    ensures
        reducer::save_reported(m, Some(error), at).dirty_since == Some(at),
        reducer::save_reported(m, Some(error), at).persist_error == Some(error),
        reducer::window_elapsed(reducer::save_reported(m, Some(error), at), later),
{
}

/// What was handed out is not handed out again.
pub proof fn handed_out_once(m: ManagerModel, now: Moment)
    ensures
        !reducer::window_elapsed(reducer::handed_out(m), now),
        reducer::handed_out(m).store == m.store,
{
}

// ----- what the user interface sees

/// Whether the user interface would show the same.
pub open spec fn looks_the_same(a: ManagerModel, b: ManagerModel) -> bool {
    a.default_endpoint == b.default_endpoint && a.endpoints == b.endpoints && a.sessions
        == b.sessions
}

/// The revision never goes back and moves on by one with every audio event that
/// changes what the user interface shows.
pub proof fn audio_events_count_the_revision(m: ManagerModel, event: AudioEvent, now: Reading)
    ensures
        ({
            let after = reducer::audio_step(m, event, now).state;
            after.revision == m.revision + 1 || (after.revision == m.revision && looks_the_same(
                after,
                m,
            ))
        }),
{
    match event {
        AudioEvent::DefaultEndpointChanged { flow, role, id } => {
            switch_counts_the_generation_up(m, flow, role, messages::optional_text(id), now);
        },
        AudioEvent::EndpointRemoved(id) => {
            let keep = |session: SessionModel| session.endpoint != id@;
            if m.sessions.filter(keep).len() == m.sessions.len() {
                filtering_nothing_out(m.sessions, keep);
            }
        },
        _ => {},
    }
}

proof fn filtering_nothing_out(sessions: Seq<SessionModel>, keep: spec_fn(SessionModel) -> bool)
    requires
        sessions.filter(keep).len() == sessions.len(),
    ensures
        sessions.filter(keep) == sessions,
    decreases sessions.len(),
{
    reveal(Seq::filter);
    if sessions.len() > 0 {
        let rest = sessions.drop_last();
        rest.lemma_filter_len(keep);
        filtering_nothing_out(rest, keep);
        assert(sessions =~= rest.push(sessions.last()));
    } else {
        assert(sessions.filter(keep) =~= sessions);
    }
}

/// An error of the audio layer changes nothing at all.
pub proof fn core_error_changes_nothing(m: ManagerModel, event: AudioEvent, now: Reading)
    requires
        event is CoreError,
    ensures
        reducer::audio_step(m, event, now) == (Outcome { state: m, dispatches: Seq::empty() }),
{
}

/// The revision never goes back and moves on by one with every user command that
/// changes what the user interface shows.
pub proof fn user_commands_count_the_revision(m: ManagerModel, command: UiCommand, now: Reading)
    ensures
        ({
            let after = reducer::ui_step(m, command, now).state;
            after.revision == m.revision + 1 || (after.revision == m.revision && looks_the_same(
                after,
                m,
            ))
        }),
{
    match command {
        UiCommand::SetSessionVolume { endpoint, process, volume } => {
            setting_counts_the_revision(m, endpoint@, process@, Some(volume), None, now);
        },
        UiCommand::SetSessionMute { endpoint, process, muted } => {
            setting_counts_the_revision(m, endpoint@, process@, None, Some(muted), now);
        },
        _ => {},
    }
}

proof fn setting_counts_the_revision(
    m: ManagerModel,
    endpoint: Seq<char>,
    process: Seq<char>,
    volume: Option<Single>,
    muted: Option<bool>,
    now: Reading,
)
    ensures
        ({
            let after = reducer::set_by_user(m, endpoint, process, volume, muted, now);
            after.state.revision == m.revision + 1 || (after.state.revision == m.revision
                && looks_the_same(after.state, m))
        }),
{
    let after = reducer::set_by_user(m, endpoint, process, volume, muted, now);
    let matches = |session: SessionModel| reducer::belongs(session, endpoint, process);
    if after.dispatches.len() == 0 {
        assert forall|i: int| 0 <= i < m.sessions.len() implies after.state.sessions[i]
            == #[trigger] m.sessions[i] by {
            if matches(m.sessions[i]) {
                m.sessions.lemma_filter_contains(matches, i);
                assert(m.sessions.filter(matches).len() == 0);
            }
        }
        assert(after.state.sessions =~= m.sessions);
    }
}

/// Two lists of sessions that hold the same, each in order, are the same list: a
/// snapshot does not depend on the order in which sessions came.
pub proof fn session_order_is_unique(a: Seq<SessionModel>, b: Seq<SessionModel>)
    requires
        arrange::in_order::<SessionView>(a),
        arrange::in_order::<SessionView>(b),
        a.to_multiset() == b.to_multiset(),
        forall|i: int, j: int|
            0 <= i < j < a.len() ==> (#[trigger] a[i]).instance != (#[trigger] a[j]).instance,
    ensures
        a == b,
    decreases a.len(),
{
    broadcast use vstd::seq_lib::group_to_multiset_ensures;

    if a.len() == 0 {
        assert(a.to_multiset().len() == a.len());
        assert(b.to_multiset().len() == b.len());
        assert(a =~= b);
    } else {
        let first = a[0];
        assert(b.to_multiset().count(first) > 0);
        let k = choose|k: int| 0 <= k < b.len() && b[k] == first;
        let head = b[0];
        assert(a.to_multiset().count(head) > 0);
        let l = choose|l: int| 0 <= l < a.len() && a[l] == head;
        if k != 0 && l != 0 {
            assert(arrange::session_precedes(head, first));
            assert(arrange::session_precedes(first, head));
            if first.process == head.process {
                text::le_is_antisymmetric(first.instance, head.instance);
            } else {
                text::le_is_antisymmetric(first.process, head.process);
            }
            assert(a[0].instance == a[l].instance);
            assert(false);
        }
        assert(first == head);
        let rest_a = a.remove(0);
        let rest_b = b.remove(0);
        assert forall|i: int, j: int| 0 <= i < j < rest_a.len() implies (
        #[trigger] rest_a[i]).instance != (#[trigger] rest_a[j]).instance by {
            assert(a[i + 1].instance != a[j + 1].instance);
        }
        assert forall|i: int, j: int| 0 <= i < j < rest_a.len() implies arrange::session_precedes(
            #[trigger] rest_a[i],
            #[trigger] rest_a[j],
        ) by {
            assert(SessionView::precedes(a[i + 1], a[j + 1]));
        }
        assert forall|i: int, j: int| 0 <= i < j < rest_b.len() implies arrange::session_precedes(
            #[trigger] rest_b[i],
            #[trigger] rest_b[j],
        ) by {
            assert(SessionView::precedes(b[i + 1], b[j + 1]));
        }
        session_order_is_unique(rest_a, rest_b);
        assert(a =~= seq![first] + rest_a);
        assert(b =~= seq![first] + rest_b);
    }
}

/// Two lists of endpoints that hold the same, each in order, are the same list.
pub proof fn endpoint_order_is_unique(a: Seq<EndpointModel>, b: Seq<EndpointModel>)
    requires
        arrange::in_order::<EndpointView>(a),
        arrange::in_order::<EndpointView>(b),
        a.to_multiset() == b.to_multiset(),
        forall|i: int, j: int|
            0 <= i < j < a.len() ==> (#[trigger] a[i]).id != (#[trigger] a[j]).id,
    ensures
        a == b,
    decreases a.len(),
{
    broadcast use vstd::seq_lib::group_to_multiset_ensures;

    if a.len() == 0 {
        assert(a.to_multiset().len() == a.len());
        assert(b.to_multiset().len() == b.len());
        assert(a =~= b);
    } else {
        let first = a[0];
        assert(b.to_multiset().count(first) > 0);
        let k = choose|k: int| 0 <= k < b.len() && b[k] == first;
        let head = b[0];
        assert(a.to_multiset().count(head) > 0);
        let l = choose|l: int| 0 <= l < a.len() && a[l] == head;
        if k != 0 && l != 0 {
            assert(arrange::endpoint_precedes(head, first));
            assert(arrange::endpoint_precedes(first, head));
            if first.friendly_name == head.friendly_name {
                text::le_is_antisymmetric(first.id, head.id);
            } else {
                text::le_is_antisymmetric(first.friendly_name, head.friendly_name);
            }
            assert(a[0].id == a[l].id);
            assert(false);
        }
        assert(first == head);
        let rest_a = a.remove(0);
        let rest_b = b.remove(0);
        assert forall|i: int, j: int| 0 <= i < j < rest_a.len() implies (#[trigger] rest_a[i]).id
            != (#[trigger] rest_a[j]).id by {
            assert(a[i + 1].id != a[j + 1].id);
        }
        assert forall|i: int, j: int| 0 <= i < j < rest_a.len() implies arrange::endpoint_precedes(
            #[trigger] rest_a[i],
            #[trigger] rest_a[j],
        ) by {
            assert(EndpointView::precedes(a[i + 1], a[j + 1]));
        }
        assert forall|i: int, j: int| 0 <= i < j < rest_b.len() implies arrange::endpoint_precedes(
            #[trigger] rest_b[i],
            #[trigger] rest_b[j],
        ) by {
            assert(EndpointView::precedes(b[i + 1], b[j + 1]));
        }
        endpoint_order_is_unique(rest_a, rest_b);
        assert(a =~= seq![first] + rest_a);
        assert(b =~= seq![first] + rest_b);
    }
}

/// Whether two snapshots show the same, item by item.
pub open spec fn same_snapshot(a: Snapshot, b: Snapshot) -> bool {
    &&& messages::endpoint_models(a.endpoints@) == messages::endpoint_models(b.endpoints@)
    &&& messages::session_models(a.live_sessions@) == messages::session_models(b.live_sessions@)
    &&& messages::optional_text(a.default_endpoint) == messages::optional_text(b.default_endpoint)
    &&& a.revision == b.revision
}

/// Two snapshots of one state are the same: the rows of the user interface do not
/// jump while nothing changes.
pub proof fn snapshots_of_one_state_are_the_same(m: ManagerModel, a: Snapshot, b: Snapshot)
    requires
        reducer::listed_once(m),
        manager::shows(a, m),
        manager::shows(b, m),
    ensures
        same_snapshot(a, b),
{
    same_rows(m, a, m, b);
}

/// What two snapshots show is the same where the states look the same.
proof fn same_rows(before: ManagerModel, a: Snapshot, after: ManagerModel, b: Snapshot)
    requires
        reducer::listed_once(before),
        looks_the_same(after, before),
        manager::shows(a, before),
        manager::shows(b, after),
    ensures
        messages::endpoint_models(a.endpoints@) == messages::endpoint_models(b.endpoints@),
        messages::session_models(a.live_sessions@) == messages::session_models(b.live_sessions@),
        messages::optional_text(a.default_endpoint) == messages::optional_text(b.default_endpoint),
{
    let endpoints = messages::endpoint_models(a.endpoints@);
    let sessions = messages::session_models(a.live_sessions@);
    rearranged_endpoints_are_listed_once(before.endpoints, endpoints);
    rearranged_sessions_are_listed_once(before.sessions, sessions);
    endpoint_order_is_unique(endpoints, messages::endpoint_models(b.endpoints@));
    session_order_is_unique(sessions, messages::session_models(b.live_sessions@));
}

proof fn rearranged_endpoints_are_listed_once(listed: Seq<EndpointModel>, other: Seq<EndpointModel>)
    requires
        listed.to_multiset() == other.to_multiset(),
        forall|i: int, j: int|
            0 <= i < j < listed.len() ==> (#[trigger] listed[i]).id != (#[trigger] listed[j]).id,
    ensures
        forall|i: int, j: int|
            0 <= i < j < other.len() ==> (#[trigger] other[i]).id != (#[trigger] other[j]).id,
{
    broadcast use vstd::seq_lib::group_to_multiset_ensures;

    listed.lemma_multiset_has_no_duplicates();
    other.lemma_multiset_has_no_duplicates_conv();
    assert forall|i: int, j: int| 0 <= i < j < other.len() implies (#[trigger] other[i]).id != (
    #[trigger] other[j]).id by {
        assert(other.contains(other[i]) && other.contains(other[j]));
        assert(other.to_multiset().count(other[i]) > 0 && other.to_multiset().count(other[j]) > 0);
        assert(listed.contains(other[i]) && listed.contains(other[j]));
        let x = choose|x: int| 0 <= x < listed.len() && listed[x] == other[i];
        let y = choose|y: int| 0 <= y < listed.len() && listed[y] == other[j];
        assert(x != y);
    }
}

proof fn rearranged_sessions_are_listed_once(listed: Seq<SessionModel>, other: Seq<SessionModel>)
    requires
        listed.to_multiset() == other.to_multiset(),
        forall|i: int, j: int|
            0 <= i < j < listed.len() ==> (#[trigger] listed[i]).instance != (
            #[trigger] listed[j]).instance,
    ensures
        forall|i: int, j: int|
            0 <= i < j < other.len() ==> (#[trigger] other[i]).instance != (
            #[trigger] other[j]).instance,
{
    broadcast use vstd::seq_lib::group_to_multiset_ensures;

    listed.lemma_multiset_has_no_duplicates();
    other.lemma_multiset_has_no_duplicates_conv();
    assert forall|i: int, j: int| 0 <= i < j < other.len() implies (#[trigger] other[i]).instance
        != (#[trigger] other[j]).instance by {
        assert(other.contains(other[i]) && other.contains(other[j]));
        assert(other.to_multiset().count(other[i]) > 0 && other.to_multiset().count(other[j]) > 0);
        assert(listed.contains(other[i]) && listed.contains(other[j]));
        let x = choose|x: int| 0 <= x < listed.len() && listed[x] == other[i];
        let y = choose|y: int| 0 <= y < listed.len() && listed[y] == other[j];
        assert(x != y);
    }
}

/// After an audio event a snapshot has the revision it had or the next one; with
/// the same revision it is the same snapshot. Nothing visible changes without a new
/// revision.
pub proof fn audio_events_are_seen_by_the_revision(
    m: ManagerModel,
    event: AudioEvent,
    now: Reading,
    before: Snapshot,
    after: Snapshot,
)
    requires
        reducer::listed_once(m),
        manager::shows(before, m),
        manager::shows(after, reducer::audio_step(m, event, now).state),
    ensures
        after.revision == before.revision || after.revision == before.revision + 1,
        after.revision == before.revision ==> same_snapshot(before, after),
{
    audio_events_count_the_revision(m, event, now);
    let state = reducer::audio_step(m, event, now).state;
    if state.revision == m.revision {
        same_rows(m, before, state, after);
    }
}

/// After a user command a snapshot has the revision it had or the next one; with
/// the same revision it is the same snapshot.
pub proof fn user_commands_are_seen_by_the_revision(
    m: ManagerModel,
    command: UiCommand,
    now: Reading,
    before: Snapshot,
    after: Snapshot,
)
    requires
        reducer::listed_once(m),
        manager::shows(before, m),
        manager::shows(after, reducer::ui_step(m, command, now).state),
    ensures
        after.revision == before.revision || after.revision == before.revision + 1,
        after.revision == before.revision ==> same_snapshot(before, after),
{
    user_commands_count_the_revision(m, command, now);
    let state = reducer::ui_step(m, command, now).state;
    if state.revision == m.revision {
        same_rows(m, before, state, after);
    }
}

// ----- pruning

/// Pruning drops no endpoint that is present or the default, changes no profile
/// that it keeps, and drops nothing at all where the settings give zero days.
pub proof fn pruning_keeps_what_is_in_use(
    m: ManagerModel,
    now: Timestamp,
    at: Moment,
    id: Seq<char>,
)
    requires
        m.store.endpoints.dom().finite(),
        m.store.endpoints.contains_key(id),
        m.default_endpoint == Some(id) || reducer::endpoint_place(m.endpoints, id) is Some
            || m.store.settings.prune_after_days == 0,
    ensures
        reducer::pruned(m, now, at).store.endpoints.contains_key(id),
        reducer::pruned(m, now, at).store.endpoints[id] == m.store.endpoints[id],
{
}

/// Pruning twice at one time drops no more than pruning once.
pub proof fn pruning_again_drops_nothing(m: ManagerModel, now: Timestamp, at: Moment)
    requires
        m.store.endpoints.dom().finite(),
    ensures
        reducer::stale_endpoints(reducer::pruned(m, now, at), now) == Set::<Seq<char>>::empty(),
{
    let after = reducer::pruned(m, now, at);
    let stale = reducer::stale_endpoints(m, now);
    if stale.len() == 0 {
        assert(stale =~= Set::empty());
    }
    assert forall|id: Seq<char>| !reducer::stale_endpoints(after, now).contains(id) by {
        if after.store.endpoints.contains_key(id) && reducer::is_stale(after, id, now) {
            assert(reducer::is_stale(m, id, now));
            assert(stale.contains(id));
        }
    }
    assert(reducer::stale_endpoints(after, now) =~= Set::empty());
}

} // verus!
