//! What each event and each command is for, said of what is there before it and
//! after it.

use crate::arrange::Arranged;
use crate::messages::{
    AudioEvent, CommandModel, DataFlow, EndpointModel, EndpointState, EndpointView, Role,
    SessionModel, SessionState, SessionView, Snapshot, UiCommand,
};
use crate::manager::PersistResult;
use crate::manager;
use crate::messages;
use crate::reducer::{DispatchModel, ManagerModel};
use crate::reducer;
use crate::single::Single;
use crate::store::{SessionEntry, StoreModel};
use crate::text;
use crate::time::{Moment, Reading, Timestamp};
use vstd::prelude::*;

verus! {

// ----- words that the promises share

/// Whether the store remembers a program on an endpoint.
pub open spec fn remembers(store: StoreModel, endpoint: Seq<char>, process: Seq<char>) -> bool {
    store.endpoints.contains_key(endpoint) && store.endpoints[endpoint].sessions.contains_key(
        process,
    )
}

/// What the store remembers of a program on an endpoint.
pub open spec fn entry(store: StoreModel, endpoint: Seq<char>, process: Seq<char>) -> SessionEntry {
    store.endpoints[endpoint].sessions[process]
}

/// Whether two stores hold the same of a program on an endpoint.
pub open spec fn same_entry(
    a: StoreModel,
    b: StoreModel,
    endpoint: Seq<char>,
    process: Seq<char>,
) -> bool {
    &&& remembers(a, endpoint, process) == remembers(b, endpoint, process)
    &&& remembers(a, endpoint, process) ==> entry(a, endpoint, process) == entry(
        b,
        endpoint,
        process,
    )
}

/// Whether two stores differ in the profile of `endpoint` at most.
pub open spec fn same_but_for(a: StoreModel, b: StoreModel, endpoint: Seq<char>) -> bool {
    &&& a.settings == b.settings
    &&& a.schema_version == b.schema_version
    &&& forall|other: Seq<char>|
        other != endpoint ==> a.endpoints.contains_key(other) == #[trigger] b.endpoints.contains_key(
            other,
        )
    &&& forall|other: Seq<char>|
        other != endpoint && #[trigger] b.endpoints.contains_key(other) ==> a.endpoints[other]
            == b.endpoints[other]
}

/// Whether a program is known by nothing but its process id.
pub open spec fn known_by_id_only(process: Seq<char>) -> bool {
    process.len() >= 4 && process[0] == 'p' && process[1] == 'i' && process[2] == 'd' && process[3]
        == ':'
}

/// The volume that is kept and applied for a number: silence for what is not a
/// number, and the nearest one from silent to full for every other.
pub open spec fn is_kept_volume(given: Single, kept: Single) -> bool {
    if (0x7F80_0000 < given.bits < 0x8000_0000) || 0xFF80_0000 < given.bits {
        kept.bits == 0
    } else if given.bits <= 0x3F80_0000 || given.bits == 0x8000_0000 {
        kept == given
    } else if given.bits < 0x8000_0000 {
        kept.bits == 0x3F80_0000
    } else {
        kept.bits == 0
    }
}

/// Whether a change is waiting to be saved since `at`, or since before that.
pub open spec fn is_noted(before: ManagerModel, after: ManagerModel, at: Moment) -> bool {
    after.dirty_since == (if before.dirty_since is Some {
        before.dirty_since
    } else {
        Some(at)
    })
}

/// Whether what is shown is the same, but for the live sessions.
pub open spec fn same_devices(before: ManagerModel, after: ManagerModel) -> bool {
    &&& after.endpoints == before.endpoints
    &&& after.default_endpoint == before.default_endpoint
    &&& after.generation == before.generation
    &&& after.load_error == before.load_error
    &&& after.persist_error == before.persist_error
}

/// Whether nothing that is saved, or waits to be, has changed.
pub open spec fn same_memory(before: ManagerModel, after: ManagerModel) -> bool {
    &&& after.store == before.store
    &&& after.dirty_since == before.dirty_since
    &&& after.forgotten == before.forgotten
}

/// Whether a volume and a mute were recorded for a program on an endpoint: the
/// entry holds them and the time, the endpoint counts as seen then, nothing else in
/// the store is another, the change waits to be saved, and the program is no longer
/// forgotten there.
pub open spec fn records(
    before: ManagerModel,
    after: ManagerModel,
    endpoint: Seq<char>,
    process: Seq<char>,
    volume: Single,
    muted: bool,
    now: Reading,
) -> bool {
    &&& remembers(after.store, endpoint, process)
    &&& is_kept_volume(volume, entry(after.store, endpoint, process).volume)
    &&& entry(after.store, endpoint, process).muted == muted
    &&& entry(after.store, endpoint, process).updated_at == now.wall
    &&& forall|other: Seq<char>|
        other != process ==> #[trigger] same_entry(before.store, after.store, endpoint, other)
    &&& is_seen(before, after, endpoint, now.wall)
    &&& same_but_for(before.store, after.store, endpoint)
    &&& is_noted(before, after, now.moment)
    &&& forall|e: Seq<char>, p: Seq<char>| #[trigger]
        after.forgotten.contains((e, p)) == (before.forgotten.contains((e, p)) && !(e == endpoint
            && p == process))
}

/// Whether an endpoint has a profile that says it was seen at `at`, under the name
/// it shows at present, else under the name the profile had.
pub open spec fn is_seen(
    before: ManagerModel,
    after: ManagerModel,
    endpoint: Seq<char>,
    at: Timestamp,
) -> bool {
    &&& after.store.endpoints.contains_key(endpoint)
    &&& after.store.endpoints[endpoint].last_seen == at
    &&& forall|i: int|
        0 <= i < before.endpoints.len() && (#[trigger] before.endpoints[i]).id == endpoint
            && before.endpoints[i].friendly_name.len() > 0
            ==> after.store.endpoints[endpoint].friendly_name == before.endpoints[i].friendly_name
    &&& (forall|i: int|
        0 <= i < before.endpoints.len() && (#[trigger] before.endpoints[i]).id == endpoint
            ==> before.endpoints[i].friendly_name.len() == 0)
        ==> after.store.endpoints[endpoint].friendly_name == (
    if before.store.endpoints.contains_key(endpoint) {
        before.store.endpoints[endpoint].friendly_name
    } else {
        Seq::empty()
    })
}

// ----- volumes

/// The volume that is kept is the given one, or the nearest that there is.
pub proof fn kept_volume_is_the_nearest(volume: Single)
    ensures
        is_kept_volume(volume, reducer::clamped_volume(volume)),
{
}

proof fn keeping_twice_is_keeping_once(given: Single, kept: Single)
    requires
        is_kept_volume(given, kept),
    ensures
        is_kept_volume(kept, kept),
        reducer::clamped_volume(given) == kept,
        reducer::clamped_volume(kept) == kept,
{
}

proof fn process_id_keys(process: Seq<char>)
    ensures
        reducer::is_pid_keyed(process) == known_by_id_only(process),
{
    let prefix = reducer::pid_prefix();
    if known_by_id_only(process) {
        assert(prefix =~= process.subrange(0, 4));
    } else if reducer::is_pid_keyed(process) {
        let start = process.subrange(0, 4);
        assert(start[0] == prefix[0] && start[1] == prefix[1] && start[2] == prefix[2] && start[3]
            == prefix[3]);
    }
}

// ----- live sessions

/// A session that is gone is no longer listed, and every other is still listed
/// unchanged, in the same order. Nothing that is remembered changes, and nothing is
/// dispatched.
pub proof fn disconnected_session_alone_leaves(
    m: ManagerModel,
    event: AudioEvent,
    now: Reading,
    gone: int,
)
    requires
        reducer::listed_once(m),
        event is SessionDisconnected,
        0 <= gone < m.sessions.len(),
        m.sessions[gone].instance == event->SessionDisconnected_instance@,
    ensures
        ({
            let outcome = reducer::audio_step(m, event, now);
            let after = outcome.state;
            &&& forall|j: int|
                0 <= j < after.sessions.len() ==> (#[trigger] after.sessions[j]).instance
                    != m.sessions[gone].instance
            &&& after.sessions.len() == m.sessions.len() - 1
            &&& forall|j: int|
                0 <= j < gone ==> #[trigger] after.sessions[j] == m.sessions[j]
            &&& forall|j: int|
                gone < j < m.sessions.len() ==> after.sessions[j - 1] == #[trigger] m.sessions[j]
            &&& after.revision == m.revision + 1
            &&& same_devices(m, after)
            &&& same_memory(m, after)
            &&& outcome.dispatches.len() == 0
        }),
{
    let place = reducer::session_place(m.sessions, m.sessions[gone].instance);
    assert(place == Some(gone));
}

/// Whether a live session has this instance.
pub open spec fn is_live(sessions: Seq<SessionModel>, instance: Seq<char>) -> bool {
    exists|j: int| 0 <= j < sessions.len() && (#[trigger] sessions[j]).instance == instance
}

/// What is said of a session that is not live changes nothing at all.
pub proof fn unknown_sessions_are_ignored(m: ManagerModel, event: AudioEvent, now: Reading)
    requires
        match event {
            AudioEvent::SessionDisconnected { instance, .. } => !is_live(m.sessions, instance@),
            AudioEvent::SessionVolumeChanged { instance, .. } => !is_live(m.sessions, instance@),
            AudioEvent::SessionStateChanged { instance, .. } => !is_live(m.sessions, instance@),
            _ => false,
        },
    ensures
        reducer::audio_step(m, event, now).state == m,
        reducer::audio_step(m, event, now).dispatches.len() == 0,
{
}

/// A change of a session's state is shown on that session alone, and changes
/// nothing else.
pub proof fn session_state_is_shown(m: ManagerModel, event: AudioEvent, now: Reading, at: int)
    requires
        reducer::listed_once(m),
        event is SessionStateChanged,
        0 <= at < m.sessions.len(),
        m.sessions[at].instance == event->SessionStateChanged_instance@,
    ensures
        ({
            let outcome = reducer::audio_step(m, event, now);
            let after = outcome.state;
            &&& after.sessions.len() == m.sessions.len()
            &&& after.sessions[at].state == event->SessionStateChanged_state
            &&& after.sessions[at].instance == m.sessions[at].instance
            &&& after.sessions[at].process == m.sessions[at].process
            &&& after.sessions[at].endpoint == m.sessions[at].endpoint
            &&& after.sessions[at].volume == m.sessions[at].volume
            &&& after.sessions[at].muted == m.sessions[at].muted
            &&& forall|j: int|
                0 <= j < m.sessions.len() && j != at ==> #[trigger] after.sessions[j]
                    == m.sessions[j]
            &&& after.revision == m.revision + 1
            &&& same_devices(m, after)
            &&& same_memory(m, after)
            &&& outcome.dispatches.len() == 0
        }),
{
    assert(reducer::session_place(m.sessions, m.sessions[at].instance) == Some(at));
}

/// A change of a session's volume is shown on that session alone. One that was made
/// outside is recorded for the program on the endpoint, unless only its process id
/// is known; the echo of our own change is not. Nothing is dispatched.
pub proof fn changed_volume_is_shown_and_recorded(
    m: ManagerModel,
    event: AudioEvent,
    now: Reading,
    at: int,
)
    requires
        reducer::listed_once(m),
        event is SessionVolumeChanged,
        0 <= at < m.sessions.len(),
        m.sessions[at].instance == event->SessionVolumeChanged_instance@,
    ensures
        ({
            let outcome = reducer::audio_step(m, event, now);
            let after = outcome.state;
            let volume = event->SessionVolumeChanged_volume;
            let muted = event->SessionVolumeChanged_muted;
            &&& after.sessions.len() == m.sessions.len()
            &&& is_kept_volume(volume, after.sessions[at].volume)
            &&& after.sessions[at].muted == muted
            &&& after.sessions[at].instance == m.sessions[at].instance
            &&& after.sessions[at].process == m.sessions[at].process
            &&& after.sessions[at].endpoint == m.sessions[at].endpoint
            &&& after.sessions[at].state == m.sessions[at].state
            &&& forall|j: int|
                0 <= j < m.sessions.len() && j != at ==> #[trigger] after.sessions[j]
                    == m.sessions[j]
            &&& after.revision == m.revision + 1
            &&& same_devices(m, after)
            &&& outcome.dispatches.len() == 0
            &&& if event->own_change || known_by_id_only(m.sessions[at].process) {
                same_memory(m, after)
            } else {
                records(
                    m,
                    after,
                    m.sessions[at].endpoint,
                    m.sessions[at].process,
                    volume,
                    muted,
                    now,
                )
            }
        }),
{
    assert(reducer::session_place(m.sessions, m.sessions[at].instance) == Some(at));
    process_id_keys(m.sessions[at].process);
    let volume = event->SessionVolumeChanged_volume;
    kept_volume_is_the_nearest(volume);
    let endpoint = m.sessions[at].endpoint;
    live_name_is_shown(m.endpoints, endpoint);
}

proof fn live_name_is_shown(endpoints: Seq<EndpointModel>, id: Seq<char>)
    ensures
        (forall|i: int, j: int|
            0 <= i < j < endpoints.len() ==> (#[trigger] endpoints[i]).id != (
            #[trigger] endpoints[j]).id) ==> forall|i: int|
            0 <= i < endpoints.len() && (#[trigger] endpoints[i]).id == id ==> reducer::live_name(
                endpoints,
                id,
            ) == endpoints[i].friendly_name,
        (forall|i: int|
            0 <= i < endpoints.len() && (#[trigger] endpoints[i]).id == id
                ==> endpoints[i].friendly_name.len() == 0) ==> reducer::live_name(
            endpoints,
            id,
        ).len() == 0,
{
}

/// A session that is created is listed as it was announced, active, in the place of
/// the one with its instance or else at the end; every other session stays. It is
/// set to what is remembered of its program on the endpoint. Where nothing is, its
/// volume and mute are recorded, unless the program was forgotten there or only its
/// process id is known.
pub proof fn created_session_is_listed_and_restored(
    m: ManagerModel,
    event: AudioEvent,
    now: Reading,
)
    requires
        reducer::listed_once(m),
        event is SessionCreated,
    ensures
        ({
            let outcome = reducer::audio_step(m, event, now);
            let after = outcome.state;
            let endpoint = event->endpoint@;
            let session = event->session;
            let process = session.process@;
            &&& after.sessions.len() == if is_live(m.sessions, session.instance@) {
                m.sessions.len()
            } else {
                m.sessions.len() + 1
            }
            &&& exists|at: int|
                {
                    &&& 0 <= at < after.sessions.len()
                    &&& (#[trigger] after.sessions[at]).instance == session.instance@
                    &&& after.sessions[at].process == process
                    &&& after.sessions[at].endpoint == endpoint
                    &&& is_kept_volume(session.volume, after.sessions[at].volume)
                    &&& after.sessions[at].muted == session.muted
                    &&& after.sessions[at].state == SessionState::Active
                }
            &&& forall|j: int|
                0 <= j < m.sessions.len() && (#[trigger] m.sessions[j]).instance
                    != session.instance@ ==> after.sessions[j] == m.sessions[j]
            &&& after.revision == m.revision + 1
            &&& same_devices(m, after)
            &&& if m.forgotten.contains((endpoint, process)) {
                same_memory(m, after) && outcome.dispatches.len() == 0
            } else if remembers(m.store, endpoint, process) {
                &&& same_memory(m, after)
                &&& outcome.dispatches.len() == 1
                &&& applies_entry(
                    outcome.dispatches[0],
                    session.instance@,
                    entry(m.store, endpoint, process),
                    m.generation,
                )
            } else if known_by_id_only(process) {
                same_memory(m, after) && outcome.dispatches.len() == 0
            } else {
                &&& records(m, after, endpoint, process, session.volume, session.muted, now)
                &&& outcome.dispatches.len() == 0
            }
        }),
{
    let endpoint = event->endpoint@;
    let session = event->session;
    process_id_keys(session.process@);
    kept_volume_is_the_nearest(session.volume);
    keeping_twice_is_keeping_once(session.volume, reducer::clamped_volume(session.volume));
    live_name_is_shown(m.endpoints, endpoint);
    let after = reducer::audio_step(m, event, now).state;
    match reducer::session_place(m.sessions, session.instance@) {
        Some(i) => {
            assert(after.sessions[i].instance == session.instance@);
        },
        None => {
            assert(after.sessions[m.sessions.len() as int].instance == session.instance@);
        },
    }
    if remembers(m.store, endpoint, session.process@) {
        kept_volume_is_the_nearest(entry(m.store, endpoint, session.process@).volume);
    }
}

/// Whether a command sets a session to what is remembered, under a generation.
pub open spec fn applies_entry(
    dispatch: DispatchModel,
    instance: Seq<char>,
    remembered: SessionEntry,
    generation: nat,
) -> bool {
    &&& dispatch.generation == generation
    &&& dispatch.command is ApplySessionVolume
    &&& dispatch.command->instance == instance
    &&& is_kept_volume(remembered.volume, dispatch.command->volume)
    &&& dispatch.command->muted == remembered.muted
}

// ----- endpoints

/// Whether an endpoint with this id is listed.
pub open spec fn is_listed(endpoints: Seq<EndpointModel>, id: Seq<char>) -> bool {
    exists|j: int| 0 <= j < endpoints.len() && (#[trigger] endpoints[j]).id == id
}

/// Whether the list holds `endpoint`, in the place of the one with its id or else
/// at the end, and is otherwise as it was.
pub open spec fn is_put(
    before: Seq<EndpointModel>,
    after: Seq<EndpointModel>,
    endpoint: EndpointModel,
) -> bool {
    &&& after.len() == if is_listed(before, endpoint.id) {
        before.len()
    } else {
        before.len() + 1
    }
    &&& exists|at: int| 0 <= at < after.len() && #[trigger] after[at] == endpoint
    &&& forall|j: int|
        0 <= j < before.len() && (#[trigger] before[j]).id != endpoint.id ==> after[j] == before[j]
}

/// The name of an endpoint of which only the id is known: the remembered one, else
/// the id.
pub open spec fn fallback_name(store: StoreModel, id: Seq<char>) -> Seq<char> {
    if store.endpoints.contains_key(id) && store.endpoints[id].friendly_name.len() > 0 {
        store.endpoints[id].friendly_name
    } else {
        id
    }
}

/// An endpoint that appears is listed, active, under the name that the device gave,
/// else the remembered one, else its id. Nothing else changes.
pub proof fn added_endpoint_is_listed(m: ManagerModel, event: AudioEvent, now: Reading)
    requires
        reducer::listed_once(m),
        event is EndpointAdded,
    ensures
        ({
            let outcome = reducer::audio_step(m, event, now);
            let after = outcome.state;
            let id = event->EndpointAdded_id@;
            let name = event->friendly_name@;
            &&& is_put(
                m.endpoints,
                after.endpoints,
                EndpointModel {
                    id,
                    friendly_name: if name.len() > 0 {
                        name
                    } else {
                        fallback_name(m.store, id)
                    },
                    state: EndpointState::Active,
                },
            )
            &&& after.sessions == m.sessions
            &&& after.revision == m.revision + 1
            &&& after.default_endpoint == m.default_endpoint
            &&& after.generation == m.generation
            &&& after.load_error == m.load_error
            &&& after.persist_error == m.persist_error
            &&& same_memory(m, after)
            &&& outcome.dispatches.len() == 0
        }),
{
    let id = event->EndpointAdded_id@;
    let after = reducer::audio_step(m, event, now).state;
    match reducer::endpoint_place(m.endpoints, id) {
        Some(i) => {
            assert(after.endpoints[i].id == id);
        },
        None => {
            assert(after.endpoints[m.endpoints.len() as int].id == id);
        },
    }
}

/// An endpoint whose state changes shows that state, under the name it has; one
/// that was not listed appears, under the remembered name or else its id. Nothing
/// else changes.
pub proof fn endpoint_state_is_shown(m: ManagerModel, event: AudioEvent, now: Reading)
    requires
        reducer::listed_once(m),
        event is EndpointStateChanged,
    ensures
        ({
            let outcome = reducer::audio_step(m, event, now);
            let after = outcome.state;
            let id = event->EndpointStateChanged_id@;
            let state = event->EndpointStateChanged_state;
            &&& forall|j: int|
                0 <= j < m.endpoints.len() && (#[trigger] m.endpoints[j]).id == id ==> is_put(
                    m.endpoints,
                    after.endpoints,
                    EndpointModel { id, friendly_name: m.endpoints[j].friendly_name, state },
                )
            &&& !is_listed(m.endpoints, id) ==> is_put(
                m.endpoints,
                after.endpoints,
                EndpointModel { id, friendly_name: fallback_name(m.store, id), state },
            )
            &&& after.sessions == m.sessions
            &&& after.revision == m.revision + 1
            &&& after.default_endpoint == m.default_endpoint
            &&& after.generation == m.generation
            &&& after.load_error == m.load_error
            &&& after.persist_error == m.persist_error
            &&& same_memory(m, after)
            &&& outcome.dispatches.len() == 0
        }),
{
    let id = event->EndpointStateChanged_id@;
    let after = reducer::audio_step(m, event, now).state;
    match reducer::endpoint_place(m.endpoints, id) {
        Some(i) => {
            assert(after.endpoints[i].id == id);
        },
        None => {
            assert(after.endpoints[m.endpoints.len() as int].id == id);
        },
    }
}

/// An endpoint that is removed is no longer listed, nor is any session on it; every
/// other endpoint and session stays as it is. What is remembered of the endpoint
/// stays. The revision moves on exactly when something was listed.
pub proof fn removed_endpoint_takes_its_sessions(m: ManagerModel, event: AudioEvent, now: Reading)
    requires
        reducer::listed_once(m),
        event is EndpointRemoved,
    ensures
        ({
            let outcome = reducer::audio_step(m, event, now);
            let after = outcome.state;
            let id = event->EndpointRemoved_0@;
            &&& !is_listed(after.endpoints, id)
            &&& forall|endpoint: EndpointModel|
                endpoint.id != id ==> m.endpoints.contains(endpoint) == #[trigger]
                    after.endpoints.contains(endpoint)
            &&& after.endpoints.len() == if is_listed(m.endpoints, id) {
                m.endpoints.len() - 1
            } else {
                m.endpoints.len() as int
            }
            &&& forall|session: SessionModel| #[trigger]
                after.sessions.contains(session) == (m.sessions.contains(session)
                    && session.endpoint != id)
            &&& after.revision == if is_listed(m.endpoints, id) || (exists|j: int|
                0 <= j < m.sessions.len() && (#[trigger] m.sessions[j]).endpoint == id) {
                m.revision + 1
            } else {
                m.revision
            }
            &&& after.default_endpoint == m.default_endpoint
            &&& after.generation == m.generation
            &&& after.load_error == m.load_error
            &&& after.persist_error == m.persist_error
            &&& same_memory(m, after)
            &&& outcome.dispatches.len() == 0
        }),
{
    let id = event->EndpointRemoved_0@;
    let after = reducer::audio_step(m, event, now).state;
    let keep = |session: SessionModel| session.endpoint != id;
    match reducer::endpoint_place(m.endpoints, id) {
        Some(i) => {
            assert forall|endpoint: EndpointModel| endpoint.id != id implies m.endpoints.contains(
                endpoint,
            ) == #[trigger] after.endpoints.contains(endpoint) by {
                if m.endpoints.contains(endpoint) {
                    let k = choose|k: int| 0 <= k < m.endpoints.len() && m.endpoints[k] == endpoint;
                    assert(after.endpoints[if k < i {
                        k
                    } else {
                        k - 1
                    }] == endpoint);
                }
            }
        },
        None => {},
    }
    assert forall|session: SessionModel| #[trigger]
        after.sessions.contains(session) == (m.sessions.contains(session) && session.endpoint
            != id) by {
        if after.sessions.contains(session) {
            m.sessions.lemma_filter_contains_rev(keep, session);
            let k = choose|k: int| 0 <= k < after.sessions.len() && after.sessions[k] == session;
            m.sessions.lemma_filter_pred(keep, k);
        }
        if m.sessions.contains(session) && session.endpoint != id {
            let k = choose|k: int| 0 <= k < m.sessions.len() && m.sessions[k] == session;
            m.sessions.lemma_filter_contains(keep, k);
        }
    }
    filter_is_shorter_where_something_goes(m.sessions, id);
}

proof fn filter_is_shorter_where_something_goes(sessions: Seq<SessionModel>, id: Seq<char>)
    ensures
        (reducer::sessions_elsewhere(sessions, id).len() != sessions.len()) == exists|j: int|
            0 <= j < sessions.len() && (#[trigger] sessions[j]).endpoint == id,
        reducer::sessions_elsewhere(sessions, id).len() <= sessions.len(),
    decreases sessions.len(),
{
    reveal(Seq::filter);
    if sessions.len() > 0 {
        let rest = sessions.drop_last();
        filter_is_shorter_where_something_goes(rest, id);
        assert(forall|j: int| 0 <= j < rest.len() ==> rest[j] == sessions[j]);
        if sessions.last().endpoint == id {
            assert(sessions[sessions.len() - 1].endpoint == id);
        } else if exists|j: int| 0 <= j < sessions.len() && (#[trigger] sessions[j]).endpoint == id {
            let j = choose|j: int|
                0 <= j < sessions.len() && (#[trigger] sessions[j]).endpoint == id;
            assert(rest[j].endpoint == id);
        }
    }
}

// ----- the default endpoint

/// A change of the default endpoint leaves the live sessions and the endpoints
/// exactly as they were, and the settings too, whatever is notified and when.
pub proof fn switch_leaves_the_live_view(m: ManagerModel, event: AudioEvent, now: Reading)
    requires
        event is DefaultEndpointChanged,
    ensures
        ({
            let after = reducer::audio_step(m, event, now).state;
            &&& after.sessions == m.sessions
            &&& after.endpoints == m.endpoints
            &&& after.store.settings == m.store.settings
            &&& after.store.schema_version == m.store.schema_version
            &&& after.load_error == m.load_error
            &&& after.persist_error == m.persist_error
        }),
{
    if let Some(endpoint) = messages::optional_text(event->DefaultEndpointChanged_id) {
        let seen = switched_to(m, endpoint, now);
        restoring_in_turn(seen, m.sessions, endpoint, m.generation + 1, now);
    }
}

/// The state in which the sessions of a new default endpoint are restored.
spec fn switched_to(m: ManagerModel, endpoint: Seq<char>, now: Reading) -> ManagerModel {
    reducer::touched(
        ManagerModel {
            default_endpoint: Some(endpoint),
            generation: m.generation + 1,
            revision: m.revision + 1,
            ..m
        },
        endpoint,
        now.wall,
    )
}

/// A notification of another flow or role, and one of the endpoint that is the
/// default already, changes nothing and dispatches nothing.
pub proof fn only_a_new_multimedia_default_counts(m: ManagerModel, event: AudioEvent, now: Reading)
    requires
        event is DefaultEndpointChanged,
        event->flow != DataFlow::Render || event->role != Role::Multimedia || (
        match event->DefaultEndpointChanged_id {
            Some(id) => m.default_endpoint == Some(id@),
            None => m.default_endpoint is None,
        }),
    ensures
        reducer::audio_step(m, event, now).state == m,
        reducer::audio_step(m, event, now).dispatches.len() == 0,
{
}

/// Whether a notification makes another endpoint, or none, the default.
pub open spec fn is_switch(m: ManagerModel, event: AudioEvent) -> bool {
    &&& event is DefaultEndpointChanged
    &&& event->flow == DataFlow::Render
    &&& event->role == Role::Multimedia
    &&& match event->DefaultEndpointChanged_id {
        Some(id) => m.default_endpoint != Some(id@),
        None => m.default_endpoint is Some,
    }
}

/// Once no endpoint is the default any more, that is all that changes, under a new
/// generation and a new revision. Nothing is dispatched.
pub proof fn losing_the_default_restores_nothing(m: ManagerModel, event: AudioEvent, now: Reading)
    requires
        is_switch(m, event),
        event->DefaultEndpointChanged_id is None,
    ensures
        ({
            let outcome = reducer::audio_step(m, event, now);
            &&& outcome.state.default_endpoint is None
            &&& outcome.state.generation == m.generation + 1
            &&& outcome.state.revision == m.revision + 1
            &&& same_memory(m, outcome.state)
            &&& outcome.dispatches.len() == 0
        }),
{
}

/// Whether `j` is the first of the sessions that plays its program on `endpoint`.
pub open spec fn is_first(sessions: Seq<SessionModel>, endpoint: Seq<char>, j: int) -> bool {
    &&& 0 <= j < sessions.len()
    &&& sessions[j].endpoint == endpoint
    &&& forall|k: int|
        0 <= k < j ==> !((#[trigger] sessions[k]).endpoint == endpoint && sessions[k].process
            == sessions[j].process)
}

/// Whether some session plays a program on an endpoint.
pub open spec fn is_played(
    sessions: Seq<SessionModel>,
    endpoint: Seq<char>,
    process: Seq<char>,
) -> bool {
    exists|j: int|
        0 <= j < sessions.len() && (#[trigger] sessions[j]).endpoint == endpoint
            && sessions[j].process == process
}

/// A switch to an endpoint makes it the default, under a new generation and a new
/// revision, and its profile says that it was seen at that time. What was remembered
/// there stays. A program that plays there and of which nothing was remembered is
/// remembered from then on as its first session plays, unless only its process id is
/// known, and is no longer forgotten. Nothing else that is remembered changes.
pub proof fn switch_is_remembered(m: ManagerModel, event: AudioEvent, now: Reading)
    requires
        reducer::listed_once(m),
        is_switch(m, event),
        event->DefaultEndpointChanged_id is Some,
    ensures
        ({
            let after = reducer::audio_step(m, event, now).state;
            let endpoint = event->DefaultEndpointChanged_id->0@;
            &&& after.default_endpoint == Some(endpoint)
            &&& after.generation == m.generation + 1
            &&& after.revision == m.revision + 1
            &&& is_noted(m, after, now.moment)
            &&& is_seen(m, after, endpoint, now.wall)
            &&& same_but_for(m.store, after.store, endpoint)
            &&& forall|p: Seq<char>| #[trigger]
                remembers(m.store, endpoint, p) ==> same_entry(m.store, after.store, endpoint, p)
            &&& forall|p: Seq<char>|
                !remembers(m.store, endpoint, p) ==> #[trigger] remembers(after.store, endpoint, p)
                    == (is_played(m.sessions, endpoint, p) && !known_by_id_only(p))
            &&& forall|j: int| #[trigger]
                is_first(m.sessions, endpoint, j) && !remembers(
                    m.store,
                    endpoint,
                    m.sessions[j].process,
                ) && !known_by_id_only(m.sessions[j].process) ==> {
                    let learned = entry(after.store, endpoint, m.sessions[j].process);
                    &&& is_kept_volume(m.sessions[j].volume, learned.volume)
                    &&& learned.muted == m.sessions[j].muted
                    &&& learned.updated_at == now.wall
                }
            &&& forall|e: Seq<char>, p: Seq<char>| #[trigger]
                after.forgotten.contains((e, p)) == (m.forgotten.contains((e, p)) && !(e == endpoint
                    && !remembers(m.store, e, p) && is_played(m.sessions, e, p)
                    && !known_by_id_only(p)))
        }),
{
    let endpoint = event->DefaultEndpointChanged_id->0@;
    let seen = switched_to(m, endpoint, now);
    let generation = m.generation + 1;
    live_name_is_shown(m.endpoints, endpoint);
    let after = reducer::audio_step(m, event, now).state;
    let each = reducer::restored_each(seen, m.sessions, endpoint, generation, now);
    assert(forall|p: Seq<char>|
        remembers(m.store, endpoint, p) == #[trigger] remembers(seen.store, endpoint, p));
    restoring_in_turn(seen, m.sessions, endpoint, generation, now);
    assert(same_but_for(seen.store, each.state.store, endpoint));
    assert forall|other: Seq<char>| other != endpoint implies m.store.endpoints.contains_key(other)
        == #[trigger] after.store.endpoints.contains_key(other) by {
        assert(seen.store.endpoints.contains_key(other) == m.store.endpoints.contains_key(other));
    }
    assert forall|other: Seq<char>|
        other != endpoint && #[trigger] after.store.endpoints.contains_key(
            other,
        ) implies m.store.endpoints[other] == after.store.endpoints[other] by {
        assert(seen.store.endpoints.contains_key(other));
        assert(seen.store.endpoints[other] == m.store.endpoints[other]);
    }
    assert forall|p: Seq<char>| #[trigger] remembers(m.store, endpoint, p) implies same_entry(
        m.store,
        after.store,
        endpoint,
        p,
    ) by {
        assert(remembers(seen.store, endpoint, p));
        assert(same_entry(seen.store, each.state.store, endpoint, p));
    }
}

/// A switch to an endpoint first asks for its sessions anew and then sets those that
/// play there, in their order and each once: every session whose program is
/// remembered there, and every further session of a program that is learned there
/// from its first one. Each is set to what is remembered, all under the new
/// generation.
pub proof fn switch_restores_every_session(m: ManagerModel, event: AudioEvent, now: Reading)
    requires
        reducer::listed_once(m),
        is_switch(m, event),
        event->DefaultEndpointChanged_id is Some,
    ensures
        ({
            let outcome = reducer::audio_step(m, event, now);
            let endpoint = event->DefaultEndpointChanged_id->0@;
            let generation = m.generation + 1;
            let dispatches = outcome.dispatches;
            &&& dispatches.len() > 0
            &&& dispatches[0].generation == generation
            &&& dispatches[0].command == CommandModel::ResyncEndpoint(endpoint)
            &&& restores(
                m.sessions,
                m.store,
                outcome.state.store,
                endpoint,
                generation,
                dispatches.skip(1),
            )
        }),
{
    let endpoint = event->DefaultEndpointChanged_id->0@;
    let seen = switched_to(m, endpoint, now);
    let generation = m.generation + 1;
    restoring_commands(seen, m.sessions, endpoint, generation, now);
    let outcome = reducer::audio_step(m, event, now);
    let each = reducer::restored_each(seen, m.sessions, endpoint, generation, now);
    assert(outcome.dispatches.skip(1) =~= each.dispatches);
    assert(forall|p: Seq<char>|
        remembers(m.store, endpoint, p) == #[trigger] remembers(seen.store, endpoint, p));
}

/// Whether the commands set the sessions that play on an endpoint to what is
/// remembered of them afterwards.
pub open spec fn restores(
    sessions: Seq<SessionModel>,
    before: StoreModel,
    after: StoreModel,
    endpoint: Seq<char>,
    generation: nat,
    dispatches: Seq<DispatchModel>,
) -> bool {
    &&& forall|i: int|
        0 <= i < dispatches.len() ==> restores_some(
            sessions,
            after,
            endpoint,
            generation,
            #[trigger] dispatches[i],
        )
    &&& forall|j: int|
        0 <= j < sessions.len() && (#[trigger] sessions[j]).endpoint == endpoint ==> is_applied(
            dispatches,
            sessions[j].instance,
        ) == (remembers(before, endpoint, sessions[j].process) || (!known_by_id_only(
            sessions[j].process,
        ) && !is_first(sessions, endpoint, j)))
    &&& forall|i: int, k: int, a: int, b: int|
        #![trigger dispatches[i], dispatches[k], sessions[a], sessions[b]]
        0 <= i < k < dispatches.len() && 0 <= a < sessions.len() && 0 <= b < sessions.len()
            && sessions[a].instance == dispatches[i].command->instance && sessions[b].instance
            == dispatches[k].command->instance ==> a < b
}

/// Whether a command sets some session that plays on an endpoint to what is
/// remembered of it.
pub open spec fn restores_some(
    sessions: Seq<SessionModel>,
    store: StoreModel,
    endpoint: Seq<char>,
    generation: nat,
    dispatch: DispatchModel,
) -> bool {
    exists|j: int|
        {
            &&& 0 <= j < sessions.len()
            &&& (#[trigger] sessions[j]).endpoint == endpoint
            &&& remembers(store, endpoint, sessions[j].process)
            &&& applies_entry(
                dispatch,
                sessions[j].instance,
                entry(store, endpoint, sessions[j].process),
                generation,
            )
        }
}

/// Whether some command sets this session.
pub open spec fn is_applied(dispatches: Seq<DispatchModel>, instance: Seq<char>) -> bool {
    exists|i: int|
        0 <= i < dispatches.len() && (#[trigger] dispatches[i]).command is ApplySessionVolume
            && dispatches[i].command->instance == instance
}

proof fn restoring_in_turn(
    m: ManagerModel,
    sessions: Seq<SessionModel>,
    endpoint: Seq<char>,
    generation: nat,
    now: Reading,
)
    requires
        m.store.endpoints.contains_key(endpoint),
        m.store.endpoints[endpoint].last_seen == now.wall,
        reducer::live_name(m.endpoints, endpoint).len() > 0
            ==> m.store.endpoints[endpoint].friendly_name == reducer::live_name(
            m.endpoints,
            endpoint,
        ),
    ensures
        ({
            let after = reducer::restored_each(m, sessions, endpoint, generation, now).state;
            &&& after.sessions == m.sessions
            &&& after.endpoints == m.endpoints
            &&& after.default_endpoint == m.default_endpoint
            &&& after.generation == m.generation
            &&& after.revision == m.revision
            &&& after.load_error == m.load_error
            &&& after.persist_error == m.persist_error
            &&& after.dirty_since == m.dirty_since || is_noted(m, after, now.moment)
            &&& same_but_for(m.store, after.store, endpoint)
            &&& after.store.endpoints.contains_key(endpoint)
            &&& after.store.endpoints[endpoint].last_seen == now.wall
            &&& after.store.endpoints[endpoint].friendly_name
                == m.store.endpoints[endpoint].friendly_name
            &&& forall|p: Seq<char>| #[trigger]
                remembers(m.store, endpoint, p) ==> same_entry(m.store, after.store, endpoint, p)
            &&& forall|p: Seq<char>|
                !remembers(m.store, endpoint, p) ==> #[trigger] remembers(after.store, endpoint, p)
                    == (is_played(sessions, endpoint, p) && !known_by_id_only(p))
            &&& forall|j: int| #[trigger]
                is_first(sessions, endpoint, j) && !remembers(
                    m.store,
                    endpoint,
                    sessions[j].process,
                ) && !known_by_id_only(sessions[j].process) ==> {
                    let learned = entry(after.store, endpoint, sessions[j].process);
                    &&& is_kept_volume(sessions[j].volume, learned.volume)
                    &&& learned.muted == sessions[j].muted
                    &&& learned.updated_at == now.wall
                }
            &&& forall|e: Seq<char>, p: Seq<char>| #[trigger]
                after.forgotten.contains((e, p)) == (m.forgotten.contains((e, p)) && !(e == endpoint
                    && !remembers(m.store, e, p) && is_played(sessions, e, p)
                    && !known_by_id_only(p)))
        }),
    decreases sessions.len(),
{
    if sessions.len() > 0 {
        let rest = sessions.drop_last();
        let last = sessions.last();
        let n = sessions.len() - 1;
        restoring_in_turn(m, rest, endpoint, generation, now);
        process_id_keys(last.process);
        kept_volume_is_the_nearest(last.volume);
        let before = reducer::restored_each(m, rest, endpoint, generation, now).state;
        let after = reducer::restored_each(m, sessions, endpoint, generation, now).state;
        assert forall|e: Seq<char>, p: Seq<char>| #[trigger] is_played(sessions, e, p) == (
        is_played(rest, e, p) || (last.endpoint == e && last.process == p)) by {
            played_with_one_more(sessions, e, p);
        }
        assert forall|j: int| is_first(sessions, endpoint, j) && j < n implies is_first(
            rest,
            endpoint,
            j,
        ) by {
            assert forall|k: int| 0 <= k < j implies !((#[trigger] rest[k]).endpoint == endpoint
                && rest[k].process == rest[j].process) by {
                assert(rest[k] == sessions[k]);
            }
        }
        if is_first(sessions, endpoint, n) {
            assert(!is_played(rest, endpoint, last.process)) by {
                if is_played(rest, endpoint, last.process) {
                    let j = choose|j: int|
                        0 <= j < rest.len() && (#[trigger] rest[j]).endpoint == endpoint
                            && rest[j].process == last.process;
                    assert(sessions[j] == rest[j]);
                }
            }
        }
        assert forall|j: int| #[trigger]
            is_first(sessions, endpoint, j) && !remembers(m.store, endpoint, sessions[j].process)
                && !known_by_id_only(sessions[j].process) implies ({
            let learned = entry(after.store, endpoint, sessions[j].process);
            &&& is_kept_volume(sessions[j].volume, learned.volume)
            &&& learned.muted == sessions[j].muted
            &&& learned.updated_at == now.wall
        }) by {
            let p = sessions[j].process;
            if j < n {
                assert(is_first(rest, endpoint, j));
                assert(rest[j] == sessions[j]);
                assert(is_played(rest, endpoint, p));
                assert(remembers(before.store, endpoint, p));
            } else {
                assert(!remembers(before.store, endpoint, p));
            }
        }
        assert forall|p: Seq<char>| !remembers(m.store, endpoint, p) implies #[trigger] remembers(
            after.store,
            endpoint,
            p,
        ) == (is_played(sessions, endpoint, p) && !known_by_id_only(p)) by {
            assert(remembers(before.store, endpoint, p) == (is_played(rest, endpoint, p)
                && !known_by_id_only(p)));
        }
        assert forall|p: Seq<char>| #[trigger]
            remembers(m.store, endpoint, p) implies same_entry(m.store, after.store, endpoint, p) by {
            assert(same_entry(m.store, before.store, endpoint, p));
        }
        assert forall|e: Seq<char>, p: Seq<char>| #[trigger]
            after.forgotten.contains((e, p)) == (m.forgotten.contains((e, p)) && !(e == endpoint
                && !remembers(m.store, e, p) && is_played(sessions, e, p) && !known_by_id_only(
                p,
            ))) by {
            assert(before.forgotten.contains((e, p)) == (m.forgotten.contains((e, p)) && !(e
                == endpoint && !remembers(m.store, e, p) && is_played(rest, e, p)
                && !known_by_id_only(p))));
            assert(is_played(sessions, e, p) == (is_played(rest, e, p) || (last.endpoint == e
                && last.process == p)));
            if e == endpoint && p == last.process {
                assert(remembers(m.store, endpoint, p) ==> same_entry(
                    m.store,
                    before.store,
                    endpoint,
                    p,
                ));
                assert(!remembers(m.store, endpoint, p) ==> remembers(before.store, endpoint, p)
                    == (is_played(rest, endpoint, p) && !known_by_id_only(p)));
            } else {
                assert((e, p) != (endpoint, last.process));
            }
        }
    }
}

proof fn played_with_one_more(sessions: Seq<SessionModel>, endpoint: Seq<char>, process: Seq<char>)
    requires
        sessions.len() > 0,
    ensures
        is_played(sessions, endpoint, process) == (is_played(
            sessions.drop_last(),
            endpoint,
            process,
        ) || (sessions.last().endpoint == endpoint && sessions.last().process == process)),
{
    let rest = sessions.drop_last();
    if is_played(rest, endpoint, process) {
        let j = choose|j: int|
            0 <= j < rest.len() && (#[trigger] rest[j]).endpoint == endpoint && rest[j].process
                == process;
        assert(sessions[j] == rest[j]);
    }
    if is_played(sessions, endpoint, process) {
        let j = choose|j: int|
            0 <= j < sessions.len() && (#[trigger] sessions[j]).endpoint == endpoint
                && sessions[j].process == process;
        if j < rest.len() {
            assert(rest[j] == sessions[j]);
        }
    }
    if sessions.last().endpoint == endpoint && sessions.last().process == process {
        assert(sessions[sessions.len() - 1].endpoint == endpoint);
    }
}

#[verifier::rlimit(60)]
#[verifier::spinoff_prover]
proof fn restoring_commands(
    m: ManagerModel,
    sessions: Seq<SessionModel>,
    endpoint: Seq<char>,
    generation: nat,
    now: Reading,
)
    requires
        m.store.endpoints.contains_key(endpoint),
        m.store.endpoints[endpoint].last_seen == now.wall,
        reducer::live_name(m.endpoints, endpoint).len() > 0
            ==> m.store.endpoints[endpoint].friendly_name == reducer::live_name(
            m.endpoints,
            endpoint,
        ),
        forall|i: int, j: int|
            0 <= i < j < sessions.len() ==> (#[trigger] sessions[i]).instance != (
            #[trigger] sessions[j]).instance,
    ensures
        ({
            let outcome = reducer::restored_each(m, sessions, endpoint, generation, now);
            restores(
                sessions,
                m.store,
                outcome.state.store,
                endpoint,
                generation,
                outcome.dispatches,
            )
        }),
    decreases sessions.len(),
{
    let outcome = reducer::restored_each(m, sessions, endpoint, generation, now);
    let dispatches = outcome.dispatches;
    if sessions.len() > 0 {
        let rest = sessions.drop_last();
        let last = sessions.last();
        let n = sessions.len() - 1;
        restoring_commands(m, rest, endpoint, generation, now);
        restoring_in_turn(m, rest, endpoint, generation, now);
        process_id_keys(last.process);
        let before = reducer::restored_each(m, rest, endpoint, generation, now);
        let known = remembers(before.state.store, endpoint, last.process);
        let applied = last.endpoint == endpoint && known;
        if known {
            kept_volume_is_the_nearest(entry(before.state.store, endpoint, last.process).volume);
        }
        assert(dispatches.len() == before.dispatches.len() + if applied {
            1int
        } else {
            0
        });
        assert(forall|i: int|
            0 <= i < before.dispatches.len() ==> dispatches[i] == before.dispatches[i]);
        assert forall|p: Seq<char>| #[trigger]
            remembers(before.state.store, endpoint, p) implies same_entry(
            before.state.store,
            outcome.state.store,
            endpoint,
            p,
        ) by {}
        assert forall|i: int| 0 <= i < dispatches.len() implies restores_some(
            sessions,
            outcome.state.store,
            endpoint,
            generation,
            #[trigger] dispatches[i],
        ) by {
            if i < before.dispatches.len() {
                assert(restores_some(
                    rest,
                    before.state.store,
                    endpoint,
                    generation,
                    before.dispatches[i],
                ));
                let j = choose|j: int|
                    {
                        &&& 0 <= j < rest.len()
                        &&& (#[trigger] rest[j]).endpoint == endpoint
                        &&& remembers(before.state.store, endpoint, rest[j].process)
                        &&& applies_entry(
                            before.dispatches[i],
                            rest[j].instance,
                            entry(before.state.store, endpoint, rest[j].process),
                            generation,
                        )
                    };
                assert(sessions[j] == rest[j]);
                assert(same_entry(
                    before.state.store,
                    outcome.state.store,
                    endpoint,
                    rest[j].process,
                ));
            } else {
                assert(sessions[n] == last);
            }
        }
        assert forall|i: int| 0 <= i < before.dispatches.len() implies (
        #[trigger] dispatches[i]).command is ApplySessionVolume && dispatches[i].command->instance
            != last.instance by {
            assert(restores_some(
                rest,
                before.state.store,
                endpoint,
                generation,
                before.dispatches[i],
            ));
            let j = choose|j: int|
                {
                    &&& 0 <= j < rest.len()
                    &&& (#[trigger] rest[j]).endpoint == endpoint
                    &&& remembers(before.state.store, endpoint, rest[j].process)
                    &&& applies_entry(
                        before.dispatches[i],
                        rest[j].instance,
                        entry(before.state.store, endpoint, rest[j].process),
                        generation,
                    )
                };
            assert(sessions[j] == rest[j]);
            assert(sessions[n] == last);
        }
        played_with_one_more(sessions, endpoint, last.process);
        assert forall|j: int|
            0 <= j < sessions.len() && (#[trigger] sessions[j]).endpoint
                == endpoint implies is_applied(dispatches, sessions[j].instance) == (remembers(
            m.store,
            endpoint,
            sessions[j].process,
        ) || (!known_by_id_only(sessions[j].process) && !is_first(sessions, endpoint, j))) by {
            let instance = sessions[j].instance;
            if j < n {
                assert(rest[j] == sessions[j]);
                assert(is_first(rest, endpoint, j) == is_first(sessions, endpoint, j)) by {
                    assert(forall|k: int| 0 <= k < rest.len() ==> rest[k] == sessions[k]);
                    first_of_a_part(sessions, endpoint, j);
                }
                assert(instance != last.instance);
                if is_applied(before.dispatches, instance) {
                    let i = choose|i: int|
                        0 <= i < before.dispatches.len() && (
                        #[trigger] before.dispatches[i]).command is ApplySessionVolume
                            && before.dispatches[i].command->instance == instance;
                    assert(dispatches[i] == before.dispatches[i]);
                }
                if is_applied(dispatches, instance) {
                    let i = choose|i: int|
                        0 <= i < dispatches.len() && (#[trigger] dispatches[i]).command
                            is ApplySessionVolume && dispatches[i].command->instance == instance;
                    assert(i < before.dispatches.len());
                    assert(before.dispatches[i] == dispatches[i]);
                }
            } else {
                assert(is_first(sessions, endpoint, n) == !is_played(
                    rest,
                    endpoint,
                    last.process,
                )) by {
                    first_where_not_played(sessions, endpoint);
                }
                if applied {
                    assert(dispatches[before.dispatches.len() as int].command->instance
                        == instance);
                } else if is_applied(dispatches, instance) {
                    let i = choose|i: int|
                        0 <= i < dispatches.len() && (#[trigger] dispatches[i]).command
                            is ApplySessionVolume && dispatches[i].command->instance == instance;
                    assert(i < before.dispatches.len());
                }
                if remembers(m.store, endpoint, last.process) {
                    assert(same_entry(m.store, before.state.store, endpoint, last.process));
                }
            }
        }
        assert forall|i: int, k: int, a: int, b: int|
            #![trigger dispatches[i], dispatches[k], sessions[a], sessions[b]]
            0 <= i < k < dispatches.len() && 0 <= a < sessions.len() && 0 <= b < sessions.len()
                && sessions[a].instance == dispatches[i].command->instance && sessions[b].instance
                == dispatches[k].command->instance implies a < b by {
            assert(dispatches[i] == before.dispatches[i]);
            assert(a < n);
            assert(rest[a] == sessions[a]);
            if k < before.dispatches.len() {
                assert(b < n);
                assert(rest[b] == sessions[b]);
                assert(dispatches[k] == before.dispatches[k]);
            } else {
                assert(sessions[n] == last);
            }
        }
    }
}

proof fn first_of_a_part(sessions: Seq<SessionModel>, endpoint: Seq<char>, j: int)
    requires
        0 <= j < sessions.len() - 1,
    ensures
        is_first(sessions.drop_last(), endpoint, j) == is_first(sessions, endpoint, j),
{
    let rest = sessions.drop_last();
    assert(forall|k: int| 0 <= k < rest.len() ==> #[trigger] rest[k] == sessions[k]);
    if is_first(rest, endpoint, j) {
        assert forall|k: int| 0 <= k < j implies !((#[trigger] sessions[k]).endpoint == endpoint
            && sessions[k].process == sessions[j].process) by {
            assert(rest[k] == sessions[k]);
        }
    }
}

proof fn first_where_not_played(sessions: Seq<SessionModel>, endpoint: Seq<char>)
    requires
        sessions.len() > 0,
        sessions.last().endpoint == endpoint,
    ensures
        is_first(sessions, endpoint, sessions.len() - 1) == !is_played(
            sessions.drop_last(),
            endpoint,
            sessions.last().process,
        ),
{
    let rest = sessions.drop_last();
    let process = sessions.last().process;
    if is_played(rest, endpoint, process) {
        let j = choose|j: int|
            0 <= j < rest.len() && (#[trigger] rest[j]).endpoint == endpoint && rest[j].process
                == process;
        assert(sessions[j] == rest[j]);
    } else {
        assert forall|k: int| 0 <= k < rest.len() implies !((#[trigger] sessions[k]).endpoint
            == endpoint && sessions[k].process == process) by {
            assert(rest[k] == sessions[k]);
        }
    }
}

// ----- what the user asks for

/// Asking for another default endpoint dispatches exactly one command: to make that
/// endpoint the default for each role that the settings name, and for no other. The
/// state changes only once the switch is notified.
pub proof fn switch_is_asked_for_the_roles_of_the_settings(
    m: ManagerModel,
    command: UiCommand,
    now: Reading,
)
    requires
        command is SwitchEndpoint,
    ensures
        ({
            let outcome = reducer::ui_step(m, command, now);
            let asked = outcome.dispatches[0].command;
            let roles = m.store.settings.switch_roles;
            &&& outcome.state == m
            &&& outcome.dispatches.len() == 1
            &&& outcome.dispatches[0].generation == m.generation
            &&& asked is SetDefaultEndpoint
            &&& asked->id == command->SwitchEndpoint_0@
            &&& asked->roles.console == roles.console
            &&& asked->roles.multimedia == roles.multimedia
            &&& asked->roles.communications == roles.communications
        }),
{
}

/// Whether this is the best known volume and mute of a program on an endpoint: what
/// is remembered, else what its first live session has, else full and not muted.
pub open spec fn is_best_known(
    m: ManagerModel,
    endpoint: Seq<char>,
    process: Seq<char>,
    volume: Single,
    muted: bool,
) -> bool {
    if remembers(m.store, endpoint, process) {
        &&& volume == entry(m.store, endpoint, process).volume
        &&& muted == entry(m.store, endpoint, process).muted
    } else if is_played(m.sessions, endpoint, process) {
        exists|j: int|
            {
                &&& #[trigger] is_first(m.sessions, endpoint, j)
                &&& m.sessions[j].process == process
                &&& volume == m.sessions[j].volume
                &&& muted == m.sessions[j].muted
            }
    } else {
        volume.bits == 0x3F80_0000 && !muted
    }
}

/// Whether exactly the sessions of a program on an endpoint show a volume and a
/// mute, and no session is otherwise another.
pub open spec fn shows_setting(
    before: Seq<SessionModel>,
    after: Seq<SessionModel>,
    endpoint: Seq<char>,
    process: Seq<char>,
    volume: Single,
    muted: bool,
) -> bool {
    &&& after.len() == before.len()
    &&& forall|j: int|
        0 <= j < before.len() ==> {
            let shown = #[trigger] after[j];
            &&& shown.instance == before[j].instance
            &&& shown.process == before[j].process
            &&& shown.endpoint == before[j].endpoint
            &&& shown.state == before[j].state
            &&& if before[j].endpoint == endpoint && before[j].process == process {
                is_kept_volume(volume, shown.volume) && shown.muted == muted
            } else {
                shown.volume == before[j].volume && shown.muted == before[j].muted
            }
        }
}

/// Whether the commands set exactly the sessions of a program on an endpoint, in
/// their order and each once.
pub open spec fn sets_each(
    sessions: Seq<SessionModel>,
    dispatches: Seq<DispatchModel>,
    endpoint: Seq<char>,
    process: Seq<char>,
    volume: Single,
    muted: bool,
    generation: nat,
) -> bool {
    &&& forall|i: int|
        0 <= i < dispatches.len() ==> {
            &&& (#[trigger] dispatches[i]).generation == generation
            &&& dispatches[i].command is ApplySessionVolume
            &&& is_kept_volume(volume, dispatches[i].command->volume)
            &&& dispatches[i].command->muted == muted
            &&& is_instance_of(sessions, endpoint, process, dispatches[i].command->instance)
        }
    &&& forall|j: int|
        0 <= j < sessions.len() && (#[trigger] sessions[j]).endpoint == endpoint
            && sessions[j].process == process ==> is_applied(dispatches, sessions[j].instance)
    &&& forall|i: int, k: int, a: int, b: int|
        #![trigger dispatches[i], dispatches[k], sessions[a], sessions[b]]
        0 <= i < k < dispatches.len() && 0 <= a < sessions.len() && 0 <= b < sessions.len()
            && sessions[a].instance == dispatches[i].command->instance && sessions[b].instance
            == dispatches[k].command->instance ==> a < b
}

/// Whether a session of a program on an endpoint has this instance.
pub open spec fn is_instance_of(
    sessions: Seq<SessionModel>,
    endpoint: Seq<char>,
    process: Seq<char>,
    instance: Seq<char>,
) -> bool {
    exists|j: int|
        0 <= j < sessions.len() && (#[trigger] sessions[j]).endpoint == endpoint
            && sessions[j].process == process && sessions[j].instance == instance
}

/// Whether a volume and a mute of a program on an endpoint are recorded, shown on
/// all its live sessions there, and applied to them. Under a process id nothing is
/// recorded. The revision moves on exactly when there is such a session.
pub open spec fn is_set(
    m: ManagerModel,
    outcome: reducer::Outcome,
    endpoint: Seq<char>,
    process: Seq<char>,
    volume: Single,
    muted: bool,
    now: Reading,
) -> bool {
    &&& shows_setting(m.sessions, outcome.state.sessions, endpoint, process, volume, muted)
    &&& sets_each(
        m.sessions,
        outcome.dispatches,
        endpoint,
        process,
        volume,
        muted,
        m.generation,
    )
    &&& outcome.state.revision == if is_played(m.sessions, endpoint, process) {
        m.revision + 1
    } else {
        m.revision
    }
    &&& same_devices(m, outcome.state)
    &&& if known_by_id_only(process) {
        same_memory(m, outcome.state)
    } else {
        records(m, outcome.state, endpoint, process, volume, muted, now)
    }
}

/// Setting the volume of a program on an endpoint records, shows and applies that
/// volume, with the mute that was best known.
pub proof fn volume_is_set(
    m: ManagerModel,
    command: UiCommand,
    now: Reading,
    known: (Single, bool),
)
    requires
        reducer::listed_once(m),
        command is SetSessionVolume,
        is_best_known(
            m,
            command->SetSessionVolume_endpoint@,
            command->SetSessionVolume_process@,
            known.0,
            known.1,
        ),
    ensures
        is_set(
            m,
            reducer::ui_step(m, command, now),
            command->SetSessionVolume_endpoint@,
            command->SetSessionVolume_process@,
            command->SetSessionVolume_volume,
            known.1,
            now,
        ),
{
    let endpoint = command->SetSessionVolume_endpoint@;
    let process = command->SetSessionVolume_process@;
    let volume = command->SetSessionVolume_volume;
    best_known_is_resolved(m, endpoint, process, known.0, known.1);
    setting_is_done(m, endpoint, process, volume, known.1, Some(volume), None, now);
}

/// Muting and unmuting a program on an endpoint records, shows and applies that
/// mute, with the volume that was best known.
pub proof fn mute_is_set(m: ManagerModel, command: UiCommand, now: Reading, known: (Single, bool))
    requires
        reducer::listed_once(m),
        command is SetSessionMute,
        is_best_known(
            m,
            command->SetSessionMute_endpoint@,
            command->SetSessionMute_process@,
            known.0,
            known.1,
        ),
    ensures
        is_set(
            m,
            reducer::ui_step(m, command, now),
            command->SetSessionMute_endpoint@,
            command->SetSessionMute_process@,
            known.0,
            command->SetSessionMute_muted,
            now,
        ),
{
    let endpoint = command->SetSessionMute_endpoint@;
    let process = command->SetSessionMute_process@;
    let muted = command->SetSessionMute_muted;
    best_known_is_resolved(m, endpoint, process, known.0, known.1);
    setting_is_done(m, endpoint, process, known.0, muted, None, Some(muted), now);
}

proof fn best_known_is_resolved(
    m: ManagerModel,
    endpoint: Seq<char>,
    process: Seq<char>,
    volume: Single,
    muted: bool,
)
    requires
        is_best_known(m, endpoint, process, volume, muted),
    ensures
        reducer::resolved(m, endpoint, process) == (volume, muted),
{
    let pred = |session: SessionModel| reducer::belongs(session, endpoint, process);
    first_match_is_first(m.sessions, endpoint, process);
    if !remembers(m.store, endpoint, process) && is_played(m.sessions, endpoint, process) {
        let j = choose|j: int|
            {
                &&& #[trigger] is_first(m.sessions, endpoint, j)
                &&& m.sessions[j].process == process
                &&& volume == m.sessions[j].volume
                &&& muted == m.sessions[j].muted
            };
        assert(m.sessions.filter(pred)[0] == m.sessions[j]);
    }
}

proof fn first_match_is_first(
    sessions: Seq<SessionModel>,
    endpoint: Seq<char>,
    process: Seq<char>,
)
    ensures
        ({
            let matching = sessions.filter(
                |session: SessionModel| reducer::belongs(session, endpoint, process),
            );
            &&& (matching.len() > 0) == is_played(sessions, endpoint, process)
            &&& forall|j: int| #[trigger]
                is_first(sessions, endpoint, j) && sessions[j].process == process
                    ==> matching.len() > 0 && matching[0] == sessions[j]
        }),
    decreases sessions.len(),
{
    reveal(Seq::filter);
    if sessions.len() > 0 {
        let rest = sessions.drop_last();
        let n = sessions.len() - 1;
        let pred = |session: SessionModel| reducer::belongs(session, endpoint, process);
        first_match_is_first(rest, endpoint, process);
        played_with_one_more(sessions, endpoint, process);
        assert forall|j: int| #[trigger]
            is_first(sessions, endpoint, j) && sessions[j].process
                == process implies sessions.filter(pred).len() > 0 && sessions.filter(pred)[0]
            == sessions[j] by {
            if j < n {
                first_of_a_part(sessions, endpoint, j);
                assert(rest[j] == sessions[j]);
                assert(is_first(rest, endpoint, j));
            } else {
                first_where_not_played(sessions, endpoint);
            }
        }
    }
}

proof fn filter_keeps_the_order(
    sessions: Seq<SessionModel>,
    pred: spec_fn(SessionModel) -> bool,
    i: int,
    k: int,
    a: int,
    b: int,
)
    requires
        forall|x: int, y: int|
            0 <= x < y < sessions.len() ==> (#[trigger] sessions[x]).instance != (
            #[trigger] sessions[y]).instance,
        0 <= i < k < sessions.filter(pred).len(),
        0 <= a < sessions.len(),
        0 <= b < sessions.len(),
        sessions[a].instance == sessions.filter(pred)[i].instance,
        sessions[b].instance == sessions.filter(pred)[k].instance,
    ensures
        a < b,
    decreases sessions.len(),
{
    reveal(Seq::filter);
    let rest = sessions.drop_last();
    let n = sessions.len() - 1;
    let part = rest.filter(pred);
    assert(sessions.filter(pred)[i] == part[i]);
    assert(part.contains(part[i]));
    rest.lemma_filter_contains_rev(pred, part[i]);
    let x = choose|x: int| 0 <= x < rest.len() && rest[x] == part[i];
    assert(sessions[x] == rest[x]);
    assert(a == x);
    if k < part.len() {
        assert(part.contains(part[k]));
        rest.lemma_filter_contains_rev(pred, part[k]);
        let y = choose|y: int| 0 <= y < rest.len() && rest[y] == part[k];
        assert(sessions[y] == rest[y]);
        assert(b == y);
        filter_keeps_the_order(rest, pred, i, k, a, b);
    }
}

proof fn setting_is_done(
    m: ManagerModel,
    endpoint: Seq<char>,
    process: Seq<char>,
    volume: Single,
    muted: bool,
    given_volume: Option<Single>,
    given_mute: Option<bool>,
    now: Reading,
)
    requires
        reducer::listed_once(m),
        given_volume is Some ==> volume == given_volume->0,
        given_volume is None ==> volume == reducer::resolved(m, endpoint, process).0,
        given_mute is Some ==> muted == given_mute->0,
        given_mute is None ==> muted == reducer::resolved(m, endpoint, process).1,
    ensures
        is_set(
            m,
            reducer::set_by_user(m, endpoint, process, given_volume, given_mute, now),
            endpoint,
            process,
            volume,
            muted,
            now,
        ),
{
    let outcome = reducer::set_by_user(m, endpoint, process, given_volume, given_mute, now);
    let dispatches = outcome.dispatches;
    let pred = |session: SessionModel| reducer::belongs(session, endpoint, process);
    let matching = m.sessions.filter(pred);
    kept_volume_is_the_nearest(volume);
    keeping_twice_is_keeping_once(volume, reducer::clamped_volume(volume));
    process_id_keys(process);
    live_name_is_shown(m.endpoints, endpoint);
    first_match_is_first(m.sessions, endpoint, process);
    assert forall|i: int| 0 <= i < dispatches.len() implies ({
        &&& (#[trigger] dispatches[i]).generation == m.generation
        &&& dispatches[i].command is ApplySessionVolume
        &&& is_kept_volume(volume, dispatches[i].command->volume)
        &&& dispatches[i].command->muted == muted
        &&& is_instance_of(m.sessions, endpoint, process, dispatches[i].command->instance)
    }) by {
        assert(matching.contains(matching[i]));
        m.sessions.lemma_filter_contains_rev(pred, matching[i]);
        m.sessions.lemma_filter_pred(pred, i);
        let j = choose|j: int| 0 <= j < m.sessions.len() && m.sessions[j] == matching[i];
        assert(m.sessions[j].instance == dispatches[i].command->instance);
    }
    assert forall|j: int|
        0 <= j < m.sessions.len() && (#[trigger] m.sessions[j]).endpoint == endpoint
            && m.sessions[j].process == process implies is_applied(
        dispatches,
        m.sessions[j].instance,
    ) by {
        m.sessions.lemma_filter_contains(pred, j);
        let i = choose|i: int| 0 <= i < matching.len() && matching[i] == m.sessions[j];
        assert(dispatches[i].command->instance == m.sessions[j].instance);
    }
    assert forall|i: int, k: int, a: int, b: int|
        #![trigger dispatches[i], dispatches[k], m.sessions[a], m.sessions[b]]
        0 <= i < k < dispatches.len() && 0 <= a < m.sessions.len() && 0 <= b < m.sessions.len()
            && m.sessions[a].instance == dispatches[i].command->instance && m.sessions[b].instance
            == dispatches[k].command->instance implies a < b by {
        filter_keeps_the_order(m.sessions, pred, i, k, a, b);
    }
}

/// Forgetting a program on an endpoint takes out what is remembered of it there and
/// nothing else, and it counts as forgotten there. The live view stays as it is and
/// nothing is dispatched. A change waits to be saved only where something was taken
/// out.
pub proof fn forgetting_takes_out_one_entry(m: ManagerModel, command: UiCommand, now: Reading)
    requires
        command is ForgetProfileEntry,
    ensures
        ({
            let outcome = reducer::ui_step(m, command, now);
            let after = outcome.state;
            let endpoint = command->ForgetProfileEntry_endpoint@;
            let process = command->ForgetProfileEntry_process@;
            &&& !remembers(after.store, endpoint, process)
            &&& forall|e: Seq<char>, p: Seq<char>|
                e != endpoint || p != process ==> #[trigger] same_entry(
                    m.store,
                    after.store,
                    e,
                    p,
                )
            &&& after.store.endpoints.dom() == m.store.endpoints.dom()
            &&& forall|e: Seq<char>| #[trigger]
                m.store.endpoints.contains_key(e) ==> after.store.endpoints[e].friendly_name
                    == m.store.endpoints[e].friendly_name && after.store.endpoints[e].last_seen
                    == m.store.endpoints[e].last_seen
            &&& same_but_for(m.store, after.store, endpoint)
            &&& forall|e: Seq<char>, p: Seq<char>| #[trigger]
                after.forgotten.contains((e, p)) == (m.forgotten.contains((e, p)) || (e == endpoint
                    && p == process))
            &&& if remembers(m.store, endpoint, process) {
                is_noted(m, after, now.moment)
            } else {
                after.store == m.store && after.dirty_since == m.dirty_since
            }
            &&& after.sessions == m.sessions
            &&& after.revision == m.revision
            &&& same_devices(m, after)
            &&& outcome.dispatches.len() == 0
        }),
{
    let after = reducer::ui_step(m, command, now).state;
    assert(after.store.endpoints.dom() =~= m.store.endpoints.dom());
}

/// Whether a command changes one of the settings.
pub open spec fn is_setting(command: UiCommand) -> bool {
    command is SetHotkey || command is SetAutostart || command is SetWidgetVisible || command
        is SetWidgetPosition
}

/// A setting that the user changes is stored as it was given, every other setting
/// stays, and the change waits to be saved. Nothing that is remembered or shown
/// changes, and nothing is dispatched.
pub proof fn one_setting_is_stored(m: ManagerModel, command: UiCommand, now: Reading)
    requires
        is_setting(command),
    ensures
        ({
            let outcome = reducer::ui_step(m, command, now);
            let after = outcome.state;
            let old_settings = m.store.settings;
            let new_settings = after.store.settings;
            &&& match command {
                UiCommand::SetHotkey(hotkey) => new_settings.hotkey == hotkey,
                _ => new_settings.hotkey == old_settings.hotkey,
            }
            &&& match command {
                UiCommand::SetAutostart(on) => new_settings.autostart == on,
                _ => new_settings.autostart == old_settings.autostart,
            }
            &&& match command {
                UiCommand::SetWidgetVisible(on) => new_settings.widget_visible == on,
                _ => new_settings.widget_visible == old_settings.widget_visible,
            }
            &&& match command {
                UiCommand::SetWidgetPosition(x, y) => {
                    &&& new_settings.widget_position matches Some(position)
                    &&& position.x == x
                    &&& position.y == y
                },
                _ => new_settings.widget_position == old_settings.widget_position,
            }
            &&& new_settings.switch_roles == old_settings.switch_roles
            &&& new_settings.overlay_position == old_settings.overlay_position
            &&& new_settings.overlay_opacity == old_settings.overlay_opacity
            &&& new_settings.prune_after_days == old_settings.prune_after_days
            &&& after.store.endpoints == m.store.endpoints
            &&& after.store.schema_version == m.store.schema_version
            &&& after.forgotten == m.forgotten
            &&& is_noted(m, after, now.moment)
            &&& after.sessions == m.sessions
            &&& after.revision == m.revision
            &&& same_devices(m, after)
            &&& outcome.dispatches.len() == 0
        }),
{
}

/// Showing the overlay and ending the program do not concern the state.
pub proof fn overlay_and_end_change_nothing(m: ManagerModel, command: UiCommand, now: Reading)
    requires
        command is ToggleOverlay || command is Quit,
    ensures
        reducer::ui_step(m, command, now).state == m,
        reducer::ui_step(m, command, now).dispatches.len() == 0,
{
}

// ----- saving

/// A manager that was just made holds the store that it was given, shows nothing,
/// has nothing to save, and has forgotten nothing.
pub proof fn fresh_manager_has_the_store(store: StoreModel)
    ensures
        ({
            let m = reducer::initial(store);
            &&& m.store == store
            &&& m.default_endpoint is None
            &&& m.endpoints.len() == 0
            &&& m.sessions.len() == 0
            &&& m.revision == 0
            &&& m.generation == 0
            &&& m.dirty_since is None
            &&& m.load_error is None
            &&& m.persist_error is None
            &&& forall|e: Seq<char>, p: Seq<char>| !(#[trigger] m.forgotten.contains((e, p)))
        }),
{
}

/// What waits is to be saved once it has waited for 300 milliseconds, counted from
/// the first change, and not before. Where nothing waits nothing is to be saved.
pub proof fn change_is_saved_after_the_debounce_time(m: ManagerModel, now: Moment)
    ensures
        m.dirty_since is None ==> !reducer::window_elapsed(m, now),
        m.dirty_since matches Some(since) ==> reducer::window_elapsed(m, now) == (now.nanos
            - since.nanos >= 300_000_000),
{
}

/// What is handed out for saving no longer waits, and that is all that changes.
pub proof fn handing_out_changes_nothing_else(m: ManagerModel)
    ensures
        ({
            let after = reducer::handed_out(m);
            &&& after.dirty_since is None
            &&& after.store == m.store
            &&& after.sessions == m.sessions
            &&& after.forgotten == m.forgotten
            &&& after.revision == m.revision
            &&& same_devices(m, after)
        }),
{
}

/// A save that succeeded clears the error of the last one; one that failed keeps its
/// error and makes the store wait again. Nothing else changes.
pub proof fn failed_save_is_tried_again(m: ManagerModel, result: PersistResult, at: Moment)
    ensures
        ({
            let after = reducer::save_reported(m, manager::failure_of(result), at);
            &&& match result {
                PersistResult::Saved => after.persist_error is None && after.dirty_since
                    == m.dirty_since,
                PersistResult::Failed(error) => after.persist_error == Some(error@) && is_noted(
                    m,
                    after,
                    at,
                ),
            }
            &&& after.store == m.store
            &&& after.sessions == m.sessions
            &&& after.endpoints == m.endpoints
            &&& after.default_endpoint == m.default_endpoint
            &&& after.generation == m.generation
            &&& after.revision == m.revision
            &&& after.load_error == m.load_error
            &&& after.forgotten == m.forgotten
        }),
{
}

// ----- pruning

/// How long before `now` an endpoint was seen, in nanoseconds.
pub open spec fn age(seen: Timestamp, now: Timestamp) -> int {
    (now.secs - seen.secs) * 1_000_000_000 + (now.nanos - seen.nanos)
}

/// Whether a profile is to be dropped: pruning is on, the endpoint is neither listed
/// nor the default, and it was last seen that many days ago or more.
pub open spec fn is_outdated(m: ManagerModel, id: Seq<char>, now: Timestamp) -> bool {
    &&& m.store.endpoints.contains_key(id)
    &&& m.store.settings.prune_after_days > 0
    &&& !is_listed(m.endpoints, id)
    &&& m.default_endpoint != Some(id)
    &&& age(m.store.endpoints[id].last_seen, now) >= m.store.settings.prune_after_days
        * 86_400_000_000_000
}

/// Pruning drops exactly the profiles that are outdated and keeps every other as it
/// is. A change waits to be saved exactly where one was dropped. Nothing else
/// changes.
pub proof fn pruning_drops_what_is_outdated(m: ManagerModel, now: Timestamp, at: Moment)
    requires
        m.store.endpoints.dom().finite(),
    ensures
        ({
            let after = reducer::pruned(m, now, at);
            &&& forall|id: Seq<char>| #[trigger]
                after.store.endpoints.contains_key(id) == (m.store.endpoints.contains_key(id)
                    && !is_outdated(m, id, now))
            &&& forall|id: Seq<char>| #[trigger]
                after.store.endpoints.contains_key(id) ==> after.store.endpoints[id]
                    == m.store.endpoints[id]
            &&& forall|id: Seq<char>| #[trigger]
                reducer::stale_endpoints(m, now).contains(id) == is_outdated(m, id, now)
            &&& if exists|id: Seq<char>| #[trigger] is_outdated(m, id, now) {
                is_noted(m, after, at)
            } else {
                after.dirty_since == m.dirty_since
            }
            &&& after.store.settings == m.store.settings
            &&& after.store.schema_version == m.store.schema_version
            &&& after.sessions == m.sessions
            &&& after.forgotten == m.forgotten
            &&& after.revision == m.revision
            &&& same_devices(m, after)
        }),
{
    let stale = reducer::stale_endpoints(m, now);
    assert forall|id: Seq<char>| #[trigger] stale.contains(id) == is_outdated(m, id, now) by {
        if m.store.endpoints.contains_key(id) {
            let seen = m.store.endpoints[id].last_seen;
            assert(age(seen, now) == crate::time::since_epoch(now) - crate::time::since_epoch(
                seen,
            )) by (nonlinear_arith)
                requires
                    age(seen, now) == (now.secs - seen.secs) * 1_000_000_000 + (now.nanos
                        - seen.nanos),
                    crate::time::since_epoch(now) == now.secs * 1_000_000_000 + now.nanos,
                    crate::time::since_epoch(seen) == seen.secs * 1_000_000_000 + seen.nanos,
            ;
        }
    }
    if stale.len() == 0 {
        assert forall|id: Seq<char>| !(#[trigger] is_outdated(m, id, now)) by {
            if is_outdated(m, id, now) {
                assert(stale.contains(id));
                stale.lemma_len0_is_empty();
            }
        }
    } else {
        let id = stale.choose();
        assert(stale.contains(id)) by {
            if forall|x: Seq<char>| !stale.contains(x) {
                assert(stale =~= Set::empty());
            }
        }
        assert(is_outdated(m, id, now));
    }
}

/// The profile of an endpoint outlives every pruning less than the set number of
/// days after a switch to it, however long it was unseen before.
pub proof fn switched_to_endpoint_is_kept(
    m: ManagerModel,
    event: AudioEvent,
    now: Reading,
    later: Timestamp,
    at: Moment,
)
    requires
        m.store.endpoints.dom().finite(),
        reducer::listed_once(m),
        is_switch(m, event),
        event->DefaultEndpointChanged_id is Some,
        age(now.wall, later) < m.store.settings.prune_after_days * 86_400_000_000_000,
    ensures
        ({
            let endpoint = event->DefaultEndpointChanged_id->0@;
            let used = reducer::audio_step(m, event, now).state;
            // Whatever becomes the default, and whatever is unplugged, in between.
            forall|left: ManagerModel|
                left.store == used.store ==> #[trigger] reducer::pruned(
                    left,
                    later,
                    at,
                ).store.endpoints.contains_key(endpoint)
        }),
{
    switch_is_remembered(m, event, now);
    let endpoint = event->DefaultEndpointChanged_id->0@;
    let used = reducer::audio_step(m, event, now).state;
    assert(used.store.endpoints.dom() =~= m.store.endpoints.dom().insert(endpoint));
    assert forall|left: ManagerModel| left.store == used.store implies #[trigger] reducer::pruned(
        left,
        later,
        at,
    ).store.endpoints.contains_key(endpoint) by {
        pruning_drops_what_is_outdated(left, later, at);
    }
}

/// The profile of an endpoint outlives every pruning less than the set number of
/// days after a volume was changed on it.
pub proof fn recorded_endpoint_is_kept(
    m: ManagerModel,
    event: AudioEvent,
    now: Reading,
    i: int,
    later: Timestamp,
    at: Moment,
)
    requires
        m.store.endpoints.dom().finite(),
        reducer::listed_once(m),
        event is SessionVolumeChanged,
        0 <= i < m.sessions.len(),
        m.sessions[i].instance == event->SessionVolumeChanged_instance@,
        !event->own_change,
        !known_by_id_only(m.sessions[i].process),
        age(now.wall, later) < m.store.settings.prune_after_days * 86_400_000_000_000,
    ensures
        ({
            let endpoint = m.sessions[i].endpoint;
            let used = reducer::audio_step(m, event, now).state;
            forall|left: ManagerModel|
                left.store == used.store ==> remembers(
                    #[trigger] reducer::pruned(left, later, at).store,
                    endpoint,
                    m.sessions[i].process,
                )
        }),
{
    changed_volume_is_shown_and_recorded(m, event, now, i);
    let endpoint = m.sessions[i].endpoint;
    let used = reducer::audio_step(m, event, now).state;
    assert(used.store.endpoints.dom() =~= m.store.endpoints.dom().insert(endpoint));
    assert forall|left: ManagerModel| left.store == used.store implies remembers(
        #[trigger] reducer::pruned(left, later, at).store,
        endpoint,
        m.sessions[i].process,
    ) by {
        pruning_drops_what_is_outdated(left, later, at);
    }
}

// ----- what is shown

/// Whether one pair of texts comes before another: by the first text, and by the
/// second where the first ones are the same.
pub open spec fn comes_before(
    first: (Seq<char>, Seq<char>),
    second: (Seq<char>, Seq<char>),
) -> bool {
    if first.0 == second.0 {
        text::le(first.1, second.1)
    } else {
        text::le(first.0, second.0)
    }
}

/// A snapshot lists every endpoint and every live session once and no other, the
/// endpoints by name and then id, the sessions by program and then instance. It shows
/// the default endpoint and the revision of the state.
pub proof fn snapshot_lists_everything_in_order(snapshot: Snapshot, m: ManagerModel)
    requires
        manager::shows(snapshot, m),
    ensures
        snapshot.endpoints@.len() == m.endpoints.len(),
        forall|endpoint: EndpointModel|
            m.endpoints.contains(endpoint) ==> exists|i: int|
                0 <= i < snapshot.endpoints@.len() && (#[trigger] snapshot.endpoints@[i])@
                    == endpoint,
        forall|i: int|
            0 <= i < snapshot.endpoints@.len() ==> m.endpoints.contains(
                (#[trigger] snapshot.endpoints@[i])@,
            ),
        forall|i: int, j: int|
            0 <= i < j < snapshot.endpoints@.len() ==> comes_before(
                ((#[trigger] snapshot.endpoints@[i]).friendly_name@, snapshot.endpoints@[i].id@),
                ((#[trigger] snapshot.endpoints@[j]).friendly_name@, snapshot.endpoints@[j].id@),
            ),
        snapshot.live_sessions@.len() == m.sessions.len(),
        forall|session: SessionModel|
            m.sessions.contains(session) ==> exists|i: int|
                0 <= i < snapshot.live_sessions@.len() && (#[trigger] snapshot.live_sessions@[i])@
                    == session,
        forall|i: int|
            0 <= i < snapshot.live_sessions@.len() ==> m.sessions.contains(
                (#[trigger] snapshot.live_sessions@[i])@,
            ),
        forall|i: int, j: int|
            0 <= i < j < snapshot.live_sessions@.len() ==> comes_before(
                (
                    (#[trigger] snapshot.live_sessions@[i]).process@,
                    snapshot.live_sessions@[i].instance@,
                ),
                (
                    (#[trigger] snapshot.live_sessions@[j]).process@,
                    snapshot.live_sessions@[j].instance@,
                ),
            ),
        match snapshot.default_endpoint {
            Some(id) => m.default_endpoint == Some(id@),
            None => m.default_endpoint is None,
        },
        snapshot.revision == m.revision,
{
    broadcast use vstd::seq_lib::group_to_multiset_ensures;

    let endpoints = messages::endpoint_models(snapshot.endpoints@);
    let sessions = messages::session_models(snapshot.live_sessions@);
    assert(endpoints.to_multiset().len() == m.endpoints.to_multiset().len());
    assert(sessions.to_multiset().len() == m.sessions.to_multiset().len());
    assert forall|endpoint: EndpointModel| m.endpoints.contains(endpoint) implies exists|i: int|
        0 <= i < snapshot.endpoints@.len() && (#[trigger] snapshot.endpoints@[i])@ == endpoint by {
        assert(m.endpoints.to_multiset().count(endpoint) > 0);
        assert(endpoints.to_multiset().count(endpoint) > 0);
        let i = choose|i: int| 0 <= i < endpoints.len() && endpoints[i] == endpoint;
        assert(snapshot.endpoints@[i]@ == endpoint);
    }
    assert forall|i: int| 0 <= i < snapshot.endpoints@.len() implies m.endpoints.contains(
        (#[trigger] snapshot.endpoints@[i])@,
    ) by {
        assert(endpoints[i] == snapshot.endpoints@[i]@);
        assert(endpoints.contains(endpoints[i]));
        assert(endpoints.to_multiset().count(endpoints[i]) > 0);
        assert(m.endpoints.to_multiset().count(endpoints[i]) > 0);
    }
    assert forall|session: SessionModel| m.sessions.contains(session) implies exists|i: int|
        0 <= i < snapshot.live_sessions@.len() && (#[trigger] snapshot.live_sessions@[i])@
            == session by {
        assert(m.sessions.to_multiset().count(session) > 0);
        assert(sessions.to_multiset().count(session) > 0);
        let i = choose|i: int| 0 <= i < sessions.len() && sessions[i] == session;
        assert(snapshot.live_sessions@[i]@ == session);
    }
    assert forall|i: int| 0 <= i < snapshot.live_sessions@.len() implies m.sessions.contains(
        (#[trigger] snapshot.live_sessions@[i])@,
    ) by {
        assert(sessions[i] == snapshot.live_sessions@[i]@);
        assert(sessions.contains(sessions[i]));
        assert(sessions.to_multiset().count(sessions[i]) > 0);
        assert(m.sessions.to_multiset().count(sessions[i]) > 0);
    }
    assert forall|i: int, j: int| 0 <= i < j < snapshot.endpoints@.len() implies comes_before(
        ((#[trigger] snapshot.endpoints@[i]).friendly_name@, snapshot.endpoints@[i].id@),
        ((#[trigger] snapshot.endpoints@[j]).friendly_name@, snapshot.endpoints@[j].id@),
    ) by {
        assert(EndpointView::precedes(endpoints[i], endpoints[j]));
    }
    assert forall|i: int, j: int| 0 <= i < j < snapshot.live_sessions@.len() implies comes_before(
        ((#[trigger] snapshot.live_sessions@[i]).process@, snapshot.live_sessions@[i].instance@),
        ((#[trigger] snapshot.live_sessions@[j]).process@, snapshot.live_sessions@[j].instance@),
    ) by {
        assert(SessionView::precedes(sessions[i], sessions[j]));
    }
}

} // verus!
