//! The state manager: it folds audio events and user commands into the profile
//! store and the live view, says what the audio layer must do, and decides when
//! the store is saved.

use crate::arrange;
use crate::forgotten::Forgotten;
use crate::laws;
use crate::messages::{
    AudioEvent, CoreCommand, DataFlow, EndpointId, EndpointModel, EndpointState, EndpointView,
    ProcessKey, Role, SessionInfo, SessionInstanceId, SessionModel, SessionState, SessionView,
    Snapshot, UiCommand,
};
use crate::messages;
use crate::reducer::{DispatchModel, ManagerModel};
use crate::reducer;
use crate::repository::{ProfileRepository, RepoError};
use crate::repository;
use crate::single::Single;
use crate::single;
use crate::store::{EndpointProfile, Position, ProfileModel, ProfileStore, SessionEntry, Settings};
use crate::store;
use crate::table::Table;
use crate::text;
use crate::time::{Clock, Moment, Reading, Timestamp};
use crate::time;
use std::sync::Arc;
use vstd::prelude::*;

verus! {

/// How long a change waits before it is saved, in nanoseconds: bursts of changes
/// collapse into one save.
pub const PERSIST_DEBOUNCE: u64 = 300_000_000;

/// A command together with the switch generation it was produced under. The
/// audio layer may drop a command whose generation is no longer the newest.
#[derive(Debug)]
pub struct Dispatch {
    pub generation: u64,
    pub command: CoreCommand,
}

impl View for Dispatch {
    type V = DispatchModel;

    open spec fn view(&self) -> DispatchModel {
        DispatchModel { generation: self.generation as nat, command: self.command@ }
    }
}

/// The models of a list of dispatches.
pub open spec fn dispatch_models(dispatches: Seq<Dispatch>) -> Seq<DispatchModel> {
    dispatches.map_values(|dispatch: Dispatch| dispatch@)
}

impl Dispatch {
    fn new(generation: u64, command: CoreCommand) -> (dispatch: Self)
        ensures
            dispatch@ == (DispatchModel { generation: generation as nat, command: command@ }),
    {
        Dispatch { generation, command }
    }

    /// Whether a newer switch has superseded this command.
    pub fn is_stale(&self, current_generation: u64) -> (stale: bool)
        ensures
            stale == (self@.generation < current_generation),
    {
        self.generation < current_generation
    }

    pub fn command(&self) -> (command: &CoreCommand)
        ensures
            command@ == self@.command,
    {
        &self.command
    }
}

/// A store to be saved.
#[derive(Debug)]
pub struct PersistRequest(pub Arc<ProfileStore>);

/// How a save went.
#[derive(Debug)]
pub enum PersistResult {
    Saved,
    Failed(RepoError),
}

/// The failure that a result reports.
pub open spec fn failure_of(result: PersistResult) -> Option<repository::RepoErrorModel> {
    match result {
        PersistResult::Saved => None,
        PersistResult::Failed(error) => Some(error@),
    }
}

/// Keeps every recorded and applied volume inside `0.0..=1.0`; NaN counts as
/// silence.
pub fn clamp_volume(volume: Single) -> (clamped: Single)
    ensures
        clamped == reducer::clamped_volume(volume),
{
    if volume.is_nan() {
        return Single { bits: single::ZERO_BITS };
    }
    volume.clamp(Single { bits: single::ZERO_BITS }, Single { bits: single::ONE_BITS })
}

/// Whether a process key names a program only by its process id.
pub fn is_pid_keyed(process: &str) -> (yes: bool)
    ensures
        yes == reducer::is_pid_keyed(process@),
{
    let chars = text::chars_of(process);
    if chars.len() >= 4 && chars[0] == 'p' && chars[1] == 'i' && chars[2] == 'd' && chars[3]
        == ':' {
        assert(process@.take(4) =~= reducer::pid_prefix());
        assert(reducer::pid_prefix() =~= process@.subrange(0, 4));
        true
    } else {
        proof {
            if reducer::is_pid_keyed(process@) {
                let prefix = reducer::pid_prefix();
                assert(prefix == process@.subrange(0, 4));
                assert(process@.subrange(0, 4)[0] == prefix[0]);
                assert(process@.subrange(0, 4)[1] == prefix[1]);
                assert(process@.subrange(0, 4)[2] == prefix[2]);
                assert(process@.subrange(0, 4)[3] == prefix[3]);
            }
        }
        false
    }
}

fn same_optional(a: &Option<String>, b: &Option<String>) -> (yes: bool)
    ensures
        yes == (messages::optional_text(*a) == messages::optional_text(*b)),
{
    match (a, b) {
        (Some(x), Some(y)) => text::same(x.as_str(), y.as_str()),
        (None, None) => true,
        _ => false,
    }
}

fn find_endpoint(endpoints: &Vec<EndpointView>, id: &str) -> (place: Option<usize>)
    ensures
        match place {
            Some(i) => i < endpoints@.len() && endpoints@[i as int]@.id == id@,
            None => reducer::endpoint_place(messages::endpoint_models(endpoints@), id@) is None,
        },
{
    let mut i: usize = 0;
    while i < endpoints.len()
        invariant
            i <= endpoints@.len(),
            forall|j: int| 0 <= j < i ==> (#[trigger] endpoints@[j])@.id != id@,
        decreases endpoints@.len() - i,
    {
        if text::same(endpoints[i].id.as_str(), id) {
            return Some(i);
        }
        i += 1;
    }
    proof {
        let models = messages::endpoint_models(endpoints@);
        assert forall|j: int| 0 <= j < models.len() implies (#[trigger] models[j]).id != id@ by {
            assert(models[j] == endpoints@[j]@);
        }
    }
    None
}

fn find_session(sessions: &Vec<SessionView>, instance: &str) -> (place: Option<usize>)
    ensures
        match place {
            Some(i) => i < sessions@.len() && sessions@[i as int]@.instance == instance@,
            None => reducer::session_place(messages::session_models(sessions@), instance@) is None,
        },
{
    let mut i: usize = 0;
    while i < sessions.len()
        invariant
            i <= sessions@.len(),
            forall|j: int| 0 <= j < i ==> (#[trigger] sessions@[j])@.instance != instance@,
        decreases sessions@.len() - i,
    {
        if text::same(sessions[i].instance.as_str(), instance) {
            return Some(i);
        }
        i += 1;
    }
    proof {
        let models = messages::session_models(sessions@);
        assert forall|j: int| 0 <= j < models.len() implies (#[trigger] models[j]).instance
            != instance@ by {
            assert(models[j] == sessions@[j]@);
        }
    }
    None
}

/// Whether a snapshot shows a state: every endpoint by name and id, every session
/// by process and instance, the default endpoint and the revision.
pub open spec fn shows(snapshot: Snapshot, m: ManagerModel) -> bool {
    &&& arrange::in_order::<EndpointView>(messages::endpoint_models(snapshot.endpoints@))
    &&& messages::endpoint_models(snapshot.endpoints@).to_multiset() == m.endpoints.to_multiset()
    &&& arrange::in_order::<SessionView>(messages::session_models(snapshot.live_sessions@))
    &&& messages::session_models(snapshot.live_sessions@).to_multiset()
        == m.sessions.to_multiset()
    &&& messages::optional_text(snapshot.default_endpoint) == m.default_endpoint
    &&& snapshot.revision == m.revision
}

/// Authoritative state: the store, and a live view that is not stored.
pub struct StateManager {
    store: ProfileStore,
    default_endpoint: Option<EndpointId>,
    live_endpoints: Vec<EndpointView>,
    live_sessions: Vec<SessionView>,
    revision: u64,
    /// When the first change since the last save request was made.
    dirty_since: Option<Moment>,
    switch_generation: u64,
    load_error: Option<RepoError>,
    persist_error: Option<RepoError>,
    forgotten: Forgotten,
    clock: Clock,
}

impl View for StateManager {
    type V = ManagerModel;

    closed spec fn view(&self) -> ManagerModel {
        ManagerModel {
            store: self.store@,
            default_endpoint: messages::optional_text(self.default_endpoint),
            endpoints: messages::endpoint_models(self.live_endpoints@),
            sessions: messages::session_models(self.live_sessions@),
            revision: self.revision as nat,
            dirty_since: self.dirty_since,
            generation: self.switch_generation as nat,
            load_error: repository::optional_error(self.load_error),
            persist_error: repository::optional_error(self.persist_error),
            forgotten: self.forgotten@,
        }
    }
}

impl StateManager {
    /// Nothing is listed twice, in the store or in the live view, every live volume
    /// lies in the range, and nothing is remembered that is forgotten.
    /// [`wf_gives`] says what follows for the model.
    pub closed spec fn wf(&self) -> bool {
        &&& self.store.wf()
        &&& reducer::listed_once(self@)
        &&& laws::live_volumes_in_range(self@)
        &&& laws::forgotten_is_gone(self@)
    }

    /// Whether the revision and the generation can still count one up.
    pub open spec fn has_room(&self) -> bool {
        self@.revision < u64::MAX && self@.generation < u64::MAX
    }

    /// A manager around `store`.
    pub fn from_store(store: ProfileStore) -> (manager: Self)
        requires
            store.wf(),
        ensures
            manager.wf(),
            manager@ == reducer::initial(store@),
    {
        let manager = StateManager {
            store,
            default_endpoint: None,
            live_endpoints: Vec::new(),
            live_sessions: Vec::new(),
            revision: 0,
            dirty_since: None,
            switch_generation: 0,
            load_error: None,
            persist_error: None,
            forgotten: Forgotten::new(),
            clock: Clock::start(),
        };
        assert(manager@.endpoints =~= Seq::<EndpointModel>::empty());
        assert(manager@.sessions =~= Seq::<SessionModel>::empty());
        manager
    }

    /// A manager around what a repository loaded. Where loading failed, it
    /// starts from the default store and keeps the error.
    pub fn from_load(loaded: Result<ProfileStore, RepoError>) -> (manager: Self)
        requires
            loaded matches Ok(store) ==> store.wf(),
        ensures
            manager.wf(),
            manager@ == match loaded {
                Ok(store) => reducer::initial(store@),
                Err(error) => ManagerModel {
                    load_error: Some(error@),
                    ..reducer::initial(store::empty_store())
                },
            },
    {
        match loaded {
            Ok(store) => StateManager::from_store(store),
            Err(error) => {
                let mut manager = StateManager::from_store(ProfileStore::default());
                manager.load_error = Some(error);
                manager
            },
        }
    }

    /// A manager around what `repository` loads.
    pub fn new<R: ProfileRepository>(repository: &R) -> (manager: Self)
        ensures
            manager.wf(),
            exists|loaded: Result<ProfileStore, RepoError>|
                {
                    &&& #[trigger] call_ensures(R::load, (repository,), loaded)
                    &&& manager@ == match loaded {
                        Ok(store) => reducer::initial(store@),
                        Err(error) => ManagerModel {
                            load_error: Some(error@),
                            ..reducer::initial(store::empty_store())
                        },
                    }
                },
    {
        let loaded = repository.load();
        assert(call_ensures(R::load, (repository,), loaded));
        StateManager::from_load(loaded)
    }

    // ----- reading the clock

    /// The present moment on this manager's clock, which depends on the time of
    /// the call.
    pub fn now(&self) -> Moment {
        self.clock.moment()
    }

    /// The present moment and the present wall-clock time.
    pub fn reading(&self) -> (reading: Reading)
        ensures
            time::can_be_shown(reading.wall),
    {
        self.clock.read()
    }

    // ----- persistence

    fn mark_dirty(&mut self, at: Moment)
        requires
            old(self).wf(),
        ensures
            final(self).wf(),
            final(self)@ == reducer::marked_dirty(old(self)@, at),
    {
        if self.dirty_since.is_none() {
            self.dirty_since = Some(at);
        }
    }

    /// Makes the endpoint's profile, if needed, and notes that it was seen.
    fn touch_endpoint(&mut self, endpoint: &str, at: Timestamp)
        requires
            old(self).wf(),
        ensures
            final(self).wf(),
            final(self)@ == reducer::touched(old(self)@, endpoint@, at),
    {
        let place = find_endpoint(&self.live_endpoints, endpoint);
        let name: String = match place {
            Some(i) => self.live_endpoints[i].friendly_name.clone(),
            None => String::new(),
        };
        proof {
            if let Some(i) = place {
                assert(self@.endpoints[i as int].id == endpoint@);
            }
            assert(name@ == reducer::live_name(self@.endpoints, endpoint@));
        }
        if !self.store.endpoints.contains_key(endpoint) {
            let profile = EndpointProfile {
                friendly_name: String::new(),
                last_seen: at,
                sessions: Table::new(),
            };
            self.store.endpoints.insert(endpoint.to_owned(), profile);
        }
        match self.store.endpoints.get_mut(endpoint) {
            Some(profile) => {
                if !name.as_str().is_empty() {
                    profile.friendly_name = name;
                }
                profile.last_seen = at;
            },
            None => {},
        }
        proof {
            assert(self@.store.endpoints =~= reducer::touched(old(self)@, endpoint@, at).store.endpoints);
        }
    }

    /// Records a volume and arms the debounce.
    fn record_entry(
        &mut self,
        endpoint: &str,
        process: &str,
        volume: Single,
        muted: bool,
        now: Reading,
    )
        requires
            old(self).wf(),
        ensures
            final(self).wf(),
            final(self)@ == reducer::recorded(
                old(self)@,
                endpoint@,
                process@,
                volume,
                muted,
                now,
            ),
    {
        if is_pid_keyed(process) {
            return;
        }
        let entry = SessionEntry { volume: clamp_volume(volume), muted, updated_at: now.wall };
        self.touch_endpoint(endpoint, now.wall);
        let ghost seen = self@;
        proof {
            let profile = reducer::seen_profile(old(self)@, endpoint@, now.wall);
            assert(seen.store.endpoints[endpoint@] == profile);
            assert(seen.store.endpoints.contains_key(endpoint@));
            assert(self.store.endpoints@[endpoint@]@ == profile);
        }
        match self.store.endpoints.get_mut(endpoint) {
            Some(profile) => {
                profile.sessions.insert(process.to_owned(), entry);
            },
            None => {},
        }
        proof {
            let profile = reducer::seen_profile(old(self)@, endpoint@, now.wall);
            assert(self@.store.endpoints =~= seen.store.endpoints.insert(
                endpoint@,
                ProfileModel { sessions: profile.sessions.insert(process@, entry), ..profile },
            ));
            assert(self@.store.endpoints =~= old(self)@.store.endpoints.insert(
                endpoint@,
                ProfileModel { sessions: profile.sessions.insert(process@, entry), ..profile },
            ));
        }
        self.forgotten.remove(endpoint, process);
        self.mark_dirty(now.moment);
    }

    // ----- audio events

    /// Folds one audio event into the state and gives the commands that the
    /// audio layer must execute, in order. The present time is read from the
    /// manager's clock.
    pub fn handle_audio_event(&mut self, event: AudioEvent) -> (dispatches: Vec<Dispatch>)
        requires
            old(self).wf(),
            old(self).has_room(),
        ensures
            final(self).wf(),
            exists|now: Reading|
                {
                    let outcome = #[trigger] reducer::audio_step(old(self)@, event, now);
                    &&& time::can_be_shown(now.wall)
                    &&& final(self)@ == outcome.state
                    &&& dispatch_models(dispatches@) == outcome.dispatches
                },
    {
        let now = self.clock.read();
        self.handle_audio_event_at(event, now)
    }

    /// [`StateManager::handle_audio_event`] at the time `now`.
    pub fn handle_audio_event_at(&mut self, event: AudioEvent, now: Reading) -> (dispatches: Vec<
        Dispatch,
    >)
        requires
            old(self).wf(),
            old(self).has_room(),
        ensures
            final(self).wf(),
            final(self)@ == reducer::audio_step(old(self)@, event, now).state,
            dispatch_models(dispatches@) == reducer::audio_step(old(self)@, event, now).dispatches,
    {
        let mut dispatches: Vec<Dispatch> = Vec::new();
        match event {
            AudioEvent::DefaultEndpointChanged { flow, role, id } => {
                return self.on_default_endpoint_changed(flow, role, id, now);
            },
            AudioEvent::EndpointStateChanged { id, state } => {
                self.on_endpoint_state_changed(id, state);
            },
            AudioEvent::EndpointAdded { id, friendly_name } => {
                self.on_endpoint_added(id, friendly_name);
            },
            AudioEvent::EndpointRemoved(id) => {
                self.on_endpoint_removed(id.as_str());
            },
            AudioEvent::SessionCreated { endpoint, session } => {
                return self.on_session_created(endpoint, session, now);
            },
            AudioEvent::SessionVolumeChanged { instance, volume, muted, own_change } => {
                self.on_session_volume_changed(instance.as_str(), volume, muted, own_change, now);
            },
            AudioEvent::SessionStateChanged { instance, state } => {
                self.on_session_state_changed(instance.as_str(), state);
            },
            AudioEvent::SessionDisconnected { instance, reason: _ } => {
                self.on_session_disconnected(instance.as_str());
            },
            AudioEvent::CoreError(_) => {},
        }
        assert(dispatch_models(dispatches@) =~= Seq::<DispatchModel>::empty());
        dispatches
    }

    /// The restore path. Windows reports a switch once per role, and some
    /// hardware reports one role more than once: a single role is the trigger,
    /// and a change to the present default is ignored.
    fn on_default_endpoint_changed(
        &mut self,
        flow: DataFlow,
        role: Role,
        id: Option<EndpointId>,
        now: Reading,
    ) -> (dispatches: Vec<Dispatch>)
        requires
            old(self).wf(),
            old(self).has_room(),
        ensures
            final(self).wf(),
            final(self)@ == reducer::default_changed(
                old(self)@,
                flow,
                role,
                messages::optional_text(id),
                now,
            ).state,
            dispatch_models(dispatches@) == reducer::default_changed(
                old(self)@,
                flow,
                role,
                messages::optional_text(id),
                now,
            ).dispatches,
    {
        let mut dispatches: Vec<Dispatch> = Vec::new();
        if flow != DataFlow::Render || role != Role::Multimedia || same_optional(
            &self.default_endpoint,
            &id,
        ) {
            assert(dispatch_models(dispatches@) =~= Seq::<DispatchModel>::empty());
            return dispatches;
        }
        let ghost target = messages::optional_text(id);
        self.default_endpoint = id.clone();
        self.switch_generation = self.switch_generation + 1;
        self.revision = self.revision + 1;
        let generation: u64 = self.switch_generation;
        assert(messages::optional_text(self.default_endpoint) == target);
        match id {
            None => {
                assert(dispatch_models(dispatches@) =~= Seq::<DispatchModel>::empty());
            },
            Some(endpoint) => {
                self.touch_endpoint(endpoint.as_str(), now.wall);
                let ghost seen = self@;
                let ghost sessions = old(self)@.sessions;
                dispatches.push(
                    Dispatch::new(generation, CoreCommand::ResyncEndpoint(endpoint.clone())),
                );
                let ghost resync = dispatch_models(dispatches@);
                assert(resync =~= seq![
                    DispatchModel {
                        generation: generation as nat,
                        command: messages::CommandModel::ResyncEndpoint(endpoint@),
                    },
                ]);
                let count: usize = self.live_sessions.len();
                let mut i: usize = 0;
                assert(sessions.take(0) =~= Seq::<SessionModel>::empty());
                assert(resync + Seq::<DispatchModel>::empty() =~= resync);
                while i < count
                    invariant
                        i <= count,
                        count == sessions.len(),
                        self.wf(),
                        seen.sessions == sessions,
                        self@ == reducer::restored_each(
                            seen,
                            sessions.take(i as int),
                            endpoint@,
                            generation as nat,
                            now,
                        ).state,
                        dispatch_models(dispatches@) == resync + reducer::restored_each(
                            seen,
                            sessions.take(i as int),
                            endpoint@,
                            generation as nat,
                            now,
                        ).dispatches,
                    decreases count - i,
                {
                    let ghost so_far = sessions.take(i as int);
                    let ghost next = sessions.take(i + 1);
                    proof {
                        assert(next.drop_last() =~= so_far);
                        assert(next.last() == sessions[i as int]);
                        restoring_keeps_live_view(seen, so_far, endpoint@, generation as nat, now);
                    }
                    let session = self.live_sessions[i].clone();
                    assert(session@ == sessions[i as int]);
                    if text::same(session.endpoint.as_str(), endpoint.as_str()) {
                        let ghost earlier = dispatch_models(dispatches@);
                        let restore = self.restore_or_seed(&session, generation, now);
                        if let Some(dispatch) = restore {
                            dispatches.push(dispatch);
                        }
                        proof {
                            let before = reducer::restored_each(
                                seen,
                                so_far,
                                endpoint@,
                                generation as nat,
                                now,
                            );
                            let here = reducer::restored_or_seeded(
                                before.state,
                                session@,
                                generation as nat,
                                now,
                            );
                            assert(dispatch_models(dispatches@) =~= earlier + here.dispatches);
                            assert(resync + (before.dispatches + here.dispatches) =~= (resync
                                + before.dispatches) + here.dispatches);
                        }
                    }
                    i += 1;
                }
                assert(sessions.take(count as int) =~= sessions);
                self.mark_dirty(now.moment);
            },
        }
        dispatches
    }

    /// Sets one session to what is remembered, or records it on a first
    /// sighting. The live view keeps showing what the session has until the
    /// audio layer reports the change.
    fn restore_or_seed(&mut self, session: &SessionView, generation: u64, now: Reading) -> (
        dispatch: Option<Dispatch>)
        requires
            old(self).wf(),
        ensures
            final(self).wf(),
            final(self)@ == reducer::restored_or_seeded(
                old(self)@,
                session@,
                generation as nat,
                now,
            ).state,
            match dispatch {
                Some(d) => seq![d@] == reducer::restored_or_seeded(
                    old(self)@,
                    session@,
                    generation as nat,
                    now,
                ).dispatches,
                None => Seq::<DispatchModel>::empty() == reducer::restored_or_seeded(
                    old(self)@,
                    session@,
                    generation as nat,
                    now,
                ).dispatches,
            },
    {
        let stored = self.stored_entry(session.endpoint.as_str(), session.process.as_str());
        match stored {
            Some(entry) => Some(
                Dispatch::new(
                    generation,
                    CoreCommand::ApplySessionVolume {
                        instance: session.instance.clone(),
                        volume: clamp_volume(entry.volume),
                        muted: entry.muted,
                    },
                ),
            ),
            None => {
                self.record_entry(
                    session.endpoint.as_str(),
                    session.process.as_str(),
                    session.volume,
                    session.muted,
                    now,
                );
                None
            },
        }
    }

    fn stored_entry(&self, endpoint: &str, process: &str) -> (entry: Option<SessionEntry>)
        requires
            self.wf(),
        ensures
            entry == reducer::stored_entry(self@.store, endpoint@, process@),
    {
        match self.store.endpoints.get(endpoint) {
            Some(profile) => match profile.sessions.get(process) {
                Some(entry) => Some(*entry),
                None => None,
            },
            None => None,
        }
    }

    fn on_session_created(&mut self, endpoint: EndpointId, session: SessionInfo, now: Reading) -> (
        dispatches: Vec<Dispatch>)
        requires
            old(self).wf(),
            old(self).has_room(),
        ensures
            final(self).wf(),
            ({
                let created = SessionModel {
                    instance: session.instance@,
                    process: session.process@,
                    endpoint: endpoint@,
                    volume: session.volume,
                    muted: session.muted,
                    state: SessionState::Active,
                };
                let outcome = reducer::session_created(old(self)@, created, now);
                final(self)@ == outcome.state && dispatch_models(dispatches@)
                    == outcome.dispatches
            }),
    {
        let view = SessionView {
            instance: session.instance,
            process: session.process,
            endpoint,
            volume: clamp_volume(session.volume),
            muted: session.muted,
            state: SessionState::Active,
        };
        let ghost before = self@;
        let place = find_session(&self.live_sessions, view.instance.as_str());
        match place {
            Some(i) => {
                proof {
                    session_is_at(before, i as int);
                }
                self.live_sessions.set(i, view.clone());
            },
            None => {
                self.live_sessions.push(view.clone());
            },
        }
        self.revision = self.revision + 1;
        proof {
            assert(self@.sessions =~= reducer::session_put(before.sessions, view@));
            putting_keeps_sessions_listed_once(before, view@);
        }
        let generation: u64 = self.switch_generation;
        let mut dispatches: Vec<Dispatch> = Vec::new();
        if self.forgotten.contains(view.endpoint.as_str(), view.process.as_str()) {
            assert(dispatch_models(dispatches@) =~= Seq::<DispatchModel>::empty());
            return dispatches;
        }
        let restore = self.restore_or_seed(&view, generation, now);
        match restore {
            Some(dispatch) => {
                let ghost model = dispatch@;
                dispatches.push(dispatch);
                assert(dispatch_models(dispatches@) =~= seq![model]);
            },
            None => {
                assert(dispatch_models(dispatches@) =~= Seq::<DispatchModel>::empty());
            },
        }
        dispatches
    }

    fn on_session_volume_changed(
        &mut self,
        instance: &str,
        volume: Single,
        muted: bool,
        own_change: bool,
        now: Reading,
    )
        requires
            old(self).wf(),
            old(self).has_room(),
        ensures
            final(self).wf(),
            final(self)@ == reducer::volume_changed(
                old(self)@,
                instance@,
                volume,
                muted,
                own_change,
                now,
            ),
    {
        let ghost before = self@;
        let place = find_session(&self.live_sessions, instance);
        match place {
            None => {},
            Some(i) => {
                proof {
                    session_is_at(before, i as int);
                }
                let mut session = self.live_sessions[i].clone();
                session.volume = clamp_volume(volume);
                session.muted = muted;
                let endpoint = session.endpoint.clone();
                let process = session.process.clone();
                let ghost changed = session@;
                self.live_sessions.set(i, session);
                self.revision = self.revision + 1;
                assert(self@.sessions =~= before.sessions.update(i as int, changed));
                if !own_change {
                    self.record_entry(endpoint.as_str(), process.as_str(), volume, muted, now);
                }
            },
        }
    }

    fn on_session_state_changed(&mut self, instance: &str, state: SessionState)
        requires
            old(self).wf(),
            old(self).has_room(),
        ensures
            final(self).wf(),
            final(self)@ == reducer::session_state_changed(old(self)@, instance@, state),
    {
        let ghost before = self@;
        let place = find_session(&self.live_sessions, instance);
        if let Some(i) = place {
            proof {
                session_is_at(before, i as int);
            }
            let mut session = self.live_sessions[i].clone();
            session.state = state;
            let ghost changed = session@;
            self.live_sessions.set(i, session);
            self.revision = self.revision + 1;
            assert(self@.sessions =~= before.sessions.update(i as int, changed));
        }
    }

    fn on_session_disconnected(&mut self, instance: &str)
        requires
            old(self).wf(),
            old(self).has_room(),
        ensures
            final(self).wf(),
            final(self)@ == reducer::session_disconnected(old(self)@, instance@),
    {
        let ghost before = self@;
        let place = find_session(&self.live_sessions, instance);
        if let Some(i) = place {
            proof {
                session_is_at(before, i as int);
            }
            let _ = self.live_sessions.remove(i);
            self.revision = self.revision + 1;
            assert(self@.sessions =~= before.sessions.remove(i as int));
            assert(reducer::listed_once(self@)) by {
                let now = self@.sessions;
                assert forall|a: int, b: int| 0 <= a < b < now.len() implies (
                #[trigger] now[a]).instance != (#[trigger] now[b]).instance by {
                    let x = if a < i {
                        a
                    } else {
                        a + 1
                    };
                    let y = if b < i {
                        b
                    } else {
                        b + 1
                    };
                    assert(before.sessions[x].instance != before.sessions[y].instance);
                }
            }
        }
    }

    fn on_endpoint_added(&mut self, id: EndpointId, friendly_name: String)
        requires
            old(self).wf(),
            old(self).has_room(),
        ensures
            final(self).wf(),
            final(self)@ == reducer::endpoint_added(old(self)@, id@, friendly_name@),
    {
        let name = if friendly_name.as_str().is_empty() {
            self.known_friendly_name(id.as_str())
        } else {
            friendly_name
        };
        self.put_endpoint(EndpointView { id, friendly_name: name, state: EndpointState::Active });
        self.revision = self.revision + 1;
    }

    fn on_endpoint_state_changed(&mut self, id: EndpointId, state: EndpointState)
        requires
            old(self).wf(),
            old(self).has_room(),
        ensures
            final(self).wf(),
            final(self)@ == reducer::endpoint_state_changed(old(self)@, id@, state),
    {
        let place = find_endpoint(&self.live_endpoints, id.as_str());
        let name = match place {
            Some(i) => {
                proof {
                    endpoint_is_at(self@, i as int);
                }
                self.live_endpoints[i].friendly_name.clone()
            },
            None => self.known_friendly_name(id.as_str()),
        };
        self.put_endpoint(EndpointView { id, friendly_name: name, state });
        self.revision = self.revision + 1;
    }

    /// Lists an endpoint, in the place of the one with the same id.
    fn put_endpoint(&mut self, endpoint: EndpointView)
        requires
            old(self).wf(),
        ensures
            final(self).wf(),
            final(self)@ == (ManagerModel {
                endpoints: reducer::endpoint_put(old(self)@.endpoints, endpoint@),
                ..old(self)@
            }),
    {
        let ghost before = self@;
        let ghost model = endpoint@;
        let place = find_endpoint(&self.live_endpoints, endpoint.id.as_str());
        match place {
            Some(i) => {
                proof {
                    endpoint_is_at(before, i as int);
                }
                self.live_endpoints.set(i, endpoint);
            },
            None => {
                self.live_endpoints.push(endpoint);
            },
        }
        proof {
            assert(self@.endpoints =~= reducer::endpoint_put(before.endpoints, model));
            let after = self@.endpoints;
            assert forall|a: int, b: int| 0 <= a < b < after.len() implies (#[trigger] after[a]).id
                != (#[trigger] after[b]).id by {
                if b < before.endpoints.len() {
                    assert(before.endpoints[a].id != before.endpoints[b].id);
                } else {
                    assert(before.endpoints[a].id != model.id);
                }
            }
        }
    }

    /// Display name of an endpoint of which only the id is known.
    fn known_friendly_name(&self, id: &str) -> (name: String)
        requires
            self.wf(),
        ensures
            name@ == reducer::known_name(self@.store, id@),
    {
        match self.store.endpoints.get(id) {
            Some(profile) => {
                if profile.friendly_name.as_str().is_empty() {
                    id.to_owned()
                } else {
                    profile.friendly_name.clone()
                }
            },
            None => id.to_owned(),
        }
    }

    fn on_endpoint_removed(&mut self, id: &str)
        requires
            old(self).wf(),
            old(self).has_room(),
        ensures
            final(self).wf(),
            final(self)@ == reducer::endpoint_removed(old(self)@, id@),
    {
        let ghost before = self@;
        let mut changed = false;
        let place = find_endpoint(&self.live_endpoints, id);
        if let Some(i) = place {
            proof {
                endpoint_is_at(before, i as int);
            }
            let _ = self.live_endpoints.remove(i);
            changed = true;
            assert(self@.endpoints =~= before.endpoints.remove(i as int));
            proof {
                let after = self@.endpoints;
                assert forall|a: int, b: int| 0 <= a < b < after.len() implies (
                #[trigger] after[a]).id != (#[trigger] after[b]).id by {
                    let x = if a < i {
                        a
                    } else {
                        a + 1
                    };
                    let y = if b < i {
                        b
                    } else {
                        b + 1
                    };
                    assert(before.endpoints[x].id != before.endpoints[y].id);
                }
            }
        }
        let count: usize = self.live_sessions.len();
        let mut kept: Vec<SessionView> = Vec::new();
        let mut i: usize = 0;
        let ghost elsewhere = |session: SessionModel| session.endpoint != id@;
        proof {
            reveal(Seq::filter);
            assert(before.sessions.take(0).filter(elsewhere) =~= Seq::<SessionModel>::empty());
            assert(messages::session_models(kept@) =~= Seq::<SessionModel>::empty());
        }
        while i < count
            invariant
                i <= count,
                count == self.live_sessions@.len(),
                before.sessions == messages::session_models(self.live_sessions@),
                elsewhere == (|session: SessionModel| session.endpoint != id@),
                messages::session_models(kept@) == before.sessions.take(i as int).filter(elsewhere),
            decreases count - i,
        {
            let ghost so_far = before.sessions.take(i as int);
            proof {
                assert(before.sessions.take(i + 1).drop_last() =~= so_far);
                assert(before.sessions.take(i + 1).last() == self.live_sessions@[i as int]@);
                reveal(Seq::filter);
            }
            if !text::same(self.live_sessions[i].endpoint.as_str(), id) {
                let ghost earlier = messages::session_models(kept@);
                kept.push(self.live_sessions[i].clone());
                assert(messages::session_models(kept@) =~= earlier.push(
                    self.live_sessions@[i as int]@,
                ));
            }
            i += 1;
        }
        assert(before.sessions.take(count as int) =~= before.sessions);
        if kept.len() != count {
            changed = true;
        }
        proof {
            filtering_keeps_sessions_listed_once(before.sessions, elsewhere);
        }
        self.live_sessions = kept;
        if changed {
            self.revision = self.revision + 1;
        }
    }

    // ----- user commands

    /// Folds one user command into the state and gives the commands that the
    /// audio layer must execute. The present time is read from the manager's
    /// clock.
    pub fn handle_ui_command(&mut self, command: UiCommand) -> (dispatches: Vec<Dispatch>)
        requires
            old(self).wf(),
            old(self).has_room(),
        ensures
            final(self).wf(),
            exists|now: Reading|
                {
                    let outcome = #[trigger] reducer::ui_step(old(self)@, command, now);
                    &&& time::can_be_shown(now.wall)
                    &&& final(self)@ == outcome.state
                    &&& dispatch_models(dispatches@) == outcome.dispatches
                },
    {
        let now = self.clock.read();
        self.handle_ui_command_at(command, now)
    }

    /// [`StateManager::handle_ui_command`] at the time `now`.
    pub fn handle_ui_command_at(&mut self, command: UiCommand, now: Reading) -> (dispatches: Vec<
        Dispatch,
    >)
        requires
            old(self).wf(),
            old(self).has_room(),
        ensures
            final(self).wf(),
            final(self)@ == reducer::ui_step(old(self)@, command, now).state,
            dispatch_models(dispatches@) == reducer::ui_step(old(self)@, command, now).dispatches,
    {
        let mut dispatches: Vec<Dispatch> = Vec::new();
        match command {
            // The switch becomes real when the audio layer reports it: that is
            // where the generation counts up.
            UiCommand::SwitchEndpoint(id) => {
                let ghost model = id@;
                let roles = self.store.settings.switch_roles;
                let generation: u64 = self.switch_generation;
                dispatches.push(
                    Dispatch::new(generation, CoreCommand::SetDefaultEndpoint { id, roles }),
                );
                assert(dispatch_models(dispatches@) =~= seq![
                    DispatchModel {
                        generation: generation as nat,
                        command: messages::CommandModel::SetDefaultEndpoint { id: model, roles },
                    },
                ]);
                return dispatches;
            },
            UiCommand::SetSessionVolume { endpoint, process, volume } => {
                return self.set_profile_and_apply(
                    endpoint.as_str(),
                    process.as_str(),
                    Some(volume),
                    None,
                    now,
                );
            },
            UiCommand::SetSessionMute { endpoint, process, muted } => {
                return self.set_profile_and_apply(
                    endpoint.as_str(),
                    process.as_str(),
                    None,
                    Some(muted),
                    now,
                );
            },
            UiCommand::ForgetProfileEntry { endpoint, process } => {
                self.forget(endpoint.as_str(), process.as_str(), now);
            },
            UiCommand::SetHotkey(hotkey) => {
                self.store.settings.hotkey = hotkey;
                self.mark_dirty(now.moment);
            },
            UiCommand::SetAutostart(autostart) => {
                self.store.settings.autostart = autostart;
                self.mark_dirty(now.moment);
            },
            UiCommand::SetWidgetVisible(visible) => {
                self.store.settings.widget_visible = visible;
                self.mark_dirty(now.moment);
            },
            UiCommand::SetWidgetPosition(x, y) => {
                self.store.settings.widget_position = Some(Position { x, y });
                self.mark_dirty(now.moment);
            },
            UiCommand::ToggleOverlay | UiCommand::Quit => {},
        }
        assert(dispatch_models(dispatches@) =~= Seq::<DispatchModel>::empty());
        dispatches
    }

    fn forget(&mut self, endpoint: &str, process: &str, now: Reading)
        requires
            old(self).wf(),
        ensures
            final(self).wf(),
            final(self)@ == reducer::forgotten(old(self)@, endpoint@, process@, now),
    {
        let stored = self.stored_entry(endpoint, process);
        self.forgotten.insert(endpoint, process);
        if stored.is_none() {
            return;
        }
        let ghost before = self@;
        match self.store.endpoints.get_mut(endpoint) {
            Some(profile) => {
                let _ = profile.sessions.remove(process);
            },
            None => {},
        }
        proof {
            let profile = before.store.endpoints[endpoint@];
            assert(self@.store.endpoints =~= before.store.endpoints.insert(
                endpoint@,
                ProfileModel { sessions: profile.sessions.remove(process@), ..profile },
            ));
        }
        self.mark_dirty(now.moment);
    }

    /// Records a volume or a mute that the user chose and applies it to every
    /// live session of the program on the endpoint.
    fn set_profile_and_apply(
        &mut self,
        endpoint: &str,
        process: &str,
        volume: Option<Single>,
        muted: Option<bool>,
        now: Reading,
    ) -> (dispatches: Vec<Dispatch>)
        requires
            old(self).wf(),
            old(self).has_room(),
        ensures
            final(self).wf(),
            final(self)@ == reducer::set_by_user(
                old(self)@,
                endpoint@,
                process@,
                volume,
                muted,
                now,
            ).state,
            dispatch_models(dispatches@) == reducer::set_by_user(
                old(self)@,
                endpoint@,
                process@,
                volume,
                muted,
                now,
            ).dispatches,
    {
        let ghost before = self@;
        let current = self.resolve_entry(endpoint, process);
        let volume = clamp_volume(volume.unwrap_or(current.0));
        let muted = muted.unwrap_or(current.1);
        let generation: u64 = self.switch_generation;
        self.record_entry(endpoint, process, volume, muted, now);
        let ghost noted = self@;
        let mut dispatches: Vec<Dispatch> = Vec::new();
        let count: usize = self.live_sessions.len();
        let mut i: usize = 0;
        let ghost sessions = before.sessions;
        proof {
            applying_to_none(sessions, endpoint@, process@, volume, muted, generation as nat);
            assert(dispatch_models(dispatches@) =~= Seq::<DispatchModel>::empty());
        }
        while i < count
            invariant
                i <= count,
                count == self.live_sessions@.len(),
                count == sessions.len(),
                reducer::listed_once(before),
                sessions == before.sessions,
                self.store.wf(),
                self@ == (ManagerModel { sessions: self@.sessions, ..noted }),
                forall|j: int|
                    0 <= j < count ==> (#[trigger] self@.sessions[j]) == if j < i {
                        reducer::sessions_set(sessions, endpoint@, process@, volume, muted)[j]
                    } else {
                        sessions[j]
                    },
                dispatch_models(dispatches@) == reducer::apply_each(
                    sessions.take(i as int),
                    endpoint@,
                    process@,
                    volume,
                    muted,
                    generation as nat,
                ),
            decreases count - i,
        {
            let ghost shown = self@.sessions;
            let mut session = self.live_sessions[i].clone();
            proof {
                assert(session@ == shown[i as int]);
                applying_to_one_more(
                    sessions,
                    i as int,
                    endpoint@,
                    process@,
                    volume,
                    muted,
                    generation as nat,
                );
            }
            if text::same(session.endpoint.as_str(), endpoint) && text::same(
                session.process.as_str(),
                process,
            ) {
                let instance = session.instance.clone();
                session.volume = volume;
                session.muted = muted;
                let ghost changed = session@;
                self.live_sessions.set(i, session);
                assert(self@.sessions =~= shown.update(i as int, changed));
                let ghost earlier = dispatch_models(dispatches@);
                dispatches.push(
                    Dispatch::new(
                        generation,
                        CoreCommand::ApplySessionVolume { instance, volume, muted },
                    ),
                );
                assert(dispatch_models(dispatches@) =~= earlier.push(
                    DispatchModel {
                        generation: generation as nat,
                        command: messages::CommandModel::ApplySessionVolume {
                            instance: instance@,
                            volume,
                            muted,
                        },
                    },
                ));
            }
            i += 1;
        }
        proof {
            assert(sessions.take(count as int) =~= sessions);
            assert(self@.sessions =~= reducer::sessions_set(
                sessions,
                endpoint@,
                process@,
                volume,
                muted,
            ));
            setting_keeps_sessions_listed_once(before, endpoint@, process@, volume, muted);
        }
        if !dispatches.is_empty() {
            self.revision = self.revision + 1;
        }
        dispatches
    }

    /// The best known volume and mute of a program on an endpoint.
    fn resolve_entry(&self, endpoint: &str, process: &str) -> (known: (Single, bool))
        requires
            self.wf(),
        ensures
            known == reducer::resolved(self@, endpoint@, process@),
    {
        let stored = self.stored_entry(endpoint, process);
        if let Some(entry) = stored {
            return (entry.volume, entry.muted);
        }
        let ghost matches = |session: SessionModel|
            reducer::belongs(session, endpoint@, process@);
        let mut i: usize = 0;
        while i < self.live_sessions.len()
            invariant
                i <= self.live_sessions@.len(),
                reducer::stored_entry(self@.store, endpoint@, process@) is None,
                matches == (|session: SessionModel|
                    reducer::belongs(session, endpoint@, process@)),
                forall|j: int| 0 <= j < i ==> !matches(#[trigger] self@.sessions[j]),
            decreases self.live_sessions@.len() - i,
        {
            let session = &self.live_sessions[i];
            assert(session@ == self@.sessions[i as int]);
            if text::same(session.endpoint.as_str(), endpoint) && text::same(
                session.process.as_str(),
                process,
            ) {
                proof {
                    first_of_filter(self@.sessions, matches, i as int);
                }
                return (session.volume, session.muted);
            }
            i += 1;
        }
        proof {
            nothing_to_filter(self@.sessions, matches);
        }
        (Single { bits: single::ONE_BITS }, false)
    }

    // ----- saving

    /// The store, once a change has waited for the debounce window. The change
    /// then counts as handed out.
    pub fn take_persist_request(&mut self, now: Moment) -> (request: Option<PersistRequest>)
        requires
            old(self).wf(),
        ensures
            final(self).wf(),
            request is Some == reducer::window_elapsed(old(self)@, now),
            match request {
                Some(r) => {
                    &&& r.0@ == old(self)@.store
                    &&& r.0.wf()
                    &&& final(self)@ == reducer::handed_out(old(self)@)
                },
                None => final(self)@ == old(self)@,
            },
    {
        match self.dirty_since {
            Some(since) => {
                if now.nanos < since.nanos || now.nanos - since.nanos < PERSIST_DEBOUNCE {
                    return None;
                }
            },
            None => {
                return None;
            },
        }
        self.dirty_since = None;
        Some(PersistRequest(Arc::new(self.store.clone())))
    }

    /// The store, if any change is waiting, whatever the window: the way out at
    /// shutdown.
    pub fn flush_persist_request(&mut self) -> (request: Option<PersistRequest>)
        requires
            old(self).wf(),
        ensures
            final(self).wf(),
            request is Some == old(self)@.dirty_since is Some,
            match request {
                Some(r) => {
                    &&& r.0@ == old(self)@.store
                    &&& r.0.wf()
                    &&& final(self)@ == reducer::handed_out(old(self)@)
                },
                None => final(self)@ == old(self)@,
            },
    {
        if self.dirty_since.is_none() {
            return None;
        }
        self.dirty_since = None;
        Some(PersistRequest(Arc::new(self.store.clone())))
    }

    /// Takes note of how a save went. A failed one makes the change wait again,
    /// from the present moment on the manager's clock.
    pub fn on_persist_result(&mut self, result: PersistResult)
        requires
            old(self).wf(),
        ensures
            final(self).wf(),
            exists|at: Moment|
                final(self)@ == #[trigger] reducer::save_reported(
                    old(self)@,
                    failure_of(result),
                    at,
                ),
    {
        let at = self.clock.moment();
        self.on_persist_result_at(result, at);
    }

    /// [`StateManager::on_persist_result`] at the moment `at`.
    pub fn on_persist_result_at(&mut self, result: PersistResult, at: Moment)
        requires
            old(self).wf(),
        ensures
            final(self).wf(),
            final(self)@ == reducer::save_reported(old(self)@, failure_of(result), at),
    {
        match result {
            PersistResult::Saved => {
                self.persist_error = None;
            },
            PersistResult::Failed(error) => {
                self.persist_error = Some(error);
                self.mark_dirty(at);
            },
        }
    }

    // ----- pruning

    /// Drops the profiles of endpoints that were not seen for the number of days
    /// in the settings; zero days keeps them all. An endpoint that is present,
    /// or the default, is kept. Gives the number dropped.
    pub fn prune(&mut self, now: Timestamp) -> (removed: usize)
        requires
            old(self).wf(),
        ensures
            final(self).wf(),
            removed == reducer::stale_endpoints(old(self)@, now).len(),
            exists|at: Moment|
                final(self)@ == #[trigger] reducer::pruned(old(self)@, now, at),
    {
        let at = self.clock.moment();
        self.prune_at(now, at)
    }

    /// [`StateManager::prune`] at the moment `at`.
    pub fn prune_at(&mut self, now: Timestamp, at: Moment) -> (removed: usize)
        requires
            old(self).wf(),
        ensures
            final(self).wf(),
            removed == reducer::stale_endpoints(old(self)@, now).len(),
            final(self)@ == reducer::pruned(old(self)@, now, at),
    {
        let ghost before = self@;
        let ghost profiles = self.store.endpoints@;
        let ghost keys = self.store.endpoints.keys();
        let ghost is_stale = |id: Seq<char>| reducer::is_stale(before, id, now);
        let count: usize = self.store.endpoints.len();
        let mut stale: Vec<String> = Vec::new();
        let mut i: usize = 0;
        proof {
            crate::table::keys_are_the_domain(self.store.endpoints);
            reveal(Seq::filter);
            assert(texts(stale@) =~= keys.take(0).filter(is_stale));
        }
        while i < count
            invariant
                i <= count,
                count == keys.len(),
                keys == self.store.endpoints.keys(),
                self.wf(),
                self@ == before,
                is_stale == (|id: Seq<char>| reducer::is_stale(before, id, now)),
                texts(stale@) == keys.take(i as int).filter(is_stale),
            decreases count - i,
        {
            let (id, profile) = self.store.endpoints.entry_at(i);
            assert(before.store.endpoints[id@] == profile@);
            proof {
                reveal(Seq::filter);
                assert(keys.take(i + 1).drop_last() =~= keys.take(i as int));
                assert(keys.take(i + 1).last() == id@);
            }
            if self.is_stale(id.as_str(), profile, now) {
                let ghost earlier = texts(stale@);
                stale.push(id.clone());
                assert(texts(stale@) =~= earlier.push(id@));
            }
            i += 1;
        }
        proof {
            assert(keys.take(count as int) =~= keys);
            filtered_keys(keys, is_stale);
            assert(texts(stale@).to_set() =~= reducer::stale_endpoints(before, now));
            texts(stale@).unique_seq_to_set();
        }
        let removed: usize = stale.len();
        let ghost ids = texts(stale@);
        let mut j: usize = 0;
        assert(profiles.remove_keys(ids.take(0).to_set()) =~= profiles);
        while j < removed
            invariant
                j <= removed,
                removed == stale@.len(),
                ids == texts(stale@),
                self.store.wf(),
                reducer::listed_once(self@),
                self.store.endpoints@ == profiles.remove_keys(ids.take(j as int).to_set()),
                self@ == (ManagerModel {
                    store: store::StoreModel {
                        endpoints: self@.store.endpoints,
                        ..before.store
                    },
                    ..before
                }),
            decreases removed - j,
        {
            let ghost earlier = self.store.endpoints@;
            let _ = self.store.endpoints.remove(stale[j].as_str());
            proof {
                let id = ids[j as int];
                let gone = ids.take(j as int);
                assert(ids.take(j + 1) =~= gone.push(id));
                pushed_contains(gone, id);
                assert(self.store.endpoints@ =~= profiles.remove_keys(ids.take(j + 1).to_set()));
            }
            j += 1;
        }
        proof {
            assert(ids.take(removed as int) =~= ids);
            assert(self@.store.endpoints =~= before.store.endpoints.remove_keys(
                reducer::stale_endpoints(before, now),
            ));
            if removed == 0 {
                assert(self@.store.endpoints =~= before.store.endpoints);
            }
        }
        if removed > 0 {
            self.mark_dirty(at);
        }
        removed
    }

    fn is_stale(&self, id: &str, profile: &EndpointProfile, now: Timestamp) -> (stale: bool)
        requires
            self.wf(),
            self@.store.endpoints.contains_key(id@),
            self@.store.endpoints[id@] == profile@,
        ensures
            stale == reducer::is_stale(self@, id@, now),
    {
        let days: u32 = self.store.settings.prune_after_days;
        if days == 0 {
            return false;
        }
        let place = find_endpoint(&self.live_endpoints, id);
        if place.is_some() {
            proof {
                endpoint_is_at(self@, place->Some_0 as int);
            }
            return false;
        }
        if let Some(default) = &self.default_endpoint {
            if text::same(default.as_str(), id) {
                return false;
            }
        }
        let limit: u128 = days as u128 * 86_400u128 * 1_000_000_000u128;
        match now.nanos_since(profile.last_seen) {
            Some(age) => age >= limit,
            None => false,
        }
    }

    // ----- reading the state

    /// The read model of the user interface. Both lists are in a fixed order, so
    /// that two snapshots of one state are the same.
    pub fn snapshot(&self) -> (snapshot: Snapshot)
        ensures
            shows(snapshot, self@),
    {
        let endpoints = arrange::arranged(&self.live_endpoints);
        let live_sessions = arrange::arranged(&self.live_sessions);
        proof {
            assert(arrange::views(endpoints@) =~= messages::endpoint_models(endpoints@));
            assert(arrange::views(self.live_endpoints@) =~= self@.endpoints);
            assert(arrange::views(live_sessions@) =~= messages::session_models(live_sessions@));
            assert(arrange::views(self.live_sessions@) =~= self@.sessions);
        }
        Snapshot {
            endpoints,
            default_endpoint: self.default_endpoint.clone(),
            live_sessions,
            revision: self.revision,
        }
    }

    pub fn store(&self) -> (store: &ProfileStore)
        ensures
            store@ == self@.store,
            self.wf() ==> store.wf(),
    {
        &self.store
    }

    pub fn settings(&self) -> (settings: &Settings)
        ensures
            *settings == self@.store.settings,
    {
        &self.store.settings
    }

    pub fn default_endpoint(&self) -> (id: Option<&EndpointId>)
        ensures
            match id {
                Some(i) => self@.default_endpoint == Some(i@),
                None => self@.default_endpoint is None,
            },
    {
        self.default_endpoint.as_ref()
    }

    /// The newest switch generation. A dispatch that carries a lower one belongs
    /// to a superseded switch.
    pub fn current_switch_generation(&self) -> (generation: u64)
        ensures
            generation == self@.generation,
    {
        self.switch_generation
    }

    pub fn revision(&self) -> (revision: u64)
        ensures
            revision == self@.revision,
    {
        self.revision
    }

    pub fn live_session(&self, instance: &str) -> (session: Option<&SessionView>)
        requires
            self.wf(),
        ensures
            match session {
                Some(s) => exists|i: int|
                    0 <= i < self@.sessions.len() && self@.sessions[i] == s@ && s@.instance
                        == instance@,
                None => reducer::session_place(self@.sessions, instance@) is None,
            },
    {
        let place = find_session(&self.live_sessions, instance);
        match place {
            Some(i) => {
                assert(self@.sessions[i as int] == self.live_sessions@[i as int]@);
                Some(&self.live_sessions[i])
            },
            None => None,
        }
    }

    pub fn live_session_count(&self) -> (count: usize)
        ensures
            count == self@.sessions.len(),
    {
        self.live_sessions.len()
    }

    pub fn load_error(&self) -> (error: Option<&RepoError>)
        ensures
            match error {
                Some(e) => self@.load_error == Some(e@),
                None => self@.load_error is None,
            },
    {
        self.load_error.as_ref()
    }

    pub fn persist_error(&self) -> (error: Option<&RepoError>)
        ensures
            match error {
                Some(e) => self@.persist_error == Some(e@),
                None => self@.persist_error is None,
            },
    {
        self.persist_error.as_ref()
    }

    pub fn is_dirty(&self) -> (dirty: bool)
        ensures
            dirty == self@.dirty_since is Some,
    {
        self.dirty_since.is_some()
    }
}

/// What a well-formed manager gives: each endpoint and each session is listed once,
/// every live volume lies in `0.0..=1.0`, nothing is remembered of a program where
/// it is forgotten, and there are finitely many profiles.
pub proof fn wf_gives(manager: &StateManager)
    requires
        manager.wf(),
    ensures
        reducer::listed_once(manager@),
        laws::live_volumes_in_range(manager@),
        laws::forgotten_is_gone(manager@),
        manager@.store.endpoints.dom().finite(),
{
    crate::table::keys_are_the_domain(manager.store.endpoints);
    assert(manager@.store.endpoints.dom() =~= manager.store.endpoints@.dom());
}

/// The place of the endpoint at `i` is `i`: no other has its id.
proof fn endpoint_is_at(m: ManagerModel, i: int)
    requires
        reducer::listed_once(m),
        0 <= i < m.endpoints.len(),
    ensures
        reducer::endpoint_place(m.endpoints, m.endpoints[i].id) == Some(i),
{
    let id = m.endpoints[i].id;
    let j = choose|j: int| 0 <= j < m.endpoints.len() && (#[trigger] m.endpoints[j]).id == id;
    assert(i == j);
}

/// The place of the session at `i` is `i`: no other has its instance.
proof fn session_is_at(m: ManagerModel, i: int)
    requires
        reducer::listed_once(m),
        0 <= i < m.sessions.len(),
    ensures
        reducer::session_place(m.sessions, m.sessions[i].instance) == Some(i),
{
    let instance = m.sessions[i].instance;
    let j = choose|j: int|
        0 <= j < m.sessions.len() && (#[trigger] m.sessions[j]).instance == instance;
    assert(i == j);
}

proof fn putting_keeps_sessions_listed_once(m: ManagerModel, session: SessionModel)
    requires
        reducer::listed_once(m),
    ensures
        reducer::listed_once(
            ManagerModel { sessions: reducer::session_put(m.sessions, session), ..m },
        ),
{
    let place = reducer::session_place(m.sessions, session.instance);
    let after = reducer::session_put(m.sessions, session);
    assert forall|a: int, b: int| 0 <= a < b < after.len() implies (#[trigger] after[a]).instance
        != (#[trigger] after[b]).instance by {
        if b < m.sessions.len() {
            assert(m.sessions[a].instance != m.sessions[b].instance);
        } else {
            assert(m.sessions[a].instance != session.instance);
        }
    }
}

/// Leaving sessions out lists none of the others twice.
proof fn filtering_keeps_sessions_listed_once(
    sessions: Seq<SessionModel>,
    keep: spec_fn(SessionModel) -> bool,
)
    requires
        forall|i: int, j: int|
            0 <= i < j < sessions.len() ==> (#[trigger] sessions[i]).instance != (
            #[trigger] sessions[j]).instance,
    ensures
        forall|i: int, j: int|
            0 <= i < j < sessions.filter(keep).len() ==> (#[trigger] sessions.filter(
                keep,
            )[i]).instance != (#[trigger] sessions.filter(keep)[j]).instance,
        forall|i: int|
            0 <= i < sessions.filter(keep).len() ==> exists|j: int|
                0 <= j < sessions.len() && sessions[j] == #[trigger] sessions.filter(keep)[i],
    decreases sessions.len(),
{
    reveal(Seq::filter);
    if sessions.len() > 0 {
        let rest = sessions.drop_last();
        filtering_keeps_sessions_listed_once(rest, keep);
        let kept = rest.filter(keep);
        let all = sessions.filter(keep);
        assert forall|i: int| 0 <= i < all.len() implies exists|j: int|
            0 <= j < sessions.len() && sessions[j] == #[trigger] all[i] by {
            if i < kept.len() {
                let j = choose|j: int| 0 <= j < rest.len() && rest[j] == kept[i];
                assert(sessions[j] == all[i]);
            } else {
                assert(sessions[sessions.len() - 1] == all[i]);
            }
        }
        assert forall|i: int, j: int| 0 <= i < j < all.len() implies (#[trigger] all[i]).instance
            != (#[trigger] all[j]).instance by {
            if j < kept.len() {
                assert(kept[i].instance != kept[j].instance);
            } else {
                let k = choose|k: int| 0 <= k < rest.len() && rest[k] == kept[i];
                assert(sessions[k].instance != sessions[sessions.len() - 1].instance);
            }
        }
    }
}

proof fn setting_keeps_sessions_listed_once(
    m: ManagerModel,
    endpoint: Seq<char>,
    process: Seq<char>,
    volume: Single,
    muted: bool,
)
    requires
        reducer::listed_once(m),
    ensures
        reducer::listed_once(
            ManagerModel {
                sessions: reducer::sessions_set(m.sessions, endpoint, process, volume, muted),
                ..m
            },
        ),
{
    let after = reducer::sessions_set(m.sessions, endpoint, process, volume, muted);
    assert forall|a: int, b: int| 0 <= a < b < after.len() implies (#[trigger] after[a]).instance
        != (#[trigger] after[b]).instance by {
        assert(m.sessions[a].instance != m.sessions[b].instance);
    }
}

proof fn applying_to_none(
    sessions: Seq<SessionModel>,
    endpoint: Seq<char>,
    process: Seq<char>,
    volume: Single,
    muted: bool,
    generation: nat,
)
    ensures
        reducer::apply_each(sessions.take(0), endpoint, process, volume, muted, generation)
            == Seq::<DispatchModel>::empty(),
{
    reveal(Seq::filter);
    assert(reducer::apply_each(sessions.take(0), endpoint, process, volume, muted, generation)
        =~= Seq::<DispatchModel>::empty());
}

proof fn applying_to_one_more(
    sessions: Seq<SessionModel>,
    i: int,
    endpoint: Seq<char>,
    process: Seq<char>,
    volume: Single,
    muted: bool,
    generation: nat,
)
    requires
        0 <= i < sessions.len(),
    ensures
        reducer::apply_each(sessions.take(i + 1), endpoint, process, volume, muted, generation)
            == if reducer::belongs(sessions[i], endpoint, process) {
            reducer::apply_each(
                sessions.take(i),
                endpoint,
                process,
                volume,
                muted,
                generation,
            ).push(
                DispatchModel {
                    generation,
                    command: messages::CommandModel::ApplySessionVolume {
                        instance: sessions[i].instance,
                        volume,
                        muted,
                    },
                },
            )
        } else {
            reducer::apply_each(sessions.take(i), endpoint, process, volume, muted, generation)
        },
{
    reveal(Seq::filter);
    assert(sessions.take(i + 1).drop_last() =~= sessions.take(i));
    assert(reducer::apply_each(
        sessions.take(i + 1),
        endpoint,
        process,
        volume,
        muted,
        generation,
    ) =~= if reducer::belongs(sessions[i], endpoint, process) {
        reducer::apply_each(
            sessions.take(i),
            endpoint,
            process,
            volume,
            muted,
            generation,
        ).push(
            DispatchModel {
                generation,
                command: messages::CommandModel::ApplySessionVolume {
                    instance: sessions[i].instance,
                    volume,
                    muted,
                },
            },
        )
    } else {
        reducer::apply_each(sessions.take(i), endpoint, process, volume, muted, generation)
    });
}

/// Where no item is kept, filtering keeps none.
proof fn nothing_to_filter(sessions: Seq<SessionModel>, keep: spec_fn(SessionModel) -> bool)
    requires
        forall|j: int| 0 <= j < sessions.len() ==> !keep(#[trigger] sessions[j]),
    ensures
        sessions.filter(keep).len() == 0,
    decreases sessions.len(),
{
    reveal(Seq::filter);
    if sessions.len() > 0 {
        assert(!keep(sessions[sessions.len() - 1]));
        nothing_to_filter(sessions.drop_last(), keep);
    }
}

/// The first item that is kept comes first after filtering.
proof fn first_of_filter(sessions: Seq<SessionModel>, keep: spec_fn(SessionModel) -> bool, i: int)
    requires
        0 <= i < sessions.len(),
        keep(sessions[i]),
        forall|j: int| 0 <= j < i ==> !keep(#[trigger] sessions[j]),
    ensures
        sessions.filter(keep).len() > 0,
        sessions.filter(keep)[0] == sessions[i],
    decreases sessions.len(),
{
    reveal(Seq::filter);
    if i < sessions.len() - 1 {
        first_of_filter(sessions.drop_last(), keep, i);
    } else {
        nothing_to_filter(sessions.drop_last(), keep);
    }
}

/// What each string of a list holds.
spec fn texts(strings: Seq<String>) -> Seq<Seq<char>> {
    strings.map_values(|s: String| s@)
}

/// A list with one more key holds that key and those it held before.
proof fn pushed_contains(keys: Seq<Seq<char>>, last: Seq<char>)
    ensures
        forall|k: Seq<char>| #[trigger]
            keys.push(last).contains(k) <==> keys.contains(k) || k == last,
{
    let longer = keys.push(last);
    assert forall|k: Seq<char>| #[trigger] longer.contains(k) <==> keys.contains(k) || k == last by {
        if keys.contains(k) {
            let x = choose|x: int| 0 <= x < keys.len() && keys[x] == k;
            assert(longer[x] == k);
        }
        assert(longer[keys.len() as int] == last);
    }
}

/// Filtering distinct keys gives distinct keys: those that are kept.
proof fn filtered_keys(keys: Seq<Seq<char>>, keep: spec_fn(Seq<char>) -> bool)
    requires
        keys.no_duplicates(),
    ensures
        keys.filter(keep).no_duplicates(),
        keys.filter(keep).to_set() == keys.to_set().filter(keep),
    decreases keys.len(),
{
    reveal(Seq::filter);
    if keys.len() == 0 {
        assert(keys.filter(keep).to_set() =~= keys.to_set().filter(keep));
    } else {
        let rest = keys.drop_last();
        let last = keys.last();
        filtered_keys(rest, keep);
        let kept = rest.filter(keep);
        assert(!rest.contains(last));
        assert(!kept.contains(last)) by {
            assert(kept.to_set().contains(last) == rest.to_set().filter(keep).contains(last));
        }
        assert(keys =~= rest.push(last));
        pushed_contains(rest, last);
        if keep(last) {
            pushed_contains(kept, last);
        }
        assert forall|k: Seq<char>| kept.contains(k) <==> rest.contains(k) && keep(k) by {
            assert(kept.to_set().contains(k) == rest.to_set().filter(keep).contains(k));
        }
        assert(keys.filter(keep).to_set() =~= keys.to_set().filter(keep));
    }
}

/// Restoring sessions leaves the live view alone.
proof fn restoring_keeps_live_view(
    m: ManagerModel,
    sessions: Seq<SessionModel>,
    endpoint: Seq<char>,
    generation: nat,
    now: Reading,
)
    ensures
        reducer::restored_each(m, sessions, endpoint, generation, now).state.sessions == m.sessions,
        reducer::restored_each(m, sessions, endpoint, generation, now).state.endpoints
            == m.endpoints,
    decreases sessions.len(),
{
    if sessions.len() > 0 {
        restoring_keeps_live_view(m, sessions.drop_last(), endpoint, generation, now);
    }
}

/// A command is superseded exactly by the switches that came after it was dispatched.
pub proof fn later_switch_supersedes(dispatch: &Dispatch, current: u64, stale: bool)
    requires
        call_ensures(Dispatch::is_stale, (dispatch, current), stale),
    ensures
        stale <==> current > dispatch@.generation,
{
}

/// A manager begins with the store that was loaded, and with an empty one and the error
/// where it could not be; nothing is live yet and nothing waits to be saved.
pub proof fn manager_begins_with_what_was_loaded(
    loaded: Result<ProfileStore, RepoError>,
    manager: StateManager,
)
    requires
        call_ensures(StateManager::from_load, (loaded,), manager),
    ensures
        loaded matches Ok(store) ==> manager@.store == store@ && manager@.load_error is None,
        loaded matches Err(error) ==> manager@.store.endpoints.dom().is_empty()
            && manager@.load_error == Some(error@),
        manager@.sessions.len() == 0 && manager@.endpoints.len() == 0,
        manager@.dirty_since is None && manager@.persist_error is None,
{
}

} // verus!
