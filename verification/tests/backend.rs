use resonance::backend::{
    apply_dispatches, begin_flush, describe_core_error, reduce, BackendError, Flow, ReducerInput,
};
use resonance::manager::{Dispatch, PersistResult, StateManager};
use resonance::messages::{
    AudioEvent, CoreCommand, CoreError, DataFlow, Role, SessionInfo, UiCommand,
};
use resonance::repository::RepoError;
use resonance::single::Single;
use resonance::store::ProfileStore;
use resonance::time::{Moment, Reading, Timestamp};

fn at(millis: u64) -> Reading {
    Reading {
        moment: Moment { nanos: millis * 1_000_000 },
        wall: Timestamp { secs: 1_700_000_000, nanos: 0 },
    }
}

fn created(endpoint: &str, instance: &str) -> ReducerInput {
    ReducerInput::Audio(AudioEvent::SessionCreated {
        endpoint: endpoint.to_string(),
        session: SessionInfo {
            instance: instance.to_string(),
            process: "a.exe".to_string(),
            endpoint: endpoint.to_string(),
            volume: Single { bits: 0.5f32.to_bits() },
            muted: false,
        },
    })
}

fn manager() -> StateManager {
    StateManager::from_store(ProfileStore::default())
}

#[test]
fn commands_of_an_older_generation_are_dropped() {
    let dispatch = |generation: u64, id: &str| Dispatch {
        generation,
        command: CoreCommand::ResyncEndpoint(id.to_string()),
    };
    let kept = apply_dispatches(vec![dispatch(1, "a"), dispatch(2, "b"), dispatch(2, "c")], 2);
    let ids: Vec<String> = kept
        .iter()
        .map(|command| match command {
            CoreCommand::ResyncEndpoint(id) => id.clone(),
            _ => panic!("expected a resync"),
        })
        .collect();
    assert_eq!(ids, vec!["b".to_string(), "c".to_string()]);
}

#[test]
fn an_event_is_published_at_once_and_saved_later() {
    let mut state = manager();
    let step = reduce(&mut state, created("e", "s1"), at(0));
    assert!(step.commands.is_empty());
    assert_eq!(step.snapshot.expect("published").live_sessions.len(), 1);
    assert_eq!(step.flow, Flow::Continue);
    let switched = ReducerInput::Audio(AudioEvent::DefaultEndpointChanged {
        flow: DataFlow::Render,
        role: Role::Multimedia,
        id: Some("e".to_string()),
    });
    let step = reduce(&mut state, switched, at(10));
    assert_eq!(step.commands.len(), 2, "a resync and a restore");

    assert!(reduce(&mut state, ReducerInput::Poll, at(299)).persist.is_none());
    assert!(reduce(&mut state, ReducerInput::Poll, at(300)).persist.is_some());
    assert!(reduce(&mut state, ReducerInput::Poll, at(900)).persist.is_none());

    let failed = PersistResult::Failed(RepoError::Io("full".to_string()));
    let step = reduce(&mut state, ReducerInput::Saved(failed), at(1_000));
    assert!(step.snapshot.is_none());
    assert!(reduce(&mut state, ReducerInput::Poll, at(1_300)).persist.is_some());
}

#[test]
fn the_reducer_stops_when_the_core_is_gone_but_not_without_an_interface() {
    let mut state = manager();
    assert_eq!(reduce(&mut state, ReducerInput::UiClosed, at(0)).flow, Flow::Continue);
    assert_eq!(reduce(&mut state, ReducerInput::AudioClosed, at(0)).flow, Flow::Stop);
    assert_eq!(reduce(&mut state, ReducerInput::Shutdown, at(0)).flow, Flow::FlushAndStop);
    let step = reduce(&mut state, ReducerInput::Ui(UiCommand::SetAutostart(true)), at(0));
    assert!(step.snapshot.is_some());
    assert!(state.settings().autostart);
}

#[test]
fn the_flush_hands_out_what_is_not_saved() {
    let mut state = manager();
    assert!(begin_flush(&mut state, vec![], at(0).moment).is_none());
    reduce(&mut state, created("e", "s1"), at(0));
    let request = begin_flush(&mut state, vec![PersistResult::Saved], at(1).moment);
    assert_eq!(request.expect("dirty").0.endpoints.len(), 1);

    // A failure that was already reported makes the state unsaved again.
    let failed = PersistResult::Failed(RepoError::Io("full".to_string()));
    assert!(begin_flush(&mut state, vec![failed], at(2).moment).is_some());
    assert!(begin_flush(&mut state, vec![], at(3).moment).is_none());
}

#[test]
fn errors_say_what_did_not_start() {
    assert_eq!(
        describe_core_error(&CoreError::ComInitFailed("x".to_string())),
        "COM init failed: x"
    );
    assert_eq!(
        BackendError::Core(CoreError::Other("y".to_string())).describe(),
        "audio core failed to start: y"
    );
    assert_eq!(
        BackendError::Repository(RepoError::Io("z".to_string())).describe(),
        "profile repository unavailable: repository I/O error: z"
    );
}
