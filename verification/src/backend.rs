//! The step that the thread which owns the state makes for each thing it hears.

use crate::manager::{Dispatch, PersistRequest, PersistResult, StateManager};
use crate::manager;
use crate::messages::{AudioEvent, CommandModel, CoreCommand, CoreError, Snapshot, UiCommand};
use crate::messages;
use crate::reducer::{DispatchModel, ManagerModel};
use crate::reducer;
use crate::repository::RepoError;
use crate::repository;
use crate::time::{Moment, Reading};
use vstd::prelude::*;
use vstd::string::*;

verus! {

/// How often the write-behind window is looked at, in milliseconds.
pub const PERSIST_POLL_INTERVAL_MS: u64 = 50;

/// Why the backend could not start.
#[derive(Debug)]
pub enum BackendError {
    /// The place of the profile store is not known.
    Repository(RepoError),
    /// The audio layer did not come up.
    Core(CoreError),
}

/// The text shown for an error of the audio layer.
pub open spec fn core_error_text(error: CoreError) -> Seq<char> {
    match error {
        CoreError::ComInitFailed(message) => "COM init failed: "@ + message@,
        CoreError::DeviceEnumerationFailed(message) => "device enumeration failed: "@ + message@,
        CoreError::Other(message) => message@,
    }
}

/// The text shown for an error of the audio layer.
pub fn describe_core_error(error: &CoreError) -> (text: String)
    ensures
        text@ == core_error_text(*error),
{
    match error {
        CoreError::ComInitFailed(message) => {
            let mut text = String::from_str("COM init failed: ");
            text.append(message.as_str());
            text
        },
        CoreError::DeviceEnumerationFailed(message) => {
            let mut text = String::from_str("device enumeration failed: ");
            text.append(message.as_str());
            text
        },
        CoreError::Other(message) => message.clone(),
    }
}

impl BackendError {
    /// The text shown for this error.
    pub fn describe(&self) -> (text: String)
        ensures
            text@ == match *self {
                BackendError::Repository(error) => "profile repository unavailable: "@
                    + repository::error_text(error@),
                BackendError::Core(error) => "audio core failed to start: "@ + core_error_text(
                    error,
                ),
            },
    {
        match self {
            BackendError::Repository(error) => {
                let mut text = String::from_str("profile repository unavailable: ");
                let reason = error.describe();
                text.append(reason.as_str());
                text
            },
            BackendError::Core(error) => {
                let mut text = String::from_str("audio core failed to start: ");
                let reason = describe_core_error(error);
                text.append(reason.as_str());
                text
            },
        }
    }
}

/// The commands of those dispatches that no newer switch has superseded.
pub open spec fn current_commands(dispatches: Seq<DispatchModel>, generation: nat) -> Seq<
    CommandModel,
> {
    dispatches.filter(|dispatch: DispatchModel| dispatch.generation >= generation).map_values(
        |dispatch: DispatchModel| dispatch.command,
    )
}

/// The models of a list of commands.
pub open spec fn command_models(commands: Seq<CoreCommand>) -> Seq<CommandModel> {
    commands.map_values(|command: CoreCommand| command@)
}

/// The commands to be sent, in order: those that no newer switch has superseded.
pub fn apply_dispatches(dispatches: Vec<Dispatch>, current: u64) -> (commands: Vec<CoreCommand>)
    ensures
        command_models(commands@) == current_commands(
            manager::dispatch_models(dispatches@),
            current as nat,
        ),
{
    let ghost all = manager::dispatch_models(dispatches@);
    let ghost fresh = |dispatch: DispatchModel| dispatch.generation >= current as nat;
    let ghost command_of = |dispatch: DispatchModel| dispatch.command;
    let mut rest = dispatches;
    let mut commands: Vec<CoreCommand> = Vec::new();
    proof {
        assert(manager::dispatch_models(rest@) =~= all.take(all.len() as int));
        assert(command_models(commands@) =~= Seq::<CommandModel>::empty());
        filter_of_nothing(all, fresh, command_of);
    }
    // Taken from the back, so the list is turned round at the end.
    while rest.len() > 0
        invariant
            rest@.len() <= all.len(),
            manager::dispatch_models(rest@) == all.take(rest@.len() as int),
            fresh == (|dispatch: DispatchModel| dispatch.generation >= current as nat),
            command_of == (|dispatch: DispatchModel| dispatch.command),
            command_models(commands@).reverse() == all.skip(rest@.len() as int).filter(
                fresh,
            ).map_values(command_of),
        decreases rest@.len(),
    {
        let ghost n = rest@.len() as int;
        let ghost before = command_models(commands@);
        let last = rest.pop();
        proof {
            assert(manager::dispatch_models(rest@) =~= all.take(n - 1));
            filter_one_more(all, fresh, command_of, n - 1);
        }
        if let Some(dispatch) = last {
            let ghost model = dispatch@;
            assert(model == all[n - 1]) by {
                assert(all.take(n)[n - 1] == all[n - 1]);
            }
            if !dispatch.is_stale(current) {
                commands.push(dispatch.command);
                proof {
                    assert(command_models(commands@) =~= before.push(model.command));
                    assert(before.push(model.command).reverse() =~= seq![model.command]
                        + before.reverse());
                }
            }
        }
    }
    proof {
        assert(all.skip(0) =~= all);
    }
    reversed(commands)
}

fn reversed(commands: Vec<CoreCommand>) -> (result: Vec<CoreCommand>)
    ensures
        command_models(result@) == command_models(commands@).reverse(),
{
    let ghost all = commands@;
    let mut rest = commands;
    let mut result: Vec<CoreCommand> = Vec::new();
    while rest.len() > 0
        invariant
            rest@.len() <= all.len(),
            rest@ == all.take(rest@.len() as int),
            result@ == all.skip(rest@.len() as int).reverse(),
        decreases rest@.len(),
    {
        let ghost n = rest@.len() as int;
        let last = rest.pop();
        assert(rest@ =~= all.take(n - 1));
        if let Some(command) = last {
            result.push(command);
        }
        assert(result@ =~= all.skip(n - 1).reverse());
    }
    assert(command_models(result@) =~= command_models(all).reverse());
    result
}

proof fn filter_of_nothing(
    all: Seq<DispatchModel>,
    fresh: spec_fn(DispatchModel) -> bool,
    command_of: spec_fn(DispatchModel) -> CommandModel,
)
    ensures
        all.skip(all.len() as int).filter(fresh).map_values(command_of) == Seq::<
            CommandModel,
        >::empty(),
{
    reveal(Seq::filter);
    assert(all.skip(all.len() as int) =~= Seq::<DispatchModel>::empty());
    assert(all.skip(all.len() as int).filter(fresh).map_values(command_of) =~= Seq::<
        CommandModel,
    >::empty());
}

proof fn filter_one_more(
    all: Seq<DispatchModel>,
    fresh: spec_fn(DispatchModel) -> bool,
    command_of: spec_fn(DispatchModel) -> CommandModel,
    i: int,
)
    requires
        0 <= i < all.len(),
    ensures
        all.skip(i).filter(fresh).map_values(command_of) == if fresh(all[i]) {
            seq![command_of(all[i])] + all.skip(i + 1).filter(fresh).map_values(command_of)
        } else {
            all.skip(i + 1).filter(fresh).map_values(command_of)
        },
{
    let head = seq![all[i]];
    let tail = all.skip(i + 1);
    assert(all.skip(i) =~= head + tail);
    Seq::filter_distributes_over_add(head, tail, fresh);
    assert(head.filter(fresh) =~= if fresh(all[i]) {
        head
    } else {
        Seq::empty()
    }) by {
        reveal(Seq::filter);
        assert(head.drop_last() =~= Seq::<DispatchModel>::empty());
        assert(Seq::<DispatchModel>::empty().filter(fresh) =~= Seq::<DispatchModel>::empty());
    }
    if fresh(all[i]) {
        assert((head + tail.filter(fresh)).map_values(command_of) =~= seq![command_of(all[i])]
            + tail.filter(fresh).map_values(command_of));
    } else {
        assert(Seq::<DispatchModel>::empty() + tail.filter(fresh) =~= tail.filter(fresh));
    }
}

/// What the thread that owns the state hears.
#[derive(Debug)]
pub enum ReducerInput {
    Audio(AudioEvent),
    /// The audio layer is gone.
    AudioClosed,
    Ui(UiCommand),
    /// No user interface is there; that is no reason to stop.
    UiClosed,
    Saved(PersistResult),
    /// It is time to look at the write-behind window.
    Poll,
    Shutdown,
}

/// Whether the thread goes on.
#[derive(Debug, Clone, Copy, PartialEq, Eq, Structural)]
pub enum Flow {
    Continue,
    Stop,
    /// What is not saved yet is saved first.
    FlushAndStop,
}

/// What the thread does.
#[derive(Debug)]
pub struct ReducerStep {
    /// Commands for the audio layer, in order.
    pub commands: Vec<CoreCommand>,
    /// A new read model for the user interface.
    pub snapshot: Option<Snapshot>,
    /// A store to be saved.
    pub persist: Option<PersistRequest>,
    pub flow: Flow,
}

fn quiet(flow: Flow) -> (step: ReducerStep)
    ensures
        command_models(step.commands@) == Seq::<CommandModel>::empty(),
        step.snapshot is None,
        step.persist is None,
        step.flow == flow,
{
    let step = ReducerStep { commands: Vec::new(), snapshot: None, persist: None, flow };
    assert(command_models(step.commands@) =~= Seq::<CommandModel>::empty());
    step
}

/// Whether a step sends nothing and saves nothing.
pub open spec fn is_quiet(step: ReducerStep) -> bool {
    command_models(step.commands@) == Seq::<CommandModel>::empty() && step.snapshot is None
        && step.persist is None
}

/// Whether a step publishes the state and sends what was dispatched on the way to
/// it.
pub open spec fn publishes(step: ReducerStep, outcome: reducer::Outcome) -> bool {
    &&& command_models(step.commands@) == current_commands(
        outcome.dispatches,
        outcome.state.generation,
    )
    &&& step.snapshot matches Some(snapshot)
    &&& manager::shows(snapshot, outcome.state)
    &&& step.persist is None
    &&& step.flow == Flow::Continue
}

/// What the thread does about one thing it hears, at the time `now`.
pub fn reduce(state: &mut StateManager, input: ReducerInput, now: Reading) -> (step: ReducerStep)
    requires
        old(state).wf(),
        old(state).has_room(),
    ensures
        final(state).wf(),
        match input {
            ReducerInput::Audio(event) => {
                let outcome = reducer::audio_step(old(state)@, event, now);
                final(state)@ == outcome.state && publishes(step, outcome)
            },
            ReducerInput::Ui(command) => {
                let outcome = reducer::ui_step(old(state)@, command, now);
                final(state)@ == outcome.state && publishes(step, outcome)
            },
            ReducerInput::AudioClosed => final(state)@ == old(state)@ && is_quiet(step) && step.flow
                == Flow::Stop,
            ReducerInput::UiClosed => final(state)@ == old(state)@ && is_quiet(step) && step.flow
                == Flow::Continue,
            ReducerInput::Saved(result) => {
                &&& final(state)@ == reducer::save_reported(
                    old(state)@,
                    manager::failure_of(result),
                    now.moment,
                )
                &&& is_quiet(step)
                &&& step.flow == Flow::Continue
            },
            ReducerInput::Poll => {
                &&& command_models(step.commands@) == Seq::<CommandModel>::empty()
                &&& step.snapshot is None
                &&& step.flow == Flow::Continue
                &&& step.persist is Some == reducer::window_elapsed(old(state)@, now.moment)
                &&& match step.persist {
                    Some(request) => request.0@ == old(state)@.store && final(state)@
                        == reducer::handed_out(old(state)@),
                    None => final(state)@ == old(state)@,
                }
            },
            ReducerInput::Shutdown => final(state)@ == old(state)@ && is_quiet(step) && step.flow
                == Flow::FlushAndStop,
        },
{
    match input {
        ReducerInput::Audio(event) => {
            let dispatches = state.handle_audio_event_at(event, now);
            published(state, dispatches)
        },
        ReducerInput::Ui(command) => {
            let dispatches = state.handle_ui_command_at(command, now);
            published(state, dispatches)
        },
        ReducerInput::AudioClosed => quiet(Flow::Stop),
        ReducerInput::UiClosed => quiet(Flow::Continue),
        ReducerInput::Saved(result) => {
            state.on_persist_result_at(result, now.moment);
            quiet(Flow::Continue)
        },
        ReducerInput::Poll => {
            let persist = state.take_persist_request(now.moment);
            let mut step = quiet(Flow::Continue);
            step.persist = persist;
            step
        },
        ReducerInput::Shutdown => quiet(Flow::FlushAndStop),
    }
}

fn published(state: &StateManager, dispatches: Vec<Dispatch>) -> (step: ReducerStep)
    ensures
        publishes(
            step,
            (reducer::Outcome {
                state: state@,
                dispatches: manager::dispatch_models(dispatches@),
            }),
        ),
{
    let current = state.current_switch_generation();
    let commands = apply_dispatches(dispatches, current);
    ReducerStep { commands, snapshot: Some(state.snapshot()), persist: None, flow: Flow::Continue }
}

/// The state after several saves were reported, one after the other.
pub open spec fn saves_reported(
    m: ManagerModel,
    results: Seq<PersistResult>,
    at: Moment,
) -> ManagerModel
    decreases results.len(),
{
    if results.len() == 0 {
        m
    } else {
        reducer::save_reported(
            saves_reported(m, results.drop_last(), at),
            manager::failure_of(results.last()),
            at,
        )
    }
}

/// Starts the flush at shutdown: takes note of the saves that are already
/// reported, so that none of them is taken for the answer to the flush, and hands
/// out what is not saved yet.
pub fn begin_flush(state: &mut StateManager, waiting: Vec<PersistResult>, at: Moment) -> (request:
    Option<PersistRequest>)
    requires
        old(state).wf(),
    ensures
        final(state).wf(),
        ({
            let drained = saves_reported(old(state)@, waiting@, at);
            match request {
                Some(r) => drained.dirty_since is Some && r.0@ == drained.store && final(state)@
                    == reducer::handed_out(drained),
                None => drained.dirty_since is None && final(state)@ == drained,
            }
        }),
{
    let ghost all = waiting@;
    let ghost before = state@;
    let mut rest: Vec<PersistResult> = turned_round(waiting);
    assert(all.take(0) =~= Seq::<PersistResult>::empty());
    while rest.len() > 0
        invariant
            rest@.len() <= all.len(),
            rest@ == all.skip(all.len() - rest@.len()).reverse(),
            state.wf(),
            state@ == saves_reported(before, all.take(all.len() - rest@.len()), at),
        decreases rest@.len(),
    {
        let ghost i = all.len() - rest@.len();
        let next = rest.pop();
        proof {
            assert(rest@ =~= all.skip(i + 1).reverse());
            assert(all.take(i + 1).drop_last() =~= all.take(i));
        }
        if let Some(result) = next {
            assert(result == all[i]);
            state.on_persist_result_at(result, at);
        }
    }
    assert(all.take(all.len() as int) =~= all);
    state.flush_persist_request()
}

fn turned_round(results: Vec<PersistResult>) -> (turned: Vec<PersistResult>)
    ensures
        turned@ == results@.reverse(),
{
    let ghost all = results@;
    let mut rest = results;
    let mut turned: Vec<PersistResult> = Vec::new();
    while rest.len() > 0
        invariant
            rest@.len() <= all.len(),
            rest@ == all.take(rest@.len() as int),
            turned@ == all.skip(rest@.len() as int).reverse(),
        decreases rest@.len(),
    {
        let ghost n = rest@.len() as int;
        let last = rest.pop();
        assert(rest@ =~= all.take(n - 1));
        if let Some(result) = last {
            turned.push(result);
        }
        assert(turned@ =~= all.skip(n - 1).reverse());
    }
    assert(turned@ =~= all.reverse());
    turned
}

/// Nothing that an audio event dispatches is stale when it is sent.
pub proof fn nothing_dispatched_is_dropped(m: ManagerModel, event: AudioEvent, now: Reading)
    ensures
        current_commands(
            reducer::audio_step(m, event, now).dispatches,
            reducer::audio_step(m, event, now).state.generation,
        ).len() == reducer::audio_step(m, event, now).dispatches.len(),
{
    crate::laws::audio_events_dispatch_the_newest_generation(m, event, now);
    let outcome = reducer::audio_step(m, event, now);
    keeping_all(outcome.dispatches, outcome.state.generation);
}

proof fn keeping_all(dispatches: Seq<DispatchModel>, generation: nat)
    requires
        crate::laws::all_of_generation(dispatches, generation),
    ensures
        dispatches.filter(|dispatch: DispatchModel| dispatch.generation >= generation).len()
            == dispatches.len(),
    decreases dispatches.len(),
{
    reveal(Seq::filter);
    if dispatches.len() > 0 {
        let rest = dispatches.drop_last();
        assert forall|i: int| 0 <= i < rest.len() implies (#[trigger] rest[i]).generation
            == generation by {
            assert(dispatches[i].generation == generation);
        }
        keeping_all(rest, generation);
        assert(dispatches[dispatches.len() - 1].generation == generation);
    }
}

/// Exactly the commands whose generation is not older than the current one are sent,
/// in the order in which they were dispatched.
pub proof fn superseded_commands_are_not_sent(dispatches: Seq<DispatchModel>, generation: nat)
    ensures
        ({
            let sent = current_commands(dispatches, generation);
            &&& forall|i: int|
                0 <= i < dispatches.len() && (#[trigger] dispatches[i]).generation >= generation
                    ==> sent.contains(dispatches[i].command)
            &&& forall|k: int|
                0 <= k < sent.len() ==> exists|i: int|
                    0 <= i < dispatches.len() && (#[trigger] dispatches[i]).generation
                        >= generation && dispatches[i].command == #[trigger] sent[k]
            &&& dispatches.len() > 0 ==> sent == current_commands(dispatches.drop_last(), generation)
                + if dispatches.last().generation >= generation {
                seq![dispatches.last().command]
            } else {
                Seq::empty()
            }
        }),
{
    let fresh = |dispatch: DispatchModel| dispatch.generation >= generation;
    let kept = dispatches.filter(fresh);
    let sent = current_commands(dispatches, generation);
    assert forall|i: int|
        0 <= i < dispatches.len() && (#[trigger] dispatches[i]).generation
            >= generation implies sent.contains(dispatches[i].command) by {
        dispatches.lemma_filter_contains(fresh, i);
        let k = choose|k: int| 0 <= k < kept.len() && kept[k] == dispatches[i];
        assert(sent[k] == dispatches[i].command);
    }
    assert forall|k: int| 0 <= k < sent.len() implies exists|i: int|
        0 <= i < dispatches.len() && (#[trigger] dispatches[i]).generation >= generation
            && dispatches[i].command == #[trigger] sent[k] by {
        assert(kept.contains(kept[k]));
        dispatches.lemma_filter_contains_rev(fresh, kept[k]);
        dispatches.lemma_filter_pred(fresh, k);
        let i = choose|i: int| 0 <= i < dispatches.len() && dispatches[i] == kept[k];
        assert(dispatches[i].command == sent[k]);
    }
    if dispatches.len() > 0 {
        reveal(Seq::filter);
        let rest = dispatches.drop_last();
        assert(sent =~= current_commands(rest, generation) + if dispatches.last().generation
            >= generation {
            seq![dispatches.last().command]
        } else {
            Seq::empty()
        });
    }
}

/// A step that publishes shows the state, saves nothing and goes on. It sends what
/// was dispatched under the state's own generation or a newer one, and nothing else.
pub proof fn published_step_shows_and_sends(step: ReducerStep, outcome: reducer::Outcome)
    requires
        publishes(step, outcome),
    ensures
        step.snapshot is Some,
        manager::shows(step.snapshot->0, outcome.state),
        step.persist is None,
        step.flow == Flow::Continue,
        forall|i: int|
            0 <= i < outcome.dispatches.len() && (#[trigger] outcome.dispatches[i]).generation
                >= outcome.state.generation ==> exists|k: int|
                0 <= k < step.commands@.len() && (#[trigger] step.commands@[k])@
                    == outcome.dispatches[i].command,
        forall|k: int|
            0 <= k < step.commands@.len() ==> exists|i: int|
                0 <= i < outcome.dispatches.len() && (#[trigger] outcome.dispatches[i]).generation
                    >= outcome.state.generation && outcome.dispatches[i].command == (
                #[trigger] step.commands@[k])@,
        (forall|i: int|
            0 <= i < outcome.dispatches.len() ==> (#[trigger] outcome.dispatches[i]).generation
                >= outcome.state.generation) ==> step.commands@.len() == outcome.dispatches.len()
            && forall|k: int|
            0 <= k < step.commands@.len() ==> (#[trigger] step.commands@[k])@
                == outcome.dispatches[k].command,
{
    let sent = current_commands(outcome.dispatches, outcome.state.generation);
    superseded_commands_are_not_sent(outcome.dispatches, outcome.state.generation);
    assert forall|i: int|
        0 <= i < outcome.dispatches.len() && (#[trigger] outcome.dispatches[i]).generation
            >= outcome.state.generation implies exists|k: int|
        0 <= k < step.commands@.len() && (#[trigger] step.commands@[k])@
            == outcome.dispatches[i].command by {
        assert(sent.contains(outcome.dispatches[i].command));
        let k = choose|k: int| 0 <= k < sent.len() && sent[k] == outcome.dispatches[i].command;
        assert(command_models(step.commands@)[k] == step.commands@[k]@);
    }
    assert forall|k: int| 0 <= k < step.commands@.len() implies exists|i: int|
        0 <= i < outcome.dispatches.len() && (#[trigger] outcome.dispatches[i]).generation
            >= outcome.state.generation && outcome.dispatches[i].command == (
        #[trigger] step.commands@[k])@ by {
        assert(command_models(step.commands@)[k] == step.commands@[k]@);
        assert(sent[k] == step.commands@[k]@);
    }
    if forall|i: int|
        0 <= i < outcome.dispatches.len() ==> (#[trigger] outcome.dispatches[i]).generation
            >= outcome.state.generation {
        all_are_sent(outcome.dispatches, outcome.state.generation);
        assert forall|k: int| 0 <= k < step.commands@.len() implies (
        #[trigger] step.commands@[k])@ == outcome.dispatches[k].command by {
            assert(command_models(step.commands@)[k] == step.commands@[k]@);
        }
    }
}

proof fn all_are_sent(dispatches: Seq<DispatchModel>, generation: nat)
    requires
        forall|i: int|
            0 <= i < dispatches.len() ==> (#[trigger] dispatches[i]).generation >= generation,
    ensures
        current_commands(dispatches, generation) == dispatches.map_values(
            |dispatch: DispatchModel| dispatch.command,
        ),
    decreases dispatches.len(),
{
    superseded_commands_are_not_sent(dispatches, generation);
    let command_of = |dispatch: DispatchModel| dispatch.command;
    if dispatches.len() > 0 {
        let rest = dispatches.drop_last();
        assert forall|i: int| 0 <= i < rest.len() implies (#[trigger] rest[i]).generation
            >= generation by {
            assert(rest[i] == dispatches[i]);
        }
        all_are_sent(rest, generation);
        assert(dispatches[dispatches.len() - 1].generation >= generation);
    } else {
        reveal(Seq::filter);
    }
    assert(current_commands(dispatches, generation) =~= dispatches.map_values(command_of));
}

/// After several saves were reported the error is that of the last one, and the store
/// waits to be saved if it did before or if any of them failed. The store itself and
/// what is shown do not change.
pub proof fn last_report_counts(m: ManagerModel, results: Seq<PersistResult>, at: Moment)
    ensures
        ({
            let after = saves_reported(m, results, at);
            &&& after.store == m.store
            &&& after.sessions == m.sessions
            &&& after.endpoints == m.endpoints
            &&& after.default_endpoint == m.default_endpoint
            &&& after.generation == m.generation
            &&& after.revision == m.revision
            &&& after.load_error == m.load_error
            &&& after.forgotten == m.forgotten
            &&& match m.dirty_since {
                Some(_) => after.dirty_since == m.dirty_since,
                None => after.dirty_since == if exists|i: int|
                    0 <= i < results.len() && #[trigger] results[i] is Failed {
                    Some(at)
                } else {
                    None
                },
            }
            &&& if results.len() == 0 {
                after.persist_error == m.persist_error
            } else {
                match results.last() {
                    PersistResult::Saved => after.persist_error is None,
                    PersistResult::Failed(error) => after.persist_error == Some(error@),
                }
            }
        }),
    decreases results.len(),
{
    if results.len() > 0 {
        let rest = results.drop_last();
        last_report_counts(m, rest, at);
        if exists|i: int| 0 <= i < rest.len() && #[trigger] rest[i] is Failed {
            let i = choose|i: int| 0 <= i < rest.len() && #[trigger] rest[i] is Failed;
            assert(results[i] is Failed);
        }
        if exists|i: int| 0 <= i < results.len() && #[trigger] results[i] is Failed {
            let i = choose|i: int| 0 <= i < results.len() && #[trigger] results[i] is Failed;
            if i < rest.len() {
                assert(rest[i] is Failed);
            }
        }
        if results.last() is Failed {
            assert(results[results.len() - 1] is Failed);
        }
    }
}

/// An error of the audio layer is told with what failed, where that is known.
pub proof fn core_error_says_what_failed(error: CoreError)
    ensures
        error matches CoreError::ComInitFailed(message) ==> core_error_text(error)
            == "COM init failed: "@ + message@,
        error matches CoreError::DeviceEnumerationFailed(message) ==> core_error_text(error)
            == "device enumeration failed: "@ + message@,
        error matches CoreError::Other(message) ==> core_error_text(error) == message@,
{
}

/// A quiet step sends nothing, shows nothing and saves nothing.
pub proof fn quiet_step_does_nothing(step: ReducerStep)
    ensures
        is_quiet(step) <==> step.commands@.len() == 0 && step.snapshot is None && step.persist
            is None,
{
    if step.commands@.len() == 0 {
        assert(command_models(step.commands@) =~= Seq::<CommandModel>::empty());
    } else {
        assert(command_models(step.commands@).len() > 0);
    }
}

} // verus!
