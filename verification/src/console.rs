//! The command line and the console commands.

use crate::audio::CoreStartup;
use crate::backend;
use crate::messages::{
    AudioEvent, CoreCommand, CoreError, DataFlow, DisconnectReason, EndpointState, EndpointView,
    Role, RoleSet, SessionInstanceId, SessionState,
};
use crate::messages;
use crate::single::Single;
use crate::single;
use crate::text;
use vstd::prelude::*;
use vstd::string::*;

verus! {

// ----- the command line

/// What the program was started for.
#[derive(Debug, Clone, Copy, PartialEq, Eq, Structural)]
pub enum Mode {
    Unselected,
    DumpEvents,
    Run,
    Overlay,
}

impl Mode {
    /// Whether this mode starts the backend, and so claims the keyboard shortcut
    /// and the profile store: only then a second instance is in the way.
    pub fn starts_backend(self) -> (yes: bool)
        ensures
            yes == (self == Mode::Run || self == Mode::Overlay),
    {
        match self {
            Mode::Run | Mode::Overlay => true,
            Mode::DumpEvents | Mode::Unselected => false,
        }
    }
}

/// What the command line asks for.
#[derive(Debug)]
pub enum Arguments {
    Start(Mode),
    Help,
    Unknown(String),
}

/// What the command line asks for, as a model.
pub enum ArgumentsModel {
    Start(Mode),
    Help,
    Unknown(Seq<char>),
}

impl View for Arguments {
    type V = ArgumentsModel;

    open spec fn view(&self) -> ArgumentsModel {
        match self {
            Arguments::Start(mode) => ArgumentsModel::Start(*mode),
            Arguments::Help => ArgumentsModel::Help,
            Arguments::Unknown(argument) => ArgumentsModel::Unknown(argument@),
        }
    }
}

/// The mode that an argument selects.
pub open spec fn mode_of(argument: Seq<char>) -> Option<Mode> {
    if argument == "--dump-events"@ {
        Some(Mode::DumpEvents)
    } else if argument == "--run"@ {
        Some(Mode::Run)
    } else if argument == "--overlay"@ {
        Some(Mode::Overlay)
    } else {
        None
    }
}

/// Whether an argument asks for help.
pub open spec fn asks_for_help(argument: Seq<char>) -> bool {
    argument == "-h"@ || argument == "--help"@
}

/// What the arguments from `start` on ask for, after those before selected
/// `mode`: the last mode counts, and the first argument that is none ends the
/// reading.
pub open spec fn arguments_from(arguments: Seq<String>, start: int, mode: Mode) -> ArgumentsModel
    decreases arguments.len() - start,
{
    if start >= arguments.len() {
        ArgumentsModel::Start(mode)
    } else {
        let argument = arguments[start]@;
        match mode_of(argument) {
            Some(next) => arguments_from(arguments, start + 1, next),
            None => if asks_for_help(argument) {
                ArgumentsModel::Help
            } else {
                ArgumentsModel::Unknown(argument)
            },
        }
    }
}

/// Reads the arguments of the program.
pub fn parse_arguments(arguments: &Vec<String>) -> (result: Arguments)
    ensures
        result@ == arguments_from(arguments@, 0, Mode::Unselected),
{
    let mut mode = Mode::Unselected;
    let mut i: usize = 0;
    while i < arguments.len()
        invariant
            i <= arguments@.len(),
            arguments_from(arguments@, i as int, mode) == arguments_from(
                arguments@,
                0,
                Mode::Unselected,
            ),
        decreases arguments@.len() - i,
    {
        let argument = arguments[i].as_str();
        if text::same(argument, "--dump-events") {
            mode = Mode::DumpEvents;
        } else if text::same(argument, "--run") {
            mode = Mode::Run;
        } else if text::same(argument, "--overlay") {
            mode = Mode::Overlay;
        } else if text::same(argument, "-h") || text::same(argument, "--help") {
            return Arguments::Help;
        } else {
            return Arguments::Unknown(argument.to_owned());
        }
        i += 1;
    }
    Arguments::Start(mode)
}

// ----- words

/// The characters that Unicode counts as white space.
pub open spec fn is_space(c: char) -> bool {
    let code = c as int;
    ||| 0x09 <= code <= 0x0D
    ||| code == 0x20
    ||| code == 0x85
    ||| code == 0xA0
    ||| code == 0x1680
    ||| 0x2000 <= code <= 0x200A
    ||| code == 0x2028
    ||| code == 0x2029
    ||| code == 0x202F
    ||| code == 0x205F
    ||| code == 0x3000
}

fn spaces(c: char) -> (yes: bool)
    ensures
        yes == is_space(c),
{
    let code: u32 = c as u32;
    (0x09 <= code && code <= 0x0D) || code == 0x20 || code == 0x85 || code == 0xA0 || code == 0x1680
        || (0x2000 <= code && code <= 0x200A) || code == 0x2028 || code == 0x2029 || code == 0x202F
        || code == 0x205F || code == 0x3000
}

/// The words of a line: the runs of characters between white space.
pub open spec fn words_of(line: Seq<char>) -> Seq<Seq<char>>
    decreases line.len(),
{
    if line.len() == 0 {
        Seq::empty()
    } else {
        let before = words_of(line.drop_last());
        let c = line.last();
        if is_space(c) {
            before
        } else if line.len() == 1 || is_space(line[line.len() - 2]) {
            before.push(seq![c])
        } else {
            before.drop_last().push(before.last().push(c))
        }
    }
}

/// What each word of a list holds.
pub open spec fn word_texts(words: Seq<String>) -> Seq<Seq<char>> {
    words.map_values(|word: String| word@)
}

/// The words of a line.
pub fn split_words(line: &str) -> (words: Vec<String>)
    ensures
        word_texts(words@) == words_of(line@),
{
    let chars = text::chars_of(line);
    let mut words: Vec<String> = Vec::new();
    let mut word = String::new();
    let mut i: usize = 0;
    let ghost mut in_word = false;
    proof {
        assert(line@.take(0) =~= Seq::<char>::empty());
        assert(word_texts(words@) =~= Seq::<Seq<char>>::empty());
    }
    while i < chars.len()
        invariant
            i <= chars@.len(),
            chars@ == line@,
            in_word == (i > 0 && !is_space(line@[i - 1])),
            in_word == (word@.len() > 0),
            in_word ==> words_of(line@.take(i as int)) == word_texts(words@).push(word@),
            !in_word ==> words_of(line@.take(i as int)) == word_texts(words@),
        decreases chars@.len() - i,
    {
        let c: char = chars[i];
        proof {
            assert(line@.take(i + 1).drop_last() =~= line@.take(i as int));
            if i > 0 {
                assert(line@.take(i + 1)[i - 1] == line@[i - 1]);
            }
        }
        let ghost before = word_texts(words@);
        if spaces(c) {
            if !word.as_str().is_empty() {
                let finished = word;
                let ghost model = finished@;
                words.push(finished);
                word = String::new();
                assert(word_texts(words@) =~= before.push(model));
            }
            proof {
                in_word = false;
            }
        } else {
            let ghost old_word = word@;
            word.push(c);
            proof {
                if in_word {
                    let open = before.push(old_word);
                    assert(open.drop_last() =~= before);
                    assert(open.last() == old_word);
                } else {
                    assert(word@ =~= seq![c]);
                }
                in_word = true;
            }
        }
        i += 1;
    }
    proof {
        assert(line@.take(line@.len() as int) =~= line@);
    }
    if !word.as_str().is_empty() {
        let ghost before = word_texts(words@);
        let ghost model = word@;
        words.push(word);
        assert(word_texts(words@) =~= before.push(model));
    }
    words
}

// ----- console commands

/// A command while the backend runs without a user interface.
#[derive(Debug, Clone, Copy, PartialEq, Eq, Structural)]
pub enum RunCommand {
    Quit,
    Help,
    Blank,
    Unknown,
}

/// Reads a command while the backend runs without a user interface.
pub fn parse_run_command(line: &str) -> (command: RunCommand)
    ensures
        command == {
            let words = words_of(line@);
            if words.len() == 0 {
                RunCommand::Blank
            } else if words == seq!["quit"@] {
                RunCommand::Quit
            } else if words == seq!["help"@] {
                RunCommand::Help
            } else {
                RunCommand::Unknown
            }
        },
{
    let words = split_words(line);
    let ghost texts = word_texts(words@);
    if words.len() == 0 {
        return RunCommand::Blank;
    }
    assert(texts[0] == words@[0]@);
    if words.len() == 1 && text::same(words[0].as_str(), "quit") {
        assert(texts =~= seq!["quit"@]);
        return RunCommand::Quit;
    }
    proof {
        if texts == seq!["quit"@] {
            assert(texts[0] == "quit"@);
        }
    }
    if words.len() == 1 && text::same(words[0].as_str(), "help") {
        assert(texts =~= seq!["help"@]);
        return RunCommand::Help;
    }
    proof {
        if texts == seq!["help"@] {
            assert(texts[0] == "help"@);
        }
    }
    RunCommand::Unknown
}

/// A command while events are printed. The arguments of the last two are the
/// words behind the command.
#[derive(Debug)]
pub enum ConsoleCommand {
    Blank,
    Help,
    List,
    Endpoints,
    Quit,
    Volume(Vec<String>),
    Switch(Vec<String>),
    Unknown,
}

/// Reads a command while events are printed.
pub fn parse_console_command(line: &str) -> (command: ConsoleCommand)
    ensures
        ({
            let words = words_of(line@);
            if words.len() == 0 {
                command is Blank
            } else if words[0] == "help"@ {
                command is Help
            } else if words[0] == "list"@ {
                command is List
            } else if words[0] == "endpoints"@ {
                command is Endpoints
            } else if words[0] == "quit"@ {
                command is Quit
            } else if words[0] == "vol"@ {
                command matches ConsoleCommand::Volume(rest) && word_texts(rest@) == words.skip(1)
            } else if words[0] == "switch"@ {
                command matches ConsoleCommand::Switch(rest) && word_texts(rest@) == words.skip(1)
            } else {
                command is Unknown
            }
        }),
{
    let mut words = split_words(line);
    if words.len() == 0 {
        return ConsoleCommand::Blank;
    }
    let ghost all = word_texts(words@);
    let first = words.remove(0);
    assert(first@ == all[0]);
    assert(word_texts(words@) =~= all.skip(1));
    let name = first.as_str();
    if text::same(name, "help") {
        ConsoleCommand::Help
    } else if text::same(name, "list") {
        ConsoleCommand::List
    } else if text::same(name, "endpoints") {
        ConsoleCommand::Endpoints
    } else if text::same(name, "quit") {
        ConsoleCommand::Quit
    } else if text::same(name, "vol") {
        ConsoleCommand::Volume(words)
    } else if text::same(name, "switch") {
        ConsoleCommand::Switch(words)
    } else {
        ConsoleCommand::Unknown
    }
}

// ----- the sessions that the console knows

/// A session as the console knows it.
#[derive(Debug)]
pub struct SessionSnapshot {
    pub instance: SessionInstanceId,
    pub process: String,
    pub volume: Single,
    pub muted: bool,
}

/// What a [`SessionSnapshot`] holds.
pub struct SnapshotModel {
    pub instance: Seq<char>,
    pub process: Seq<char>,
    pub volume: Single,
    pub muted: bool,
}

impl View for SessionSnapshot {
    type V = SnapshotModel;

    open spec fn view(&self) -> SnapshotModel {
        SnapshotModel {
            instance: self.instance@,
            process: self.process@,
            volume: self.volume,
            muted: self.muted,
        }
    }
}

/// What a list of sessions holds.
pub open spec fn snapshot_models(sessions: Seq<SessionSnapshot>) -> Seq<SnapshotModel> {
    sessions.map_values(|session: SessionSnapshot| session@)
}

/// The sessions but for `instance`.
pub open spec fn without(sessions: Seq<SnapshotModel>, instance: Seq<char>) -> Seq<SnapshotModel> {
    sessions.filter(|session: SnapshotModel| session.instance != instance)
}

/// The place of the first session `instance`.
pub open spec fn first_place(sessions: Seq<SnapshotModel>, instance: Seq<char>) -> Option<int>
    decreases sessions.len(),
{
    if sessions.len() == 0 {
        None
    } else {
        match first_place(sessions.drop_last(), instance) {
            Some(i) => Some(i),
            None => if sessions.last().instance == instance {
                Some(sessions.len() - 1)
            } else {
                None
            },
        }
    }
}

/// The sessions after an event.
pub open spec fn sessions_after(sessions: Seq<SnapshotModel>, event: AudioEvent) -> Seq<
    SnapshotModel,
> {
    match event {
        AudioEvent::SessionCreated { endpoint, session } => without(
            sessions,
            session.instance@,
        ).push(
            SnapshotModel {
                instance: session.instance@,
                process: session.process@,
                volume: session.volume,
                muted: session.muted,
            },
        ),
        AudioEvent::SessionVolumeChanged { instance, volume, muted, own_change } => {
            match first_place(sessions, instance@) {
                Some(i) => sessions.update(i, SnapshotModel { volume, muted, ..sessions[i] }),
                None => sessions,
            }
        },
        AudioEvent::SessionDisconnected { instance, reason } => without(sessions, instance@),
        _ => sessions,
    }
}

fn remove_instance(sessions: &mut Vec<SessionSnapshot>, instance: &str)
    ensures
        snapshot_models(final(sessions)@) == without(snapshot_models(old(sessions)@), instance@),
{
    let ghost all = snapshot_models(sessions@);
    let ghost other = |session: SnapshotModel| session.instance != instance@;
    let mut i: usize = 0;
    let ghost mut done: int = 0;
    proof {
        reveal(Seq::filter);
        assert(all.take(0).filter(other) =~= Seq::<SnapshotModel>::empty());
        assert(snapshot_models(sessions@) =~= all.take(0).filter(other) + all.skip(0));
    }
    while i < sessions.len()
        invariant
            0 <= done <= all.len(),
            other == (|session: SnapshotModel| session.instance != instance@),
            i == all.take(done).filter(other).len(),
            snapshot_models(sessions@) == all.take(done).filter(other) + all.skip(done),
        decreases all.len() - done,
    {
        let ghost kept = all.take(done).filter(other);
        let ghost shown = snapshot_models(sessions@);
        proof {
            assert(done < all.len());
            assert(shown[i as int] == all[done]);
            assert(all.take(done + 1).drop_last() =~= all.take(done));
            assert(all.take(done + 1).last() == all[done]);
            reveal(Seq::filter);
            assert(all.skip(done) =~= seq![all[done]] + all.skip(done + 1));
        }
        if text::same(sessions[i].instance.as_str(), instance) {
            let _ = sessions.remove(i);
            assert(snapshot_models(sessions@) =~= shown.remove(i as int));
            assert(shown.remove(i as int) =~= kept + all.skip(done + 1));
        } else {
            i += 1;
            assert(shown =~= kept.push(all[done]) + all.skip(done + 1));
        }
        proof {
            done = done + 1;
        }
    }
    proof {
        assert(done == all.len()) by {
            let shown = snapshot_models(sessions@);
            assert(shown.len() == all.take(done).filter(other).len() + all.skip(done).len());
        }
        assert(all.take(done) =~= all);
        assert(all.skip(done) =~= Seq::<SnapshotModel>::empty());
        assert(snapshot_models(sessions@) =~= all.filter(other));
    }
}

fn find_instance(sessions: &Vec<SessionSnapshot>, instance: &str) -> (place: Option<usize>)
    ensures
        match place {
            Some(i) => first_place(snapshot_models(sessions@), instance@) == Some(i as int) && i
                < sessions@.len(),
            None => first_place(snapshot_models(sessions@), instance@) is None,
        },
{
    let ghost all = snapshot_models(sessions@);
    let mut i: usize = 0;
    assert(all.take(0) =~= Seq::<SnapshotModel>::empty());
    while i < sessions.len()
        invariant
            i <= sessions@.len(),
            all == snapshot_models(sessions@),
            first_place(all.take(i as int), instance@) is None,
        decreases sessions@.len() - i,
    {
        proof {
            assert(all.take(i + 1).drop_last() =~= all.take(i as int));
        }
        if text::same(sessions[i].instance.as_str(), instance) {
            proof {
                first_place_stays(all, instance@, i + 1);
            }
            return Some(i);
        }
        i += 1;
    }
    assert(all.take(all.len() as int) =~= all);
    None
}

proof fn first_place_stays(sessions: Seq<SnapshotModel>, instance: Seq<char>, n: int)
    requires
        0 <= n <= sessions.len(),
        first_place(sessions.take(n), instance) is Some,
    ensures
        first_place(sessions, instance) == first_place(sessions.take(n), instance),
    decreases sessions.len(),
{
    if n == sessions.len() {
        assert(sessions.take(n) =~= sessions);
    } else {
        assert(sessions.drop_last().take(n) =~= sessions.take(n));
        first_place_stays(sessions.drop_last(), instance, n);
    }
}

/// Follows the sessions through an event.
pub fn update_sessions(sessions: &mut Vec<SessionSnapshot>, event: &AudioEvent)
    ensures
        snapshot_models(final(sessions)@) == sessions_after(
            snapshot_models(old(sessions)@),
            *event,
        ),
{
    let ghost all = snapshot_models(sessions@);
    match event {
        AudioEvent::SessionCreated { session, .. } => {
            remove_instance(sessions, session.instance.as_str());
            let ghost kept = snapshot_models(sessions@);
            sessions.push(
                SessionSnapshot {
                    instance: session.instance.clone(),
                    process: session.process.clone(),
                    volume: session.volume,
                    muted: session.muted,
                },
            );
            assert(snapshot_models(sessions@) =~= kept.push(
                SnapshotModel {
                    instance: session.instance@,
                    process: session.process@,
                    volume: session.volume,
                    muted: session.muted,
                },
            ));
        },
        AudioEvent::SessionVolumeChanged { instance, volume, muted, .. } => {
            let place = find_instance(sessions, instance.as_str());
            if let Some(i) = place {
                let changed = SessionSnapshot {
                    instance: sessions[i].instance.clone(),
                    process: sessions[i].process.clone(),
                    volume: *volume,
                    muted: *muted,
                };
                let ghost model = changed@;
                sessions.set(i, changed);
                assert(snapshot_models(sessions@) =~= all.update(i as int, model));
            }
        },
        AudioEvent::SessionDisconnected { instance, .. } => {
            remove_instance(sessions, instance.as_str());
        },
        _ => {},
    }
}

/// The endpoints that were there when the audio layer came up.
pub fn startup_endpoints_snapshot(startup: &CoreStartup) -> (endpoints: Vec<EndpointView>)
    ensures
        messages::endpoint_models(endpoints@) == messages::endpoint_models(startup.endpoints@),
{
    let mut endpoints: Vec<EndpointView> = Vec::new();
    let mut i: usize = 0;
    while i < startup.endpoints.len()
        invariant
            i <= startup.endpoints@.len(),
            endpoints@.len() == i,
            forall|j: int|
                0 <= j < i ==> (#[trigger] endpoints@[j])@ == startup.endpoints@[j]@,
        decreases startup.endpoints@.len() - i,
    {
        endpoints.push(startup.endpoints[i].clone());
        i += 1;
    }
    assert(messages::endpoint_models(endpoints@) =~= messages::endpoint_models(
        startup.endpoints@,
    ));
    endpoints
}

// ----- finding what a command means

/// Where a target is found among names: the first that equals it, else the only
/// one that it starts.
pub enum Found {
    One(int),
    Nothing,
    Several,
}

/// Whether some name equals the target, the first of them at `i`.
pub open spec fn equals_first(names: Seq<Seq<char>>, target: Seq<char>, i: int) -> bool {
    &&& 0 <= i < names.len()
    &&& names[i] == target
    &&& forall|j: int| 0 <= j < i ==> #[trigger] names[j] != target
}

/// Whether the target is the start of exactly one name, at `i`.
pub open spec fn starts_only(names: Seq<Seq<char>>, target: Seq<char>, i: int) -> bool {
    &&& 0 <= i < names.len()
    &&& target.is_prefix_of(names[i])
    &&& forall|j: int|
        0 <= j < names.len() && j != i ==> !target.is_prefix_of(#[trigger] names[j])
}

/// Finds a target among names.
pub open spec fn found(names: Seq<Seq<char>>, target: Seq<char>) -> Found {
    if exists|i: int| #[trigger] equals_first(names, target, i) {
        Found::One(choose|i: int| #[trigger] equals_first(names, target, i))
    } else if exists|i: int| #[trigger] starts_only(names, target, i) {
        Found::One(choose|i: int| #[trigger] starts_only(names, target, i))
    } else if exists|i: int|
        0 <= i < names.len() && target.is_prefix_of(#[trigger] names[i]) {
        Found::Several
    } else {
        Found::Nothing
    }
}

/// Whether `text` starts with `prefix`.
pub fn starts_with(text: &str, prefix: &str) -> (yes: bool)
    ensures
        yes == prefix@.is_prefix_of(text@),
{
    let whole = text::chars_of(text);
    let start = text::chars_of(prefix);
    if start.len() > whole.len() {
        return false;
    }
    let mut i: usize = 0;
    while i < start.len()
        invariant
            i <= start@.len() <= whole@.len(),
            start@ == prefix@,
            whole@ == text@,
            forall|j: int| 0 <= j < i ==> start@[j] == whole@[j],
        decreases start@.len() - i,
    {
        if start[i] != whole[i] {
            proof {
                if prefix@.is_prefix_of(text@) {
                    assert(prefix@ == text@.subrange(0, prefix@.len() as int));
                    assert(prefix@[i as int] == text@.subrange(0, prefix@.len() as int)[i as int]);
                }
            }
            return false;
        }
        i += 1;
    }
    assert(prefix@ =~= text@.subrange(0, prefix@.len() as int));
    true
}

enum Match {
    One(usize),
    Nothing,
    Several,
}

fn find_name(names: &Vec<String>, target: &str) -> (result: Match)
    ensures
        match result {
            Match::One(i) => i < names@.len() && found(word_texts(names@), target@) == Found::One(
                i as int,
            ),
            Match::Nothing => found(word_texts(names@), target@) == Found::Nothing,
            Match::Several => found(word_texts(names@), target@) == Found::Several,
        },
{
    let ghost all = word_texts(names@);
    let mut i: usize = 0;
    while i < names.len()
        invariant
            i <= names@.len(),
            all == word_texts(names@),
            forall|j: int| 0 <= j < i ==> #[trigger] all[j] != target@,
        decreases names@.len() - i,
    {
        assert(all[i as int] == names@[i as int]@);
        if text::same(names[i].as_str(), target) {
            proof {
                assert(equals_first(all, target@, i as int));
                let k = choose|k: int| #[trigger] equals_first(all, target@, k);
                assert(k == i) by {
                    if k < i {
                        assert(all[k] != target@);
                    } else if i < k {
                        assert(all[i as int] != target@);
                    }
                }
            }
            return Match::One(i);
        }
        i += 1;
    }
    proof {
        assert forall|k: int| !(#[trigger] equals_first(all, target@, k)) by {
            if 0 <= k < all.len() {
                assert(all[k] != target@);
            }
        }
    }
    let mut hit: Option<usize> = None;
    let mut j: usize = 0;
    while j < names.len()
        invariant
            j <= names@.len(),
            all == word_texts(names@),
            forall|k: int| !(#[trigger] equals_first(all, target@, k)),
            match hit {
                Some(h) => {
                    &&& h < j
                    &&& target@.is_prefix_of(all[h as int])
                    &&& forall|k: int|
                        0 <= k < j && k != h ==> !target@.is_prefix_of(#[trigger] all[k])
                },
                None => forall|k: int| 0 <= k < j ==> !target@.is_prefix_of(#[trigger] all[k]),
            },
        decreases names@.len() - j,
    {
        assert(all[j as int] == names@[j as int]@);
        if starts_with(names[j].as_str(), target) {
            if let Some(h) = hit {
                proof {
                    assert(target@.is_prefix_of(all[j as int]));
                    assert forall|k: int| !(#[trigger] starts_only(all, target@, k)) by {
                        if k != h {
                            assert(target@.is_prefix_of(all[h as int]));
                        }
                    }
                }
                return Match::Several;
            }
            hit = Some(j);
        }
        j += 1;
    }
    match hit {
        Some(h) => {
            proof {
                assert(starts_only(all, target@, h as int));
                let k = choose|k: int| #[trigger] starts_only(all, target@, k);
                assert(k == h) by {
                    if k != h {
                        assert(!target@.is_prefix_of(all[h as int]));
                    }
                }
            }
            Match::One(h)
        },
        None => {
            proof {
                assert forall|k: int| !(#[trigger] starts_only(all, target@, k)) by {
                    if 0 <= k < all.len() {
                        assert(!target@.is_prefix_of(all[k]));
                    }
                }
            }
            Match::Nothing
        },
    }
}

/// The instances of the sessions that the console knows.
pub open spec fn instances_of(sessions: Seq<SessionSnapshot>) -> Seq<Seq<char>> {
    sessions.map_values(|session: SessionSnapshot| session.instance@)
}

/// The session that a command names: by its instance, or the start of it.
pub fn resolve_instance(sessions: &Vec<SessionSnapshot>, prefix: &str) -> (result: Result<
    SessionInstanceId,
    String,
>)
    ensures
        match found(instances_of(sessions@), prefix@) {
            Found::One(i) => result matches Ok(instance) && instance@ == instances_of(
                sessions@,
            )[i],
            Found::Nothing => result matches Err(message) && message@
                == "error: unknown instance, try 'list'"@,
            Found::Several => result matches Err(message) && message@
                == "error: ambiguous instance prefix, be more specific"@,
        },
{
    let mut names: Vec<String> = Vec::new();
    let mut i: usize = 0;
    while i < sessions.len()
        invariant
            i <= sessions@.len(),
            names@.len() == i,
            forall|j: int|
                0 <= j < i ==> (#[trigger] names@[j])@ == sessions@[j].instance@,
        decreases sessions@.len() - i,
    {
        names.push(sessions[i].instance.clone());
        i += 1;
    }
    assert(word_texts(names@) =~= instances_of(sessions@));
    match find_name(&names, prefix) {
        Match::One(at) => Ok(sessions[at].instance.clone()),
        Match::Nothing => Err(String::from_str("error: unknown instance, try 'list'")),
        Match::Several => Err(
            String::from_str("error: ambiguous instance prefix, be more specific"),
        ),
    }
}

/// The number that a text stands for as an index: decimal digits, behind at most
/// one plus sign.
pub open spec fn index_value(text: Seq<char>) -> Option<int> {
    if text.len() > 1 && text[0] == '+' {
        text::decimal_value(text.skip(1))
    } else {
        text::decimal_value(text)
    }
}

/// The index that a text stands for; `None` when it stands for none, or for one
/// beyond the machine's range.
pub fn parse_index(text: &str) -> (index: Option<usize>)
    ensures
        index == match index_value(text@) {
            Some(n) => if n <= usize::MAX {
                Some(n as usize)
            } else {
                None
            },
            None => None,
        },
{
    let chars = text::chars_of(text);
    let start: usize = if chars.len() > 1 && chars[0] == '+' {
        1
    } else {
        0
    };
    let ghost digits = text@.skip(start as int);
    assert(start == 0 ==> digits =~= text@);
    if start == chars.len() {
        return None;
    }
    let mut value: usize = 0;
    let mut i: usize = start;
    while i < chars.len()
        invariant
            start <= i <= chars@.len(),
            start < chars@.len(),
            chars@ == text@,
            digits == text@.skip(start as int),
            index_value(text@) == text::decimal_value(digits),
            i == start ==> value == 0,
            i > start ==> text::decimal_value(digits.take(i - start)) == Some(value as int),
        decreases chars@.len() - i,
    {
        let c: char = chars[i];
        proof {
            assert(digits.take(i + 1 - start).drop_last() =~= digits.take(i - start));
            assert(digits.take(i + 1 - start).last() == c);
            assert(digits.take(0) =~= Seq::<char>::empty());
        }
        let digit = digit_value(c);
        match digit {
            None => {
                proof {
                    no_value_with(digits, i + 1 - start);
                }
                return None;
            },
            Some(d) => {
                let d: usize = d;
                if value > (usize::MAX - d) / 10 {
                    proof {
                        assert(10 * value + d > usize::MAX);
                        assert(text::decimal_value(digits.take(i + 1 - start)) == Some(
                            10 * value + d,
                        ));
                        value_grows(digits, i + 1 - start);
                    }
                    return None;
                }
                value = 10 * value + d;
                proof {
                    if i == start {
                        assert(digits.take(1) =~= seq![c]);
                    }
                }
            },
        }
        i += 1;
    }
    assert(digits.take(chars@.len() - start) =~= digits);
    Some(value)
}

fn digit_value(c: char) -> (digit: Option<usize>)
    ensures
        digit == if '0' <= c && c <= '9' {
            Some((c as int - '0' as int) as usize)
        } else {
            None
        },
{
    if '0' <= c && c <= '9' {
        let code: u32 = c as u32;
        Some((code - 48) as usize)
    } else {
        None
    }
}

proof fn no_value_with(digits: Seq<char>, n: int)
    requires
        0 < n <= digits.len(),
        text::decimal_value(digits.take(n)) is None,
    ensures
        text::decimal_value(digits) is None,
    decreases digits.len(),
{
    if n == digits.len() {
        assert(digits.take(n) =~= digits);
    } else {
        assert(digits.drop_last().take(n) =~= digits.take(n));
        no_value_with(digits.drop_last(), n);
    }
}

proof fn value_grows(digits: Seq<char>, n: int)
    requires
        0 < n <= digits.len(),
        text::decimal_value(digits.take(n)) is Some,
        text::decimal_value(digits.take(n))->Some_0 >= 0,
    ensures
        match text::decimal_value(digits) {
            Some(v) => v >= text::decimal_value(digits.take(n))->Some_0,
            None => true,
        },
    decreases digits.len(),
{
    if n == digits.len() {
        assert(digits.take(n) =~= digits);
    } else {
        assert(digits.drop_last().take(n) =~= digits.take(n));
        value_grows(digits.drop_last(), n);
    }
}

/// The ids of endpoints.
pub open spec fn ids_of(endpoints: Seq<EndpointView>) -> Seq<Seq<char>> {
    endpoints.map_values(|endpoint: EndpointView| endpoint.id@)
}

/// The endpoint that a command names: by its place in the list, by its id, or by
/// the start of its id.
pub fn resolve_endpoint<'a>(endpoints: &'a Vec<EndpointView>, target: &str) -> (result: Result<
    &'a EndpointView,
    String,
>)
    ensures
        match index_value(target@) {
            Some(n) if n < endpoints@.len() => result == Ok::<&EndpointView, String>(
                &endpoints@[n],
            ),
            _ => match found(ids_of(endpoints@), target@) {
                Found::One(i) => result == Ok::<&EndpointView, String>(&endpoints@[i]),
                Found::Nothing => result matches Err(message) && message@
                    == "error: unknown endpoint index or id prefix, try 'endpoints'"@,
                Found::Several => result matches Err(message) && message@
                    == "error: ambiguous endpoint id prefix, be more specific"@,
            },
        },
{
    proof {
        value_is_not_negative(target@);
    }
    if let Some(index) = parse_index(target) {
        if index < endpoints.len() {
            return Ok(&endpoints[index]);
        }
    }
    let mut names: Vec<String> = Vec::new();
    let mut i: usize = 0;
    while i < endpoints.len()
        invariant
            i <= endpoints@.len(),
            names@.len() == i,
            forall|j: int| 0 <= j < i ==> (#[trigger] names@[j])@ == endpoints@[j].id@,
        decreases endpoints@.len() - i,
    {
        names.push(endpoints[i].id.clone());
        i += 1;
    }
    assert(word_texts(names@) =~= ids_of(endpoints@));
    match find_name(&names, target) {
        Match::One(at) => Ok(&endpoints[at]),
        Match::Nothing => Err(
            String::from_str("error: unknown endpoint index or id prefix, try 'endpoints'"),
        ),
        Match::Several => Err(
            String::from_str("error: ambiguous endpoint id prefix, be more specific"),
        ),
    }
}

proof fn value_is_not_negative(text: Seq<char>)
    ensures
        index_value(text) matches Some(n) ==> n >= 0,
{
    digits_are_not_negative(text);
    if text.len() > 1 {
        digits_are_not_negative(text.skip(1));
    }
}

proof fn digits_are_not_negative(text: Seq<char>)
    ensures
        text::decimal_value(text) matches Some(n) ==> n >= 0,
    decreases text.len(),
{
    if text.len() > 1 {
        digits_are_not_negative(text.drop_last());
    }
}

/// What a volume command asks the audio layer for. `volume` is the number that
/// the second argument stands for, if it is one.
pub fn handle_vol_command(
    arguments: &Vec<String>,
    volume: Option<Single>,
    sessions: &Vec<SessionSnapshot>,
) -> (result: Result<CoreCommand, String>)
    ensures
        ({
            let words = word_texts(arguments@);
            let in_range = volume is Some && single::le(
                Single { bits: single::ZERO_BITS },
                volume->Some_0,
            ) && single::le(volume->Some_0, Single { bits: single::ONE_BITS });
            if words.len() != 3 {
                result matches Err(message) && message@
                    == "usage: vol <instance-prefix> <0.0-1.0> mute|unmute"@
            } else if !in_range {
                result matches Err(message) && message@
                    == "error: volume must be a number between 0.0 and 1.0"@
            } else if words[2] != "mute"@ && words[2] != "unmute"@ {
                result matches Err(message) && message@
                    == "error: last argument must be 'mute' or 'unmute'"@
            } else {
                match found(instances_of(sessions@), words[0]) {
                    Found::One(i) => result matches Ok(command) && command@
                        == (messages::CommandModel::ApplySessionVolume {
                        instance: instances_of(sessions@)[i],
                        volume: volume->Some_0,
                        muted: words[2] == "mute"@,
                    }),
                    Found::Nothing => result matches Err(message) && message@
                        == "error: unknown instance, try 'list'"@,
                    Found::Several => result matches Err(message) && message@
                        == "error: ambiguous instance prefix, be more specific"@,
                }
            }
        }),
{
    let ghost words = word_texts(arguments@);
    if arguments.len() != 3 {
        return Err(String::from_str("usage: vol <instance-prefix> <0.0-1.0> mute|unmute"));
    }
    assert(words[0] == arguments@[0]@ && words[2] == arguments@[2]@);
    let level = match volume {
        Some(level) if (Single { bits: single::ZERO_BITS }).le(level) && level.le(
            Single { bits: single::ONE_BITS },
        ) => level,
        _ => {
            return Err(String::from_str("error: volume must be a number between 0.0 and 1.0"));
        },
    };
    let muted = if text::same(arguments[2].as_str(), "mute") {
        true
    } else if text::same(arguments[2].as_str(), "unmute") {
        proof {
            reveal_strlit("mute");
            reveal_strlit("unmute");
            assert("mute"@.len() != "unmute"@.len());
        }
        false
    } else {
        return Err(String::from_str("error: last argument must be 'mute' or 'unmute'"));
    };
    match resolve_instance(sessions, arguments[0].as_str()) {
        Ok(instance) => Ok(
            CoreCommand::ApplySessionVolume { instance, volume: level, muted },
        ),
        Err(message) => Err(message),
    }
}

/// What a switch command asks the audio layer for: the endpoint that it names, for
/// every role.
pub fn handle_switch_command<'a>(arguments: &Vec<String>, endpoints: &'a Vec<EndpointView>) -> (
    result: Result<(CoreCommand, &'a EndpointView), String>)
    ensures
        ({
            let words = word_texts(arguments@);
            if words.len() != 1 {
                result matches Err(message) && message@ == "usage: switch <index-or-id-prefix>"@
            } else {
                match index_value(words[0]) {
                    Some(n) if n < endpoints@.len() => switches_to(result, &endpoints@[n]),
                    _ => match found(ids_of(endpoints@), words[0]) {
                        Found::One(i) => switches_to(result, &endpoints@[i]),
                        Found::Nothing => result matches Err(message) && message@
                            == "error: unknown endpoint index or id prefix, try 'endpoints'"@,
                        Found::Several => result matches Err(message) && message@
                            == "error: ambiguous endpoint id prefix, be more specific"@,
                    },
                }
            }
        }),
{
    if arguments.len() != 1 {
        return Err(String::from_str("usage: switch <index-or-id-prefix>"));
    }
    assert(word_texts(arguments@)[0] == arguments@[0]@);
    match resolve_endpoint(endpoints, arguments[0].as_str()) {
        Ok(endpoint) => Ok(
            (
                CoreCommand::SetDefaultEndpoint { id: endpoint.id.clone(), roles: RoleSet::all() },
                endpoint,
            ),
        ),
        Err(message) => Err(message),
    }
}

/// Whether a switch command makes an endpoint the default for every role.
pub open spec fn switches_to(
    result: Result<(CoreCommand, &EndpointView), String>,
    endpoint: &EndpointView,
) -> bool {
    result matches Ok((command, chosen)) && chosen == endpoint && command@
        == (messages::CommandModel::SetDefaultEndpoint {
        id: endpoint.id@,
        roles: messages::all_roles(),
    })
}

// ----- describing events

/// The text shown for an error of the audio layer.
pub fn describe_error(error: &CoreError) -> (text: String)
    ensures
        text@ == backend::core_error_text(*error),
{
    backend::describe_core_error(error)
}

pub open spec fn flow_text(flow: DataFlow) -> Seq<char> {
    match flow {
        DataFlow::Render => "Render"@,
        DataFlow::Capture => "Capture"@,
    }
}

pub open spec fn role_text(role: Role) -> Seq<char> {
    match role {
        Role::Console => "Console"@,
        Role::Multimedia => "Multimedia"@,
        Role::Communications => "Communications"@,
    }
}

pub open spec fn endpoint_state_name(state: EndpointState) -> Seq<char> {
    match state {
        EndpointState::Active => "Active"@,
        EndpointState::Disabled => "Disabled"@,
        EndpointState::NotPresent => "NotPresent"@,
        EndpointState::Unplugged => "Unplugged"@,
    }
}

pub open spec fn session_state_name(state: SessionState) -> Seq<char> {
    match state {
        SessionState::Active => "Active"@,
        SessionState::Inactive => "Inactive"@,
        SessionState::Expired => "Expired"@,
    }
}

pub open spec fn reason_name(reason: DisconnectReason) -> Seq<char> {
    match reason {
        DisconnectReason::DeviceRemoval => "DeviceRemoval"@,
        DisconnectReason::ServerShutdown => "ServerShutdown"@,
        DisconnectReason::FormatChanged => "FormatChanged"@,
        DisconnectReason::SessionLogoff => "SessionLogoff"@,
        DisconnectReason::SessionDisconnected => "SessionDisconnected"@,
        DisconnectReason::ExclusiveModeOverride => "ExclusiveModeOverride"@,
    }
}

pub open spec fn truth_text(b: bool) -> Seq<char> {
    if b {
        "true"@
    } else {
        "false"@
    }
}

/// The line printed for an event. `volume` is how the volume of a volume change is
/// printed.
pub open spec fn event_text(event: AudioEvent, volume: Seq<char>) -> Seq<char> {
    match event {
        AudioEvent::DefaultEndpointChanged { flow, role, id } => {
            "DefaultEndpointChanged flow="@ + flow_text(flow) + " role="@ + role_text(role)
                + " id="@ + match id {
                Some(i) => i@,
                None => "<none>"@,
            }
        },
        AudioEvent::EndpointStateChanged { id, state } => "EndpointStateChanged   state="@
            + endpoint_state_name(state) + " id="@ + id@,
        AudioEvent::EndpointAdded { id, friendly_name } => "EndpointAdded          id="@ + id@
            + " name="@ + friendly_name@,
        AudioEvent::EndpointRemoved(id) => "EndpointRemoved        id="@ + id@,
        AudioEvent::SessionCreated { endpoint, session } => "SessionCreated         endpoint="@
            + endpoint@ + " process="@ + session.process@ + " instance="@ + session.instance@,
        AudioEvent::SessionVolumeChanged { instance, volume: _, muted, own_change } => {
            "SessionVolumeChanged   instance="@ + instance@ + " volume="@ + volume + " muted="@
                + truth_text(muted) + " own_change="@ + truth_text(own_change)
        },
        AudioEvent::SessionStateChanged { instance, state } => "SessionStateChanged    instance="@
            + instance@ + " state="@ + session_state_name(state),
        AudioEvent::SessionDisconnected { instance, reason } => "SessionDisconnected    instance="@
            + instance@ + " reason="@ + reason_name(reason),
        AudioEvent::CoreError(error) => "CoreError              "@ + backend::core_error_text(
            error,
        ),
    }
}

fn truth(b: bool) -> (text: &'static str)
    ensures
        text@ == truth_text(b),
{
    if b {
        "true"
    } else {
        "false"
    }
}

/// The line printed for an event. `volume` is how the volume of a volume change is
/// printed.
pub fn describe_event(event: &AudioEvent, volume: &str) -> (text: String)
    ensures
        text@ == event_text(*event, volume@),
{
    match event {
        AudioEvent::DefaultEndpointChanged { flow, role, id } => {
            let mut text = String::from_str("DefaultEndpointChanged flow=");
            text.append(
                match flow {
                    DataFlow::Render => "Render",
                    DataFlow::Capture => "Capture",
                },
            );
            text.append(" role=");
            text.append(
                match role {
                    Role::Console => "Console",
                    Role::Multimedia => "Multimedia",
                    Role::Communications => "Communications",
                },
            );
            text.append(" id=");
            match id {
                Some(id) => {
                    text.append(id.as_str());
                },
                None => {
                    text.append("<none>");
                },
            }
            text
        },
        AudioEvent::EndpointStateChanged { id, state } => {
            let mut text = String::from_str("EndpointStateChanged   state=");
            text.append(
                match state {
                    EndpointState::Active => "Active",
                    EndpointState::Disabled => "Disabled",
                    EndpointState::NotPresent => "NotPresent",
                    EndpointState::Unplugged => "Unplugged",
                },
            );
            text.append(" id=");
            text.append(id.as_str());
            text
        },
        AudioEvent::EndpointAdded { id, friendly_name } => {
            let mut text = String::from_str("EndpointAdded          id=");
            text.append(id.as_str());
            text.append(" name=");
            text.append(friendly_name.as_str());
            text
        },
        AudioEvent::EndpointRemoved(id) => {
            let mut text = String::from_str("EndpointRemoved        id=");
            text.append(id.as_str());
            text
        },
        AudioEvent::SessionCreated { endpoint, session } => {
            let mut text = String::from_str("SessionCreated         endpoint=");
            text.append(endpoint.as_str());
            text.append(" process=");
            text.append(session.process.as_str());
            text.append(" instance=");
            text.append(session.instance.as_str());
            text
        },
        AudioEvent::SessionVolumeChanged { instance, volume: _, muted, own_change } => {
            let mut text = String::from_str("SessionVolumeChanged   instance=");
            text.append(instance.as_str());
            text.append(" volume=");
            text.append(volume);
            text.append(" muted=");
            text.append(truth(*muted));
            text.append(" own_change=");
            text.append(truth(*own_change));
            text
        },
        AudioEvent::SessionStateChanged { instance, state } => {
            let mut text = String::from_str("SessionStateChanged    instance=");
            text.append(instance.as_str());
            text.append(" state=");
            text.append(
                match state {
                    SessionState::Active => "Active",
                    SessionState::Inactive => "Inactive",
                    SessionState::Expired => "Expired",
                },
            );
            text
        },
        AudioEvent::SessionDisconnected { instance, reason } => {
            let mut text = String::from_str("SessionDisconnected    instance=");
            text.append(instance.as_str());
            text.append(" reason=");
            text.append(
                match reason {
                    DisconnectReason::DeviceRemoval => "DeviceRemoval",
                    DisconnectReason::ServerShutdown => "ServerShutdown",
                    DisconnectReason::FormatChanged => "FormatChanged",
                    DisconnectReason::SessionLogoff => "SessionLogoff",
                    DisconnectReason::SessionDisconnected => "SessionDisconnected",
                    DisconnectReason::ExclusiveModeOverride => "ExclusiveModeOverride",
                },
            );
            text
        },
        AudioEvent::CoreError(error) => {
            let mut text = String::from_str("CoreError              ");
            let reason = describe_error(error);
            text.append(reason.as_str());
            text
        },
    }
}

// ----- what the command line and the console promise

/// Whether an argument selects a mode.
pub open spec fn is_mode_word(argument: Seq<char>) -> bool {
    argument == "--dump-events"@ || argument == "--run"@ || argument == "--overlay"@
}

/// Where each argument selects a mode, the last of them is started; with no argument at
/// all, none is selected.
pub proof fn last_mode_is_started(arguments: Seq<String>)
    requires
        forall|i: int| 0 <= i < arguments.len() ==> is_mode_word((#[trigger] arguments[i])@),
    ensures
        ({
            let result = arguments_from(arguments, 0, Mode::Unselected);
            let last = arguments.last()@;
            &&& arguments.len() == 0 ==> result == ArgumentsModel::Start(Mode::Unselected)
            &&& arguments.len() > 0 && last == "--dump-events"@ ==> result
                == ArgumentsModel::Start(Mode::DumpEvents)
            &&& arguments.len() > 0 && last == "--run"@ ==> result == ArgumentsModel::Start(
                Mode::Run,
            )
            &&& arguments.len() > 0 && last == "--overlay"@ ==> result == ArgumentsModel::Start(
                Mode::Overlay,
            )
        }),
{
    words_are_told_apart();
    reading_passes_modes(arguments, 0, arguments.len() as int, Mode::Unselected);
}

/// The first argument that selects no mode decides: help where it asks for that, and
/// otherwise it is told as unknown.
pub proof fn first_other_argument_decides(arguments: Seq<String>, at: int)
    requires
        0 <= at < arguments.len(),
        !is_mode_word(arguments[at]@),
        forall|i: int| 0 <= i < at ==> is_mode_word((#[trigger] arguments[i])@),
    ensures
        ({
            let result = arguments_from(arguments, 0, Mode::Unselected);
            let word = arguments[at]@;
            if word == "-h"@ || word == "--help"@ {
                result is Help
            } else {
                result == ArgumentsModel::Unknown(word)
            }
        }),
{
    reading_passes_modes(arguments, 0, at, Mode::Unselected);
}

proof fn words_are_told_apart()
    ensures
        "--dump-events"@ != "--run"@,
        "--dump-events"@ != "--overlay"@,
        "--run"@ != "--overlay"@,
{
    reveal_strlit("--dump-events");
    reveal_strlit("--run");
    reveal_strlit("--overlay");
    assert("--dump-events"@.len() != "--run"@.len());
    assert("--dump-events"@.len() != "--overlay"@.len());
    assert("--run"@.len() != "--overlay"@.len());
}

proof fn reading_passes_modes(arguments: Seq<String>, from: int, to: int, mode: Mode)
    requires
        0 <= from <= to <= arguments.len(),
        forall|i: int| from <= i < to ==> is_mode_word((#[trigger] arguments[i])@),
    ensures
        arguments_from(arguments, from, mode) == arguments_from(
            arguments,
            to,
            if from == to {
                mode
            } else {
                mode_of(arguments[to - 1]@)->Some_0
            },
        ),
    decreases to - from,
{
    if from < to {
        assert(is_mode_word(arguments[from]@));
        reading_passes_modes(arguments, from + 1, to, mode_of(arguments[from]@)->Some_0);
    }
}

/// A line has no words where it is empty; one without white space is one word; and white
/// space between two lines parts the words of the one from those of the other.
pub proof fn white_space_parts_words(before: Seq<char>, space: char, after: Seq<char>)
    requires
        is_space(space),
    ensures
        words_of(Seq::empty()).len() == 0,
        before.len() > 0 && (forall|i: int|
            0 <= i < before.len() ==> !is_space(#[trigger] before[i])) ==> words_of(before)
            == seq![before],
        words_of(before.push(space) + after) == words_of(before) + words_of(after),
{
    if before.len() > 0 && (forall|i: int|
        0 <= i < before.len() ==> !is_space(#[trigger] before[i])) {
        solid_line_is_one_word(before);
    }
    words_are_parted(before, space, after);
}

proof fn solid_line_is_one_word(line: Seq<char>)
    requires
        line.len() > 0,
        forall|i: int| 0 <= i < line.len() ==> !is_space(#[trigger] line[i]),
    ensures
        words_of(line) == seq![line],
    decreases line.len(),
{
    let start = line.drop_last();
    assert(!is_space(line[line.len() - 1]));
    if line.len() == 1 {
        assert(words_of(start).len() == 0);
        assert(line =~= seq![line.last()]);
        assert(words_of(line) =~= seq![line]);
    } else {
        assert forall|i: int| 0 <= i < start.len() implies !is_space(#[trigger] start[i]) by {
            assert(!is_space(line[i]));
        }
        solid_line_is_one_word(start);
        assert(!is_space(line[line.len() - 2]));
        assert(start.push(line.last()) =~= line);
        assert(words_of(line) =~= seq![line]);
    }
}

proof fn words_are_parted(before: Seq<char>, space: char, after: Seq<char>)
    requires
        is_space(space),
    ensures
        words_of(before.push(space) + after) == words_of(before) + words_of(after),
    decreases after.len(),
{
    let line = before.push(space) + after;
    if after.len() == 0 {
        assert(line =~= before.push(space));
        assert(line.drop_last() =~= before);
        assert(words_of(line) =~= words_of(before) + words_of(after));
    } else {
        let start = after.drop_last();
        assert(line.drop_last() =~= before.push(space) + start);
        words_are_parted(before, space, start);
        assert(line.last() == after.last());
        let c = after.last();
        if after.len() == 1 {
            assert(line[line.len() - 2] == space);
        } else {
            assert(line[line.len() - 2] == after[after.len() - 2]);
            if !is_space(c) && !is_space(start.last()) {
                inside_a_word(start);
            }
        }
        assert(words_of(line) =~= words_of(before) + words_of(after));
    }
}

proof fn inside_a_word(line: Seq<char>)
    requires
        line.len() > 0,
        !is_space(line.last()),
    ensures
        words_of(line).len() > 0,
{
}

/// The characters that move the place of writing and the blanks of Unicode are white
/// space, with the separators of lines and of paragraphs, and no others.
pub proof fn white_space_is_blank(c: char)
    ensures
        c == ' ' || c == '\t' || c == '\n' || c == '\r' ==> is_space(c),
        c as int <= 0xFF ==> (is_space(c) <==> 9 <= c as int <= 13 || c as int == 32 || c as int
            == 133 || c as int == 160),
        0xFF < c as int <= 0x2027 ==> (is_space(c) <==> c as int == 5760 || 8192 <= c as int
            <= 8202),
        0x2027 < c as int ==> (is_space(c) <==> c as int == 8232 || c as int == 8233 || c as int
            == 8239 || c as int == 8287 || c as int == 12288),
{
}

/// Whether no two sessions have the same instance.
pub open spec fn instances_differ(sessions: Seq<SnapshotModel>) -> bool {
    forall|i: int, j: int|
        0 <= i < j < sessions.len() ==> (#[trigger] sessions[i]).instance != (
        #[trigger] sessions[j]).instance
}

/// A session that is created is listed last, as it was reported, and one that had its
/// instance is no longer listed; the others stay as they are.
pub proof fn created_session_is_listed_last(
    sessions: Seq<SnapshotModel>,
    event: AudioEvent,
    other: SnapshotModel,
)
    requires
        event is SessionCreated,
    ensures
        ({
            let after = sessions_after(sessions, event);
            let session = event->SessionCreated_session;
            &&& after.len() > 0
            &&& after.last().instance == session.instance@
            &&& after.last().process == session.process@
            &&& after.last().volume == session.volume
            &&& after.last().muted == session.muted
            &&& after.drop_last().contains(other) <==> sessions.contains(other) && other.instance
                != session.instance@
            &&& (forall|i: int|
                0 <= i < sessions.len() ==> (#[trigger] sessions[i]).instance != session.instance@)
                ==> after.drop_last() == sessions
        }),
{
    let instance = event->SessionCreated_session.instance@;
    let after = sessions_after(sessions, event);
    assert(after.drop_last() =~= without(sessions, instance));
    others_are_kept(sessions, instance, other);
    if forall|i: int|
        0 <= i < sessions.len() ==> (#[trigger] sessions[i]).instance != instance {
        nothing_is_left_out(sessions, instance);
    }
}

/// A changed volume is noted for the session that it is told of, and for no other.
pub proof fn volume_of_the_session_is_noted(
    sessions: Seq<SnapshotModel>,
    event: AudioEvent,
    i: int,
)
    requires
        event is SessionVolumeChanged,
        instances_differ(sessions),
        0 <= i < sessions.len(),
    ensures
        ({
            let after = sessions_after(sessions, event);
            let told = event->SessionVolumeChanged_instance@;
            &&& after.len() == sessions.len()
            &&& after[i].instance == sessions[i].instance
            &&& after[i].process == sessions[i].process
            &&& sessions[i].instance == told ==> after[i].volume
                == event->SessionVolumeChanged_volume && after[i].muted
                == event->SessionVolumeChanged_muted
            &&& sessions[i].instance != told ==> after[i] == sessions[i]
        }),
{
    let told = event->SessionVolumeChanged_instance@;
    first_place_has_the_instance(sessions, told);
    if sessions[i].instance == told {
        an_instance_has_a_place(sessions, told, i);
        let place = first_place(sessions, told)->Some_0;
        if place < i {
            assert(sessions[place].instance != sessions[i].instance);
        }
    }
}

/// A session that is disconnected is taken out, and it alone; other events leave the
/// sessions as they are.
pub proof fn disconnected_session_is_taken_out(
    sessions: Seq<SnapshotModel>,
    event: AudioEvent,
    i: int,
)
    requires
        instances_differ(sessions),
    ensures
        event is SessionDisconnected && 0 <= i < sessions.len() && sessions[i].instance
            == event->SessionDisconnected_instance@ ==> sessions_after(sessions, event)
            == sessions.remove(i),
        event is SessionDisconnected && (forall|j: int|
            0 <= j < sessions.len() ==> (#[trigger] sessions[j]).instance
                != event->SessionDisconnected_instance@) ==> sessions_after(sessions, event)
            == sessions,
        !(event is SessionDisconnected) && !(event is SessionCreated) && !(
        event is SessionVolumeChanged) ==> sessions_after(sessions, event) == sessions,
{
    if event is SessionDisconnected {
        let instance = event->SessionDisconnected_instance@;
        if 0 <= i < sessions.len() && sessions[i].instance == instance {
            one_is_left_out(sessions, instance, i);
        }
        if forall|j: int|
            0 <= j < sessions.len() ==> (#[trigger] sessions[j]).instance != instance {
            nothing_is_left_out(sessions, instance);
        }
    }
}

/// However events come, no two sessions that the console lists have the same instance.
pub proof fn instances_stay_different(sessions: Seq<SnapshotModel>, event: AudioEvent)
    requires
        instances_differ(sessions),
    ensures
        instances_differ(sessions_after(sessions, event)),
{
    match event {
        AudioEvent::SessionCreated { endpoint, session } => {
            rest_stays_different(sessions, session.instance@);
            let kept = without(sessions, session.instance@);
            assert forall|i: int| 0 <= i < kept.len() implies (#[trigger] kept[i]).instance
                != session.instance@ by {
                assert(kept.contains(kept[i]));
                others_are_kept(sessions, session.instance@, kept[i]);
            }
        },
        AudioEvent::SessionVolumeChanged { instance, volume, muted, own_change } => {
            first_place_has_the_instance(sessions, instance@);
            let after = sessions_after(sessions, event);
            assert forall|i: int, j: int| 0 <= i < j < after.len() implies (
            #[trigger] after[i]).instance != (#[trigger] after[j]).instance by {
                assert(sessions[i].instance != sessions[j].instance);
            }
        },
        AudioEvent::SessionDisconnected { instance, reason } => {
            rest_stays_different(sessions, instance@);
        },
        _ => {},
    }
}

proof fn others_are_kept(
    sessions: Seq<SnapshotModel>,
    instance: Seq<char>,
    other: SnapshotModel,
)
    ensures
        without(sessions, instance).contains(other) <==> sessions.contains(other) && other.instance
            != instance,
{
    let differs = |session: SnapshotModel| session.instance != instance;
    if without(sessions, instance).contains(other) {
        sessions.lemma_filter_contains_rev(differs, other);
        let k = without(sessions, instance).index_of(other);
        sessions.lemma_filter_pred(differs, k);
    }
    if sessions.contains(other) && other.instance != instance {
        sessions.lemma_filter_contains(differs, sessions.index_of(other));
    }
}

proof fn nothing_is_left_out(sessions: Seq<SnapshotModel>, instance: Seq<char>)
    requires
        forall|i: int| 0 <= i < sessions.len() ==> (#[trigger] sessions[i]).instance != instance,
    ensures
        without(sessions, instance) == sessions,
    decreases sessions.len(),
{
    reveal(Seq::filter);
    if sessions.len() > 0 {
        assert(sessions[sessions.len() - 1].instance != instance);
        assert forall|i: int| 0 <= i < sessions.drop_last().len() implies (
        #[trigger] sessions.drop_last()[i]).instance != instance by {
            assert(sessions[i].instance != instance);
        }
        nothing_is_left_out(sessions.drop_last(), instance);
        assert(sessions.drop_last().push(sessions.last()) =~= sessions);
    }
    assert(without(sessions, instance) =~= sessions);
}

proof fn one_is_left_out(sessions: Seq<SnapshotModel>, instance: Seq<char>, at: int)
    requires
        instances_differ(sessions),
        0 <= at < sessions.len(),
        sessions[at].instance == instance,
    ensures
        without(sessions, instance) == sessions.remove(at),
    decreases sessions.len(),
{
    reveal(Seq::filter);
    let start = sessions.drop_last();
    assert forall|i: int, j: int| 0 <= i < j < start.len() implies (#[trigger] start[i]).instance
        != (#[trigger] start[j]).instance by {
        assert(sessions[i].instance != sessions[j].instance);
    }
    if at == sessions.len() - 1 {
        assert forall|i: int| 0 <= i < start.len() implies (#[trigger] start[i]).instance
            != instance by {
            assert(sessions[i].instance != sessions[at].instance);
        }
        nothing_is_left_out(start, instance);
        assert(sessions.remove(at) =~= start);
    } else {
        assert(sessions[at].instance != sessions[sessions.len() - 1].instance);
        one_is_left_out(start, instance, at);
        assert(sessions.remove(at) =~= start.remove(at).push(sessions.last()));
    }
}

proof fn rest_stays_different(sessions: Seq<SnapshotModel>, instance: Seq<char>)
    requires
        instances_differ(sessions),
    ensures
        instances_differ(without(sessions, instance)),
    decreases sessions.len(),
{
    reveal(Seq::filter);
    if sessions.len() > 0 {
        let start = sessions.drop_last();
        assert forall|i: int, j: int| 0 <= i < j < start.len() implies (
        #[trigger] start[i]).instance != (#[trigger] start[j]).instance by {
            assert(sessions[i].instance != sessions[j].instance);
        }
        rest_stays_different(start, instance);
        let kept = without(start, instance);
        assert forall|i: int| 0 <= i < kept.len() implies (#[trigger] kept[i]).instance
            != sessions.last().instance by {
            assert(kept.contains(kept[i]));
            others_are_kept(start, instance, kept[i]);
            let k = start.index_of(kept[i]);
            assert(sessions[k].instance != sessions[sessions.len() - 1].instance);
        }
    }
}

proof fn first_place_has_the_instance(sessions: Seq<SnapshotModel>, instance: Seq<char>)
    ensures
        first_place(sessions, instance) matches Some(i) ==> 0 <= i < sessions.len()
            && sessions[i].instance == instance,
    decreases sessions.len(),
{
    if sessions.len() > 0 {
        first_place_has_the_instance(sessions.drop_last(), instance);
    }
}

proof fn an_instance_has_a_place(sessions: Seq<SnapshotModel>, instance: Seq<char>, i: int)
    requires
        0 <= i < sessions.len(),
        sessions[i].instance == instance,
    ensures
        first_place(sessions, instance) matches Some(place) && place <= i,
    decreases sessions.len(),
{
    first_place_has_the_instance(sessions.drop_last(), instance);
    if i < sessions.len() - 1 {
        an_instance_has_a_place(sessions.drop_last(), instance, i);
    }
}

/// A name that is written out is found, whatever else begins so. Otherwise a name is
/// found by its start where it is the only one with that start; two with that start are
/// too many, and none is none.
pub proof fn name_is_found_by_its_start(names: Seq<Seq<char>>, target: Seq<char>, i: int, j: int)
    requires
        0 <= i < names.len(),
    ensures
        names[i] == target && (forall|k: int| 0 <= k < i ==> #[trigger] names[k] != target)
            ==> found(names, target) == Found::One(i),
        !names.contains(target) && target.is_prefix_of(names[i]) && (forall|k: int|
            0 <= k < names.len() && k != i ==> !target.is_prefix_of(#[trigger] names[k]))
            ==> found(names, target) == Found::One(i),
        !names.contains(target) && i < j < names.len() && target.is_prefix_of(names[i])
            && target.is_prefix_of(names[j]) ==> found(names, target) is Several,
        (forall|k: int| 0 <= k < names.len() ==> !target.is_prefix_of(#[trigger] names[k]))
            ==> found(names, target) is Nothing,
{
    if names[i] == target && (forall|k: int| 0 <= k < i ==> #[trigger] names[k] != target) {
        assert(equals_first(names, target, i));
        let k = choose|k: int| #[trigger] equals_first(names, target, k);
        if k < i {
            assert(names[k] != target);
        } else if i < k {
            assert(names[i] != target);
        }
    }
    assert forall|k: int| #[trigger] equals_first(names, target, k) implies names.contains(
        target,
    ) && target.is_prefix_of(names[k]) by {
        assert(names[k] == target);
        assert(target =~= target.subrange(0, target.len() as int));
    }
    if starts_only(names, target, i) {
        let k = choose|k: int| #[trigger] starts_only(names, target, k);
        if k != i {
            assert(!target.is_prefix_of(names[i]));
        }
    }
    if target.is_prefix_of(names[i]) && (forall|k: int|
        0 <= k < names.len() && k != i ==> !target.is_prefix_of(#[trigger] names[k])) {
        assert(starts_only(names, target, i));
    }
    if i < j < names.len() && target.is_prefix_of(names[i]) && target.is_prefix_of(names[j]) {
        assert forall|k: int| !(#[trigger] starts_only(names, target, k)) by {
            if k != i {
                assert(target.is_prefix_of(names[i]));
            } else {
                assert(target.is_prefix_of(names[j]));
            }
        }
    }
}

/// A number in decimal is an index, with a plus sign before it or without; and a text
/// with anything else in it is none.
pub proof fn decimal_is_an_index(n: nat, text: Seq<char>, i: int)
    ensures
        index_value(text::decimal(n)) == Some(n as int),
        index_value(seq!['+'] + text::decimal(n)) == Some(n as int),
        text.len() == 0 ==> index_value(text) is None,
        0 < i < text.len() && !('0' <= text[i] && text[i] <= '9') ==> index_value(text) is None,
        text.len() > 0 && text[0] != '+' && !('0' <= text[0] && text[0] <= '9') ==> index_value(
            text,
        ) is None,
        text.len() == 1 && text[0] == '+' ==> index_value(text) is None,
{
    text::decimal_reads_back(n);
    text::decimal_is_shortest(n);
    assert((seq!['+'] + text::decimal(n)).skip(1) =~= text::decimal(n));
    only_digits_have_a_value(text::decimal(n), 0);
    if 0 < i < text.len() {
        only_digits_have_a_value(text, i);
        only_digits_have_a_value(text.skip(1), i - 1);
    }
    only_digits_have_a_value(text, 0);
}

proof fn only_digits_have_a_value(digits: Seq<char>, i: int)
    ensures
        text::decimal_value(digits) is Some ==> digits.len() > 0,
        text::decimal_value(digits) is Some && 0 <= i < digits.len() ==> '0' <= digits[i]
            && digits[i] <= '9',
    decreases digits.len(),
{
    if digits.len() > 1 && i < digits.len() - 1 {
        only_digits_have_a_value(digits.drop_last(), i);
    }
}

/// The roles, the directions and the states are told by their names.
pub proof fn states_are_told_by_their_names()
    ensures
        flow_text(DataFlow::Render) == "Render"@,
        flow_text(DataFlow::Capture) == "Capture"@,
        role_text(Role::Console) == "Console"@,
        role_text(Role::Multimedia) == "Multimedia"@,
        role_text(Role::Communications) == "Communications"@,
        endpoint_state_name(EndpointState::Active) == "Active"@,
        endpoint_state_name(EndpointState::Disabled) == "Disabled"@,
        endpoint_state_name(EndpointState::NotPresent) == "NotPresent"@,
        endpoint_state_name(EndpointState::Unplugged) == "Unplugged"@,
        session_state_name(SessionState::Active) == "Active"@,
        session_state_name(SessionState::Inactive) == "Inactive"@,
        session_state_name(SessionState::Expired) == "Expired"@,
        reason_name(DisconnectReason::DeviceRemoval) == "DeviceRemoval"@,
        reason_name(DisconnectReason::ServerShutdown) == "ServerShutdown"@,
        reason_name(DisconnectReason::FormatChanged) == "FormatChanged"@,
        reason_name(DisconnectReason::SessionLogoff) == "SessionLogoff"@,
        reason_name(DisconnectReason::SessionDisconnected) == "SessionDisconnected"@,
        reason_name(DisconnectReason::ExclusiveModeOverride) == "ExclusiveModeOverride"@,
        truth_text(true) == "true"@,
        truth_text(false) == "false"@,
{
}

/// Whether the parts of a line stand in it one behind the other.
pub open spec fn is_made_of(line: Seq<char>, parts: Seq<Seq<char>>) -> bool
    decreases parts.len(),
{
    if parts.len() == 0 {
        line.len() == 0
    } else {
        &&& line.len() >= parts.last().len()
        &&& line.skip(line.len() - parts.last().len()) == parts.last()
        &&& is_made_of(line.take(line.len() - parts.last().len()), parts.drop_last())
    }
}

proof fn made_of_one_more(line: Seq<char>, parts: Seq<Seq<char>>, part: Seq<char>)
    requires
        is_made_of(line, parts),
    ensures
        is_made_of(line + part, parts.push(part)),
{
    assert((line + part).skip(line.len() as int) =~= part);
    assert((line + part).take(line.len() as int) =~= line);
    assert(parts.push(part).drop_last() =~= parts);
}

/// The line of an event names it in the first 23 columns, and behind them tells what it
/// is about, each thing by its name, and where a volume changed, whether this program
/// changed it.
pub proof fn event_is_told_with_what_it_holds(event: AudioEvent, volume: Seq<char>)
    ensures
        event matches AudioEvent::DefaultEndpointChanged { flow, role, id } ==> is_made_of(
            event_text(event, volume),
            seq![
                "DefaultEndpointChanged flow="@,
                flow_text(flow),
                " role="@,
                role_text(role),
                " id="@,
                if id is Some {
                    id->Some_0@
                } else {
                    "<none>"@
                },
            ],
        ),
        event matches AudioEvent::EndpointStateChanged { id, state } ==> is_made_of(
            event_text(event, volume),
            seq!["EndpointStateChanged   state="@, endpoint_state_name(state), " id="@, id@],
        ),
        event matches AudioEvent::EndpointAdded { id, friendly_name } ==> is_made_of(
            event_text(event, volume),
            seq!["EndpointAdded          id="@, id@, " name="@, friendly_name@],
        ),
        event matches AudioEvent::EndpointRemoved(id) ==> is_made_of(
            event_text(event, volume),
            seq!["EndpointRemoved        id="@, id@],
        ),
        event matches AudioEvent::SessionCreated { endpoint, session } ==> is_made_of(
            event_text(event, volume),
            seq![
                "SessionCreated         endpoint="@,
                endpoint@,
                " process="@,
                session.process@,
                " instance="@,
                session.instance@,
            ],
        ),
        event matches AudioEvent::SessionVolumeChanged { instance, volume: _, muted, own_change }
            ==> is_made_of(
            event_text(event, volume),
            seq![
                "SessionVolumeChanged   instance="@,
                instance@,
                " volume="@,
                volume,
                " muted="@,
                truth_text(muted),
                " own_change="@,
                truth_text(own_change),
            ],
        ),
        event matches AudioEvent::SessionStateChanged { instance, state } ==> is_made_of(
            event_text(event, volume),
            seq![
                "SessionStateChanged    instance="@,
                instance@,
                " state="@,
                session_state_name(state),
            ],
        ),
        event matches AudioEvent::SessionDisconnected { instance, reason } ==> is_made_of(
            event_text(event, volume),
            seq!["SessionDisconnected    instance="@, instance@, " reason="@, reason_name(reason)],
        ),
        event matches AudioEvent::CoreError(error) ==> is_made_of(
            event_text(event, volume),
            seq!["CoreError              "@, backend::core_error_text(error)],
        ),
{
    match event {
        AudioEvent::DefaultEndpointChanged { flow, role, id } => {
            let told = if id is Some {
                id->Some_0@
            } else {
                "<none>"@
            };
            six_parts(
                "DefaultEndpointChanged flow="@,
                flow_text(flow),
                " role="@,
                role_text(role),
                " id="@,
                told,
            );
        },
        AudioEvent::EndpointStateChanged { id, state } => {
            four_parts("EndpointStateChanged   state="@, endpoint_state_name(state), " id="@, id@);
        },
        AudioEvent::EndpointAdded { id, friendly_name } => {
            four_parts("EndpointAdded          id="@, id@, " name="@, friendly_name@);
        },
        AudioEvent::EndpointRemoved(id) => {
            two_parts("EndpointRemoved        id="@, id@);
        },
        AudioEvent::SessionCreated { endpoint, session } => {
            six_parts(
                "SessionCreated         endpoint="@,
                endpoint@,
                " process="@,
                session.process@,
                " instance="@,
                session.instance@,
            );
        },
        AudioEvent::SessionVolumeChanged { instance, volume: _, muted, own_change } => {
            let first = "SessionVolumeChanged   instance="@;
            six_parts(first, instance@, " volume="@, volume, " muted="@, truth_text(muted));
            let six = seq![first, instance@, " volume="@, volume, " muted="@, truth_text(muted)];
            let line = first + instance@ + " volume="@ + volume + " muted="@ + truth_text(muted);
            made_of_one_more(line, six, " own_change="@);
            made_of_one_more(
                line + " own_change="@,
                six.push(" own_change="@),
                truth_text(own_change),
            );
            assert(six.push(" own_change="@).push(truth_text(own_change)) =~= seq![
                first,
                instance@,
                " volume="@,
                volume,
                " muted="@,
                truth_text(muted),
                " own_change="@,
                truth_text(own_change),
            ]);
        },
        AudioEvent::SessionStateChanged { instance, state } => {
            four_parts(
                "SessionStateChanged    instance="@,
                instance@,
                " state="@,
                session_state_name(state),
            );
        },
        AudioEvent::SessionDisconnected { instance, reason } => {
            four_parts(
                "SessionDisconnected    instance="@,
                instance@,
                " reason="@,
                reason_name(reason),
            );
        },
        AudioEvent::CoreError(error) => {
            two_parts("CoreError              "@, backend::core_error_text(error));
        },
    }
}

proof fn two_parts(a: Seq<char>, b: Seq<char>)
    ensures
        is_made_of(a + b, seq![a, b]),
{
    let none = Seq::<Seq<char>>::empty();
    assert(is_made_of(Seq::<char>::empty(), none));
    made_of_one_more(Seq::empty(), none, a);
    assert(Seq::<char>::empty() + a =~= a);
    made_of_one_more(a, none.push(a), b);
    assert(none.push(a).push(b) =~= seq![a, b]);
}

proof fn four_parts(a: Seq<char>, b: Seq<char>, c: Seq<char>, d: Seq<char>)
    ensures
        is_made_of(a + b + c + d, seq![a, b, c, d]),
{
    two_parts(a, b);
    made_of_one_more(a + b, seq![a, b], c);
    made_of_one_more(a + b + c, seq![a, b].push(c), d);
    assert(seq![a, b].push(c).push(d) =~= seq![a, b, c, d]);
}

proof fn six_parts(
    a: Seq<char>,
    b: Seq<char>,
    c: Seq<char>,
    d: Seq<char>,
    e: Seq<char>,
    f: Seq<char>,
)
    ensures
        is_made_of(a + b + c + d + e + f, seq![a, b, c, d, e, f]),
{
    four_parts(a, b, c, d);
    made_of_one_more(a + b + c + d, seq![a, b, c, d], e);
    made_of_one_more(a + b + c + d + e, seq![a, b, c, d].push(e), f);
    assert(seq![a, b, c, d].push(e).push(f) =~= seq![a, b, c, d, e, f]);
}

/// What a list of the console is searched by is what each of its items is named by, in
/// their order.
pub proof fn items_are_searched_by_their_names(
    words: Seq<String>,
    sessions: Seq<SessionSnapshot>,
    endpoints: Seq<EndpointView>,
    i: int,
)
    ensures
        word_texts(words).len() == words.len(),
        0 <= i < words.len() ==> word_texts(words)[i] == words[i]@,
        instances_of(sessions).len() == sessions.len(),
        0 <= i < sessions.len() ==> instances_of(sessions)[i] == sessions[i].instance@,
        snapshot_models(sessions).len() == sessions.len(),
        0 <= i < sessions.len() ==> snapshot_models(sessions)[i].instance == sessions[i].instance@
            && snapshot_models(sessions)[i].process == sessions[i].process@ && snapshot_models(
            sessions,
        )[i].volume == sessions[i].volume && snapshot_models(sessions)[i].muted
            == sessions[i].muted,
        ids_of(endpoints).len() == endpoints.len(),
        0 <= i < endpoints.len() ==> ids_of(endpoints)[i] == endpoints[i].id@,
{
}

/// A switch command makes the endpoint that it names the default for each role.
pub proof fn switch_command_reaches_every_role(
    result: Result<(CoreCommand, &EndpointView), String>,
    endpoint: &EndpointView,
)
    requires
        switches_to(result, endpoint),
    ensures
        result is Ok,
        result->Ok_0.1 == endpoint,
        (result->Ok_0.0)@ matches messages::CommandModel::SetDefaultEndpoint { id, roles } && id
            == endpoint.id@ && roles.console && roles.multimedia && roles.communications,
{
}

/// A volume command is carried out for the one session that its first word names, with a
/// volume from silent to full, and mutes exactly where it says so.
pub proof fn volume_command_is_carried_out(
    arguments: &Vec<String>,
    volume: Option<Single>,
    sessions: &Vec<SessionSnapshot>,
    result: Result<CoreCommand, String>,
    at: int,
)
    requires
        call_ensures(handle_vol_command, (arguments, volume, sessions), result),
        0 <= at < sessions@.len(),
        arguments@.len() == 3,
        arguments@[0]@ == sessions@[at].instance@,
        forall|j: int| 0 <= j < at ==> (#[trigger] sessions@[j]).instance@ != arguments@[0]@,
        arguments@[2]@ == "mute"@ || arguments@[2]@ == "unmute"@,
        volume is Some,
        volume->0.bits <= 0x3F80_0000,
    ensures
        result is Ok,
        result->Ok_0@ matches messages::CommandModel::ApplySessionVolume {
            instance,
            volume: level,
            muted,
        } && instance == sessions@[at].instance@ && level == volume->0 && muted == (arguments@[2]@
            == "mute"@),
{
    let words = word_texts(arguments@);
    assert(words[0] == arguments@[0]@);
    assert(words[2] == arguments@[2]@);
    let names = instances_of(sessions@);
    assert(names[at] == words[0]);
    assert forall|k: int| 0 <= k < at implies #[trigger] names[k] != words[0] by {
        assert(sessions@[k].instance@ != arguments@[0]@);
    }
    name_is_found_by_its_start(names, words[0], at, at);
}

/// A switch command with the place of an endpoint in the list switches to it, for each
/// role.
pub proof fn switch_command_takes_a_place(
    arguments: &Vec<String>,
    endpoints: &Vec<EndpointView>,
    result: Result<(CoreCommand, &EndpointView), String>,
    place: nat,
)
    requires
        call_ensures(handle_switch_command, (arguments, endpoints), result),
        arguments@.len() == 1,
        place < endpoints@.len(),
        arguments@[0]@ == text::decimal(place),
    ensures
        result is Ok,
        (result->Ok_0.0)@ matches messages::CommandModel::SetDefaultEndpoint { id, roles } && id
            == endpoints@[place as int].id@ && roles.console && roles.multimedia
            && roles.communications,
{
    assert(word_texts(arguments@)[0] == arguments@[0]@);
    decimal_is_an_index(place, Seq::empty(), 0);
}

} // verus!
