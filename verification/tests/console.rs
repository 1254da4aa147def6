use resonance::audio::CoreStartup;
use resonance::console::{
    describe_event, handle_switch_command, handle_vol_command, parse_arguments,
    parse_console_command, parse_index, parse_run_command, resolve_endpoint, resolve_instance,
    split_words, startup_endpoints_snapshot, update_sessions, Arguments, ConsoleCommand, Mode,
    RunCommand, SessionSnapshot,
};
use resonance::messages::{
    AudioEvent, CoreCommand, CoreError, DataFlow, DisconnectReason, EndpointState, EndpointView,
    Role, RoleSet, SessionInfo, SessionState,
};
use resonance::single::Single;

fn single(x: f32) -> Single {
    Single { bits: x.to_bits() }
}

fn words(list: &[&str]) -> Vec<String> {
    list.iter().map(|word| word.to_string()).collect()
}

fn endpoint(id: &str) -> EndpointView {
    EndpointView {
        id: id.to_string(),
        friendly_name: id.to_string(),
        state: EndpointState::Active,
    }
}

fn live(instance: &str) -> SessionSnapshot {
    SessionSnapshot {
        instance: instance.to_string(),
        process: "a.exe".to_string(),
        volume: single(0.5),
        muted: false,
    }
}

#[test]
fn arguments_select_a_mode() {
    assert!(matches!(parse_arguments(&vec![]), Arguments::Start(Mode::Unselected)));
    assert!(matches!(
        parse_arguments(&words(&["--dump-events"])),
        Arguments::Start(Mode::DumpEvents)
    ));
    assert!(matches!(parse_arguments(&words(&["--run"])), Arguments::Start(Mode::Run)));
    assert!(matches!(parse_arguments(&words(&["--overlay"])), Arguments::Start(Mode::Overlay)));
    assert!(matches!(parse_arguments(&words(&["--help"])), Arguments::Help));
    match parse_arguments(&words(&["--wat"])) {
        Arguments::Unknown(argument) => assert_eq!(argument, "--wat"),
        _ => panic!("expected an unknown argument"),
    }
    assert!(Mode::Overlay.starts_backend() && Mode::Run.starts_backend());
    assert!(!Mode::DumpEvents.starts_backend() && !Mode::Unselected.starts_backend());
}

#[test]
fn lines_are_split_at_white_space() {
    assert_eq!(split_words("  vol  ab\t0.5 mute\r\n"), words(&["vol", "ab", "0.5", "mute"]));
    assert_eq!(split_words("\u{2003}a\u{a0}b "), words(&["a", "b"]));
    assert_eq!(split_words(" \t "), words(&[]));
}

#[test]
fn lines_are_read_as_commands() {
    assert!(matches!(parse_run_command(" quit "), RunCommand::Quit));
    assert!(matches!(parse_run_command("help"), RunCommand::Help));
    assert!(matches!(parse_run_command(""), RunCommand::Blank));
    assert!(matches!(parse_run_command("quit now"), RunCommand::Unknown));
    assert!(matches!(parse_console_command("list"), ConsoleCommand::List));
    assert!(matches!(parse_console_command("endpoints x"), ConsoleCommand::Endpoints));
    match parse_console_command("vol a 0.5 mute") {
        ConsoleCommand::Volume(rest) => assert_eq!(rest, words(&["a", "0.5", "mute"])),
        _ => panic!("expected a volume"),
    }
    match parse_console_command("switch 2") {
        ConsoleCommand::Switch(rest) => assert_eq!(rest, words(&["2"])),
        _ => panic!("expected a switch"),
    }
    assert!(matches!(parse_console_command("volume"), ConsoleCommand::Unknown));
}

#[test]
fn sessions_follow_the_events() {
    let mut sessions = vec![];
    let created = |volume: f32| AudioEvent::SessionCreated {
        endpoint: "e".to_string(),
        session: SessionInfo {
            instance: "s1".to_string(),
            process: "a.exe".to_string(),
            endpoint: "e".to_string(),
            volume: single(volume),
            muted: false,
        },
    };
    update_sessions(&mut sessions, &created(0.25));
    assert_eq!(sessions.len(), 1);
    update_sessions(
        &mut sessions,
        &AudioEvent::SessionVolumeChanged {
            instance: "s1".to_string(),
            volume: single(0.75),
            muted: true,
            own_change: false,
        },
    );
    assert_eq!(sessions[0].volume, single(0.75));
    assert!(sessions[0].muted);
    update_sessions(
        &mut sessions,
        &AudioEvent::SessionDisconnected {
            instance: "s1".to_string(),
            reason: DisconnectReason::SessionLogoff,
        },
    );
    assert!(sessions.is_empty());
}

#[test]
fn names_may_be_shortened_to_what_tells_them_apart() {
    let sessions = vec![live("alpha"), live("alps"), live("beta")];
    assert_eq!(resolve_instance(&sessions, "b"), Ok("beta".to_string()));
    assert_eq!(resolve_instance(&sessions, "alp"), Err(
        "error: ambiguous instance prefix, be more specific".to_string()
    ));
    assert_eq!(
        resolve_instance(&sessions, "x"),
        Err("error: unknown instance, try 'list'".to_string())
    );
    // A full name wins over the longer ones it begins.
    let sessions = vec![live("abc"), live("ab")];
    assert_eq!(resolve_instance(&sessions, "ab"), Ok("ab".to_string()));
}

#[test]
fn endpoints_are_found_by_index_or_name() {
    let endpoints = vec![endpoint("{b}"), endpoint("{a}"), endpoint("7")];
    assert_eq!(resolve_endpoint(&endpoints, "1").map(|e| e.id.as_str()), Ok("{a}"));
    assert_eq!(resolve_endpoint(&endpoints, "7").map(|e| e.id.as_str()), Ok("7"));
    assert_eq!(resolve_endpoint(&endpoints, "{b").map(|e| e.id.as_str()), Ok("{b}"));
    assert!(resolve_endpoint(&endpoints, "{").is_err());
    assert_eq!(parse_index("12"), Some(12));
    assert_eq!(parse_index("+12"), Some(12));
    assert_eq!(parse_index("-1"), None);
    assert_eq!(parse_index(""), None);
    assert_eq!(parse_index("99999999999999999999999"), None);
}

#[test]
fn a_volume_command_is_checked_before_it_is_sent() {
    let sessions = vec![live("alpha")];
    match handle_vol_command(&words(&["al", "0.5", "mute"]), Some(single(0.5)), &sessions) {
        Ok(CoreCommand::ApplySessionVolume { instance, volume, muted }) => {
            assert_eq!(instance, "alpha");
            assert_eq!(volume, single(0.5));
            assert!(muted);
        }
        _ => panic!("expected a command"),
    }
    let error = |list: &[&str], volume: Option<Single>| {
        handle_vol_command(&words(list), volume, &sessions).err().expect("an error")
    };
    assert_eq!(
        error(&["al"], None),
        "usage: vol <instance-prefix> <0.0-1.0> mute|unmute"
    );
    for volume in [None, Some(single(1.5)), Some(single(-0.5)), Some(single(f32::NAN))] {
        assert_eq!(
            error(&["al", "x", "mute"], volume),
            "error: volume must be a number between 0.0 and 1.0"
        );
    }
    assert_eq!(
        error(&["al", "0.5", "off"], Some(single(0.5))),
        "error: last argument must be 'mute' or 'unmute'"
    );
    assert_eq!(
        error(&["zz", "0.5", "unmute"], Some(single(0.5))),
        "error: unknown instance, try 'list'"
    );
}

#[test]
fn a_switch_command_reaches_every_role() {
    let endpoints = vec![endpoint("{b}"), endpoint("{a}")];
    match handle_switch_command(&words(&["{a"]), &endpoints) {
        Ok((CoreCommand::SetDefaultEndpoint { id, roles }, chosen)) => {
            assert_eq!(id, "{a}");
            assert_eq!(roles, RoleSet::all());
            assert_eq!(chosen.id, "{a}");
        }
        _ => panic!("expected a switch"),
    }
    assert_eq!(
        handle_switch_command(&words(&[]), &endpoints).err().as_deref(),
        Some("usage: switch <index-or-id-prefix>")
    );
    assert_eq!(
        handle_switch_command(&words(&["9"]), &endpoints).err().as_deref(),
        Some("error: unknown endpoint index or id prefix, try 'endpoints'")
    );
}

#[test]
fn the_endpoints_of_startup_are_kept() {
    let startup = CoreStartup {
        endpoints: vec![endpoint("x"), endpoint("y")],
        default_render: Some("y".to_string()),
    };
    let kept = startup_endpoints_snapshot(&startup);
    let ids: Vec<&str> = kept.iter().map(|e| e.id.as_str()).collect();
    assert_eq!(ids, vec!["x", "y"]);
}

#[test]
fn events_are_printed_on_one_line() {
    let line = |event: AudioEvent| describe_event(&event, "0.50");
    assert_eq!(
        line(AudioEvent::DefaultEndpointChanged {
            flow: DataFlow::Render,
            role: Role::Console,
            id: None,
        }),
        "DefaultEndpointChanged flow=Render role=Console id=<none>"
    );
    assert_eq!(
        line(AudioEvent::EndpointAdded { id: "x".to_string(), friendly_name: "X".to_string() }),
        "EndpointAdded          id=x name=X"
    );
    assert_eq!(
        line(AudioEvent::EndpointStateChanged {
            id: "x".to_string(),
            state: EndpointState::NotPresent,
        }),
        "EndpointStateChanged   state=NotPresent id=x"
    );
    assert_eq!(
        line(AudioEvent::SessionVolumeChanged {
            instance: "s".to_string(),
            volume: single(0.5),
            muted: true,
            own_change: false,
        }),
        "SessionVolumeChanged   instance=s volume=0.50 muted=true own_change=false"
    );
    assert_eq!(
        line(AudioEvent::SessionStateChanged {
            instance: "s".to_string(),
            state: SessionState::Expired,
        }),
        "SessionStateChanged    instance=s state=Expired"
    );
    assert_eq!(
        line(AudioEvent::CoreError(CoreError::Other("boom".to_string()))),
        "CoreError              boom"
    );
}
