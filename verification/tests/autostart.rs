use resonance::autostart::{
    apply, format_command, registry_result, run_key_path, AutostartError, RegistryCall, RunEntry,
};
use resonance::wide::{encode_utf16, reg_sz_bytes, wide_nul};
use std::collections::BTreeMap;

#[test]
fn the_command_quotes_the_path_and_selects_the_overlay_mode() {
    let command = format_command(r"C:\Program Files\Resonance\resonance-app.exe");
    assert_eq!(command, r#""C:\Program Files\Resonance\resonance-app.exe" --overlay"#);
}

#[test]
fn reg_sz_bytes_is_utf16_with_a_terminator() {
    // "Hi" plus the NUL terminator: three UTF-16 units, six bytes.
    assert_eq!(reg_sz_bytes("Hi"), vec![b'H', 0, b'i', 0, 0, 0]);
}

#[test]
fn wide_nul_terminates_and_preserves_the_text() {
    let wide = wide_nul(run_key_path());
    assert_eq!(wide.last(), Some(&0));
    assert_eq!(String::from_utf16_lossy(&wide[..wide.len() - 1]), run_key_path());
}

#[test]
fn characters_beyond_the_first_plane_take_two_units() {
    let text = "a\u{1f3a7}z";
    assert_eq!(encode_utf16(text), text.encode_utf16().collect::<Vec<u16>>());
    assert_eq!(encode_utf16(text).len(), 4);
}

#[test]
fn enabling_writes_the_entry_and_disabling_removes_it() {
    match apply(true, Ok(r"C:\r.exe".to_string())) {
        Ok(RunEntry::Write { name, command }) => {
            assert_eq!(name, "Resonance");
            assert_eq!(command, r#""C:\r.exe" --overlay"#);
        }
        _ => panic!("expected a write"),
    }
    match apply(false, Err("unknown".to_string())) {
        Ok(RunEntry::Remove { name }) => assert_eq!(name, "Resonance"),
        _ => panic!("expected a removal"),
    }
    match apply(true, Err("no module".to_string())) {
        Err(error) => assert_eq!(
            error.describe(),
            "could not determine the executable path: no module"
        ),
        Ok(_) => panic!("expected an error"),
    }
}

#[test]
fn removing_something_that_is_not_there_is_success() {
    let missing = 2;
    assert!(matches!(registry_result(RegistryCall::OpenKey, missing), Ok(false)));
    assert!(matches!(registry_result(RegistryCall::DeleteValue, missing), Ok(false)));
    assert!(matches!(registry_result(RegistryCall::DeleteValue, 0), Ok(true)));
    for call in [RegistryCall::CreateKey, RegistryCall::SetValue] {
        assert!(matches!(
            registry_result(call, missing),
            Err(AutostartError::Registry { code: 2, .. })
        ));
    }
    match registry_result(RegistryCall::SetValue, 5) {
        Err(error) => {
            assert_eq!(error.describe(), "RegSetValueExW failed with Win32 error 5")
        }
        Ok(_) => panic!("expected an error"),
    }
}

/// The values under the autostart key, by name.
type Values = BTreeMap<String, String>;

fn applied(mut values: Values, enabled: bool) -> Values {
    match apply(enabled, Ok(r"C:\r.exe".to_string())).expect("an entry") {
        RunEntry::Write { name, command } => values.insert(name, command),
        RunEntry::Remove { name } => values.remove(&name),
    };
    values
}

#[test]
fn applying_twice_is_applying_once_and_off_undoes_on() {
    let before = Values::from([("Other".to_string(), "other.exe".to_string())]);
    let on = applied(before.clone(), true);
    assert_eq!(on["Resonance"], r#""C:\r.exe" --overlay"#);
    assert_eq!(on["Other"], "other.exe");
    assert_eq!(applied(on.clone(), true), on);

    let off = applied(on, false);
    assert_eq!(off, before);
    assert_eq!(applied(off, false), before);
}
