use resonance::process_key::{
    exe_name_from_session_identifier, file_name_lowercase, process_image_name,
    resolve_process_key,
};

#[test]
fn process_key_falls_back_to_the_session_identifier_then_to_the_pid() {
    let identifier =
        "{0.0.0.00000000}.{abcd}|\\Device\\HarddiskVolume4\\Program Files\\Spotify\\Spotify.EXE%b{ef01}";
    assert_eq!(resolve_process_key(0, None, Some(identifier)), "spotify.exe");
    assert_eq!(resolve_process_key(0, None, None), "pid:0");
    assert_eq!(resolve_process_key(0, None, Some("no path here")), "pid:0");
}

#[test]
fn executable_name_is_recovered_from_a_session_identifier() {
    assert_eq!(
        exe_name_from_session_identifier("{0.0.0}.{1}|\\Device\\Harddisk\\Chrome.exe%b{2}")
            .as_deref(),
        Some("chrome.exe")
    );
    assert_eq!(
        exe_name_from_session_identifier("{0.0.0}.{1}|\\Device\\Harddisk\\Chrome.exe").as_deref(),
        Some("chrome.exe")
    );
    assert_eq!(
        exe_name_from_session_identifier("{0.0.0}.{1}|\\Device\\Harddisk\\something%b{2}"),
        None,
        "only an .exe path is a usable process key"
    );
    assert_eq!(exe_name_from_session_identifier(""), None);
}

#[test]
fn file_names_are_lowercased_and_stripped_of_their_directory() {
    assert_eq!(
        file_name_lowercase("C:\\Program Files\\App\\App.EXE").as_deref(),
        Some("app.exe")
    );
    assert_eq!(file_name_lowercase("App.exe").as_deref(), Some("app.exe"));
    assert_eq!(file_name_lowercase("C:\\dir\\"), None);
    assert_eq!(file_name_lowercase(""), None);
}

#[test]
fn names_beyond_ascii_are_lowercased_too() {
    assert_eq!(file_name_lowercase("C:\\\u{c4}PP.EXE").as_deref(), Some("\u{e4}pp.exe"));
}

#[test]
fn the_image_of_the_process_comes_before_the_identifier() {
    let identifier = "{1}|\\Device\\Other.exe%b{2}";
    assert_eq!(
        resolve_process_key(7, Some("C:\\Games\\Game.EXE"), Some(identifier)),
        "game.exe"
    );
    assert_eq!(resolve_process_key(7, None, Some(identifier)), "other.exe");
    assert_eq!(resolve_process_key(4_294_967_295, None, None), "pid:4294967295");
}

#[test]
fn the_system_process_has_no_image_name() {
    assert_eq!(process_image_name(0, Some("C:\\x.exe")), None);
    assert_eq!(process_image_name(1, Some("C:\\X.exe")).as_deref(), Some("x.exe"));
}

#[test]
fn an_identifier_of_another_case_names_the_same_program() {
    assert_eq!(
        exe_name_from_session_identifier("{1}|\\Device\\GAME[2].ExE%b{2}").as_deref(),
        Some("game[2].exe")
    );
    assert_eq!(resolve_process_key(9, None, Some("{1}|\\Device\\GAME.COM%b{2}")), "pid:9");
}
