use resonance::forgotten::Forgotten;
use resonance::path::{join, parent, with_suffix};
use resonance::single::Single;
use resonance::table::Table;
use resonance::text::{at_most, decimal_of, hex_of, hex_pair_of, same};
use resonance::time::{timestamp_of, wall_time, Clock, Timestamp};

fn single(x: f32) -> Single {
    Single { bits: x.to_bits() }
}

#[test]
fn single_precision_numbers_are_ordered_by_their_bits() {
    let numbers = [
        f32::NEG_INFINITY,
        -3.5,
        -f32::MIN_POSITIVE,
        -0.0,
        0.0,
        f32::MIN_POSITIVE,
        0.25,
        1.0,
        f32::INFINITY,
        f32::NAN,
        -f32::NAN,
    ];
    for a in numbers {
        assert_eq!(single(a).is_nan(), a.is_nan());
        for b in numbers {
            assert_eq!(single(a).le(single(b)), a <= b, "{a} <= {b}");
        }
        if !a.is_nan() {
            let clamped = f32::from_bits(single(a).clamp(single(0.0), single(1.0)).bits);
            assert_eq!(clamped, a.clamp(0.0, 1.0));
        }
    }
}

#[test]
fn numbers_are_written_out() {
    assert_eq!(decimal_of(0), "0");
    assert_eq!(decimal_of(18_446_744_073_709_551_615), "18446744073709551615");
    assert_eq!(hex_of(0), "0");
    assert_eq!(hex_of(0xBEEF), "BEEF");
    assert_eq!(hex_pair_of(0xA), "0A");
    assert_eq!(hex_pair_of(0x100), "100");
}

#[test]
fn texts_are_ordered_by_their_characters() {
    let texts = ["", "a", "ab", "b", "B", "\u{e9}", "\u{10000}", "\u{ffff}"];
    for a in texts {
        for b in texts {
            assert_eq!(at_most(a, b), a <= b, "{a} <= {b}");
            assert_eq!(same(a, b), a == b);
        }
    }
}

#[test]
fn a_table_keeps_one_value_for_each_key() {
    let mut table: Table<u32> = Table::new();
    assert!(table.is_empty());
    table.insert("a".to_string(), 1);
    table.insert("b".to_string(), 2);
    table.insert("a".to_string(), 3);
    assert_eq!(table.len(), 2);
    assert_eq!(table.get("a"), Some(&3));
    if let Some(value) = table.get_mut("b") {
        *value = 9;
    }
    assert_eq!(table.get("b"), Some(&9));
    assert_eq!(table.entry_at(0).0, "a");
    assert_eq!(table.remove("a"), Some(3));
    assert_eq!(table.remove("a"), None);
    assert!(!table.contains_key("a") && table.contains_key("b"));
}

#[test]
fn timestamps_read_back_from_their_parts() {
    let time = Timestamp::from_unix(1_726_000_000, 123_000_000).expect("in range");
    assert_eq!(time.to_unix(), (1_726_000_000, 123_000_000));
    assert_eq!(Timestamp::from_unix(1, 1_500_000_000), Some(Timestamp { secs: 2, nanos: 500_000_000 }));
    assert_eq!(Timestamp::from_unix(u64::MAX, 0), None);
    assert_eq!(Timestamp { secs: -5, nanos: 1 }.to_unix(), (0, 0));
    assert_eq!(
        timestamp_of(true, 1, 250_000_000),
        Some(Timestamp { secs: -2, nanos: 750_000_000 })
    );
    let earlier = Timestamp { secs: 10, nanos: 900_000_000 };
    let later = Timestamp { secs: 12, nanos: 100_000_000 };
    assert_eq!(later.nanos_since(earlier), Some(1_200_000_000));
    assert_eq!(earlier.nanos_since(later), None);
}

#[test]
fn a_wall_clock_out_of_range_reads_as_the_epoch() {
    let epoch = Timestamp { secs: 0, nanos: 0 };
    assert_eq!(wall_time(false, 1_726_000_000, 7), Timestamp { secs: 1_726_000_000, nanos: 7 });
    assert_eq!(wall_time(true, 1, 250_000_000), Timestamp { secs: -2, nanos: 750_000_000 });
    assert_eq!(wall_time(false, u64::MAX, 7), epoch);
    assert_eq!(wall_time(true, u64::MAX, 7), epoch);
}

#[test]
fn the_clock_runs_forward_from_its_start() {
    let clock = Clock::start();
    let first = clock.moment();
    let second = clock.moment();
    assert!(first.nanos <= second.nanos);
    assert!(clock.read().wall.secs > 1_600_000_000);
}

#[test]
fn paths_are_taken_apart_at_their_separators() {
    assert_eq!(with_suffix("C:\\a\\b.json", ".tmp").as_deref(), Some("C:\\a\\b.json.tmp"));
    assert_eq!(with_suffix("b.json/", ".bak").as_deref(), Some("b.json.bak"));
    assert_eq!(with_suffix("C:\\a\\b", ".").as_deref(), Some("C:\\a\\b."));
    assert_eq!(with_suffix("C:\\a\\b/.", "").as_deref(), Some("C:\\a\\b"));
    assert_eq!(with_suffix("C:\\", ".tmp"), None);
    assert_eq!(with_suffix("a\\..", ".tmp"), None);
    assert_eq!(parent("C:\\a\\b.json").as_deref(), Some("C:\\a"));
    assert_eq!(parent("C:\\b.json").as_deref(), Some("C:\\"));
    assert_eq!(parent("b.json"), None);
    assert_eq!(join("C:\\a", "b"), "C:\\a\\b");
    assert_eq!(join("C:\\a\\", "b"), "C:\\a\\b");
    assert_eq!(join("", "b"), "b");
    assert_eq!(join("C:", "b"), "C:b");
}

#[test]
fn a_path_that_is_only_a_prefix_and_a_root_names_no_file() {
    for path in [
        "",
        ".",
        "./.",
        "..",
        "/",
        "\\",
        "C:",
        "C:.",
        "C:/",
        "C:\\a\\..",
        r"\\server\share",
        r"\\server\share\",
        "//server/share",
        "//server/share/.",
        r"\\.\COM42",
        r"\\.\COM42\",
        "//./COM42",
        r"\\?\",
        r"\\?\name",
        r"\\?\name\",
        r"\\?\C:",
        r"\\?\C:\",
        r"\\?\C:/",
        r"\\?\C:\.",
        r"\\?\C:\..",
        r"\\?\UNC\server",
        r"\\?\UNC\server\share",
        r"\\?\UNC\server\share\",
        "//?/C:",
        "//?/C:/",
    ] {
        assert_eq!(with_suffix(path, ".bak"), None, "{path}");
    }
}

#[test]
fn a_file_behind_any_prefix_gets_its_suffix() {
    for (path, directory) in [
        (r"\\server\share\x", r"\\server\share\"),
        (r"//server/share/a/x", r"//server/share/a"),
        (r"\\.\COM42\x", r"\\.\COM42\"),
        (r"\\?\name\x", r"\\?\name\"),
        (r"\\?\C:\x", r"\\?\C:\"),
        (r"\\?\C:\a\x", r"\\?\C:\a"),
        (r"\\?\C:/a/x", r"\\?\C:/"),
        (r"\\?\C:\a/x", r"\\?\C:\"),
        (r"\\?\C:\.\x", r"\\?\C:\."),
        (r"\\?\UNC\server\share\x", r"\\?\UNC\server\share\"),
        (r"\\?\UNC\server\\x", r"\\?\UNC\server\"),
        ("//?/C:/x", "//?/C:/"),
        (r"\\server\\x", r"\\server"),
        (r"\x", r"\"),
        (r"C:x", "C:"),
        (r"C:.\x", "C:."),
        (r"a/./x", "a"),
        (r"././x", "."),
        (r"../x", ".."),
    ] {
        assert_eq!(with_suffix(path, ".bak"), Some(format!("{path}.bak")), "{path}");
        assert_eq!(parent(path).as_deref(), Some(directory), "{path}");
        assert_eq!(parent(&format!("{path}.bak")).as_deref(), Some(directory), "{path}");
    }
    // A server without a share is a name below the root.
    assert_eq!(with_suffix(r"\\server", ".bak").as_deref(), Some(r"\\server.bak"));
    assert_eq!(with_suffix(r"\\server\", ".bak").as_deref(), Some(r"\\server.bak"));
    // One dot is no name, and is left out behind one.
    assert_eq!(with_suffix(r"C:\a\.\", ".bak").as_deref(), Some(r"C:\a.bak"));
    assert_eq!(parent("."), None);
    assert_eq!(parent("C:.").as_deref(), Some("C:"));
    assert_eq!(parent(r"\\server\share"), None);
}

#[test]
fn names_are_joined_to_every_kind_of_directory() {
    assert_eq!(join(r"\\server\share", "b"), r"\\server\share\b");
    assert_eq!(join("//server/share/", "b"), "//server/share/b");
    assert_eq!(join(r"\\?\C:", "b"), r"\\?\C:\b");
    assert_eq!(join(r"\\?\C:/", "b"), r"\\?\C:\b");
    assert_eq!(join(r"\\?\C:\a\\c\", "b"), r"\\?\C:\a\c\b");
    assert_eq!(join(r"\\?\C:\a/", "b"), r"\\?\C:\a/\b");
    assert_eq!(join(r"\\?\UNC\server\share", "b"), r"\\?\UNC\server\share\b");
}

#[test]
fn a_forgotten_place_is_found_until_it_is_taken_out() {
    let mut places = Forgotten::new();
    places.insert("{a}", "x.exe");
    places.insert("{b}", "x.exe");
    places.insert("{a}", "x.exe");
    assert!(places.contains("{a}", "x.exe"));
    assert!(!places.contains("{a}", "y.exe"));
    places.remove("{a}", "x.exe");
    assert!(!places.contains("{a}", "x.exe"));
    assert!(places.contains("{b}", "x.exe"));
}
