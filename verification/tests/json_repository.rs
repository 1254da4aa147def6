use resonance::json_repository::{
    BackupRead, FileAction, JsonFileRepository, LoadStep, MainRead, SaveNext, SaveStart,
};
use resonance::repository::RepoError;
use resonance::single::Single;
use resonance::store::{EndpointProfile, ProfileStore, SessionEntry, Settings};
use resonance::table::Table;
use resonance::time::Timestamp;
use std::collections::{BTreeMap, BTreeSet};

const PATH: &str = "C:\\data\\profiles.json";

/// A disk that lives in memory.
#[derive(Default)]
struct Disk {
    files: BTreeMap<String, String>,
    directories: BTreeSet<String>,
}

fn fixed_time(secs: u64) -> Timestamp {
    Timestamp::from_unix(secs, 0).expect("in range")
}

fn sample_store(volume: f32) -> ProfileStore {
    let mut sessions = Table::new();
    sessions.insert(
        "spotify.exe".to_string(),
        SessionEntry {
            volume: Single { bits: volume.to_bits() },
            muted: false,
            updated_at: fixed_time(1_726_000_000),
        },
    );
    let mut endpoints = Table::new();
    endpoints.insert(
        "{endpoint-guid}".to_string(),
        EndpointProfile {
            friendly_name: "Headphones".to_string(),
            last_seen: fixed_time(1_726_000_001),
            sessions,
        },
    );
    ProfileStore { schema_version: 1, endpoints, settings: Settings::default() }
}

/// The document of a [`sample_store`].
fn write_out(store: &ProfileStore) -> String {
    let volume = store
        .endpoints
        .get("{endpoint-guid}")
        .and_then(|profile| profile.sessions.get("spotify.exe"))
        .map(|entry| entry.volume.bits);
    format!("store {volume:?}")
}

fn parse(text: &str) -> Result<ProfileStore, String> {
    let bits = text
        .strip_prefix("store Some(")
        .and_then(|rest| rest.strip_suffix(')'))
        .and_then(|digits| digits.parse::<u32>().ok());
    match bits {
        Some(bits) => Ok(sample_store(f32::from_bits(bits))),
        None => Err("expected value at line 1 column 1".to_string()),
    }
}

fn load(repo: &mut JsonFileRepository, disk: &Disk) -> Result<ProfileStore, RepoError> {
    let main = repo.path().to_string();
    let mut main_error = String::new();
    let read = match disk.files.get(&main) {
        None => MainRead::Missing,
        Some(text) => match parse(text) {
            Ok(store) => {
                let document = Ok(write_out(&store));
                MainRead::Parsed { store, document }
            }
            Err(error) => {
                main_error = error.clone();
                MainRead::Corrupt(error)
            }
        },
    };
    match repo.load(read) {
        LoadStep::Finished(result) => result,
        LoadStep::ReadBackup(path) => {
            let read = match disk.files.get(&path) {
                None => BackupRead::Failed("file not found".to_string()),
                Some(text) => match parse(text) {
                    Ok(store) => BackupRead::Parsed(store),
                    Err(error) => BackupRead::Corrupt(error),
                },
            };
            repo.load_from_backup(&main_error, read)
        }
    }
}

/// Saves, and fails at the operation with the given number, if there is one.
fn save_failing_at(
    repo: &mut JsonFileRepository,
    disk: &mut Disk,
    store: &ProfileStore,
    failing: Option<usize>,
) -> Result<(), RepoError> {
    let text = write_out(store);
    let mut save = match repo.save(&Ok(text.clone())) {
        SaveStart::Finished(result) => return result,
        SaveStart::Write(save) => save,
    };
    let mut count = 0;
    loop {
        let outcome = if failing == Some(count) {
            Err("disk full".to_string())
        } else {
            match save.action() {
                FileAction::CreateDirectory(path) => {
                    disk.directories.insert(path);
                }
                FileAction::CreateFile(path) => {
                    disk.files.insert(path, String::new());
                }
                FileAction::WriteFile(path) => {
                    disk.files.insert(path, text.clone());
                }
                FileAction::FlushFile(_) => {}
                FileAction::CopyIfPresent { from, to } => {
                    if let Some(held) = disk.files.get(&from).cloned() {
                        disk.files.insert(to, held);
                    }
                }
                FileAction::Rename { from, to } => {
                    let held = disk.files.remove(&from).expect("the temporary file");
                    disk.files.insert(to, held);
                }
            }
            Ok(())
        };
        count += 1;
        match repo.save_reported(save, outcome) {
            SaveNext::Continue(next) => save = next,
            SaveNext::Finished { discard, result } => {
                if let Some(path) = discard {
                    disk.files.remove(&path);
                }
                return result;
            }
        }
    }
}

fn save(
    repo: &mut JsonFileRepository,
    disk: &mut Disk,
    store: &ProfileStore,
) -> Result<(), RepoError> {
    save_failing_at(repo, disk, store, None)
}

fn repository() -> JsonFileRepository {
    JsonFileRepository::new(PATH.to_string())
}

#[test]
fn repository_is_send() {
    fn assert_send<T: Send>() {}
    assert_send::<JsonFileRepository>();
}

#[test]
fn load_without_file_returns_default_store() {
    let disk = Disk::default();
    let mut repo = repository();

    let loaded = load(&mut repo, &disk).expect("missing file must not be an error");

    assert!(loaded.same(&ProfileStore::default()));
    assert!(disk.files.is_empty(), "load must not create the file");
}

#[test]
fn json_repository_save_then_load_round_trips() {
    let mut disk = Disk::default();
    let mut repo = repository();
    let store = sample_store(0.75);

    save(&mut repo, &mut disk, &store).expect("save");
    let loaded = load(&mut repo, &disk).expect("load");

    assert!(loaded.same(&store));
}

#[test]
fn save_creates_missing_parent_directories() {
    let mut disk = Disk::default();
    let nested = "C:\\data\\Resonance\\profiles.json";
    let mut repo = JsonFileRepository::new(nested.to_string());

    save(&mut repo, &mut disk, &sample_store(0.5)).expect("save");

    assert!(disk.directories.contains("C:\\data\\Resonance"));
    assert!(disk.files.contains_key(nested), "save must create the parent directory");
}

#[test]
fn save_leaves_no_temporary_file() {
    let mut disk = Disk::default();
    let mut repo = repository();
    let temp = repo.temp_path().expect("temp path");

    save(&mut repo, &mut disk, &sample_store(0.25)).expect("first save");
    assert!(!disk.files.contains_key(&temp), "temporary file left behind after first save");

    save(&mut repo, &mut disk, &sample_store(0.30)).expect("second save");
    assert!(!disk.files.contains_key(&temp), "temporary file left behind after second save");
}

#[test]
fn saving_an_unchanged_store_performs_no_write() {
    let mut disk = Disk::default();
    let mut repo = repository();
    let store = sample_store(0.6);

    save(&mut repo, &mut disk, &store).expect("first save");

    // Remove the document behind the repository's back. If the second save
    // touched the disk at all it would recreate it.
    disk.files.remove(PATH).expect("remove store file");

    save(&mut repo, &mut disk, &store).expect("second save");

    assert!(!disk.files.contains_key(PATH), "unchanged store must not be written again");
}

#[test]
fn saving_a_changed_store_writes_again() {
    let mut disk = Disk::default();
    let mut repo = repository();

    save(&mut repo, &mut disk, &sample_store(0.1)).expect("first save");
    let changed = sample_store(0.9);
    save(&mut repo, &mut disk, &changed).expect("second save");

    let loaded = load(&mut repo, &disk).expect("load");
    assert!(loaded.same(&changed));
}

#[test]
fn second_save_rotates_previous_document_into_backup() {
    let mut disk = Disk::default();
    let mut repo = repository();
    let backup = repo.backup_path().expect("backup path");
    let first = sample_store(0.2);
    let second = sample_store(0.8);

    save(&mut repo, &mut disk, &first).expect("first save");
    assert!(!disk.files.contains_key(&backup), "no backup before a document is replaced");

    save(&mut repo, &mut disk, &second).expect("second save");

    let rotated = parse(&disk.files[&backup]).expect("backup parses");
    assert!(rotated.same(&first), "backup must hold the previous document");
    assert!(load(&mut repo, &disk).expect("load").same(&second));
}

#[test]
fn corrupt_main_file_falls_back_to_backup() {
    let mut disk = Disk::default();
    let mut repo = repository();
    let backup = repo.backup_path().expect("backup path");
    let store = sample_store(0.44);

    disk.files.insert(backup, write_out(&store));
    disk.files.insert(PATH.to_string(), "{ this is not json".to_string());

    let loaded = load(&mut repo, &disk).expect("must recover from the backup");
    assert!(loaded.same(&store));
}

#[test]
fn save_after_backup_fallback_repairs_the_main_file() {
    let mut disk = Disk::default();
    let mut repo = repository();
    let backup = repo.backup_path().expect("backup path");
    let store = sample_store(0.33);

    disk.files.insert(backup, write_out(&store));
    disk.files.insert(PATH.to_string(), "not json at all".to_string());

    let recovered = load(&mut repo, &disk).expect("recover from backup");
    // The recovered store is identical to the backup, so this only rewrites the
    // corrupt main file if the hash skip was left disarmed.
    save(&mut repo, &mut disk, &recovered).expect("save");

    let reloaded = parse(&disk.files[PATH]).expect("main file must parse again");
    assert!(reloaded.same(&store));
}

#[test]
fn corrupt_main_and_corrupt_backup_report_an_error() {
    let mut disk = Disk::default();
    let mut repo = repository();
    let backup = repo.backup_path().expect("backup path");

    disk.files.insert(PATH.to_string(), "{ broken".to_string());
    disk.files.insert(backup, "also broken }".to_string());

    match load(&mut repo, &disk) {
        Err(RepoError::Deserialize(_)) => {}
        other => panic!("expected a deserialize error, got {other:?}"),
    }
}

#[test]
fn corrupt_main_without_backup_reports_an_error() {
    let mut disk = Disk::default();
    let mut repo = repository();

    disk.files.insert(PATH.to_string(), "{ broken".to_string());

    match load(&mut repo, &disk) {
        Err(RepoError::Deserialize(message)) => assert_eq!(
            message,
            "store file C:\\data\\profiles.json is corrupt (expected value at line 1 column 1) \
             and its backup C:\\data\\profiles.json.bak could not be read (file not found)"
        ),
        other => panic!("expected a deserialize error, got {other:?}"),
    }
}

#[test]
fn sibling_paths_keep_the_full_file_name() {
    let repo = JsonFileRepository::new("C:\\data\\Resonance\\profiles.json".to_string());

    assert_eq!(
        repo.temp_path().expect("temp path"),
        "C:\\data\\Resonance\\profiles.json.tmp"
    );
    assert_eq!(
        repo.backup_path().expect("backup path"),
        "C:\\data\\Resonance\\profiles.json.bak"
    );
}

#[test]
fn app_data_path_ends_with_the_store_location() {
    let path = JsonFileRepository::app_data_path(Ok("C:\\Users\\me\\AppData\\Roaming".to_string()));
    assert_eq!(
        path.expect("a location"),
        "C:\\Users\\me\\AppData\\Roaming\\Resonance\\profiles.json"
    );
    let repo = JsonFileRepository::app_data(Ok("D:\\x".to_string())).expect("a repository");
    assert_eq!(repo.path(), "D:\\x\\Resonance\\profiles.json");
    match JsonFileRepository::app_data_path(Err("environment variable not found".to_string())) {
        Err(RepoError::Io(message)) => assert_eq!(
            message,
            "APPDATA environment variable unusable: environment variable not found"
        ),
        other => panic!("unexpected result: {other:?}"),
    }
    match JsonFileRepository::app_data_path(Ok(String::new())) {
        Err(RepoError::Io(message)) => {
            assert_eq!(message, "APPDATA environment variable is empty")
        }
        other => panic!("unexpected result: {other:?}"),
    }
}

#[test]
fn a_save_that_fails_anywhere_leaves_the_document_as_it_was() {
    let first = sample_store(0.2);
    let second = sample_store(0.8);
    let messages = [
        "failed to create store directory (C:\\data): disk full",
        "failed to create temporary store file (C:\\data\\profiles.json.tmp): disk full",
        "failed to write temporary store file (C:\\data\\profiles.json.tmp): disk full",
        "failed to flush temporary store file (C:\\data\\profiles.json.tmp): disk full",
        "failed to rotate store file into backup (C:\\data\\profiles.json.bak): disk full",
        "failed to replace store file (C:\\data\\profiles.json): disk full",
    ];
    for (operation, message) in messages.iter().enumerate() {
        let mut disk = Disk::default();
        let mut repo = repository();
        save(&mut repo, &mut disk, &first).expect("first save");
        match save_failing_at(&mut repo, &mut disk, &second, Some(operation)) {
            Err(RepoError::Io(text)) => assert_eq!(&text, message),
            other => panic!("unexpected result: {other:?}"),
        }
        assert_eq!(disk.files[PATH], write_out(&first));
        assert!(!disk.files.contains_key("C:\\data\\profiles.json.tmp"));
        // The failed document is not taken for saved: the next save writes it.
        save(&mut repo, &mut disk, &second).expect("retry");
        assert_eq!(disk.files[PATH], write_out(&second));
    }
}

#[test]
fn a_document_that_cannot_be_written_out_is_reported() {
    let repo = repository();
    match repo.save(&Err("key must be a string".to_string())) {
        SaveStart::Finished(Err(RepoError::Serialize(message))) => {
            assert_eq!(message, "key must be a string")
        }
        _ => panic!("expected a serialize error"),
    }
}

#[test]
fn a_path_without_a_file_name_cannot_be_saved_to() {
    let repo = JsonFileRepository::new("C:\\data\\..".to_string());
    match repo.save(&Ok("x".to_string())) {
        SaveStart::Finished(Err(RepoError::Io(message))) => assert_eq!(
            message,
            "store path has no file name component: C:\\data\\.."
        ),
        _ => panic!("expected an error"),
    }
}

#[test]
fn a_path_that_is_only_a_prefix_has_no_siblings() {
    for path in [r"\\server\share", r"\\?\C:\", r"\\.\COM42", "//server/share", "/", "..", ""] {
        let mut repo = JsonFileRepository::new(path.to_string());
        let expected = format!("store path has no file name component: {path}");
        for sibling in [repo.backup_path(), repo.temp_path()] {
            match sibling {
                Err(RepoError::Io(message)) => assert_eq!(message, expected),
                other => panic!("unexpected result for {path}: {other:?}"),
            }
        }
        match repo.save(&Ok("document".to_string())) {
            SaveStart::Finished(Err(RepoError::Io(message))) => assert_eq!(message, expected),
            _ => panic!("expected an error for {path}"),
        }
        match repo.load(MainRead::Corrupt("no json".to_string())) {
            LoadStep::Finished(Err(RepoError::Io(message))) => assert_eq!(message, expected),
            _ => panic!("expected an error for {path}"),
        }
    }
    let repo = JsonFileRepository::new(r"\\server\share\profiles.json".to_string());
    assert_eq!(repo.backup_path().expect("a path"), r"\\server\share\profiles.json.bak");
}

#[test]
fn a_document_that_was_loaded_is_not_written_back_unchanged() {
    let mut disk = Disk::default();
    save(&mut repository(), &mut disk, &sample_store(0.5)).expect("save");
    let mut repo = repository();
    let loaded = load(&mut repo, &disk).expect("load");
    disk.files.clear();
    save(&mut repo, &mut disk, &loaded).expect("save");
    assert!(disk.files.is_empty());
}

#[test]
fn a_store_is_written_again_where_the_document_got_lost_or_corrupt() {
    for damage in [None, Some("{ not json".to_string())] {
        let mut disk = Disk::default();
        let mut repo = repository();
        save(&mut repo, &mut disk, &sample_store(0.30)).expect("saved");
        save(&mut repo, &mut disk, &sample_store(0.60)).expect("saved");
        let document = disk.files[PATH].clone();

        match damage {
            None => disk.files.remove(PATH),
            Some(text) => disk.files.insert(PATH.to_string(), text),
        };
        load(&mut repo, &disk).expect("a store");
        save(&mut repo, &mut disk, &sample_store(0.60)).expect("saved");
        assert_eq!(disk.files[PATH], document);
    }
}

#[test]
fn a_document_that_is_no_text_falls_back_to_the_backup() {
    let mut repo = repository();
    let read = MainRead::Undecodable("stream did not contain valid UTF-8".to_string());
    match repo.load(read) {
        LoadStep::ReadBackup(path) => assert_eq!(path, format!("{PATH}.bak")),
        LoadStep::Finished(_) => panic!("expected the backup to be asked for"),
    }
    let loaded = repo
        .load_from_backup("no text", BackupRead::Parsed(sample_store(0.30)))
        .expect("the backup");
    assert_eq!(write_out(&loaded), write_out(&sample_store(0.30)));
}

#[test]
fn a_document_that_cannot_be_read_leaves_the_repository_as_it_was() {
    let mut disk = Disk::default();
    let mut repo = repository();
    save(&mut repo, &mut disk, &sample_store(0.30)).expect("saved");
    match repo.load(MainRead::Failed("access denied".to_string())) {
        LoadStep::Finished(Err(RepoError::Io(message))) => assert_eq!(
            message,
            format!("failed to read store file ({PATH}): access denied")
        ),
        _ => panic!("expected the error"),
    }
    let document = write_out(&sample_store(0.30));
    assert!(matches!(repo.save(&Ok(document)), SaveStart::Finished(Ok(()))));
}

#[test]
fn the_first_save_leaves_a_backup_as_it_was() {
    let backup = format!("{PATH}.bak");
    let mut disk = Disk::default();
    disk.files.insert(backup.clone(), "an earlier document".to_string());
    disk.files.insert("C:\\data\\other.json".to_string(), "other".to_string());
    save(&mut repository(), &mut disk, &sample_store(0.30)).expect("saved");
    assert_eq!(disk.files[&backup], "an earlier document");
    assert_eq!(disk.files["C:\\data\\other.json"], "other");
    assert_eq!(disk.files[PATH], write_out(&sample_store(0.30)));
    assert_eq!(disk.files.len(), 3);
}
