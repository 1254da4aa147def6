//! A repository that keeps the store in one JSON document on disk.
//!
//! The document is replaced durably: the new one is written beside the old one,
//! flushed, and then renamed over it. The old one is kept as a backup, which is
//! read when the document no longer parses. A document that did not change is
//! not written again.
//!
//! The file operations are made elsewhere: this module says which one comes next
//! and what its outcome means.

use crate::path;
use crate::repository::{RepoError, RepoErrorModel};
use crate::store::ProfileStore;
use crate::store;
use std::collections::hash_map::DefaultHasher;
use std::hash::Hasher;
use vstd::prelude::*;
use vstd::std_specs::hash::DefaultHasherAdditionalSpecFns;
use vstd::string::*;

verus! {

/// A repository over a JSON document.
///
/// `last_hash` is the fingerprint of the document that is known to be on disk.
/// It is unset while nothing is known of the file, which makes the next save
/// write.
#[derive(Debug)]
pub struct JsonFileRepository {
    path: String,
    last_hash: Option<u64>,
}

/// What a [`JsonFileRepository`] holds.
pub struct RepositoryModel {
    pub path: Seq<char>,
    pub last_hash: Option<u64>,
}

impl View for JsonFileRepository {
    type V = RepositoryModel;

    closed spec fn view(&self) -> RepositoryModel {
        RepositoryModel { path: self.path@, last_hash: self.last_hash }
    }
}

/// The fingerprint of some bytes: what the standard hasher makes of writing them
/// at once.
pub open spec fn fingerprint(bytes: Seq<u8>) -> u64 {
    DefaultHasher::spec_finish(seq![bytes])
}

/// The fingerprint of a document.
pub open spec fn document_hash(document: Seq<char>) -> u64 {
    fingerprint(vstd::utf8::encode_utf8(document))
}

/// A fingerprint that is only ever compared for equality.
pub fn hash_bytes(bytes: &[u8]) -> (hash: u64)
    ensures
        hash == fingerprint(bytes@),
{
    let mut hasher = DefaultHasher::new();
    hasher.write(bytes);
    assert(hasher@ =~= seq![bytes@]);
    hasher.finish()
}

/// The text of an operation that failed.
pub open spec fn io_text(action: Seq<char>, path: Seq<char>, error: Seq<char>) -> Seq<char> {
    "failed to "@ + action + " ("@ + path + "): "@ + error
}

/// The error for an operation that failed.
pub fn io_error(action: &str, path: &str, error: &str) -> (result: RepoError)
    ensures
        result@ == RepoErrorModel::Io(io_text(action@, path@, error@)),
{
    let mut message = String::from_str("failed to ");
    message.append(action);
    message.append(" (");
    message.append(path);
    message.append("): ");
    message.append(error);
    RepoError::Io(message)
}

/// What came of reading the document.
#[derive(Debug)]
pub enum MainRead {
    /// There is no document yet.
    Missing,
    /// The document could not be read; the message says why.
    Failed(String),
    /// The bytes of the document are no text; the message says why. That counts as
    /// corrupt.
    Undecodable(String),
    /// The document was read but does not parse; the message says why.
    Corrupt(String),
    /// The document parses. `document` is the store written out again, or the
    /// message why it cannot be.
    Parsed { store: ProfileStore, document: Result<String, String> },
}

/// What came of reading the backup.
#[derive(Debug)]
pub enum BackupRead {
    Failed(String),
    Corrupt(String),
    Parsed(ProfileStore),
}

/// How loading goes on.
#[derive(Debug)]
pub enum LoadStep {
    Finished(Result<ProfileStore, RepoError>),
    /// The document is corrupt: the backup at this path is read next.
    ReadBackup(String),
}

/// The hash that is remembered of a document written out again.
pub open spec fn remembered(document: Result<String, String>) -> Option<u64> {
    match document {
        Ok(text) => Some(document_hash(text@)),
        Err(_) => None,
    }
}

/// A repository that knows of no document on disk: its next save writes.
pub open spec fn unremembered(repository: RepositoryModel) -> RepositoryModel {
    RepositoryModel { last_hash: None, ..repository }
}

/// A file operation.
#[derive(Debug)]
pub enum FileAction {
    /// Make a directory and all those above it.
    CreateDirectory(String),
    /// Create a file, or empty it.
    CreateFile(String),
    /// Write the document to the file just created.
    WriteFile(String),
    /// Flush the file just written to the device, and close it.
    FlushFile(String),
    /// Copy a file, if it exists.
    CopyIfPresent { from: String, to: String },
    /// Rename a file over another.
    Rename { from: String, to: String },
}

/// What a [`FileAction`] holds.
pub enum FileActionModel {
    CreateDirectory(Seq<char>),
    CreateFile(Seq<char>),
    WriteFile(Seq<char>),
    FlushFile(Seq<char>),
    CopyIfPresent { from: Seq<char>, to: Seq<char> },
    Rename { from: Seq<char>, to: Seq<char> },
}

impl View for FileAction {
    type V = FileActionModel;

    open spec fn view(&self) -> FileActionModel {
        match self {
            FileAction::CreateDirectory(path) => FileActionModel::CreateDirectory(path@),
            FileAction::CreateFile(path) => FileActionModel::CreateFile(path@),
            FileAction::WriteFile(path) => FileActionModel::WriteFile(path@),
            FileAction::FlushFile(path) => FileActionModel::FlushFile(path@),
            FileAction::CopyIfPresent { from, to } => FileActionModel::CopyIfPresent {
                from: from@,
                to: to@,
            },
            FileAction::Rename { from, to } => FileActionModel::Rename { from: from@, to: to@ },
        }
    }
}

/// How far a save has come: the operation that is made next.
#[derive(Debug, Clone, Copy, PartialEq, Eq, Structural)]
pub enum SaveStage {
    MakeDirectory,
    CreateTemporary,
    WriteTemporary,
    FlushTemporary,
    Rotate,
    Replace,
}

/// A save that is under way.
#[derive(Debug)]
pub struct Save {
    directory: Option<String>,
    main: String,
    temporary: String,
    backup: String,
    hash: u64,
    stage: SaveStage,
}

/// What a [`Save`] holds.
pub struct SaveModel {
    pub directory: Option<Seq<char>>,
    pub main: Seq<char>,
    pub temporary: Seq<char>,
    pub backup: Seq<char>,
    pub hash: u64,
    pub stage: SaveStage,
}

impl View for Save {
    type V = SaveModel;

    closed spec fn view(&self) -> SaveModel {
        SaveModel {
            directory: crate::messages::optional_text(self.directory),
            main: self.main@,
            temporary: self.temporary@,
            backup: self.backup@,
            hash: self.hash,
            stage: self.stage,
        }
    }
}

/// Whether a save is at a stage that has an operation: one without a directory
/// makes none.
pub open spec fn save_wf(save: SaveModel) -> bool {
    save.stage == SaveStage::MakeDirectory ==> save.directory is Some
}

/// How a save starts.
#[derive(Debug)]
pub enum SaveStart {
    /// Nothing is to be written: the save has ended with this result.
    Finished(Result<(), RepoError>),
    Write(Save),
}

/// How a save goes on.
#[derive(Debug)]
pub enum SaveNext {
    Continue(Save),
    /// The save has ended. `discard` is a temporary file to be removed.
    Finished { discard: Option<String>, result: Result<(), RepoError> },
}

/// What the library calls the temporary file and the backup.
pub open spec fn temporary_path(main: Seq<char>) -> Seq<char> {
    path::suffixed(main, ".tmp"@)
}

pub open spec fn backup_path(main: Seq<char>) -> Seq<char> {
    path::suffixed(main, ".bak"@)
}

/// The error for a path that names no file.
pub open spec fn no_file_name(main: Seq<char>) -> RepoErrorModel {
    RepoErrorModel::Io("store path has no file name component: "@ + main)
}

/// A save from its start.
pub open spec fn new_save(main: Seq<char>, document: Seq<char>) -> SaveModel {
    let directory = path::directory(main);
    SaveModel {
        directory: if directory.len() > 0 {
            Some(directory)
        } else {
            None
        },
        main,
        temporary: temporary_path(main),
        backup: backup_path(main),
        hash: document_hash(document),
        stage: if directory.len() > 0 {
            SaveStage::MakeDirectory
        } else {
            SaveStage::CreateTemporary
        },
    }
}

/// The operation that a save makes next.
pub open spec fn next_action(save: SaveModel) -> FileActionModel {
    match save.stage {
        SaveStage::MakeDirectory => FileActionModel::CreateDirectory(save.directory->Some_0),
        SaveStage::CreateTemporary => FileActionModel::CreateFile(save.temporary),
        SaveStage::WriteTemporary => FileActionModel::WriteFile(save.temporary),
        SaveStage::FlushTemporary => FileActionModel::FlushFile(save.temporary),
        SaveStage::Rotate => FileActionModel::CopyIfPresent { from: save.main, to: save.backup },
        SaveStage::Replace => FileActionModel::Rename { from: save.temporary, to: save.main },
    }
}

/// The stage behind `stage`; `None` behind the last.
pub open spec fn stage_after(stage: SaveStage) -> Option<SaveStage> {
    match stage {
        SaveStage::MakeDirectory => Some(SaveStage::CreateTemporary),
        SaveStage::CreateTemporary => Some(SaveStage::WriteTemporary),
        SaveStage::WriteTemporary => Some(SaveStage::FlushTemporary),
        SaveStage::FlushTemporary => Some(SaveStage::Rotate),
        SaveStage::Rotate => Some(SaveStage::Replace),
        SaveStage::Replace => None,
    }
}

/// What the operation of a stage is called in an error, and the path it names.
pub open spec fn stage_failure(save: SaveModel) -> (Seq<char>, Seq<char>) {
    match save.stage {
        SaveStage::MakeDirectory => ("create store directory"@, save.directory->Some_0),
        SaveStage::CreateTemporary => ("create temporary store file"@, save.temporary),
        SaveStage::WriteTemporary => ("write temporary store file"@, save.temporary),
        SaveStage::FlushTemporary => ("flush temporary store file"@, save.temporary),
        SaveStage::Rotate => ("rotate store file into backup"@, save.backup),
        SaveStage::Replace => ("replace store file"@, save.main),
    }
}

/// Whether a failure at this stage leaves a temporary file to be removed.
pub open spec fn leaves_temporary(stage: SaveStage) -> bool {
    stage != SaveStage::MakeDirectory && stage != SaveStage::CreateTemporary
}

/// The location of the store below the application data directory.
pub open spec fn store_location(app_data: Seq<char>) -> Seq<char> {
    path::joined(path::joined(app_data, "Resonance"@), "profiles.json"@)
}

/// Whether a document is known to be on disk, by its hash.
pub open spec fn is_current(repository: RepositoryModel, document: Seq<char>) -> bool {
    repository.last_hash == Some(document_hash(document))
}

/// A repository after a document was read.
pub open spec fn after_load(
    repository: RepositoryModel,
    document: Result<String, String>,
) -> RepositoryModel {
    RepositoryModel { last_hash: remembered(document), ..repository }
}

/// A repository after a save has gone all the way.
pub open spec fn after_save(repository: RepositoryModel, save: SaveModel) -> RepositoryModel {
    RepositoryModel { last_hash: Some(save.hash), ..repository }
}

impl JsonFileRepository {
    /// A repository over the document at `path`.
    pub fn new(path: String) -> (repository: Self)
        ensures
            repository@ == (RepositoryModel { path: path@, last_hash: None }),
    {
        JsonFileRepository { path, last_hash: None }
    }

    /// A repository over the standard location. `app_data` is the value of the
    /// `APPDATA` environment variable, or the message why it cannot be used.
    pub fn app_data(app_data: Result<String, String>) -> (repository: Result<Self, RepoError>)
        ensures
            match (app_data, repository) {
                (Ok(directory), Ok(r)) => directory@.len() > 0 && r@ == (RepositoryModel {
                    path: store_location(directory@),
                    last_hash: None,
                }),
                (Ok(directory), Err(e)) => directory@.len() == 0 && e@ == RepoErrorModel::Io(
                    "APPDATA environment variable is empty"@,
                ),
                (Err(message), Err(e)) => e@ == RepoErrorModel::Io(
                    "APPDATA environment variable unusable: "@ + message@,
                ),
                (Err(_), Ok(_)) => false,
            },
    {
        match JsonFileRepository::app_data_path(app_data) {
            Ok(path) => Ok(JsonFileRepository::new(path)),
            Err(error) => Err(error),
        }
    }

    /// The standard location, `%APPDATA%\Resonance\profiles.json`. A location is
    /// never invented: without the variable there is an error.
    pub fn app_data_path(app_data: Result<String, String>) -> (path: Result<String, RepoError>)
        ensures
            match (app_data, path) {
                (Ok(directory), Ok(p)) => directory@.len() > 0 && p@ == store_location(directory@),
                (Ok(directory), Err(e)) => directory@.len() == 0 && e@ == RepoErrorModel::Io(
                    "APPDATA environment variable is empty"@,
                ),
                (Err(message), Err(e)) => e@ == RepoErrorModel::Io(
                    "APPDATA environment variable unusable: "@ + message@,
                ),
                (Err(_), Ok(_)) => false,
            },
    {
        match app_data {
            Ok(directory) => {
                if directory.as_str().is_empty() {
                    return Err(
                        RepoError::Io(String::from_str("APPDATA environment variable is empty")),
                    );
                }
                proof {
                    reveal_strlit("Resonance");
                    reveal_strlit("profiles.json");
                    assert("Resonance"@[0] != '.');
                    assert("profiles.json"@[0] != '.');
                }
                let folder = path::join(directory.as_str(), "Resonance");
                Ok(path::join(folder.as_str(), "profiles.json"))
            },
            Err(reason) => {
                let mut message = String::from_str("APPDATA environment variable unusable: ");
                message.append(reason.as_str());
                Err(RepoError::Io(message))
            },
        }
    }

    /// The path of the document.
    pub fn path(&self) -> (path: &str)
        ensures
            path@ == self@.path,
    {
        self.path.as_str()
    }

    /// The path of the backup.
    pub fn backup_path(&self) -> (path: Result<String, RepoError>)
        ensures
            match path {
                Ok(p) => path::names_a_file(self@.path) && p@ == backup_path(self@.path),
                Err(e) => !path::names_a_file(self@.path) && e@ == no_file_name(self@.path),
            },
    {
        sibling_with_suffix(self.path.as_str(), ".bak")
    }

    /// The path of the temporary file.
    pub fn temp_path(&self) -> (path: Result<String, RepoError>)
        ensures
            match path {
                Ok(p) => path::names_a_file(self@.path) && p@ == temporary_path(self@.path),
                Err(e) => !path::names_a_file(self@.path) && e@ == no_file_name(self@.path),
            },
    {
        sibling_with_suffix(self.path.as_str(), ".tmp")
    }

    /// What loading makes of reading the document. A missing document is no
    /// error: the store is then the default one. Where there is no document, or a
    /// corrupt one, none is known to be on disk, so the next save writes.
    pub fn load(&mut self, read: MainRead) -> (step: LoadStep)
        requires
            read matches MainRead::Parsed { store, .. } ==> store.wf(),
        ensures
            final(self)@ == match read {
                MainRead::Parsed { store: _, document } => after_load(old(self)@, document),
                MainRead::Missing | MainRead::Undecodable(_) | MainRead::Corrupt(_) => {
                    unremembered(old(self)@)
                },
                MainRead::Failed(_) => old(self)@,
            },
            match read {
                MainRead::Missing => step matches LoadStep::Finished(Ok(store)) && store@
                    == store::empty_store() && store.wf(),
                MainRead::Failed(message) => step matches LoadStep::Finished(Err(e)) && e@
                    == RepoErrorModel::Io(
                    io_text("read store file"@, old(self)@.path, message@),
                ),
                MainRead::Undecodable(_) | MainRead::Corrupt(_) => if path::names_a_file(
                    old(self)@.path,
                ) {
                    step matches LoadStep::ReadBackup(p) && p@ == backup_path(old(self)@.path)
                } else {
                    step matches LoadStep::Finished(Err(e)) && e@ == no_file_name(
                        old(self)@.path,
                    )
                },
                MainRead::Parsed { store, document: _ } => step == LoadStep::Finished(Ok(store)),
            },
    {
        match read {
            MainRead::Missing => {
                self.last_hash = None;
                LoadStep::Finished(Ok(ProfileStore::default()))
            },
            MainRead::Failed(message) => LoadStep::Finished(
                Err(io_error("read store file", self.path.as_str(), message.as_str())),
            ),
            MainRead::Undecodable(_) | MainRead::Corrupt(_) => {
                self.last_hash = None;
                match self.backup_path() {
                    Ok(backup) => LoadStep::ReadBackup(backup),
                    Err(error) => LoadStep::Finished(Err(error)),
                }
            },
            MainRead::Parsed { store, document } => {
                self.remember(&document);
                LoadStep::Finished(Ok(store))
            },
        }
    }

    /// Notes which document is on disk. One that cannot be written out is not
    /// known, so the next save writes.
    fn remember(&mut self, document: &Result<String, String>)
        ensures
            final(self)@ == after_load(old(self)@, *document),
    {
        match document {
            Ok(text) => {
                self.last_hash = Some(hash_bytes(text.as_str().as_bytes()));
            },
            Err(_) => {
                self.last_hash = None;
            },
        }
    }

    /// What loading makes of reading the backup, after the document turned out
    /// corrupt. Nothing is known of the document since then, so it is written again
    /// even if the store that the backup gave is saved unchanged.
    pub fn load_from_backup(&self, main_error: &str, read: BackupRead) -> (loaded: Result<
        ProfileStore,
        RepoError,
    >)
        requires
            path::names_a_file(self@.path),
        ensures
            ({
                let start = "store file "@ + self@.path + " is corrupt ("@ + main_error@
                    + ") and its backup "@ + backup_path(self@.path);
                match read {
                    BackupRead::Failed(message) => loaded matches Err(e) && e@
                        == RepoErrorModel::Deserialize(
                        start + " could not be read ("@ + message@ + ")"@,
                    ),
                    BackupRead::Corrupt(message) => loaded matches Err(e) && e@
                        == RepoErrorModel::Deserialize(
                        start + " is corrupt too ("@ + message@ + ")"@,
                    ),
                    BackupRead::Parsed(store) => loaded == Ok::<ProfileStore, RepoError>(store),
                }
            }),
    {
        let (verdict, message) = match read {
            BackupRead::Parsed(store) => {
                return Ok(store);
            },
            BackupRead::Failed(message) => (" could not be read (", message),
            BackupRead::Corrupt(message) => (" is corrupt too (", message),
        };
        let backup = match self.backup_path() {
            Ok(backup) => backup,
            Err(error) => {
                return Err(error);
            },
        };
        let mut text = String::from_str("store file ");
        text.append(self.path.as_str());
        text.append(" is corrupt (");
        text.append(main_error);
        text.append(") and its backup ");
        text.append(backup.as_str());
        text.append(verdict);
        text.append(message.as_str());
        text.append(")");
        Err(RepoError::Deserialize(text))
    }

    /// Starts a save. `document` is the store written out, or the message why it
    /// cannot be. A document that is known to be on disk is not written again.
    pub fn save(&self, document: &Result<String, String>) -> (start: SaveStart)
        ensures
            match document {
                Err(message) => start matches SaveStart::Finished(Err(e)) && e@
                    == RepoErrorModel::Serialize(message@),
                Ok(text) => if is_current(self@, text@) {
                    start == SaveStart::Finished(Ok(()))
                } else if !path::names_a_file(self@.path) {
                    start matches SaveStart::Finished(Err(e)) && e@ == no_file_name(self@.path)
                } else {
                    start matches SaveStart::Write(save) && save@ == new_save(
                        self@.path,
                        text@,
                    ) && save_wf(save@)
                },
            },
    {
        let text = match document {
            Ok(text) => text,
            Err(message) => {
                return SaveStart::Finished(Err(RepoError::Serialize(message.clone())));
            },
        };
        let hash = hash_bytes(text.as_str().as_bytes());
        if let Some(last) = self.last_hash {
            if last == hash {
                return SaveStart::Finished(Ok(()));
            }
        }
        let temporary = match self.temp_path() {
            Ok(temporary) => temporary,
            Err(error) => {
                return SaveStart::Finished(Err(error));
            },
        };
        let backup = match self.backup_path() {
            Ok(backup) => backup,
            Err(error) => {
                return SaveStart::Finished(Err(error));
            },
        };
        let directory = path::parent(self.path.as_str());
        let stage = if directory.is_some() {
            SaveStage::MakeDirectory
        } else {
            SaveStage::CreateTemporary
        };
        SaveStart::Write(
            Save { directory, main: self.path.clone(), temporary, backup, hash, stage },
        )
    }

    /// Takes note of how the operation of a save went, and says how the save
    /// goes on. Only a save that has gone all the way counts as on disk.
    pub fn save_reported(&mut self, save: Save, outcome: Result<(), String>) -> (next: SaveNext)
        requires
            save_wf(save@),
        ensures
            match outcome {
                Ok(_) => match stage_after(save@.stage) {
                    Some(stage) => {
                        &&& next matches SaveNext::Continue(s)
                        &&& s@ == (SaveModel { stage, ..save@ })
                        &&& save_wf(s@)
                        &&& final(self)@ == old(self)@
                    },
                    None => {
                        &&& next matches SaveNext::Finished { discard, result }
                        &&& discard is None
                        &&& result == Ok::<(), RepoError>(())
                        &&& final(self)@ == after_save(old(self)@, save@)
                    },
                },
                Err(message) => {
                    &&& next matches SaveNext::Finished { discard, result }
                    &&& crate::messages::optional_text(discard) == if leaves_temporary(
                        save@.stage,
                    ) {
                        Some(save@.temporary)
                    } else {
                        None
                    }
                    &&& result matches Err(e)
                    &&& e@ == RepoErrorModel::Io(
                        io_text(stage_failure(save@).0, stage_failure(save@).1, message@),
                    )
                    &&& final(self)@ == old(self)@
                },
            },
    {
        if let Err(message) = outcome {
            let error = save.failure(message.as_str());
            let discard = if save.stage == SaveStage::MakeDirectory || save.stage
                == SaveStage::CreateTemporary {
                None
            } else {
                Some(save.temporary)
            };
            return SaveNext::Finished { discard, result: Err(error) };
        }
        let stage = match save.stage {
            SaveStage::MakeDirectory => SaveStage::CreateTemporary,
            SaveStage::CreateTemporary => SaveStage::WriteTemporary,
            SaveStage::WriteTemporary => SaveStage::FlushTemporary,
            SaveStage::FlushTemporary => SaveStage::Rotate,
            SaveStage::Rotate => SaveStage::Replace,
            SaveStage::Replace => {
                self.last_hash = Some(save.hash);
                return SaveNext::Finished { discard: None, result: Ok(()) };
            },
        };
        SaveNext::Continue(Save { stage, ..save })
    }
}

impl Save {
    /// The operation that this save makes next.
    pub fn action(&self) -> (action: FileAction)
        requires
            save_wf(self@),
        ensures
            action@ == next_action(self@),
    {
        match self.stage {
            SaveStage::MakeDirectory => FileAction::CreateDirectory(self.directory_text()),
            SaveStage::CreateTemporary => FileAction::CreateFile(self.temporary.clone()),
            SaveStage::WriteTemporary => FileAction::WriteFile(self.temporary.clone()),
            SaveStage::FlushTemporary => FileAction::FlushFile(self.temporary.clone()),
            SaveStage::Rotate => FileAction::CopyIfPresent {
                from: self.main.clone(),
                to: self.backup.clone(),
            },
            SaveStage::Replace => FileAction::Rename {
                from: self.temporary.clone(),
                to: self.main.clone(),
            },
        }
    }

    fn directory_text(&self) -> (text: String)
        requires
            self@.directory is Some,
        ensures
            text@ == self@.directory->Some_0,
    {
        match &self.directory {
            Some(directory) => directory.clone(),
            None => String::new(),
        }
    }

    fn failure(&self, message: &str) -> (error: RepoError)
        requires
            save_wf(self@),
        ensures
            error@ == RepoErrorModel::Io(
                io_text(stage_failure(self@).0, stage_failure(self@).1, message@),
            ),
    {
        match self.stage {
            SaveStage::MakeDirectory => io_error(
                "create store directory",
                self.directory_text().as_str(),
                message,
            ),
            SaveStage::CreateTemporary => io_error(
                "create temporary store file",
                self.temporary.as_str(),
                message,
            ),
            SaveStage::WriteTemporary => io_error(
                "write temporary store file",
                self.temporary.as_str(),
                message,
            ),
            SaveStage::FlushTemporary => io_error(
                "flush temporary store file",
                self.temporary.as_str(),
                message,
            ),
            SaveStage::Rotate => io_error(
                "rotate store file into backup",
                self.backup.as_str(),
                message,
            ),
            SaveStage::Replace => io_error("replace store file", self.main.as_str(), message),
        }
    }
}

/// The path with `suffix` behind its file name.
pub fn sibling_with_suffix(path: &str, suffix: &str) -> (sibling: Result<String, RepoError>)
    ensures
        match sibling {
            Ok(p) => path::names_a_file(path@) && p@ == path::suffixed(path@, suffix@),
            Err(e) => !path::names_a_file(path@) && e@ == no_file_name(path@),
        },
{
    match path::with_suffix(path, suffix) {
        Some(sibling) => Ok(sibling),
        None => {
            let mut message = String::from_str("store path has no file name component: ");
            message.append(path);
            Err(RepoError::Io(message))
        },
    }
}

// ----- what the operations do to the disk

/// The files on a disk and what they hold. Directories are not modelled.
pub type Disk = Map<Seq<char>, Seq<char>>;

/// Whether an operation can take a disk from `before` to `after`. An operation
/// that did not complete, because it failed or because the machine stopped, may
/// leave the file it writes in any state; a rename is made at once or not at all.
pub open spec fn can_do(
    action: FileActionModel,
    document: Seq<char>,
    completed: bool,
    before: Disk,
    after: Disk,
) -> bool {
    match action {
        FileActionModel::CreateDirectory(_) => after == before,
        FileActionModel::CreateFile(file) => {
            &&& after.remove(file) == before.remove(file)
            &&& completed ==> after.contains_key(file) && after[file] == Seq::<char>::empty()
        },
        FileActionModel::WriteFile(file) => {
            &&& after.remove(file) == before.remove(file)
            &&& completed ==> after.contains_key(file) && after[file] == document
        },
        FileActionModel::FlushFile(_) => after == before,
        FileActionModel::CopyIfPresent { from, to } => if before.contains_key(from) {
            &&& after.remove(to) == before.remove(to)
            &&& completed ==> after.contains_key(to) && after[to] == before[from]
        } else {
            after == before
        },
        FileActionModel::Rename { from, to } => if completed {
            before.contains_key(from) && after == before.remove(from).insert(to, before[from])
        } else {
            after == before
        },
    }
}

/// What a file on a disk holds; `None` when there is no such file.
pub open spec fn held(disk: Disk, file: Seq<char>) -> Option<Seq<char>> {
    if disk.contains_key(file) {
        Some(disk[file])
    } else {
        None
    }
}

/// The temporary file, the backup and the document are three files.
pub proof fn three_different_files(main: Seq<char>)
    requires
        path::names_a_file(main),
    ensures
        temporary_path(main) != main,
        backup_path(main) != main,
        temporary_path(main) != backup_path(main),
{
    reveal_strlit(".tmp");
    reveal_strlit(".bak");
    path::name_bounds(main);
    let t = temporary_path(main);
    let b = backup_path(main);
    let end = path::name_end(main);
    assert(t.len() == end + 4);
    assert(b.len() == end + 4);
    assert(t[end + 1] == ".tmp"@[1]);
    assert(b[end + 1] == ".bak"@[1]);
    if end < main.len() {
        assert(path::is_slash(main.last()) || main.last() == '.');
        assert(t.last() == 'p');
        assert(b.last() == 'k');
    }
}

/// Whether a save writes beside the document, under names of their own.
pub open spec fn has_own_files(save: SaveModel) -> bool {
    save.temporary != save.main && save.backup != save.main && save.temporary != save.backup
}

/// No operation of a save, complete or not, takes the document away or leaves it
/// half written: it holds what it held before or, after the rename, what the
/// temporary file held.
pub proof fn document_is_never_half_written(
    save: SaveModel,
    document: Seq<char>,
    completed: bool,
    before: Disk,
    after: Disk,
)
    requires
        has_own_files(save),
        can_do(next_action(save), document, completed, before, after),
    ensures
        held(after, save.main) == held(before, save.main) || (save.stage == SaveStage::Replace
            && completed && held(after, save.main) == held(before, save.temporary)),
{
    match save.stage {
        SaveStage::CreateTemporary | SaveStage::WriteTemporary => {
            kept_beside(before, after, save.temporary, save.main);
        },
        SaveStage::Rotate => {
            if before.contains_key(save.main) {
                kept_beside(before, after, save.backup, save.main);
            }
        },
        _ => {},
    }
}

/// Where only `file` changed, every other file holds what it held.
proof fn kept_beside(before: Disk, after: Disk, file: Seq<char>, other: Seq<char>)
    requires
        after.remove(file) == before.remove(file),
    ensures
        other != file ==> held(after, other) == held(before, other),
{
    if other != file {
        assert(after.contains_key(other) == after.remove(file).contains_key(other));
        assert(before.contains_key(other) == before.remove(file).contains_key(other));
        if after.contains_key(other) {
            assert(after[other] == after.remove(file)[other]);
            assert(before[other] == before.remove(file)[other]);
        }
    }
}

/// A save that goes all the way leaves the new document in place, the one that
/// was there before as the backup, and no temporary file. Where there was none
/// before, the backup stays as it was, and so does every other file. `disks` are
/// the disk before the save and after each of its last five operations.
pub proof fn completed_save_replaces_the_document(
    save: SaveModel,
    document: Seq<char>,
    disks: Seq<Disk>,
    other: Seq<char>,
)
    requires
        has_own_files(save),
        disks.len() == 6,
        can_do(
            next_action(SaveModel { stage: SaveStage::CreateTemporary, ..save }),
            document,
            true,
            disks[0],
            disks[1],
        ),
        can_do(
            next_action(SaveModel { stage: SaveStage::WriteTemporary, ..save }),
            document,
            true,
            disks[1],
            disks[2],
        ),
        can_do(
            next_action(SaveModel { stage: SaveStage::FlushTemporary, ..save }),
            document,
            true,
            disks[2],
            disks[3],
        ),
        can_do(
            next_action(SaveModel { stage: SaveStage::Rotate, ..save }),
            document,
            true,
            disks[3],
            disks[4],
        ),
        can_do(
            next_action(SaveModel { stage: SaveStage::Replace, ..save }),
            document,
            true,
            disks[4],
            disks[5],
        ),
    ensures
        held(disks[5], save.main) == Some(document),
        held(disks[5], save.backup) == if held(disks[0], save.main) is Some {
            held(disks[0], save.main)
        } else {
            held(disks[0], save.backup)
        },
        held(disks[5], save.temporary) is None,
        other != save.main && other != save.temporary && other != save.backup ==> held(
            disks[5],
            other,
        ) == held(disks[0], other),
{
    let files = seq![save.main, save.backup, other];
    assert forall|i: int| 0 <= i < 3 && files[i] != save.temporary implies held(
        disks[3],
        #[trigger] files[i],
    ) == held(disks[0], files[i]) by {
        kept_beside(disks[0], disks[1], save.temporary, files[i]);
        kept_beside(disks[1], disks[2], save.temporary, files[i]);
    }
    assert(files[0] == save.main && files[1] == save.backup && files[2] == other);
    if disks[3].contains_key(save.main) {
        kept_beside(disks[3], disks[4], save.backup, save.temporary);
        kept_beside(disks[3], disks[4], save.backup, other);
    }
}

/// A save makes the directory of the document first, with all those above it,
/// where the path gives one; the operations of
/// [`completed_save_replaces_the_document`] follow.
pub proof fn directory_is_made_first(path: Seq<char>, document: Seq<char>)
    ensures
        ({
            let save = new_save(path, document);
            if path::directory(path).len() > 0 {
                &&& next_action(save) == FileActionModel::CreateDirectory(path::directory(path))
                &&& stage_after(save.stage) == Some(SaveStage::CreateTemporary)
            } else {
                save.stage == SaveStage::CreateTemporary
            }
        }),
        stage_after(SaveStage::CreateTemporary) == Some(SaveStage::WriteTemporary),
        stage_after(SaveStage::WriteTemporary) == Some(SaveStage::FlushTemporary),
        stage_after(SaveStage::FlushTemporary) == Some(SaveStage::Rotate),
        stage_after(SaveStage::Rotate) == Some(SaveStage::Replace),
        stage_after(SaveStage::Replace) is None,
{
}

/// While the document is known to be corrupt or missing no save is skipped,
/// whatever was saved or loaded before.
pub proof fn corrupt_document_is_written_again(repository: RepositoryModel, document: Seq<char>)
    ensures
        !is_current(unremembered(repository), document),
{
}

/// A document that was saved all the way is not written a second time: the next
/// save finds it current.
pub proof fn saved_document_is_current(repository: RepositoryModel, document: Seq<char>)
    ensures
        is_current(after_save(repository, new_save(repository.path, document)), document),
{
}

/// A document that was read is not written back unchanged. One that could not be
/// written out again is not known, so the next save writes.
pub proof fn loaded_document_is_current(
    repository: RepositoryModel,
    document: Result<String, String>,
    other: Seq<char>,
)
    ensures
        document matches Ok(text) ==> is_current(after_load(repository, document), text@),
        document is Err ==> !is_current(after_load(repository, document), other),
{
}

/// A save is skipped only for the document that was saved or read last, as far as
/// fingerprints tell documents apart. A repository that was just made skips none.
pub proof fn only_the_last_document_is_skipped(
    repository: RepositoryModel,
    saved: Seq<char>,
    other: Seq<char>,
)
    ensures
        ({
            let after = after_save(repository, new_save(repository.path, saved));
            &&& after.path == repository.path
            &&& document_hash(other) != document_hash(saved) ==> !is_current(after, other)
        }),
        forall|read: Result<String, String>| #[trigger]
            after_load(repository, read).path == repository.path,
        forall|read: String|
            document_hash(other) != document_hash(read@) ==> !is_current(
                #[trigger] after_load(repository, Ok(read)),
                other,
            ),
        unremembered(repository).path == repository.path,
        repository.last_hash is None ==> !is_current(repository, other),
{
}

/// The fingerprint of a document is that of all its bytes.
pub proof fn fingerprint_is_of_the_whole_document(document: Seq<char>, bytes: Seq<u8>)
    requires
        vstd::utf8::valid_utf8(bytes),
        vstd::utf8::decode_utf8(bytes) == document,
    ensures
        document_hash(document) == DefaultHasher::spec_finish(seq![bytes]),
{
    vstd::utf8::decode_utf8_encode_utf8(bytes);
}

/// A save writes the document under its own path, by way of a file of the same name
/// with `.tmp` behind it, and keeps the old one under that name with `.bak` behind
/// it.
pub proof fn save_has_the_files_of_its_path(main: Seq<char>, document: Seq<char>)
    ensures
        ({
            let save = new_save(main, document);
            let name = main.take(path::name_end(main));
            &&& save.main == main
            &&& save.temporary == name + seq!['.', 't', 'm', 'p']
            &&& save.backup == name + seq!['.', 'b', 'a', 'k']
            &&& save.hash == document_hash(document)
            &&& save.directory == if path::directory(main).len() > 0 {
                Some(path::directory(main))
            } else {
                None
            }
        }),
{
    reveal_strlit(".tmp");
    reveal_strlit(".bak");
    assert(".tmp"@ =~= seq!['.', 't', 'm', 'p']);
    assert(".bak"@ =~= seq!['.', 'b', 'a', 'k']);
}

/// A save that fails once the temporary file was created has it removed, and names
/// the file that the failed operation was for.
pub proof fn failed_save_leaves_no_temporary_file(save: SaveModel)
    requires
        save_wf(save),
    ensures
        match next_action(save) {
            FileActionModel::CreateDirectory(directory) => !leaves_temporary(save.stage)
                && stage_failure(save).1 == directory,
            FileActionModel::CreateFile(file) => !leaves_temporary(save.stage) && file
                == save.temporary && stage_failure(save).1 == file,
            FileActionModel::WriteFile(file) => leaves_temporary(save.stage) && file
                == save.temporary && stage_failure(save).1 == file,
            FileActionModel::FlushFile(file) => leaves_temporary(save.stage) && file
                == save.temporary && stage_failure(save).1 == file,
            FileActionModel::CopyIfPresent { from, to } => leaves_temporary(save.stage) && from
                == save.main && to == save.backup && stage_failure(save).1 == to,
            FileActionModel::Rename { from, to } => leaves_temporary(save.stage) && from
                == save.temporary && to == save.main && stage_failure(save).1 == to,
        },
{
}

/// An operation that failed is told with what was to be done, the path between brackets
/// and the reason.
pub proof fn failed_operation_is_told(
    action: Seq<char>,
    path: Seq<char>,
    error: Seq<char>,
    save: SaveModel,
)
    ensures
        io_text(action, path, error) == "failed to "@ + action + " ("@ + path + "): "@ + error,
        no_file_name(path) == RepoErrorModel::Io(
            "store path has no file name component: "@ + path,
        ),
        save.stage is MakeDirectory ==> stage_failure(save).0 == "create store directory"@,
        save.stage is MakeDirectory && save.directory is Some ==> Some(stage_failure(save).1)
            == save.directory,
        save.stage is CreateTemporary ==> stage_failure(save) == (
            "create temporary store file"@,
            save.temporary,
        ),
        save.stage is WriteTemporary ==> stage_failure(save) == (
            "write temporary store file"@,
            save.temporary,
        ),
        save.stage is FlushTemporary ==> stage_failure(save) == (
            "flush temporary store file"@,
            save.temporary,
        ),
        save.stage is Rotate ==> stage_failure(save) == (
            "rotate store file into backup"@,
            save.backup,
        ),
        save.stage is Replace ==> stage_failure(save) == ("replace store file"@, save.main),
{
}

/// The store is a document of its name, in the directory of the application, which lies
/// in the data directory, wherever that is, unless it is a share.
pub proof fn store_lies_in_the_data_directory(app_data: Seq<char>)
    requires
        !path::has_two_slashes(app_data),
        app_data.len() > 0,
    ensures
        path::last_component(store_location(app_data)) == "profiles.json"@,
        path::last_component(path::directory(store_location(app_data))) == "Resonance"@,
        store_location(app_data).take(app_data.len() as int) == app_data,
{
    reveal_strlit("Resonance");
    reveal_strlit("profiles.json");
    let name = "Resonance"@;
    let file = "profiles.json"@;
    assert(name.last() == 'e');
    assert(name != seq!['.']) by {
        assert(name.len() == 9);
    }
    assert(name != seq!['.', '.']) by {
        assert(name.len() == 9);
    }
    assert(file != seq!['.']) by {
        assert(file.len() == 13);
    }
    assert(file != seq!['.', '.']) by {
        assert(file.len() == 13);
    }
    assert(path::is_plain_name(name));
    assert(path::is_plain_name(file));
    let inner = path::joined(app_data, name);
    path::joined_file_has_its_name(app_data, name);
    assert(!path::has_two_slashes(inner)) by {
        if app_data.len() >= 2 {
            assert(inner[0] == inner.take(app_data.len() as int)[0]);
            assert(inner[1] == inner.take(app_data.len() as int)[1]);
        } else if path::has_two_slashes(inner) {
            assert(inner[0] == inner.take(1)[0]);
            assert(inner == app_data + name);
            assert(inner[1] == name[0]);
        }
    }
    assert(inner.last() == 'e') by {
        assert(inner.last() == name.last());
    }
    path::joined_file_has_its_name(inner, file);
    let whole = store_location(app_data);
    assert(whole.take(app_data.len() as int) =~= whole.take(inner.len() as int).take(
        app_data.len() as int,
    ));
}

/// A save writes the document unless it is known to be on disk or cannot be had: then
/// nothing is written, and only the latter is an error.
pub proof fn save_writes_what_is_new(
    repository: &JsonFileRepository,
    document: &Result<String, String>,
    start: SaveStart,
)
    requires
        call_ensures(JsonFileRepository::save, (repository, document), start),
    ensures
        document is Err ==> start matches SaveStart::Finished(Err(_)),
        document matches Ok(text) ==> {
            let known = repository@.last_hash == Some(document_hash(text@));
            &&& start == SaveStart::Finished(Ok(())) <==> known
            &&& start is Write <==> !known && path::names_a_file(repository@.path)
            &&& start matches SaveStart::Write(save) ==> save@.hash == document_hash(text@)
                && save@.main == repository@.path
        },
{
}

/// A backup that can be read is what is loaded; of two corrupt files the error names
/// both, and why each cannot be read.
pub proof fn readable_backup_is_loaded(
    repository: &JsonFileRepository,
    main_error: &str,
    read: BackupRead,
    loaded: Result<ProfileStore, RepoError>,
)
    requires
        call_ensures(JsonFileRepository::load_from_backup, (repository, main_error, read), loaded),
    ensures
        read matches BackupRead::Parsed(store) ==> loaded == Ok::<ProfileStore, RepoError>(store),
        loaded is Ok <==> read is Parsed,
        loaded matches Err(error) ==> error@ is Deserialize,
{
}

/// The store lies below the data directory, and there is no place for it where that is
/// empty or unknown.
pub proof fn store_needs_a_data_directory(
    app_data: Result<String, String>,
    place: Result<String, RepoError>,
)
    requires
        call_ensures(JsonFileRepository::app_data_path, (app_data,), place),
    ensures
        place is Ok <==> app_data is Ok && app_data->Ok_0@.len() > 0,
        place matches Ok(path) ==> path@ == store_location(app_data->Ok_0@),
        place matches Err(error) ==> error@ is Io,
{
}

} // verus!
