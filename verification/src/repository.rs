//! Loading and saving the profile store.

use crate::store::ProfileStore;
use crate::store;
use vstd::prelude::*;
use vstd::string::*;

verus! {

/// Why a repository could not load or save. Each variant carries the message of
/// the underlying failure.
#[derive(Debug, Clone, PartialEq, Eq)]
pub enum RepoError {
    Io(String),
    Serialize(String),
    Deserialize(String),
}

/// What a [`RepoError`] holds.
pub enum RepoErrorModel {
    Io(Seq<char>),
    Serialize(Seq<char>),
    Deserialize(Seq<char>),
}

impl View for RepoError {
    type V = RepoErrorModel;

    open spec fn view(&self) -> RepoErrorModel {
        match self {
            RepoError::Io(message) => RepoErrorModel::Io(message@),
            RepoError::Serialize(message) => RepoErrorModel::Serialize(message@),
            RepoError::Deserialize(message) => RepoErrorModel::Deserialize(message@),
        }
    }
}

/// What an optional error holds.
pub open spec fn optional_error(error: Option<RepoError>) -> Option<RepoErrorModel> {
    match error {
        Some(e) => Some(e@),
        None => None,
    }
}

/// The text shown for an error.
pub open spec fn error_text(error: RepoErrorModel) -> Seq<char> {
    match error {
        RepoErrorModel::Io(message) => "repository I/O error: "@ + message,
        RepoErrorModel::Serialize(message) => "repository serialize error: "@ + message,
        RepoErrorModel::Deserialize(message) => "repository deserialize error: "@ + message,
    }
}

impl RepoError {
    /// The text shown for this error.
    pub fn describe(&self) -> (text: String)
        ensures
            text@ == error_text(self@),
    {
        let (prefix, message) = match self {
            RepoError::Io(message) => ("repository I/O error: ", message),
            RepoError::Serialize(message) => ("repository serialize error: ", message),
            RepoError::Deserialize(message) => ("repository deserialize error: ", message),
        };
        let mut text = String::from_str(prefix);
        text.append(message.as_str());
        text
    }
}

/// Loads and saves the [`ProfileStore`]. Loading where nothing was saved yet
/// gives the default store: that is no error.
pub trait ProfileRepository {
    fn load(&self) -> (loaded: Result<ProfileStore, RepoError>)
        ensures
            loaded matches Ok(store) ==> store.wf(),
    ;

    fn save(&mut self, store: &ProfileStore) -> (saved: Result<(), RepoError>)
        requires
            store.wf(),
    ;
}

/// A repository that keeps the store in memory.
#[derive(Debug)]
pub struct InMemoryRepository {
    state: Option<ProfileStore>,
}

impl InMemoryRepository {
    #[verifier::type_invariant]
    spec fn holds_well_formed_store(&self) -> bool {
        self.state matches Some(store) ==> store.wf()
    }

    /// What a load gives back.
    pub closed spec fn contents(&self) -> store::StoreModel {
        match self.state {
            Some(store) => store@,
            None => store::empty_store(),
        }
    }

    /// A repository that nothing was saved to.
    pub fn new() -> (repository: Self)
        ensures
            repository.contents() == store::empty_store(),
    {
        InMemoryRepository { state: None }
    }

    /// A repository to which `store` was saved.
    pub fn seeded(store: ProfileStore) -> (repository: Self)
        requires
            store.wf(),
        ensures
            repository.contents() == store@,
    {
        InMemoryRepository { state: Some(store) }
    }
}

impl ProfileRepository for InMemoryRepository {
    fn load(&self) -> (loaded: Result<ProfileStore, RepoError>)
        ensures
            loaded is Ok,
            loaded->Ok_0@ == self.contents(),
    {
        proof {
            use_type_invariant(self);
        }
        match &self.state {
            Some(store) => Ok(store.clone()),
            None => Ok(ProfileStore::default()),
        }
    }

    fn save(&mut self, store: &ProfileStore) -> (saved: Result<(), RepoError>)
        ensures
            saved is Ok,
            final(self).contents() == store@,
    {
        let copy = store.clone();
        self.state = Some(copy);
        Ok(())
    }
}

/// An error says what the repository was doing, and why that failed.
pub proof fn error_says_what_failed(message: Seq<char>)
    ensures
        error_text(RepoErrorModel::Io(message)) == "repository I/O error: "@ + message,
        error_text(RepoErrorModel::Serialize(message)) == "repository serialize error: "@ + message,
        error_text(RepoErrorModel::Deserialize(message)) == "repository deserialize error: "@
            + message,
{
}

} // verus!
