use resonance::manager::StateManager;
use resonance::repository::{InMemoryRepository, ProfileRepository, RepoError};
use resonance::store::{EndpointProfile, ProfileStore};
use resonance::table::Table;

#[test]
fn load_on_empty_repository_returns_default_store() {
    let repo = InMemoryRepository::new();
    let loaded = repo.load().expect("load should not fail");
    assert!(loaded.same(&ProfileStore::default()));
}

#[test]
fn repository_save_then_load_round_trips() {
    let mut repo = InMemoryRepository::new();
    let mut store = ProfileStore::default();
    let now = StateManager::from_store(ProfileStore::default()).reading().wall;
    store.endpoints.insert(
        "{endpoint-guid}".to_string(),
        EndpointProfile {
            friendly_name: "Headphones".to_string(),
            last_seen: now,
            sessions: Table::new(),
        },
    );

    repo.save(&store).expect("save should not fail");
    let loaded = repo.load().expect("load should not fail");
    assert!(loaded.same(&store));
}

#[test]
fn seeded_repository_loads_seed() {
    let store = ProfileStore::default();
    let repo = InMemoryRepository::seeded(store.clone());
    let loaded = repo.load().expect("load should not fail");
    assert!(loaded.same(&store));
}

#[test]
fn errors_say_what_failed() {
    assert_eq!(
        RepoError::Io("no disk".to_string()).describe(),
        "repository I/O error: no disk"
    );
    assert_eq!(
        RepoError::Serialize("key".to_string()).describe(),
        "repository serialize error: key"
    );
    assert_eq!(
        RepoError::Deserialize("eof".to_string()).describe(),
        "repository deserialize error: eof"
    );
}
