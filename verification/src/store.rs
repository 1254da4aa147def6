//! The profiles and settings that outlive a run.

use crate::messages::{HotkeyConfig, RoleSet};
use crate::messages;
use crate::single::Single;
use crate::table;
use crate::table::Table;
use crate::text;
use crate::time::Timestamp;
use vstd::prelude::*;

verus! {

/// Version of the stored document that this library writes.
pub const SCHEMA_VERSION: u32 = 1;

/// Bit pattern of the overlay's default opacity, `0.9`.
pub const DEFAULT_OPACITY_BITS: u32 = 0x3F66_6666;

/// Days after which an endpoint that was not seen is dropped, by default.
pub const DEFAULT_PRUNE_AFTER_DAYS: u32 = 90;

/// What is remembered of one program on one endpoint.
#[derive(Debug, Clone, Copy, PartialEq, Eq, Structural)]
pub struct SessionEntry {
    /// From `0.0` to `1.0`.
    pub volume: Single,
    pub muted: bool,
    pub updated_at: Timestamp,
}

/// A place on the screen.
#[derive(Debug, Clone, Copy, PartialEq, Eq, Structural)]
pub struct Position {
    pub x: Single,
    pub y: Single,
}

/// The user's settings.
#[derive(Debug, Clone, Copy, PartialEq, Eq, Structural)]
pub struct Settings {
    pub switch_roles: RoleSet,
    pub overlay_position: Option<Position>,
    pub overlay_opacity: Single,
    pub autostart: bool,
    /// Drop endpoints not seen for this many days; zero keeps them all.
    pub prune_after_days: u32,
    pub hotkey: HotkeyConfig,
    pub widget_visible: bool,
    pub widget_position: Option<Position>,
}

/// The settings the product ships with.
pub open spec fn default_settings() -> Settings {
    Settings {
        switch_roles: messages::all_roles(),
        overlay_position: None,
        overlay_opacity: Single { bits: DEFAULT_OPACITY_BITS },
        autostart: false,
        prune_after_days: DEFAULT_PRUNE_AFTER_DAYS,
        hotkey: messages::default_hotkey(),
        widget_visible: true,
        widget_position: None,
    }
}

impl Default for Settings {
    fn default() -> (settings: Self)
        ensures
            settings == default_settings(),
    {
        Settings {
            switch_roles: RoleSet::all(),
            overlay_position: None,
            overlay_opacity: Single { bits: DEFAULT_OPACITY_BITS },
            autostart: false,
            prune_after_days: DEFAULT_PRUNE_AFTER_DAYS,
            hotkey: HotkeyConfig::default(),
            widget_visible: true,
            widget_position: None,
        }
    }
}

/// The settings as a stored document holds them: a key that the document does
/// not have is `None`. For the two positions that is also the stored value.
#[derive(Debug, Clone, Copy, PartialEq, Eq, Structural)]
pub struct SettingsDocument {
    pub switch_roles: Option<RoleSet>,
    pub overlay_position: Option<Position>,
    pub overlay_opacity: Option<Single>,
    pub autostart: Option<bool>,
    pub prune_after_days: Option<u32>,
    pub hotkey: Option<HotkeyConfig>,
    pub widget_visible: Option<bool>,
    pub widget_position: Option<Position>,
}

/// The value of a key: what the document holds, or the default where the key is
/// missing.
pub open spec fn or_default<T>(stored: Option<T>, default: T) -> T {
    match stored {
        Some(value) => value,
        None => default,
    }
}

/// The settings of a document: each missing key takes the value the product
/// ships with.
pub open spec fn settings_of(document: SettingsDocument) -> Settings {
    let default = default_settings();
    Settings {
        switch_roles: or_default(document.switch_roles, default.switch_roles),
        overlay_position: document.overlay_position,
        overlay_opacity: or_default(document.overlay_opacity, default.overlay_opacity),
        autostart: or_default(document.autostart, default.autostart),
        prune_after_days: or_default(document.prune_after_days, default.prune_after_days),
        hotkey: or_default(document.hotkey, default.hotkey),
        widget_visible: or_default(document.widget_visible, default.widget_visible),
        widget_position: document.widget_position,
    }
}

impl SettingsDocument {
    /// The settings of the document. Each missing key, and no other, takes the
    /// value the product ships with.
    pub fn into_settings(self) -> (settings: Settings)
        ensures
            settings == settings_of(self),
    {
        let default = Settings::default();
        Settings {
            switch_roles: self.switch_roles.unwrap_or(default.switch_roles),
            overlay_position: self.overlay_position,
            overlay_opacity: self.overlay_opacity.unwrap_or(default.overlay_opacity),
            autostart: self.autostart.unwrap_or(default.autostart),
            prune_after_days: self.prune_after_days.unwrap_or(default.prune_after_days),
            hotkey: self.hotkey.unwrap_or(default.hotkey),
            widget_visible: self.widget_visible.unwrap_or(default.widget_visible),
            widget_position: self.widget_position,
        }
    }

    /// The document that holds every key of `settings`.
    pub fn of_settings(settings: &Settings) -> (document: SettingsDocument)
        ensures
            document == full_document(*settings),
    {
        SettingsDocument {
            switch_roles: Some(settings.switch_roles),
            overlay_position: settings.overlay_position,
            overlay_opacity: Some(settings.overlay_opacity),
            autostart: Some(settings.autostart),
            prune_after_days: Some(settings.prune_after_days),
            hotkey: Some(settings.hotkey),
            widget_visible: Some(settings.widget_visible),
            widget_position: settings.widget_position,
        }
    }
}

/// The document that holds every key of `settings`.
pub open spec fn full_document(settings: Settings) -> SettingsDocument {
    SettingsDocument {
        switch_roles: Some(settings.switch_roles),
        overlay_position: settings.overlay_position,
        overlay_opacity: Some(settings.overlay_opacity),
        autostart: Some(settings.autostart),
        prune_after_days: Some(settings.prune_after_days),
        hotkey: Some(settings.hotkey),
        widget_visible: Some(settings.widget_visible),
        widget_position: settings.widget_position,
    }
}

/// What is remembered of one endpoint.
#[derive(Debug)]
pub struct EndpointProfile {
    /// For display; empty when no name is known.
    pub friendly_name: String,
    pub last_seen: Timestamp,
    pub sessions: Table<SessionEntry>,
}

/// What an [`EndpointProfile`] holds.
pub struct ProfileModel {
    pub friendly_name: Seq<char>,
    pub last_seen: Timestamp,
    pub sessions: Map<Seq<char>, SessionEntry>,
}

impl View for EndpointProfile {
    type V = ProfileModel;

    open spec fn view(&self) -> ProfileModel {
        ProfileModel {
            friendly_name: self.friendly_name@,
            last_seen: self.last_seen,
            sessions: self.sessions@,
        }
    }
}

impl EndpointProfile {
    /// No program has two entries.
    pub open spec fn wf(&self) -> bool {
        self.sessions.wf()
    }
}

/// Two maps that hold each other are the same.
proof fn within_both_ways<V>(a: Map<Seq<char>, V>, b: Map<Seq<char>, V>)
    requires
        a.submap_of(b),
        b.submap_of(a),
    ensures
        a == b,
{
    assert forall|k: Seq<char>| a.dom().contains(k) == b.dom().contains(k) by {}
    assert(a =~= b);
}

/// Whether every entry of `a` is in `b` as well.
fn entries_within(a: &Table<SessionEntry>, b: &Table<SessionEntry>) -> (yes: bool)
    requires
        a.wf(),
        b.wf(),
    ensures
        yes == a@.submap_of(b@),
{
    let mut i: usize = 0;
    while i < a.len()
        invariant
            a.wf(),
            b.wf(),
            i <= a.keys().len(),
            forall|j: int|
                0 <= j < i ==> b@.contains_key(#[trigger] a.keys()[j]) && b@[a.keys()[j]]
                    == a@[a.keys()[j]],
        decreases a.keys().len() - i,
    {
        let (key, entry) = a.entry_at(i);
        match b.get(key.as_str()) {
            Some(other) => {
                if *entry != *other {
                    return false;
                }
            },
            None => {
                return false;
            },
        }
        i += 1;
    }
    proof {
        table::keys_are_the_domain(*a);
        assert forall|k: Seq<char>| #[trigger] a@.dom().contains(k) implies b@.dom().contains(k)
            && a@[k] == b@[k] by {
            assert(a.keys().to_set().contains(k));
            let j = choose|j: int| 0 <= j < a.keys().len() && a.keys()[j] == k;
            assert(b@.contains_key(a.keys()[j]));
        }
    }
    true
}

impl EndpointProfile {
    /// Whether the two profiles hold the same.
    pub fn same(&self, other: &EndpointProfile) -> (yes: bool)
        requires
            self.wf(),
            other.wf(),
        ensures
            yes == (self@ == other@),
    {
        if !text::same(self.friendly_name.as_str(), other.friendly_name.as_str())
            || self.last_seen != other.last_seen {
            return false;
        }
        let yes = entries_within(&self.sessions, &other.sessions) && entries_within(
            &other.sessions,
            &self.sessions,
        );
        proof {
            if yes {
                within_both_ways(self.sessions@, other.sessions@);
            }
        }
        yes
    }
}

impl Clone for EndpointProfile {
    fn clone(&self) -> (copy: Self)
        ensures
            self.wf() ==> copy@ == self@,
            self.wf() ==> copy.wf(),
    {
        let sessions = self.sessions.clone();
        assert(self.wf() ==> sessions@ =~= self.sessions@);
        EndpointProfile {
            friendly_name: self.friendly_name.clone(),
            last_seen: self.last_seen,
            sessions,
        }
    }
}

/// Everything that outlives a run.
#[derive(Debug)]
pub struct ProfileStore {
    pub schema_version: u32,
    pub endpoints: Table<EndpointProfile>,
    pub settings: Settings,
}

/// What a [`ProfileStore`] holds.
pub struct StoreModel {
    pub schema_version: u32,
    pub endpoints: Map<Seq<char>, ProfileModel>,
    pub settings: Settings,
}

/// The models of a map of profiles.
pub open spec fn profile_models(profiles: Map<Seq<char>, EndpointProfile>) -> Map<
    Seq<char>,
    ProfileModel,
> {
    profiles.map_values(|profile: EndpointProfile| profile@)
}

impl View for ProfileStore {
    type V = StoreModel;

    open spec fn view(&self) -> StoreModel {
        StoreModel {
            schema_version: self.schema_version,
            endpoints: profile_models(self.endpoints@),
            settings: self.settings,
        }
    }
}

/// The store of a first run: no endpoints, and the default settings.
pub open spec fn empty_store() -> StoreModel {
    StoreModel {
        schema_version: SCHEMA_VERSION,
        endpoints: Map::empty(),
        settings: default_settings(),
    }
}

impl ProfileStore {
    /// No endpoint has two profiles, and no profile two entries for one program.
    pub open spec fn wf(&self) -> bool {
        &&& self.endpoints.wf()
        &&& forall|id: Seq<char>| #[trigger]
            self.endpoints@.contains_key(id) ==> self.endpoints@[id].wf()
    }
}

impl Default for ProfileStore {
    fn default() -> (store: Self)
        ensures
            store.wf(),
            store@ == empty_store(),
    {
        let store = ProfileStore {
            schema_version: SCHEMA_VERSION,
            endpoints: Table::new(),
            settings: Settings::default(),
        };
        assert(store@.endpoints =~= Map::<Seq<char>, ProfileModel>::empty());
        store
    }
}

/// Whether every profile of `a` is in `b` as well.
fn profiles_within(a: &Table<EndpointProfile>, b: &Table<EndpointProfile>) -> (yes: bool)
    requires
        a.wf(),
        b.wf(),
        forall|id: Seq<char>| #[trigger] a@.contains_key(id) ==> a@[id].wf(),
        forall|id: Seq<char>| #[trigger] b@.contains_key(id) ==> b@[id].wf(),
    ensures
        yes == profile_models(a@).submap_of(profile_models(b@)),
{
    let mut i: usize = 0;
    while i < a.len()
        invariant
            a.wf(),
            b.wf(),
            forall|id: Seq<char>| #[trigger] a@.contains_key(id) ==> a@[id].wf(),
            forall|id: Seq<char>| #[trigger] b@.contains_key(id) ==> b@[id].wf(),
            i <= a.keys().len(),
            forall|j: int|
                0 <= j < i ==> b@.contains_key(#[trigger] a.keys()[j]) && b@[a.keys()[j]]@
                    == a@[a.keys()[j]]@,
        decreases a.keys().len() - i,
    {
        let (key, profile) = a.entry_at(i);
        match b.get(key.as_str()) {
            Some(other) => {
                if !profile.same(other) {
                    assert(profile_models(a@).dom().contains(key@));
                    assert(profile_models(a@)[key@] == profile@);
                    assert(profile_models(b@).dom().contains(key@));
                    assert(profile_models(b@)[key@] == other@);
                    assert(profile_models(a@)[key@] != profile_models(b@)[key@]);
                    return false;
                }
            },
            None => {
                assert(profile_models(a@).dom().contains(key@));
                assert(!profile_models(b@).dom().contains(key@));
                return false;
            },
        }
        i += 1;
    }
    proof {
        table::keys_are_the_domain(*a);
        assert forall|k: Seq<char>| #[trigger] profile_models(a@).dom().contains(k) implies
            profile_models(b@).dom().contains(k) && profile_models(a@)[k] == profile_models(
            b@,
        )[k] by {
            assert(a.keys().to_set().contains(k));
            let j = choose|j: int| 0 <= j < a.keys().len() && a.keys()[j] == k;
            assert(b@.contains_key(a.keys()[j]));
        }
    }
    true
}

impl ProfileStore {
    /// Whether the two stores hold the same.
    pub fn same(&self, other: &ProfileStore) -> (yes: bool)
        requires
            self.wf(),
            other.wf(),
        ensures
            yes == (self@ == other@),
    {
        if self.schema_version != other.schema_version || self.settings != other.settings {
            return false;
        }
        let yes = profiles_within(&self.endpoints, &other.endpoints) && profiles_within(
            &other.endpoints,
            &self.endpoints,
        );
        proof {
            if yes {
                within_both_ways(self@.endpoints, other@.endpoints);
            }
        }
        yes
    }
}

impl Clone for ProfileStore {
    fn clone(&self) -> (copy: Self)
        ensures
            self.wf() ==> copy@ == self@,
            self.wf() ==> copy.wf(),
    {
        let copy = ProfileStore {
            schema_version: self.schema_version,
            endpoints: self.endpoints.clone(),
            settings: self.settings,
        };
        assert(self.wf() ==> copy@.endpoints =~= self@.endpoints);
        copy
    }
}

/// A document that holds every key gives back the settings it was made from.
pub proof fn full_document_reads_back(settings: Settings)
    ensures
        settings_of(full_document(settings)) == settings,
{
}

/// A document without any key gives the settings the product ships with.
pub proof fn empty_document_is_the_default(document: SettingsDocument)
    requires
        document.switch_roles is None,
        document.overlay_position is None,
        document.overlay_opacity is None,
        document.autostart is None,
        document.prune_after_days is None,
        document.hotkey is None,
        document.widget_visible is None,
        document.widget_position is None,
    ensures
        settings_of(document) == default_settings(),
{
}

/// A first run starts without profiles, and with these settings: a switch changes
/// every role, the overlay is at no place of its own and nine tenths opaque, the
/// program does not start with Windows, profiles are kept for 90 days, the shortcut is
/// Ctrl+Alt+V, and the widget is shown at no place of its own.
pub proof fn first_run_settings()
    ensures
        ({
            let store = empty_store();
            let settings = store.settings;
            &&& store.schema_version == 1
            &&& forall|id: Seq<char>| !(#[trigger] store.endpoints.contains_key(id))
            &&& settings.switch_roles.console
            &&& settings.switch_roles.multimedia
            &&& settings.switch_roles.communications
            &&& settings.overlay_position is None
            &&& settings.overlay_opacity.bits == 0x3F66_6666
            &&& !settings.autostart
            &&& settings.prune_after_days == 90
            &&& settings.hotkey.ctrl && settings.hotkey.alt && !settings.hotkey.shift
                && !settings.hotkey.win
            &&& settings.hotkey.key == 'V' as u32
            &&& settings.widget_visible
            &&& settings.widget_position is None
        }),
{
}

/// Every key that a document has is taken from it, whatever other keys it has; every
/// key that it lacks takes the value of a first run.
pub proof fn keys_are_read_one_by_one(document: SettingsDocument)
    ensures
        ({
            let read = settings_of(document);
            let first = empty_store().settings;
            &&& document.switch_roles == Some(read.switch_roles) || (document.switch_roles is None
                && read.switch_roles == first.switch_roles)
            &&& document.overlay_opacity == Some(read.overlay_opacity) || (document.overlay_opacity
                is None && read.overlay_opacity == first.overlay_opacity)
            &&& document.autostart == Some(read.autostart) || (document.autostart is None
                && read.autostart == first.autostart)
            &&& document.prune_after_days == Some(read.prune_after_days) || (
            document.prune_after_days is None && read.prune_after_days == first.prune_after_days)
            &&& document.hotkey == Some(read.hotkey) || (document.hotkey is None && read.hotkey
                == first.hotkey)
            &&& document.widget_visible == Some(read.widget_visible) || (document.widget_visible
                is None && read.widget_visible == first.widget_visible)
            &&& document.overlay_position == read.overlay_position
            &&& document.widget_position == read.widget_position
        }),
{
}

/// A document that is written out has every key, with the value of the settings.
pub proof fn every_key_is_written(settings: Settings)
    ensures
        ({
            let document = full_document(settings);
            &&& document.switch_roles == Some(settings.switch_roles)
            &&& document.overlay_position == settings.overlay_position
            &&& document.overlay_opacity == Some(settings.overlay_opacity)
            &&& document.autostart == Some(settings.autostart)
            &&& document.prune_after_days == Some(settings.prune_after_days)
            &&& document.hotkey == Some(settings.hotkey)
            &&& document.widget_visible == Some(settings.widget_visible)
            &&& document.widget_position == settings.widget_position
        }),
{
}

} // verus!
