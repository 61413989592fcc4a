//! Per-game profiles: which game is being started, and the settings saved
//! for each game.
use vstd::prelude::*;

use crate::settings::{default_settings, GamescopeSettings, Resolution};
use crate::args::byte_args;
use crate::text::{
    copy_bytes, lemma_text_less_total, lemma_text_less_transitive, lossy_text, str_less, text_equal,
    text_less, trim, trim_str, utf8_lossy,
};

verus! {

/// The schema version that the store is written with.
pub const CURRENT_SCHEMA_VERSION: u32 = 2;

/// The settings saved for one game, with what identified it.
#[derive(Debug, PartialEq, Eq)]
pub struct GameProfile {
    pub label: String,
    pub command_hash: String,
    pub updated_at_unix_secs: u64,
    pub settings: GamescopeSettings,
}

impl Clone for GameProfile {
    fn clone(&self) -> (copy: Self)
        ensures
            copy == *self,
    {
        GameProfile {
            label: self.label.clone(),
            command_hash: self.command_hash.clone(),
            updated_at_unix_secs: self.updated_at_unix_secs,
            settings: self.settings.clone(),
        }
    }
}

/// One profile and the key it is stored under.
#[derive(Debug, PartialEq, Eq)]
pub struct ProfileEntry {
    pub key: String,
    pub profile: GameProfile,
}

/// Profiles by key; no key occurs twice.
///
/// The profiles are kept in a vector: vstd specifies `BTreeMap` only for
/// keys of which it knows that their ordering obeys `Ord`'s laws, and it
/// knows that of no `String`. Two maps are equal when they hold the same
/// keys with the same profiles, in whatever order.
#[derive(Debug)]
pub struct ProfileMap {
    entries: Vec<ProfileEntry>,
}

/// No two entries share a key.
pub open spec fn distinct_keys(s: Seq<ProfileEntry>) -> bool {
    forall|i: int, j: int|
        0 <= i < s.len() && 0 <= j < s.len() && i != j ==> #[trigger] s[i].key@
            != #[trigger] s[j].key@
}

/// The map that a sequence of entries stands for.
pub open spec fn entries_map(s: Seq<ProfileEntry>) -> Map<Seq<char>, GameProfile>
    decreases s.len(),
{
    if s.len() == 0 {
        Map::empty()
    } else {
        entries_map(s.drop_last()).insert(s.last().key@, s.last().profile)
    }
}

proof fn lemma_entries_map_dom(s: Seq<ProfileEntry>)
    ensures
        entries_map(s).dom().finite(),
        forall|k: Seq<char>|
            entries_map(s).contains_key(k) <==> exists|i: int|
                0 <= i < s.len() && #[trigger] s[i].key@ == k,
    decreases s.len(),
{
    if s.len() > 0 {
        let p = s.drop_last();
        lemma_entries_map_dom(p);
        assert forall|k: Seq<char>|
            entries_map(s).contains_key(k) <==> exists|i: int|
                0 <= i < s.len() && #[trigger] s[i].key@ == k by {
            if entries_map(s).contains_key(k) && k != s.last().key@ {
                let i = choose|i: int| 0 <= i < p.len() && #[trigger] p[i].key@ == k;
                assert(s[i].key@ == k);
            }
            if exists|i: int| 0 <= i < s.len() && #[trigger] s[i].key@ == k {
                let i = choose|i: int| 0 <= i < s.len() && #[trigger] s[i].key@ == k;
                if i < s.len() - 1 {
                    assert(p[i].key@ == k);
                }
            }
        }
    }
}

proof fn lemma_entries_map_value(s: Seq<ProfileEntry>, i: int)
    requires
        distinct_keys(s),
        0 <= i < s.len(),
    ensures
        entries_map(s).contains_key(s[i].key@),
        entries_map(s)[s[i].key@] == s[i].profile,
    decreases s.len(),
{
    let p = s.drop_last();
    if i < s.len() - 1 {
        assert(distinct_keys(p)) by {
            assert forall|a: int, b: int|
                0 <= a < p.len() && 0 <= b < p.len() && a != b implies #[trigger] p[a].key@
                != #[trigger] p[b].key@ by {
                assert(p[a] == s[a] && p[b] == s[b]);
            }
        }
        assert(p[i] == s[i]);
        lemma_entries_map_value(p, i);
        assert(s[i].key@ != s[s.len() - 1].key@);
    }
}

proof fn lemma_entries_map_len(s: Seq<ProfileEntry>)
    requires
        distinct_keys(s),
    ensures
        entries_map(s).len() == s.len(),
    decreases s.len(),
{
    if s.len() > 0 {
        let p = s.drop_last();
        assert(distinct_keys(p)) by {
            assert forall|a: int, b: int|
                0 <= a < p.len() && 0 <= b < p.len() && a != b implies #[trigger] p[a].key@
                != #[trigger] p[b].key@ by {
                assert(p[a] == s[a] && p[b] == s[b]);
            }
        }
        lemma_entries_map_len(p);
        lemma_entries_map_dom(p);
        assert(!entries_map(p).contains_key(s.last().key@)) by {
            if entries_map(p).contains_key(s.last().key@) {
                let i = choose|i: int| 0 <= i < p.len() && #[trigger] p[i].key@ == s.last().key@;
                assert(s[i].key@ == s[s.len() - 1].key@);
            }
        }
    }
}

proof fn lemma_entries_map_update(s: Seq<ProfileEntry>, i: int, e: ProfileEntry)
    requires
        distinct_keys(s),
        0 <= i < s.len(),
        e.key@ == s[i].key@,
    ensures
        entries_map(s.update(i, e)) == entries_map(s).insert(e.key@, e.profile),
    decreases s.len(),
{
    let p = s.drop_last();
    let t = s.update(i, e);
    if i == s.len() - 1 {
        assert(t.drop_last() =~= p);
        assert(entries_map(t) =~= entries_map(s).insert(e.key@, e.profile));
    } else {
        assert(distinct_keys(p)) by {
            assert forall|a: int, b: int|
                0 <= a < p.len() && 0 <= b < p.len() && a != b implies #[trigger] p[a].key@
                != #[trigger] p[b].key@ by {
                assert(p[a] == s[a] && p[b] == s[b]);
            }
        }
        assert(p[i] == s[i]);
        lemma_entries_map_update(p, i, e);
        assert(t.drop_last() =~= p.update(i, e));
        assert(s[i].key@ != s[s.len() - 1].key@);
        assert(entries_map(t) =~= entries_map(s).insert(e.key@, e.profile));
    }
}

/// The keys come in ascending order, each before the next.
pub open spec fn sorted_keys(s: Seq<ProfileEntry>) -> bool {
    forall|i: int, j: int|
        0 <= i < j < s.len() ==> text_less(#[trigger] s[i].key@, #[trigger] s[j].key@)
}

proof fn lemma_sorted_keys_distinct(s: Seq<ProfileEntry>)
    requires
        sorted_keys(s),
    ensures
        distinct_keys(s),
{
    assert forall|i: int, j: int|
        0 <= i < s.len() && 0 <= j < s.len() && i != j implies #[trigger] s[i].key@
        != #[trigger] s[j].key@ by {
        lemma_text_less_total(s[i].key@, s[j].key@);
        lemma_text_less_total(s[j].key@, s[i].key@);
    }
}

proof fn lemma_entries_map_insert_at(s: Seq<ProfileEntry>, i: int, e: ProfileEntry)
    requires
        distinct_keys(s),
        0 <= i <= s.len(),
        forall|j: int| 0 <= j < s.len() ==> #[trigger] s[j].key@ != e.key@,
    ensures
        entries_map(s.insert(i, e)) == entries_map(s).insert(e.key@, e.profile),
    decreases s.len(),
{
    let t = s.insert(i, e);
    if i == s.len() {
        assert(t.drop_last() =~= s);
    } else {
        let p = s.drop_last();
        assert(distinct_keys(p)) by {
            assert forall|a: int, b: int|
                0 <= a < p.len() && 0 <= b < p.len() && a != b implies #[trigger] p[a].key@
                != #[trigger] p[b].key@ by {
                assert(p[a] == s[a] && p[b] == s[b]);
            }
        }
        assert forall|j: int| 0 <= j < p.len() implies #[trigger] p[j].key@ != e.key@ by {
            assert(p[j] == s[j]);
        }
        lemma_entries_map_insert_at(p, i, e);
        assert(t.drop_last() =~= p.insert(i, e));
        assert(t.last() == s.last());
        assert(s.last().key@ != e.key@);
        assert(entries_map(t) =~= entries_map(s).insert(e.key@, e.profile));
    }
}

impl View for ProfileMap {
    type V = Map<Seq<char>, GameProfile>;

    closed spec fn view(&self) -> Map<Seq<char>, GameProfile> {
        entries_map(self.entries@)
    }
}

impl ProfileMap {
    /// The key of the entry at a position, for walking the map.
    pub closed spec fn key_at(&self, index: int) -> Seq<char> {
        self.entries@[index].key@
    }

    #[verifier::type_invariant]
    spec fn keys_are_sorted(self) -> bool {
        &&& distinct_keys(self.entries@)
        &&& sorted_keys(self.entries@)
    }

    /// A map with no profiles.
    pub fn new() -> (m: Self)
        ensures
            m@ == Map::<Seq<char>, GameProfile>::empty(),
    {
        ProfileMap { entries: Vec::new() }
    }

    /// The number of profiles. The positions below it hold the keys in
    /// ascending order, and every key of the map is held at one of them.
    pub fn len(&self) -> (n: usize)
        ensures
            n == self@.len(),
            self@.dom().finite(),
            forall|i: int, j: int|
                0 <= i < j < n ==> text_less(self.key_at(i), self.key_at(j)),
            forall|i: int, j: int|
                0 <= i < n && 0 <= j < n && i != j ==> self.key_at(i) != self.key_at(j),
            forall|k: Seq<char>|
                self@.contains_key(k) ==> exists|i: int| 0 <= i < n && #[trigger] self.key_at(i) == k,
    {
        proof {
            use_type_invariant(self);
            lemma_entries_map_len(self.entries@);
            lemma_entries_map_dom(self.entries@);
            assert forall|k: Seq<char>| self@.contains_key(k) implies exists|i: int|
                0 <= i < self.entries@.len() && #[trigger] self.key_at(i) == k by {
                let i = choose|i: int|
                    0 <= i < self.entries@.len() && #[trigger] self.entries@[i].key@ == k;
                assert(self.key_at(i) == k);
            }
        }
        self.entries.len()
    }

    /// The position of the entry with this key, if any.
    fn position(&self, key: &str) -> (r: Option<usize>)
        ensures
            match r {
                Some(i) => i < self.entries@.len() && self.entries@[i as int].key@ == key@,
                None => !self@.contains_key(key@),
            },
    {
        let mut i: usize = 0;
        while i < self.entries.len()
            invariant
                i <= self.entries@.len(),
                forall|j: int| 0 <= j < i ==> self.entries@[j].key@ != key@,
            decreases self.entries@.len() - i,
        {
            if text_equal(self.entries[i].key.as_str(), key) {
                return Some(i);
            }
            i = i + 1;
        }
        proof {
            lemma_entries_map_dom(self.entries@);
        }
        None
    }

    /// The profile stored under `key`, if any.
    pub fn get(&self, key: &str) -> (r: Option<&GameProfile>)
        ensures
            match r {
                Some(p) => self@.contains_key(key@) && self@[key@] == *p,
                None => !self@.contains_key(key@),
            },
    {
        proof {
            use_type_invariant(self);
        }
        match self.position(key) {
            Some(i) => {
                proof {
                    lemma_entries_map_value(self.entries@, i as int);
                }
                Some(&self.entries[i].profile)
            },
            None => None,
        }
    }

    /// The key and profile of the entry at a position, for walking the map
    /// with positions below [`ProfileMap::len`]: the keys come out in
    /// ascending order.
    pub fn entry(&self, index: usize) -> (r: (&String, &GameProfile))
        requires
            index < self@.len(),
        ensures
            r.0@ == self.key_at(index as int),
            self@.contains_key(r.0@),
            self@[r.0@] == *r.1,
            forall|j: int| 0 <= j < index ==> text_less(#[trigger] self.key_at(j), r.0@),
            forall|j: int|
                index < j < self@.len() ==> text_less(r.0@, #[trigger] self.key_at(j)),
    {
        proof {
            use_type_invariant(self);
            lemma_entries_map_len(self.entries@);
            lemma_entries_map_value(self.entries@, index as int);
        }
        let e = &self.entries[index];
        (&e.key, &e.profile)
    }

    /// Stores `profile` under `key`, replacing what was stored there; a
    /// new key takes its place in ascending order.
    pub fn insert(&mut self, key: String, profile: GameProfile)
        ensures
            final(self)@ == old(self)@.insert(key@, profile),
    {
        proof {
            use_type_invariant(&*self);
        }
        let n = self.entries.len();
        let mut i: usize = 0;
        while i < n && str_less(self.entries[i].key.as_str(), key.as_str())
            invariant
                n == self.entries@.len(),
                i <= n,
                forall|j: int| 0 <= j < i ==> text_less(#[trigger] self.entries@[j].key@, key@),
            decreases n - i,
        {
            i = i + 1;
        }
        let present = i < n && text_equal(self.entries[i].key.as_str(), key.as_str());
        let mut entries: Vec<ProfileEntry> = Vec::new();
        std::mem::swap(&mut entries, &mut self.entries);
        let ghost before = entries@;
        let entry = ProfileEntry { key, profile };
        if present {
            proof {
                lemma_entries_map_update(before, i as int, entry);
                let after = before.update(i as int, entry);
                assert forall|k: int| 0 <= k < after.len() implies #[trigger] after[k].key@
                    == before[k].key@ by {}
                assert(sorted_keys(after)) by {
                    assert forall|a: int, b: int| 0 <= a < b < after.len() implies text_less(
                        #[trigger] after[a].key@,
                        #[trigger] after[b].key@,
                    ) by {
                        assert(after[a].key@ == before[a].key@ && after[b].key@ == before[b].key@);
                    }
                }
                lemma_sorted_keys_distinct(after);
            }
            entries.set(i, entry);
        } else {
            proof {
                let k = entry.key@;
                if i < n {
                    lemma_text_less_total(before[i as int].key@, k);
                }
                assert forall|j: int| i <= j < n implies text_less(k, #[trigger] before[j].key@) by {
                    if j > i {
                        lemma_text_less_transitive(k, before[i as int].key@, before[j].key@);
                    }
                }
                assert forall|j: int| 0 <= j < n implies #[trigger] before[j].key@ != k by {
                    lemma_text_less_total(k, k);
                    if j >= i {
                        assert(text_less(k, before[j].key@));
                    } else {
                        assert(text_less(before[j].key@, k));
                    }
                }
                lemma_entries_map_insert_at(before, i as int, entry);
                let after = before.insert(i as int, entry);
                assert(sorted_keys(after)) by {
                    assert forall|a: int, b: int| 0 <= a < b < after.len() implies text_less(
                        #[trigger] after[a].key@,
                        #[trigger] after[b].key@,
                    ) by {
                        if b < i {
                            assert(after[a] == before[a] && after[b] == before[b]);
                        } else if b == i {
                            assert(after[a] == before[a]);
                        } else if a < i {
                            assert(after[a] == before[a] && after[b] == before[b - 1]);
                            lemma_text_less_transitive(before[a].key@, k, before[b - 1].key@);
                        } else if a == i {
                            assert(after[b] == before[b - 1]);
                        } else {
                            assert(after[a] == before[a - 1] && after[b] == before[b - 1]);
                        }
                    }
                }
                lemma_sorted_keys_distinct(after);
            }
            entries.insert(i, entry);
        }
        self.entries = entries;
    }
}

/// Two settings agree in every field, the extra arguments as text.
pub open spec fn same_settings(a: GamescopeSettings, b: GamescopeSettings) -> bool {
    &&& a.output_resolution == b.output_resolution
    &&& a.nested_resolution == b.nested_resolution
    &&& a.nested_refresh == b.nested_refresh
    &&& a.framerate_limit == b.framerate_limit
    &&& a.window_mode == b.window_mode
    &&& a.scaler == b.scaler
    &&& a.filter == b.filter
    &&& a.hdr == b.hdr
    &&& a.adaptive_sync == b.adaptive_sync
    &&& a.mangoapp == b.mangoapp
    &&& a.steam == b.steam
    &&& a.extra_args@ == b.extra_args@
}

/// Two profiles agree in every field, texts compared as text.
pub open spec fn same_profile(a: GameProfile, b: GameProfile) -> bool {
    &&& a.label@ == b.label@
    &&& a.command_hash@ == b.command_hash@
    &&& a.updated_at_unix_secs == b.updated_at_unix_secs
    &&& same_settings(a.settings, b.settings)
}

/// Two profile maps hold the same keys, with agreeing profiles.
pub open spec fn same_profiles(
    a: Map<Seq<char>, GameProfile>,
    b: Map<Seq<char>, GameProfile>,
) -> bool {
    &&& a.dom() == b.dom()
    &&& forall|k: Seq<char>| #[trigger] a.contains_key(k) ==> same_profile(a[k], b[k])
}

fn same_resolution(a: Option<Resolution>, b: Option<Resolution>) -> (r: bool)
    ensures
        r == (a == b),
{
    match (a, b) {
        (Some(x), Some(y)) => x.width == y.width && x.height == y.height,
        (None, None) => true,
        _ => false,
    }
}

fn same_number(a: Option<u32>, b: Option<u32>) -> (r: bool)
    ensures
        r == (a == b),
{
    match (a, b) {
        (Some(x), Some(y)) => x == y,
        (None, None) => true,
        _ => false,
    }
}

fn settings_agree(a: &GamescopeSettings, b: &GamescopeSettings) -> (r: bool)
    ensures
        r == same_settings(*a, *b),
{
    same_resolution(a.output_resolution, b.output_resolution) && same_resolution(
        a.nested_resolution,
        b.nested_resolution,
    ) && same_number(a.nested_refresh, b.nested_refresh) && same_number(
        a.framerate_limit,
        b.framerate_limit,
    ) && a.window_mode == b.window_mode && a.scaler == b.scaler && a.filter == b.filter && a.hdr
        == b.hdr && a.adaptive_sync == b.adaptive_sync && a.mangoapp == b.mangoapp && a.steam
        == b.steam && a.extra_args == b.extra_args
}

fn profiles_agree(a: &GameProfile, b: &GameProfile) -> (r: bool)
    ensures
        r == same_profile(*a, *b),
{
    a.label == b.label && a.command_hash == b.command_hash && a.updated_at_unix_secs
        == b.updated_at_unix_secs && settings_agree(&a.settings, &b.settings)
}

impl PartialEq for ProfileMap {
    fn eq(&self, other: &Self) -> (equal: bool) {
        let n = self.len();
        if n != other.len() {
            return false;
        }
        let mut i: usize = 0;
        while i < n
            invariant
                n == self@.len(),
                n == other@.len(),
                i <= n,
                forall|j: int|
                    0 <= j < i ==> other@.contains_key(#[trigger] self.key_at(j)) && same_profile(
                        self@[self.key_at(j)],
                        other@[self.key_at(j)],
                    ),
            decreases n - i,
        {
            let (key, profile) = self.entry(i);
            match other.get(key.as_str()) {
                Some(found) => {
                    if !profiles_agree(profile, found) {
                        return false;
                    }
                },
                None => {
                    return false;
                },
            }
            i = i + 1;
        }
        proof {
            assert forall|k: Seq<char>| #[trigger] self@.contains_key(k) implies other@.contains_key(
                k,
            ) && same_profile(self@[k], other@[k]) by {
                let j = choose|j: int| 0 <= j < n && #[trigger] self.key_at(j) == k;
                assert(other@.contains_key(self.key_at(j)));
            }
            assert(self@.dom().subset_of(other@.dom()));
            vstd::set_lib::lemma_subset_equality(self@.dom(), other@.dom());
        }
        true
    }
}

impl vstd::std_specs::cmp::PartialEqSpecImpl for ProfileMap {
    open spec fn obeys_eq_spec() -> bool {
        true
    }

    open spec fn eq_spec(&self, other: &Self) -> bool {
        same_profiles(self@, other@)
    }
}

impl Eq for ProfileMap {

}

/// The profile with Gamescope's Steam integration switched off.
pub open spec fn without_steam(p: GameProfile) -> GameProfile {
    GameProfile { settings: GamescopeSettings { steam: false, ..p.settings }, ..p }
}

proof fn lemma_entries_map_without_steam(s: Seq<ProfileEntry>, t: Seq<ProfileEntry>)
    requires
        s.len() == t.len(),
        forall|i: int|
            0 <= i < s.len() ==> #[trigger] t[i].key@ == s[i].key@ && t[i].profile
                == without_steam(s[i].profile),
    ensures
        entries_map(t) == entries_map(s).map_values(|p: GameProfile| without_steam(p)),
    decreases s.len(),
{
    if s.len() > 0 {
        let n = s.len() - 1;
        assert(t[n].key@ == s[n].key@);
        lemma_entries_map_without_steam(s.drop_last(), t.drop_last());
        lemma_entries_map_dom(s);
        lemma_entries_map_dom(t);
        assert(entries_map(t) =~= entries_map(s).map_values(|p: GameProfile| without_steam(p)));
    }
}

impl ProfileMap {
    /// Switches Gamescope's Steam integration off in every profile.
    pub fn disable_steam_integration(&mut self)
        ensures
            final(self)@ == old(self)@.map_values(|p: GameProfile| without_steam(p)),
    {
        proof {
            use_type_invariant(&*self);
        }
        let mut fresh: Vec<ProfileEntry> = Vec::new();
        let n = self.entries.len();
        let mut i: usize = 0;
        while i < n
            invariant
                n == self.entries@.len(),
                i <= n,
                fresh@.len() == i,
                forall|j: int|
                    0 <= j < i ==> #[trigger] fresh@[j].key@ == self.entries@[j].key@
                        && fresh@[j].profile == without_steam(self.entries@[j].profile),
            decreases n - i,
        {
            let entry = &self.entries[i];
            let mut profile = entry.profile.clone();
            profile.settings.steam = false;
            fresh.push(ProfileEntry { key: entry.key.clone(), profile });
            i = i + 1;
        }
        proof {
            lemma_entries_map_without_steam(self.entries@, fresh@);
            let old_entries = self.entries@;
            assert forall|a: int, b: int|
                0 <= a < fresh@.len() && 0 <= b < fresh@.len() && a != b implies #[trigger] fresh@[a].key@
                != #[trigger] fresh@[b].key@ by {
                assert(fresh@[a].key@ == old_entries[a].key@);
                assert(fresh@[b].key@ == old_entries[b].key@);
            }
            assert forall|a: int, b: int| 0 <= a < b < fresh@.len() implies text_less(
                #[trigger] fresh@[a].key@,
                #[trigger] fresh@[b].key@,
            ) by {
                assert(fresh@[a].key@ == old_entries[a].key@);
                assert(fresh@[b].key@ == old_entries[b].key@);
            }
        }
        self.entries = fresh;
    }
}

/// The saved profiles and the schema version they were written with.
#[derive(Debug, PartialEq, Eq)]
pub struct ProfileStore {
    pub schema_version: u32,
    pub profiles: ProfileMap,
}

impl Default for ProfileStore {
    /// An empty store of the current schema version.
    fn default() -> (store: Self)
        ensures
            store.schema_version == CURRENT_SCHEMA_VERSION,
            store.profiles@ == Map::<Seq<char>, GameProfile>::empty(),
    {
        ProfileStore { schema_version: CURRENT_SCHEMA_VERSION, profiles: ProfileMap::new() }
    }
}

/// The profiles after bringing a store written with `version` up to the
/// current schema: before version 2, Steam integration was switched on
/// implicitly, so it is switched off in every profile.
pub open spec fn migrated_profiles(version: u32, profiles: Map<Seq<char>, GameProfile>) -> Map<
    Seq<char>,
    GameProfile,
> {
    if version < 2 {
        profiles.map_values(|p: GameProfile| without_steam(p))
    } else {
        profiles
    }
}

/// Brings a loaded store up to the current schema version.
pub fn migrate_store(store: ProfileStore) -> (migrated: ProfileStore)
    ensures
        migrated.schema_version == CURRENT_SCHEMA_VERSION,
        migrated.profiles@ == migrated_profiles(store.schema_version, store.profiles@),
{
    let mut store = store;
    if store.schema_version < 2 {
        store.profiles.disable_steam_integration();
    }
    store.schema_version = CURRENT_SCHEMA_VERSION;
    store
}

/// The settings for a profile key: those stored, or the defaults.
pub open spec fn settings_in(
    profiles: Map<Seq<char>, GameProfile>,
    key: Seq<char>,
    settings: GamescopeSettings,
) -> bool {
    if profiles.contains_key(key) {
        settings == profiles[key].settings
    } else {
        default_settings(settings)
    }
}

/// How a game was identified, and the key its profile is stored under.
#[derive(Debug, Clone, PartialEq, Eq)]
pub struct ProfileIdentity {
    pub key: String,
    pub label: String,
    pub command_hash: String,
    pub is_steam_profile: bool,
}

/// `after` is `before` with the profile of `identity` set to `settings`,
/// stamped `time`.
pub open spec fn upserted(
    before: ProfileStore,
    after: ProfileStore,
    identity: ProfileIdentity,
    settings: GamescopeSettings,
    time: u64,
) -> bool {
    &&& after.schema_version == before.schema_version
    &&& after.profiles@ == before.profiles@.insert(
        identity.key@,
        GameProfile {
            label: identity.label,
            command_hash: identity.command_hash,
            updated_at_unix_secs: time,
            settings,
        },
    )
}

impl ProfileStore {
    /// The settings saved for a game, or the defaults when none are.
    pub fn settings_for(&self, identity: &ProfileIdentity) -> (settings: GamescopeSettings)
        ensures
            settings_in(self.profiles@, identity.key@, settings),
    {
        match self.profiles.get(identity.key.as_str()) {
            Some(profile) => profile.settings.clone(),
            None => GamescopeSettings::default(),
        }
    }

    /// Saves the settings for a game, stamped with the given time.
    pub fn upsert_at(&mut self, identity: &ProfileIdentity, settings: GamescopeSettings, now: u64)
        ensures
            upserted(*old(self), *final(self), *identity, settings, now),
    {
        let profile = GameProfile {
            label: identity.label.clone(),
            command_hash: identity.command_hash.clone(),
            updated_at_unix_secs: now,
            settings,
        };
        self.profiles.insert(identity.key.clone(), profile);
    }

    /// Saves the settings for a game, stamped with the current time.
    pub fn upsert(&mut self, identity: &ProfileIdentity, settings: GamescopeSettings)
        ensures
            upserted(
                *old(self),
                *final(self),
                *identity,
                settings,
                final(self).profiles@[identity.key@].updated_at_unix_secs,
            ),
    {
        let now = unix_time_now();
        self.upsert_at(identity, settings, now);
    }
}

/// Declares `std::time::SystemTime` to the verifier.
#[verifier::external_type_specification]
#[verifier::external_body]
pub struct ExSystemTime(std::time::SystemTime);

/// Reads the system clock.
///
/// Trusted: calls `std::time::SystemTime::now`. Nothing is claimed of the
/// time it returns.
#[verifier::external_body]
fn system_time_now() -> std::time::SystemTime {
    std::time::SystemTime::now()
}

/// The time elapsed from the Unix epoch to `time`; none for a time before it.
///
/// Trusted: calls `SystemTime::duration_since(UNIX_EPOCH)`, turning its
/// error into `None`. Nothing is claimed of the duration.
#[verifier::external_body]
fn elapsed_since_epoch(time: std::time::SystemTime) -> Option<std::time::Duration> {
    match time.duration_since(std::time::UNIX_EPOCH) {
        Ok(elapsed) => Some(elapsed),
        Err(_) => None,
    }
}

/// The whole seconds of a duration.
///
/// Trusted: calls `Duration::as_secs`. Nothing is claimed of the number.
#[verifier::external_body]
fn whole_seconds(duration: &std::time::Duration) -> u64 {
    duration.as_secs()
}

/// The current time in whole seconds since the Unix epoch; 0 when the
/// clock reads a time before it. The clock may read any time, so every
/// `u64` is a possible result and the contract claims none in particular.
pub fn unix_time_now() -> u64 {
    match elapsed_since_epoch(system_time_now()) {
        Some(elapsed) => whole_seconds(&elapsed),
        None => 0,
    }
}

/// The environment variables that carry a Steam app id, in order of preference.
pub const STEAM_ID_ENV: [&'static str; 3] = ["STEAM_COMPAT_APP_ID", "SteamAppId", "SteamGameId"];

/// The bytes hashed for a game command: each argument followed by a zero byte.
pub open spec fn hash_input(command: Seq<Seq<u8>>) -> Seq<u8>
    decreases command.len(),
{
    if command.len() == 0 {
        Seq::empty()
    } else {
        hash_input(command.drop_last()) + command.last() + seq![0u8]
    }
}

/// The BLAKE3 digest of a byte sequence, as `blake3::hash` computes it.
pub uninterp spec fn blake3_hash(input: Seq<u8>) -> Seq<u8>;

/// Hashes bytes with BLAKE3.
///
/// Trusted: calls `blake3::hash` and takes the 32 bytes of the digest. Its
/// contract claims that the digest is a function of the input alone; which
/// bytes it holds is left to BLAKE3.
#[verifier::external_body]
fn blake3_digest(input: &[u8]) -> (digest: [u8; 32])
    ensures
        digest@ == blake3_hash(input@),
{
    *blake3::hash(input).as_bytes()
}

/// The lowercase hexadecimal digit for `n < 16`.
pub open spec fn hex_digit(n: nat) -> char {
    if n < 10 {
        (48 + n) as char
    } else {
        (87 + n) as char
    }
}

/// Lowercase hexadecimal, two digits per byte, high half first (as
/// `blake3::Hash::to_hex` writes a digest).
pub open spec fn hex_text(bytes: Seq<u8>) -> Seq<char>
    decreases bytes.len(),
{
    if bytes.len() == 0 {
        Seq::empty()
    } else {
        hex_text(bytes.drop_last()) + seq![
            hex_digit((bytes.last() / 16) as nat),
            hex_digit((bytes.last() % 16) as nat),
        ]
    }
}

/// Whether `c` is a lowercase hexadecimal digit.
pub open spec fn is_hex_digit(c: char) -> bool {
    ('0' <= c <= '9') || ('a' <= c <= 'f')
}

proof fn lemma_hex_text_len(bytes: Seq<u8>)
    ensures
        hex_text(bytes).len() == 2 * bytes.len(),
        forall|i: int| 0 <= i < hex_text(bytes).len() ==> is_hex_digit(#[trigger] hex_text(bytes)[i]),
    decreases bytes.len(),
{
    if bytes.len() > 0 {
        let prefix = bytes.drop_last();
        lemma_hex_text_len(prefix);
        let b = bytes.last();
        assert(is_hex_digit(hex_digit((b / 16) as nat)));
        assert(is_hex_digit(hex_digit((b % 16) as nat)));
        assert forall|i: int| 0 <= i < hex_text(bytes).len() implies is_hex_digit(
            #[trigger] hex_text(bytes)[i],
        ) by {
            if i < hex_text(prefix).len() {
                assert(hex_text(bytes)[i] == hex_text(prefix)[i]);
            }
        }
    }
}

/// The profile hash of a game command: the first 16 hexadecimal digits of
/// the BLAKE3 digest of its arguments, each followed by a zero byte.
pub open spec fn command_hash_text(command: Seq<Seq<u8>>) -> Seq<char> {
    hex_text(blake3_hash(hash_input(command))).subrange(0, 16)
}

fn hex_digit_text(n: u8) -> (t: &'static str)
    requires
        n < 16,
    ensures
        t@ == seq![hex_digit(n as nat)],
{
    proof {
        reveal_strlit("0");
        reveal_strlit("1");
        reveal_strlit("2");
        reveal_strlit("3");
        reveal_strlit("4");
        reveal_strlit("5");
        reveal_strlit("6");
        reveal_strlit("7");
        reveal_strlit("8");
        reveal_strlit("9");
        reveal_strlit("a");
        reveal_strlit("b");
        reveal_strlit("c");
        reveal_strlit("d");
        reveal_strlit("e");
        reveal_strlit("f");
    }
    match n {
        0 => "0",
        1 => "1",
        2 => "2",
        3 => "3",
        4 => "4",
        5 => "5",
        6 => "6",
        7 => "7",
        8 => "8",
        9 => "9",
        10 => "a",
        11 => "b",
        12 => "c",
        13 => "d",
        14 => "e",
        _ => "f",
    }
}

fn hex_string(bytes: &[u8]) -> (text: String)
    ensures
        text@ == hex_text(bytes@),
{
    let mut text = String::new();
    let mut i: usize = 0;
    while i < bytes.len()
        invariant
            i <= bytes@.len(),
            text@ == hex_text(bytes@.subrange(0, i as int)),
        decreases bytes@.len() - i,
    {
        let b = bytes[i];
        text.append(hex_digit_text(b / 16));
        text.append(hex_digit_text(b % 16));
        assert(bytes@.subrange(0, i + 1).drop_last() =~= bytes@.subrange(0, i as int));
        i = i + 1;
    }
    assert(bytes@.subrange(0, bytes@.len() as int) =~= bytes@);
    text
}

/// The profile hash of a game command: the first 16 hexadecimal digits of
/// the BLAKE3 digest of its arguments, each followed by a zero byte.
pub fn command_hash(command: &[Vec<u8>]) -> (hash: String)
    ensures
        hash@ == command_hash_text(byte_args(command@)),
        hash@.len() == 16,
        forall|i: int| 0 <= i < 16 ==> is_hex_digit(#[trigger] hash@[i]),
{
    let ghost args = byte_args(command@);
    let mut input: Vec<u8> = Vec::new();
    let mut i: usize = 0;
    while i < command.len()
        invariant
            i <= command@.len(),
            args == byte_args(command@),
            input@ == hash_input(args.subrange(0, i as int)),
        decreases command@.len() - i,
    {
        let mut piece = copy_bytes(command[i].as_slice());
        input.append(&mut piece);
        input.push(0u8);
        assert(args.subrange(0, i + 1).drop_last() =~= args.subrange(0, i as int));
        i = i + 1;
    }
    assert(args.subrange(0, command@.len() as int) =~= args);
    let digest = blake3_digest(input.as_slice());
    digest_hash_text(&digest)
}

/// The profile hash of a digest: the first 16 hexadecimal digits of its
/// bytes, two per byte, high half first.
pub fn digest_hash_text(digest: &[u8; 32]) -> (hash: String)
    ensures
        hash@ == hex_text(digest@).subrange(0, 16),
        hash@.len() == 16,
        forall|i: int| 0 <= i < 16 ==> is_hex_digit(#[trigger] hash@[i]),
{
    let hex = hex_string(digest);
    proof {
        lemma_hex_text_len(digest@);
    }
    hex.as_str().substring_char(0, 16).to_owned()
}

/// Where the last `/` of `b` ends: the start of its last segment.
pub open spec fn segment_start(b: Seq<u8>) -> nat
    decreases b.len(),
{
    if b.len() == 0 {
        0
    } else if b.last() == 47u8 {
        b.len()
    } else {
        segment_start(b.drop_last())
    }
}

/// The last segment of `b` starts after its last `/` and holds no `/`.
pub proof fn lemma_segment_start(b: Seq<u8>)
    ensures
        segment_start(b) <= b.len(),
        b.len() > 0 && b.last() != 47u8 ==> segment_start(b) < b.len(),
        forall|k: int| segment_start(b) <= k < b.len() ==> b[k] != 47u8,
        segment_start(b) > 0 ==> b[segment_start(b) - 1] == 47u8,
    decreases b.len(),
{
    if b.len() > 0 && b.last() != 47u8 {
        lemma_segment_start(b.drop_last());
        assert forall|k: int| segment_start(b) <= k < b.len() implies b[k] != 47u8 by {
            if k < b.len() - 1 {
                assert(b[k] == b.drop_last()[k]);
            }
        }
        if segment_start(b) > 0 {
            assert(b[segment_start(b) - 1] == b.drop_last()[segment_start(b) - 1]);
        }
    }
}

/// The last component of a Unix path given as bytes: trailing `/` and `.`
/// components are skipped; none for an empty path, the root, or a path of
/// only `.` components.
pub open spec fn final_component(b: Seq<u8>) -> Option<Seq<u8>>
    decreases b.len(),
{
    if b.len() == 0 {
        None
    } else if b.last() == 47u8 {
        final_component(b.drop_last())
    } else {
        let start = segment_start(b);
        let name = b.subrange(start as int, b.len() as int);
        if name == seq![46u8] {
            if start == 0 {
                None
            } else {
                proof {
                    lemma_segment_start(b);
                }
                final_component(b.subrange(0, start as int))
            }
        } else {
            Some(name)
        }
    }
}

/// What `Path::file_name` gives for a Unix path given as bytes: its last
/// component, unless that is `..`.
pub open spec fn path_file_name(b: Seq<u8>) -> Option<Seq<u8>> {
    match final_component(b) {
        Some(name) => if name == seq![46u8, 46u8] {
            None
        } else {
            Some(name)
        },
        None => None,
    }
}

fn segment_start_of(b: &[u8], end: usize) -> (start: usize)
    requires
        end <= b@.len(),
    ensures
        start == segment_start(b@.subrange(0, end as int)),
    decreases end,
{
    let ghost prefix = b@.subrange(0, end as int);
    if end == 0 {
        0
    } else if b[end - 1] == 47u8 {
        end
    } else {
        assert(prefix.drop_last() =~= b@.subrange(0, end - 1));
        segment_start_of(b, end - 1)
    }
}

/// The bounds of the final component of `b[..end]`, if any.
fn final_component_of(b: &[u8], end: usize) -> (r: Option<(usize, usize)>)
    requires
        end <= b@.len(),
    ensures
        match r {
            Some((start, stop)) => start <= stop <= end && final_component(b@.subrange(0, end as int))
                == Some(b@.subrange(start as int, stop as int)),
            None => final_component(b@.subrange(0, end as int)) is None,
        },
    decreases end,
{
    let ghost prefix = b@.subrange(0, end as int);
    if end == 0 {
        return None;
    }
    if b[end - 1] == 47u8 {
        assert(prefix.drop_last() =~= b@.subrange(0, end - 1));
        return final_component_of(b, end - 1);
    }
    let start = segment_start_of(b, end);
    proof {
        lemma_segment_start(prefix);
    }
    let ghost name = prefix.subrange(start as int, end as int);
    assert(name =~= b@.subrange(start as int, end as int));
    if end - start == 1 && b[start] == 46u8 {
        assert(name =~= seq![46u8]);
        if start == 0 {
            return None;
        }
        assert(prefix.subrange(0, start as int) =~= b@.subrange(0, start as int));
        return final_component_of(b, start);
    }
    assert(name != seq![46u8]) by {
        if name == seq![46u8] {
            assert(name.len() == 1);
            assert(name[0] == b@[start as int]);
        }
    }
    Some((start, end))
}

/// The file name of a Unix path given as bytes (`Path::file_name`).
pub fn file_name(path: &[u8]) -> (r: Option<Vec<u8>>)
    ensures
        match r {
            Some(name) => path_file_name(path@) == Some(name@),
            None => path_file_name(path@) is None,
        },
{
    assert(path@.subrange(0, path@.len() as int) =~= path@);
    match final_component_of(path, path.len()) {
        Some((start, stop)) => {
            let ghost name = path@.subrange(start as int, stop as int);
            if stop - start == 2 && path[start] == 46u8 && path[start + 1] == 46u8 {
                assert(name =~= seq![46u8, 46u8]);
                return None;
            }
            assert(name.len() == stop - start);
            assert(name != seq![46u8, 46u8]) by {
                if name == seq![46u8, 46u8] {
                    assert(stop - start == 2);
                    assert(name[0] == path@[start as int]);
                    assert(name[1] == path@[start + 1]);
                }
            }
            let mut out: Vec<u8> = Vec::new();
            let mut i: usize = start;
            while i < stop
                invariant
                    start <= i <= stop,
                    stop <= path@.len(),
                    out@ =~= path@.subrange(start as int, i as int),
                decreases stop - i,
            {
                out.push(path[i]);
                i = i + 1;
                assert(out@ =~= path@.subrange(start as int, i as int));
            }
            Some(out)
        },
        None => None,
    }
}

/// The label of a game that Steam did not name: the file name of its
/// program, or "Non-Steam game".
pub open spec fn command_label(command: Seq<Seq<u8>>) -> Seq<char> {
    if command.len() == 0 {
        "Non-Steam game"@
    } else {
        match path_file_name(command[0]) {
            Some(name) => if utf8_lossy(name).len() > 0 {
                utf8_lossy(name)
            } else {
                "Non-Steam game"@
            },
            None => "Non-Steam game"@,
        }
    }
}

/// The values looked up, as bytes.
pub open spec fn env_bytes(values: Seq<Option<Vec<u8>>>) -> Seq<Option<Seq<u8>>> {
    values.map_values(
        |o: Option<Vec<u8>>|
            match o {
                Some(v) => Some(v@),
                None => None,
            },
    )
}

/// The Steam app id: the first of the looked-up values that is not blank,
/// decoded and trimmed.
pub open spec fn steam_app_id(values: Seq<Option<Seq<u8>>>) -> Option<Seq<char>>
    decreases values.len(),
{
    if values.len() == 0 {
        None
    } else {
        match values[0] {
            Some(v) if trim(utf8_lossy(v)).len() > 0 => Some(trim(utf8_lossy(v))),
            _ => steam_app_id(values.drop_first()),
        }
    }
}

/// The identity of a game: Steam's app id when one is set, else the hash
/// of its command.
pub open spec fn identifies(
    id: ProfileIdentity,
    command: Seq<Seq<u8>>,
    values: Seq<Option<Seq<u8>>>,
) -> bool {
    &&& id.command_hash@ == command_hash_text(command)
    &&& match steam_app_id(values) {
        Some(app) => {
            &&& id.key@ == "steam-"@ + app
            &&& id.label@ == "Steam App "@ + app
            &&& id.is_steam_profile
        },
        None => {
            &&& id.key@ == "command-"@ + command_hash_text(command)
            &&& id.label@ == command_label(command)
            &&& !id.is_steam_profile
        },
    }
}

fn steam_app_id_of(values: &[Option<Vec<u8>>; 3]) -> (r: Option<String>)
    ensures
        match r {
            Some(app) => steam_app_id(env_bytes(values@)) == Some(app@),
            None => steam_app_id(env_bytes(values@)) is None,
        },
{
    let ghost all = env_bytes(values@);
    assert(all.subrange(0, 3) =~= all);
    let mut i: usize = 0;
    while i < 3
        invariant
            i <= 3,
            all == env_bytes(values@),
            values@.len() == 3,
            steam_app_id(all) == steam_app_id(all.subrange(i as int, 3)),
        decreases 3 - i,
    {
        let ghost rest = all.subrange(i as int, 3);
        assert(rest.drop_first() =~= all.subrange(i + 1, 3));
        if let Some(value) = &values[i] {
            let text = lossy_text(value.as_slice());
            let trimmed = trim_str(text.as_str());
            if trimmed.unicode_len() > 0 {
                return Some(trimmed.to_owned());
            }
        }
        i = i + 1;
    }
    None
}

/// A looked-up value that names no Steam app: unset, or blank once decoded
/// and trimmed.
pub open spec fn blank_value(value: Option<Vec<u8>>) -> bool {
    match value {
        Some(v) => trim(utf8_lossy(v@)).len() == 0,
        None => true,
    }
}

/// `values` holds what `lookup` gave for each variable of [`STEAM_ID_ENV`]
/// that it was asked for; a variable is asked for when every variable
/// before it gave a blank value.
pub open spec fn looked_up<F: Fn(&str) -> Option<Vec<u8>>>(
    lookup: F,
    values: Seq<Option<Vec<u8>>>,
) -> bool {
    &&& values.len() == 3
    &&& forall|i: int|
        0 <= i < 3 && (forall|j: int| 0 <= j < i ==> blank_value(#[trigger] values[j]))
            ==> call_ensures(lookup, (STEAM_ID_ENV[i],), #[trigger] values[i])
}

/// Whether a looked-up value names a Steam app.
fn names_app(value: &Option<Vec<u8>>) -> (r: bool)
    ensures
        r == !blank_value(*value),
{
    match value {
        Some(bytes) => {
            let text = lossy_text(bytes.as_slice());
            trim_str(text.as_str()).unicode_len() > 0
        },
        None => false,
    }
}

impl ProfileIdentity {
    /// Identifies a game from its command and the values of the variables
    /// in [`STEAM_ID_ENV`], in that order (`None` where one is unset).
    pub fn from_env_values(game_command: &[Vec<u8>], env_values: &[Option<Vec<u8>>; 3]) -> (id:
        Self)
        ensures
            identifies(id, byte_args(game_command@), env_bytes(env_values@)),
    {
        let command_hash = command_hash(game_command);
        if let Some(app) = steam_app_id_of(env_values) {
            let mut key = "steam-".to_owned();
            key.append(app.as_str());
            let mut label = "Steam App ".to_owned();
            label.append(app.as_str());
            return ProfileIdentity { key, label, command_hash, is_steam_profile: true };
        }
        let mut label = "Non-Steam game".to_owned();
        if game_command.len() > 0 {
            if let Some(name) = file_name(game_command[0].as_slice()) {
                let text = lossy_text(name.as_slice());
                if text.unicode_len() > 0 {
                    label = text;
                }
            }
        }
        let mut key = "command-".to_owned();
        key.append(command_hash.as_str());
        ProfileIdentity { key, label, command_hash, is_steam_profile: false }
    }

    /// Identifies a game from its command, asking `env_lookup` for the
    /// variables in [`STEAM_ID_ENV`] in that order until one names a Steam
    /// app.
    pub fn from_env_lookup<F: Fn(&str) -> Option<Vec<u8>>>(
        game_command: &[Vec<u8>],
        env_lookup: F,
    ) -> (id: Self)
        requires
            forall|key: &str| call_requires(env_lookup, (key,)),
        ensures
            exists|values: Seq<Option<Vec<u8>>>|
                looked_up(env_lookup, values) && identifies(
                    id,
                    byte_args(game_command@),
                    env_bytes(values),
                ),
    {
        let mut values: [Option<Vec<u8>>; 3] = [None, None, None];
        let mut found = false;
        let mut i: usize = 0;
        while i < 3 && !found
            invariant
                i <= 3,
                forall|key: &str| call_requires(env_lookup, (key,)),
                found ==> i > 0 && !blank_value(values@[i - 1]),
                forall|j: int|
                    0 <= j < i ==> call_ensures(
                        env_lookup,
                        (STEAM_ID_ENV[j],),
                        #[trigger] values@[j],
                    ),
                forall|j: int| 0 <= j < i && !(found && j == i - 1) ==> blank_value(#[trigger] values@[j]),
            decreases 3 - i,
        {
            let value = env_lookup(STEAM_ID_ENV[i]);
            found = names_app(&value);
            values.set(i, value);
            i = i + 1;
        }
        let id = Self::from_env_values(game_command, &values);
        proof {
            assert forall|k: int|
                0 <= k < 3 && (forall|j: int| 0 <= j < k ==> blank_value(#[trigger] values@[j]))
                implies call_ensures(env_lookup, (STEAM_ID_ENV[k],), #[trigger] values@[k]) by {
                if k >= i {
                    assert(blank_value(values@[i - 1]));
                }
            }
            assert(looked_up(env_lookup, values@));
        }
        id
    }
}

/// Reading the settings of a game right after saving them gives back what
/// was saved.
pub proof fn lemma_settings_for_after_upsert(
    before: ProfileStore,
    after: ProfileStore,
    identity: ProfileIdentity,
    settings: GamescopeSettings,
    time: u64,
    read: GamescopeSettings,
)
    requires
        upserted(before, after, identity, settings, time),
        settings_in(after.profiles@, identity.key@, read),
    ensures
        read == settings,
{
}

/// Saving the settings of one game leaves what every other game reads
/// unchanged.
pub proof fn lemma_upsert_keeps_other_games(
    before: ProfileStore,
    after: ProfileStore,
    identity: ProfileIdentity,
    settings: GamescopeSettings,
    time: u64,
    key: Seq<char>,
    read: GamescopeSettings,
)
    requires
        upserted(before, after, identity, settings, time),
        key != identity.key@,
    ensures
        settings_in(after.profiles@, key, read) == settings_in(before.profiles@, key, read),
{
}

/// Saving a game's settings a second time replaces the first save: the
/// store holds one profile for the game.
pub proof fn lemma_upsert_replaces(
    first: ProfileStore,
    second: ProfileStore,
    third: ProfileStore,
    identity: ProfileIdentity,
    settings1: GamescopeSettings,
    settings2: GamescopeSettings,
    time1: u64,
    time2: u64,
)
    requires
        upserted(first, second, identity, settings1, time1),
        upserted(second, third, identity, settings2, time2),
    ensures
        third.profiles@.len() == second.profiles@.len(),
        third.profiles@[identity.key@].settings == settings2,
{
    assert(third.profiles@.dom() =~= second.profiles@.dom());
}

/// A store without profiles gives every game the default settings, which
/// leave Gamescope's Steam integration off.
pub proof fn lemma_empty_store_gives_defaults(key: Seq<char>, read: GamescopeSettings)
    requires
        settings_in(Map::<Seq<char>, GameProfile>::empty(), key, read),
    ensures
        default_settings(read),
        !read.steam,
{
}

/// Migration keeps every profile, changes nothing but the Steam switch,
/// leaves Steam integration off in every profile of a store older than
/// version 2, and leaves a current store unchanged.
pub proof fn lemma_migration(version: u32, profiles: Map<Seq<char>, GameProfile>, key: Seq<char>)
    requires
        profiles.contains_key(key),
    ensures
        migrated_profiles(version, profiles).dom() == profiles.dom(),
        version < 2 ==> !migrated_profiles(version, profiles)[key].settings.steam,
        migrated_profiles(version, profiles)[key].label == profiles[key].label,
        migrated_profiles(version, profiles)[key].settings.extra_args
            == profiles[key].settings.extra_args,
        version >= 2 ==> migrated_profiles(version, profiles) == profiles,
{
    assert(migrated_profiles(version, profiles).dom() =~= profiles.dom());
}

/// Migration changes nothing but the Steam switch: every stored profile is
/// still there, and putting its old Steam switch back into the migrated
/// profile gives the stored profile exactly; before version 2 the switch
/// is off.
pub proof fn lemma_migration_changes_only_steam(
    version: u32,
    profiles: Map<Seq<char>, GameProfile>,
    key: Seq<char>,
)
    requires
        profiles.contains_key(key),
    ensures
        migrated_profiles(version, profiles).contains_key(key),
        ({
            let stored = profiles[key];
            let migrated = migrated_profiles(version, profiles)[key];
            &&& (GameProfile {
                settings: GamescopeSettings { steam: stored.settings.steam, ..migrated.settings },
                ..migrated
            }) == stored
            &&& version < 2 ==> !migrated.settings.steam
            &&& version >= 2 ==> migrated == stored
        }),
{
}

/// Migrating a store twice gives what migrating it once gives.
pub proof fn lemma_migration_idempotent(version: u32, profiles: Map<Seq<char>, GameProfile>)
    ensures
        migrated_profiles(CURRENT_SCHEMA_VERSION, migrated_profiles(version, profiles))
            == migrated_profiles(version, profiles),
{
}

/// A game that Steam did not name is keyed by the hash of its own command:
/// its key is `command-` followed by its command hash, which is the hash
/// of the whole command; so two such games share a key exactly when their
/// commands hash alike.
pub proof fn lemma_command_key_is_own_hash(
    a: ProfileIdentity,
    command_a: Seq<Seq<u8>>,
    values_a: Seq<Option<Seq<u8>>>,
    b: ProfileIdentity,
    command_b: Seq<Seq<u8>>,
    values_b: Seq<Option<Seq<u8>>>,
)
    requires
        identifies(a, command_a, values_a),
        identifies(b, command_b, values_b),
        steam_app_id(values_a) is None,
        steam_app_id(values_b) is None,
    ensures
        a.key@ == "command-"@ + a.command_hash@,
        a.command_hash@ == command_hash_text(command_a),
        a.key@ == b.key@ <==> command_hash_text(command_a) == command_hash_text(command_b),
{
    reveal_strlit("command-");
    if a.key@ == b.key@ {
        assert(a.command_hash@ =~= a.key@.subrange(8, a.key@.len() as int));
        assert(b.command_hash@ =~= b.key@.subrange(8, b.key@.len() as int));
    }
}

/// A game is a Steam profile exactly when Steam named it; its key then
/// starts with `steam-`, otherwise with `command-`.
pub proof fn lemma_identity_key_kind(
    id: ProfileIdentity,
    command: Seq<Seq<u8>>,
    values: Seq<Option<Seq<u8>>>,
)
    requires
        identifies(id, command, values),
    ensures
        id.is_steam_profile <==> steam_app_id(values) is Some,
        id.is_steam_profile ==> id.key@.subrange(0, 6) == "steam-"@,
        !id.is_steam_profile ==> id.key@.subrange(0, 8) == "command-"@,
{
    reveal_strlit("steam-");
    reveal_strlit("command-");
    match steam_app_id(values) {
        Some(app) => {
            assert(id.key@.subrange(0, 6) =~= "steam-"@);
        },
        None => {
            assert(id.key@.subrange(0, 8) =~= "command-"@);
        },
    }
}

} // verus!
