use gamescope_gui::profiles::{
    command_hash, digest_hash_text, file_name, migrate_store, GameProfile, ProfileIdentity, ProfileMap, ProfileStore,
    CURRENT_SCHEMA_VERSION, STEAM_ID_ENV,
};
use gamescope_gui::settings::{GamescopeSettings, WindowMode};

fn os_args(args: &[&str]) -> Vec<Vec<u8>> {
    args.iter().map(|arg| arg.as_bytes().to_vec()).collect()
}

/// A lookup of environment variables from a function that gives text.
fn lookup(f: impl Fn(&str) -> Option<&'static str>) -> impl Fn(&str) -> Option<Vec<u8>> {
    move |key: &str| f(key).map(|v| v.as_bytes().to_vec())
}

#[test]
fn prefers_steam_compat_app_id() {
    let command = os_args(&["game"]);
    let identity = ProfileIdentity::from_env_lookup(
        &command,
        lookup(|key| match key {
            "STEAM_COMPAT_APP_ID" => Some("123"),
            "SteamAppId" => Some("456"),
            _ => None,
        }),
    );

    assert_eq!(identity.key, "steam-123");
    assert_eq!(identity.label, "Steam App 123");
    assert!(identity.is_steam_profile);
}

#[test]
fn falls_back_to_command_hash() {
    let command = os_args(&["/opt/Games/My Game/run.sh", "--flag"]);
    let identity = ProfileIdentity::from_env_lookup(&command, lookup(|_| None));

    assert!(identity.key.starts_with("command-"));
    assert_eq!(identity.label, "run.sh");
    assert_eq!(identity.command_hash, command_hash(&command));
    assert!(!identity.is_steam_profile);
}

#[test]
fn default_settings_do_not_enable_gamescope_steam_mode() {
    let store = ProfileStore::default();
    let steam_identity = ProfileIdentity::from_env_lookup(
        &os_args(&["game"]),
        lookup(|key| (key == "SteamAppId").then(|| "42")),
    );
    let command_identity = ProfileIdentity::from_env_lookup(&os_args(&["game"]), lookup(|_| None));

    assert!(!store.settings_for(&steam_identity).steam);
    assert!(!store.settings_for(&command_identity).steam);
}

#[test]
fn migrates_old_implicit_steam_profiles() {
    // A store written before schema version 2, with Steam integration on.
    let mut profiles = ProfileMap::new();
    profiles.insert(
        "steam-999999".to_string(),
        GameProfile {
            label: "Steam App 999999".to_string(),
            command_hash: "abc".to_string(),
            updated_at_unix_secs: 1,
            settings: GamescopeSettings {
                steam: true,
                ..Default::default()
            },
        },
    );
    let old_store = ProfileStore { schema_version: 0, profiles };

    let loaded = migrate_store(old_store);

    assert_eq!(loaded.schema_version, CURRENT_SCHEMA_VERSION);
    assert!(!loaded.profiles.get("steam-999999").unwrap().settings.steam);
}

#[test]
fn current_stores_keep_their_steam_switch() {
    let mut store = ProfileStore::default();
    let identity = ProfileIdentity {
        key: "steam-1".to_string(),
        label: "Steam App 1".to_string(),
        command_hash: "abc".to_string(),
        is_steam_profile: true,
    };
    store.upsert(&identity, GamescopeSettings { steam: true, ..Default::default() });
    let migrated = migrate_store(store);
    assert!(migrated.settings_for(&identity).steam);
}

#[test]
fn blank_steam_ids_are_skipped_and_trimmed() {
    let identity = ProfileIdentity::from_env_lookup(
        &os_args(&["game"]),
        lookup(|key| match key {
            "STEAM_COMPAT_APP_ID" => Some(" \t"),
            "SteamAppId" => Some("  77\n"),
            _ => Some("88"),
        }),
    );
    assert_eq!(identity.key, "steam-77");
    assert_eq!(identity.label, "Steam App 77");
}

#[test]
fn non_steam_labels() {
    let none = ProfileIdentity::from_env_lookup(&[], lookup(|_| None));
    assert_eq!(none.label, "Non-Steam game");
    let root = ProfileIdentity::from_env_lookup(&os_args(&["/"]), lookup(|_| None));
    assert_eq!(root.label, "Non-Steam game");
    let up = ProfileIdentity::from_env_lookup(&os_args(&["games/.."]), lookup(|_| None));
    assert_eq!(up.label, "Non-Steam game");
    let dotted = ProfileIdentity::from_env_lookup(&os_args(&["games/run.sh/."]), lookup(|_| None));
    assert_eq!(dotted.label, "run.sh");
    assert_eq!(none.key, format!("command-{}", none.command_hash));
}

#[test]
fn file_name_agrees_with_std_path() {
    let cases = [
        "", "/", ".", "..", "./", "../", "a", "a/", "a//", "a/b", "/a/b", "a/b/", "a/.",
        "a/./", "a/..", "./a", "/.", "//", "a/b/.//", ".hidden", "a/.hidden", "a/...",
        "/opt/Games/My Game/run.sh", "a/./b", "./.", "...", "a/b/../c",
    ];
    for case in cases {
        let expected = std::path::Path::new(case)
            .file_name()
            .map(|n| n.to_str().unwrap().as_bytes().to_vec());
        assert_eq!(file_name(case.as_bytes()), expected, "file name of {:?}", case);
    }
}

#[test]
fn command_hash_is_blake3_of_nul_separated_arguments() {
    let command = os_args(&["game", "-x"]);
    let expected = blake3::hash(b"game\0-x\0").to_hex()[..16].to_string();
    assert_eq!(command_hash(&command), expected);
    assert_eq!(command_hash(&command).len(), 16);
    assert_ne!(command_hash(&os_args(&["game-x"])), command_hash(&command));
}

#[test]
fn read_after_write_and_replacement() {
    let mut store = ProfileStore::default();
    let a = ProfileIdentity {
        key: "steam-42".to_string(),
        label: "Steam App 42".to_string(),
        command_hash: "abc".to_string(),
        is_steam_profile: true,
    };
    let b = ProfileIdentity {
        key: "command-0123456789abcdef".to_string(),
        label: "run.sh".to_string(),
        command_hash: "0123456789abcdef".to_string(),
        is_steam_profile: false,
    };
    let first = GamescopeSettings { window_mode: WindowMode::Fullscreen, ..Default::default() };
    let second = GamescopeSettings { hdr: true, ..Default::default() };
    store.upsert_at(&a, first.clone(), 10);
    store.upsert_at(&b, second.clone(), 11);
    assert_eq!(store.settings_for(&a), first);
    assert_eq!(store.settings_for(&b), second);
    store.upsert(&a, second.clone());
    assert_eq!(store.settings_for(&a), second);
    assert_eq!(store.profiles.len(), 2);
    let profile = store.profiles.get("steam-42").unwrap();
    assert_eq!(profile.label, "Steam App 42");
    assert_eq!(profile.command_hash, "abc");
    assert!(profile.updated_at_unix_secs > 1_600_000_000);
    assert_eq!(store.profiles.get("command-0123456789abcdef").unwrap().updated_at_unix_secs, 11);
    assert!(store.profiles.get("steam-43").is_none());
    let (key, value) = store.profiles.entry(0);
    assert_eq!(store.profiles.get(key), Some(value));
}

#[test]
fn settings_for_unknown_games_are_defaults() {
    let store = ProfileStore::default();
    let identity = ProfileIdentity {
        key: "steam-5".to_string(),
        label: "Steam App 5".to_string(),
        command_hash: "abc".to_string(),
        is_steam_profile: true,
    };
    assert_eq!(store.settings_for(&identity), GamescopeSettings::default());
    assert_eq!(store.schema_version, 2);
    assert_eq!(store.profiles.len(), 0);
}

#[test]
fn lookup_stops_at_the_first_steam_id() {
    let asked = std::cell::RefCell::new(Vec::new());
    let identity = ProfileIdentity::from_env_lookup(&os_args(&["game"]), |key| {
        asked.borrow_mut().push(key.to_string());
        match key {
            "SteamAppId" => Some(b"9".to_vec()),
            _ => None,
        }
    });
    assert_eq!(identity.key, "steam-9");
    assert_eq!(*asked.borrow(), vec![STEAM_ID_ENV[0].to_string(), STEAM_ID_ENV[1].to_string()]);
}

#[test]
fn identity_from_looked_up_values() {
    let values = [None, Some(b"  31 ".to_vec()), Some(b"32".to_vec())];
    let identity = ProfileIdentity::from_env_values(&os_args(&["game"]), &values);
    assert_eq!(identity.key, "steam-31");
    assert_eq!(identity.label, "Steam App 31");
    let values = [None, Some(b"  ".to_vec()), None];
    let identity = ProfileIdentity::from_env_values(&os_args(&["dir/game"]), &values);
    assert_eq!(identity.label, "game");
    assert!(!identity.is_steam_profile);
}

#[test]
fn maps_with_the_same_profiles_are_equal_in_any_order() {
    let profile = |label: &str| GameProfile {
        label: label.to_string(),
        command_hash: "abc".to_string(),
        updated_at_unix_secs: 7,
        settings: GamescopeSettings::default(),
    };
    let mut first = ProfileMap::new();
    first.insert("a".to_string(), profile("A"));
    first.insert("b".to_string(), profile("B"));
    let mut second = ProfileMap::new();
    second.insert("b".to_string(), profile("B"));
    second.insert("a".to_string(), profile("A"));
    assert!(first == second);

    let mut third = ProfileMap::new();
    third.insert("b".to_string(), profile("B"));
    third.insert("a".to_string(), profile("other"));
    assert!(first != third);
    let mut fourth = ProfileMap::new();
    fourth.insert("a".to_string(), profile("A"));
    assert!(first != fourth);
    let mut fifth = ProfileMap::new();
    fifth.insert("a".to_string(), profile("A"));
    fifth.insert("c".to_string(), profile("B"));
    assert!(first != fifth);
}

#[test]
fn digest_hash_text_takes_the_first_sixteen_hex_digits() {
    let mut digest = [0u8; 32];
    digest[0] = 0xab;
    digest[1] = 0x01;
    digest[7] = 0xff;
    digest[8] = 0x12;
    assert_eq!(digest_hash_text(&digest), "ab010000000000ff");
    let real = *blake3::hash(b"game\0").as_bytes();
    assert_eq!(digest_hash_text(&real), command_hash(&os_args(&["game"])));
}

#[test]
fn profiles_are_walked_in_key_order() {
    let profile = GameProfile {
        label: "x".to_string(),
        command_hash: "abc".to_string(),
        updated_at_unix_secs: 1,
        settings: GamescopeSettings::default(),
    };
    let mut map = ProfileMap::new();
    for key in ["steam-9", "command-b", "steam-10", "command-a", "é", "steam-9", "Z"] {
        map.insert(key.to_string(), profile.clone());
    }
    let keys: Vec<String> = (0..map.len()).map(|i| map.entry(i).0.clone()).collect();
    let mut expected: Vec<String> =
        ["steam-9", "command-b", "steam-10", "command-a", "é", "Z"].iter().map(|k| k.to_string()).collect();
    expected.sort();
    assert_eq!(keys, expected);
}
