use std::path::Path;

use iw4x_launcher::dlc::Dlc;
use iw4x_launcher::dlc::DlcError;
use iw4x_launcher::dlc::DlcFile;
use iw4x_launcher::dlc::DlcFileType;
use iw4x_launcher::dlc::DlcManifest;
use iw4x_launcher::dlc::installation_dirs;
use iw4x_launcher::strmap::StrMap;

fn dlc_file(blake3: &str, size: u64, path: &str, asset_name: &str) -> DlcFile {
    DlcFile {
        blake3: blake3.to_string(),
        size,
        path: path.to_string(),
        asset_name: asset_name.to_string(),
    }
}

#[test]
fn test_file_type_detection() {
    assert_eq!(DlcFileType::from_filename("test.ff"), DlcFileType::FF);
    assert_eq!(DlcFileType::from_filename("test.iwd"), DlcFileType::IWD);
    assert!(matches!(
        DlcFileType::from_filename("test.unknown"),
        DlcFileType::Unknown(_)
    ));
}

#[test]
fn test_cache_key_generation() {
    let file = dlc_file("test123", 1000, "path/to/file", "test.ff");
    assert_eq!(file.cache_key(), "dlc/test.ff");
}

#[test]
fn test_cdn_url_generation() {
    let file = dlc_file(
        "test123",
        1000,
        "iw3/zone/dlc/mp_convoy_load.ff",
        "mp_convoy_load.ff",
    );
    let url = file.cdn_url("https://cdn.iw4x.io");
    assert_eq!(url, "https://cdn.iw4x.io/iw3/zone/dlc/mp_convoy_load.ff");
}

#[test]
fn test_installation_paths() {
    let base = Path::new("/game");

    let ff_path = DlcFileType::FF.get_installation_path("/game");
    assert_eq!(
        Path::new(&ff_path),
        base.join("zone").join("dlc").as_path()
    );

    let iwd_path = DlcFileType::IWD.get_installation_path("/game");
    assert_eq!(Path::new(&iwd_path), base.join("iw4x").as_path());
}

#[test]
fn no_extension_is_unknown() {
    assert!(matches!(
        DlcFileType::from_filename("noext"),
        DlcFileType::Unknown(e) if e == "noext"
    ));
    assert!(matches!(
        DlcFileType::from_filename("a."),
        DlcFileType::Unknown(e) if e.is_empty()
    ));
}

#[test]
fn outdated_files_mixes_missing_stale_and_fresh() {
    let manifest = DlcManifest {
        files: vec![
            dlc_file("aaaa", 10, "iw3/a.ff", "a.ff"),
            dlc_file("bbbb", 10, "iw3/b.ff", "b.ff"),
            dlc_file("cccc", 10, "iw3/c.iwd", "c.iwd"),
        ],
    };
    let mut disk = StrMap::new();
    // a.ff present and matching (case-insensitively), b.ff missing,
    // c.iwd present but stale.
    disk.insert("zone/dlc/a.ff".to_string(), "AAAA".to_string());
    disk.insert("iw4x/c.iwd".to_string(), "0000".to_string());
    let mut cache = StrMap::new();

    let outdated = manifest.get_outdated_files(&disk, &mut cache);
    let names: Vec<&str> = outdated.iter().map(|f| f.asset_name.as_str()).collect();
    assert_eq!(names, vec!["b.ff", "c.iwd"]);
}

#[test]
fn cached_hash_decides_without_disk_hash() {
    let manifest = DlcManifest {
        files: vec![dlc_file("aaaa", 10, "iw3/a.ff", "a.ff")],
    };
    let mut disk = StrMap::new();
    disk.insert("zone/dlc/a.ff".to_string(), "ffff".to_string());
    let mut cache = StrMap::new();
    cache.insert("dlc/a.ff".to_string(), "aaaa".to_string());

    // The cached hash matches the manifest, so the stale disk hash is
    // never consulted.
    let outdated = manifest.get_outdated_files(&disk, &mut cache);
    assert!(outdated.is_empty());
}

#[test]
fn fresh_dlc_checks_fill_the_cache() {
    let manifest = DlcManifest {
        files: vec![dlc_file("aaaa", 10, "iw3/a.ff", "a.ff")],
    };
    let mut disk = StrMap::new();
    disk.insert("zone/dlc/a.ff".to_string(), "AAAA".to_string());
    let mut cache = StrMap::new();

    let outdated = manifest.get_outdated_files(&disk, &mut cache);
    assert!(outdated.is_empty());
    // The freshly observed hash is cached, lower-cased, under the cache key.
    assert_eq!(cache.get("dlc/a.ff").map(|h| h.as_str()), Some("aaaa"));
}

#[test]
fn installation_dirs_are_deduplicated() {
    let files = vec![
        dlc_file("a", 1, "p/a.ff", "a.ff"),
        dlc_file("b", 1, "p/b.ff", "b.ff"),
        dlc_file("c", 1, "p/c.iwd", "c.iwd"),
    ];
    let mut dirs = installation_dirs(&files);
    dirs.sort();
    assert_eq!(dirs, vec!["iw4x".to_string(), "zone/dlc".to_string()]);
}

#[test]
fn dlc_context_defaults() {
    let dlc = Dlc::new();
    let ctx = dlc.context();
    assert_eq!(ctx.manifest_url, "https://cdn.iw4x.io/update.json");
    assert_eq!(ctx.cdn_base_url, "https://cdn.iw4x.io");
    assert_eq!(ctx.max_retry_attempts, 3);
    assert_eq!(ctx.retry_delay_ms, 2000);
}

#[test]
fn dlc_error_messages_name_the_asset() {
    let e = DlcError::Integrity {
        file: "a.ff".to_string(),
        expected: "aaaa".to_string(),
        actual: "bbbb".to_string(),
    };
    assert_eq!(
        e.message(),
        "Integrity check failed for 'a.ff': expected aaaa, got bbbb"
    );

    let e = DlcError::DownloadFailed {
        file: "a.ff".to_string(),
        attempts: 3,
    };
    assert_eq!(e.message(), "Download failed for 'a.ff' after 3 attempts");

    let e = DlcError::FileSystem {
        path: "zone/dlc".to_string(),
        operation: "directory creation".to_string(),
    };
    assert_eq!(
        e.message(),
        "File system error during directory creation on path 'zone/dlc'"
    );
}
