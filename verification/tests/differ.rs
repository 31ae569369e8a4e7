use iw4x_launcher::download::AttemptOutcome;
use iw4x_launcher::download::DownloadTask;
use iw4x_launcher::download::DownloadVerdict;
use iw4x_launcher::game::get_total_verify_count;
use iw4x_launcher::game::verify_file_needs_download;
use iw4x_launcher::game::verify_files;
use iw4x_launcher::game_files::required_files_exist;
use iw4x_launcher::game_files::UpdateArchive;
use iw4x_launcher::game_files::UpdateData;
use iw4x_launcher::game_files::UpdateFile;
use iw4x_launcher::game_files::UpdateFileData;
use iw4x_launcher::strmap::StrMap;

fn file_data(blake3: &str, size: u32, path: &str) -> UpdateFileData {
    UpdateFileData {
        blake3: blake3.to_string(),
        size,
        path: path.to_string(),
    }
}

fn standalone(blake3: &str, size: u32, path: &str, url: &str) -> UpdateFile {
    UpdateFile {
        file_data: file_data(blake3, size, path),
        url: url.to_string(),
    }
}

fn archive(blake3: &str, size: u32, path: &str, url: &str, members: Vec<UpdateFileData>) -> UpdateArchive {
    UpdateArchive {
        file_data: file_data(blake3, size, path),
        url: url.to_string(),
        files: members,
    }
}

/// The concrete scenario: one manifest file, an empty installation; the
/// differ reports it stale, the download verifies against the manifest
/// hash, the cache learns the hash, and a second pass finds nothing to do.
#[test]
fn concrete_sync_scenario() {
    let manifest = UpdateData {
        archives: vec![],
        files: vec![standalone("deadbeef", 100, "x.bin", "https://cdn/x.bin")],
    };
    let mut disk = StrMap::new();
    let mut cache = StrMap::new();

    let (stale_archives, stale_files) = verify_files(&manifest, &disk, &mut cache);
    assert!(stale_archives.is_empty());
    assert_eq!(stale_files.len(), 1);
    assert_eq!(stale_files[0].file_data.path, "x.bin");

    // The download engine fetches the file; the written bytes re-hash to
    // the manifest hash and the verdict hands back the canonical hash.
    let mut task = DownloadTask::new(
        "x.bin".to_string(),
        "deadbeef".to_string(),
        stale_files[0].url.clone(),
        3,
    );
    let verdict = task.record_outcome(&AttemptOutcome::Fetched {
        hash: "DEADBEEF".to_string(),
    });
    let hash = match verdict {
        DownloadVerdict::Success { hash } => hash,
        _ => panic!("expected a verified download"),
    };
    assert_eq!(hash, "deadbeef");
    disk.insert("x.bin".to_string(), hash.clone());
    cache.insert("x.bin".to_string(), hash);

    assert_eq!(cache.get("x.bin").map(|h| h.as_str()), Some("deadbeef"));

    let (stale_archives2, stale_files2) = verify_files(&manifest, &disk, &mut cache);
    assert!(stale_archives2.is_empty());
    assert!(stale_files2.is_empty());
}

/// Idempotence: after a pass that left everything in place, another pass
/// downloads nothing and leaves the cache untouched.
#[test]
fn second_pass_downloads_nothing_and_keeps_cache() {
    let manifest = UpdateData {
        archives: vec![archive(
            "abcd", 50, "pack.zip", "https://cdn/pack.zip",
            vec![file_data("1111", 10, "data/a.bin")],
        )],
        files: vec![standalone("deadbeef", 100, "x.bin", "https://cdn/x.bin")],
    };
    let mut disk = StrMap::new();
    disk.insert("x.bin".to_string(), "deadbeef".to_string());
    disk.insert("data/a.bin".to_string(), "1111".to_string());
    let mut cache = StrMap::new();
    cache.insert("x.bin".to_string(), "deadbeef".to_string());
    cache.insert("data/a.bin".to_string(), "1111".to_string());

    let cache_before = cache.to_pairs();
    let (stale_archives, stale_files) = verify_files(&manifest, &disk, &mut cache);
    assert!(stale_archives.is_empty());
    assert!(stale_files.is_empty());
    assert_eq!(cache.to_pairs(), cache_before);
}

/// Cache equivalence: an empty cache and a correct pre-populated cache
/// yield the same stale sets.
#[test]
fn empty_and_correct_cache_agree() {
    let manifest = UpdateData {
        archives: vec![archive(
            "abcd", 50, "pack.zip", "https://cdn/pack.zip",
            vec![file_data("1111", 10, "data/a.bin"), file_data("2222", 10, "data/b.bin")],
        )],
        files: vec![
            standalone("deadbeef", 100, "x.bin", "https://cdn/x.bin"),
            standalone("feedface", 100, "y.bin", "https://cdn/y.bin"),
        ],
    };
    let mut disk = StrMap::new();
    disk.insert("x.bin".to_string(), "deadbeef".to_string());
    disk.insert("data/a.bin".to_string(), "0bad".to_string());
    // y.bin and data/b.bin are missing; data/a.bin is stale.

    // The correct cache mirrors what is actually on disk.
    let mut correct_cache = StrMap::new();
    correct_cache.insert("x.bin".to_string(), "DEADBEEF".to_string());
    correct_cache.insert("data/a.bin".to_string(), "0bad".to_string());

    let mut empty_cache = StrMap::new();
    let (a1, f1) = verify_files(&manifest, &disk, &mut empty_cache);
    let (a2, f2) = verify_files(&manifest, &disk, &mut correct_cache);

    let paths1: Vec<&str> = f1.iter().map(|f| f.file_data.path.as_str()).collect();
    let paths2: Vec<&str> = f2.iter().map(|f| f.file_data.path.as_str()).collect();
    assert_eq!(paths1, paths2);
    let archives1: Vec<&str> = a1.iter().map(|a| a.file_data.path.as_str()).collect();
    let archives2: Vec<&str> = a2.iter().map(|a| a.file_data.path.as_str()).collect();
    assert_eq!(archives1, archives2);
}

/// Archive short-circuit: an archive with zero stale members never enters
/// the download list; one stale member puts it there.
#[test]
fn archive_with_no_stale_member_is_skipped() {
    let fresh = archive(
        "abcd", 50, "fresh.zip", "https://cdn/fresh.zip",
        vec![file_data("1111", 10, "data/a.bin")],
    );
    let needs_work = archive(
        "efef", 50, "stale.zip", "https://cdn/stale.zip",
        vec![file_data("2222", 10, "data/b.bin"), file_data("3333", 10, "data/c.bin")],
    );
    let manifest = UpdateData {
        archives: vec![fresh, needs_work],
        files: vec![],
    };
    let mut disk = StrMap::new();
    disk.insert("data/a.bin".to_string(), "1111".to_string());
    disk.insert("data/b.bin".to_string(), "2222".to_string());
    // data/c.bin is missing, so only stale.zip is downloaded.
    let mut cache = StrMap::new();

    let (stale_archives, stale_files) = verify_files(&manifest, &disk, &mut cache);
    assert!(stale_files.is_empty());
    let names: Vec<&str> = stale_archives.iter().map(|a| a.file_data.path.as_str()).collect();
    assert_eq!(names, vec!["stale.zip"]);
}

/// The diff itself is idempotent: run again immediately, it reports the
/// same stale entries and leaves the once-filled cache untouched.
#[test]
fn repeated_diff_reports_the_same_and_fixes_the_cache() {
    let manifest = UpdateData {
        archives: vec![],
        files: vec![
            standalone("deadbeef", 100, "x.bin", "https://cdn/x.bin"),
            standalone("feedface", 100, "y.bin", "https://cdn/y.bin"),
        ],
    };
    let mut disk = StrMap::new();
    disk.insert("x.bin".to_string(), "DEADBEEF".to_string());
    // y.bin is missing and stays stale in both passes.
    let mut cache = StrMap::new();

    let (_, stale1) = verify_files(&manifest, &disk, &mut cache);
    let cache_after_first = cache.to_pairs();
    let (_, stale2) = verify_files(&manifest, &disk, &mut cache);

    let paths1: Vec<&str> = stale1.iter().map(|f| f.file_data.path.as_str()).collect();
    let paths2: Vec<&str> = stale2.iter().map(|f| f.file_data.path.as_str()).collect();
    assert_eq!(paths1, vec!["y.bin"]);
    assert_eq!(paths1, paths2);
    assert_eq!(cache.to_pairs(), cache_after_first);
}

#[test]
fn fresh_computation_fills_the_cache() {
    let mut disk = StrMap::new();
    disk.insert("x.bin".to_string(), "DEADBEEF".to_string());
    let mut cache = StrMap::new();

    let stale = verify_file_needs_download(&file_data("deadbeef", 100, "x.bin"), &disk, &mut cache);
    assert!(!stale);
    // The freshly observed hash is cached in lower case.
    assert_eq!(cache.get("x.bin").map(|h| h.as_str()), Some("deadbeef"));

    // A cache hit leaves the entry untouched.
    let stale2 = verify_file_needs_download(&file_data("deadbeef", 100, "x.bin"), &disk, &mut cache);
    assert!(!stale2);
    assert_eq!(cache.to_pairs().len(), 1);
}

#[test]
fn total_verify_count_sums_files_and_members() {
    let manifest = UpdateData {
        archives: vec![archive(
            "abcd", 50, "pack.zip", "https://cdn/pack.zip",
            vec![file_data("1111", 10, "data/a.bin"), file_data("2222", 10, "data/b.bin")],
        )],
        files: vec![standalone("deadbeef", 100, "x.bin", "https://cdn/x.bin")],
    };
    assert_eq!(get_total_verify_count(&manifest), 3);
}

#[test]
fn required_files_must_all_exist() {
    let mut disk = StrMap::new();
    disk.insert("binkw32.dll".to_string(), "aa".to_string());
    assert!(!required_files_exist(&disk));
    disk.insert("mss32.dll".to_string(), "bb".to_string());
    assert!(required_files_exist(&disk));
}
