use iw4x_launcher::extract::extraction_plan;
use iw4x_launcher::extract::member_needs_extraction;
use iw4x_launcher::extract::missing_member_message;
use iw4x_launcher::game::verify_files;
use iw4x_launcher::game_files::UpdateData;
use iw4x_launcher::game_files::UpdateFile;
use iw4x_launcher::game_files::UpdateFileData;
use iw4x_launcher::reconcile::apply_deletions;
use iw4x_launcher::reconcile::apply_renames;
use iw4x_launcher::reconcile::migration_plan;
use iw4x_launcher::strmap::StrMap;

fn file_data(blake3: &str, size: u32, path: &str) -> UpdateFileData {
    UpdateFileData {
        blake3: blake3.to_string(),
        size,
        path: path.to_string(),
    }
}

/// Extraction resume: members already on disk with correct hashes are
/// skipped; only the missing or mismatching ones are re-extracted.
#[test]
fn extraction_resumes_with_remaining_members() {
    let members = vec![
        file_data("1111", 10, "data/done.bin"),
        file_data("2222", 10, "data/missing.bin"),
        file_data("3333", 10, "data/corrupt.bin"),
    ];
    let mut disk = StrMap::new();
    disk.insert("data/done.bin".to_string(), "1111".to_string());
    disk.insert("data/corrupt.bin".to_string(), "9999".to_string());

    let plan = extraction_plan(&members, &disk);
    let paths: Vec<&str> = plan.iter().map(|m| m.path.as_str()).collect();
    assert_eq!(paths, vec!["data/missing.bin", "data/corrupt.bin"]);

    assert!(!member_needs_extraction(&members[0], &disk));
    assert!(member_needs_extraction(&members[1], &disk));
}

#[test]
fn member_hashes_compare_case_insensitively() {
    let member = file_data("ABCD", 10, "data/a.bin");
    let mut disk = StrMap::new();
    disk.insert("data/a.bin".to_string(), "abcd".to_string());
    assert!(!member_needs_extraction(&member, &disk));
}

#[test]
fn missing_member_is_a_hard_error() {
    assert_eq!(
        missing_member_message("data/a.bin", "pack.zip"),
        "Could not find file data/a.bin in archive pack.zip"
    );
}

/// Rename-before-diff: a file that only moved is renamed into place and
/// then reported up to date, with nothing downloaded.
#[test]
fn renamed_file_is_up_to_date_without_download() {
    let manifest = UpdateData {
        archives: vec![],
        files: vec![UpdateFile {
            file_data: file_data("deadbeef", 100, "b.dat"),
            url: "https://cdn/b.dat".to_string(),
        }],
    };
    let mut disk = StrMap::new();
    disk.insert("a.dat".to_string(), "deadbeef".to_string());

    let renames = vec![("a.dat".to_string(), "b.dat".to_string())];
    apply_renames(&mut disk, &renames);

    assert!(!disk.contains("a.dat"));
    assert_eq!(disk.get("b.dat").map(|h| h.as_str()), Some("deadbeef"));

    let mut cache = StrMap::new();
    let (stale_archives, stale_files) = verify_files(&manifest, &disk, &mut cache);
    assert!(stale_archives.is_empty());
    assert!(stale_files.is_empty());
}

#[test]
fn renames_skip_missing_sources() {
    let mut disk = StrMap::new();
    disk.insert("keep.bin".to_string(), "aa".to_string());
    let renames = vec![("gone.bin".to_string(), "new.bin".to_string())];
    apply_renames(&mut disk, &renames);
    assert!(!disk.contains("new.bin"));
    assert!(disk.contains("keep.bin"));
}

#[test]
fn deletions_remove_files_and_subtrees() {
    let mut disk = StrMap::new();
    disk.insert("old.log".to_string(), "aa".to_string());
    disk.insert("tmp/a.bin".to_string(), "bb".to_string());
    disk.insert("tmp/deep/b.bin".to_string(), "cc".to_string());
    disk.insert("tmpfile".to_string(), "dd".to_string());

    let deletions = vec!["old.log".to_string(), "tmp".to_string()];
    apply_deletions(&mut disk, &deletions);

    assert!(!disk.contains("old.log"));
    assert!(!disk.contains("tmp/a.bin"));
    assert!(!disk.contains("tmp/deep/b.bin"));
    // A mere name prefix is not inside the directory.
    assert!(disk.contains("tmpfile"));
}

#[test]
fn deletions_tolerate_missing_targets() {
    let mut disk = StrMap::new();
    disk.insert("keep.bin".to_string(), "aa".to_string());
    let deletions = vec!["not-there.log".to_string()];
    apply_deletions(&mut disk, &deletions);
    assert!(disk.contains("keep.bin"));
    assert_eq!(disk.to_pairs().len(), 1);
}

#[test]
fn migration_plan_moves_config_and_cleans_up() {
    let plan = migration_plan(false);
    assert_eq!(plan.renames.len(), 1);
    assert_eq!(plan.renames[0].0, "iw4x-launcher.json");
    assert_eq!(plan.renames[0].1, "launcher/config.json");
    assert_eq!(plan.deletions.len(), 6);
    assert!(plan.deletions.contains(&"alterware-launcher.json".to_string()));

    let plan_with_other = migration_plan(true);
    assert_eq!(plan_with_other.deletions.len(), 3);
    assert!(!plan_with_other.deletions.contains(&"awcache.json".to_string()));
}
