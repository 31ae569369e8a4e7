use iw4x_launcher::game::verify_downloaded_file;
use iw4x_launcher::hashing::eq_ignore_case;
use iw4x_launcher::hashing::to_lowercase;
use iw4x_launcher::misc::human_readable_bytes;
use iw4x_launcher::misc::prefix;
use iw4x_launcher::misc::u64_to_string;
use iw4x_launcher::misc::PrintPrefix;
use iw4x_launcher::release_tool::build_release_definition;
use iw4x_launcher::release_tool::child_relative_path;
use iw4x_launcher::release_tool::is_zip_filename;
use iw4x_launcher::release_tool::renamed_update_file_name;
use iw4x_launcher::release_tool::ScannedFile;
use iw4x_launcher::release_tool::ScannedMember;

#[test]
fn content_hashes_are_lowercase_blake3_hex() {
    let h = iw4x_launcher::hashing::hash_bytes(b"");
    assert_eq!(
        h,
        "af1349b9f5f9a1a6a0404dea36dcc9499bcb25c9adc112b7cc9a93cae41f3262"
    );
    let h2 = iw4x_launcher::hashing::hash_bytes(b"some update payload");
    assert_eq!(h2.len(), 64);
    assert!(h2.chars().all(|c| c.is_ascii_hexdigit() && !c.is_ascii_uppercase()));
    assert!(iw4x_launcher::hashing::bytes_match_hash(
        b"",
        "AF1349B9F5F9A1A6A0404DEA36DCC9499BCB25C9ADC112B7CC9A93CAE41F3262"
    ));
    assert!(!iw4x_launcher::hashing::bytes_match_hash(b"x", &h));
}

#[test]
fn hashes_compare_case_insensitively() {
    assert!(eq_ignore_case("DeadBeef", "dEADbEEF"));
    assert!(!eq_ignore_case("deadbeef", "deadbee"));
    assert!(!eq_ignore_case("deadbeef", "deadbeee"));
    assert!(verify_downloaded_file("ABCD", "abcd"));
    assert!(!verify_downloaded_file("abcd", "abce"));
}

#[test]
fn lowercasing_folds_ascii_only() {
    assert_eq!(to_lowercase("DeadBEEF-123"), "deadbeef-123");
    assert_eq!(to_lowercase(""), "");
}

#[test]
fn prefixes_are_padded() {
    assert_eq!(prefix("info"), "[Info]    ");
    assert_eq!(prefix("error"), "[Error]   ");
    assert_eq!(prefix("renamed"), "[Renamed] ");
    assert_eq!(prefix("something-else"), "something-else");

    let p = PrintPrefix {
        text: "Info".to_string(),
        padding: 4,
    };
    assert_eq!(p.formatted(), "[Info]    ");
}

#[test]
fn byte_counts_read_like_sizes() {
    assert_eq!(human_readable_bytes(0), "0.00B");
    assert_eq!(human_readable_bytes(1023), "1023.00B");
    assert_eq!(human_readable_bytes(1024), "1.00KB");
    assert_eq!(human_readable_bytes(1536), "1.50KB");
    assert_eq!(human_readable_bytes(1048576), "1.00MB");
    assert_eq!(human_readable_bytes(5 * 1024 * 1024 * 1024), "5.00GB");
}

#[test]
fn numbers_render_in_decimal() {
    assert_eq!(u64_to_string(0), "0");
    assert_eq!(u64_to_string(7), "7");
    assert_eq!(u64_to_string(12345), "12345");
    assert_eq!(u64_to_string(u64::MAX), "18446744073709551615");
}

#[test]
fn update_files_get_technical_names() {
    assert_eq!(
        renamed_update_file_name("pack.zip", true),
        "__launcher_pack.zip"
    );
    assert_eq!(
        renamed_update_file_name("iw4x.dll", false),
        "__launcher_iw4x_dll"
    );
}

#[test]
fn zip_files_are_detected_by_extension() {
    assert!(is_zip_filename("pack.zip"));
    assert!(is_zip_filename("pack.ZIP"));
    assert!(!is_zip_filename("pack.txt"));
    assert!(!is_zip_filename("zip"));
}

#[test]
fn relative_paths_join_with_slashes() {
    assert_eq!(child_relative_path("", "a.bin"), "a.bin");
    assert_eq!(child_relative_path("dir", "a.bin"), "dir/a.bin");
    assert_eq!(child_relative_path("dir/sub", "a.bin"), "dir/sub/a.bin");
}

#[test]
fn scanned_tree_becomes_a_definition() {
    let entries = vec![
        ScannedFile {
            relative_path: "update.json".to_string(),
            file_name: "update.json".to_string(),
            size: 5,
            blake3: "ffff".to_string(),
            members: None,
        },
        ScannedFile {
            relative_path: "x.bin".to_string(),
            file_name: "__launcher_x_bin".to_string(),
            size: 10,
            blake3: "aaaa".to_string(),
            members: None,
        },
        ScannedFile {
            relative_path: "pack.zip".to_string(),
            file_name: "__launcher_pack.zip".to_string(),
            size: 99,
            blake3: "cccc".to_string(),
            members: Some(vec![ScannedMember {
                path: "data/a.bin".to_string(),
                size: 10,
                blake3: "bbbb".to_string(),
            }]),
        },
    ];

    let dto = build_release_definition(&entries);
    // The definition file itself is not listed.
    assert_eq!(dto.files.len(), 2);
    assert_eq!(dto.files[0].path, "x.bin");
    assert_eq!(dto.files[0].asset_name.as_deref(), Some("__launcher_x_bin"));
    assert!(dto.files[0].archive.is_none());
    assert_eq!(dto.files[1].path, "data/a.bin");
    assert_eq!(dto.files[1].archive.as_deref(), Some("__launcher_pack.zip"));
    assert_eq!(dto.archives.len(), 1);
    assert_eq!(dto.archives[0].name, "__launcher_pack.zip");
    assert_eq!(dto.archives[0].size, 99);
}
