use iw4x_launcher::config::default_args;
use iw4x_launcher::config::Config;
use iw4x_launcher::github::download_url;
use iw4x_launcher::github::GitHubAsset;
use iw4x_launcher::github::GitHubAssetDto;
use iw4x_launcher::github::GitHubRelease;
use iw4x_launcher::github::GitHubReleaseDto;
use iw4x_launcher::release_definition::UpdateArchiveDto;
use iw4x_launcher::release_definition::UpdateDataDto;
use iw4x_launcher::release_definition::UpdateFileDto;
use iw4x_launcher::strmap::StrMap;
use iw4x_launcher::sync::advance;
use iw4x_launcher::sync::initial_phase;
use iw4x_launcher::sync::SyncEvent;
use iw4x_launcher::sync::SyncPhase;
use iw4x_launcher::version::self_update_available;

fn release_with(assets: Vec<(&str, &str)>) -> GitHubRelease {
    GitHubRelease {
        _repo_owner: "iw4x".to_string(),
        repo_name: "iw4x-rawfiles".to_string(),
        release_name: "v1.0.0".to_string(),
        assets: assets
            .into_iter()
            .map(|(name, url)| GitHubAsset {
                name: name.to_string(),
                url: url.to_string(),
            })
            .collect(),
    }
}

fn file_dto(path: &str, asset_name: Option<&str>, archive: Option<&str>) -> UpdateFileDto {
    UpdateFileDto {
        blake3: "aaaa".to_string(),
        size: 10,
        path: path.to_string(),
        asset_name: asset_name.map(|s| s.to_string()),
        archive: archive.map(|s| s.to_string()),
    }
}

#[test]
fn definition_links_against_release_assets() {
    let release = release_with(vec![
        ("pack.zip", "https://gh/pack.zip"),
        ("x.bin", "https://gh/x.bin"),
    ]);
    let dto = UpdateDataDto {
        archives: vec![UpdateArchiveDto {
            blake3: "cccc".to_string(),
            size: 99,
            name: "pack.zip".to_string(),
        }],
        files: vec![
            file_dto("data/a.bin", None, Some("pack.zip")),
            file_dto("x.bin", Some("x.bin"), None),
        ],
    };

    let data = dto.into_domain(&release).expect("all references resolve");
    assert_eq!(data.archives.len(), 1);
    assert_eq!(data.archives[0].url, "https://gh/pack.zip");
    assert_eq!(data.archives[0].files.len(), 1);
    assert_eq!(data.archives[0].files[0].path, "data/a.bin");
    assert_eq!(data.files.len(), 1);
    assert_eq!(data.files[0].url, "https://gh/x.bin");
}

#[test]
fn dangling_archive_reference_fails() {
    let release = release_with(vec![("x.bin", "https://gh/x.bin")]);
    let dto = UpdateDataDto {
        archives: vec![],
        files: vec![file_dto("data/a.bin", None, Some("pack.zip"))],
    };
    let err = match dto.into_domain(&release) {
        Ok(_) => panic!("the archive is unknown"),
        Err(e) => e,
    };
    assert_eq!(err, "Archive pack.zip of file data/a.bin could not be found");
}

#[test]
fn missing_release_asset_fails() {
    let release = release_with(vec![]);
    let dto = UpdateDataDto {
        archives: vec![UpdateArchiveDto {
            blake3: "cccc".to_string(),
            size: 99,
            name: "pack.zip".to_string(),
        }],
        files: vec![],
    };
    let err = match dto.into_domain(&release) {
        Ok(_) => panic!("the asset is missing"),
        Err(e) => e,
    };
    assert_eq!(
        err,
        "Archive pack.zip from definition is missing its asset in release v1.0.0"
    );
}

#[test]
fn file_naming_no_linkage_is_ignored() {
    let release = release_with(vec![]);
    let dto = UpdateDataDto {
        archives: vec![],
        files: vec![file_dto("data/a.bin", None, None)],
    };
    let data = dto.into_domain(&release).expect("nothing to resolve");
    assert!(data.archives.is_empty());
    assert!(data.files.is_empty());
}

#[test]
fn release_dto_keeps_assets() {
    let dto = GitHubReleaseDto {
        name: "v2.0.0".to_string(),
        assets: vec![GitHubAssetDto {
            name: "x.bin".to_string(),
            browser_download_url: "https://gh/x.bin".to_string(),
        }],
    };
    let release = dto.into_release("iw4x".to_string(), "launcher".to_string());
    assert_eq!(release.release_name, "v2.0.0");
    assert_eq!(release.assets.len(), 1);
    assert_eq!(release.assets[0].name, "x.bin");
    assert_eq!(release.assets[0].url, "https://gh/x.bin");
}

#[test]
fn download_urls_point_at_releases() {
    assert_eq!(
        download_url("iw4x", "launcher", Some("v1.2.3")),
        "https://github.com/iw4x/launcher/releases/download/v1.2.3"
    );
    assert_eq!(
        download_url("iw4x", "launcher", None),
        "https://github.com/iw4x/launcher/releases/latest"
    );
}

#[test]
fn strmap_inserts_replace_and_remove() {
    let mut m = StrMap::new();
    assert!(!m.contains("a"));
    m.insert("a".to_string(), "1".to_string());
    m.insert("b".to_string(), "2".to_string());
    m.insert("a".to_string(), "3".to_string());
    assert_eq!(m.get("a").map(|v| v.as_str()), Some("3"));
    assert_eq!(m.get("b").map(|v| v.as_str()), Some("2"));
    assert_eq!(m.to_pairs().len(), 2);
    m.remove("a");
    assert!(!m.contains("a"));
    assert!(m.contains("b"));
}

#[test]
fn config_defaults_and_overrides() {
    let mut cfg = Config::default();
    assert!(!cfg.offline);
    assert_eq!(cfg.args, "-stdout");
    assert_eq!(default_args(), "-stdout");

    cfg.apply_cli_overrides(true, false, false, true, false, false, Some("+map mp_rust".to_string()));
    assert!(cfg.offline);
    assert!(cfg.force_update);
    assert!(!cfg.testing);
    assert_eq!(cfg.args, "+map mp_rust");

    cfg.apply_cli_overrides(false, false, false, false, false, false, None);
    assert!(cfg.offline, "switches only ever turn on");
    assert_eq!(cfg.args, "+map mp_rust");
}

#[test]
fn sync_pass_walks_its_phases() {
    let p = initial_phase();
    assert_eq!(p, SyncPhase::ReconcilingRenames);
    let p = advance(p, SyncEvent::RenamesApplied).unwrap();
    assert_eq!(p, SyncPhase::Diffing);
    let p = advance(p, SyncEvent::DiffFoundWork).unwrap();
    assert_eq!(p, SyncPhase::Downloading);
    let p = advance(p, SyncEvent::DownloadsFinished).unwrap();
    assert_eq!(p, SyncPhase::Extracting);
    let p = advance(p, SyncEvent::ExtractionFinished).unwrap();
    assert_eq!(p, SyncPhase::ReconcilingDeletions);
    let p = advance(p, SyncEvent::DeletionsApplied).unwrap();
    assert_eq!(p, SyncPhase::Persisting);
    let p = advance(p, SyncEvent::CachePersisted).unwrap();
    assert_eq!(p, SyncPhase::Done);

    assert!(advance(SyncPhase::Done, SyncEvent::RenamesApplied).is_none());
    assert_eq!(
        advance(SyncPhase::Downloading, SyncEvent::DownloadFailedFatally),
        Some(SyncPhase::Aborted)
    );
    assert_eq!(
        advance(SyncPhase::Diffing, SyncEvent::DiffFoundNothing),
        Some(SyncPhase::UpToDate)
    );
    assert_eq!(
        advance(SyncPhase::UpToDate, SyncEvent::CachePersisted),
        Some(SyncPhase::Done)
    );
}

#[test]
fn update_check_compares_semver() {
    assert!(self_update_available("1.2.3", "v1.2.4"));
    assert!(self_update_available("1.2.3", "1.3.0"));
    assert!(!self_update_available("1.2.3", "v1.2.3"));
    assert!(!self_update_available("2.0.0", "v1.9.9"));
    // A pre-release of the running triple does not count as newer, but a
    // release does count against a running pre-release.
    assert!(!self_update_available("1.2.3", "v1.2.3-rc.1"));
    assert!(self_update_available("1.2.3-rc.1", "v1.2.3"));
    // Unparseable versions never trigger an update.
    assert!(!self_update_available("1.2.3", "latest"));
    assert!(!self_update_available("not a version", "v9.9.9"));
}
