use iw4x_launcher::download::advance_progress;
use iw4x_launcher::download::with_cache_bust;
use iw4x_launcher::download::AttemptOutcome;
use iw4x_launcher::download::DownloadTask;
use iw4x_launcher::download::DownloadVerdict;
use iw4x_launcher::misc::random_string;

/// Corruption recovery: a mismatching download is deleted and retried up
/// to the attempt limit, then the failure names the file.
#[test]
fn corrupt_downloads_retry_then_exhaust() {
    let mut task = DownloadTask::new(
        "x.bin".to_string(),
        "deadbeef".to_string(),
        "https://cdn/x.bin".to_string(),
        2,
    );

    let first = task.record_outcome(&AttemptOutcome::Fetched {
        hash: "0bad0bad".to_string(),
    });
    assert!(matches!(first, DownloadVerdict::Retry { delete_corrupt: true }));

    let second = task.record_outcome(&AttemptOutcome::Fetched {
        hash: "0bad0bad".to_string(),
    });
    match second {
        DownloadVerdict::Exhausted { file_name, attempts } => {
            assert_eq!(file_name, "x.bin");
            assert_eq!(attempts, 2);
        }
        _ => panic!("the attempt budget was spent; the download must be exhausted"),
    }
}

#[test]
fn transport_failures_retry_without_deleting() {
    let mut task = DownloadTask::new(
        "x.bin".to_string(),
        "deadbeef".to_string(),
        "https://cdn/x.bin".to_string(),
        3,
    );
    let v = task.record_outcome(&AttemptOutcome::TransportFailed);
    assert!(matches!(v, DownloadVerdict::Retry { delete_corrupt: false }));
}

#[test]
fn matching_hash_succeeds_with_canonical_hash() {
    let mut task = DownloadTask::new(
        "x.bin".to_string(),
        "DeadBeef".to_string(),
        "https://cdn/x.bin".to_string(),
        2,
    );
    let v = task.record_outcome(&AttemptOutcome::Fetched {
        hash: "DEADBEEF".to_string(),
    });
    match v {
        DownloadVerdict::Success { hash } => assert_eq!(hash, "deadbeef"),
        _ => panic!("a matching hash must succeed"),
    }
}

#[test]
fn first_attempt_uses_plain_url_retries_bust_cache() {
    let mut task = DownloadTask::new(
        "x.bin".to_string(),
        "deadbeef".to_string(),
        "https://cdn/x.bin".to_string(),
        3,
    );
    assert_eq!(task.next_url(), "https://cdn/x.bin");

    let _ = task.record_outcome(&AttemptOutcome::TransportFailed);
    let retry_url = task.next_url();
    assert_eq!(retry_url.len(), "https://cdn/x.bin".len() + 11);
    assert!(retry_url.starts_with("https://cdn/x.bin?"));
    assert!(retry_url[18..].chars().all(|c| c.is_ascii_alphanumeric()));
}

#[test]
fn cache_bust_appends_query() {
    let bust = with_cache_bust("https://cdn/a");
    assert_eq!(bust.len(), "https://cdn/a".len() + 11);
    assert!(bust.starts_with("https://cdn/a?"));
    assert!(bust["https://cdn/a?".len()..]
        .chars()
        .all(|c| c.is_ascii_alphanumeric()));
}

#[test]
fn random_strings_have_length_and_alphabet() {
    let s = random_string(10);
    assert_eq!(s.len(), 10);
    assert!(s.chars().all(|c| c.is_ascii_alphanumeric()));
    let t = random_string(0);
    assert!(t.is_empty());
}

#[test]
fn progress_clamps_at_total() {
    assert_eq!(advance_progress(0, 300, 1000), 300);
    assert_eq!(advance_progress(900, 300, 1000), 1000);
    assert_eq!(advance_progress(1000, 5, 1000), 1000);
}
