//! The file-level download policy: bounded retry, cache-busting on
//! retries, post-download hash verification, deletion of corrupt files,
//! and the exhaustion failure that names the file.
//!
//! The network transfer itself happens outside; the caller performs one
//! attempt, reports what it observed (`AttemptOutcome`), and carries out
//! the verdict. A transport failure and a served-but-wrong body are both
//! failed attempts; a non-success status that still yields bytes shows up
//! here only as a hash mismatch.

use vstd::prelude::*;
use vstd::string::StringExecFns;

use crate::game::verify_downloaded_file;
use crate::hashing::fold;
use crate::hashing::hash_eq;
use crate::hashing::to_lowercase;
use crate::misc::bust_alphabet;
use crate::misc::random_string;

verus! {

/// Append a random cache-busting query to a URL: the URL, `?`, and ten
/// random letters or digits.
pub fn with_cache_bust(url: &str) -> (r: String)
    ensures
        r@.len() == url@.len() + 11,
        r@.subrange(0, url@.len() as int) == url@,
        r@[url@.len() as int] == '?',
        forall|i: int| url@.len() < i < r@.len() ==> bust_alphabet().contains(#[trigger] r@[i]),
{
    let mut out = String::from_str(url);
    out.append("?");
    let suffix = random_string(10);
    out.append(suffix.as_str());
    proof {
        reveal_strlit("?");
        assert(out@ =~= url@ + "?"@ + suffix@);
        assert("?"@[0] == '?');
        assert(out@.subrange(0, url@.len() as int) =~= url@);
        assert forall|i: int| url@.len() < i < out@.len() implies bust_alphabet().contains(
            #[trigger] out@[i],
        ) by {
            assert(out@[i] == suffix@[i - url@.len() - 1]);
        }
    }
    out
}

/// What one attempt came to: the transfer failed outright, or a file was
/// written and re-hashed to `hash`.
pub enum AttemptOutcome {
    TransportFailed,
    Fetched { hash: String },
}

/// Whether an attempt succeeded: it fetched content whose hash matches the
/// expected one case-insensitively.
pub open spec fn outcome_ok(o: AttemptOutcome, expected: Seq<char>) -> bool {
    match o {
        AttemptOutcome::Fetched { hash } => hash_eq(hash@, expected),
        AttemptOutcome::TransportFailed => false,
    }
}

/// The hash a fetched outcome carries.
pub open spec fn fetched_hash(o: AttemptOutcome) -> Seq<char> {
    match o {
        AttemptOutcome::Fetched { hash } => hash@,
        AttemptOutcome::TransportFailed => Seq::empty(),
    }
}

/// What the caller must do after an attempt: keep the verified file and its
/// (lower-cased) hash; delete the corrupt file if there is one, wait, and
/// retry; or give up, naming the file and the attempts spent on it.
pub enum DownloadVerdict {
    Success { hash: String },
    Retry { delete_corrupt: bool },
    Exhausted { file_name: String, attempts: usize },
}

/// The retry state for one file: what is expected of it and how many of
/// the allowed attempts are spent.
pub struct DownloadTask {
    pub file_name: String,
    pub expected_hash: String,
    pub url: String,
    pub max_attempts: usize,
    pub attempts_made: usize,
}

impl DownloadTask {
    /// The attempt budget is positive and not overspent.
    pub open spec fn wf(&self) -> bool {
        self.max_attempts >= 1 && self.attempts_made <= self.max_attempts
    }

    /// A fresh task with no attempts spent.
    pub fn new(file_name: String, expected_hash: String, url: String, max_attempts: usize) -> (r:
        Self)
        requires
            max_attempts >= 1,
        ensures
            r.wf(),
            r.file_name@ == file_name@,
            r.expected_hash@ == expected_hash@,
            r.url@ == url@,
            r.max_attempts == max_attempts,
            r.attempts_made == 0,
    {
        DownloadTask { file_name, expected_hash, url, max_attempts, attempts_made: 0 }
    }

    /// The URL for the next attempt: the plain URL first; on every retry a
    /// cache-busted one, to defeat intermediary caches.
    pub fn next_url(&self) -> (r: String)
        ensures
            self.attempts_made == 0 ==> r@ == self.url@,
            self.attempts_made > 0 ==> r@.len() == self.url@.len() + 11 && r@.subrange(
                0,
                self.url@.len() as int,
            ) == self.url@ && r@[self.url@.len() as int] == '?' && forall|i: int|
                self.url@.len() < i < r@.len() ==> bust_alphabet().contains(#[trigger] r@[i]),
    {
        if self.attempts_made == 0 {
            self.url.clone()
        } else {
            with_cache_bust(self.url.as_str())
        }
    }

    /// Record one attempt and decide what follows: a matching hash is
    /// success (the canonical lower-case hash is handed back for the
    /// cache); a mismatch or transport failure is retried while attempts
    /// remain, the corrupt file deleted first; once the budget is spent,
    /// the download is exhausted and the failure names the file.
    pub fn record_outcome(&mut self, outcome: &AttemptOutcome) -> (r: DownloadVerdict)
        requires
            old(self).wf(),
            old(self).attempts_made < old(self).max_attempts,
        ensures
            final(self).wf(),
            final(self).attempts_made == old(self).attempts_made + 1,
            final(self).file_name == old(self).file_name,
            final(self).expected_hash == old(self).expected_hash,
            final(self).url == old(self).url,
            final(self).max_attempts == old(self).max_attempts,
            match r {
                DownloadVerdict::Success { hash } => outcome_ok(*outcome, old(self).expected_hash@)
                    && hash@ == fold(fetched_hash(*outcome)),
                DownloadVerdict::Retry { delete_corrupt } => !outcome_ok(
                    *outcome,
                    old(self).expected_hash@,
                ) && old(self).attempts_made + 1 < old(self).max_attempts && delete_corrupt == (
                *outcome is Fetched),
                DownloadVerdict::Exhausted { file_name, attempts } => !outcome_ok(
                    *outcome,
                    old(self).expected_hash@,
                ) && old(self).attempts_made + 1 == old(self).max_attempts && file_name@ == old(
                    self,
                ).file_name@ && attempts == old(self).max_attempts,
            },
    {
        self.attempts_made = self.attempts_made + 1;
        match outcome {
            AttemptOutcome::Fetched { hash } => {
                if verify_downloaded_file(hash.as_str(), self.expected_hash.as_str()) {
                    DownloadVerdict::Success { hash: to_lowercase(hash.as_str()) }
                } else if self.attempts_made < self.max_attempts {
                    DownloadVerdict::Retry { delete_corrupt: true }
                } else {
                    DownloadVerdict::Exhausted {
                        file_name: self.file_name.clone(),
                        attempts: self.max_attempts,
                    }
                }
            }
            AttemptOutcome::TransportFailed => {
                if self.attempts_made < self.max_attempts {
                    DownloadVerdict::Retry { delete_corrupt: false }
                } else {
                    DownloadVerdict::Exhausted {
                        file_name: self.file_name.clone(),
                        attempts: self.max_attempts,
                    }
                }
            }
        }
    }
}

/// How a run of attempts ends, replayed from a given spent count:
/// success at the first attempt whose hash matches; exhaustion once the
/// budget is spent on failures; pending while outcomes ran out with
/// attempts to spare.
pub enum RunOutcome {
    RunSuccess,
    RunExhausted,
    RunPending,
}

/// Replay `record_outcome` over a sequence of outcomes.
pub open spec fn spec_run(
    attempts_made: int,
    max_attempts: int,
    expected: Seq<char>,
    outcomes: Seq<AttemptOutcome>,
) -> RunOutcome
    decreases outcomes.len(),
{
    if outcomes.len() == 0 {
        RunOutcome::RunPending
    } else if outcome_ok(outcomes[0], expected) {
        RunOutcome::RunSuccess
    } else if attempts_made + 1 < max_attempts {
        spec_run(attempts_made + 1, max_attempts, expected, outcomes.drop_first())
    } else {
        RunOutcome::RunExhausted
    }
}

/// Corruption recovery, run to its end: every failed attempt — corrupt
/// content or transport failure — is retried while attempts remain, and a
/// run with enough failed attempts to spend the whole budget ends
/// exhausted, never silently succeeding.
pub proof fn lemma_corruption_recovery(
    attempts_made: int,
    max_attempts: int,
    expected: Seq<char>,
    outcomes: Seq<AttemptOutcome>,
)
    requires
        0 <= attempts_made < max_attempts,
        outcomes.len() >= max_attempts - attempts_made,
        forall|i: int| 0 <= i < outcomes.len() ==> !outcome_ok(#[trigger] outcomes[i], expected),
    ensures
        spec_run(attempts_made, max_attempts, expected, outcomes) == RunOutcome::RunExhausted,
    decreases outcomes.len(),
{
    if attempts_made + 1 < max_attempts {
        assert(forall|i: int|
            0 <= i < outcomes.drop_first().len() ==> !outcome_ok(
                #[trigger] outcomes.drop_first()[i],
                expected,
            ));
        lemma_corruption_recovery(attempts_made + 1, max_attempts, expected, outcomes.drop_first());
    }
}

/// One chunk of the download stream: the position advances by the chunk
/// length, clamped to the reported total size.
pub fn advance_progress(downloaded: u64, chunk_len: u64, total: u64) -> (r: u64)
    requires
        downloaded <= total,
    ensures
        r as int == vstd::math::min(downloaded as int + chunk_len as int, total as int),
        r <= total,
{
    if chunk_len <= total - downloaded {
        downloaded + chunk_len
    } else {
        total
    }
}

} // verus!
