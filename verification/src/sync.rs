//! The sync pass as a state machine: reconciliation renames, then the
//! diff, then downloads and extraction for whatever was stale, then the
//! reconciliation deletions, and finally the cache is persisted — also on
//! the up-to-date fast path, since diffing may have refreshed it. An
//! unretryable download or extraction failure aborts the pass.

use vstd::prelude::*;

verus! {

/// Where a sync pass stands.
#[derive(PartialEq, Eq, Structural, Clone, Copy, Debug)]
pub enum SyncPhase {
    ReconcilingRenames,
    Diffing,
    UpToDate,
    Downloading,
    Extracting,
    ReconcilingDeletions,
    Persisting,
    Done,
    Aborted,
}

/// What just finished (or failed) in the pass.
#[derive(PartialEq, Eq, Structural, Clone, Copy, Debug)]
pub enum SyncEvent {
    RenamesApplied,
    DiffFoundWork,
    DiffFoundNothing,
    DownloadsFinished,
    DownloadFailedFatally,
    ExtractionFinished,
    ExtractionFailed,
    DeletionsApplied,
    CachePersisted,
}

/// The phase a pass starts in.
pub fn initial_phase() -> (r: SyncPhase)
    ensures
        r == SyncPhase::ReconcilingRenames,
{
    SyncPhase::ReconcilingRenames
}

/// The one transition each event makes from each phase; `None` for an
/// event that cannot occur there.
pub open spec fn spec_advance(p: SyncPhase, e: SyncEvent) -> Option<SyncPhase> {
    match (p, e) {
        (SyncPhase::ReconcilingRenames, SyncEvent::RenamesApplied) => Some(SyncPhase::Diffing),
        (SyncPhase::Diffing, SyncEvent::DiffFoundWork) => Some(SyncPhase::Downloading),
        (SyncPhase::Diffing, SyncEvent::DiffFoundNothing) => Some(SyncPhase::UpToDate),
        (SyncPhase::UpToDate, SyncEvent::CachePersisted) => Some(SyncPhase::Done),
        (SyncPhase::Downloading, SyncEvent::DownloadsFinished) => Some(SyncPhase::Extracting),
        (SyncPhase::Downloading, SyncEvent::DownloadFailedFatally) => Some(SyncPhase::Aborted),
        (SyncPhase::Extracting, SyncEvent::ExtractionFinished) => Some(
            SyncPhase::ReconcilingDeletions,
        ),
        (SyncPhase::Extracting, SyncEvent::ExtractionFailed) => Some(SyncPhase::Aborted),
        (SyncPhase::ReconcilingDeletions, SyncEvent::DeletionsApplied) => Some(
            SyncPhase::Persisting,
        ),
        (SyncPhase::Persisting, SyncEvent::CachePersisted) => Some(SyncPhase::Done),
        _ => None,
    }
}

/// Advance the pass by one event.
pub fn advance(p: SyncPhase, e: SyncEvent) -> (r: Option<SyncPhase>)
    ensures
        r == spec_advance(p, e),
{
    match (p, e) {
        (SyncPhase::ReconcilingRenames, SyncEvent::RenamesApplied) => Some(SyncPhase::Diffing),
        (SyncPhase::Diffing, SyncEvent::DiffFoundWork) => Some(SyncPhase::Downloading),
        (SyncPhase::Diffing, SyncEvent::DiffFoundNothing) => Some(SyncPhase::UpToDate),
        (SyncPhase::UpToDate, SyncEvent::CachePersisted) => Some(SyncPhase::Done),
        (SyncPhase::Downloading, SyncEvent::DownloadsFinished) => Some(SyncPhase::Extracting),
        (SyncPhase::Downloading, SyncEvent::DownloadFailedFatally) => Some(SyncPhase::Aborted),
        (SyncPhase::Extracting, SyncEvent::ExtractionFinished) => Some(
            SyncPhase::ReconcilingDeletions,
        ),
        (SyncPhase::Extracting, SyncEvent::ExtractionFailed) => Some(SyncPhase::Aborted),
        (SyncPhase::ReconcilingDeletions, SyncEvent::DeletionsApplied) => Some(
            SyncPhase::Persisting,
        ),
        (SyncPhase::Persisting, SyncEvent::CachePersisted) => Some(SyncPhase::Done),
        _ => None,
    }
}

/// `Done` and `Aborted` are terminal: no event leaves them.
pub proof fn lemma_terminal_phases(e: SyncEvent)
    ensures
        spec_advance(SyncPhase::Done, e) is None,
        spec_advance(SyncPhase::Aborted, e) is None,
{
}

/// Downloads happen only out of the `Downloading` phase, which is reached
/// only when the diff found stale work: a pass whose diff found nothing
/// downloads nothing.
pub proof fn lemma_no_download_when_up_to_date(p: SyncPhase, e: SyncEvent)
    requires
        spec_advance(p, e) == Some(SyncPhase::Downloading),
    ensures
        p == SyncPhase::Diffing && e == SyncEvent::DiffFoundWork,
{
}

} // verus!
