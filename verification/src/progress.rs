//! The shared progress cell: one state value, replaced wholesale on every
//! transition and polled by an observer. The caller wraps the tracker in
//! its own synchronization; every transition here is a pure, verified
//! update of the single state value.

use vstd::prelude::*;

use crate::scanner::ScanResult;

verus! {

#[derive(Debug)]
pub enum ProgressState {
    Idle,
    Scanning { current_path: String, files_processed: usize },
    FindingDuplicates { files_processed: usize, total_files: usize },
    Cleaning { files_processed: usize, total_files: usize },
    Complete {
        scan_result: Option<ScanResult>,
        duplicates: Option<Vec<Vec<String>>>,
        cleaned_bytes: Option<u64>,
    },
    Error(String),
}

/// What the observer learned from consuming the cell: the finished
/// operation's result, a failure, or nothing new.
#[derive(Debug)]
pub enum TaskUpdate {
    Unchanged,
    ScanFinished(ScanResult),
    DuplicatesFinished(Vec<Vec<String>>),
    CleanupFinished(u64),
    Failed(String),
}

/// An operation is in progress exactly in the three running states.
pub open spec fn spec_is_busy(s: ProgressState) -> bool {
    s is Scanning || s is FindingDuplicates || s is Cleaning
}

#[derive(Debug)]
pub struct ProgressTracker {
    pub state: ProgressState,
}

impl Default for ProgressTracker {
    /// A fresh tracker is idle.
    fn default() -> (t: Self)
        ensures
            t.state is Idle,
    {
        ProgressTracker { state: ProgressState::Idle }
    }
}

impl ProgressTracker {
    /// A fresh tracker is idle.
    pub fn new() -> (t: Self)
        ensures
            t.state is Idle,
    {
        ProgressTracker { state: ProgressState::Idle }
    }

    /// Force the cell back to idle before a new operation starts.
    pub fn reset(&mut self)
        ensures
            final(self).state is Idle,
    {
        self.state = ProgressState::Idle;
    }

    /// Publish a scan's progress snapshot.
    pub fn set_scanning(&mut self, current_path: String, files_processed: usize)
        ensures
            final(self).state == (ProgressState::Scanning { current_path, files_processed }),
    {
        self.state = ProgressState::Scanning { current_path, files_processed };
    }

    /// Publish a duplicate search's progress snapshot.
    pub fn set_finding_duplicates(&mut self, files_processed: usize, total_files: usize)
        ensures
            final(self).state == (ProgressState::FindingDuplicates {
                files_processed,
                total_files,
            }),
    {
        self.state = ProgressState::FindingDuplicates { files_processed, total_files };
    }

    /// Publish a cleanup's progress snapshot.
    pub fn set_cleaning(&mut self, files_processed: usize, total_files: usize)
        ensures
            final(self).state == (ProgressState::Cleaning { files_processed, total_files }),
    {
        self.state = ProgressState::Cleaning { files_processed, total_files };
    }

    /// Publish a finished scan's result.
    pub fn set_scan_complete(&mut self, result: ScanResult)
        ensures
            final(self).state == (ProgressState::Complete {
                scan_result: Some(result),
                duplicates: None,
                cleaned_bytes: None,
            }),
    {
        self.state = ProgressState::Complete {
            scan_result: Some(result),
            duplicates: None,
            cleaned_bytes: None,
        };
    }

    /// Publish a finished duplicate search's groups.
    pub fn set_duplicates_complete(&mut self, duplicates: Vec<Vec<String>>)
        ensures
            final(self).state == (ProgressState::Complete {
                scan_result: None,
                duplicates: Some(duplicates),
                cleaned_bytes: None,
            }),
    {
        self.state = ProgressState::Complete {
            scan_result: None,
            duplicates: Some(duplicates),
            cleaned_bytes: None,
        };
    }

    /// Publish a finished cleanup's reclaimed byte count.
    pub fn set_cleanup_complete(&mut self, cleaned_bytes: u64)
        ensures
            final(self).state == (ProgressState::Complete {
                scan_result: None,
                duplicates: None,
                cleaned_bytes: Some(cleaned_bytes),
            }),
    {
        self.state = ProgressState::Complete {
            scan_result: None,
            duplicates: None,
            cleaned_bytes: Some(cleaned_bytes),
        };
    }

    /// Publish a fatal failure.
    pub fn set_error(&mut self, error: String)
        ensures
            final(self).state == (ProgressState::Error(error)),
    {
        self.state = ProgressState::Error(error);
    }

    /// Whether an operation is currently running.
    pub fn is_busy(&self) -> (r: bool)
        ensures
            r == spec_is_busy(self.state),
    {
        match &self.state {
            ProgressState::Scanning { .. } => true,
            ProgressState::FindingDuplicates { .. } => true,
            ProgressState::Cleaning { .. } => true,
            _ => false,
        }
    }

    /// Consume a terminal state: a completed operation's result empties
    /// the cell back to idle and is handed out; an error is reported but
    /// left in place; anything else changes nothing. When several result
    /// slots of one `Complete` value are filled, the scan result is
    /// preferred, then the duplicate groups, then the cleaned byte count —
    /// the cell holds a single `Complete` value, so a result that another
    /// completion overwrote is gone.
    pub fn take_completion(&mut self) -> (u: TaskUpdate)
        ensures
            match old(self).state {
                ProgressState::Complete { scan_result: Some(r), duplicates: _, cleaned_bytes: _ } => u
                    == TaskUpdate::ScanFinished(r) && final(self).state is Idle,
                ProgressState::Complete {
                    scan_result: None,
                    duplicates: Some(d),
                    cleaned_bytes: _,
                } => u == TaskUpdate::DuplicatesFinished(d) && final(self).state is Idle,
                ProgressState::Complete {
                    scan_result: None,
                    duplicates: None,
                    cleaned_bytes: Some(b),
                } => u == TaskUpdate::CleanupFinished(b) && final(self).state is Idle,
                ProgressState::Error(m) => u == TaskUpdate::Failed(m) && final(self).state
                    == old(self).state,
                _ => u == TaskUpdate::Unchanged && final(self).state == old(self).state,
            },
    {
        let mut taken = ProgressState::Idle;
        core::mem::swap(&mut self.state, &mut taken);
        match taken {
            ProgressState::Complete { scan_result: Some(r), duplicates: _, cleaned_bytes: _ } => {
                TaskUpdate::ScanFinished(r)
            },
            ProgressState::Complete {
                scan_result: None,
                duplicates: Some(d),
                cleaned_bytes: _,
            } => TaskUpdate::DuplicatesFinished(d),
            ProgressState::Complete {
                scan_result: None,
                duplicates: None,
                cleaned_bytes: Some(b),
            } => TaskUpdate::CleanupFinished(b),
            ProgressState::Error(m) => {
                let msg = m.clone();
                self.state = ProgressState::Error(m);
                TaskUpdate::Failed(msg)
            },
            other => {
                self.state = other;
                TaskUpdate::Unchanged
            },
        }
    }
}

} // verus!
