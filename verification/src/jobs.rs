//! What the editor can be asked to do, and how the work that runs is shown.

use crate::document::{ChangeKind, Document, DocumentView, JobView, StructuralJob};
use crate::format::{DelimiterMode, HeaderMode};
use crate::model::JobProgress;
use vstd::prelude::*;
use vstd::string::*;

verus! {

/// What the editor can be asked to do.
#[derive(Clone, Copy, Debug, PartialEq, Eq, Structural)]
pub enum Action {
    Choose,
    ReopenWithFormat(DelimiterMode, HeaderMode),
    ReloadFromDisk,
    Save,
    PageUp,
    PageDown,
    AutoFitColumns,
    OpenColumns,
    UndoStructuralEdit,
    RedoStructuralEdit,
    OpenFilters,
    ChooseSaveAs,
    CancelSave,
    CancelStructuralEdit,
    ChooseFilteredExport,
    DiscardChanges,
    Jump,
    FindPrevious,
    FindNext,
    ReplaceCurrent,
    ReplaceAll,
    CancelSearch,
    ApplyFilter,
    CancelFilter,
    ClearFilter,
    CancelExport,
    Cancel,
}

/// Work that runs, the first of which is shown.
#[derive(Clone, Copy, Debug, PartialEq, Eq, Structural)]
pub enum ActiveJobKind {
    Change,
    Save,
    Export,
    Filter,
    Search,
    Index,
}

/// The kinds of work in the order in which they are shown.
pub open spec fn kinds() -> Seq<ActiveJobKind> {
    seq![
        ActiveJobKind::Change,
        ActiveJobKind::Save,
        ActiveJobKind::Export,
        ActiveJobKind::Filter,
        ActiveJobKind::Search,
        ActiveJobKind::Index,
    ]
}

pub open spec fn cancel_of(kind: ActiveJobKind) -> Action {
    match kind {
        ActiveJobKind::Change => Action::CancelStructuralEdit,
        ActiveJobKind::Save => Action::CancelSave,
        ActiveJobKind::Export => Action::CancelExport,
        ActiveJobKind::Filter => Action::CancelFilter,
        ActiveJobKind::Search => Action::CancelSearch,
        ActiveJobKind::Index => Action::Cancel,
    }
}

pub open spec fn cancel_text(kind: ActiveJobKind, saving_in_place: bool) -> Seq<char> {
    match kind {
        ActiveJobKind::Change => "Cancel Change"@,
        ActiveJobKind::Save => if saving_in_place {
            "Cancel Save"@
        } else {
            "Cancel Save As"@
        },
        ActiveJobKind::Export => "Cancel Export"@,
        ActiveJobKind::Filter => "Cancel filter"@,
        ActiveJobKind::Search => "Cancel Search"@,
        ActiveJobKind::Index => "Cancel"@,
    }
}

impl ActiveJobKind {
    /// The action that cancels the work.
    pub fn cancel_action(self) -> (action: Action)
        ensures
            action == cancel_of(self),
    {
        match self {
            ActiveJobKind::Change => Action::CancelStructuralEdit,
            ActiveJobKind::Save => Action::CancelSave,
            ActiveJobKind::Export => Action::CancelExport,
            ActiveJobKind::Filter => Action::CancelFilter,
            ActiveJobKind::Search => Action::CancelSearch,
            ActiveJobKind::Index => Action::Cancel,
        }
    }

    pub fn cancel_label(self, saving_in_place: bool) -> (label: &'static str)
        ensures
            label@ == cancel_text(self, saving_in_place),
    {
        match self {
            ActiveJobKind::Change => "Cancel Change",
            ActiveJobKind::Save => if saving_in_place {
                "Cancel Save"
            } else {
                "Cancel Save As"
            },
            ActiveJobKind::Export => "Cancel Export",
            ActiveJobKind::Filter => "Cancel filter",
            ActiveJobKind::Search => "Cancel Search",
            ActiveJobKind::Index => "Cancel",
        }
    }
}

/// The first kind of work that is active.
pub fn first_active_job(active: [bool; 6]) -> (first: Option<ActiveJobKind>)
    ensures
        match first {
            Some(kind) => exists|i: int|
                0 <= i < 6 && kinds()[i] == kind && #[trigger] active@[i] && forall|j: int|
                    0 <= j < i ==> !#[trigger] active@[j],
            None => forall|i: int| 0 <= i < 6 ==> !#[trigger] active@[i],
        },
{
    let order: [ActiveJobKind; 6] = [
        ActiveJobKind::Change,
        ActiveJobKind::Save,
        ActiveJobKind::Export,
        ActiveJobKind::Filter,
        ActiveJobKind::Search,
        ActiveJobKind::Index,
    ];
    assert(order@ =~= kinds());
    for i in 0..6usize
        invariant
            order@ == kinds(),
            forall|j: int| 0 <= j < i ==> !#[trigger] active@[j],
    {
        if active[i] {
            return Some(order[i]);
        }
    }
    None
}

/// A part of a whole. The whole is never zero.
#[derive(Clone, Copy, Debug, PartialEq, Eq, Structural)]
pub struct Fraction {
    pub part: u64,
    pub whole: u64,
}

/// How much of the work is done, from none to all of it.
pub open spec fn fraction(bytes_scanned: u64, total_bytes: u64, done: bool) -> Fraction {
    if total_bytes == 0 {
        Fraction {
            part: if done {
                1
            } else {
                0
            },
            whole: 1,
        }
    } else {
        Fraction {
            part: if bytes_scanned <= total_bytes {
                bytes_scanned
            } else {
                total_bytes
            },
            whole: total_bytes,
        }
    }
}

/// How much of the work is done.
pub fn progress_fraction(bytes_scanned: u64, total_bytes: u64, done: bool) -> (progress: Fraction)
    ensures
        progress == fraction(bytes_scanned, total_bytes, done),
        progress.part <= progress.whole,
        progress.whole > 0,
{
    if total_bytes == 0 {
        Fraction { part: if done { 1 } else { 0 }, whole: 1 }
    } else {
        Fraction { part: if bytes_scanned <= total_bytes { bytes_scanned } else { total_bytes }, whole: total_bytes }
    }
}

/// How structural work that runs is shown. A percentage follows the label where `percent` is
/// set.
#[derive(Debug, PartialEq, Eq)]
pub struct StructuralProgressDisplay {
    pub fraction: Fraction,
    pub label: String,
    pub percent: bool,
    pub animate: bool,
}

/// All rows are read and none is written yet.
pub open spec fn merging(bytes_scanned: u64, total_bytes: u64, done: bool) -> bool {
    !done && (total_bytes == 0 || bytes_scanned >= total_bytes)
}

/// How a sort is shown while it merges: nine tenths done, until its worker ends.
pub fn sort_merge_progress(bytes_scanned: u64, total_bytes: u64, done: bool) -> (display: Option<
    StructuralProgressDisplay,
>)
    ensures
        match display {
            Some(shown) => merging(bytes_scanned, total_bytes, done) && shown.fraction == (Fraction {
                part: 9,
                whole: 10,
            }) && shown.label@ == "Merging sorted rows…"@ && !shown.percent && shown.animate,
            None => !merging(bytes_scanned, total_bytes, done),
        },
{
    if !done && (total_bytes == 0 || bytes_scanned >= total_bytes) {
        Some(
            StructuralProgressDisplay {
                fraction: Fraction { part: 9, whole: 10 },
                label: "Merging sorted rows…".to_owned(),
                percent: false,
                animate: true,
            },
        )
    } else {
        None
    }
}

/// The name of structural work that runs.
pub open spec fn operation(job: JobView) -> Seq<char> {
    match job {
        JobView::AnalyzingSplit { .. } => "Checking split width"@,
        JobView::Changing { kind, .. } => match kind {
            ChangeKind::Columns => "Applying column edit"@,
            ChangeKind::Replace => "Replacing matches"@,
            ChangeKind::Sort { .. } => "Sorting rows"@,
            ChangeKind::DeleteRows { .. } => "Deleting selected rows"@,
        },
    }
}

pub open spec fn sorts(job: JobView) -> bool {
    job matches JobView::Changing { kind, .. } && kind is Sort
}

/// How the work that runs is shown.
#[derive(Debug, PartialEq, Eq)]
pub struct ActiveJobDisplay {
    pub label: String,
    pub percent: bool,
    pub fraction: Fraction,
    pub animate: bool,
    pub cancel_action: Action,
    pub cancel_label: &'static str,
    pub cancel_enabled: bool,
}

/// Which kinds of work are active.
pub open spec fn active_kinds(document: DocumentView) -> Seq<bool> {
    seq![
        document.structural.job is Some,
        document.save.running,
        document.export.running,
        document.filter.running,
        document.search.running,
        document.index.running,
    ]
}

/// The label of work that runs, other than structural work.
pub open spec fn job_label(document: DocumentView, kind: ActiveJobKind, progress: JobProgress) -> Seq<char> {
    match kind {
        ActiveJobKind::Change => ""@,
        ActiveJobKind::Save => if document.save.cancel_requested {
            if document.save.in_place {
                "Cancelling Save"@
            } else {
                "Cancelling Save As"@
            }
        } else {
            "Saving edited file"@
        },
        ActiveJobKind::Export => if document.export.cancel_requested {
            "Cancelling export"@
        } else {
            "Exporting"@
        },
        ActiveJobKind::Filter => if progress.cancelled {
            "Cancelling filter"@
        } else {
            "Filtering"@
        },
        ActiveJobKind::Search => if progress.cancelled {
            "Cancelling search"@
        } else {
            "Searching"@
        },
        ActiveJobKind::Index => if progress.cancelled {
            "Cancelling index"@
        } else {
            "Indexing"@
        },
    }
}

/// Work can be cancelled once, and not after it is done; structural work also then.
pub open spec fn can_cancel(document: DocumentView, kind: ActiveJobKind, progress: JobProgress) -> bool {
    match kind {
        ActiveJobKind::Change => !document.structural.cancel_requested,
        ActiveJobKind::Save => !document.save.cancel_requested && !progress.done,
        ActiveJobKind::Export => !document.export.cancel_requested && !progress.done,
        _ => !progress.cancelled && !progress.done,
    }
}

impl Document {
    /// The kind of work that is shown.
    pub fn active_job(&self) -> (kind: Option<ActiveJobKind>)
        ensures
            match kind {
                Some(kind) => exists|i: int|
                    0 <= i < 6 && kinds()[i] == kind && #[trigger] active_kinds(self@)[i] && forall|j: int|
                        0 <= j < i ==> !#[trigger] active_kinds(self@)[j],
                None => forall|i: int| 0 <= i < 6 ==> !#[trigger] active_kinds(self@)[i],
            },
    {
        let active: [bool; 6] = [
            self.structural.job.is_some(),
            self.save.running,
            self.export.running,
            self.filter.running,
            self.search.running,
            self.index.running,
        ];
        assert(active@ =~= active_kinds(self@));
        first_active_job(active)
    }

    /// How structural work that has come so far is shown.
    pub fn structural_progress(&self, progress: JobProgress) -> (display: Option<StructuralProgressDisplay>)
        ensures
            match self@.structural.job {
                None => display is None,
                Some(job) => display matches Some(shown) && if sorts(job) && merging(
                    progress.bytes_scanned,
                    progress.total_bytes,
                    progress.done,
                ) {
                    shown.fraction == (Fraction { part: 9, whole: 10 }) && shown.label@ == "Merging sorted rows…"@
                        && !shown.percent && shown.animate
                } else {
                    shown.fraction == fraction(progress.bytes_scanned, progress.total_bytes, progress.done)
                        && shown.label@ == operation(job) && shown.percent && !shown.animate
                },
            },
    {
        let (operation_name, sorting): (&'static str, bool) = match &self.structural.job {
            None => {
                return None;
            },
            Some(StructuralJob::AnalyzingSplit { .. }) => ("Checking split width", false),
            Some(StructuralJob::Changing { kind, .. }) => match kind {
                ChangeKind::Columns => ("Applying column edit", false),
                ChangeKind::Replace => ("Replacing matches", false),
                ChangeKind::Sort { .. } => ("Sorting rows", true),
                ChangeKind::DeleteRows { .. } => ("Deleting selected rows", false),
            },
        };
        if sorting {
            if let Some(display) = sort_merge_progress(progress.bytes_scanned, progress.total_bytes, progress.done) {
                return Some(display);
            }
        }
        Some(
            StructuralProgressDisplay {
                fraction: progress_fraction(progress.bytes_scanned, progress.total_bytes, progress.done),
                label: operation_name.to_owned(),
                percent: true,
                animate: false,
            },
        )
    }

    /// How the work of a kind, which has come so far, is shown.
    pub fn active_job_display(&self, kind: ActiveJobKind, progress: JobProgress) -> (display: ActiveJobDisplay)
        requires
            kind == ActiveJobKind::Change ==> self@.structural.job is Some,
        ensures
            display.cancel_action == cancel_of(kind),
            display.cancel_label@ == cancel_text(kind, self@.save.in_place),
            display.cancel_enabled == can_cancel(self@, kind, progress),
            if kind == ActiveJobKind::Change && sorts(self@.structural.job->0) && merging(
                progress.bytes_scanned,
                progress.total_bytes,
                progress.done,
            ) {
                display.fraction == (Fraction { part: 9, whole: 10 }) && display.label@ == "Merging sorted rows…"@
                    && !display.percent && display.animate
            } else {
                display.fraction == fraction(progress.bytes_scanned, progress.total_bytes, progress.done)
                    && display.percent && !display.animate && display.label@ == if kind == ActiveJobKind::Change {
                    operation(self@.structural.job->0)
                } else {
                    job_label(self@, kind, progress)
                }
            },
    {
        let cancel_action = kind.cancel_action();
        let cancel_label = kind.cancel_label(self.save.in_place);
        let fraction = progress_fraction(progress.bytes_scanned, progress.total_bytes, progress.done);
        let (label, cancel_enabled): (&'static str, bool) = match kind {
            ActiveJobKind::Change => {
                if let Some(shown) = self.structural_progress(progress) {
                    return ActiveJobDisplay {
                        label: shown.label,
                        percent: shown.percent,
                        fraction: shown.fraction,
                        animate: shown.animate,
                        cancel_action,
                        cancel_label,
                        cancel_enabled: !self.structural.cancel_requested,
                    };
                }
                ("", !self.structural.cancel_requested)
            },
            ActiveJobKind::Save => (
                if self.save.cancel_requested {
                    if self.save.in_place {
                        "Cancelling Save"
                    } else {
                        "Cancelling Save As"
                    }
                } else {
                    "Saving edited file"
                },
                !self.save.cancel_requested && !progress.done,
            ),
            ActiveJobKind::Export => (
                if self.export.cancel_requested {
                    "Cancelling export"
                } else {
                    "Exporting"
                },
                !self.export.cancel_requested && !progress.done,
            ),
            ActiveJobKind::Filter => (
                if progress.cancelled {
                    "Cancelling filter"
                } else {
                    "Filtering"
                },
                !progress.cancelled && !progress.done,
            ),
            ActiveJobKind::Search => (
                if progress.cancelled {
                    "Cancelling search"
                } else {
                    "Searching"
                },
                !progress.cancelled && !progress.done,
            ),
            ActiveJobKind::Index => (
                if progress.cancelled {
                    "Cancelling index"
                } else {
                    "Indexing"
                },
                !progress.cancelled && !progress.done,
            ),
        };
        ActiveJobDisplay {
            label: label.to_owned(),
            percent: true,
            fraction,
            animate: false,
            cancel_action,
            cancel_label,
            cancel_enabled,
        }
    }

    /// Whether outside work runs whose news are to be asked for.
    pub fn work_runs(&self) -> (running: bool)
        ensures
            running == ((exists|i: int| 0 <= i < 6 && #[trigger] active_kinds(self@)[i]) || self@.filter.read is Some
                || self@.filter.pending is Some),
    {
        proof {
            let active = active_kinds(self@);
            assert(active[0] == self@.structural.job is Some);
            assert(active[1] == self@.save.running);
            assert(active[2] == self@.export.running);
            assert(active[3] == self@.filter.running);
            assert(active[4] == self@.search.running);
            assert(active[5] == self@.index.running);
        }
        self.index.running || self.search.running || self.filter.running || self.filter_rows_loading()
            || self.export.running || self.save.running || self.structural.job.is_some()
    }
}

/// A sort that merges is shown as neither done nor at rest.
pub proof fn lemma_merge_stays_active(bytes_scanned: u64, total_bytes: u64)
    ensures
        bytes_scanned >= total_bytes ==> merging(bytes_scanned, total_bytes, false),
        !merging(bytes_scanned, total_bytes, true),
{
}

} // verus!
