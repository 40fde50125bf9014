//! Which work is shown, and how far it has come.

use quarry::jobs::{first_active_job, progress_fraction, sort_merge_progress, Action, ActiveJobKind, Fraction};

#[test]
fn active_job_priority_is_deterministic() {
    for (active, expected) in [
        ([false; 6], None),
        ([true, true, true, true, true, true], Some(ActiveJobKind::Change)),
        ([false, true, true, true, true, true], Some(ActiveJobKind::Save)),
        ([false, false, true, true, true, true], Some(ActiveJobKind::Export)),
        ([false, false, false, true, true, true], Some(ActiveJobKind::Filter)),
        ([false, false, false, false, true, true], Some(ActiveJobKind::Search)),
        ([false, false, false, false, false, true], Some(ActiveJobKind::Index)),
    ] {
        assert_eq!(first_active_job(active), expected);
    }
}

#[test]
fn shared_job_controls_route_every_cancel_action() {
    for (kind, saving_in_place, label, expected) in [
        (ActiveJobKind::Change, false, "Cancel Change", Action::CancelStructuralEdit),
        (ActiveJobKind::Save, true, "Cancel Save", Action::CancelSave),
        (ActiveJobKind::Save, false, "Cancel Save As", Action::CancelSave),
        (ActiveJobKind::Export, false, "Cancel Export", Action::CancelExport),
        (ActiveJobKind::Filter, false, "Cancel filter", Action::CancelFilter),
        (ActiveJobKind::Search, false, "Cancel Search", Action::CancelSearch),
        (ActiveJobKind::Index, false, "Cancel", Action::Cancel),
    ] {
        assert_eq!(kind.cancel_action(), expected);
        assert_eq!(kind.cancel_label(saving_in_place), label);
    }
}

#[test]
fn sort_merge_progress_stays_active_until_the_worker_finishes() {
    let progress = sort_merge_progress(100, 100, false).unwrap();
    assert_eq!(progress.fraction.part as f32 / progress.fraction.whole as f32, 0.9);
    assert_eq!(progress.label, "Merging sorted rows…");
    assert!(progress.animate);
    assert!(sort_merge_progress(100, 100, true).is_none());
}

#[test]
fn progress_is_a_part_of_the_whole() {
    assert_eq!(progress_fraction(5, 10, false), Fraction { part: 5, whole: 10 });
    assert!(sort_merge_progress(99, 100, false).is_none());
    assert!(sort_merge_progress(0, 0, false).is_some());
}
