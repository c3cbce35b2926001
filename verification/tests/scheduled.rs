use cockpit_pacman_backend::scheduled::{
    get_scheduled_runs, needs_rotation, rotate_log, ScheduledRunEntry,
};

fn entry(n: usize) -> ScheduledRunEntry {
    ScheduledRunEntry {
        timestamp: format!("t{}", n),
        mode: "upgrade".to_string(),
        success: true,
        packages_checked: n,
        packages_upgraded: 0,
        error: None,
        details: vec![],
    }
}

fn checked(v: &[ScheduledRunEntry]) -> Vec<usize> {
    v.iter().map(|e| e.packages_checked).collect()
}

#[test]
fn run_log_is_cut_to_its_newest_half() {
    assert!(!needs_rotation(1024 * 1024));
    assert!(needs_rotation(1024 * 1024 + 1));
    let few: Vec<ScheduledRunEntry> = (0..500).map(entry).collect();
    assert_eq!(rotate_log(few.clone()), few);
    let many: Vec<ScheduledRunEntry> = (0..1200).map(entry).collect();
    let kept = rotate_log(many);
    assert_eq!(kept.len(), 500);
    assert_eq!(kept[0].packages_checked, 700);
    assert_eq!(kept[499].packages_checked, 1199);
    assert!(rotate_log(vec![]).is_empty());
}

#[test]
fn runs_are_paged_newest_first() {
    let runs: Vec<ScheduledRunEntry> = (0..10).map(entry).collect();
    let r = get_scheduled_runs(runs.clone(), 0, 3);
    assert_eq!(r.total, 10);
    assert_eq!(checked(&r.runs), vec![9, 8, 7]);
    assert_eq!(checked(&get_scheduled_runs(runs.clone(), 8, 5).runs), vec![1, 0]);
    assert_eq!(checked(&get_scheduled_runs(runs.clone(), 10, 5).runs), Vec::<usize>::new());
    assert_eq!(checked(&get_scheduled_runs(runs.clone(), 100, 5).runs), Vec::<usize>::new());
    assert_eq!(checked(&get_scheduled_runs(runs.clone(), 0, 0).runs), Vec::<usize>::new());
    assert_eq!(get_scheduled_runs(runs, 0, usize::MAX).runs.len(), 10);
    assert_eq!(get_scheduled_runs(vec![], 0, 10).total, 0);
}
