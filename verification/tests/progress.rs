use libsql_plugin::progress::{
    progress_handler, progress_steps_since_open, Progress, PROGRESS_STEP_BUDGET,
};

#[test]
fn interrupts_past_the_budget_only() {
    let mut progress = Progress::new();
    for _ in 0..PROGRESS_STEP_BUDGET {
        assert_eq!(progress_handler(&mut progress), 0);
    }
    assert_eq!(progress_steps_since_open(&progress), 2_000_000);
    assert_eq!(progress_handler(&mut progress), 1);
    assert_eq!(progress_handler(&mut progress), 1);
    assert_eq!(progress_steps_since_open(&progress), 2_000_002);
}

#[test]
fn an_opening_starts_the_count_again() {
    let mut progress = Progress::new();
    assert_eq!(progress_steps_since_open(&progress), 0);
    assert_eq!(progress_handler(&mut progress), 0);
    assert_eq!(progress_steps_since_open(&progress), 1);
    progress.reset();
    assert_eq!(progress_steps_since_open(&progress), 0);
}
