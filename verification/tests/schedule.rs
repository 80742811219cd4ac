use debugbunny::scrape_target::{
    RaceWinner, ScheduledStep, SchedulerCell, ScrapeErr, ScrapeOk, timeout_outcome,
};

const MS: u64 = 1_000_000;

#[test]
fn fresh_cell_is_due_immediately() {
    let cell = SchedulerCell::new(1000, 50 * MS);
    assert!(cell.is_due(1000));
    assert!(cell.is_due(2000));
    assert!(!cell.is_due(999));
}

#[test]
fn early_completion_keeps_the_schedule() {
    let mut cell = SchedulerCell::new(100, 50);
    // The call completed before the wakeup: nothing moves.
    cell.set_next_wake_up_time(99);
    assert_eq!(cell.wakeup(), 100);
}

#[test]
fn on_time_completion_advances_one_interval() {
    let mut cell = SchedulerCell::new(100, 50);
    cell.set_next_wake_up_time(100);
    assert_eq!(cell.wakeup(), 150);
    cell.set_next_wake_up_time(160);
    assert_eq!(cell.wakeup(), 200);
}

#[test]
fn overrun_skips_exactly_the_missed_ticks() {
    // A call that overruns by two intervals advances the wakeup by three:
    // catch-up is bounded, no burst of back-to-back calls follows.
    let mut cell = SchedulerCell::new(100, 50);
    cell.set_next_wake_up_time(210);
    assert_eq!(cell.wakeup(), 250);

    let mut cell2 = SchedulerCell::new(100, 50);
    // Overrun by one interval (completion in [150, 200)) skips one tick.
    cell2.set_next_wake_up_time(199);
    assert_eq!(cell2.wakeup(), 200);
}

#[test]
fn unscheduled_call_resets_the_schedule() {
    let mut cell = SchedulerCell::new(0, 50);
    cell.set_next_wake_up_time(0);
    assert_eq!(cell.wakeup(), 50);
    // An unscheduled call completes at 120: the next scheduled call is due
    // one full interval later, not at the old cadence.
    cell.reset_interval(120);
    assert_eq!(cell.wakeup(), 170);
    assert!(!cell.is_due(169));
    assert!(cell.is_due(170));
}

#[test]
fn wakeup_never_moves_backwards() {
    let mut cell = SchedulerCell::new(500, 25);
    let mut last = cell.wakeup();
    for now in [400u64, 510, 700, 701, 702, 10_000] {
        cell.set_next_wake_up_time(now);
        assert!(cell.wakeup() >= last);
        last = cell.wakeup();
    }
}

#[test]
fn scheduled_step_runs_only_when_due() {
    let cell = SchedulerCell::new(100, 50);
    assert_eq!(cell.scheduled_step(100), ScheduledStep::Run);
    assert_eq!(cell.scheduled_step(150), ScheduledStep::Run);
    assert_eq!(cell.scheduled_step(99), ScheduledStep::Sleep { until: 100 });
}

#[test]
fn timeout_outcome_maps_each_winner() {
    let ok = ScrapeOk::HttpResponse { status: 200, body: b"hello".to_vec() };
    assert_eq!(timeout_outcome(RaceWinner::Inner(Ok(ok.clone()))), Ok(ok));
    assert_eq!(
        timeout_outcome(RaceWinner::Inner(Err(ScrapeErr::Cancelled))),
        Err(ScrapeErr::Cancelled)
    );
    assert_eq!(timeout_outcome(RaceWinner::Deadline), Err(ScrapeErr::Timeout));
    assert_eq!(timeout_outcome(RaceWinner::Cancel), Err(ScrapeErr::Cancelled));
}
