use latency_probe::experiment::reference_schedule;
use latency_probe::{
    ExperimentID, Pacer, PayloadClass, PhaseConfig, SenderAction, SenderEvent,
};

fn row(tag: ExperimentID, iteration_count: u32, interval_micros: u64) -> PhaseConfig {
    PhaseConfig { tag, iteration_count, interval_micros, payload: tag.payload() }
}

/// Runs a machine to its end with a caller that never fails, and gives the
/// actions it asked for.
fn run_well(schedule: Vec<PhaseConfig>) -> Vec<SenderAction> {
    let mut pacer = Pacer::new(schedule);
    let mut actions = Vec::new();
    let mut action = pacer.step(SenderEvent::Start);
    loop {
        actions.push(action);
        action = match action {
            SenderAction::Send(_) => pacer.step(SenderEvent::Sent),
            SenderAction::Sleep { .. } => pacer.step(SenderEvent::Woke),
            SenderAction::Finish | SenderAction::Abort => break,
        };
    }
    assert!(pacer.is_over());
    actions
}

#[test]
fn empty_schedule_finishes_at_once() {
    assert_eq!(run_well(vec![]), vec![SenderAction::Finish]);
}

#[test]
fn new_pacer_is_not_over() {
    let pacer = Pacer::new(reference_schedule());
    assert!(!pacer.is_over());
}

#[test]
fn three_slow_sends_each_followed_by_its_pause() {
    let phase = PhaseConfig {
        tag: ExperimentID::SlowNoData,
        iteration_count: 3,
        interval_micros: 50_000,
        payload: PayloadClass::NoData,
    };
    let send = SenderAction::Send(phase);
    let sleep = SenderAction::Sleep { micros: 50_000 };
    assert_eq!(
        run_well(vec![phase]),
        vec![send, sleep, send, sleep, send, sleep, SenderAction::Finish]
    );
}

#[test]
fn phases_run_back_to_back_in_order() {
    let a = row(ExperimentID::BurstWithData, 2, 50);
    let b = row(ExperimentID::SlowLargeData, 1, 50_000);
    let c = row(ExperimentID::ConsistentNoData, 2, 15_000);
    let actions = run_well(vec![a, b, c]);
    assert_eq!(
        actions,
        vec![
            SenderAction::Send(a),
            SenderAction::Sleep { micros: 50 },
            SenderAction::Send(a),
            SenderAction::Sleep { micros: 50 },
            SenderAction::Send(b),
            SenderAction::Sleep { micros: 50_000 },
            SenderAction::Send(c),
            SenderAction::Sleep { micros: 15_000 },
            SenderAction::Send(c),
            SenderAction::Sleep { micros: 15_000 },
            SenderAction::Finish,
        ]
    );
}

#[test]
fn phases_without_sends_are_passed_over() {
    let none_first = row(ExperimentID::SlowNoData, 0, 50_000);
    let one = row(ExperimentID::BurstNoData, 1, 50);
    let none_mid = row(ExperimentID::SlowWithData, 0, 50_000);
    let none_mid2 = row(ExperimentID::SlowLargeData, 0, 50_000);
    let two = row(ExperimentID::ConsistentWithData, 2, 15_000);
    let none_last = row(ExperimentID::BurstLargeData, 0, 50);
    let actions = run_well(vec![none_first, one, none_mid, none_mid2, two, none_last]);
    assert_eq!(
        actions,
        vec![
            SenderAction::Send(one),
            SenderAction::Sleep { micros: 50 },
            SenderAction::Send(two),
            SenderAction::Sleep { micros: 15_000 },
            SenderAction::Send(two),
            SenderAction::Sleep { micros: 15_000 },
            SenderAction::Finish,
        ]
    );
}

#[test]
fn schedule_of_empty_phases_finishes_at_once() {
    let actions = run_well(vec![
        row(ExperimentID::SlowNoData, 0, 1),
        row(ExperimentID::BurstNoData, 0, 1),
    ]);
    assert_eq!(actions, vec![SenderAction::Finish]);
}

#[test]
fn write_failure_aborts_the_run() {
    let mut pacer = Pacer::new(vec![row(ExperimentID::SlowNoData, 5, 50_000)]);
    assert!(matches!(pacer.step(SenderEvent::Start), SenderAction::Send(_)));
    assert_eq!(pacer.step(SenderEvent::Sent), SenderAction::Sleep { micros: 50_000 });
    assert!(matches!(pacer.step(SenderEvent::Woke), SenderAction::Send(_)));
    assert_eq!(pacer.step(SenderEvent::SendFailed), SenderAction::Abort);
    assert!(pacer.is_over());
    // aborted for good
    assert_eq!(pacer.step(SenderEvent::Start), SenderAction::Abort);
    assert_eq!(pacer.step(SenderEvent::Sent), SenderAction::Abort);
    assert_eq!(pacer.step(SenderEvent::Woke), SenderAction::Abort);
}

#[test]
fn unexpected_event_aborts_the_run() {
    let schedule = vec![row(ExperimentID::SlowNoData, 5, 50_000)];
    let mut idle = Pacer::new(schedule.clone());
    assert_eq!(idle.step(SenderEvent::Woke), SenderAction::Abort);

    let mut sending = Pacer::new(schedule.clone());
    sending.step(SenderEvent::Start);
    assert_eq!(sending.step(SenderEvent::Woke), SenderAction::Abort);

    let mut sleeping = Pacer::new(schedule.clone());
    sleeping.step(SenderEvent::Start);
    sleeping.step(SenderEvent::Sent);
    assert_eq!(sleeping.step(SenderEvent::Sent), SenderAction::Abort);

    let mut restarted = Pacer::new(schedule);
    restarted.step(SenderEvent::Start);
    assert_eq!(restarted.step(SenderEvent::Start), SenderAction::Abort);
}

#[test]
fn finished_stays_finished() {
    let mut pacer = Pacer::new(vec![row(ExperimentID::BurstNoData, 1, 50)]);
    pacer.step(SenderEvent::Start);
    pacer.step(SenderEvent::Sent);
    assert_eq!(pacer.step(SenderEvent::Woke), SenderAction::Finish);
    assert!(pacer.is_over());
    assert_eq!(pacer.step(SenderEvent::Start), SenderAction::Finish);
    assert_eq!(pacer.step(SenderEvent::Sent), SenderAction::Finish);
    assert_eq!(pacer.step(SenderEvent::SendFailed), SenderAction::Finish);
    assert_eq!(pacer.step(SenderEvent::Woke), SenderAction::Finish);
}

#[test]
fn reference_run_sends_every_count_of_every_pattern() {
    let actions = run_well(reference_schedule());
    assert_eq!(actions.len(), 2 * (3 * 2000 + 3 * 15000 + 3 * 6000) + 1);
    assert_eq!(*actions.last().unwrap(), SenderAction::Finish);
    let mut sends: Vec<ExperimentID> = Vec::new();
    for pair in actions[..actions.len() - 1].chunks(2) {
        match (pair[0], pair[1]) {
            (SenderAction::Send(phase), SenderAction::Sleep { micros }) => {
                assert_eq!(phase, PhaseConfig::reference(phase.tag));
                assert_eq!(micros, phase.interval_micros);
                sends.push(phase.tag);
            }
            _ => panic!("a send must be followed by its pause"),
        }
    }
    let mut expected: Vec<ExperimentID> = Vec::new();
    for phase in reference_schedule() {
        for _ in 0..phase.iteration_count {
            expected.push(phase.tag);
        }
    }
    assert_eq!(sends, expected);
}

#[test]
fn largest_count_in_one_phase() {
    let mut pacer = Pacer::new(vec![row(ExperimentID::BurstNoData, u32::MAX, 1)]);
    let mut action = pacer.step(SenderEvent::Start);
    for _ in 0..1000 {
        assert!(matches!(action, SenderAction::Send(_)));
        assert_eq!(pacer.step(SenderEvent::Sent), SenderAction::Sleep { micros: 1 });
        action = pacer.step(SenderEvent::Woke);
    }
    assert!(!pacer.is_over());
}
