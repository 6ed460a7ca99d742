use simulation::global_metrics::ValidatorGlobalMetrics;
use simulation::metrics::MetricsObserver;
use simulation::sampling::{EveryNBlocks, OnEvent, SamplingStrategy};
use simulation::survival::{EventRegistry, SimulationEvent, SurvivalMetricsCollector};

fn record(block: u64, active: usize, nc33: usize, nc50: usize) -> ValidatorGlobalMetrics {
    ValidatorGlobalMetrics { block, active_validators: active, total_active_stake: 0, nc33, nc50 }
}

#[test]
fn registry_trigger_and_query() {
    let mut reg = EventRegistry::default();
    assert!(!reg.has_triggered(&SimulationEvent::FirstExit));
    assert!(!reg.has_triggered(&SimulationEvent::Collapse));
    reg.trigger(SimulationEvent::FirstExit);
    assert!(reg.has_triggered(&SimulationEvent::FirstExit));
    assert!(!reg.has_triggered(&SimulationEvent::Nc33Breach));
    reg.trigger(SimulationEvent::Nc33Breach);
    reg.trigger(SimulationEvent::Nc50Breach);
    reg.trigger(SimulationEvent::Collapse);
    assert!(reg.has_triggered(&SimulationEvent::Nc33Breach));
    assert!(reg.has_triggered(&SimulationEvent::Nc50Breach));
    assert!(reg.has_triggered(&SimulationEvent::Collapse));
}

#[test]
fn survival_baseline_and_minima() {
    let mut c = SurvivalMetricsCollector::new(2, 2);
    assert_eq!(c.outcome.min_nc33, usize::MAX);
    c.observe(&record(1, 10, 5, 7));
    assert_eq!(c.initial_active_validators, Some(10));
    assert_eq!(c.outcome.min_nc33, 5);
    assert_eq!(c.outcome.min_nc50, 7);
    c.observe(&record(2, 10, 6, 4));
    assert_eq!(c.outcome.min_nc33, 5);
    assert_eq!(c.outcome.min_nc50, 4);
    assert_eq!(c.outcome.time_to_first_exit, None);
}

#[test]
fn survival_first_exit_write_once() {
    let mut c = SurvivalMetricsCollector::new(0, 0);
    c.observe(&record(1, 10, 5, 7));
    c.observe(&record(2, 8, 5, 7));
    assert_eq!(c.outcome.time_to_first_exit, Some(2));
    assert!(c.events.has_triggered(&SimulationEvent::FirstExit));
    // Still below the baseline on a later tick: the field keeps its value.
    c.observe(&record(3, 6, 5, 7));
    assert_eq!(c.outcome.time_to_first_exit, Some(2));
    assert_eq!(c.outcome.time_to_collapse, None);
}

#[test]
fn survival_breaches_and_collapse() {
    let mut c = SurvivalMetricsCollector::new(2, 3);
    c.observe(&record(1, 10, 5, 7));
    assert_eq!(c.outcome.time_to_nc33_breach, None);
    c.observe(&record(2, 10, 2, 3));
    assert_eq!(c.outcome.time_to_nc33_breach, Some(2));
    assert_eq!(c.outcome.time_to_nc50_breach, Some(2));
    c.observe(&record(3, 1, 1, 1));
    assert_eq!(c.outcome.time_to_collapse, Some(3));
    assert_eq!(c.outcome.time_to_nc33_breach, Some(2));
    assert_eq!(c.outcome.time_to_nc50_breach, Some(2));
}

#[test]
fn every_n_blocks_samples_on_multiples() {
    let mut s = EveryNBlocks { interval: 10 };
    let reg = EventRegistry::default();
    let mut hits: Vec<u64> = Vec::new();
    for block in 1..=25u64 {
        if s.should_sample(block, &reg) {
            hits.push(block);
        }
    }
    assert_eq!(hits, vec![10, 20]);
}

#[test]
fn every_n_blocks_ignores_history() {
    let mut s = EveryNBlocks { interval: 3 };
    let mut reg = EventRegistry::default();
    assert!(s.should_sample(9, &reg));
    assert!(s.should_sample(9, &reg));
    reg.trigger(SimulationEvent::Collapse);
    assert!(s.should_sample(9, &reg));
    assert!(!s.should_sample(10, &reg));
}

#[test]
fn on_event_fires_once_on_first_registered_tick() {
    let mut s = OnEvent::new(SimulationEvent::FirstExit);
    let mut reg = EventRegistry::default();
    assert!(!s.should_sample(1, &reg));
    assert!(!s.should_sample(2, &reg));
    reg.trigger(SimulationEvent::Collapse);
    assert!(!s.should_sample(3, &reg));
    reg.trigger(SimulationEvent::FirstExit);
    assert!(s.should_sample(4, &reg));
    assert!(!s.should_sample(5, &reg));
    assert!(!s.should_sample(6, &reg));
}
