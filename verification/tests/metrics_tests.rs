use os_simulator::scheduler::metrics::ProcessMetrics;
use os_simulator::scheduler::metrics::Quotient;
use os_simulator::scheduler::metrics::SchedulerStats;

#[test]
fn test_stats_creation() {
    let stats = SchedulerStats::new();
    assert_eq!(stats.processes_created, 0);
    assert_eq!(stats.total_context_switches, 0);
}

#[test]
fn test_record_process_created() {
    let mut stats = SchedulerStats::new();
    stats.record_process_created(1);
    stats.record_process_created(2);

    assert_eq!(stats.processes_created, 2);
    assert!(stats.process_metrics.contains_key(&1));
    assert!(stats.process_metrics.contains_key(&2));
}

#[test]
fn test_record_context_switch() {
    let mut stats = SchedulerStats::new();
    stats.record_process_created(1);

    stats.record_context_switch(1);
    stats.record_context_switch(1);

    assert_eq!(stats.total_context_switches, 2);
    assert_eq!(stats.process_metrics.get(&1).unwrap().context_switches, 2);
}

#[test]
fn test_record_execution_time() {
    let mut stats = SchedulerStats::new();
    stats.record_process_created(1);

    stats.record_execution_time(1, 50);
    stats.record_execution_time(1, 30);

    assert_eq!(stats.total_execution_time, 80);
    assert_eq!(stats.process_metrics.get(&1).unwrap().execution_time, 80);
}

#[test]
fn test_record_process_terminated() {
    let mut stats = SchedulerStats::new();
    stats.record_process_created(1);
    stats.record_execution_time(1, 100);

    stats.record_process_terminated(1, 200, 50);

    assert_eq!(stats.processes_terminated, 1);
    let metrics = stats.process_metrics.get(&1).unwrap();
    assert_eq!(metrics.turnaround_time, 200);
    assert_eq!(metrics.response_time, 50);
    assert_eq!(metrics.waiting_time, 100);
}

#[test]
fn test_record_queue_change() {
    let mut stats = SchedulerStats::new();
    stats.record_process_created(1);

    stats.record_queue_change(1);
    stats.record_queue_change(1);
    stats.record_queue_change(1);

    assert_eq!(stats.process_metrics.get(&1).unwrap().queue_changes, 3);
}

#[test]
fn test_stats_reset() {
    let mut stats = SchedulerStats::new();
    stats.record_process_created(1);
    stats.total_ticks = 100;

    stats.reset();

    assert_eq!(stats.processes_created, 0);
    assert_eq!(stats.total_ticks, 0);
    assert!(stats.process_metrics.is_empty());
}

#[test]
fn test_new_record_is_zeroed() {
    let metrics = ProcessMetrics::new(9);
    assert_eq!(metrics.pid, 9);
    assert_eq!(metrics.turnaround_time, 0);
    assert_eq!(metrics.response_time, 0);
    assert_eq!(metrics.waiting_time, 0);
    assert_eq!(metrics.execution_time, 0);
    assert_eq!(metrics.context_switches, 0);
    assert_eq!(metrics.queue_changes, 0);
}

#[test]
fn test_waiting_time_of_terminated_process() {
    let mut stats = SchedulerStats::new();
    stats.record_process_created(5);
    stats.record_execution_time(5, 40);
    stats.record_process_terminated(5, 100, 10);

    let metrics = stats.get_process_metrics(5).unwrap();
    assert_eq!(metrics.waiting_time, 60);
    assert_eq!(metrics.turnaround_time, 100);
    assert_eq!(metrics.response_time, 10);
    assert_eq!(stats.total_waiting_time, 60);
    assert_eq!(stats.processes_terminated, 1);
}

#[test]
fn test_waiting_time_is_clamped_at_zero() {
    let mut stats = SchedulerStats::new();
    stats.record_process_created(1);
    stats.record_execution_time(1, 500);
    stats.record_process_terminated(1, 200, 0);

    assert_eq!(stats.get_process_metrics(1).unwrap().waiting_time, 0);
    assert_eq!(stats.total_waiting_time, 0);
}

#[test]
fn test_waiting_time_equal_times() {
    let mut stats = SchedulerStats::new();
    stats.record_process_created(1);
    stats.record_execution_time(1, 200);
    stats.record_process_terminated(1, 200, 0);
    assert_eq!(stats.get_process_metrics(1).unwrap().waiting_time, 0);
}

#[test]
fn test_second_termination_overwrites_record() {
    let mut stats = SchedulerStats::new();
    stats.record_process_created(1);
    stats.record_execution_time(1, 10);
    stats.record_process_terminated(1, 100, 5);
    stats.record_process_terminated(1, 50, 7);

    let metrics = stats.get_process_metrics(1).unwrap();
    assert_eq!(metrics.turnaround_time, 50);
    assert_eq!(metrics.response_time, 7);
    assert_eq!(metrics.waiting_time, 40);
    assert_eq!(stats.processes_terminated, 2);
    assert_eq!(stats.total_waiting_time, 130);
}

#[test]
fn test_recording_for_unknown_process_is_dropped() {
    let mut stats = SchedulerStats::new();
    stats.record_context_switch(7);
    stats.record_queue_change(7);
    stats.record_execution_time(7, 30);
    stats.record_process_terminated(7, 100, 10);

    assert!(stats.get_process_metrics(7).is_none());
    assert!(stats.process_metrics.is_empty());
    assert_eq!(stats.total_context_switches, 0);
    assert_eq!(stats.total_execution_time, 0);
    assert_eq!(stats.total_waiting_time, 0);
    assert_eq!(stats.processes_terminated, 0);
    assert_eq!(stats.processes_created, 0);
}

#[test]
fn test_enrolling_again_replaces_record() {
    let mut stats = SchedulerStats::new();
    stats.record_process_created(1);
    stats.record_execution_time(1, 30);
    stats.record_process_created(1);

    assert_eq!(stats.processes_created, 2);
    assert_eq!(stats.get_process_metrics(1).unwrap().execution_time, 0);
    assert_eq!(stats.total_execution_time, 30);
}

#[test]
fn test_samples_and_ticks_touch_nothing_else() {
    let mut stats = SchedulerStats::new();
    stats.record_process_created(1);
    stats.sample_queue_depths([1, 2, 3, 4]);
    stats.sample_queue_depths([2, 3, 4, 5]);
    stats.record_tick();
    stats.record_tick();
    stats.record_tick();

    assert_eq!(stats.queue_depth_samples, vec![[1, 2, 3, 4], [2, 3, 4, 5]]);
    assert_eq!(stats.total_ticks, 3);
    assert_eq!(stats.processes_created, 1);
    assert_eq!(stats.total_context_switches, 0);
    assert_eq!(stats.total_execution_time, 0);
    assert_eq!(stats.process_metrics.len(), 1);
}

#[test]
fn test_reset_clears_everything() {
    let mut stats = SchedulerStats::new();
    stats.record_process_created(1);
    stats.record_context_switch(1);
    stats.record_execution_time(1, 10);
    stats.record_process_terminated(1, 20, 1);
    stats.sample_queue_depths([0, 0, 0, 1]);
    stats.record_tick();

    stats.reset();

    assert!(stats.process_metrics.is_empty());
    assert!(stats.queue_depth_samples.is_empty());
    assert_eq!(stats.total_context_switches, 0);
    assert_eq!(stats.total_ticks, 0);
    assert_eq!(stats.processes_created, 0);
    assert_eq!(stats.processes_terminated, 0);
    assert_eq!(stats.total_execution_time, 0);
    assert_eq!(stats.total_waiting_time, 0);
}

#[test]
fn test_stats_clone_and_default() {
    let mut stats = SchedulerStats::default();
    stats.record_process_created(3);
    stats.record_execution_time(3, 12);
    stats.sample_queue_depths([4, 3, 2, 1]);
    let copy = stats.clone();
    assert_eq!(copy.processes_created, 1);
    assert_eq!(copy.total_execution_time, 12);
    assert_eq!(copy.get_process_metrics(3).unwrap().execution_time, 12);
    assert_eq!(copy.queue_depth_samples, vec![[4, 3, 2, 1]]);
    assert_eq!(copy.start_time, stats.start_time);
}

#[test]
fn test_totals_over_all_records() {
    let mut stats = SchedulerStats::new();
    assert_eq!(stats.total_turnaround_time(), 0);
    assert_eq!(stats.total_response_time(), 0);
    for pid in 1..=4u32 {
        stats.record_process_created(pid);
    }
    stats.record_process_terminated(1, 100, 10);
    stats.record_process_terminated(2, 200, 20);
    stats.record_process_terminated(4, 0, 5);

    assert_eq!(stats.total_turnaround_time(), 300);
    assert_eq!(stats.total_response_time(), 35);
}

#[test]
fn test_totals_do_not_overflow_64_bits() {
    let mut stats = SchedulerStats::new();
    stats.record_process_created(1);
    stats.record_process_created(2);
    stats.process_metrics.get_mut(&1).unwrap().turnaround_time = u64::MAX;
    stats.process_metrics.get_mut(&2).unwrap().turnaround_time = u64::MAX;
    assert_eq!(stats.total_turnaround_time(), 2 * (u64::MAX as u128));
}

#[test]
fn test_total_queue_depth() {
    let mut stats = SchedulerStats::new();
    assert_eq!(stats.total_queue_depth(0), 0);
    stats.sample_queue_depths([1, 2, 3, 4]);
    stats.sample_queue_depths([2, 3, 4, 5]);
    stats.sample_queue_depths([0, 0, 0, 9]);
    assert_eq!(stats.total_queue_depth(0), 3);
    assert_eq!(stats.total_queue_depth(1), 5);
    assert_eq!(stats.total_queue_depth(2), 7);
    assert_eq!(stats.total_queue_depth(3), 18);
}

#[test]
fn test_counters_at_their_limit_are_reported() {
    let mut stats = SchedulerStats::new();
    stats.record_process_created(1);
    assert!(stats.can_record_context_switch(1));
    assert!(stats.can_record_queue_change(1));
    assert!(stats.can_record_execution_time(1, u64::MAX));
    assert!(stats.can_record_process_terminated(1, u64::MAX));
    // An identifier without a record always passes: nothing is counted for it.
    assert!(stats.can_record_context_switch(2));
    assert!(stats.can_record_execution_time(2, u64::MAX));

    stats.record_execution_time(1, 10);
    assert!(stats.can_record_execution_time(1, u64::MAX - 10));
    assert!(!stats.can_record_execution_time(1, u64::MAX - 9));

    stats.process_metrics.get_mut(&1).unwrap().context_switches = u32::MAX;
    assert!(!stats.can_record_context_switch(1));
    stats.process_metrics.get_mut(&1).unwrap().context_switches = 0;
    stats.total_context_switches = u64::MAX;
    assert!(!stats.can_record_context_switch(1));

    stats.process_metrics.get_mut(&1).unwrap().queue_changes = u32::MAX;
    assert!(!stats.can_record_queue_change(1));

    stats.total_waiting_time = u64::MAX - 5;
    assert!(stats.can_record_process_terminated(1, 15));
    assert!(!stats.can_record_process_terminated(1, 16));
    stats.total_waiting_time = 0;
    stats.processes_terminated = u32::MAX;
    assert!(!stats.can_record_process_terminated(1, 0));
}

#[test]
fn test_averages_over_nothing_are_zero() {
    let stats = SchedulerStats::new();
    let zero = Quotient { dividend: 0, divisor: 1 };
    assert_eq!(stats.turnaround_average(), zero);
    assert_eq!(stats.response_average(), zero);
    assert_eq!(stats.waiting_average(), zero);
    assert_eq!(stats.execution_per_tick(), zero);
    assert_eq!(stats.switches_per_tick(), zero);
    assert_eq!(stats.depth_average(0), zero);
    // Without samples any queue number is answered.
    assert_eq!(stats.depth_average(9), zero);
    assert_eq!(stats.total_queue_depth(9), 0);
}

#[test]
fn test_averages_as_exact_quotients() {
    let mut stats = SchedulerStats::new();
    stats.record_process_created(1);
    stats.record_process_created(2);
    stats.record_process_created(3);
    stats.record_execution_time(1, 40);
    stats.record_process_terminated(1, 100, 10);
    stats.record_process_terminated(2, 200, 20);
    stats.record_context_switch(3);
    for _ in 0..4 {
        stats.record_tick();
    }
    stats.sample_queue_depths([1, 2, 3, 4]);
    stats.sample_queue_depths([2, 3, 4, 5]);

    assert_eq!(stats.turnaround_average(), Quotient { dividend: 300, divisor: 2 });
    assert_eq!(stats.response_average(), Quotient { dividend: 30, divisor: 2 });
    assert_eq!(stats.waiting_average(), Quotient { dividend: 260, divisor: 2 });
    assert_eq!(stats.execution_per_tick(), Quotient { dividend: 40, divisor: 4 });
    assert_eq!(stats.switches_per_tick(), Quotient { dividend: 1, divisor: 4 });
    assert_eq!(stats.depth_average(0), Quotient { dividend: 3, divisor: 2 });
    assert_eq!(stats.depth_average(3), Quotient { dividend: 9, divisor: 2 });
}

/// The value of an exact quotient in floating point.
fn value(quotient: Quotient) -> f64 {
    quotient.dividend as f64 / quotient.divisor as f64
}

#[test]
fn test_cpu_utilization() {
    let mut stats = SchedulerStats::new();
    stats.total_ticks = 100;
    stats.total_execution_time = 50;

    let utilization = value(stats.execution_per_tick()) * 100.0;
    assert_eq!(utilization, 50.0);
}

#[test]
fn test_avg_turnaround_time() {
    let mut stats = SchedulerStats::new();
    stats.record_process_created(1);
    stats.record_process_created(2);

    stats.record_process_terminated(1, 100, 0);
    stats.record_process_terminated(2, 200, 0);

    let avg = value(stats.turnaround_average());
    assert_eq!(avg, 150.0);
}

#[test]
fn test_avg_response_time() {
    let mut stats = SchedulerStats::new();
    stats.record_process_created(1);
    stats.record_process_created(2);

    stats.record_process_terminated(1, 100, 10);
    stats.record_process_terminated(2, 200, 20);

    let avg = value(stats.response_average());
    assert_eq!(avg, 15.0);
}

#[test]
fn test_avg_queue_depth() {
    let mut stats = SchedulerStats::new();
    stats.sample_queue_depths([1, 2, 3, 4]);
    stats.sample_queue_depths([2, 3, 4, 5]);

    let avg_q0 = value(stats.depth_average(0));
    assert_eq!(avg_q0, 1.5);
}

#[test]
fn test_context_switch_rate() {
    let mut stats = SchedulerStats::new();
    stats.total_ticks = 100;
    stats.total_context_switches = 25;

    let rate = value(stats.switches_per_tick());
    assert_eq!(rate, 0.25);
}
