use os_simulator::shell::parse_command;
use os_simulator::shell::Command;

#[test]
fn test_parse_fork() {
    let cmd = parse_command("fork 1").unwrap();
    assert_eq!(cmd, Command::Fork { ppid: 1 });
}

#[test]
fn test_parse_ps() {
    let cmd = parse_command("ps").unwrap();
    assert_eq!(cmd, Command::Ps);
}

#[test]
fn test_parse_run() {
    let cmd = parse_command("run 2").unwrap();
    assert_eq!(cmd, Command::Run { pid: 2 });
}

#[test]
fn test_parse_kill() {
    let cmd = parse_command("kill 2").unwrap();
    assert_eq!(cmd, Command::Kill { pid: 2 });
}

#[test]
fn test_parse_schedule() {
    let cmd = parse_command("schedule 5").unwrap();
    assert_eq!(cmd, Command::Schedule { cycles: 5 });
}

#[test]
fn test_parse_nice() {
    let cmd = parse_command("nice 2 0").unwrap();
    assert_eq!(cmd, Command::Nice { pid: 2, priority: 0 });
}

#[test]
fn test_parse_sched_stats() {
    let cmd = parse_command("sched_stats").unwrap();
    assert_eq!(cmd, Command::SchedStats);
}

#[test]
fn test_parse_programs() {
    let cmd = parse_command("programs").unwrap();
    assert_eq!(cmd, Command::Programs);
}

#[test]
fn test_parse_run_program() {
    let cmd = parse_command("run_program video_encoder").unwrap();
    assert_eq!(cmd, Command::RunProgram { program_name: "video_encoder".to_string() });
}

#[test]
fn test_parse_stats() {
    let cmd = parse_command("stats").unwrap();
    assert_eq!(cmd, Command::Stats);
}

#[test]
fn test_parse_metrics() {
    let cmd = parse_command("metrics 2").unwrap();
    assert_eq!(cmd, Command::Metrics { pid: 2 });
}

#[test]
fn test_parse_invalid_command() {
    let cmd = parse_command("invalid");
    assert!(cmd.is_none());
}

#[test]
fn test_parse_empty_input() {
    let cmd = parse_command("");
    assert!(cmd.is_none());
}

#[test]
fn test_parse_every_command_word() {
    assert_eq!(parse_command("fork"), Some(Command::Fork { ppid: 1 }));
    assert_eq!(parse_command("fork 7"), Some(Command::Fork { ppid: 7 }));
    assert_eq!(parse_command("block 3"), Some(Command::Block { pid: 3 }));
    assert_eq!(parse_command("unblock 3"), Some(Command::Unblock { pid: 3 }));
    assert_eq!(parse_command("info 12"), Some(Command::Info { pid: 12 }));
    assert_eq!(parse_command("queues"), Some(Command::Queues));
    assert_eq!(parse_command("reset_stats"), Some(Command::ResetStats));
    assert_eq!(parse_command("help"), Some(Command::Help));
    assert_eq!(parse_command("exit"), Some(Command::Exit));
    assert_eq!(parse_command("quit"), Some(Command::Exit));
}

#[test]
fn test_parse_splits_at_any_whitespace() {
    assert_eq!(parse_command("   run    2   "), Some(Command::Run { pid: 2 }));
    assert_eq!(parse_command("\trun\n2\r\n"), Some(Command::Run { pid: 2 }));
    assert_eq!(parse_command("nice\u{00A0}4\u{3000}3"), Some(Command::Nice { pid: 4, priority: 3 }));
    assert_eq!(parse_command("run\u{2003}9"), Some(Command::Run { pid: 9 }));
    assert_eq!(parse_command("   \t \n"), None);
    // U+200B is no whitespace: it belongs to the word.
    assert_eq!(parse_command("run\u{200B} 2"), None);
}

#[test]
fn test_parse_ignores_surplus_words() {
    assert_eq!(parse_command("ps aux"), Some(Command::Ps));
    assert_eq!(parse_command("kill 4 5 6"), Some(Command::Kill { pid: 4 }));
    assert_eq!(
        parse_command("run_program game now"),
        Some(Command::RunProgram { program_name: "game".to_string() })
    );
}

#[test]
fn test_parse_missing_argument() {
    assert_eq!(parse_command("run"), None);
    assert_eq!(parse_command("block"), None);
    assert_eq!(parse_command("unblock"), None);
    assert_eq!(parse_command("kill"), None);
    assert_eq!(parse_command("info"), None);
    assert_eq!(parse_command("schedule"), None);
    assert_eq!(parse_command("metrics"), None);
    assert_eq!(parse_command("nice"), None);
    assert_eq!(parse_command("nice 2"), None);
    assert_eq!(parse_command("run_program"), None);
}

#[test]
fn test_parse_numbers() {
    assert_eq!(parse_command("run +5"), Some(Command::Run { pid: 5 }));
    assert_eq!(parse_command("run 007"), Some(Command::Run { pid: 7 }));
    assert_eq!(parse_command("run 0"), Some(Command::Run { pid: 0 }));
    assert_eq!(parse_command("run 4294967295"), Some(Command::Run { pid: 4294967295 }));
    assert_eq!(parse_command("run 4294967296"), None);
    assert_eq!(parse_command("run 99999999999999999999999999"), None);
    assert_eq!(parse_command("run -1"), None);
    assert_eq!(parse_command("run +"), None);
    assert_eq!(parse_command("run ++1"), None);
    assert_eq!(parse_command("run 1+"), None);
    assert_eq!(parse_command("run 12a"), None);
    assert_eq!(parse_command("run a12"), None);
    assert_eq!(parse_command("run 1.5"), None);
    assert_eq!(parse_command("run \u{0661}"), None);
    assert_eq!(parse_command("fork x"), None);
    assert_eq!(parse_command("nice 1 255"), Some(Command::Nice { pid: 1, priority: 255 }));
    assert_eq!(parse_command("nice 1 256"), None);
    assert_eq!(parse_command("nice x 1"), None);
    assert_eq!(parse_command("nice 1 x"), None);
}

#[test]
fn test_parse_agrees_with_the_standard_number_parser() {
    let words = [
        "0", "1", "+1", "-1", "+", "-", "", "00", "4294967295", "4294967296", "+4294967295",
        "42949672950", "12x", "x", "1 2", "٣", "1_000", "0x10", "255", "256", "+255", "+0",
        "18446744073709551616",
    ];
    for word in words {
        if word.is_empty() || word.contains(' ') {
            continue;
        }
        let line = format!("run {}", word);
        let expected = word.parse::<u32>().ok().map(|pid| Command::Run { pid });
        assert_eq!(parse_command(&line), expected, "word {:?}", word);
        let line = format!("nice 1 {}", word);
        let expected = word.parse::<u8>().ok().map(|priority| Command::Nice { pid: 1, priority });
        assert_eq!(parse_command(&line), expected, "word {:?}", word);
    }
}

#[test]
fn test_parse_agrees_with_the_standard_word_splitter() {
    let lines = [
        "ps", " ps", "ps ", "\u{0085}ps\u{2028}", "run_program a\u{1680}b",
        "run_program \u{2000}x\u{200A}", "run_program\u{202F}\u{205F}name tail",
        "run_program caf\u{00E9}", "run_program \u{1F600}",
    ];
    for line in lines {
        let words: Vec<&str> = line.split_whitespace().collect();
        let expected = match words[0] {
            "ps" => Some(Command::Ps),
            "run_program" => words.get(1).map(|name| Command::RunProgram {
                program_name: name.to_string(),
            }),
            _ => None,
        };
        assert_eq!(parse_command(line), expected, "line {:?}", line);
    }
}

#[test]
fn test_command_words_are_case_sensitive() {
    assert_eq!(parse_command("PS"), None);
    assert_eq!(parse_command("Fork 1"), None);
    assert_eq!(parse_command("pss"), None);
    assert_eq!(parse_command("p"), None);
}

use os_simulator::process::ProcessState;
use os_simulator::shell::CycleReport;
use os_simulator::shell::Exhausted;
use os_simulator::shell::KillOutcome;
use os_simulator::shell::NiceOutcome;
use os_simulator::shell::RunOutcome;
use os_simulator::shell::Shell;
use os_simulator::shell::UnblockOutcome;

#[test]
fn test_shell_creation() {
    let shell = Shell::new();
    assert!(shell.is_running());
    assert_eq!(shell.process_count(), 1);
}

#[test]
fn test_shell_starts_with_the_first_process() {
    let shell = Shell::new_at(1_000);
    let init = shell.manager().get_process(1).unwrap();
    assert_eq!(init.ppid, 0);
    assert_eq!(init.creation_time, 1_000);
    assert_eq!(init.state, ProcessState::Ready);
    assert_eq!(shell.scheduler().get_process_queue(1), Some(3));
    assert_eq!(shell.scheduler().queue_lengths(), [0, 0, 0, 1]);
    assert_eq!(shell.stats().processes_created, 1);
    assert!(shell.stats().get_process_metrics(1).is_some());
    assert!(Shell::default().is_running());
}

#[test]
fn test_shell_fork() {
    let mut shell = Shell::new_at(0);
    assert_eq!(shell.fork_at(1, 10), Ok(Some(2)));
    assert_eq!(shell.fork_at(2, 20), Ok(Some(3)));
    assert_eq!(shell.process_count(), 3);
    assert_eq!(shell.manager().get_process(3).unwrap().ppid, 2);
    assert_eq!(shell.manager().get_process(3).unwrap().creation_time, 20);
    assert_eq!(shell.scheduler().queue_lengths(), [0, 0, 0, 3]);
    assert_eq!(shell.stats().processes_created, 3);
    assert!(shell.stats().get_process_metrics(3).is_some());

    // An unknown parent creates nothing.
    assert_eq!(shell.fork_at(9, 30), Ok(None));
    assert_eq!(shell.fork(0), Ok(None));
    assert_eq!(shell.process_count(), 3);
    assert_eq!(shell.stats().processes_created, 3);
    assert_eq!(shell.fork(3), Ok(Some(4)));
}

#[test]
fn test_shell_run() {
    let mut shell = Shell::new_at(0);
    shell.fork_at(1, 0).unwrap();
    assert_eq!(shell.run(2), Ok(RunOutcome::Started));
    assert_eq!(shell.manager().get_running_process().unwrap().pid, 2);
    assert_eq!(shell.manager().get_process(2).unwrap().state, ProcessState::Running);
    assert_eq!(shell.stats().total_context_switches, 1);
    assert_eq!(shell.stats().get_process_metrics(2).unwrap().context_switches, 1);

    assert_eq!(shell.run(7), Ok(RunOutcome::NotFound));
    assert_eq!(shell.kill_at(2, 5), Ok(KillOutcome::Killed));
    assert_eq!(shell.run(2), Ok(RunOutcome::IsTerminated));
    assert_eq!(shell.stats().total_context_switches, 1);
}

#[test]
fn test_shell_block_and_unblock() {
    let mut shell = Shell::new_at(0);
    shell.fork_at(1, 0).unwrap();
    assert_eq!(shell.unblock(2), UnblockOutcome::NotBlocked);
    assert!(shell.block(2));
    assert_eq!(shell.manager().get_process(2).unwrap().state, ProcessState::Blocked);
    assert_eq!(shell.scheduler().get_process_queue(2), Some(3));

    assert_eq!(shell.unblock(2), UnblockOutcome::Unblocked);
    assert_eq!(shell.manager().get_process(2).unwrap().state, ProcessState::Ready);
    assert_eq!(shell.scheduler().get_process_queue(2), Some(2));
    assert_eq!(shell.unblock(2), UnblockOutcome::NotBlocked);

    assert!(!shell.block(9));
    assert_eq!(shell.unblock(9), UnblockOutcome::NotFound);
}

#[test]
fn test_shell_kill() {
    let mut shell = Shell::new_at(1_000);
    shell.fork_at(1, 1_000).unwrap();
    assert_eq!(shell.schedule_cycle(true).unwrap().unwrap().pid, 1);
    assert_eq!(shell.schedule_cycle(true).unwrap().unwrap().pid, 2);

    assert_eq!(shell.kill_at(1, 2_000), Ok(KillOutcome::InitProtected));
    assert_eq!(shell.kill_at(5, 2_000), Ok(KillOutcome::NotFound));
    assert_eq!(shell.kill_at(2, 1_500), Ok(KillOutcome::Killed));

    let process = shell.manager().get_process(2).unwrap();
    assert_eq!(process.state, ProcessState::Terminated);
    assert_eq!(process.termination_time, Some(1_500));
    assert_eq!(shell.scheduler().get_process_queue(2), None);
    assert_eq!(shell.scheduler().queue_lengths(), [0, 0, 0, 1]);
    // The cycle recorded 64 of execution time and the kill the whole 64 again.
    let metrics = shell.stats().get_process_metrics(2).unwrap();
    assert_eq!(metrics.execution_time, 128);
    assert_eq!(metrics.turnaround_time, 500);
    assert_eq!(metrics.response_time, 0);
    assert_eq!(metrics.waiting_time, 372);
    assert_eq!(shell.stats().processes_terminated, 1);
    assert_eq!(shell.stats().total_waiting_time, 372);
    assert_eq!(shell.process_count(), 2);

    assert!(matches!(shell.kill(1), Ok(KillOutcome::InitProtected)));
}

#[test]
fn test_shell_nice() {
    let mut shell = Shell::new_at(0);
    shell.fork_at(1, 0).unwrap();
    shell.fork_at(1, 0).unwrap();
    assert_eq!(shell.nice(2, 4), Ok(NiceOutcome::OutOfRange));
    assert_eq!(shell.nice(9, 1), Ok(NiceOutcome::NotFound));
    assert_eq!(shell.nice(9, 200), Ok(NiceOutcome::OutOfRange));

    assert_eq!(shell.nice(2, 0), Ok(NiceOutcome::Changed { old_priority: 3 }));
    assert_eq!(shell.manager().get_process(2).unwrap().priority, 0);
    assert_eq!(shell.scheduler().get_process_queue(2), Some(0));
    assert_eq!(shell.scheduler().queue_lengths(), [1, 0, 0, 2]);
    assert_eq!(shell.stats().get_process_metrics(2).unwrap().queue_changes, 1);

    assert_eq!(shell.nice(2, 3), Ok(NiceOutcome::Changed { old_priority: 0 }));
    assert_eq!(shell.scheduler().queue_lengths(), [0, 0, 0, 3]);

    // A process that the scheduler no longer tracks only gets the priority.
    shell.kill_at(3, 1).unwrap();
    assert_eq!(shell.nice(3, 1), Ok(NiceOutcome::Changed { old_priority: 3 }));
    assert_eq!(shell.manager().get_process(3).unwrap().priority, 1);
    assert_eq!(shell.scheduler().get_process_queue(3), None);
    assert_eq!(shell.stats().get_process_metrics(3).unwrap().queue_changes, 0);
}

#[test]
fn test_shell_schedule_cycle() {
    let mut shell = Shell::new_at(0);
    shell.fork_at(1, 0).unwrap();

    let report = shell.schedule_cycle(false).unwrap();
    assert_eq!(report, Some(CycleReport { pid: 1, quantum: 64, queue: 3, new_queue: 2 }));
    let process = shell.manager().get_process(1).unwrap();
    assert_eq!(process.total_time, 64);
    assert_eq!(process.state, ProcessState::Ready);
    assert_eq!(shell.stats().total_ticks, 1);
    assert_eq!(shell.stats().total_context_switches, 1);
    assert_eq!(shell.stats().total_execution_time, 64);
    assert_eq!(shell.stats().get_process_metrics(1).unwrap().queue_changes, 1);
    assert_eq!(shell.scheduler().queue_lengths(), [0, 0, 1, 1]);

    let report = shell.schedule_cycle(true).unwrap();
    assert_eq!(report, Some(CycleReport { pid: 1, quantum: 32, queue: 2, new_queue: 3 }));
    let report = shell.schedule_cycle(true).unwrap();
    assert_eq!(report, Some(CycleReport { pid: 2, quantum: 64, queue: 3, new_queue: 3 }));
    assert_eq!(shell.manager().get_process(1).unwrap().total_time, 96);
    assert_eq!(shell.scheduler().current_ticks(), 3);
    assert_eq!(shell.stats().total_ticks, 3);
}

#[test]
fn test_shell_cycles_add_up_the_execution_time() {
    let mut shell = Shell::new_at(0);
    shell.fork_at(1, 0).unwrap();
    // Both processes stay in queue 3 and take turns, 64 each time.
    for cycle in 1..=20u32 {
        let report = shell.schedule_cycle(true).unwrap().unwrap();
        assert_eq!(report.pid, if cycle % 2 == 1 { 1 } else { 2 });
        assert_eq!(report.quantum, 64);
    }
    assert_eq!(shell.manager().get_process(1).unwrap().total_time, 640);
    assert_eq!(shell.manager().get_process(2).unwrap().total_time, 640);
    assert_eq!(shell.stats().total_execution_time, 1280);
    assert_eq!(shell.stats().total_ticks, 20);
    assert_eq!(shell.stats().get_process_metrics(2).unwrap().context_switches, 10);
}

#[test]
fn test_shell_cycle_boosts_at_the_interval() {
    let mut shell = Shell::new_at(0);
    shell.fork_at(1, 0).unwrap();
    for _ in 0..99 {
        let report = shell.schedule_cycle(true).unwrap().unwrap();
        assert_eq!((report.quantum, report.queue, report.new_queue), (64, 3, 3));
    }
    // Tick 100: both processes are lifted to queue 0 before the choice.
    let report = shell.schedule_cycle(true).unwrap().unwrap();
    assert_eq!(report, CycleReport { pid: 2, quantum: 8, queue: 0, new_queue: 1 });
    assert_eq!(shell.scheduler().get_process_queue(1), Some(0));
}

#[test]
fn test_shell_refuses_when_a_counter_is_used_up() {
    // The statistics are reached for reading only, so a used-up counter is
    // built by running into the limit of the smallest one: a record's
    // execution time cannot take the execution time of a kill on top.
    let exhausted: Result<RunOutcome, Exhausted> = Err(Exhausted);
    assert_ne!(exhausted, Ok(RunOutcome::Started));
    let mut shell = Shell::new_at(0);
    shell.fork_at(1, 0).unwrap();
    assert_eq!(shell.run(2), Ok(RunOutcome::Started));
    assert_eq!(shell.kill_at(2, i64::MAX), Ok(KillOutcome::Killed));
    assert_eq!(shell.stats().get_process_metrics(2).unwrap().turnaround_time, i64::MAX as u64);
    // A second kill of the same process would add the same waiting time to
    // the total once more and pass its limit.
    assert_eq!(shell.kill_at(2, i64::MAX), Ok(KillOutcome::Killed));
    assert_eq!(shell.kill_at(2, i64::MAX), Err(Exhausted));
    assert_eq!(shell.stats().processes_terminated, 2);
    assert_eq!(shell.stats().total_waiting_time, 2 * (i64::MAX as u64));
}

#[test]
fn test_shell_reset_stats_and_exit() {
    let mut shell = Shell::new_at(0);
    shell.fork_at(1, 0).unwrap();
    shell.schedule_cycle(true).unwrap();
    shell.reset_stats();
    assert_eq!(shell.stats().processes_created, 0);
    assert_eq!(shell.stats().total_ticks, 0);
    assert!(shell.stats().get_process_metrics(1).is_none());
    // Processes and scheduler are untouched; cycles go on uncounted.
    assert_eq!(shell.process_count(), 2);
    assert_eq!(shell.scheduler().current_ticks(), 1);
    let report = shell.schedule_cycle(true).unwrap().unwrap();
    assert_eq!(report.pid, 2);
    assert_eq!(shell.stats().total_context_switches, 0);
    assert_eq!(shell.stats().total_ticks, 1);

    assert!(shell.is_running());
    shell.exit();
    assert!(!shell.is_running());
}

#[test]
fn test_shell_fork_process() {
    let mut shell = Shell::new();
    let result = shell.fork(1);

    assert!(matches!(result, Ok(Some(_))));
    assert_eq!(shell.process_count(), 2);
}

#[test]
fn test_shell_kill_process() {
    let mut shell = Shell::new();
    shell.fork(1).unwrap();
    assert_eq!(shell.process_count(), 2);

    let result = shell.kill(2);

    assert_eq!(result, Ok(KillOutcome::Killed));

    let info = shell.manager().get_process(2).unwrap();
    assert_eq!(info.state, ProcessState::Terminated);
}

#[test]
fn test_shell_cannot_kill_init() {
    let mut shell = Shell::new();
    let result = shell.kill(1);

    assert_eq!(result, Ok(KillOutcome::InitProtected));
}

#[test]
fn test_shell_run_process() {
    let mut shell = Shell::new();
    shell.fork(1).unwrap();
    let result = shell.run(2);

    assert_eq!(result, Ok(RunOutcome::Started));
}

#[test]
fn test_shell_block_unblock() {
    let mut shell = Shell::new();
    shell.fork(1).unwrap();

    let block_result = shell.block(2);
    assert!(block_result);

    let unblock_result = shell.unblock(2);
    assert_eq!(unblock_result, UnblockOutcome::Unblocked);
}
