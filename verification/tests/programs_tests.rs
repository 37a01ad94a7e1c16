use os_simulator::scheduler::programs::ProgramType;

#[test]
fn test_expected_priority_of_each_kind() {
    assert_eq!(ProgramType::CpuBound.expected_priority(), 3);
    assert_eq!(ProgramType::IoBound.expected_priority(), 0);
    assert_eq!(ProgramType::Interactive.expected_priority(), 0);
    assert_eq!(ProgramType::Mixed.expected_priority(), 1);
    assert_eq!(ProgramType::Batch.expected_priority(), 2);
}

#[test]
fn test_behavior_description_of_each_kind() {
    assert_eq!(
        ProgramType::CpuBound.behavior_description(),
        "Runs for full time quantum every cycle (CPU-intensive)"
    );
    assert_eq!(
        ProgramType::IoBound.behavior_description(),
        "Frequently yields early for I/O operations (responsive)"
    );
    assert_eq!(
        ProgramType::Interactive.behavior_description(),
        "Yields on user interaction (very responsive)"
    );
    assert_eq!(
        ProgramType::Mixed.behavior_description(),
        "Mixes CPU and I/O operations (balanced)"
    );
    assert_eq!(
        ProgramType::Batch.behavior_description(),
        "Mostly CPU with occasional I/O (background)"
    );
}
