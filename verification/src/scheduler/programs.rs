//! The kinds of workload that the simulator knows, and what the scheduler
//! is expected to make of each.

use vstd::prelude::*;

verus! {

/// How a program uses the processor.
#[derive(Debug, Clone, Copy, PartialEq, Eq, Structural)]
pub enum ProgramType {
    CpuBound,
    IoBound,
    Interactive,
    Mixed,
    Batch,
}

impl ProgramType {
    /// The queue in which a program of this kind is expected to settle.
    pub open spec fn settled_level(self) -> u8 {
        match self {
            ProgramType::CpuBound => 3,
            ProgramType::IoBound => 0,
            ProgramType::Interactive => 0,
            ProgramType::Mixed => 1,
            ProgramType::Batch => 2,
        }
    }

    /// One sentence on how a program of this kind behaves.
    pub open spec fn behavior(self) -> Seq<char> {
        match self {
            ProgramType::CpuBound => "Runs for full time quantum every cycle (CPU-intensive)"@,
            ProgramType::IoBound => "Frequently yields early for I/O operations (responsive)"@,
            ProgramType::Interactive => "Yields on user interaction (very responsive)"@,
            ProgramType::Mixed => "Mixes CPU and I/O operations (balanced)"@,
            ProgramType::Batch => "Mostly CPU with occasional I/O (background)"@,
        }
    }

    /// The queue in which a program of this kind is expected to settle: the
    /// more it computes, the lower the priority.
    pub fn expected_priority(self) -> (level: u8)
        ensures
            level == self.settled_level(),
            level <= 3,
    {
        match self {
            ProgramType::CpuBound => 3,
            ProgramType::IoBound => 0,
            ProgramType::Interactive => 0,
            ProgramType::Mixed => 1,
            ProgramType::Batch => 2,
        }
    }

    /// One sentence on how a program of this kind behaves.
    pub fn behavior_description(self) -> (text: String)
        ensures
            text@ == self.behavior(),
    {
        match self {
            ProgramType::CpuBound => {
                "Runs for full time quantum every cycle (CPU-intensive)".to_string()
            },
            ProgramType::IoBound => {
                "Frequently yields early for I/O operations (responsive)".to_string()
            },
            ProgramType::Interactive => "Yields on user interaction (very responsive)".to_string(),
            ProgramType::Mixed => "Mixes CPU and I/O operations (balanced)".to_string(),
            ProgramType::Batch => "Mostly CPU with occasional I/O (background)".to_string(),
        }
    }
}

} // verus!
