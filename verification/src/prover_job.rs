//! The two jobs that the autoscaler binary can run.

use vstd::prelude::*;
use vstd::string::StringExecFns;

verus! {

/// Which part of the autoscaler a process runs.
#[derive(Debug, Clone, Copy, PartialEq, Eq, Structural, Hash)]
pub enum ProverJob {
    /// The global control loop.
    Scaler,
    /// The agent that watches one cluster.
    Agent,
}

impl ProverJob {
    /// The job's sequential number.
    pub open spec fn number(self) -> int {
        match self {
            ProverJob::Scaler => 0,
            ProverJob::Agent => 1,
        }
    }

    /// The job that a name stands for.
    pub open spec fn named(name: Seq<char>) -> Option<ProverJob> {
        if name == "scaler"@ {
            Some(ProverJob::Scaler)
        } else if name == "agent"@ {
            Some(ProverJob::Agent)
        } else {
            None
        }
    }

    /// What is said of a name that stands for no job.
    pub open spec fn rejection(name: Seq<char>) -> Seq<char> {
        name + " is not a valid Prover Scaler Job"@
    }

    /// The job's sequential number.
    pub fn as_u8(self) -> (n: u8)
        ensures
            n == self.number(),
    {
        match self {
            ProverJob::Scaler => 0,
            ProverJob::Agent => 1,
        }
    }

    /// Reads a job's name: `scaler` or `agent`. Any other text is
    /// rejected with a message that repeats it.
    pub fn parse(s: &str) -> (job: Result<ProverJob, String>)
        ensures
            match Self::named(s@) {
                Some(named) => job == Ok::<ProverJob, String>(named),
                None => job matches Err(message) && message@ == Self::rejection(s@),
            },
    {
        let name = s.to_owned();
        if name == "scaler".to_owned() {
            Ok(ProverJob::Scaler)
        } else if name == "agent".to_owned() {
            Ok(ProverJob::Agent)
        } else {
            Err(name.concat(" is not a valid Prover Scaler Job"))
        }
    }
}

impl std::str::FromStr for ProverJob {
    type Err = String;

    /// Reads a job's name, as `parse` does.
    fn from_str(s: &str) -> (job: Result<Self, Self::Err>)
        ensures
            match ProverJob::named(s@) {
                Some(named) => job == Ok::<ProverJob, String>(named),
                None => job matches Err(message) && message@ == ProverJob::rejection(s@),
            },
    {
        ProverJob::parse(s)
    }
}

} // verus!
