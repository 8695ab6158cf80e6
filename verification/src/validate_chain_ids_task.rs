//! Validation of the configured chain ids against what the Ethereum
//! client and the main node say: what each answer means for the task.

use vstd::prelude::*;

verus! {

/// Id of the settlement layer chain.
#[derive(Clone, Copy, Debug, PartialEq, Eq, Structural, Hash)]
pub struct SLChainId(pub u64);

/// Id of the L2 chain.
#[derive(Clone, Copy, Debug, PartialEq, Eq, Structural, Hash)]
pub struct L2ChainId(pub u64);

/// The largest id that an L2 chain can have: wallets compute
/// `2 * id + 36` and need the result to be a safe integer.
pub const MAX_L2_CHAIN_ID: u64 = 4503599627370477;

/// The seconds to wait before a check is tried again.
pub const BACKOFF_INTERVAL_SECS: u64 = 5;

/// What is known of a call that failed.
#[derive(Clone, Copy, Debug, PartialEq, Eq, Structural, Hash)]
pub enum RpcFailure {
    /// The failure may pass: timeouts, lost connections.
    Retriable,
    /// The failure will not pass.
    Fatal,
}

/// One of the checks that the task makes.
#[derive(Clone, Copy, Debug, PartialEq, Eq, Structural, Hash)]
pub enum ChainCheck {
    /// The Ethereum client is asked for its chain id.
    EthClient,
    /// The main node is asked for the L1 chain id.
    MainNodeL1,
    /// The main node is asked for its own chain id.
    MainNodeL2,
    /// One of the further settlement layer clients is asked for its chain id.
    MappedClient(usize),
}

/// Why the validation failed.
#[derive(Clone, Copy, Debug, PartialEq, Eq, Structural, Hash)]
pub enum ChainIdError {
    /// The Ethereum client is on another chain than the configured one.
    EthClientMismatch { expected: u64, actual: u64 },
    /// The main node names another L1 chain than the configured one.
    MainNodeL1Mismatch { expected: u64, actual: u64 },
    /// The main node names another L2 chain than the configured one.
    MainNodeL2Mismatch { expected: u64, actual: u64 },
    /// The main node names an L2 chain id that no chain can have.
    InvalidL2ChainId { supplied: u64 },
    /// A call to the main node failed for good.
    MainNodeCall,
}

/// What follows from one answer to a check.
#[derive(Clone, Copy, Debug, PartialEq, Eq, Structural, Hash)]
pub enum CheckStep {
    /// The check has passed.
    Passed,
    /// The check is to be tried again after so many seconds.
    RetryAfter(u64),
    /// The check has failed.
    Failed(ChainIdError),
}

/// What follows from the Ethereum client's answer: a matching id passes,
/// another id fails, and any failed call is tried again.
pub open spec fn eth_client_step(expected: u64, response: Result<u64, RpcFailure>) -> CheckStep {
    match response {
        Ok(actual) => if actual == expected {
            CheckStep::Passed
        } else {
            CheckStep::Failed(ChainIdError::EthClientMismatch { expected, actual })
        },
        Err(_) => CheckStep::RetryAfter(BACKOFF_INTERVAL_SECS),
    }
}

/// What follows from the main node's answer on the L1 chain: a matching
/// id passes, another id fails, a retriable failure is tried again, and
/// a fatal one fails.
pub open spec fn main_node_l1_step(expected: u64, response: Result<u64, RpcFailure>) -> CheckStep {
    match response {
        Ok(actual) => if actual == expected {
            CheckStep::Passed
        } else {
            CheckStep::Failed(ChainIdError::MainNodeL1Mismatch { expected, actual })
        },
        Err(RpcFailure::Retriable) => CheckStep::RetryAfter(BACKOFF_INTERVAL_SECS),
        Err(RpcFailure::Fatal) => CheckStep::Failed(ChainIdError::MainNodeCall),
    }
}

/// What follows from the main node's answer on its own chain: an id
/// that no L2 chain can have fails, as does another id than the
/// configured one; failed calls are treated as for the L1 chain.
pub open spec fn main_node_l2_step(expected: u64, response: Result<u64, RpcFailure>) -> CheckStep {
    match response {
        Ok(actual) => if actual > MAX_L2_CHAIN_ID {
            CheckStep::Failed(ChainIdError::InvalidL2ChainId { supplied: actual })
        } else if actual == expected {
            CheckStep::Passed
        } else {
            CheckStep::Failed(ChainIdError::MainNodeL2Mismatch { expected, actual })
        },
        Err(RpcFailure::Retriable) => CheckStep::RetryAfter(BACKOFF_INTERVAL_SECS),
        Err(RpcFailure::Fatal) => CheckStep::Failed(ChainIdError::MainNodeCall),
    }
}

/// What the task does next.
#[derive(Clone, Copy, Debug, PartialEq, Eq, Hash)]
pub enum TaskStep {
    /// Go on waiting for the checks that are under way.
    Wait,
    /// Make the check again after so many seconds.
    Retry(ChainCheck, u64),
    /// The task has ended, well or with an error.
    Done(Result<(), ChainIdError>),
}

/// How the task ends on success.
#[derive(Clone, Copy, Debug, PartialEq, Eq, Structural, Hash)]
pub enum RunMode {
    /// End as soon as every check has passed.
    Once,
    /// Go on until a check fails or a stop is signalled.
    UntilStopped,
}

/// What happens to the task.
#[derive(Clone, Copy, Debug, PartialEq, Eq, Hash)]
pub enum TaskEvent {
    /// A check was answered.
    Answer(ChainCheck, Result<u64, RpcFailure>),
    /// A stop was signalled.
    Stop,
}

/// The task as contracts see it.
pub struct TaskView {
    pub sl_chain_id: u64,
    pub l2_chain_id: u64,
    /// The chain ids that the further settlement layer clients are
    /// expected to name.
    pub mapped: Seq<u64>,
    pub eth_passed: bool,
    pub l1_passed: bool,
    pub l2_passed: bool,
    pub mapped_passed: Seq<bool>,
}

impl TaskView {
    /// There is a flag for each of the further clients.
    pub open spec fn wf(self) -> bool {
        self.mapped_passed.len() == self.mapped.len()
    }

    /// The check is one that the task makes.
    pub open spec fn knows(self, check: ChainCheck) -> bool {
        match check {
            ChainCheck::MappedClient(i) => i < self.mapped.len(),
            _ => true,
        }
    }

    /// What follows from the answer to the check.
    pub open spec fn check_step(self, check: ChainCheck, response: Result<u64, RpcFailure>) -> CheckStep {
        match check {
            ChainCheck::EthClient => eth_client_step(self.sl_chain_id, response),
            ChainCheck::MainNodeL1 => main_node_l1_step(self.sl_chain_id, response),
            ChainCheck::MainNodeL2 => main_node_l2_step(self.l2_chain_id, response),
            ChainCheck::MappedClient(i) => eth_client_step(self.mapped[i as int], response),
        }
    }

    /// The task with the check marked as passed.
    pub open spec fn with_passed(self, check: ChainCheck) -> TaskView {
        match check {
            ChainCheck::EthClient => TaskView { eth_passed: true, ..self },
            ChainCheck::MainNodeL1 => TaskView { l1_passed: true, ..self },
            ChainCheck::MainNodeL2 => TaskView { l2_passed: true, ..self },
            ChainCheck::MappedClient(i) => TaskView {
                mapped_passed: self.mapped_passed.update(i as int, true),
                ..self
            },
        }
    }

    /// Every check has passed.
    pub open spec fn all_passed(self) -> bool {
        &&& self.eth_passed
        &&& self.l1_passed
        &&& self.l2_passed
        &&& forall|i: int| 0 <= i < self.mapped_passed.len() ==> #[trigger] self.mapped_passed[i]
    }

    /// The task after the event.
    pub open spec fn after(self, event: TaskEvent) -> TaskView {
        match event {
            TaskEvent::Answer(check, response) => if self.knows(check) && self.check_step(
                check,
                response,
            ) == CheckStep::Passed {
                self.with_passed(check)
            } else {
                self
            },
            TaskEvent::Stop => self,
        }
    }

    /// What the task does after the event. A stop ends it well. A failed
    /// check ends it with the error. A check to be tried again is tried
    /// again. A passed check ends the task well if it runs once and every
    /// check has now passed; else the task waits. An answer to a check
    /// that the task does not make is passed over.
    pub open spec fn step(self, mode: RunMode, event: TaskEvent) -> TaskStep {
        match event {
            TaskEvent::Stop => TaskStep::Done(Ok(())),
            TaskEvent::Answer(check, response) => if !self.knows(check) {
                TaskStep::Wait
            } else {
                match self.check_step(check, response) {
                    CheckStep::Failed(error) => TaskStep::Done(Err(error)),
                    CheckStep::RetryAfter(secs) => TaskStep::Retry(check, secs),
                    CheckStep::Passed => if mode == RunMode::Once && self.with_passed(
                        check,
                    ).all_passed() {
                        TaskStep::Done(Ok(()))
                    } else {
                        TaskStep::Wait
                    },
                }
            },
        }
    }
}

/// Task that validates chain ids using the main node and the Ethereum
/// client.
#[derive(Debug)]
pub struct ValidateChainIdsTask {
    sl_chain_id: SLChainId,
    l2_chain_id: L2ChainId,
    mapped: Vec<SLChainId>,
    eth_passed: bool,
    l1_passed: bool,
    l2_passed: bool,
    mapped_passed: Vec<bool>,
}

/// The numbers of a list of chain ids.
pub open spec fn ids_of(ids: Seq<SLChainId>) -> Seq<u64> {
    Seq::new(ids.len(), |i: int| ids[i].0)
}

impl View for ValidateChainIdsTask {
    type V = TaskView;

    closed spec fn view(&self) -> TaskView {
        TaskView {
            sl_chain_id: self.sl_chain_id.0,
            l2_chain_id: self.l2_chain_id.0,
            mapped: ids_of(self.mapped@),
            eth_passed: self.eth_passed,
            l1_passed: self.l1_passed,
            l2_passed: self.l2_passed,
            mapped_passed: self.mapped_passed@,
        }
    }
}

impl ValidateChainIdsTask {
    /// A task for the configured chain ids with no check passed yet.
    /// `client_map` lists the chain ids of the further settlement layer
    /// clients, which a run that ends on success checks too.
    pub fn new(sl_chain_id: SLChainId, l2_chain_id: L2ChainId, client_map: Vec<SLChainId>) -> (task:
        ValidateChainIdsTask)
        ensures
            task@.wf(),
            task@ == (TaskView {
                sl_chain_id: sl_chain_id.0,
                l2_chain_id: l2_chain_id.0,
                mapped: ids_of(client_map@),
                eth_passed: false,
                l1_passed: false,
                l2_passed: false,
                mapped_passed: Seq::new(client_map@.len(), |i: int| false),
            }),
    {
        let mut mapped_passed: Vec<bool> = Vec::new();
        let mut i: usize = 0;
        while i < client_map.len()
            invariant
                0 <= i <= client_map.len(),
                mapped_passed.len() == i,
                forall|j: int| 0 <= j < i ==> !(#[trigger] mapped_passed@[j]),
            decreases client_map.len() - i,
        {
            mapped_passed.push(false);
            i += 1;
        }
        let task = ValidateChainIdsTask {
            sl_chain_id,
            l2_chain_id,
            mapped: client_map,
            eth_passed: false,
            l1_passed: false,
            l2_passed: false,
            mapped_passed,
        };
        proof {
            assert(task@.mapped_passed =~= Seq::new(client_map@.len(), |i: int| false));
        }
        task
    }

    /// What follows from the Ethereum client's answer.
    pub fn check_eth_client(expected: SLChainId, response: Result<u64, RpcFailure>) -> (step:
        CheckStep)
        ensures
            step == eth_client_step(expected.0, response),
    {
        match response {
            Ok(actual) => if actual == expected.0 {
                CheckStep::Passed
            } else {
                CheckStep::Failed(ChainIdError::EthClientMismatch { expected: expected.0, actual })
            },
            Err(_) => CheckStep::RetryAfter(BACKOFF_INTERVAL_SECS),
        }
    }

    /// What follows from the main node's answer on the L1 chain.
    pub fn check_l1_chain_using_main_node(
        expected: SLChainId,
        response: Result<u64, RpcFailure>,
    ) -> (step: CheckStep)
        ensures
            step == main_node_l1_step(expected.0, response),
    {
        match response {
            Ok(actual) => if actual == expected.0 {
                CheckStep::Passed
            } else {
                CheckStep::Failed(ChainIdError::MainNodeL1Mismatch { expected: expected.0, actual })
            },
            Err(RpcFailure::Retriable) => CheckStep::RetryAfter(BACKOFF_INTERVAL_SECS),
            Err(RpcFailure::Fatal) => CheckStep::Failed(ChainIdError::MainNodeCall),
        }
    }

    /// What follows from the main node's answer on its own chain.
    pub fn check_l2_chain_using_main_node(
        expected: L2ChainId,
        response: Result<u64, RpcFailure>,
    ) -> (step: CheckStep)
        ensures
            step == main_node_l2_step(expected.0, response),
    {
        match response {
            Ok(actual) => if actual > MAX_L2_CHAIN_ID {
                CheckStep::Failed(ChainIdError::InvalidL2ChainId { supplied: actual })
            } else if actual == expected.0 {
                CheckStep::Passed
            } else {
                CheckStep::Failed(ChainIdError::MainNodeL2Mismatch { expected: expected.0, actual })
            },
            Err(RpcFailure::Retriable) => CheckStep::RetryAfter(BACKOFF_INTERVAL_SECS),
            Err(RpcFailure::Fatal) => CheckStep::Failed(ChainIdError::MainNodeCall),
        }
    }

    /// Decides whether every check has passed.
    fn all_passed(&self) -> (all: bool)
        requires
            self@.wf(),
        ensures
            all == self@.all_passed(),
    {
        if !(self.eth_passed && self.l1_passed && self.l2_passed) {
            return false;
        }
        let mut i: usize = 0;
        while i < self.mapped_passed.len()
            invariant
                0 <= i <= self.mapped_passed.len(),
                forall|j: int| 0 <= j < i ==> #[trigger] self.mapped_passed@[j],
            decreases self.mapped_passed.len() - i,
        {
            if !self.mapped_passed[i] {
                assert(!self@.mapped_passed[i as int]);
                return false;
            }
            i += 1;
        }
        true
    }

    /// Takes in an event and says what the task does next.
    fn on_event(&mut self, mode: RunMode, event: TaskEvent) -> (step: TaskStep)
        requires
            old(self)@.wf(),
        ensures
            final(self)@.wf(),
            final(self)@ == old(self)@.after(event),
            step == old(self)@.step(mode, event),
    {
        match event {
            TaskEvent::Stop => TaskStep::Done(Ok(())),
            TaskEvent::Answer(check, response) => {
                let outcome = match check {
                    ChainCheck::EthClient => Self::check_eth_client(self.sl_chain_id, response),
                    ChainCheck::MainNodeL1 => Self::check_l1_chain_using_main_node(
                        self.sl_chain_id,
                        response,
                    ),
                    ChainCheck::MainNodeL2 => Self::check_l2_chain_using_main_node(
                        self.l2_chain_id,
                        response,
                    ),
                    ChainCheck::MappedClient(i) => {
                        if i >= self.mapped.len() {
                            return TaskStep::Wait;
                        }
                        Self::check_eth_client(self.mapped[i], response)
                    },
                };
                match outcome {
                    CheckStep::Failed(error) => TaskStep::Done(Err(error)),
                    CheckStep::RetryAfter(secs) => TaskStep::Retry(check, secs),
                    CheckStep::Passed => {
                        match check {
                            ChainCheck::EthClient => {
                                self.eth_passed = true;
                            },
                            ChainCheck::MainNodeL1 => {
                                self.l1_passed = true;
                            },
                            ChainCheck::MainNodeL2 => {
                                self.l2_passed = true;
                            },
                            ChainCheck::MappedClient(i) => {
                                self.mapped_passed.set(i, true);
                            },
                        }
                        let ended = match mode {
                            RunMode::Once => self.all_passed(),
                            RunMode::UntilStopped => false,
                        };
                        if ended {
                            TaskStep::Done(Ok(()))
                        } else {
                            TaskStep::Wait
                        }
                    },
                }
            },
        }
    }

    /// One step of a run that ends as soon as every check has passed, or
    /// when a check fails or a stop is signalled.
    pub fn run_once(&mut self, event: TaskEvent) -> (step: TaskStep)
        requires
            old(self)@.wf(),
        ensures
            final(self)@.wf(),
            final(self)@ == old(self)@.after(event),
            step == old(self)@.step(RunMode::Once, event),
    {
        self.on_event(RunMode::Once, event)
    }

    /// One step of a run that goes on until a check fails or a stop is
    /// signalled: passed checks leave it waiting.
    pub fn run(&mut self, event: TaskEvent) -> (step: TaskStep)
        requires
            old(self)@.wf(),
        ensures
            final(self)@.wf(),
            final(self)@ == old(self)@.after(event),
            step == old(self)@.step(RunMode::UntilStopped, event),
    {
        self.on_event(RunMode::UntilStopped, event)
    }
}

impl ChainIdError {
    /// What the error says, without the chain ids.
    pub open spec fn text(self) -> Seq<char> {
        match self {
            ChainIdError::EthClientMismatch { .. } =>
                "Configured L1 chain ID doesn't match the one from Ethereum node. Make sure your configuration is correct and you are corrected to the right Ethereum node."@,
            ChainIdError::MainNodeL1Mismatch { .. } =>
                "Configured L1 chain ID doesn't match the one from main node. Make sure your configuration is correct and you are corrected to the right main node."@,
            ChainIdError::MainNodeL2Mismatch { .. } =>
                "Configured L2 chain ID doesn't match the one from main node. Make sure your configuration is correct and you are corrected to the right main node."@,
            ChainIdError::InvalidL2ChainId { .. } => "invalid chain ID supplied by main node"@,
            ChainIdError::MainNodeCall => "call to the main node failed"@,
        }
    }

    /// What the error says, without the chain ids.
    pub fn describe(&self) -> (text: String)
        ensures
            text@ == self.text(),
    {
        match self {
            ChainIdError::EthClientMismatch { .. } =>
                "Configured L1 chain ID doesn't match the one from Ethereum node. Make sure your configuration is correct and you are corrected to the right Ethereum node.".to_owned(),
            ChainIdError::MainNodeL1Mismatch { .. } =>
                "Configured L1 chain ID doesn't match the one from main node. Make sure your configuration is correct and you are corrected to the right main node.".to_owned(),
            ChainIdError::MainNodeL2Mismatch { .. } =>
                "Configured L2 chain ID doesn't match the one from main node. Make sure your configuration is correct and you are corrected to the right main node.".to_owned(),
            ChainIdError::InvalidL2ChainId { .. } => "invalid chain ID supplied by main node".to_owned(),
            ChainIdError::MainNodeCall => "call to the main node failed".to_owned(),
        }
    }
}

} // verus!
