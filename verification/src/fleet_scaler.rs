//! The global control loop: in each cycle it takes in the clusters'
//! reports and the demand, decides a target for every pool in every
//! cluster, and hands out the commands that carry the decisions out.

use vstd::prelude::*;
use crate::basic_types::CircuitIdRoundTuple;
use crate::cluster_watcher::{report_view, ClusterReport, ClusterState};
use crate::fleet_model::{
    chosen_cluster, first_index, fresh_clusters, previous_replicas, serving_clusters, ClusterSpec,
    CommandView, FleetView, Phase, PoolConfig, ScalingDecision, TrackView,
};
use crate::queuer::Queuer;
use crate::scaling_rules::{ease_decrease, target_replicas};
use crate::seq_steps::{lemma_filter_ends, lemma_filter_map_step, lemma_filter_step};

verus! {

/// A cluster as the configuration names it. Clusters are listed in the
/// order of their priority.
#[derive(Debug)]
pub struct ClusterConfig {
    pub name: String,
    /// The replicas that the cluster's quota allows a pool.
    pub capacity: u32,
}

impl View for ClusterConfig {
    type V = ClusterSpec;

    open spec fn view(&self) -> ClusterSpec {
        ClusterSpec { name: self.name@, capacity: self.capacity }
    }
}

/// The clusters and pools that the scaler looks after.
#[derive(Debug)]
pub struct FleetConfig {
    pub clusters: Vec<ClusterConfig>,
    pub pools: Vec<PoolConfig>,
}

/// Why a configuration is turned down.
#[derive(Clone, Copy, Debug, PartialEq, Eq, Structural, Hash)]
pub enum ConfigError {
    /// A pool's replicas are said to work off no jobs.
    ZeroThroughput,
    /// A pool's minimum is more than a cluster's capacity.
    MinimumAboveCapacity,
}

/// Why the scaler turns a call down.
#[derive(Clone, Copy, Debug, PartialEq, Eq, Structural, Hash)]
pub enum CycleError {
    /// The call does not belong to the phase that the cycle is in.
    OutOfTurn,
    /// A stop was requested: no new cycle begins.
    Stopping,
    /// There is not one answer for each cluster, or for each command.
    WrongCount,
}

/// A command to a cluster's scaler: the replicas that a pool shall have.
#[derive(Debug)]
pub struct ScaleCommand {
    pub cluster_name: String,
    pub pool: CircuitIdRoundTuple,
    pub target_replicas: u32,
}

impl View for ScaleCommand {
    type V = CommandView;

    open spec fn view(&self) -> CommandView {
        CommandView {
            cluster_name: self.cluster_name@,
            pool: self.pool,
            target_replicas: self.target_replicas,
        }
    }
}

/// What the scaler knows of one cluster.
#[derive(Debug)]
pub struct ClusterTrack {
    pub snapshot: Option<ClusterState>,
    pub stale: bool,
    pub applied: Vec<Option<u32>>,
}

impl View for ClusterTrack {
    type V = TrackView;

    open spec fn view(&self) -> TrackView {
        TrackView {
            snapshot: report_view(self.snapshot),
            stale: self.stale,
            applied: self.applied@,
        }
    }
}

/// The clusters that a list of configurations stands for.
pub open spec fn specs_of(clusters: Seq<ClusterConfig>) -> Seq<ClusterSpec> {
    Seq::new(clusters.len(), |i: int| clusters[i]@)
}

/// The tracks that a list of stored tracks stands for.
pub open spec fn tracks_of(tracks: Seq<ClusterTrack>) -> Seq<TrackView> {
    Seq::new(tracks.len(), |i: int| tracks[i]@)
}

/// The commands that a list of commands stands for.
pub open spec fn commands_of(commands: Seq<ScaleCommand>) -> Seq<CommandView> {
    Seq::new(commands.len(), |i: int| commands[i]@)
}

/// The reports that a list of optional states stands for.
pub open spec fn reports_of_states(reports: Seq<Option<ClusterState>>) -> Seq<Option<ClusterReport>> {
    Seq::new(reports.len(), |i: int| report_view(reports[i]))
}

/// The view of a configuration before any cycle: every cluster stale and
/// unseen, nothing applied, the loop idle.
pub open spec fn initial_view(clusters: Seq<ClusterSpec>, pools: Seq<PoolConfig>) -> FleetView {
    FleetView {
        clusters,
        pools,
        tracks: Seq::new(
            clusters.len(),
            |c: int|
                TrackView {
                    snapshot: None,
                    stale: true,
                    applied: Seq::new(pools.len(), |p: int| None::<u32>),
                },
        ),
        phase: Phase::Idle,
        stopping: false,
        pending: Seq::empty(),
    }
}

/// What is wrong with a configuration, if anything: a pool without
/// throughput first, then a minimum above a capacity.
pub open spec fn config_fault(clusters: Seq<ClusterSpec>, pools: Seq<PoolConfig>) -> Option<ConfigError> {
    if exists|p: int| 0 <= p < pools.len() && (#[trigger] pools[p]).throughput_per_replica == 0 {
        Some(ConfigError::ZeroThroughput)
    } else if exists|c: int, p: int|
        0 <= c < clusters.len() && 0 <= p < pools.len() && (#[trigger] pools[p]).min_replicas > (
        #[trigger] clusters[c]).capacity {
        Some(ConfigError::MinimumAboveCapacity)
    } else {
        None
    }
}

/// A place in a list as a number.
pub open spec fn place_of(place: Option<usize>) -> Option<int> {
    match place {
        Some(i) => Some(i as int),
        None => None,
    }
}

/// The fleet scaler.
pub struct FleetScaler {
    config: FleetConfig,
    tracks: Vec<ClusterTrack>,
    phase: Phase,
    stopping: bool,
    pending: Vec<ScalingDecision>,
}

impl View for FleetScaler {
    type V = FleetView;

    closed spec fn view(&self) -> FleetView {
        FleetView {
            clusters: specs_of(self.config.clusters@),
            pools: self.config.pools@,
            tracks: tracks_of(self.tracks@),
            phase: self.phase,
            stopping: self.stopping,
            pending: self.pending@,
        }
    }
}

/// Looks for what is wrong with a configuration.
pub fn check_config(config: &FleetConfig) -> (fault: Option<ConfigError>)
    ensures
        fault == config_fault(specs_of(config.clusters@), config.pools@),
{
    let ghost clusters = specs_of(config.clusters@);
    let ghost pools = config.pools@;
    let mut p: usize = 0;
    while p < config.pools.len()
        invariant
            0 <= p <= config.pools.len(),
            pools == config.pools@,
            forall|j: int| 0 <= j < p ==> (#[trigger] pools[j]).throughput_per_replica != 0,
        decreases config.pools.len() - p,
    {
        if config.pools[p].throughput_per_replica == 0 {
            return Some(ConfigError::ZeroThroughput);
        }
        p += 1;
    }
    let mut c: usize = 0;
    while c < config.clusters.len()
        invariant
            0 <= c <= config.clusters.len(),
            pools == config.pools@,
            clusters == specs_of(config.clusters@),
            forall|j: int| 0 <= j < pools.len() ==> (#[trigger] pools[j]).throughput_per_replica != 0,
            forall|a: int, b: int|
                0 <= a < c && 0 <= b < pools.len() ==> (#[trigger] pools[b]).min_replicas <= (
                #[trigger] clusters[a]).capacity,
        decreases config.clusters.len() - c,
    {
        let capacity = config.clusters[c].capacity;
        let mut q: usize = 0;
        while q < config.pools.len()
            invariant
                0 <= q <= config.pools.len(),
                0 <= c < config.clusters.len(),
                pools == config.pools@,
                clusters == specs_of(config.clusters@),
                capacity == clusters[c as int].capacity,
                forall|j: int|
                    0 <= j < pools.len() ==> (#[trigger] pools[j]).throughput_per_replica != 0,
                forall|b: int| 0 <= b < q ==> (#[trigger] pools[b]).min_replicas <= capacity,
            decreases config.pools.len() - q,
        {
            if config.pools[q].min_replicas > capacity {
                assert(pools[q as int].min_replicas > clusters[c as int].capacity);
                return Some(ConfigError::MinimumAboveCapacity);
            }
            q += 1;
        }
        c += 1;
    }
    None
}

impl FleetScaler {
    /// The scaler's state is one that its operations can have reached.
    pub open spec fn wf(&self) -> bool {
        self@.wf()
    }

    /// A scaler for the configuration, idle, with every cluster yet to
    /// report. A configuration with a fault is turned down.
    pub fn new(config: FleetConfig) -> (made: Result<FleetScaler, ConfigError>)
        ensures
            match config_fault(specs_of(config.clusters@), config.pools@) {
                Some(fault) => made == Err::<FleetScaler, ConfigError>(fault),
                None => made matches Ok(scaler) && scaler.wf() && scaler@ == initial_view(
                    specs_of(config.clusters@),
                    config.pools@,
                ),
            },
    {
        match check_config(&config) {
            Some(fault) => Err(fault),
            None => {
                let mut tracks: Vec<ClusterTrack> = Vec::new();
                let mut c: usize = 0;
                let ghost want = initial_view(specs_of(config.clusters@), config.pools@);
                while c < config.clusters.len()
                    invariant
                        0 <= c <= config.clusters.len(),
                        want == initial_view(specs_of(config.clusters@), config.pools@),
                        tracks.len() == c,
                        forall|j: int| 0 <= j < c ==> (#[trigger] tracks@[j])@ == want.tracks[j],
                    decreases config.clusters.len() - c,
                {
                    let mut applied: Vec<Option<u32>> = Vec::new();
                    let mut p: usize = 0;
                    while p < config.pools.len()
                        invariant
                            0 <= p <= config.pools.len(),
                            applied.len() == p,
                            forall|j: int| 0 <= j < p ==> #[trigger] applied@[j] == None::<u32>,
                        decreases config.pools.len() - p,
                    {
                        applied.push(None);
                        p += 1;
                    }
                    let track = ClusterTrack { snapshot: None, stale: true, applied };
                    proof {
                        assert(track@.applied =~= want.tracks[c as int].applied);
                    }
                    tracks.push(track);
                    c += 1;
                }
                let scaler = FleetScaler {
                    config,
                    tracks,
                    phase: Phase::Idle,
                    stopping: false,
                    pending: Vec::new(),
                };
                proof {
                    assert(scaler@.tracks =~= want.tracks);
                    assert(scaler@.pending =~= want.pending);
                }
                Ok(scaler)
            },
        }
    }

    /// The phase that the cycle is in.
    pub fn phase(&self) -> (phase: Phase)
        ensures
            phase == self@.phase,
    {
        self.phase
    }

    /// Asks the loop to stop. The cycle under way still runs to its end.
    pub fn request_stop(&mut self)
        ensures
            final(self)@ == (FleetView { stopping: true, ..old(self)@ }),
    {
        self.stopping = true;
    }

    /// The loop may exit: a stop was requested and no cycle is under way.
    pub fn may_exit(&self) -> (exit: bool)
        ensures
            exit == (self@.stopping && self@.phase == Phase::Idle),
    {
        self.stopping && self.phase == Phase::Idle
    }

    /// Begins a cycle: from idle to polling. Turned down while a cycle is
    /// under way, and once a stop was requested.
    pub fn begin_cycle(&mut self) -> (begun: Result<(), CycleError>)
        ensures
            match begun {
                Ok(_) => old(self)@.phase == Phase::Idle && !old(self)@.stopping && final(self)@ == (
                FleetView { phase: Phase::Polling, ..old(self)@ }),
                Err(CycleError::OutOfTurn) => old(self)@.phase != Phase::Idle && final(self)@ == old(
                    self,
                )@,
                Err(CycleError::Stopping) => old(self)@.phase == Phase::Idle && old(self)@.stopping
                    && final(self)@ == old(self)@,
                Err(CycleError::WrongCount) => false,
            },
    {
        if self.phase != Phase::Idle {
            Err(CycleError::OutOfTurn)
        } else if self.stopping {
            Err(CycleError::Stopping)
        } else {
            self.phase = Phase::Polling;
            Ok(())
        }
    }

    /// Takes in the reports of the cycle, one place for each cluster in
    /// the configured order, empty where the cluster did not answer in
    /// time. A report replaces the cluster's snapshot as a whole. A
    /// cluster without a report, or with one under another name, keeps
    /// the snapshot it had and is stale for this cycle.
    pub fn record_reports(&mut self, reports: &Vec<Option<ClusterState>>) -> (taken: Result<
        (),
        CycleError,
    >)
        requires
            old(self).wf(),
        ensures
            final(self).wf(),
            match taken {
                Ok(_) => {
                    &&& old(self)@.phase == Phase::Polling
                    &&& reports.len() == old(self)@.clusters.len()
                    &&& final(self)@ == (FleetView {
                        tracks: old(self)@.tracks_after_reports(reports_of_states(reports@)),
                        phase: Phase::Deciding,
                        ..old(self)@
                    })
                },
                Err(CycleError::OutOfTurn) => old(self)@.phase != Phase::Polling && final(self)@
                    == old(self)@,
                Err(CycleError::WrongCount) => old(self)@.phase == Phase::Polling && reports.len()
                    != old(self)@.clusters.len() && final(self)@ == old(self)@,
                Err(CycleError::Stopping) => false,
            },
    {
        if self.phase != Phase::Polling {
            return Err(CycleError::OutOfTurn);
        }
        if reports.len() != self.config.clusters.len() {
            return Err(CycleError::WrongCount);
        }
        let ghost before = self@;
        let ghost incoming = reports_of_states(reports@);
        let ghost after = before.tracks_after_reports(incoming);
        let mut c: usize = 0;
        while c < self.tracks.len()
            invariant
                0 <= c <= self.tracks.len(),
                before.wf(),
                self.tracks.len() == before.tracks.len(),
                reports.len() == before.clusters.len(),
                incoming == reports_of_states(reports@),
                after == before.tracks_after_reports(incoming),
                self@.clusters == before.clusters,
                self@.pools == before.pools,
                self@.phase == before.phase,
                self@.stopping == before.stopping,
                self@.pending == before.pending,
                forall|j: int| 0 <= j < c ==> self@.tracks[j] == #[trigger] after[j],
                forall|j: int|
                    c <= j < self.tracks.len() ==> self@.tracks[j] == #[trigger] before.tracks[j],
            decreases self.tracks.len() - c,
        {
            assert(self@.tracks[c as int] == before.tracks[c as int]);
            assert(incoming[c as int] == report_view(reports@[c as int]));
            assert(before.clusters[c as int].name == self.config.clusters@[c as int].name@);
            let mut fresh: Option<ClusterState> = None;
            match &reports[c] {
                Some(state) => {
                    if state.cluster_name == self.config.clusters[c].name {
                        fresh = Some(state.duplicate());
                    }
                },
                None => {},
            }
            match fresh {
                Some(state) => {
                    self.tracks[c].snapshot = Some(state);
                    self.tracks[c].stale = false;
                },
                None => {
                    self.tracks[c].stale = true;
                },
            }
            assert(self@.tracks[c as int] == after[c as int]);
            c += 1;
        }
        self.phase = Phase::Deciding;
        proof {
            assert(self@.tracks =~= after);
        }
        Ok(())
    }

    /// The cluster that the demand for the kind of job goes to.
    pub fn chosen_cluster(&self, kind: CircuitIdRoundTuple) -> (chosen: Option<usize>)
        requires
            self.wf(),
        ensures
            place_of(chosen) == chosen_cluster(self@.tracks, kind),
            chosen matches Some(c) ==> c < self@.clusters.len(),
    {
        let ghost tracks = self@.tracks;
        let ghost serving = serving_clusters(tracks, kind);
        let ghost fresh = fresh_clusters(tracks);
        let mut first_serving: Option<usize> = None;
        let mut first_fresh: Option<usize> = None;
        let mut c: usize = 0;
        while c < self.tracks.len()
            invariant
                0 <= c <= self.tracks.len(),
                tracks == self@.tracks,
                serving == serving_clusters(tracks, kind),
                fresh == fresh_clusters(tracks),
                place_of(first_serving) == first_index(c as int, serving),
                place_of(first_fresh) == first_index(c as int, fresh),
                first_serving matches Some(i) ==> i < c,
                first_fresh matches Some(i) ==> i < c,
            decreases self.tracks.len() - c,
        {
            let track = &self.tracks[c];
            assert(track@ == tracks[c as int]);
            if !track.stale {
                if first_fresh.is_none() {
                    first_fresh = Some(c);
                }
                let runs = match &track.snapshot {
                    Some(state) => state.replicas_of(kind) > 0,
                    None => false,
                };
                if runs && first_serving.is_none() {
                    first_serving = Some(c);
                }
            }
            c += 1;
        }
        match first_serving {
            Some(c) => Some(c),
            None => first_fresh,
        }
    }

    /// The replicas that the pool in the cluster is taken to have had.
    fn previous_replicas(&self, cluster: usize, pool: usize) -> (previous: u32)
        requires
            self.wf(),
            cluster < self@.clusters.len(),
            pool < self@.pools.len(),
        ensures
            previous == previous_replicas(
                self@.tracks[cluster as int],
                pool as int,
                self@.pools[pool as int].kind,
            ),
    {
        let track = &self.tracks[cluster];
        assert(track@ == self@.tracks[cluster as int]);
        match track.applied[pool] {
            Some(target) => target,
            None => match &track.snapshot {
                Some(state) => state.replicas_of(self.config.pools[pool].kind),
                None => 0,
            },
        }
    }

    /// The decisions that the demand leads to: a target for each pool in
    /// each cluster, cluster by cluster in the configured order.
    pub fn decisions(&self, demand: &Vec<(CircuitIdRoundTuple, u64)>) -> (decisions: Vec<
        ScalingDecision,
    >)
        requires
            self.wf(),
        ensures
            decisions@ == self@.decisions(demand@),
            forall|k: int|
                0 <= k < decisions.len() ==> (#[trigger] decisions@[k]).cluster
                    < self@.clusters.len() && decisions@[k].pool < self@.pools.len(),
    {
        let queuer = Queuer {  };
        let mut chosen: Vec<Option<usize>> = Vec::new();
        let mut p: usize = 0;
        while p < self.config.pools.len()
            invariant
                self.wf(),
                0 <= p <= self.config.pools.len(),
                chosen.len() == p,
                forall|j: int|
                    0 <= j < p ==> place_of(#[trigger] chosen@[j]) == chosen_cluster(
                        self@.tracks,
                        self@.pools[j].kind,
                    ),
            decreases self.config.pools.len() - p,
        {
            let pick = self.chosen_cluster(self.config.pools[p].kind);
            chosen.push(pick);
            p += 1;
        }
        let mut decisions: Vec<ScalingDecision> = Vec::new();
        let mut c: usize = 0;
        while c < self.config.clusters.len()
            invariant
                self.wf(),
                0 <= c <= self.config.clusters.len(),
                chosen.len() == self.config.pools.len(),
                forall|j: int|
                    0 <= j < chosen.len() ==> place_of(#[trigger] chosen@[j]) == chosen_cluster(
                        self@.tracks,
                        self@.pools[j].kind,
                    ),
                decisions@ == self@.decisions_before(demand@, c as int, 0),
                forall|k: int|
                    0 <= k < decisions.len() ==> (#[trigger] decisions@[k]).cluster
                        < self@.clusters.len() && decisions@[k].pool < self@.pools.len(),
            decreases self.config.clusters.len() - c,
        {
            let mut q: usize = 0;
            while q < self.config.pools.len()
                invariant
                    self.wf(),
                    0 <= c < self.config.clusters.len(),
                    0 <= q <= self.config.pools.len(),
                    chosen.len() == self.config.pools.len(),
                    forall|j: int|
                        0 <= j < chosen.len() ==> place_of(#[trigger] chosen@[j])
                            == chosen_cluster(self@.tracks, self@.pools[j].kind),
                    decisions@ == self@.decisions_before(demand@, c as int, q as int),
                    forall|k: int|
                        0 <= k < decisions.len() ==> (#[trigger] decisions@[k]).cluster
                            < self@.clusters.len() && decisions@[k].pool < self@.pools.len(),
                decreases self.config.pools.len() - q,
            {
                let pool = self.config.pools[q];
                let previous = self.previous_replicas(c, q);
                let stale = self.tracks[c].stale;
                assert(self.tracks@[c as int]@ == self@.tracks[c as int]);
                assert(self.config.clusters@[c as int]@ == self@.clusters[c as int]);
                let decision = if stale {
                    ScalingDecision { cluster: c, pool: q, target: previous, stale: true }
                } else {
                    let routed = match chosen[q] {
                        Some(i) => if i == c {
                            queuer.demand_for(demand, pool.kind)
                        } else {
                            0
                        },
                        None => 0,
                    };
                    assert(routed == self@.routed_demand(demand@, c as int, q as int));
                    let desired = target_replicas(
                        routed,
                        pool.throughput_per_replica,
                        pool.min_replicas,
                        self.config.clusters[c].capacity,
                    );
                    ScalingDecision {
                        cluster: c,
                        pool: q,
                        target: ease_decrease(desired, previous, pool.max_scale_down),
                        stale: false,
                    }
                };
                assert(decision == self@.decision(demand@, c as int, q as int));
                decisions.push(decision);
                q += 1;
            }
            c += 1;
        }
        decisions
    }

    /// Decides the targets of the cycle and hands out the commands that
    /// they call for: one for each pool whose cluster reported and whose
    /// target is not the one last applied.
    pub fn decide(&mut self, demand: &Vec<(CircuitIdRoundTuple, u64)>) -> (decided: Result<
        Vec<ScaleCommand>,
        CycleError,
    >)
        requires
            old(self).wf(),
        ensures
            final(self).wf(),
            match decided {
                Ok(commands) => {
                    &&& old(self)@.phase == Phase::Deciding
                    &&& commands_of(commands@) == old(self)@.commands(demand@)
                    &&& final(self)@ == (FleetView {
                        phase: Phase::Applying,
                        pending: old(self)@.decisions(demand@).filter(old(self)@.commanded()),
                        ..old(self)@
                    })
                },
                Err(CycleError::OutOfTurn) => old(self)@.phase != Phase::Deciding && final(self)@
                    == old(self)@,
                Err(_) => false,
            },
    {
        if self.phase != Phase::Deciding {
            return Err(CycleError::OutOfTurn);
        }
        let ghost before = self@;
        let ghost pred = before.commanded();
        let ghost make = |decision: ScalingDecision| before.command_of(decision);
        let decisions = self.decisions(demand);
        let mut pending: Vec<ScalingDecision> = Vec::new();
        let mut commands: Vec<ScaleCommand> = Vec::new();
        let mut k: usize = 0;
        proof {
            lemma_filter_ends(decisions@, pred);
            assert(commands_of(commands@) =~= decisions@.take(0).filter(pred).map_values(make));
        }
        while k < decisions.len()
            invariant
                0 <= k <= decisions.len(),
                self.wf(),
                self@ == before,
                pred == before.commanded(),
                make == |decision: ScalingDecision| before.command_of(decision),
                forall|j: int|
                    0 <= j < decisions.len() ==> (#[trigger] decisions@[j]).cluster
                        < before.clusters.len() && decisions@[j].pool < before.pools.len(),
                pending@ == decisions@.take(k as int).filter(pred),
                commands_of(commands@) == decisions@.take(k as int).filter(pred).map_values(make),
                forall|j: int|
                    0 <= j < pending.len() ==> (#[trigger] pending@[j]).cluster
                        < before.clusters.len() && pending@[j].pool < before.pools.len(),
            decreases decisions.len() - k,
        {
            let decision = decisions[k];
            proof {
                lemma_filter_step(decisions@, pred, k as int);
                lemma_filter_map_step(decisions@, pred, make, k as int);
                assert(self.tracks@[decision.cluster as int]@ == before.tracks[decision.cluster as int]);
            }
            let applied = self.tracks[decision.cluster].applied[decision.pool];
            let differs = match applied {
                Some(target) => target != decision.target,
                None => true,
            };
            if !decision.stale && differs {
                let command = ScaleCommand {
                    cluster_name: self.config.clusters[decision.cluster].name.clone(),
                    pool: self.config.pools[decision.pool].kind,
                    target_replicas: decision.target,
                };
                proof {
                    assert(self.config.clusters@[decision.cluster as int]@
                        == before.clusters[decision.cluster as int]);
                    assert(command@ == make(decision));
                }
                let ghost listed = commands_of(commands@);
                pending.push(decision);
                commands.push(command);
                proof {
                    assert(commands_of(commands@) =~= listed.push(make(decision)));
                }
            }
            k += 1;
        }
        proof {
            lemma_filter_ends(decisions@, pred);
        }
        self.pending = pending;
        self.phase = Phase::Applying;
        Ok(commands)
    }

    /// Takes in what became of the cycle's commands, one answer for each
    /// in their order, and ends the cycle. A command that went through
    /// sets its pool's applied target; one that failed leaves it as it was.
    pub fn record_applied(&mut self, results: &Vec<bool>) -> (taken: Result<(), CycleError>)
        requires
            old(self).wf(),
        ensures
            final(self).wf(),
            match taken {
                Ok(_) => {
                    &&& old(self)@.phase == Phase::Applying
                    &&& results.len() == old(self)@.pending.len()
                    &&& final(self)@ == (FleetView {
                        tracks: old(self)@.tracks_after_results(results@, results.len() as int),
                        phase: Phase::Idle,
                        pending: Seq::empty(),
                        ..old(self)@
                    })
                },
                Err(CycleError::OutOfTurn) => old(self)@.phase != Phase::Applying && final(self)@
                    == old(self)@,
                Err(CycleError::WrongCount) => old(self)@.phase == Phase::Applying && results.len()
                    != old(self)@.pending.len() && final(self)@ == old(self)@,
                Err(CycleError::Stopping) => false,
            },
    {
        if self.phase != Phase::Applying {
            return Err(CycleError::OutOfTurn);
        }
        if results.len() != self.pending.len() {
            return Err(CycleError::WrongCount);
        }
        let ghost before = self@;
        let mut k: usize = 0;
        while k < results.len()
            invariant
                0 <= k <= results.len(),
                before.wf(),
                results.len() == self.pending.len(),
                self@.clusters == before.clusters,
                self@.pools == before.pools,
                self@.phase == before.phase,
                self@.stopping == before.stopping,
                self@.pending == before.pending,
                self@.tracks == before.tracks_after_results(results@, k as int),
                self@.tracks.len() == before.tracks.len(),
                forall|c: int|
                    0 <= c < self@.tracks.len() ==> (#[trigger] self@.tracks[c]).applied.len()
                        == before.pools.len(),
            decreases results.len() - k,
        {
            let done = self.pending[k];
            let ghost tracks_before = self@.tracks;
            assert(done == before.pending[k as int]);
            if results[k] {
                assert(self.tracks@[done.cluster as int]@ == tracks_before[done.cluster as int]);
                self.tracks[done.cluster].applied.set(done.pool, Some(done.target));
                proof {
                    assert(self@.tracks =~= tracks_before.update(
                        done.cluster as int,
                        TrackView {
                            applied: tracks_before[done.cluster as int].applied.update(
                                done.pool as int,
                                Some(done.target),
                            ),
                            ..tracks_before[done.cluster as int]
                        },
                    ));
                }
            }
            k += 1;
        }
        self.pending = Vec::new();
        self.phase = Phase::Idle;
        proof {
            assert(self@.pending =~= Seq::empty());
        }
        Ok(())
    }
}

} // verus!
