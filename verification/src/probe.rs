//! The rules of one probe: a fixed number of queries sent to one resolver,
//! one after the other.
//!
//! The probe neither sends nor times anything. Its caller connects, sends each
//! query, and tells the probe how the query ended; the probe says whether
//! another query is due and keeps the measurements. The first failed query
//! ends the probe and discards what was measured before it. A query that is
//! answered with no record counts as sent, but its time is not kept.

use vstd::prelude::*;

verus! {

/// How one query ended.
#[derive(Clone, Copy, Debug, PartialEq, Eq, Structural)]
pub enum QueryOutcome {
    /// No usable response came: a timeout, a transport error, a response that
    /// could not be read.
    Failed,
    /// A response came after `elapsed_nanos` nanoseconds and holds `answers`
    /// answer records.
    Answered { elapsed_nanos: u64, answers: usize },
}

/// Where a probe stands.
#[derive(Clone, Copy, Debug, PartialEq, Eq, Structural)]
pub enum ProbeStatus {
    /// Another query is due.
    Running,
    /// Every query was answered.
    Succeeded,
    /// The connection or a query failed.
    Failed,
}

/// What a probe is, as a mathematical value.
pub ghost struct ProbeModel {
    /// Number of queries asked for.
    pub requested: nat,
    /// Number of queries whose outcome was recorded.
    pub issued: nat,
    /// The measurements kept, oldest first.
    pub kept: Seq<u64>,
    /// Whether the connection or a query failed.
    pub failed: bool,
}

impl ProbeModel {
    /// Where the probe stands.
    pub open spec fn status(self) -> ProbeStatus {
        if self.failed {
            ProbeStatus::Failed
        } else if self.issued < self.requested {
            ProbeStatus::Running
        } else {
            ProbeStatus::Succeeded
        }
    }

    /// What holds of every probe: not more queries are recorded than were
    /// asked for, not more measurements are kept than queries were recorded,
    /// and a failed probe keeps none.
    pub open spec fn consistent(self) -> bool {
        &&& self.kept.len() <= self.issued <= self.requested
        &&& self.failed ==> self.kept.len() == 0
    }

    /// What the probe yields: its measurements once every query was answered,
    /// nothing while it runs or after a failure.
    pub open spec fn result(self) -> Option<Seq<u64>> {
        if self.status() == ProbeStatus::Succeeded {
            Some(self.kept)
        } else {
            None
        }
    }
}

/// A probe before its first query. Without a connection it has failed; with
/// no query asked for it has succeeded, with nothing measured.
pub open spec fn started(connected: bool, requested: nat) -> ProbeModel {
    ProbeModel { requested, issued: 0, kept: Seq::empty(), failed: !connected }
}

/// The probe after the outcome of one more query. A probe that is not running
/// stays as it is.
pub open spec fn step(probe: ProbeModel, outcome: QueryOutcome) -> ProbeModel {
    if probe.status() != ProbeStatus::Running {
        probe
    } else {
        match outcome {
            QueryOutcome::Failed => ProbeModel {
                issued: probe.issued + 1,
                kept: Seq::empty(),
                failed: true,
                ..probe
            },
            QueryOutcome::Answered { elapsed_nanos, answers } => ProbeModel {
                issued: probe.issued + 1,
                kept: if answers > 0 {
                    probe.kept.push(elapsed_nanos)
                } else {
                    probe.kept
                },
                ..probe
            },
        }
    }
}

/// The probe after the outcomes of several queries, in order.
pub open spec fn run(probe: ProbeModel, outcomes: Seq<QueryOutcome>) -> ProbeModel
    decreases outcomes.len(),
{
    if outcomes.len() == 0 {
        probe
    } else {
        step(run(probe, outcomes.drop_last()), outcomes.last())
    }
}

/// Every one of the queries was answered.
pub open spec fn all_answered(outcomes: Seq<QueryOutcome>) -> bool {
    forall|i: int| 0 <= i < outcomes.len() ==> outcomes[i] is Answered
}

/// The times of the queries that were answered with at least one record, in
/// order.
pub open spec fn measured(outcomes: Seq<QueryOutcome>) -> Seq<u64>
    decreases outcomes.len(),
{
    if outcomes.len() == 0 {
        Seq::empty()
    } else {
        match outcomes.last() {
            QueryOutcome::Answered { elapsed_nanos, answers } if answers > 0 => measured(
                outcomes.drop_last(),
            ).push(elapsed_nanos),
            _ => measured(outcomes.drop_last()),
        }
    }
}

/// A probe before its first query is consistent.
pub proof fn lemma_started_consistent(connected: bool, requested: nat)
    ensures
        started(connected, requested).consistent(),
{
}

/// Recording an outcome keeps a probe consistent and leaves the number of
/// queries asked for as it was.
pub proof fn lemma_step_consistent(probe: ProbeModel, outcome: QueryOutcome)
    requires
        probe.consistent(),
    ensures
        step(probe, outcome).consistent(),
        step(probe, outcome).requested == probe.requested,
{
}

/// A probe is consistent whatever outcomes it has recorded: it never keeps
/// more measurements than queries were asked for.
pub proof fn lemma_run_consistent(connected: bool, requested: nat, outcomes: Seq<QueryOutcome>)
    ensures
        run(started(connected, requested), outcomes).consistent(),
        run(started(connected, requested), outcomes).requested == requested,
        run(started(connected, requested), outcomes).kept.len() <= requested,
    decreases outcomes.len(),
{
    lemma_started_consistent(connected, requested);
    if outcomes.len() > 0 {
        lemma_run_consistent(connected, requested, outcomes.drop_last());
        lemma_step_consistent(
            run(started(connected, requested), outcomes.drop_last()),
            outcomes.last(),
        );
    }
}

/// A probe without a connection has failed and stays failed.
pub proof fn lemma_run_unconnected(requested: nat, outcomes: Seq<QueryOutcome>)
    ensures
        run(started(false, requested), outcomes) == started(false, requested),
        run(started(false, requested), outcomes).result() is None,
    decreases outcomes.len(),
{
    if outcomes.len() > 0 {
        lemma_run_unconnected(requested, outcomes.drop_last());
    }
}

/// What a connected probe has come to after some outcomes. Only the first
/// `requested` outcomes count. If one of them is a failure the probe has
/// failed and keeps nothing. Otherwise it keeps the times of those that came
/// with at least one record, and it has succeeded once `requested` outcomes
/// are in.
pub proof fn lemma_run_describes(requested: nat, outcomes: Seq<QueryOutcome>)
    ensures
        ({
            let end = run(started(true, requested), outcomes);
            let counted = if outcomes.len() <= requested {
                outcomes
            } else {
                outcomes.take(requested as int)
            };
            &&& end.requested == requested
            &&& end.failed <==> !all_answered(counted)
            &&& end.failed ==> end.kept == Seq::<u64>::empty()
            &&& !end.failed ==> end.issued == counted.len() && end.kept == measured(counted)
        }),
    decreases outcomes.len(),
{
    if outcomes.len() > 0 {
        let earlier = outcomes.drop_last();
        lemma_run_describes(requested, earlier);
        if outcomes.len() <= requested {
            // the last outcome counts
            if all_answered(earlier) {
                if outcomes.last() is Answered {
                    assert forall|i: int| 0 <= i < outcomes.len() implies outcomes[i] is Answered by {
                        if i < earlier.len() {
                            assert(earlier[i] == outcomes[i]);
                        }
                    }
                }
            } else {
                let i = choose|i: int| 0 <= i < earlier.len() && !(earlier[i] is Answered);
                assert(outcomes[i] == earlier[i]);
            }
        } else if earlier.len() > requested {
            // the probe was over before the last outcome
            assert(earlier.take(requested as int) =~= outcomes.take(requested as int));
        } else {
            assert(earlier =~= outcomes.take(requested as int));
        }
    }
}

/// The state of one probe.
pub struct Probe {
    requested: usize,
    issued: usize,
    failed: bool,
    samples: Vec<u64>,
}

impl View for Probe {
    type V = ProbeModel;

    closed spec fn view(&self) -> ProbeModel {
        ProbeModel {
            requested: self.requested as nat,
            issued: self.issued as nat,
            kept: self.samples@,
            failed: self.failed,
        }
    }
}

impl Probe {
    #[verifier::type_invariant]
    spec fn well_formed(self) -> bool {
        self@.consistent()
    }

    /// Begins a probe of `requested` queries. `connected` says whether the
    /// connection to the resolver could be set up; without it the probe has
    /// failed at once.
    pub fn start(connected: bool, requested: usize) -> (probe: Probe)
        ensures
            probe@ == started(connected, requested as nat),
    {
        Probe { requested, issued: 0, failed: !connected, samples: Vec::new() }
    }

    /// Where the probe stands. While it is `Running` the caller sends one more
    /// query and hands its outcome to `record`.
    pub fn status(&self) -> (status: ProbeStatus)
        ensures
            status == self@.status(),
    {
        if self.failed {
            ProbeStatus::Failed
        } else if self.issued < self.requested {
            ProbeStatus::Running
        } else {
            ProbeStatus::Succeeded
        }
    }

    /// The number of queries that the probe was started with.
    pub fn requested(&self) -> (requested: usize)
        ensures
            requested == self@.requested,
    {
        self.requested
    }

    /// The number of queries whose outcome was recorded.
    pub fn issued(&self) -> (issued: usize)
        ensures
            issued == self@.issued,
            issued <= self@.requested,
    {
        proof {
            use_type_invariant(self);
        }
        self.issued
    }

    /// The measurements kept so far, oldest first.
    pub fn samples(&self) -> (samples: &Vec<u64>)
        ensures
            samples@ == self@.kept,
            samples@.len() <= self@.issued <= self@.requested,
    {
        proof {
            use_type_invariant(self);
        }
        &self.samples
    }

    /// Records how the query that was just sent ended, and returns the probe
    /// as it then stands. A failure ends the probe and discards every
    /// measurement. An answer is counted, and its time is kept if it holds at
    /// least one record. On a probe that is not running nothing changes.
    pub fn record(self, outcome: QueryOutcome) -> (next: Probe)
        ensures
            next@ == step(self@, outcome),
    {
        proof {
            use_type_invariant(&self);
        }
        if self.failed || self.issued >= self.requested {
            return self;
        }
        let Probe { requested, issued, failed, samples } = self;
        let mut samples = samples;
        match outcome {
            QueryOutcome::Failed => Probe {
                requested,
                issued: issued + 1,
                failed: true,
                samples: Vec::new(),
            },
            QueryOutcome::Answered { elapsed_nanos, answers } => {
                if answers > 0 {
                    samples.push(elapsed_nanos);
                }
                Probe { requested, issued: issued + 1, failed, samples }
            },
        }
    }

    /// Ends the probe and hands out what it yields: the measurements if every
    /// query was answered, nothing if the probe failed or was left unfinished.
    /// The measurements are never more than the queries asked for.
    pub fn into_result(self) -> (result: Option<Vec<u64>>)
        ensures
            match result {
                Some(samples) => self@.result() == Some(samples@) && samples@.len()
                    <= self@.requested,
                None => self@.result() is None,
            },
    {
        proof {
            use_type_invariant(&self);
        }
        if !self.failed && self.issued >= self.requested {
            Some(self.samples)
        } else {
            None
        }
    }
}

} // verus!
