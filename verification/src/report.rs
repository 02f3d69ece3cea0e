//! What a benchmark run reports: for each resolver its queries and their
//! average, or that it failed, and at the end the resolvers ranked by speed.
//!
//! A line is a value here. Turning it into text and printing it is the
//! caller's part.

use crate::ranking::{rank, ranking_of, RankingEntry};
use crate::stats::{mean, mean_of};
use crate::text::{decimal, decimal_text};
use vstd::prelude::*;

verus! {

/// One line of the report.
#[derive(Debug, PartialEq, Eq)]
pub enum Line {
    /// The opening line of a run, with the number of queries sent to each
    /// resolver.
    Banner { queries: usize },
    /// The heading over the lines of one resolver.
    ResolverHeading { name: String },
    /// The time of one query of a resolver. Queries are numbered from 1.
    Query { index: usize, elapsed_nanos: u64 },
    /// The average over the queries of a resolver.
    Average { average_nanos: u64 },
    /// The resolver could not be measured.
    Failed,
    /// The heading of the ranking.
    RankingHeading,
    /// One resolver in the ranking.
    Ranked { name: String, average_nanos: u64 },
}

/// The text of a line up to the time that it reports, or all of its text if
/// it reports none.
pub open spec fn label_of(line: Line) -> Seq<char> {
    match line {
        Line::Banner { queries } => "Testing DNS providers ("@ + decimal(queries as nat)
            + " queries each):"@,
        Line::ResolverHeading { name } => "\n"@ + name@ + ":"@,
        Line::Query { index, .. } => "  Query "@ + decimal(index as nat) + ": "@,
        Line::Average { .. } => "  Average: "@,
        Line::Failed => "  Failed to test"@,
        Line::RankingHeading => "\nResults sorted by speed:"@,
        Line::Ranked { name, .. } => name@ + ": "@,
    }
}

/// The time that a line reports, in nanoseconds. It stands behind the label,
/// in milliseconds.
pub open spec fn time_of(line: Line) -> Option<u64> {
    match line {
        Line::Query { elapsed_nanos, .. } => Some(elapsed_nanos),
        Line::Average { average_nanos } => Some(average_nanos),
        Line::Ranked { average_nanos, .. } => Some(average_nanos),
        _ => None,
    }
}

impl Clone for Line {
    fn clone(&self) -> (copy: Self)
        ensures
            copy == *self,
    {
        match self {
            Line::Banner { queries } => Line::Banner { queries: *queries },
            Line::ResolverHeading { name } => Line::ResolverHeading { name: name.clone() },
            Line::Query { index, elapsed_nanos } => Line::Query {
                index: *index,
                elapsed_nanos: *elapsed_nanos,
            },
            Line::Average { average_nanos } => Line::Average { average_nanos: *average_nanos },
            Line::Failed => Line::Failed,
            Line::RankingHeading => Line::RankingHeading,
            Line::Ranked { name, average_nanos } => Line::Ranked {
                name: name.clone(),
                average_nanos: *average_nanos,
            },
        }
    }
}

impl Line {
    /// The text of the line up to the time that it reports, or all of its
    /// text if it reports none.
    pub fn label(&self) -> (label: String)
        ensures
            label@ == label_of(*self),
    {
        match self {
            Line::Banner { queries } => {
                let mut label = "Testing DNS providers (".to_owned();
                label.append(decimal_text(*queries).as_str());
                label.append(" queries each):");
                label
            },
            Line::ResolverHeading { name } => {
                let mut label = "\n".to_owned();
                label.append(name.as_str());
                label.append(":");
                label
            },
            Line::Query { index, .. } => {
                let mut label = "  Query ".to_owned();
                label.append(decimal_text(*index).as_str());
                label.append(": ");
                label
            },
            Line::Average { .. } => "  Average: ".to_owned(),
            Line::Failed => "  Failed to test".to_owned(),
            Line::RankingHeading => "\nResults sorted by speed:".to_owned(),
            Line::Ranked { name, .. } => {
                let mut label = name.clone();
                label.append(": ");
                label
            },
        }
    }

    /// The time that the line reports, in nanoseconds, if it reports one.
    pub fn time(&self) -> (time: Option<u64>)
        ensures
            time == time_of(*self),
    {
        match self {
            Line::Query { elapsed_nanos, .. } => Some(*elapsed_nanos),
            Line::Average { average_nanos } => Some(*average_nanos),
            Line::Ranked { average_nanos, .. } => Some(*average_nanos),
            _ => None,
        }
    }
}

/// What a probe yielded, as a mathematical value.
pub open spec fn measurements(outcome: Option<Vec<u64>>) -> Option<Seq<u64>> {
    match outcome {
        Some(samples) => Some(samples@),
        None => None,
    }
}

/// The probe yielded at least one measurement. A probe that failed, or that
/// kept no measurement, leaves its resolver unmeasured.
pub open spec fn is_measured(outcome: Option<Seq<u64>>) -> bool {
    outcome matches Some(samples) && samples.len() > 0
}

/// One line for each measurement, numbered from 1.
pub open spec fn query_lines(samples: Seq<u64>) -> Seq<Line> {
    Seq::new(
        samples.len(),
        |i: int| Line::Query { index: (i + 1) as usize, elapsed_nanos: samples[i] },
    )
}

/// The lines that report one resolver: its queries and then their average,
/// or the one line that says that it failed.
pub open spec fn resolver_lines(outcome: Option<Seq<u64>>) -> Seq<Line> {
    match outcome {
        Some(samples) if samples.len() > 0 => query_lines(samples).push(
            Line::Average { average_nanos: mean_of(samples) as u64 },
        ),
        _ => seq![Line::Failed],
    }
}

/// The entry with which a resolver goes into the ranking, if it was measured.
pub open spec fn ranking_entry(name: String, outcome: Option<Seq<u64>>) -> Option<RankingEntry> {
    match outcome {
        Some(samples) if samples.len() > 0 => Some(
            RankingEntry { name, average_nanos: mean_of(samples) as u64 },
        ),
        _ => None,
    }
}

/// The entries after one more resolver: a measured one is added behind the
/// others, an unmeasured one is left out.
pub open spec fn recorded(
    entries: Seq<RankingEntry>,
    name: String,
    outcome: Option<Seq<u64>>,
) -> Seq<RankingEntry> {
    match ranking_entry(name, outcome) {
        Some(entry) => entries.push(entry),
        None => entries,
    }
}

/// The lines of a ranking: the heading, then one line for each entry in
/// order.
pub open spec fn ranking_lines(ranked: Seq<RankingEntry>) -> Seq<Line> {
    seq![Line::RankingHeading] + Seq::new(
        ranked.len(),
        |i: int| Line::Ranked { name: ranked[i].name, average_nanos: ranked[i].average_nanos },
    )
}

/// The times on the query lines, in order.
pub open spec fn reported_queries(lines: Seq<Line>) -> Seq<u64>
    decreases lines.len(),
{
    if lines.len() == 0 {
        Seq::empty()
    } else {
        match lines.last() {
            Line::Query { elapsed_nanos, .. } => reported_queries(lines.drop_last()).push(
                elapsed_nanos,
            ),
            _ => reported_queries(lines.drop_last()),
        }
    }
}

/// The averages on the average lines, in order.
pub open spec fn reported_averages(lines: Seq<Line>) -> Seq<u64>
    decreases lines.len(),
{
    if lines.len() == 0 {
        Seq::empty()
    } else {
        match lines.last() {
            Line::Average { average_nanos } => reported_averages(lines.drop_last()).push(
                average_nanos,
            ),
            _ => reported_averages(lines.drop_last()),
        }
    }
}

/// The query lines of some measurements report exactly these measurements,
/// and no average.
proof fn lemma_query_lines_report(samples: Seq<u64>)
    ensures
        reported_queries(query_lines(samples)) == samples,
        reported_averages(query_lines(samples)) == Seq::<u64>::empty(),
    decreases samples.len(),
{
    if samples.len() > 0 {
        lemma_query_lines_report(samples.drop_last());
        assert(query_lines(samples).drop_last() =~= query_lines(samples.drop_last()));
    }
}

/// The average that is reported for a resolver is the mean of exactly the
/// times reported on its query lines. A measured resolver has one query line
/// for each measurement and one average; an unmeasured one has neither.
pub proof fn lemma_average_of_reported(outcome: Option<Seq<u64>>)
    ensures
        ({
            let lines = resolver_lines(outcome);
            let queries = reported_queries(lines);
            &&& is_measured(outcome) ==> Some(queries) == outcome && reported_averages(lines)
                == seq![mean_of(queries) as u64]
            &&& !is_measured(outcome) ==> lines == seq![Line::Failed] && queries.len() == 0
                && reported_averages(lines).len() == 0
        }),
{
    let lines = resolver_lines(outcome);
    if is_measured(outcome) {
        let samples = outcome->0;
        lemma_query_lines_report(samples);
        assert(lines.drop_last() =~= query_lines(samples));
    } else {
        assert(reported_queries(lines.drop_last()) =~= Seq::<u64>::empty());
        assert(reported_averages(lines.drop_last()) =~= Seq::<u64>::empty());
    }
}

/// One resolver after its probe: its name and what the probe yielded.
pub ghost struct Probed {
    pub name: String,
    pub outcome: Option<Seq<u64>>,
}

/// The entries that a run has recorded after it probed these resolvers in
/// this order.
pub open spec fn scoreboard(probed: Seq<Probed>) -> Seq<RankingEntry>
    decreases probed.len(),
{
    if probed.len() == 0 {
        Seq::empty()
    } else {
        recorded(scoreboard(probed.drop_last()), probed.last().name, probed.last().outcome)
    }
}

/// The ranking with which a run ends after it probed these resolvers.
pub open spec fn final_ranking(probed: Seq<Probed>) -> Seq<RankingEntry> {
    ranking_of(scoreboard(probed))
}

/// Recording one more resolver is what takes a run from one scoreboard to
/// the next.
pub proof fn lemma_scoreboard_records(probed: Seq<Probed>, name: String, outcome: Option<Seq<u64>>)
    ensures
        scoreboard(probed.push(Probed { name, outcome })) == recorded(
            scoreboard(probed),
            name,
            outcome,
        ),
{
    assert(probed.push(Probed { name, outcome }).drop_last() =~= probed);
}

/// The entries recorded by a run are those of its measured resolvers: an
/// entry is there if and only if a resolver was measured with that name and
/// that mean.
pub proof fn lemma_scoreboard_members(probed: Seq<Probed>, entry: RankingEntry)
    ensures
        scoreboard(probed).contains(entry) <==> exists|i: int|
            0 <= i < probed.len() && #[trigger] ranking_entry(probed[i].name, probed[i].outcome)
                == Some(entry),
    decreases probed.len(),
{
    if probed.len() > 0 {
        let earlier = probed.drop_last();
        let last = probed[probed.len() - 1];
        lemma_scoreboard_members(earlier, entry);
        let before = scoreboard(earlier);
        let after = scoreboard(probed);
        if after.contains(entry) {
            let k = choose|k: int| 0 <= k < after.len() && after[k] == entry;
            if k < before.len() {
                // recorded earlier, so measured earlier
                assert(before[k] == entry);
                let i = choose|i: int|
                    0 <= i < earlier.len() && #[trigger] ranking_entry(
                        earlier[i].name,
                        earlier[i].outcome,
                    ) == Some(entry);
                assert(probed[i] == earlier[i]);
            } else {
                assert(ranking_entry(last.name, last.outcome) == Some(entry));
            }
        }
        if exists|i: int|
            0 <= i < probed.len() && #[trigger] ranking_entry(probed[i].name, probed[i].outcome)
                == Some(entry) {
            let i = choose|i: int|
                0 <= i < probed.len() && #[trigger] ranking_entry(probed[i].name, probed[i].outcome)
                    == Some(entry);
            if i < earlier.len() {
                assert(earlier[i] == probed[i]);
                let k = choose|k: int| 0 <= k < before.len() && before[k] == entry;
                assert(after[k] == entry);
            } else {
                assert(after[before.len() as int] == entry);
            }
        }
    }
}

/// Every entry of the final ranking stands for a resolver that was measured,
/// under its name and with the mean of its measurements.
pub proof fn lemma_ranked_was_measured(probed: Seq<Probed>, k: int) -> (i: int)
    requires
        0 <= k < final_ranking(probed).len(),
    ensures
        0 <= i < probed.len(),
        is_measured(probed[i].outcome),
        final_ranking(probed)[k].name == probed[i].name,
        final_ranking(probed)[k].average_nanos == mean_of(probed[i].outcome->0) as u64,
{
    let entry = final_ranking(probed)[k];
    crate::ranking::lemma_ranking_same_members(scoreboard(probed), entry);
    lemma_scoreboard_members(probed, entry);
    choose|i: int|
        0 <= i < probed.len() && #[trigger] ranking_entry(probed[i].name, probed[i].outcome)
            == Some(entry)
}

/// Every measured resolver stands in the final ranking.
pub proof fn lemma_measured_is_ranked(probed: Seq<Probed>, i: int) -> (k: int)
    requires
        0 <= i < probed.len(),
        is_measured(probed[i].outcome),
    ensures
        0 <= k < final_ranking(probed).len(),
        Some(final_ranking(probed)[k]) == ranking_entry(probed[i].name, probed[i].outcome),
{
    let entry = ranking_entry(probed[i].name, probed[i].outcome)->0;
    lemma_scoreboard_members(probed, entry);
    crate::ranking::lemma_ranking_same_members(scoreboard(probed), entry);
    choose|k: int| 0 <= k < final_ranking(probed).len() && final_ranking(probed)[k] == entry
}

/// A resolver whose probe failed, or kept no measurement, is absent from the
/// final ranking: no entry bears its name, unless another resolver of the
/// same name was measured.
pub proof fn lemma_unmeasured_is_absent(probed: Seq<Probed>, i: int, k: int)
    requires
        0 <= i < probed.len(),
        !is_measured(probed[i].outcome),
        forall|j: int|
            0 <= j < probed.len() && probed[j].name == probed[i].name ==> !is_measured(
                #[trigger] probed[j].outcome,
            ),
        0 <= k < final_ranking(probed).len(),
    ensures
        final_ranking(probed)[k].name != probed[i].name,
{
    let j = lemma_ranked_was_measured(probed, k);
}

/// The final ranking is in order of non-decreasing average, whatever was
/// probed.
pub proof fn lemma_final_ranking_ascends(probed: Seq<Probed>, i: int, j: int)
    requires
        0 <= i <= j < final_ranking(probed).len(),
    ensures
        final_ranking(probed)[i].average_nanos <= final_ranking(probed)[j].average_nanos,
{
    crate::ranking::lemma_ranking_is_ranked(scoreboard(probed));
}

/// The lines of a ranking, below the heading, report times that never
/// decrease from one line to the next.
pub proof fn lemma_ranking_lines_ascend(entries: Seq<RankingEntry>, i: int, j: int)
    requires
        1 <= i <= j < ranking_lines(ranking_of(entries)).len(),
    ensures
        ({
            let lines = ranking_lines(ranking_of(entries));
            &&& lines[0] == Line::RankingHeading
            &&& time_of(lines[i]) is Some
            &&& time_of(lines[j]) is Some
            &&& time_of(lines[i])->0 <= time_of(lines[j])->0
        }),
{
    crate::ranking::lemma_ranking_is_ranked(entries);
}

/// The results of a benchmark run as they come in: the entries of the
/// resolvers that were measured, in the order in which they were probed.
pub struct Benchmark {
    entries: Vec<RankingEntry>,
}

impl View for Benchmark {
    type V = Seq<RankingEntry>;

    closed spec fn view(&self) -> Seq<RankingEntry> {
        self.entries@
    }
}

impl Benchmark {
    /// A run in which no resolver was probed yet.
    pub fn new() -> (benchmark: Benchmark)
        ensures
            benchmark@ == Seq::<RankingEntry>::empty(),
    {
        Benchmark { entries: Vec::new() }
    }

    /// The entries of the resolvers measured so far, in the order in which
    /// they were probed.
    pub fn entries(&self) -> (entries: &Vec<RankingEntry>)
        ensures
            entries@ == self@,
    {
        &self.entries
    }

    /// Takes in what the probe of one resolver yielded and returns the lines
    /// that report it. A resolver with at least one measurement gets a line
    /// for each and a line with their mean, and enters the ranking with that
    /// mean. A resolver whose probe failed, or kept no measurement, gets the
    /// one line `Failed` and stays out of the ranking.
    pub fn record(&mut self, name: String, outcome: Option<Vec<u64>>) -> (lines: Vec<Line>)
        ensures
            lines@ == resolver_lines(measurements(outcome)),
            final(self)@ == recorded(old(self)@, name, measurements(outcome)),
    {
        let mut lines: Vec<Line> = Vec::new();
        let samples = match outcome {
            Some(samples) => samples,
            None => {
                lines.push(Line::Failed);
                return lines;
            },
        };
        let average_nanos = match mean(&samples) {
            Some(average_nanos) => average_nanos,
            None => {
                lines.push(Line::Failed);
                return lines;
            },
        };
        let mut i: usize = 0;
        while i < samples.len()
            invariant
                i <= samples@.len(),
                lines@ == query_lines(samples@.take(i as int)),
            decreases samples@.len() - i,
        {
            lines.push(Line::Query { index: i + 1, elapsed_nanos: samples[i] });
            i = i + 1;
        }
        lines.push(Line::Average { average_nanos });
        self.entries.push(RankingEntry { name, average_nanos });
        lines
    }

    /// Ends the run and returns the lines of the ranking: the heading, then
    /// the measured resolvers from fastest to slowest, those of equal average
    /// in the order in which they were probed.
    pub fn finish(self) -> (lines: Vec<Line>)
        ensures
            lines@ == ranking_lines(ranking_of(self@)),
    {
        let ranked = rank(self.entries);
        let mut lines: Vec<Line> = Vec::new();
        lines.push(Line::RankingHeading);
        let mut i: usize = 0;
        while i < ranked.len()
            invariant
                i <= ranked@.len(),
                lines@ == ranking_lines(ranked@.take(i as int)),
            decreases ranked@.len() - i,
        {
            let name = ranked[i].name.clone();
            lines.push(Line::Ranked { name, average_nanos: ranked[i].average_nanos });
            i = i + 1;
        }
        lines
    }
}

} // verus!
