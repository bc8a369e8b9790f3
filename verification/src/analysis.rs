//! The aggregation engine: from a snapshot of the store and what the ranking
//! feed reports to a ranked list of per-team statistics.
//!
//! Every statistic is an integer in thousandths. A division rounds toward zero.

use crate::averages::{
    at_least_one, average, capabilities_at, div_trunc, div_trunc_of, earliest_visit, entries,
    first_and_last_visit, latest_visit, lemma_average_bounds, lemma_entries_are_matches,
    lemma_no_records_no_matches, lemma_total_bounds, lemma_unscouted_team_averages_zero,
    lemma_visit_average_bounds, match_count, MAX_RECORDS, team_totals, total, visit_average,
    visit_average_of,
};
use crate::database::{match_listing, present, robot_listing, Database, DatabaseError};
use crate::data::{
    match_views, robot_views, Capabilities, MatchInfo, MatchInfoView, RobotInfo, RobotInfoView,
};
use crate::matchups::{
    averages_known, lemma_matchup_average_bounds, lemma_matchup_sum_bounds, matchup_average,
    matchup_tallies, Tally,
};
use crate::ranking::{lemma_ranked, rank, ranked};
use crate::scoring::{
    AVERAGE_AUTO_SCORE, AVERAGE_CHAOS, AVERAGE_CONFIDENCE, AVERAGE_DEFENCE_SCORE,
    AVERAGE_LUCK_SCORE, AVERAGE_PIT_PEOPLE, AVERAGE_TELEOP_SCORE, DPR, indicator, MATCH_STATS, OPR,
    OVERALL_DEFENCE, RANKING_POINTS, STAT_COUNT,
};
use crate::tba::{find_team, lemma_find_team, TbaData};
use vstd::prelude::*;

verus! {

/// What the feed reports for the statistic `f` of `team`; zero where it
/// reports nothing.
pub open spec fn oracle_stat(oracle: TbaData, team: u32, f: int) -> int {
    match find_team(oracle.teams@, team) {
        Some(i) => {
            if f == OPR {
                oracle.teams@[i].opr as int
            } else if f == DPR {
                oracle.teams@[i].dpr as int
            } else if f == RANKING_POINTS {
                oracle.teams@[i].ranking_points as int
            } else {
                0
            }
        },
        None => 0,
    }
}

/// `teams` with `team` added at the end, unless it is there already.
pub open spec fn add_team(teams: Seq<u32>, team: u32) -> Seq<u32> {
    if teams.contains(team) {
        teams
    } else {
        teams.push(team)
    }
}

/// The teams of the match records, each once, in the order in which they
/// first appear.
pub open spec fn match_teams(records: Seq<MatchInfoView>) -> Seq<u32>
    decreases records.len(),
{
    if records.len() == 0 {
        Seq::empty()
    } else {
        add_team(match_teams(records.drop_last()), records.last().team_number)
    }
}

/// The teams of the snapshot: those of the match records first, then those
/// that only a pit visit names, each once.
pub open spec fn all_teams(records: Seq<MatchInfoView>, visits: Seq<RobotInfoView>) -> Seq<u32>
    decreases visits.len(),
{
    if visits.len() == 0 {
        match_teams(records)
    } else {
        add_team(all_teams(records, visits.drop_last()), visits.last().team_number)
    }
}

/// The list of teams names no team twice, misses no team of a match record,
/// and is no longer than the records are many.
pub proof fn lemma_match_teams(records: Seq<MatchInfoView>)
    ensures
        match_teams(records).no_duplicates(),
        match_teams(records).len() <= records.len(),
        forall|i: int|
            0 <= i < records.len() ==> match_teams(records).contains(
                #[trigger] records[i].team_number,
            ),
        forall|t: u32|
            match_teams(records).contains(t) ==> exists|i: int|
                0 <= i < records.len() && #[trigger] records[i].team_number == t,
    decreases records.len(),
{
    if records.len() > 0 {
        let before = records.drop_last();
        lemma_match_teams(before);
        let list = match_teams(before);
        let t = records.last().team_number;
        assert forall|i: int| 0 <= i < records.len() implies match_teams(records).contains(
            #[trigger] records[i].team_number,
        ) by {
            if i < records.len() - 1 {
                assert(before[i] == records[i]);
                let k = choose|k: int| 0 <= k < list.len() && list[k] == before[i].team_number;
                assert(match_teams(records)[k] == records[i].team_number);
            } else {
                if list.contains(t) {
                } else {
                    assert(list.push(t)[list.len() as int] == t);
                }
            }
        }
        assert forall|u: u32| match_teams(records).contains(u) implies exists|i: int|
            0 <= i < records.len() && #[trigger] records[i].team_number == u by {
            if list.contains(u) {
                let i = choose|i: int| 0 <= i < before.len() && #[trigger] before[i].team_number == u;
                assert(records[i].team_number == u);
            } else {
                assert(records[records.len() - 1].team_number == u);
            }
        }
    }
}

/// The list of all teams names no team twice and misses no team of the
/// snapshot.
pub proof fn lemma_all_teams(records: Seq<MatchInfoView>, visits: Seq<RobotInfoView>)
    ensures
        all_teams(records, visits).no_duplicates(),
        all_teams(records, visits).len() <= records.len() + visits.len(),
        forall|i: int|
            0 <= i < records.len() ==> all_teams(records, visits).contains(
                #[trigger] records[i].team_number,
            ),
        forall|i: int|
            0 <= i < visits.len() ==> all_teams(records, visits).contains(
                #[trigger] visits[i].team_number,
            ),
    decreases visits.len(),
{
    if visits.len() == 0 {
        lemma_match_teams(records);
    } else {
        let before = visits.drop_last();
        lemma_all_teams(records, before);
        let list = all_teams(records, before);
        let t = visits.last().team_number;
        let now = all_teams(records, visits);
        assert forall|u: u32| list.contains(u) implies now.contains(u) by {
            let k = choose|k: int| 0 <= k < list.len() && list[k] == u;
            assert(now[k] == u);
        }
        assert(now.contains(t)) by {
            if !list.contains(t) {
                assert(list.push(t)[list.len() as int] == t);
            }
        }
        assert forall|i: int| 0 <= i < visits.len() implies now.contains(
            #[trigger] visits[i].team_number,
        ) by {
            if i < visits.len() - 1 {
                assert(before[i] == visits[i]);
            }
        }
    }
}

/// Where `team` stands in `list`.
pub(crate) fn position_of(list: &Vec<u32>, team: u32) -> (at: Option<usize>)
    ensures
        at is Some <==> list@.contains(team),
        at matches Some(i) ==> i < list@.len() && list@[i as int] == team,
{
    let mut i: usize = 0;
    while i < list.len()
        invariant
            i <= list.len(),
            forall|j: int| 0 <= j < i ==> list@[j] != team,
        decreases list.len() - i,
    {
        if list[i] == team {
            return Some(i);
        }
        i += 1;
    }
    None
}

/// The teams of a snapshot, each once, in the order of their first appearance.
pub fn team_numbers(records: &Vec<MatchInfo>, visits: &Vec<RobotInfo>) -> (list: Vec<u32>)
    ensures
        list@ == all_teams(match_views(records@), robot_views(visits@)),
{
    let mut list: Vec<u32> = Vec::new();
    let mut i: usize = 0;
    while i < records.len()
        invariant
            i <= records.len(),
            list@ == match_teams(match_views(records@).take(i as int)),
        decreases records.len() - i,
    {
        proof {
            assert(match_views(records@).take(i + 1).drop_last() =~= match_views(records@).take(i as int));
        }
        if position_of(&list, records[i].team_number).is_none() {
            list.push(records[i].team_number);
        }
        i += 1;
    }
    assert(match_views(records@).take(i as int) =~= match_views(records@));
    let mut j: usize = 0;
    while j < visits.len()
        invariant
            j <= visits.len(),
            list@ == all_teams(match_views(records@), robot_views(visits@).take(j as int)),
        decreases visits.len() - j,
    {
        proof {
            assert(robot_views(visits@).take(j + 1).drop_last() =~= robot_views(visits@).take(j as int));
        }
        if position_of(&list, visits[j].team_number).is_none() {
            list.push(visits[j].team_number);
        }
        j += 1;
    }
    assert(robot_views(visits@).take(j as int) =~= robot_views(visits@));
    list
}

/// The statistic `f` of `team` as far as the team's own records, its pit
/// visits and the feed's report of it give it: everything but defence and
/// luck, which are zero here.
pub open spec fn basic_stat(
    records: Seq<MatchInfoView>,
    visits: Seq<RobotInfoView>,
    oracle: TbaData,
    team: u32,
    f: int,
) -> int {
    if 0 <= f < MATCH_STATS {
        average(records, team, f)
    } else if MATCH_STATS <= f < OPR {
        visit_average(visits, team, f)
    } else if OPR <= f < AVERAGE_DEFENCE_SCORE {
        oracle_stat(oracle, team, f)
    } else {
        0
    }
}

/// The statistic `f` of `team`.
pub open spec fn team_stat(
    records: Seq<MatchInfoView>,
    visits: Seq<RobotInfoView>,
    oracle: TbaData,
    team: u32,
    f: int,
) -> int {
    if f == AVERAGE_DEFENCE_SCORE {
        matchup_average(records, oracle, team, Tally::Defence)
    } else if f == AVERAGE_LUCK_SCORE {
        matchup_average(records, oracle, team, Tally::Luck)
    } else {
        basic_stat(records, visits, oracle, team, f)
    }
}

/// No statistic of a team is beyond this, either way.
pub const STAT_MAX: i128 = 0x4_0000_0000_0000_0000_0000;

/// Every statistic of a team is within `STAT_MAX`.
pub proof fn lemma_team_stat_bounds(
    records: Seq<MatchInfoView>,
    visits: Seq<RobotInfoView>,
    oracle: TbaData,
    team: u32,
    f: int,
)
    requires
        records.len() <= MAX_RECORDS,
    ensures
        -STAT_MAX <= team_stat(records, visits, oracle, team, f) <= STAT_MAX,
        -STAT_MAX <= basic_stat(records, visits, oracle, team, f) <= STAT_MAX,
{
    lemma_average_bounds(records, team, f);
    lemma_visit_average_bounds(visits, team, f);
    lemma_matchup_average_bounds(records, oracle, team, Tally::Defence);
    lemma_matchup_average_bounds(records, oracle, team, Tally::Luck);
    lemma_find_team(oracle.teams@, team);
}

/// The statistics of one team but for defence and luck, and the number of
/// its match records.
fn basic_stats(
    records: &Vec<MatchInfo>,
    visits: &Vec<RobotInfo>,
    oracle: &TbaData,
    team: u32,
) -> (res: ([i128; STAT_COUNT], u32))
    requires
        records.len() <= MAX_RECORDS,
        visits.len() <= MAX_RECORDS,
    ensures
        forall|f: int|
            0 <= f < STAT_COUNT ==> res.0[f] == basic_stat(match_views(records@), robot_views(visits@), *oracle, team, f),
        res.1 == match_count(match_views(records@), team),
{
    let (sums, count, rated) = team_totals(records, team);
    let mut stats: [i128; STAT_COUNT] = [0; STAT_COUNT];
    let mut f: usize = 0;
    while f < MATCH_STATS
        invariant
            f <= MATCH_STATS,
            forall|g: int| 0 <= g < MATCH_STATS ==> sums[g] == total(match_views(records@), team, g),
            count == match_count(match_views(records@), team),
            rated == entries(match_views(records@), team, OVERALL_DEFENCE as int),
            forall|g: int| 0 <= g < f ==> stats[g] == average(match_views(records@), team, g),
            forall|g: int| f <= g < STAT_COUNT ==> stats[g] == 0,
        decreases MATCH_STATS - f,
    {
        proof {
            lemma_total_bounds(match_views(records@), team, f as int);
            if f != OVERALL_DEFENCE {
                lemma_entries_are_matches(match_views(records@), team, f as int);
            }
        }
        let among: u32 = if f == OVERALL_DEFENCE {
            rated
        } else {
            count
        };
        let value: i128 = if among < 1 {
            sums[f]
        } else {
            sums[f] / (among as i128)
        };
        stats[f] = value;
        f += 1;
    }
    stats[AVERAGE_PIT_PEOPLE] = visit_average_of(visits, team, AVERAGE_PIT_PEOPLE);
    stats[AVERAGE_CHAOS] = visit_average_of(visits, team, AVERAGE_CHAOS);
    stats[AVERAGE_CONFIDENCE] = visit_average_of(visits, team, AVERAGE_CONFIDENCE);
    match oracle.team_position(team) {
        Some(i) => {
            stats[OPR] = oracle.teams[i].opr as i128;
            stats[DPR] = oracle.teams[i].dpr as i128;
            stats[RANKING_POINTS] = oracle.teams[i].ranking_points as i128;
        },
        None => {},
    }
    (stats, count)
}

/// The summary of one team, or of the average team. `stats` holds the
/// statistics in thousandths, each at the index that bears its name.
#[derive(Debug)]
pub struct TeamInfo {
    pub team_number: u32,
    pub team_name: Option<String>,
    pub team_rookie_year: Option<u32>,
    pub stats: [i128; STAT_COUNT],
    pub win_count: u32,
    pub loss_count: u32,
    pub matches: u32,
    /// What the team said its robot could do at its earliest pit visit.
    pub original: Option<Capabilities>,
    /// What the team said its robot could do at its latest pit visit.
    pub claimed: Option<Capabilities>,
}

/// A team's summary as a mathematical value.
pub struct TeamInfoView {
    pub team_number: u32,
    pub team_name: Option<Seq<char>>,
    pub team_rookie_year: Option<u32>,
    pub stats: Seq<int>,
    pub win_count: int,
    pub loss_count: int,
    pub matches: int,
    pub original: Option<Capabilities>,
    pub claimed: Option<Capabilities>,
}

impl View for TeamInfo {
    type V = TeamInfoView;

    open spec fn view(&self) -> TeamInfoView {
        TeamInfoView {
            team_number: self.team_number,
            team_name: match self.team_name {
                Some(name) => Some(name@),
                None => None,
            },
            team_rookie_year: self.team_rookie_year,
            stats: Seq::new(STAT_COUNT as nat, |f: int| self.stats[f] as int),
            win_count: self.win_count as int,
            loss_count: self.loss_count as int,
            matches: self.matches as int,
            original: self.original,
            claimed: self.claimed,
        }
    }
}

impl TeamInfoView {
    /// The summary of a team of which nothing is known.
    pub open spec fn blank(team_number: u32) -> TeamInfoView {
        TeamInfoView {
            team_number,
            team_name: None,
            team_rookie_year: None,
            stats: Seq::new(STAT_COUNT as nat, |f: int| 0int),
            win_count: 0,
            loss_count: 0,
            matches: 0,
            original: None,
            claimed: None,
        }
    }

    /// Whether every statistic is within `STAT_MAX` and every count within 32
    /// bits.
    pub open spec fn within_bounds(self) -> bool {
        &&& self.stats.len() == STAT_COUNT
        &&& forall|f: int| 0 <= f < STAT_COUNT ==> -STAT_MAX <= #[trigger] self.stats[f] <= STAT_MAX
        &&& 0 <= self.win_count <= u32::MAX
        &&& 0 <= self.loss_count <= u32::MAX
        &&& 0 <= self.matches <= u32::MAX
    }

    /// The score that teams are ranked by: the average autonomous and
    /// driver-controlled scores together.
    pub open spec fn score(self) -> int {
        self.stats[AVERAGE_AUTO_SCORE as int] + self.stats[AVERAGE_TELEOP_SCORE as int]
    }
}

impl TeamInfo {
    /// The summary of a team of which nothing is known.
    pub fn new(team_number: u32) -> (row: TeamInfo)
        ensures
            row@ == TeamInfoView::blank(team_number),
    {
        let row = TeamInfo {
            team_number,
            team_name: None,
            team_rookie_year: None,
            stats: [0; STAT_COUNT],
            win_count: 0,
            loss_count: 0,
            matches: 0,
            original: None,
            claimed: None,
        };
        assert(row@.stats =~= TeamInfoView::blank(team_number).stats);
        row
    }

    /// The score that teams are ranked by.
    pub fn combined_score(&self) -> (s: i128)
        requires
            self@.within_bounds(),
        ensures
            s == self@.score(),
    {
        assert(self@.stats[AVERAGE_AUTO_SCORE as int] == self.stats[AVERAGE_AUTO_SCORE as int]);
        assert(self@.stats[AVERAGE_TELEOP_SCORE as int] == self.stats[AVERAGE_TELEOP_SCORE as int]);
        self.stats[AVERAGE_AUTO_SCORE] + self.stats[AVERAGE_TELEOP_SCORE]
    }
}

/// The summaries in a list, as mathematical values.
pub open spec fn row_views(rows: Seq<TeamInfo>) -> Seq<TeamInfoView> {
    Seq::new(rows.len(), |k: int| rows[k]@)
}

/// The summary of `team`.
pub open spec fn team_row(
    records: Seq<MatchInfoView>,
    visits: Seq<RobotInfoView>,
    oracle: TbaData,
    team: u32,
) -> TeamInfoView {
    let found = find_team(oracle.teams@, team);
    TeamInfoView {
        team_number: team,
        team_name: match found {
            Some(i) => Some(oracle.teams@[i].team_name@),
            None => None,
        },
        team_rookie_year: match found {
            Some(i) => Some(oracle.teams@[i].rookie_year),
            None => None,
        },
        stats: Seq::new(STAT_COUNT as nat, |f: int| team_stat(records, visits, oracle, team, f)),
        win_count: match found {
            Some(i) => oracle.teams@[i].wins as int,
            None => 0,
        },
        loss_count: match found {
            Some(i) => oracle.teams@[i].losses as int,
            None => 0,
        },
        matches: match_count(records, team),
        original: capabilities_at(visits, earliest_visit(visits, team)),
        claimed: capabilities_at(visits, latest_visit(visits, team)),
    }
}

/// The summaries of the teams in `teams`, in that order.
pub open spec fn team_rows(
    records: Seq<MatchInfoView>,
    visits: Seq<RobotInfoView>,
    oracle: TbaData,
    teams: Seq<u32>,
) -> Seq<TeamInfoView> {
    Seq::new(teams.len(), |k: int| team_row(records, visits, oracle, teams[k]))
}

/// A team's summary is within bounds.
pub proof fn lemma_team_row_bounds(
    records: Seq<MatchInfoView>,
    visits: Seq<RobotInfoView>,
    oracle: TbaData,
    team: u32,
)
    requires
        records.len() <= MAX_RECORDS,
    ensures
        team_row(records, visits, oracle, team).within_bounds(),
{
    let row = team_row(records, visits, oracle, team);
    assert forall|f: int| 0 <= f < STAT_COUNT implies -STAT_MAX <= #[trigger] row.stats[f]
        <= STAT_MAX by {
        lemma_team_stat_bounds(records, visits, oracle, team, f);
    }
    lemma_total_bounds(records, team, AVERAGE_AUTO_SCORE as int);
    lemma_find_team(oracle.teams@, team);
}

/// The index after the statistics that stands for the number of wins.
pub const WIN_COUNT: usize = 48;

/// The index after the statistics that stands for the number of losses.
pub const LOSS_COUNT: usize = 49;

/// The index after the statistics that stands for the number of matches.
pub const MATCHES: usize = 50;

/// The number of numeric fields of a summary: the statistics and the three
/// counts.
pub const FIELD_COUNT: usize = 51;

/// The numeric field `f` of a summary.
pub open spec fn field(row: TeamInfoView, f: int) -> int {
    if f == WIN_COUNT {
        row.win_count
    } else if f == LOSS_COUNT {
        row.loss_count
    } else if f == MATCHES {
        row.matches
    } else {
        row.stats[f]
    }
}

/// How many of the summaries are of a team with at least one match record.
pub open spec fn scouted(rows: Seq<TeamInfoView>) -> int
    decreases rows.len(),
{
    if rows.len() == 0 {
        0
    } else {
        scouted(rows.drop_last()) + indicator(rows.last().matches >= 1)
    }
}

/// The sum of the numeric field `f` over the summaries of teams with at least
/// one match record.
pub open spec fn field_sum(rows: Seq<TeamInfoView>, f: int) -> int
    decreases rows.len(),
{
    if rows.len() == 0 {
        0
    } else {
        field_sum(rows.drop_last(), f) + if rows.last().matches >= 1 {
            field(rows.last(), f)
        } else {
            0
        }
    }
}

/// The mean of the numeric field `f` over the summaries of teams with at
/// least one match record; zero where there is no such team.
pub open spec fn field_mean(rows: Seq<TeamInfoView>, f: int) -> int {
    div_trunc(field_sum(rows, f), at_least_one(scouted(rows)))
}

/// The summary of the average team: every numeric field is the mean of that
/// field over the teams with at least one match record.
pub open spec fn average_row(rows: Seq<TeamInfoView>) -> TeamInfoView {
    TeamInfoView {
        team_number: 0,
        team_name: None,
        team_rookie_year: None,
        stats: Seq::new(STAT_COUNT as nat, |f: int| field_mean(rows, f)),
        win_count: field_mean(rows, WIN_COUNT as int),
        loss_count: field_mean(rows, LOSS_COUNT as int),
        matches: field_mean(rows, MATCHES as int),
        original: None,
        claimed: None,
    }
}

/// No numeric field of a summary within bounds is beyond this.
pub open spec fn field_max(f: int) -> int {
    if f == WIN_COUNT || f == LOSS_COUNT || f == MATCHES {
        u32::MAX as int
    } else {
        STAT_MAX as int
    }
}

/// A sum of fields is within the field's bound times the number of summaries
/// it runs over.
pub proof fn lemma_field_sum_bounds(rows: Seq<TeamInfoView>, f: int)
    requires
        0 <= f < FIELD_COUNT,
        forall|k: int| 0 <= k < rows.len() ==> (#[trigger] rows[k]).within_bounds(),
    ensures
        0 <= scouted(rows) <= rows.len(),
        f < STAT_COUNT ==> -0x4_0000_0000_0000_0000_0000 * scouted(rows) <= field_sum(rows, f)
            <= 0x4_0000_0000_0000_0000_0000 * scouted(rows),
        f >= STAT_COUNT ==> 0 <= field_sum(rows, f) <= 0xFFFF_FFFF * scouted(rows),
    decreases rows.len(),
{
    if rows.len() > 0 {
        let before = rows.drop_last();
        assert(forall|k: int| 0 <= k < before.len() ==> before[k] == rows[k]);
        lemma_field_sum_bounds(before, f);
        assert(rows.last() == rows[rows.len() - 1]);
        assert(rows.last().within_bounds());
    }
}

/// A mean of fields is within the field's bound.
pub proof fn lemma_field_mean_bounds(rows: Seq<TeamInfoView>, f: int)
    requires
        0 <= f < FIELD_COUNT,
        forall|k: int| 0 <= k < rows.len() ==> (#[trigger] rows[k]).within_bounds(),
    ensures
        -field_max(f) <= field_mean(rows, f) <= field_max(f),
        f >= STAT_COUNT ==> 0 <= field_mean(rows, f),
{
    lemma_field_sum_bounds(rows, f);
    let s = field_sum(rows, f);
    let c = scouted(rows);
    let n = at_least_one(c);
    if f < STAT_COUNT {
        if s >= 0 {
            assert(0 <= s / n <= 0x4_0000_0000_0000_0000_0000) by (nonlinear_arith)
                requires
                    0 <= s <= 0x4_0000_0000_0000_0000_0000 * c,
                    n >= 1,
                    n >= c,
                    c >= 0,
            {
                assert(s <= 0x4_0000_0000_0000_0000_0000 * n);
            }
        } else {
            assert(0 <= (-s) / n <= 0x4_0000_0000_0000_0000_0000) by (nonlinear_arith)
                requires
                    0 <= -s <= 0x4_0000_0000_0000_0000_0000 * c,
                    n >= 1,
                    n >= c,
                    c >= 0,
            {
                assert(-s <= 0x4_0000_0000_0000_0000_0000 * n);
            }
        }
    } else {
        assert(0 <= s / n <= 0xFFFF_FFFF) by (nonlinear_arith)
            requires
                0 <= s <= 0xFFFF_FFFF * c,
                n >= 1,
                n >= c,
                c >= 0,
        {
            assert(s <= 0xFFFF_FFFF * n);
        }
    }
}

/// The numeric field `f` of a summary.
fn field_of(row: &TeamInfo, f: usize) -> (v: i128)
    requires
        f < FIELD_COUNT,
    ensures
        v == field(row@, f as int),
{
    if f == WIN_COUNT {
        row.win_count as i128
    } else if f == LOSS_COUNT {
        row.loss_count as i128
    } else if f == MATCHES {
        row.matches as i128
    } else {
        assert(row@.stats[f as int] == row.stats[f as int]);
        row.stats[f]
    }
}

/// The mean of one numeric field over the teams with at least one match
/// record.
fn field_mean_of(rows: &Vec<TeamInfo>, f: usize) -> (mean: i128)
    requires
        f < FIELD_COUNT,
        rows.len() <= 2 * MAX_RECORDS,
        forall|k: int| 0 <= k < rows.len() ==> (#[trigger] rows@[k])@.within_bounds(),
    ensures
        mean == field_mean(row_views(rows@), f as int),
        -field_max(f as int) <= mean <= field_max(f as int),
        f >= STAT_COUNT ==> 0 <= mean,
{
    let ghost views = row_views(rows@);
    let mut sum: i128 = 0;
    let mut among: i128 = 0;
    let mut k: usize = 0;
    while k < rows.len()
        invariant
            k <= rows.len() <= 2 * MAX_RECORDS,
            f < FIELD_COUNT,
            views == row_views(rows@),
            forall|j: int| 0 <= j < rows.len() ==> (#[trigger] rows@[j])@.within_bounds(),
            sum == field_sum(views.take(k as int), f as int),
            among == scouted(views.take(k as int)),
        decreases rows.len() - k,
    {
        proof {
            assert(views.take(k + 1).drop_last() =~= views.take(k as int));
            assert(views.take(k + 1).last() == rows@[k as int]@);
            assert forall|j: int| 0 <= j < views.take(k as int).len() implies (
            #[trigger] views.take(k as int)[j]).within_bounds() by {
                assert(views.take(k as int)[j] == rows@[j]@);
            }
            lemma_field_sum_bounds(views.take(k as int), f as int);
            assert(rows@[k as int]@.within_bounds());
        }
        if rows[k].matches >= 1 {
            sum = sum + field_of(&rows[k], f);
            among = among + 1;
        }
        k += 1;
    }
    proof {
        assert(views.take(k as int) =~= views);
        assert forall|j: int| 0 <= j < views.len() implies (#[trigger] views[j]).within_bounds() by {
            assert(views[j] == rows@[j]@);
        }
        lemma_field_sum_bounds(views, f as int);
        lemma_field_mean_bounds(views, f as int);
    }
    let n: i128 = if among < 1 {
        1
    } else {
        among
    };
    div_trunc_of(sum, n)
}

/// The summary of the average team.
fn average_row_of(rows: &Vec<TeamInfo>) -> (avg: TeamInfo)
    requires
        rows.len() <= 2 * MAX_RECORDS,
        forall|k: int| 0 <= k < rows.len() ==> (#[trigger] rows@[k])@.within_bounds(),
    ensures
        avg@ == average_row(row_views(rows@)),
        avg@.within_bounds(),
{
    let ghost views = row_views(rows@);
    let mut stats: [i128; STAT_COUNT] = [0; STAT_COUNT];
    let mut f: usize = 0;
    while f < STAT_COUNT
        invariant
            f <= STAT_COUNT,
            rows.len() <= 2 * MAX_RECORDS,
            views == row_views(rows@),
            forall|k: int| 0 <= k < rows.len() ==> (#[trigger] rows@[k])@.within_bounds(),
            forall|g: int| 0 <= g < f ==> stats[g] == field_mean(views, g),
            forall|g: int| 0 <= g < f ==> -STAT_MAX <= #[trigger] stats[g] <= STAT_MAX,
        decreases STAT_COUNT - f,
    {
        let mean = field_mean_of(rows, f);
        stats[f] = mean;
        f += 1;
    }
    let wins = field_mean_of(rows, WIN_COUNT);
    let losses = field_mean_of(rows, LOSS_COUNT);
    let matches = field_mean_of(rows, MATCHES);
    let avg = TeamInfo {
        team_number: 0,
        team_name: None,
        team_rookie_year: None,
        stats,
        win_count: wins as u32,
        loss_count: losses as u32,
        matches: matches as u32,
        original: None,
        claimed: None,
    };
    assert(avg@.stats =~= average_row(views).stats);
    avg
}

/// The ranked list of summaries of a snapshot: one for each team in the order
/// of first appearance and one for the average team, by falling score.
pub open spec fn summary(records: Seq<MatchInfoView>, visits: Seq<RobotInfoView>, oracle: TbaData) -> Seq<
    TeamInfoView,
> {
    let rows = team_rows(records, visits, oracle, all_teams(records, visits));
    ranked(rows.push(average_row(rows)))
}

/// The summary of one team, from the averages of all teams.
fn team_row_of(
    records: &Vec<MatchInfo>,
    visits: &Vec<RobotInfo>,
    oracle: &TbaData,
    teams: &Vec<u32>,
    basic: &Vec<[i128; STAT_COUNT]>,
    counts: &Vec<u32>,
    k: usize,
) -> (row: TeamInfo)
    requires
        records.len() <= MAX_RECORDS,
        visits.len() <= MAX_RECORDS,
        k < teams.len(),
        counts.len() == teams.len(),
        averages_known(match_views(records@), teams@, basic@),
        forall|f: int|
            0 <= f < STAT_COUNT ==> (#[trigger] basic@[k as int][f]) == basic_stat(
                match_views(records@),
                robot_views(visits@),
                *oracle,
                teams@[k as int],
                f,
            ),
        counts@[k as int] == match_count(match_views(records@), teams@[k as int]),
    ensures
        row@ == team_row(match_views(records@), robot_views(visits@), *oracle, teams@[k as int]),
        row@.within_bounds(),
{
    let team = teams[k];
    let (faced, defence, luck) = matchup_tallies(records, teams, basic, oracle, team);
    proof {
        lemma_matchup_sum_bounds(match_views(records@), match_views(records@), *oracle, team, Tally::Defence);
        lemma_matchup_sum_bounds(match_views(records@), match_views(records@), *oracle, team, Tally::Luck);
        assert(0x4_0000_0000_0000_0000_0000 * faced <= 0x4_0000_0000_0000_0000_0000 * 0xFFFF_FFFF)
            by (nonlinear_arith)
            requires
                0 <= faced <= 0xFFFF_FFFF,
        ;
    }
    let mut stats: [i128; STAT_COUNT] = basic[k];
    if faced > 0 {
        stats[AVERAGE_DEFENCE_SCORE] = div_trunc_of(defence, faced);
        stats[AVERAGE_LUCK_SCORE] = div_trunc_of(luck, faced);
    }
    let (original, claimed) = first_and_last_visit(visits, team);
    let found = oracle.team_position(team);
    let row = match found {
        Some(i) => TeamInfo {
            team_number: team,
            team_name: Some(oracle.teams[i].team_name.clone()),
            team_rookie_year: Some(oracle.teams[i].rookie_year),
            stats,
            win_count: oracle.teams[i].wins,
            loss_count: oracle.teams[i].losses,
            matches: counts[k],
            original,
            claimed,
        },
        None => TeamInfo {
            team_number: team,
            team_name: None,
            team_rookie_year: None,
            stats,
            win_count: 0,
            loss_count: 0,
            matches: counts[k],
            original,
            claimed,
        },
    };
    proof {
        let want = team_row(match_views(records@), robot_views(visits@), *oracle, team);
        assert(row@.stats =~= want.stats) by {
            assert forall|f: int| 0 <= f < STAT_COUNT implies row@.stats[f] == want.stats[f] by {
                assert(basic@[k as int][f] == basic_stat(match_views(records@), robot_views(visits@), *oracle, team, f));
            }
        }
        lemma_team_row_bounds(match_views(records@), robot_views(visits@), *oracle, team);
    }
    row
}

/// The ranked list of per-team summaries of a snapshot of the store, with the
/// summary of the average team among them. The snapshot holds at most
/// `MAX_RECORDS` records of each kind.
pub fn analyze(records: &Vec<MatchInfo>, visits: &Vec<RobotInfo>, oracle: &TbaData) -> (list:
    Vec<TeamInfo>)
    requires
        records.len() <= MAX_RECORDS,
        visits.len() <= MAX_RECORDS,
    ensures
        row_views(list@) == summary(match_views(records@), robot_views(visits@), *oracle),
{
    let teams = team_numbers(records, visits);
    proof {
        lemma_all_teams(match_views(records@), robot_views(visits@));
    }
    let mut basic: Vec<[i128; STAT_COUNT]> = Vec::new();
    let mut counts: Vec<u32> = Vec::new();
    let mut k: usize = 0;
    while k < teams.len()
        invariant
            k <= teams.len(),
            records.len() <= MAX_RECORDS,
            visits.len() <= MAX_RECORDS,
            basic.len() == k,
            counts.len() == k,
            forall|j: int, f: int|
                0 <= j < k && 0 <= f < STAT_COUNT ==> (#[trigger] basic@[j][f]) == basic_stat(
                    match_views(records@),
                    robot_views(visits@),
                    *oracle,
                    teams@[j],
                    f,
                ),
            forall|j: int| 0 <= j < k ==> #[trigger] counts@[j] == match_count(match_views(records@), teams@[j]),
        decreases teams.len() - k,
    {
        let (stats, count) = basic_stats(records, visits, oracle, teams[k]);
        basic.push(stats);
        counts.push(count);
        k += 1;
    }
    assert(averages_known(match_views(records@), teams@, basic@)) by {
        assert forall|j: int| 0 <= j < teams@.len() implies (#[trigger] basic@[j])[AVERAGE_AUTO_SCORE as int]
            == average(match_views(records@), teams@[j], AVERAGE_AUTO_SCORE as int)
            && basic@[j][AVERAGE_TELEOP_SCORE as int] == average(
            match_views(records@),
            teams@[j],
            AVERAGE_TELEOP_SCORE as int,
        ) by {
            assert(basic@[j][AVERAGE_AUTO_SCORE as int] == basic_stat(
                match_views(records@),
                robot_views(visits@),
                *oracle,
                teams@[j],
                AVERAGE_AUTO_SCORE as int,
            ));
            assert(basic@[j][AVERAGE_TELEOP_SCORE as int] == basic_stat(
                match_views(records@),
                robot_views(visits@),
                *oracle,
                teams@[j],
                AVERAGE_TELEOP_SCORE as int,
            ));
        }
    }
    let ghost want = team_rows(match_views(records@), robot_views(visits@), *oracle, teams@);
    let mut rows: Vec<TeamInfo> = Vec::new();
    let mut k: usize = 0;
    while k < teams.len()
        invariant
            k <= teams.len(),
            teams.len() <= records.len() + visits.len(),
            records.len() <= MAX_RECORDS,
            visits.len() <= MAX_RECORDS,
            counts.len() == teams.len(),
            averages_known(match_views(records@), teams@, basic@),
            forall|j: int, f: int|
                0 <= j < teams.len() && 0 <= f < STAT_COUNT ==> (#[trigger] basic@[j][f])
                    == basic_stat(match_views(records@), robot_views(visits@), *oracle, teams@[j], f),
            forall|j: int|
                0 <= j < teams.len() ==> #[trigger] counts@[j] == match_count(match_views(records@), teams@[j]),
            rows.len() == k,
            want == team_rows(match_views(records@), robot_views(visits@), *oracle, teams@),
            forall|j: int| 0 <= j < k ==> (#[trigger] rows@[j])@ == want[j],
            forall|j: int| 0 <= j < k ==> (#[trigger] rows@[j])@.within_bounds(),
        decreases teams.len() - k,
    {
        let row = team_row_of(records, visits, oracle, &teams, &basic, &counts, k);
        rows.push(row);
        k += 1;
    }
    assert(row_views(rows@) =~= want);
    let ghost team_views = row_views(rows@);
    let avg = average_row_of(&rows);
    rows.push(avg);
    assert(row_views(rows@) =~= team_views.push(average_row(team_views)));
    rank(rows)
}

/// `analyze` for a snapshot of any size: nothing where it holds more records
/// of one kind than `MAX_RECORDS`.
pub fn analyze_checked(records: &Vec<MatchInfo>, visits: &Vec<RobotInfo>, oracle: &TbaData) -> (list:
    Option<Vec<TeamInfo>>)
    ensures
        list is Some <==> records.len() <= MAX_RECORDS && visits.len() <= MAX_RECORDS,
        list matches Some(rows) ==> row_views(rows@) == summary(
            match_views(records@),
            robot_views(visits@),
            *oracle,
        ),
{
    if records.len() <= MAX_RECORDS && visits.len() <= MAX_RECORDS {
        Some(analyze(records, visits, oracle))
    } else {
        None
    }
}

/// The ranked list of per-team summaries of what a store holds: of every
/// valid record that can be read. Fails where the backend fails, and yields
/// nothing where the store holds more records of one kind than `MAX_RECORDS`.
pub fn analyze_data(database: &Database, oracle: &TbaData) -> (res: Result<
    Option<Vec<TeamInfo>>,
    DatabaseError,
>)
    ensures
        res matches Ok(Some(rows)) ==> row_views(rows@) == summary(
            present(match_listing(database@)),
            present(robot_listing(database@)),
            *oracle,
        ),
        res matches Ok(None) ==> present(match_listing(database@)).len() > MAX_RECORDS || present(
            robot_listing(database@),
        ).len() > MAX_RECORDS,
        res matches Err(e) ==> e is Sled,
{
    match database.snapshot() {
        Ok(snapshot) => Ok(analyze_checked(&snapshot.matches, &snapshot.robots, oracle)),
        Err(e) => Err(e),
    }
}

/// In the summary of a team without match records, every statistic that is
/// averaged over match records is zero, and so is the number of its matches.
pub proof fn lemma_unscouted_team_row(
    records: Seq<MatchInfoView>,
    visits: Seq<RobotInfoView>,
    oracle: TbaData,
    team: u32,
)
    requires
        forall|i: int| 0 <= i < records.len() ==> (#[trigger] records[i]).team_number != team,
    ensures
        team_row(records, visits, oracle, team).matches == 0,
        forall|f: int|
            0 <= f < MATCH_STATS ==> #[trigger] team_row(records, visits, oracle, team).stats[f]
                == 0,
{
    lemma_no_records_no_matches(records, team);
    assert forall|f: int| 0 <= f < MATCH_STATS implies #[trigger] team_row(
        records,
        visits,
        oracle,
        team,
    ).stats[f] == 0 by {
        lemma_unscouted_team_averages_zero(records, team, f);
    }
}

/// The average team's value in a numeric field is the mean of that field over
/// the teams with at least one match record, rounded toward zero: times the
/// number of those teams, it is less than that number away from their sum,
/// and on the same side of zero.
pub proof fn lemma_average_row_is_mean(rows: Seq<TeamInfoView>, f: int)
    requires
        0 <= f < FIELD_COUNT,
        scouted(rows) >= 1,
    ensures
        field(average_row(rows), f) == field_mean(rows, f),
        field_sum(rows, f) >= 0 ==> 0 <= field_sum(rows, f) - scouted(rows) * field_mean(rows, f)
            < scouted(rows),
        field_sum(rows, f) <= 0 ==> -scouted(rows) < field_sum(rows, f) - scouted(rows)
            * field_mean(rows, f) <= 0,
{
    let s = field_sum(rows, f);
    let n = scouted(rows);
    if s >= 0 {
        assert(0 <= s - n * (s / n) < n) by (nonlinear_arith)
            requires
                n >= 1,
                s >= 0,
        ;
    } else {
        let t = -s;
        assert(0 <= t - n * (t / n) < n) by (nonlinear_arith)
            requires
                n >= 1,
                t >= 0,
        ;
        assert(n * (-(t / n)) == -(n * (t / n))) by (nonlinear_arith);
    }
}

/// Without a team that has a match record, every numeric field of the average
/// team is zero.
pub proof fn lemma_average_row_of_none(rows: Seq<TeamInfoView>, f: int)
    requires
        scouted(rows) == 0,
    ensures
        field_sum(rows, f) == 0,
        field_mean(rows, f) == 0,
    decreases rows.len(),
{
    if rows.len() > 0 {
        lemma_scouted_bounds(rows.drop_last());
        lemma_average_row_of_none(rows.drop_last(), f);
    }
}

/// No more summaries are of a team with a match record than there are
/// summaries.
pub proof fn lemma_scouted_bounds(rows: Seq<TeamInfoView>)
    ensures
        0 <= scouted(rows) <= rows.len(),
    decreases rows.len(),
{
    if rows.len() > 0 {
        lemma_scouted_bounds(rows.drop_last());
    }
}

/// In the summary of a snapshot, no team has a lower score than the one after
/// it, and there is one entry for each team and one for the average team.
pub proof fn lemma_summary_descending(records: Seq<MatchInfoView>, visits: Seq<RobotInfoView>, oracle: TbaData)
    ensures
        summary(records, visits, oracle).len() == all_teams(records, visits).len() + 1,
        forall|i: int|
            0 <= i < summary(records, visits, oracle).len() - 1 ==> (#[trigger] summary(
                records,
                visits,
                oracle,
            )[i]).score() >= summary(records, visits, oracle)[i + 1].score(),
{
    let rows = team_rows(records, visits, oracle, all_teams(records, visits));
    lemma_ranked(rows.push(average_row(rows)));
}

/// The summary of a snapshot holds the summary of every team and that of the
/// average team.
pub proof fn lemma_summary_holds_rows(records: Seq<MatchInfoView>, visits: Seq<RobotInfoView>, oracle: TbaData)
    ensures
        summary(records, visits, oracle).contains(
            average_row(team_rows(records, visits, oracle, all_teams(records, visits))),
        ),
        forall|k: int|
            0 <= k < all_teams(records, visits).len() ==> summary(records, visits, oracle).contains(
                team_row(records, visits, oracle, #[trigger] all_teams(records, visits)[k]),
            ),
{
    let teams = all_teams(records, visits);
    let rows = team_rows(records, visits, oracle, teams);
    let all = rows.push(average_row(rows));
    lemma_ranked(all);
    all.to_multiset_ensures();
    ranked(all).to_multiset_ensures();
    assert(all[rows.len() as int] == average_row(rows));
    assert(all.contains(average_row(rows)));
    assert(all.to_multiset().count(average_row(rows)) > 0);
    assert forall|k: int| 0 <= k < teams.len() implies summary(records, visits, oracle).contains(
        team_row(records, visits, oracle, #[trigger] teams[k]),
    ) by {
        assert(all[k] == team_row(records, visits, oracle, teams[k]));
        assert(all.contains(all[k]));
        assert(all.to_multiset().count(all[k]) > 0);
    }
}

} // verus!
