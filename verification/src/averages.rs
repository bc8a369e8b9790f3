//! Sums and averages of what the records of one team add to its statistics.
//!
//! A division rounds toward zero.

use crate::data::{
    match_views, robot_views, Capabilities, MatchInfo, MatchInfoView, RobotInfo, RobotInfoView,
    SCALE,
};
use crate::scoring::{
    AVERAGE_AUTO_SCORE, AVERAGE_CHAOS, AVERAGE_CONFIDENCE, AVERAGE_PIT_PEOPLE, contribution,
    CONTRIBUTION_MAX, contribution_of, counts_toward, indicator, lemma_contribution_bounds,
    MATCH_STATS, OVERALL_DEFENCE, scaled, STAT_COUNT,
};
use vstd::prelude::*;

verus! {

/// The most records of one kind that a snapshot may hold for the statistics to
/// stay exact in 128-bit arithmetic.
pub const MAX_RECORDS: usize = 0xFFFF_FFFF;

/// The quotient of `a` by a positive `n`, rounded toward zero.
pub open spec fn div_trunc(a: int, n: int) -> int {
    if a >= 0 {
        a / n
    } else {
        -((-a) / n)
    }
}

/// The quotient of `a` by `n`, rounded toward zero.
pub fn div_trunc_of(a: i128, n: i128) -> (q: i128)
    requires
        n > 0,
        a > i128::MIN,
    ensures
        q == div_trunc(a as int, n as int),
        a >= 0 ==> 0 <= q <= a,
        a <= 0 ==> a <= q <= 0,
{
    if a >= 0 {
        let q = a / n;
        assert(0 <= a as int / n as int <= a) by (nonlinear_arith)
            requires
                a >= 0,
                n > 0,
        ;
        q
    } else {
        let m: i128 = -a;
        let q = m / n;
        assert(0 <= m as int / n as int <= m) by (nonlinear_arith)
            requires
                m >= 0,
                n > 0,
        ;
        -q
    }
}

/// The contributions of a team's records to statistic `f`, added up.
pub open spec fn total(records: Seq<MatchInfoView>, team: u32, f: int) -> int
    decreases records.len(),
{
    if records.len() == 0 {
        0
    } else {
        total(records.drop_last(), team, f) + if records.last().team_number == team {
            contribution(records.last(), f)
        } else {
            0
        }
    }
}

/// How many of a team's records count toward statistic `f`.
pub open spec fn entries(records: Seq<MatchInfoView>, team: u32, f: int) -> int
    decreases records.len(),
{
    if records.len() == 0 {
        0
    } else {
        entries(records.drop_last(), team, f) + indicator(
            records.last().team_number == team && counts_toward(records.last(), f),
        )
    }
}

/// How many match records a team has.
pub open spec fn match_count(records: Seq<MatchInfoView>, team: u32) -> int {
    entries(records, team, AVERAGE_AUTO_SCORE as int)
}

/// The denominator of an average: the number of entries, but at least one.
pub open spec fn at_least_one(n: int) -> int {
    if n < 1 {
        1
    } else {
        n
    }
}

/// The average of statistic `f` over a team's match records. Zero for a team
/// without records.
pub open spec fn average(records: Seq<MatchInfoView>, team: u32, f: int) -> int {
    total(records, team, f) / at_least_one(entries(records, team, f))
}

/// A record that does not count toward a statistic adds nothing to it, so a
/// running sum is at most its number of entries times the largest contribution.
pub proof fn lemma_total_bounds(records: Seq<MatchInfoView>, team: u32, f: int)
    ensures
        0 <= entries(records, team, f) <= records.len(),
        0 <= total(records, team, f) <= entries(records, team, f) * 0x1_0000_0000_0000,
    decreases records.len(),
{
    if records.len() > 0 {
        lemma_total_bounds(records.drop_last(), team, f);
        lemma_contribution_bounds(records.last(), f);
    }
}

/// An average is never negative and never above the largest contribution.
pub proof fn lemma_average_bounds(records: Seq<MatchInfoView>, team: u32, f: int)
    ensures
        0 <= average(records, team, f) <= CONTRIBUTION_MAX,
{
    lemma_total_bounds(records, team, f);
    let t = total(records, team, f);
    let e = entries(records, team, f);
    let d = at_least_one(e);
    assert(0 <= t / d <= 0x1_0000_0000_0000) by (nonlinear_arith)
        requires
            0 <= t <= e * 0x1_0000_0000_0000,
            d >= 1,
            d >= e,
            e >= 0,
    {
        assert(t <= d * 0x1_0000_0000_0000);
    }
}

/// The running sums of one team over the match records, and how many of the
/// team's records count toward the match statistics and toward the defence
/// rating.
pub(crate) fn team_totals(records: &Vec<MatchInfo>, team: u32) -> (res: ([i128; STAT_COUNT], u32, u32))
    requires
        records.len() <= MAX_RECORDS,
    ensures
        forall|f: int| 0 <= f < MATCH_STATS ==> res.0[f] == total(match_views(records@), team, f),
        forall|f: int| MATCH_STATS <= f < STAT_COUNT ==> res.0[f] == 0,
        res.1 == match_count(match_views(records@), team),
        res.2 == entries(match_views(records@), team, OVERALL_DEFENCE as int),
{
    let mut sums: [i128; STAT_COUNT] = [0; STAT_COUNT];
    let mut count: u32 = 0;
    let mut rated: u32 = 0;
    let mut i: usize = 0;
    while i < records.len()
        invariant
            i <= records.len() <= MAX_RECORDS,
            forall|f: int| 0 <= f < MATCH_STATS ==> sums[f] == total(match_views(records@).take(i as int), team, f),
            forall|f: int| MATCH_STATS <= f < STAT_COUNT ==> sums[f] == 0,
            count == match_count(match_views(records@).take(i as int), team),
            rated == entries(match_views(records@).take(i as int), team, OVERALL_DEFENCE as int),
        decreases records.len() - i,
    {
        let r = &records[i];
        proof {
            assert(match_views(records@).take(i + 1).drop_last() =~= match_views(records@).take(i as int));
            assert(match_views(records@).take(i + 1).last() == match_views(records@)[i as int]);
            lemma_total_bounds(match_views(records@).take(i as int), team, AVERAGE_AUTO_SCORE as int);
            lemma_total_bounds(match_views(records@).take(i as int), team, OVERALL_DEFENCE as int);
        }
        if r.team_number == team {
            let mut f: usize = 0;
            while f < MATCH_STATS
                invariant
                    f <= MATCH_STATS,
                    i < records.len() <= MAX_RECORDS,
                    r@ == match_views(records@)[i as int],
                    r.team_number == team,
                    match_views(records@).take(i + 1).drop_last() == match_views(records@).take(i as int),
                    match_views(records@).take(i + 1).last() == match_views(records@)[i as int],
                    forall|g: int| 0 <= g < f ==> sums[g] == total(match_views(records@).take(i + 1), team, g),
                    forall|g: int|
                        f <= g < MATCH_STATS ==> sums[g] == total(match_views(records@).take(i as int), team, g),
                    forall|g: int| MATCH_STATS <= g < STAT_COUNT ==> sums[g] == 0,
                decreases MATCH_STATS - f,
            {
                proof {
                    lemma_total_bounds(match_views(records@).take(i as int), team, f as int);
                }
                let c = contribution_of(r, f);
                sums[f] = sums[f] + c;
                f += 1;
            }
            count = count + 1;
            if r.defence.is_some() {
                rated = rated + 1;
            }
        }
        i += 1;
    }
    assert(match_views(records@).take(i as int) =~= match_views(records@));
    (sums, count, rated)
}

/// What pit visit `v` adds to the running sum of statistic `f`, in thousandths.
pub open spec fn visit_contribution(v: RobotInfoView, f: int) -> int {
    if f == AVERAGE_PIT_PEOPLE {
        match v.pit.pit_people {
            Some(n) => SCALE * n,
            None => 0,
        }
    } else if f == AVERAGE_CHAOS {
        match v.pit.chaos {
            Some(n) => SCALE * n,
            None => 0,
        }
    } else if f == AVERAGE_CONFIDENCE {
        match v.pit.confidence_level {
            Some(c) => SCALE * c.spec_to_u32(),
            None => 0,
        }
    } else {
        0
    }
}

/// Whether pit visit `v` counts among the visits that statistic `f` is
/// averaged over: it does where the scout filled the value in.
pub open spec fn visit_counts_toward(v: RobotInfoView, f: int) -> bool {
    if f == AVERAGE_PIT_PEOPLE {
        v.pit.pit_people is Some
    } else if f == AVERAGE_CHAOS {
        v.pit.chaos is Some
    } else if f == AVERAGE_CONFIDENCE {
        v.pit.confidence_level is Some
    } else {
        false
    }
}

/// The contributions of a team's pit visits to statistic `f`, added up.
pub open spec fn visit_total(visits: Seq<RobotInfoView>, team: u32, f: int) -> int
    decreases visits.len(),
{
    if visits.len() == 0 {
        0
    } else {
        visit_total(visits.drop_last(), team, f) + if visits.last().team_number == team {
            visit_contribution(visits.last(), f)
        } else {
            0
        }
    }
}

/// How many of a team's pit visits count toward statistic `f`.
pub open spec fn visit_entries(visits: Seq<RobotInfoView>, team: u32, f: int) -> int
    decreases visits.len(),
{
    if visits.len() == 0 {
        0
    } else {
        visit_entries(visits.drop_last(), team, f) + indicator(
            visits.last().team_number == team && visit_counts_toward(visits.last(), f),
        )
    }
}

/// The average of pit statistic `f` over a team's visits. Zero for a team
/// that nobody visited.
pub open spec fn visit_average(visits: Seq<RobotInfoView>, team: u32, f: int) -> int {
    visit_total(visits, team, f) / at_least_one(visit_entries(visits, team, f))
}

/// The position of a team's earliest visit: the first among those with the
/// lowest visit number.
pub open spec fn earliest_visit(visits: Seq<RobotInfoView>, team: u32) -> Option<int>
    decreases visits.len(),
{
    if visits.len() == 0 {
        None
    } else {
        let before = earliest_visit(visits.drop_last(), team);
        if visits.last().team_number != team {
            before
        } else if before is Some && visits[before.unwrap()].visit_number
            <= visits.last().visit_number {
            before
        } else {
            Some(visits.len() - 1)
        }
    }
}

/// The position of a team's latest visit: the last among those with the
/// highest visit number.
pub open spec fn latest_visit(visits: Seq<RobotInfoView>, team: u32) -> Option<int>
    decreases visits.len(),
{
    if visits.len() == 0 {
        None
    } else {
        let before = latest_visit(visits.drop_last(), team);
        if visits.last().team_number != team {
            before
        } else if before is Some && visits[before.unwrap()].visit_number
            > visits.last().visit_number {
            before
        } else {
            Some(visits.len() - 1)
        }
    }
}

/// The capabilities noted at a visit, where there is one.
pub open spec fn capabilities_at(visits: Seq<RobotInfoView>, at: Option<int>) -> Option<Capabilities> {
    match at {
        Some(i) => Some(visits[i].robot.capabilities),
        None => None,
    }
}

/// A running sum over pit visits is at most its number of entries times the
/// largest contribution, and the earliest and the latest visit of a team are
/// visits of that team.
pub proof fn lemma_visit_bounds(visits: Seq<RobotInfoView>, team: u32, f: int)
    ensures
        0 <= visit_entries(visits, team, f) <= visits.len(),
        0 <= visit_total(visits, team, f) <= visit_entries(visits, team, f) * 0x1_0000_0000_0000,
        earliest_visit(visits, team) matches Some(i) ==> 0 <= i < visits.len()
            && visits[i].team_number == team,
        latest_visit(visits, team) matches Some(i) ==> 0 <= i < visits.len()
            && visits[i].team_number == team,
    decreases visits.len(),
{
    if visits.len() > 0 {
        lemma_visit_bounds(visits.drop_last(), team, f);
    }
}

/// A pit average is never negative and never above the largest contribution.
pub proof fn lemma_visit_average_bounds(visits: Seq<RobotInfoView>, team: u32, f: int)
    ensures
        0 <= visit_average(visits, team, f) <= CONTRIBUTION_MAX,
{
    lemma_visit_bounds(visits, team, f);
    let t = visit_total(visits, team, f);
    let e = visit_entries(visits, team, f);
    let d = at_least_one(e);
    assert(0 <= t / d <= 0x1_0000_0000_0000) by (nonlinear_arith)
        requires
            0 <= t <= e * 0x1_0000_0000_0000,
            d >= 1,
            d >= e,
            e >= 0,
    {
        assert(t <= d * 0x1_0000_0000_0000);
    }
}

/// What a pit visit adds to the running sum of a statistic, in thousandths.
fn visit_contribution_of(v: &RobotInfo, f: usize) -> (c: i128)
    ensures
        c == visit_contribution(v@, f as int),
        0 <= c <= CONTRIBUTION_MAX,
{
    if f == AVERAGE_PIT_PEOPLE {
        match v.pit.pit_people {
            Some(n) => scaled(n as u64),
            None => 0,
        }
    } else if f == AVERAGE_CHAOS {
        match v.pit.chaos {
            Some(n) => scaled(n as u64),
            None => 0,
        }
    } else if f == AVERAGE_CONFIDENCE {
        match v.pit.confidence_level {
            Some(c) => scaled(c.to_u32() as u64),
            None => 0,
        }
    } else {
        0
    }
}

/// Whether a pit visit counts among those that a statistic is averaged over.
fn visit_counts_toward_of(v: &RobotInfo, f: usize) -> (b: bool)
    ensures
        b == visit_counts_toward(v@, f as int),
{
    if f == AVERAGE_PIT_PEOPLE {
        v.pit.pit_people.is_some()
    } else if f == AVERAGE_CHAOS {
        v.pit.chaos.is_some()
    } else if f == AVERAGE_CONFIDENCE {
        v.pit.confidence_level.is_some()
    } else {
        false
    }
}

/// The average of one pit statistic over a team's visits.
pub(crate) fn visit_average_of(visits: &Vec<RobotInfo>, team: u32, f: usize) -> (a: i128)
    requires
        visits.len() <= MAX_RECORDS,
    ensures
        a == visit_average(robot_views(visits@), team, f as int),
{
    let mut sum: i128 = 0;
    let mut count: i128 = 0;
    let mut i: usize = 0;
    while i < visits.len()
        invariant
            i <= visits.len() <= MAX_RECORDS,
            sum == visit_total(robot_views(visits@).take(i as int), team, f as int),
            count == visit_entries(robot_views(visits@).take(i as int), team, f as int),
        decreases visits.len() - i,
    {
        proof {
            assert(robot_views(visits@).take(i + 1).drop_last() =~= robot_views(visits@).take(i as int));
            lemma_visit_bounds(robot_views(visits@).take(i as int), team, f as int);
        }
        if visits[i].team_number == team {
            sum = sum + visit_contribution_of(&visits[i], f);
            if visit_counts_toward_of(&visits[i], f) {
                count = count + 1;
            }
        }
        i += 1;
    }
    proof {
        assert(robot_views(visits@).take(i as int) =~= robot_views(visits@));
        lemma_visit_bounds(robot_views(visits@), team, f as int);
    }
    if count < 1 {
        sum
    } else {
        sum / count
    }
}

/// The capabilities that a team claimed at its earliest and at its latest visit.
pub(crate) fn first_and_last_visit(visits: &Vec<RobotInfo>, team: u32) -> (res: (
    Option<Capabilities>,
    Option<Capabilities>,
))
    ensures
        res.0 == capabilities_at(robot_views(visits@), earliest_visit(robot_views(visits@), team)),
        res.1 == capabilities_at(robot_views(visits@), latest_visit(robot_views(visits@), team)),
{
    let mut first: Option<usize> = None;
    let mut last: Option<usize> = None;
    let mut i: usize = 0;
    while i < visits.len()
        invariant
            i <= visits.len(),
            first matches Some(k) ==> k < i,
            last matches Some(k) ==> k < i,
            first is Some <==> earliest_visit(robot_views(visits@).take(i as int), team) is Some,
            first matches Some(k) ==> earliest_visit(robot_views(visits@).take(i as int), team) == Some(
                k as int,
            ),
            last is Some <==> latest_visit(robot_views(visits@).take(i as int), team) is Some,
            last matches Some(k) ==> latest_visit(robot_views(visits@).take(i as int), team) == Some(k as int),
        decreases visits.len() - i,
    {
        proof {
            assert(robot_views(visits@).take(i + 1).drop_last() =~= robot_views(visits@).take(i as int));
        }
        if visits[i].team_number == team {
            let keep_first = match first {
                Some(k) => visits[k].visit_number <= visits[i].visit_number,
                None => false,
            };
            if !keep_first {
                first = Some(i);
            }
            let keep_last = match last {
                Some(k) => visits[k].visit_number > visits[i].visit_number,
                None => false,
            };
            if !keep_last {
                last = Some(i);
            }
        }
        i += 1;
    }
    assert(robot_views(visits@).take(i as int) =~= robot_views(visits@));
    let original = match first {
        Some(k) => Some(visits[k].robot.capabilities()),
        None => None,
    };
    let claimed = match last {
        Some(k) => Some(visits[k].robot.capabilities()),
        None => None,
    };
    (original, claimed)
}

/// The number of a team's records that count toward a statistic is the
/// number of its records, but for the defence rating.
pub proof fn lemma_entries_are_matches(records: Seq<MatchInfoView>, team: u32, f: int)
    requires
        f != OVERALL_DEFENCE,
    ensures
        entries(records, team, f) == match_count(records, team),
    decreases records.len(),
{
    if records.len() > 0 {
        lemma_entries_are_matches(records.drop_last(), team, f);
    }
}

/// A team that no match record names has no matches.
pub proof fn lemma_no_records_no_matches(records: Seq<MatchInfoView>, team: u32)
    requires
        forall|i: int| 0 <= i < records.len() ==> (#[trigger] records[i]).team_number != team,
    ensures
        match_count(records, team) == 0,
    decreases records.len(),
{
    if records.len() > 0 {
        let before = records.drop_last();
        assert(forall|i: int| 0 <= i < before.len() ==> before[i] == records[i]);
        lemma_no_records_no_matches(before, team);
        assert(records.last() == records[records.len() - 1]);
    }
}

/// A team without match records has an average of zero in every statistic
/// that is averaged over match records.
pub proof fn lemma_unscouted_team_averages_zero(records: Seq<MatchInfoView>, team: u32, f: int)
    requires
        match_count(records, team) == 0,
    ensures
        total(records, team, f) == 0,
        average(records, team, f) == 0,
    decreases records.len(),
{
    if records.len() > 0 {
        lemma_total_bounds(records.drop_last(), team, AVERAGE_AUTO_SCORE as int);
        lemma_unscouted_team_averages_zero(records.drop_last(), team, f);
    }
    let d = at_least_one(entries(records, team, f));
    assert(0int / d == 0) by (nonlinear_arith)
        requires
            d >= 1,
    ;
}

} // verus!
