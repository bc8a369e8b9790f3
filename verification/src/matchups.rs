//! Defence and luck: what the statistics say of a team in view of the teams
//! that it played with and against.

use crate::analysis::position_of;
use crate::averages::{average, div_trunc, lemma_average_bounds, MAX_RECORDS};
use crate::data::{match_views, MatchInfo, MatchInfoView, MatchType};
use crate::scoring::{
    AVERAGE_AUTO_SCORE, AVERAGE_TELEOP_SCORE, contribution, contribution_of, indicator,
    lemma_contribution_bounds, STAT_COUNT,
};
use crate::tba::{find_matchup, lemma_find_matchup, TbaData, TbaMatch};
use vstd::prelude::*;

verus! {

/// Whether two records are of the same match.
pub open spec fn same_match(r: MatchInfoView, o: MatchInfoView) -> bool {
    o.match_category == r.match_category && o.match_number == r.match_number
}

/// The alliance that `team` plays against in matchup `m`; empty where `team`
/// is in neither alliance.
pub open spec fn opponents_of(m: TbaMatch, team: u32) -> Seq<u32> {
    if m.blue_teams@.contains(team) {
        m.red_teams@
    } else if m.red_teams@.contains(team) {
        m.blue_teams@
    } else {
        Seq::empty()
    }
}

/// The alliance that `team` plays in; empty where it is in neither.
pub open spec fn allies_of(m: TbaMatch, team: u32) -> Seq<u32> {
    if m.blue_teams@.contains(team) {
        m.blue_teams@
    } else if m.red_teams@.contains(team) {
        m.red_teams@
    } else {
        Seq::empty()
    }
}

/// Whether `other` is another team that plays against `team` in matchup `m`.
pub open spec fn is_opponent(m: TbaMatch, team: u32, other: u32) -> bool {
    other != team && opponents_of(m, team).contains(other)
}

/// Whether `other` is another team that plays with `team` in matchup `m`.
pub open spec fn is_ally(m: TbaMatch, team: u32, other: u32) -> bool {
    other != team && !opponents_of(m, team).contains(other) && allies_of(m, team).contains(other)
}

/// A team's average autonomous and driver-controlled scores together: the
/// score that teams are ranked by.
pub open spec fn combined_average(records: Seq<MatchInfoView>, team: u32) -> int {
    average(records, team, AVERAGE_AUTO_SCORE as int) + average(
        records,
        team,
        AVERAGE_TELEOP_SCORE as int,
    )
}

/// What a sum over the other teams of a match adds up.
#[derive(Debug, Copy, Clone, PartialEq, Eq, Structural)]
pub enum Measure {
    /// One for each team.
    Count,
    /// Each team's average driver-controlled score.
    Teleop,
    /// Each team's combined average score.
    Combined,
}

/// The measure `what` of `team`, taken over all the records.
pub open spec fn measure(all: Seq<MatchInfoView>, team: u32, what: Measure) -> int {
    match what {
        Measure::Count => 1,
        Measure::Teleop => average(all, team, AVERAGE_TELEOP_SCORE as int),
        Measure::Combined => combined_average(all, team),
    }
}

/// Whether record `o` is of the match of record `r` and of a team on the side
/// asked for: an opponent of `r`'s team where `opposing` holds, an ally where
/// it does not.
pub open spec fn on_side(m: TbaMatch, r: MatchInfoView, o: MatchInfoView, opposing: bool) -> bool {
    same_match(r, o) && if opposing {
        is_opponent(m, r.team_number, o.team_number)
    } else {
        is_ally(m, r.team_number, o.team_number)
    }
}

/// The sum of a measure over the records in `part` that are of `r`'s match and
/// of a team on the side asked for. The measure itself is taken over `all`.
pub open spec fn roster_sum(
    all: Seq<MatchInfoView>,
    part: Seq<MatchInfoView>,
    m: TbaMatch,
    r: MatchInfoView,
    opposing: bool,
    what: Measure,
) -> int
    decreases part.len(),
{
    if part.len() == 0 {
        0
    } else {
        roster_sum(all, part.drop_last(), m, r, opposing, what) + if on_side(
            m,
            r,
            part.last(),
            opposing,
        ) {
            measure(all, part.last().team_number, what)
        } else {
            0
        }
    }
}

/// `x` shared among `n`; nothing where there is nobody to share among.
pub open spec fn share(x: int, n: int) -> int {
    if n > 0 {
        x / n
    } else {
        0
    }
}

/// The defence contribution of record `r` in matchup `m`: over the opponents
/// that the records track, the sum of the opponent's average
/// driver-controlled score less the score of `r` in this match.
pub open spec fn defence_term(all: Seq<MatchInfoView>, m: TbaMatch, r: MatchInfoView) -> int {
    roster_sum(all, all, m, r, true, Measure::Teleop) - roster_sum(
        all,
        all,
        m,
        r,
        true,
        Measure::Count,
    ) * contribution(r, AVERAGE_TELEOP_SCORE as int)
}

/// The luck of record `r` in matchup `m`: up by what its allies score on
/// average, shared among the opponents, and down by what its opponents score,
/// shared among the allies.
pub open spec fn luck_term(all: Seq<MatchInfoView>, m: TbaMatch, r: MatchInfoView) -> int {
    share(
        roster_sum(all, all, m, r, false, Measure::Combined),
        roster_sum(all, all, m, r, true, Measure::Count),
    ) - share(
        roster_sum(all, all, m, r, true, Measure::Combined),
        roster_sum(all, all, m, r, false, Measure::Count),
    )
}

/// The matchup that the feed reports for the match of record `r`. Only
/// qualification matches take part.
pub open spec fn matchup_of(oracle: TbaData, r: MatchInfoView) -> Option<int> {
    if r.match_category == MatchType::Qualification {
        find_matchup(oracle.matches@, r.match_category, r.match_number)
    } else {
        None
    }
}

/// What a sum over a team's records adds up.
#[derive(Debug, Copy, Clone, PartialEq, Eq, Structural)]
pub enum Tally {
    /// One for each match in which the team faced a tracked opponent.
    Faced,
    /// The defence contribution of each match.
    Defence,
    /// The luck of each match.
    Luck,
}

/// What record `r` adds to the tally `what` of its team.
pub open spec fn matchup_term(all: Seq<MatchInfoView>, oracle: TbaData, r: MatchInfoView, what: Tally) -> int {
    match matchup_of(oracle, r) {
        Some(k) => {
            let m = oracle.matches@[k];
            match what {
                Tally::Faced => indicator(roster_sum(all, all, m, r, true, Measure::Count) > 0),
                Tally::Defence => defence_term(all, m, r),
                Tally::Luck => luck_term(all, m, r),
            }
        },
        None => 0,
    }
}

/// The tally `what` of `team` over the records in `part`.
pub open spec fn matchup_sum(
    all: Seq<MatchInfoView>,
    part: Seq<MatchInfoView>,
    oracle: TbaData,
    team: u32,
    what: Tally,
) -> int
    decreases part.len(),
{
    if part.len() == 0 {
        0
    } else {
        matchup_sum(all, part.drop_last(), oracle, team, what) + if part.last().team_number
            == team {
            matchup_term(all, oracle, part.last(), what)
        } else {
            0
        }
    }
}

/// A team's tally of defence or luck, divided by the number of matches in
/// which it faced a tracked opponent. Zero for a team that faced none.
pub open spec fn matchup_average(all: Seq<MatchInfoView>, oracle: TbaData, team: u32, what: Tally) -> int {
    let n = matchup_sum(all, all, oracle, team, Tally::Faced);
    if n > 0 {
        div_trunc(matchup_sum(all, all, oracle, team, what), n)
    } else {
        0
    }
}

/// No sum over the other teams of a match is above this.
pub const ROSTER_MAX: i128 = 0x2_0000_0000_0000_0000_0000;

/// No defence contribution or luck of one match is beyond this, either way.
pub const TERM_MAX: i128 = 0x4_0000_0000_0000_0000_0000;

/// A sum over a roster is at most its count times twice the largest
/// contribution, and nothing where the count is zero.
pub proof fn lemma_roster_sum_bounds(
    all: Seq<MatchInfoView>,
    part: Seq<MatchInfoView>,
    m: TbaMatch,
    r: MatchInfoView,
    opposing: bool,
    what: Measure,
)
    ensures
        0 <= roster_sum(all, part, m, r, opposing, Measure::Count) <= part.len(),
        0 <= roster_sum(all, part, m, r, opposing, what) <= 0x2_0000_0000_0000 * roster_sum(
            all,
            part,
            m,
            r,
            opposing,
            Measure::Count,
        ),
    decreases part.len(),
{
    if part.len() > 0 {
        lemma_roster_sum_bounds(all, part.drop_last(), m, r, opposing, what);
        let t = part.last().team_number;
        lemma_average_bounds(all, t, AVERAGE_TELEOP_SCORE as int);
        lemma_average_bounds(all, t, AVERAGE_AUTO_SCORE as int);
    }
}

/// What one record adds to a tally is within `TERM_MAX`, and nothing where
/// the record tracks no opponent.
pub proof fn lemma_matchup_term_bounds(all: Seq<MatchInfoView>, oracle: TbaData, r: MatchInfoView, what: Tally)
    requires
        all.len() <= MAX_RECORDS,
    ensures
        -TERM_MAX <= matchup_term(all, oracle, r, what) <= TERM_MAX,
        0 <= matchup_term(all, oracle, r, Tally::Faced) <= 1,
        matchup_term(all, oracle, r, Tally::Faced) == 0 ==> matchup_term(all, oracle, r, what)
            == 0,
{
    match matchup_of(oracle, r) {
        Some(k) => {
            lemma_find_matchup(oracle.matches@, r.match_category, r.match_number);
            let m = oracle.matches@[k];
            lemma_roster_sum_bounds(all, all, m, r, true, Measure::Teleop);
            lemma_roster_sum_bounds(all, all, m, r, true, Measure::Combined);
            lemma_roster_sum_bounds(all, all, m, r, false, Measure::Combined);
            lemma_contribution_bounds(r, AVERAGE_TELEOP_SCORE as int);
            let oc = roster_sum(all, all, m, r, true, Measure::Count);
            let ac = roster_sum(all, all, m, r, false, Measure::Count);
            let ot = roster_sum(all, all, m, r, true, Measure::Teleop);
            let os = roster_sum(all, all, m, r, true, Measure::Combined);
            let asum = roster_sum(all, all, m, r, false, Measure::Combined);
            let own = contribution(r, AVERAGE_TELEOP_SCORE as int);
            assert(0 <= oc * own <= 0x1_0000_0000_0000_0000_0000) by (nonlinear_arith)
                requires
                    0 <= oc <= 0xFFFF_FFFF,
                    0 <= own <= 0x1_0000_0000_0000,
            ;
            assert(0 <= share(asum, oc) <= asum) by (nonlinear_arith)
                requires
                    0 <= asum,
                    share(asum, oc) == if oc > 0 {
                        asum / oc
                    } else {
                        0
                    },
            ;
            assert(0 <= share(os, ac) <= os) by (nonlinear_arith)
                requires
                    0 <= os,
                    share(os, ac) == if ac > 0 {
                        os / ac
                    } else {
                        0
                    },
            ;
            if oc == 0 {
                assert(oc * own == 0) by (nonlinear_arith)
                    requires
                        oc == 0,
                ;
                assert(ot == 0 && os == 0);
                assert(share(os, ac) == 0);
                assert(share(asum, oc) == 0);
            }
        },
        None => {},
    }
}

/// A team's tally is within `TERM_MAX` for each of its tracked matches.
pub proof fn lemma_matchup_sum_bounds(
    all: Seq<MatchInfoView>,
    part: Seq<MatchInfoView>,
    oracle: TbaData,
    team: u32,
    what: Tally,
)
    requires
        all.len() <= MAX_RECORDS,
    ensures
        0 <= matchup_sum(all, part, oracle, team, Tally::Faced) <= part.len(),
        -0x4_0000_0000_0000_0000_0000 * matchup_sum(all, part, oracle, team, Tally::Faced)
            <= matchup_sum(all, part, oracle, team, what) <= 0x4_0000_0000_0000_0000_0000
            * matchup_sum(all, part, oracle, team, Tally::Faced),
    decreases part.len(),
{
    if part.len() > 0 {
        lemma_matchup_sum_bounds(all, part.drop_last(), oracle, team, what);
        lemma_matchup_term_bounds(all, oracle, part.last(), what);
    }
}

/// An average of defence or luck is within `TERM_MAX`.
pub proof fn lemma_matchup_average_bounds(all: Seq<MatchInfoView>, oracle: TbaData, team: u32, what: Tally)
    requires
        all.len() <= MAX_RECORDS,
    ensures
        -TERM_MAX <= matchup_average(all, oracle, team, what) <= TERM_MAX,
{
    lemma_matchup_sum_bounds(all, all, oracle, team, what);
    let n = matchup_sum(all, all, oracle, team, Tally::Faced);
    let s = matchup_sum(all, all, oracle, team, what);
    if n > 0 {
        if s >= 0 {
            assert(0 <= s / n <= 0x4_0000_0000_0000_0000_0000) by (nonlinear_arith)
                requires
                    0 <= s <= 0x4_0000_0000_0000_0000_0000 * n,
                    n > 0,
            ;
        } else {
            assert(0 <= (-s) / n <= 0x4_0000_0000_0000_0000_0000) by (nonlinear_arith)
                requires
                    0 <= -s <= 0x4_0000_0000_0000_0000_0000 * n,
                    n > 0,
            ;
        }
    }
}

/// `x` shared among `n`.
fn share_of(x: i128, n: i128) -> (q: i128)
    requires
        x >= 0,
        n >= 0,
    ensures
        q == share(x as int, n as int),
        0 <= q <= x,
{
    if n > 0 {
        assert(0 <= x as int / n as int <= x) by (nonlinear_arith)
            requires
                x >= 0,
                n > 0,
        ;
        x / n
    } else {
        0
    }
}

/// The sums over the other teams of one match that defence and luck are made
/// of.
struct RosterSums {
    opponents: i128,
    opponent_teleop: i128,
    opponent_strength: i128,
    allies: i128,
    ally_strength: i128,
}

/// Whether the averages in `basic` are those of the teams in `teams`, and
/// `teams` misses no team of the records.
pub open spec fn averages_known(
    records: Seq<MatchInfoView>,
    teams: Seq<u32>,
    basic: Seq<[i128; STAT_COUNT]>,
) -> bool {
    &&& basic.len() == teams.len()
    &&& forall|j: int|
        0 <= j < records.len() ==> teams.contains(#[trigger] records[j].team_number)
    &&& forall|k: int|
        0 <= k < teams.len() ==> (#[trigger] basic[k])[AVERAGE_AUTO_SCORE as int] == average(
            records,
            teams[k],
            AVERAGE_AUTO_SCORE as int,
        ) && basic[k][AVERAGE_TELEOP_SCORE as int] == average(
            records,
            teams[k],
            AVERAGE_TELEOP_SCORE as int,
        )
}

/// The sums over the other teams of the match of the record at `at`.
fn roster_sums(
    records: &Vec<MatchInfo>,
    teams: &Vec<u32>,
    basic: &Vec<[i128; STAT_COUNT]>,
    m: &TbaMatch,
    at: usize,
) -> (s: RosterSums)
    requires
        records.len() <= MAX_RECORDS,
        at < records.len(),
        averages_known(match_views(records@), teams@, basic@),
    ensures
        s.opponents == roster_sum(match_views(records@), match_views(records@), *m, match_views(records@)[at as int], true, Measure::Count),
        s.opponent_teleop == roster_sum(
            match_views(records@),
            match_views(records@),
            *m,
            match_views(records@)[at as int],
            true,
            Measure::Teleop,
        ),
        s.opponent_strength == roster_sum(
            match_views(records@),
            match_views(records@),
            *m,
            match_views(records@)[at as int],
            true,
            Measure::Combined,
        ),
        s.allies == roster_sum(match_views(records@), match_views(records@), *m, match_views(records@)[at as int], false, Measure::Count),
        s.ally_strength == roster_sum(
            match_views(records@),
            match_views(records@),
            *m,
            match_views(records@)[at as int],
            false,
            Measure::Combined,
        ),
{
    let team = records[at].team_number;
    let category = records[at].match_category;
    let number = records[at].match_number;
    let in_blue = position_of(&m.blue_teams, team).is_some();
    let in_red = position_of(&m.red_teams, team).is_some();
    let ghost r = match_views(records@)[at as int];
    let ghost all = match_views(records@);
    let mut s = RosterSums {
        opponents: 0,
        opponent_teleop: 0,
        opponent_strength: 0,
        allies: 0,
        ally_strength: 0,
    };
    let mut j: usize = 0;
    while j < records.len()
        invariant
            j <= records.len() <= MAX_RECORDS,
            all == match_views(records@),
            r == match_views(records@)[at as int],
            team == r.team_number,
            category == r.match_category,
            number == r.match_number,
            in_blue == m.blue_teams@.contains(team),
            in_red == m.red_teams@.contains(team),
            averages_known(match_views(records@), teams@, basic@),
            s.opponents == roster_sum(all, all.take(j as int), *m, r, true, Measure::Count),
            s.opponent_teleop == roster_sum(all, all.take(j as int), *m, r, true, Measure::Teleop),
            s.opponent_strength == roster_sum(
                all,
                all.take(j as int),
                *m,
                r,
                true,
                Measure::Combined,
            ),
            s.allies == roster_sum(all, all.take(j as int), *m, r, false, Measure::Count),
            s.ally_strength == roster_sum(
                all,
                all.take(j as int),
                *m,
                r,
                false,
                Measure::Combined,
            ),
        decreases records.len() - j,
    {
        let o = &records[j];
        let other = o.team_number;
        proof {
            assert(all.take(j + 1).drop_last() =~= all.take(j as int));
            assert(all.take(j + 1).last() == all[j as int]);
            lemma_roster_sum_bounds(all, all.take(j as int), *m, r, true, Measure::Teleop);
            lemma_roster_sum_bounds(all, all.take(j as int), *m, r, true, Measure::Combined);
            lemma_roster_sum_bounds(all, all.take(j as int), *m, r, false, Measure::Combined);
            lemma_average_bounds(all, other, AVERAGE_AUTO_SCORE as int);
            lemma_average_bounds(all, other, AVERAGE_TELEOP_SCORE as int);
        }
        if o.match_category == category && o.match_number == number && other != team {
            let against = if in_blue {
                position_of(&m.red_teams, other).is_some()
            } else if in_red {
                position_of(&m.blue_teams, other).is_some()
            } else {
                false
            };
            let with = if in_blue {
                position_of(&m.blue_teams, other).is_some()
            } else if in_red {
                position_of(&m.red_teams, other).is_some()
            } else {
                false
            };
            assert(against == is_opponent(*m, team, other));
            assert((!against && with) == is_ally(*m, team, other));
            if against || with {
                let k = match position_of(teams, other) {
                    Some(k) => k,
                    None => {
                        assert(teams@.contains(match_views(records@)[j as int].team_number));
                        0
                    },
                };
                let known = &basic[k];
                let teleop = known[AVERAGE_TELEOP_SCORE];
                let combined = known[AVERAGE_AUTO_SCORE] + teleop;
                if against {
                    s.opponents = s.opponents + 1;
                    s.opponent_teleop = s.opponent_teleop + teleop;
                    s.opponent_strength = s.opponent_strength + combined;
                } else {
                    s.allies = s.allies + 1;
                    s.ally_strength = s.ally_strength + combined;
                }
            }
        }
        j += 1;
    }
    assert(all.take(j as int) =~= all);
    s
}

/// A team's tallies over its records: the matches in which it faced a tracked
/// opponent, its defence contributions and its luck.
pub(crate) fn matchup_tallies(
    records: &Vec<MatchInfo>,
    teams: &Vec<u32>,
    basic: &Vec<[i128; STAT_COUNT]>,
    oracle: &TbaData,
    team: u32,
) -> (res: (i128, i128, i128))
    requires
        records.len() <= MAX_RECORDS,
        averages_known(match_views(records@), teams@, basic@),
    ensures
        res.0 == matchup_sum(match_views(records@), match_views(records@), *oracle, team, Tally::Faced),
        res.1 == matchup_sum(match_views(records@), match_views(records@), *oracle, team, Tally::Defence),
        res.2 == matchup_sum(match_views(records@), match_views(records@), *oracle, team, Tally::Luck),
{
    let ghost all = match_views(records@);
    let mut faced: i128 = 0;
    let mut defence: i128 = 0;
    let mut luck: i128 = 0;
    let mut i: usize = 0;
    while i < records.len()
        invariant
            i <= records.len() <= MAX_RECORDS,
            all == match_views(records@),
            averages_known(match_views(records@), teams@, basic@),
            faced == matchup_sum(all, all.take(i as int), *oracle, team, Tally::Faced),
            defence == matchup_sum(all, all.take(i as int), *oracle, team, Tally::Defence),
            luck == matchup_sum(all, all.take(i as int), *oracle, team, Tally::Luck),
        decreases records.len() - i,
    {
        let r = &records[i];
        proof {
            assert(all.take(i + 1).drop_last() =~= all.take(i as int));
            assert(all.take(i + 1).last() == all[i as int]);
            lemma_matchup_sum_bounds(all, all.take(i as int), *oracle, team, Tally::Defence);
            lemma_matchup_sum_bounds(all, all.take(i as int), *oracle, team, Tally::Luck);
            lemma_matchup_term_bounds(all, *oracle, all[i as int], Tally::Defence);
            lemma_matchup_term_bounds(all, *oracle, all[i as int], Tally::Luck);
        }
        if r.team_number == team && r.match_category == MatchType::Qualification {
            match oracle.matchup_position(r.match_category, r.match_number) {
                Some(k) => {
                    let m = &oracle.matches[k];
                    let s = roster_sums(records, teams, basic, m, i);
                    let own = contribution_of(r, AVERAGE_TELEOP_SCORE);
                    proof {
                        lemma_roster_sum_bounds(all, all, *m, all[i as int], true, Measure::Teleop);
                        lemma_roster_sum_bounds(
                            all,
                            all,
                            *m,
                            all[i as int],
                            true,
                            Measure::Combined,
                        );
                        lemma_roster_sum_bounds(
                            all,
                            all,
                            *m,
                            all[i as int],
                            false,
                            Measure::Combined,
                        );
                        assert(0 <= s.opponents * own <= 0x1_0000_0000_0000_0000_0000)
                            by (nonlinear_arith)
                            requires
                                0 <= s.opponents <= 0xFFFF_FFFF,
                                0 <= own <= 0x1_0000_0000_0000,
                        ;
                    }
                    let taken = s.opponents * own;
                    let up = share_of(s.ally_strength, s.opponents);
                    let down = share_of(s.opponent_strength, s.allies);
                    if s.opponents > 0 {
                        faced = faced + 1;
                    }
                    defence = defence + (s.opponent_teleop - taken);
                    luck = luck + (up - down);
                },
                None => {},
            }
        }
        i += 1;
    }
    assert(all.take(i as int) =~= all);
    (faced, defence, luck)
}

} // verus!
