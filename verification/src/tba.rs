//! The ranking feed: the snapshot that the statistics read, what the feed
//! sends, and how the one is made from the other.
//!
//! Ratings are in thousandths. A team key that is no team key is passed over.

use crate::data::MatchType;
use crate::team_info::{parse_team_key, team_key_number};
use crate::text::same_text;
use vstd::prelude::*;

verus! {

/// What the ranking feed reports of one team. Ratings are in thousandths.
#[derive(Debug)]
pub struct TbaTeam {
    pub team_number: u32,
    pub team_name: String,
    pub rookie_year: u32,
    pub opr: i64,
    pub dpr: i64,
    pub matches_played: u32,
    pub ranking_points: i64,
    pub wins: u32,
    pub losses: u32,
}

/// The two alliances of one match, as the ranking feed reports them.
#[derive(Debug)]
pub struct TbaMatch {
    pub match_category: MatchType,
    pub match_number: u32,
    pub blue_teams: Vec<u32>,
    pub red_teams: Vec<u32>,
}

/// A snapshot of the ranking feed. Of several entries for one team, or for one
/// match, the first counts.
#[derive(Debug)]
pub struct TbaData {
    pub teams: Vec<TbaTeam>,
    pub matches: Vec<TbaMatch>,
}

/// The position of the first entry for `team`.
pub open spec fn find_team(teams: Seq<TbaTeam>, team: u32) -> Option<int>
    decreases teams.len(),
{
    if teams.len() == 0 {
        None
    } else if find_team(teams.drop_last(), team) is Some {
        find_team(teams.drop_last(), team)
    } else if teams.last().team_number == team {
        Some(teams.len() - 1)
    } else {
        None
    }
}

/// The position of the first entry for the match `number` of `category`.
pub open spec fn find_matchup(matchups: Seq<TbaMatch>, category: MatchType, number: u32) -> Option<
    int,
>
    decreases matchups.len(),
{
    if matchups.len() == 0 {
        None
    } else if find_matchup(matchups.drop_last(), category, number) is Some {
        find_matchup(matchups.drop_last(), category, number)
    } else if matchups.last().match_category == category && matchups.last().match_number
        == number {
        Some(matchups.len() - 1)
    } else {
        None
    }
}

/// The position that `find_team` gives is of an entry for the team, and no
/// entry before it is; where it gives none, no entry is.
pub proof fn lemma_find_team(teams: Seq<TbaTeam>, team: u32)
    ensures
        find_team(teams, team) matches Some(i) ==> 0 <= i < teams.len() && teams[i].team_number
            == team && forall|j: int| 0 <= j < i ==> teams[j].team_number != team,
        find_team(teams, team) is None ==> forall|j: int|
            0 <= j < teams.len() ==> teams[j].team_number != team,
    decreases teams.len(),
{
    if teams.len() > 0 {
        let before = teams.drop_last();
        lemma_find_team(before, team);
        assert(forall|j: int| 0 <= j < before.len() ==> before[j] == teams[j]);
    }
}

/// The position that `find_matchup` gives is of an entry for the match, and
/// no entry before it is; where it gives none, no entry is.
pub proof fn lemma_find_matchup(matchups: Seq<TbaMatch>, category: MatchType, number: u32)
    ensures
        find_matchup(matchups, category, number) matches Some(i) ==> 0 <= i < matchups.len()
            && matchups[i].match_category == category && matchups[i].match_number == number
            && forall|j: int|
            0 <= j < i ==> !(matchups[j].match_category == category && matchups[j].match_number
                == number),
        find_matchup(matchups, category, number) is None ==> forall|j: int|
            0 <= j < matchups.len() ==> !(matchups[j].match_category == category
                && matchups[j].match_number == number),
    decreases matchups.len(),
{
    if matchups.len() > 0 {
        let before = matchups.drop_last();
        lemma_find_matchup(before, category, number);
        assert(forall|j: int| 0 <= j < before.len() ==> before[j] == matchups[j]);
    }
}

impl TbaData {
    /// Where the feed reports `team`, if it does.
    pub fn team_position(&self, team: u32) -> (at: Option<usize>)
        ensures
            at is Some <==> find_team(self.teams@, team) is Some,
            at matches Some(i) ==> find_team(self.teams@, team) == Some(i as int) && i
                < self.teams@.len(),
    {
        let mut i: usize = 0;
        while i < self.teams.len()
            invariant
                i <= self.teams.len(),
                find_team(self.teams@.take(i as int), team) is None,
            decreases self.teams.len() - i,
        {
            proof {
                assert(self.teams@.take(i + 1).drop_last() =~= self.teams@.take(i as int));
            }
            if self.teams[i].team_number == team {
                proof {
                    lemma_find_team(self.teams@, team);
                    lemma_find_team(self.teams@.take(i as int), team);
                    assert(forall|j: int|
                        0 <= j < i ==> self.teams@.take(i as int)[j] == self.teams@[j]);
                }
                return Some(i);
            }
            i += 1;
        }
        assert(self.teams@.take(i as int) =~= self.teams@);
        None
    }

    /// Where the feed reports the alliances of a match, if it does.
    pub fn matchup_position(&self, category: MatchType, number: u32) -> (at: Option<usize>)
        ensures
            at is Some <==> find_matchup(self.matches@, category, number) is Some,
            at matches Some(i) ==> find_matchup(self.matches@, category, number) == Some(
                i as int,
            ) && i < self.matches@.len(),
    {
        let mut i: usize = 0;
        while i < self.matches.len()
            invariant
                i <= self.matches.len(),
                find_matchup(self.matches@.take(i as int), category, number) is None,
            decreases self.matches.len() - i,
        {
            proof {
                assert(self.matches@.take(i + 1).drop_last() =~= self.matches@.take(i as int));
            }
            if self.matches[i].match_category == category && self.matches[i].match_number
                == number {
                proof {
                    lemma_find_matchup(self.matches@, category, number);
                    lemma_find_matchup(self.matches@.take(i as int), category, number);
                    assert(forall|j: int|
                        0 <= j < i ==> self.matches@.take(i as int)[j] == self.matches@[j]);
                }
                return Some(i);
            }
            i += 1;
        }
        assert(self.matches@.take(i as int) =~= self.matches@);
        None
    }
}

/// One team's rating in a list of ratings by team key.
#[derive(Debug)]
pub struct RawRating {
    pub team_key: String,
    pub rating: i64,
}

/// A team's wins and losses.
#[derive(Debug, Clone, Copy)]
pub struct RawStatusRecordData {
    pub losses: u32,
    pub wins: u32,
}

/// A team's standing in the qualification rounds. The first of `sort_orders`
/// is the average of ranking points per match.
#[derive(Debug)]
pub struct RawStatusRankingData {
    pub matches_played: u32,
    pub record: RawStatusRecordData,
    pub sort_orders: Vec<i64>,
}

/// A team's status in the qualification rounds.
#[derive(Debug)]
pub struct RawStatusQualData {
    pub ranking: RawStatusRankingData,
}

/// A team's status at the event; `qual` is missing before the team has played.
#[derive(Debug)]
pub struct RawTeamStatusData {
    pub qual: Option<RawStatusQualData>,
}

/// One team's status in a list of statuses by team key.
#[derive(Debug)]
pub struct RawTeamStatus {
    pub team_key: String,
    pub status: RawTeamStatusData,
}

/// A team of the event.
#[derive(Debug)]
pub struct RawTeamInfo {
    pub nickname: String,
    pub team_number: u32,
    pub rookie_year: u32,
}

/// One alliance of a match.
#[derive(Debug)]
pub struct RawAllianceData {
    pub score: i32,
    pub team_keys: Vec<String>,
    pub surrogate_team_keys: Vec<String>,
}

/// The two alliances of a match.
#[derive(Debug)]
pub struct RawAlliancesData {
    pub blue: RawAllianceData,
    pub red: RawAllianceData,
}

/// A match of the event.
#[derive(Debug)]
pub struct RawMatchData {
    pub comp_level: String,
    pub match_number: u32,
    pub set_number: u32,
    pub alliances: RawAlliancesData,
    pub winning_alliance: String,
    pub time: u64,
    pub predicted_time: Option<u64>,
    pub actual_time: Option<u64>,
}

/// Everything that the feed sent. A list is empty where the feed sent nothing.
#[derive(Debug)]
pub struct TbaFeed {
    pub oprs: Vec<RawRating>,
    pub dprs: Vec<RawRating>,
    pub teams: Vec<RawTeamInfo>,
    pub statuses: Vec<RawTeamStatus>,
    pub matches: Vec<RawMatchData>,
}

/// The last rating that the list gives for `team`.
pub open spec fn last_rating(ratings: Seq<RawRating>, team: u32) -> Option<i64>
    decreases ratings.len(),
{
    if ratings.len() == 0 {
        None
    } else if team_key_number(ratings.last().team_key@) == Some(team) {
        Some(ratings.last().rating)
    } else {
        last_rating(ratings.drop_last(), team)
    }
}

/// The position of the last entry for `team`.
pub open spec fn last_info(infos: Seq<RawTeamInfo>, team: u32) -> Option<int>
    decreases infos.len(),
{
    if infos.len() == 0 {
        None
    } else if infos.last().team_number == team {
        Some(infos.len() - 1)
    } else {
        last_info(infos.drop_last(), team)
    }
}

/// Whether the entry gives a standing for `team`.
pub open spec fn gives_standing(entry: RawTeamStatus, team: u32) -> bool {
    team_key_number(entry.team_key@) == Some(team) && entry.status.qual is Some
}

/// The position of the last entry that gives a standing for `team`.
pub open spec fn last_status(statuses: Seq<RawTeamStatus>, team: u32) -> Option<int>
    decreases statuses.len(),
{
    if statuses.len() == 0 {
        None
    } else if gives_standing(statuses.last(), team) {
        Some(statuses.len() - 1)
    } else {
        last_status(statuses.drop_last(), team)
    }
}

/// Whether anything that the feed sent is about `team`.
pub open spec fn mentioned(feed: TbaFeed, team: u32) -> bool {
    last_rating(feed.oprs@, team) is Some || last_rating(feed.dprs@, team) is Some || last_info(
        feed.teams@,
        team,
    ) is Some || last_status(feed.statuses@, team) is Some
}

/// The average of ranking points in a standing; zero where it is missing.
pub open spec fn ranking_points_of(ranking: RawStatusRankingData) -> i64 {
    if ranking.sort_orders@.len() > 0 {
        ranking.sort_orders@[0]
    } else {
        0
    }
}

/// Whether `entry` holds for `team` the last that the feed sent of each
/// value, and the default of each value that the feed did not send.
pub open spec fn reports(entry: TbaTeam, feed: TbaFeed, team: u32) -> bool {
    &&& entry.team_number == team
    &&& entry.opr == match last_rating(feed.oprs@, team) {
        Some(v) => v,
        None => 0,
    }
    &&& entry.dpr == match last_rating(feed.dprs@, team) {
        Some(v) => v,
        None => 0,
    }
    &&& match last_info(feed.teams@, team) {
        Some(i) => entry.team_name@ == feed.teams@[i].nickname@ && entry.rookie_year
            == feed.teams@[i].rookie_year,
        None => entry.team_name@ == Seq::<char>::empty() && entry.rookie_year == 0,
    }
    &&& match last_status(feed.statuses@, team) {
        Some(i) => {
            let ranking = feed.statuses@[i].status.qual.unwrap().ranking;
            &&& entry.matches_played == ranking.matches_played
            &&& entry.ranking_points == ranking_points_of(ranking)
            &&& entry.wins == ranking.record.wins
            &&& entry.losses == ranking.record.losses
        },
        None => entry.matches_played == 0 && entry.ranking_points == 0 && entry.wins == 0
            && entry.losses == 0,
    }
}

/// The list gives a rating for a team where one of its keys stands for the
/// team, and there only.
pub proof fn lemma_last_rating(ratings: Seq<RawRating>, team: u32)
    ensures
        last_rating(ratings, team) is Some <==> exists|i: int|
            0 <= i < ratings.len() && team_key_number(#[trigger] ratings[i].team_key@) == Some(
                team,
            ),
    decreases ratings.len(),
{
    if ratings.len() > 0 {
        let before = ratings.drop_last();
        lemma_last_rating(before, team);
        if team_key_number(ratings.last().team_key@) == Some(team) {
            assert(team_key_number(ratings[ratings.len() - 1].team_key@) == Some(team));
        } else if last_rating(before, team) is Some {
            let i = choose|i: int|
                0 <= i < before.len() && team_key_number(#[trigger] before[i].team_key@) == Some(
                    team,
                );
            assert(ratings[i] == before[i]);
        } else {
            assert forall|i: int| 0 <= i < ratings.len() implies team_key_number(
                #[trigger] ratings[i].team_key@,
            ) != Some(team) by {
                if i < before.len() {
                    assert(ratings[i] == before[i]);
                }
            }
        }
    }
}

/// The position that `last_info` gives is of an entry for the team; where it
/// gives none, no entry is.
pub proof fn lemma_last_info(infos: Seq<RawTeamInfo>, team: u32)
    ensures
        last_info(infos, team) matches Some(i) ==> 0 <= i < infos.len() && infos[i].team_number
            == team,
        last_info(infos, team) is None ==> forall|i: int|
            0 <= i < infos.len() ==> (#[trigger] infos[i]).team_number != team,
    decreases infos.len(),
{
    if infos.len() > 0 {
        let before = infos.drop_last();
        lemma_last_info(before, team);
        assert(forall|i: int| 0 <= i < before.len() ==> before[i] == infos[i]);
    }
}

/// The position that `last_status` gives is of an entry that gives a standing
/// for the team; where it gives none, no entry does.
pub proof fn lemma_last_status(statuses: Seq<RawTeamStatus>, team: u32)
    ensures
        last_status(statuses, team) matches Some(i) ==> 0 <= i < statuses.len() && gives_standing(
            statuses[i],
            team,
        ),
        last_status(statuses, team) is None ==> forall|i: int|
            0 <= i < statuses.len() ==> !gives_standing(#[trigger] statuses[i], team),
    decreases statuses.len(),
{
    if statuses.len() > 0 {
        let before = statuses.drop_last();
        lemma_last_status(before, team);
        assert(forall|i: int| 0 <= i < before.len() ==> before[i] == statuses[i]);
    }
}

/// The last rating that the list gives for a team.
fn last_rating_of(ratings: &Vec<RawRating>, team: u32) -> (found: Option<i64>)
    ensures
        found == last_rating(ratings@, team),
{
    let mut found: Option<i64> = None;
    let mut i: usize = 0;
    while i < ratings.len()
        invariant
            i <= ratings.len(),
            found == last_rating(ratings@.take(i as int), team),
        decreases ratings.len() - i,
    {
        assert(ratings@.take(i + 1).drop_last() =~= ratings@.take(i as int));
        match parse_team_key(ratings[i].team_key.as_str()) {
            Some(t) => {
                if t == team {
                    found = Some(ratings[i].rating);
                }
            },
            None => {},
        }
        i += 1;
    }
    assert(ratings@.take(i as int) =~= ratings@);
    found
}

/// The position of the last entry for a team.
fn last_info_of(infos: &Vec<RawTeamInfo>, team: u32) -> (found: Option<usize>)
    ensures
        found is Some <==> last_info(infos@, team) is Some,
        found matches Some(i) ==> last_info(infos@, team) == Some(i as int) && i < infos.len(),
{
    let mut found: Option<usize> = None;
    let mut i: usize = 0;
    while i < infos.len()
        invariant
            i <= infos.len(),
            found is Some <==> last_info(infos@.take(i as int), team) is Some,
            found matches Some(k) ==> last_info(infos@.take(i as int), team) == Some(k as int) && k
                < i,
        decreases infos.len() - i,
    {
        assert(infos@.take(i + 1).drop_last() =~= infos@.take(i as int));
        if infos[i].team_number == team {
            found = Some(i);
        }
        i += 1;
    }
    assert(infos@.take(i as int) =~= infos@);
    found
}

/// The position of the last entry that gives a standing for a team.
fn last_status_of(statuses: &Vec<RawTeamStatus>, team: u32) -> (found: Option<usize>)
    ensures
        found is Some <==> last_status(statuses@, team) is Some,
        found matches Some(i) ==> last_status(statuses@, team) == Some(i as int) && i
            < statuses.len(),
{
    let mut found: Option<usize> = None;
    let mut i: usize = 0;
    while i < statuses.len()
        invariant
            i <= statuses.len(),
            found is Some <==> last_status(statuses@.take(i as int), team) is Some,
            found matches Some(k) ==> last_status(statuses@.take(i as int), team) == Some(
                k as int,
            ) && k < i,
        decreases statuses.len() - i,
    {
        assert(statuses@.take(i + 1).drop_last() =~= statuses@.take(i as int));
        if statuses[i].status.qual.is_some() {
            match parse_team_key(statuses[i].team_key.as_str()) {
                Some(t) => {
                    if t == team {
                        found = Some(i);
                    }
                },
                None => {},
            }
        }
        i += 1;
    }
    assert(statuses@.take(i as int) =~= statuses@);
    found
}

/// What the feed sent of one team.
fn report_of(feed: &TbaFeed, team: u32) -> (entry: TbaTeam)
    ensures
        reports(entry, *feed, team),
{
    let opr = match last_rating_of(&feed.oprs, team) {
        Some(v) => v,
        None => 0,
    };
    let dpr = match last_rating_of(&feed.dprs, team) {
        Some(v) => v,
        None => 0,
    };
    let mut entry = TbaTeam {
        team_number: team,
        team_name: String::new(),
        rookie_year: 0,
        opr,
        dpr,
        matches_played: 0,
        ranking_points: 0,
        wins: 0,
        losses: 0,
    };
    match last_info_of(&feed.teams, team) {
        Some(i) => {
            entry.team_name = feed.teams[i].nickname.clone();
            entry.rookie_year = feed.teams[i].rookie_year;
        },
        None => {},
    }
    match last_status_of(&feed.statuses, team) {
        Some(i) => {
            proof {
                lemma_last_status(feed.statuses@, team);
            }
            match &feed.statuses[i].status.qual {
                Some(qual) => {
                    entry.matches_played = qual.ranking.matches_played;
                    entry.ranking_points = if qual.ranking.sort_orders.len() > 0 {
                        qual.ranking.sort_orders[0]
                    } else {
                        0
                    };
                    entry.wins = qual.ranking.record.wins;
                    entry.losses = qual.ranking.record.losses;
                },
                None => {},
            }
        },
        None => {},
    }
    entry
}

/// Whether every entry of the table holds what the feed sent of its team, and
/// the feed sent something of it.
pub open spec fn table_reports(table: Seq<TbaTeam>, feed: TbaFeed) -> bool {
    forall|k: int|
        0 <= k < table.len() ==> reports(#[trigger] table[k], feed, table[k].team_number)
            && mentioned(feed, table[k].team_number)
}

/// An entry at the end of a table hides no entry before it.
pub proof fn lemma_find_team_push(table: Seq<TbaTeam>, entry: TbaTeam, team: u32)
    ensures
        find_team(table, team) is Some ==> find_team(table.push(entry), team) == find_team(
            table,
            team,
        ),
        find_team(table, team) is None && entry.team_number == team ==> find_team(
            table.push(entry),
            team,
        ) == Some(table.len() as int),
{
    assert(table.push(entry).drop_last() =~= table);
}

/// Adds what the feed sent of `team` to the table, unless the table has it.
fn note_team(table: &mut Vec<TbaTeam>, feed: &TbaFeed, team: u32)
    requires
        table_reports(old(table)@, *feed),
        mentioned(*feed, team),
    ensures
        table_reports(final(table)@, *feed),
        find_team(final(table)@, team) is Some,
        forall|t: u32|
            find_team(old(table)@, t) is Some ==> find_team(final(table)@, t) is Some,
{
    let ghost before = table@;
    let mut i: usize = 0;
    while i < table.len()
        invariant
            i <= table.len(),
            table@ == before,
            table_reports(table@, *feed),
            find_team(table@.take(i as int), team) is None,
        decreases table.len() - i,
    {
        assert(table@.take(i + 1).drop_last() =~= table@.take(i as int));
        if table[i].team_number == team {
            proof {
                lemma_find_team(table@, team);
            }
            return ;
        }
        i += 1;
    }
    assert(table@.take(i as int) =~= table@);
    let entry = report_of(feed, team);
    table.push(entry);
    proof {
        assert forall|t: u32| find_team(before, t) is Some implies find_team(table@, t) is Some by {
            lemma_find_team_push(before, entry, t);
        }
        lemma_find_team_push(before, entry, team);
        assert forall|k: int| 0 <= k < table@.len() implies reports(
            #[trigger] table@[k],
            *feed,
            table@[k].team_number,
        ) && mentioned(*feed, table@[k].team_number) by {
            if k < before.len() {
                assert(table@[k] == before[k]);
            }
        }
    }
}

/// The table of teams that the statistics read: for each team that the feed
/// sent anything of, the last of each value.
pub fn team_table(feed: &TbaFeed) -> (table: Vec<TbaTeam>)
    ensures
        forall|team: u32|
            match #[trigger] find_team(table@, team) {
                Some(k) => mentioned(*feed, team) && reports(table@[k], *feed, team),
                None => !mentioned(*feed, team),
            },
{
    let mut table: Vec<TbaTeam> = Vec::new();
    let mut i: usize = 0;
    while i < feed.oprs.len()
        invariant
            i <= feed.oprs.len(),
            table_reports(table@, *feed),
            forall|j: int|
                0 <= j < i ==> (team_key_number(#[trigger] feed.oprs@[j].team_key@) matches Some(
                    t,
                ) ==> find_team(table@, t) is Some),
        decreases feed.oprs.len() - i,
    {
        match parse_team_key(feed.oprs[i].team_key.as_str()) {
            Some(t) => {
                proof {
                    lemma_last_rating(feed.oprs@, t);
                }
                note_team(&mut table, feed, t);
            },
            None => {},
        }
        i += 1;
    }
    let mut i: usize = 0;
    while i < feed.dprs.len()
        invariant
            i <= feed.dprs.len(),
            table_reports(table@, *feed),
            forall|j: int|
                0 <= j < feed.oprs.len() ==> (team_key_number(
                    #[trigger] feed.oprs@[j].team_key@,
                ) matches Some(t) ==> find_team(table@, t) is Some),
            forall|j: int|
                0 <= j < i ==> (team_key_number(#[trigger] feed.dprs@[j].team_key@) matches Some(
                    t,
                ) ==> find_team(table@, t) is Some),
        decreases feed.dprs.len() - i,
    {
        match parse_team_key(feed.dprs[i].team_key.as_str()) {
            Some(t) => {
                proof {
                    lemma_last_rating(feed.dprs@, t);
                }
                note_team(&mut table, feed, t);
            },
            None => {},
        }
        i += 1;
    }
    let mut i: usize = 0;
    while i < feed.teams.len()
        invariant
            i <= feed.teams.len(),
            table_reports(table@, *feed),
            forall|j: int|
                0 <= j < feed.oprs.len() ==> (team_key_number(
                    #[trigger] feed.oprs@[j].team_key@,
                ) matches Some(t) ==> find_team(table@, t) is Some),
            forall|j: int|
                0 <= j < feed.dprs.len() ==> (team_key_number(
                    #[trigger] feed.dprs@[j].team_key@,
                ) matches Some(t) ==> find_team(table@, t) is Some),
            forall|j: int|
                0 <= j < i ==> find_team(table@, (#[trigger] feed.teams@[j]).team_number) is Some,
        decreases feed.teams.len() - i,
    {
        proof {
            lemma_last_info(feed.teams@, feed.teams@[i as int].team_number);
        }
        note_team(&mut table, feed, feed.teams[i].team_number);
        i += 1;
    }
    let mut i: usize = 0;
    while i < feed.statuses.len()
        invariant
            i <= feed.statuses.len(),
            table_reports(table@, *feed),
            forall|j: int|
                0 <= j < feed.oprs.len() ==> (team_key_number(
                    #[trigger] feed.oprs@[j].team_key@,
                ) matches Some(t) ==> find_team(table@, t) is Some),
            forall|j: int|
                0 <= j < feed.dprs.len() ==> (team_key_number(
                    #[trigger] feed.dprs@[j].team_key@,
                ) matches Some(t) ==> find_team(table@, t) is Some),
            forall|j: int|
                0 <= j < feed.teams.len() ==> find_team(
                    table@,
                    (#[trigger] feed.teams@[j]).team_number,
                ) is Some,
            forall|j: int|
                0 <= j < i ==> (forall|t: u32|
                    gives_standing(#[trigger] feed.statuses@[j], t) ==> find_team(table@, t)
                        is Some),
        decreases feed.statuses.len() - i,
    {
        if feed.statuses[i].status.qual.is_some() {
            match parse_team_key(feed.statuses[i].team_key.as_str()) {
                Some(t) => {
                    proof {
                        lemma_last_status(feed.statuses@, t);
                    }
                    note_team(&mut table, feed, t);
                },
                None => {},
            }
        }
        i += 1;
    }
    proof {
        assert forall|team: u32|
            match #[trigger] find_team(table@, team) {
                Some(k) => mentioned(*feed, team) && reports(table@[k], *feed, team),
                None => !mentioned(*feed, team),
            } by {
            lemma_find_team(table@, team);
            lemma_last_rating(feed.oprs@, team);
            lemma_last_rating(feed.dprs@, team);
            lemma_last_info(feed.teams@, team);
            lemma_last_status(feed.statuses@, team);
        }
    }
    table
}

/// The category of a match by the level that the feed gives it: none for the
/// playoff levels, whose matches no scout records.
pub open spec fn level_category(level: Seq<char>) -> Option<MatchType> {
    if level == "qf"@ || level == "sf"@ || level == "f"@ {
        None
    } else if level == "qm"@ {
        Some(MatchType::Qualification)
    } else {
        Some(MatchType::Practice)
    }
}

/// The category of a match by the level that the feed gives it.
pub fn level_category_of(level: &str) -> (category: Option<MatchType>)
    ensures
        category == level_category(level@),
{
    if same_text(level, "qf") || same_text(level, "sf") || same_text(level, "f") {
        None
    } else if same_text(level, "qm") {
        Some(MatchType::Qualification)
    } else {
        Some(MatchType::Practice)
    }
}

/// Whether `raw` is the match `number` of `category`.
pub open spec fn is_match(raw: RawMatchData, category: MatchType, number: u32) -> bool {
    level_category(raw.comp_level@) == Some(category) && raw.match_number == number
}

/// The position of the last entry for the match `number` of `category`.
pub open spec fn last_raw_match(raws: Seq<RawMatchData>, category: MatchType, number: u32) -> Option<
    int,
>
    decreases raws.len(),
{
    if raws.len() == 0 {
        None
    } else if is_match(raws.last(), category, number) {
        Some(raws.len() - 1)
    } else {
        last_raw_match(raws.drop_last(), category, number)
    }
}

/// The team numbers that the team keys stand for, in their order.
pub open spec fn key_numbers(keys: Seq<String>) -> Seq<u32>
    decreases keys.len(),
{
    if keys.len() == 0 {
        Seq::empty()
    } else {
        match team_key_number(keys.last()@) {
            Some(t) => key_numbers(keys.drop_last()).push(t),
            None => key_numbers(keys.drop_last()),
        }
    }
}

/// The teams of an alliance, surrogates last.
pub open spec fn alliance_numbers(alliance: RawAllianceData) -> Seq<u32> {
    key_numbers(alliance.team_keys@) + key_numbers(alliance.surrogate_team_keys@)
}

/// Whether `entry` holds the alliances of `raw`.
pub open spec fn converts(entry: TbaMatch, raw: RawMatchData) -> bool {
    entry.blue_teams@ == alliance_numbers(raw.alliances.blue) && entry.red_teams@
        == alliance_numbers(raw.alliances.red)
}

/// The position that `last_raw_match` gives is of an entry for the match;
/// where it gives none, no entry is.
pub proof fn lemma_last_raw_match(raws: Seq<RawMatchData>, category: MatchType, number: u32)
    ensures
        last_raw_match(raws, category, number) matches Some(i) ==> 0 <= i < raws.len() && is_match(
            raws[i],
            category,
            number,
        ),
        last_raw_match(raws, category, number) is None ==> forall|i: int|
            0 <= i < raws.len() ==> !is_match(#[trigger] raws[i], category, number),
    decreases raws.len(),
{
    if raws.len() > 0 {
        let before = raws.drop_last();
        lemma_last_raw_match(before, category, number);
        assert(forall|i: int| 0 <= i < before.len() ==> before[i] == raws[i]);
    }
}

/// Adds to `out` the team numbers that the team keys stand for.
fn add_key_numbers(out: &mut Vec<u32>, keys: &Vec<String>)
    ensures
        final(out)@ == old(out)@ + key_numbers(keys@),
{
    let ghost before = out@;
    let mut i: usize = 0;
    assert(keys@.take(0) =~= Seq::empty());
    assert(before + Seq::<u32>::empty() =~= before);
    while i < keys.len()
        invariant
            i <= keys.len(),
            out@ == before + key_numbers(keys@.take(i as int)),
        decreases keys.len() - i,
    {
        assert(keys@.take(i + 1).drop_last() =~= keys@.take(i as int));
        let ghost done = key_numbers(keys@.take(i as int));
        match parse_team_key(keys[i].as_str()) {
            Some(t) => {
                out.push(t);
                assert(out@ =~= before + done.push(t));
            },
            None => {},
        }
        i += 1;
    }
    assert(keys@.take(i as int) =~= keys@);
}

/// The teams of an alliance, surrogates last.
pub fn alliance_numbers_of(alliance: &RawAllianceData) -> (teams: Vec<u32>)
    ensures
        teams@ == alliance_numbers(*alliance),
{
    let mut teams: Vec<u32> = Vec::new();
    add_key_numbers(&mut teams, &alliance.team_keys);
    add_key_numbers(&mut teams, &alliance.surrogate_team_keys);
    assert(teams@ =~= alliance_numbers(*alliance));
    teams
}

/// The position of the last entry for a match.
fn last_raw_match_of(raws: &Vec<RawMatchData>, category: MatchType, number: u32) -> (found: Option<
    usize,
>)
    ensures
        found is Some <==> last_raw_match(raws@, category, number) is Some,
        found matches Some(i) ==> last_raw_match(raws@, category, number) == Some(i as int) && i
            < raws.len(),
{
    let mut found: Option<usize> = None;
    let mut i: usize = 0;
    while i < raws.len()
        invariant
            i <= raws.len(),
            found is Some <==> last_raw_match(raws@.take(i as int), category, number) is Some,
            found matches Some(k) ==> last_raw_match(raws@.take(i as int), category, number)
                == Some(k as int) && k < i,
        decreases raws.len() - i,
    {
        assert(raws@.take(i + 1).drop_last() =~= raws@.take(i as int));
        if raws[i].match_number == number {
            match level_category_of(raws[i].comp_level.as_str()) {
                Some(c) => {
                    if c == category {
                        found = Some(i);
                    }
                },
                None => {},
            }
        }
        i += 1;
    }
    assert(raws@.take(i as int) =~= raws@);
    found
}

/// Whether every entry of the table holds the alliances that the feed sent
/// last for its match.
pub open spec fn table_converts(table: Seq<TbaMatch>, raws: Seq<RawMatchData>) -> bool {
    forall|k: int|
        0 <= k < table.len() ==> (last_raw_match(
            raws,
            (#[trigger] table[k]).match_category,
            table[k].match_number,
        ) matches Some(j) && converts(table[k], raws[j]))
}

/// An entry at the end of a table hides no entry before it.
pub proof fn lemma_find_matchup_push(
    table: Seq<TbaMatch>,
    entry: TbaMatch,
    category: MatchType,
    number: u32,
)
    ensures
        find_matchup(table, category, number) is Some ==> find_matchup(
            table.push(entry),
            category,
            number,
        ) == find_matchup(table, category, number),
        find_matchup(table, category, number) is None && entry.match_category == category
            && entry.match_number == number ==> find_matchup(table.push(entry), category, number)
            == Some(table.len() as int),
{
    assert(table.push(entry).drop_last() =~= table);
}

/// Adds the alliances of a match to the table, unless the table has them.
fn note_matchup(table: &mut Vec<TbaMatch>, raws: &Vec<RawMatchData>, category: MatchType, number: u32)
    requires
        table_converts(old(table)@, raws@),
        last_raw_match(raws@, category, number) is Some,
    ensures
        table_converts(final(table)@, raws@),
        find_matchup(final(table)@, category, number) is Some,
        forall|c: MatchType, n: u32|
            find_matchup(old(table)@, c, n) is Some ==> find_matchup(final(table)@, c, n) is Some,
{
    let ghost before = table@;
    let mut i: usize = 0;
    while i < table.len()
        invariant
            i <= table.len(),
            table@ == before,
            table_converts(table@, raws@),
            find_matchup(table@.take(i as int), category, number) is None,
        decreases table.len() - i,
    {
        assert(table@.take(i + 1).drop_last() =~= table@.take(i as int));
        if table[i].match_category == category && table[i].match_number == number {
            proof {
                lemma_find_matchup(table@, category, number);
            }
            return ;
        }
        i += 1;
    }
    assert(table@.take(i as int) =~= table@);
    match last_raw_match_of(raws, category, number) {
        Some(j) => {
            let entry = TbaMatch {
                match_category: category,
                match_number: number,
                blue_teams: alliance_numbers_of(&raws[j].alliances.blue),
                red_teams: alliance_numbers_of(&raws[j].alliances.red),
            };
            table.push(entry);
            proof {
                assert forall|c: MatchType, n: u32|
                    find_matchup(before, c, n) is Some implies find_matchup(table@, c, n)
                    is Some by {
                    lemma_find_matchup_push(before, entry, c, n);
                }
                lemma_find_matchup_push(before, entry, category, number);
                assert forall|k: int| 0 <= k < table@.len() implies (last_raw_match(
                    raws@,
                    (#[trigger] table@[k]).match_category,
                    table@[k].match_number,
                ) matches Some(j) && converts(table@[k], raws@[j])) by {
                    if k < before.len() {
                        assert(table@[k] == before[k]);
                    }
                }
            }
        },
        None => {},
    }
}

/// The table of alliances that the statistics read: for each match that the
/// feed sent below the playoff levels, the alliances that it sent last.
pub fn matchup_table(raws: &Vec<RawMatchData>) -> (table: Vec<TbaMatch>)
    ensures
        forall|category: MatchType, number: u32|
            match #[trigger] find_matchup(table@, category, number) {
                Some(k) => last_raw_match(raws@, category, number) matches Some(j) && converts(
                    table@[k],
                    raws@[j],
                ),
                None => last_raw_match(raws@, category, number) is None,
            },
{
    let mut table: Vec<TbaMatch> = Vec::new();
    let mut i: usize = 0;
    while i < raws.len()
        invariant
            i <= raws.len(),
            table_converts(table@, raws@),
            forall|j: int|
                0 <= j < i ==> (level_category((#[trigger] raws@[j]).comp_level@) matches Some(c)
                    ==> find_matchup(table@, c, raws@[j].match_number) is Some),
        decreases raws.len() - i,
    {
        match level_category_of(raws[i].comp_level.as_str()) {
            Some(c) => {
                proof {
                    lemma_last_raw_match(raws@, c, raws@[i as int].match_number);
                }
                note_matchup(&mut table, raws, c, raws[i].match_number);
            },
            None => {},
        }
        i += 1;
    }
    proof {
        assert forall|category: MatchType, number: u32|
            match #[trigger] find_matchup(table@, category, number) {
                Some(k) => last_raw_match(raws@, category, number) matches Some(j) && converts(
                    table@[k],
                    raws@[j],
                ),
                None => last_raw_match(raws@, category, number) is None,
            } by {
            lemma_find_matchup(table@, category, number);
            lemma_last_raw_match(raws@, category, number);
        }
    }
    table
}

/// The snapshot of the feed that the statistics read.
pub fn get_tba_data(feed: &TbaFeed) -> (data: TbaData)
    ensures
        forall|team: u32|
            match #[trigger] find_team(data.teams@, team) {
                Some(k) => mentioned(*feed, team) && reports(data.teams@[k], *feed, team),
                None => !mentioned(*feed, team),
            },
        forall|category: MatchType, number: u32|
            match #[trigger] find_matchup(data.matches@, category, number) {
                Some(k) => last_raw_match(feed.matches@, category, number) matches Some(j)
                    && converts(data.matches@[k], feed.matches@[j]),
                None => last_raw_match(feed.matches@, category, number) is None,
            },
{
    TbaData { teams: team_table(feed), matches: matchup_table(&feed.matches) }
}

} // verus!
