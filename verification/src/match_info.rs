//! One qualification match in full: its alliances as the ranking feed knows
//! them, and for each team what a scout recorded of it in that match.

use crate::database::{match_listing, present, Database, DatabaseError};
use crate::data::{match_views, MatchInfo, MatchInfoView, MatchType};
use crate::tba::{alliance_numbers, alliance_numbers_of, RawMatchData};
use crate::team_info::parse_team_key;
use vstd::prelude::*;

verus! {

/// A match with the scouted records of its teams.
#[derive(Debug)]
pub struct FullMatchInfo {
    pub time: u64,
    pub blue_teams: Vec<(u32, Option<MatchInfo>)>,
    pub red_teams: Vec<(u32, Option<MatchInfo>)>,
    pub blue_score: i32,
    pub red_score: i32,
}

/// The team number that a team key stands for.
pub fn team_key_to_number(team_key: &str) -> (team: u32)
    requires
        crate::team_info::team_key_number(team_key@) is Some,
    ensures
        crate::team_info::team_key_number(team_key@) == Some(team),
{
    match parse_team_key(team_key) {
        Some(team) => team,
        None => 0,
    }
}

/// Whether a record is the qualification record of `team` in match `number`.
pub open spec fn is_scouted(r: MatchInfoView, number: u32, team: u32) -> bool {
    r.match_category == MatchType::Qualification && r.match_number == number && r.team_number
        == team
}

/// The position of the last qualification record of `team` in match `number`.
pub open spec fn scouted_at(records: Seq<MatchInfoView>, number: u32, team: u32) -> Option<int>
    decreases records.len(),
{
    if records.len() == 0 {
        None
    } else if is_scouted(records.last(), number, team) {
        Some(records.len() - 1)
    } else {
        scouted_at(records.drop_last(), number, team)
    }
}

/// The record that is handed out for `team` in match `number`: the scouted
/// one, unless one was asked for before. A record is handed out once.
pub open spec fn attach(
    records: Seq<MatchInfoView>,
    served: Seq<(u32, u32)>,
    number: u32,
    team: u32,
) -> Option<MatchInfoView> {
    if served.contains((number, team)) {
        None
    } else {
        match scouted_at(records, number, team) {
            Some(i) => Some(records[i]),
            None => None,
        }
    }
}

/// The teams of one match as pairs of match and team.
pub open spec fn pairs(number: u32, teams: Seq<u32>) -> Seq<(u32, u32)> {
    Seq::new(teams.len(), |k: int| (number, teams[k]))
}

/// The teams of an alliance, each with the record that is handed out for it.
/// The teams are served in their order, after those in `served`.
pub open spec fn line_up(
    records: Seq<MatchInfoView>,
    served: Seq<(u32, u32)>,
    number: u32,
    teams: Seq<u32>,
) -> Seq<(u32, Option<MatchInfoView>)> {
    Seq::new(
        teams.len(),
        |k: int| (teams[k], attach(records, served + pairs(number, teams.take(k)), number, teams[k])),
    )
}

/// A line-up as a mathematical value.
pub open spec fn line_up_views(list: Seq<(u32, Option<MatchInfo>)>) -> Seq<
    (u32, Option<MatchInfoView>),
> {
    Seq::new(
        list.len(),
        |k: int|
            (
                list[k].0,
                match list[k].1 {
                    Some(r) => Some(r@),
                    None => None,
                },
            ),
    )
}

/// When a match was played: the actual time where the feed knows it, else
/// the predicted time, else the scheduled time.
pub open spec fn match_time(raw: RawMatchData) -> u64 {
    match raw.actual_time {
        Some(t) => t,
        None => match raw.predicted_time {
            Some(t) => t,
            None => raw.time,
        },
    }
}

/// When a match was played.
pub fn match_time_of(raw: &RawMatchData) -> (time: u64)
    ensures
        time == match_time(*raw),
{
    match raw.actual_time {
        Some(t) => t,
        None => match raw.predicted_time {
            Some(t) => t,
            None => raw.time,
        },
    }
}

/// Whether a pair was served.
fn was_served(served: &Vec<(u32, u32)>, number: u32, team: u32) -> (found: bool)
    ensures
        found == served@.contains((number, team)),
{
    let mut i: usize = 0;
    while i < served.len()
        invariant
            i <= served.len(),
            forall|j: int| 0 <= j < i ==> served@[j] != (number, team),
        decreases served.len() - i,
    {
        if served[i].0 == number && served[i].1 == team {
            assert(served@[i as int] == (number, team));
            return true;
        }
        i += 1;
    }
    false
}

/// A copy of the last qualification record of `team` in match `number`.
fn scouted_record(records: &Vec<MatchInfo>, number: u32, team: u32) -> (found: Option<MatchInfo>)
    ensures
        match found {
            Some(r) => scouted_at(match_views(records@), number, team) matches Some(i) && r@
                == match_views(records@)[i],
            None => scouted_at(match_views(records@), number, team) is None,
        },
{
    let mut at: Option<usize> = None;
    let mut i: usize = 0;
    while i < records.len()
        invariant
            i <= records.len(),
            at is Some <==> scouted_at(match_views(records@).take(i as int), number, team) is Some,
            at matches Some(k) ==> k < i && scouted_at(match_views(records@).take(i as int), number, team)
                == Some(k as int),
        decreases records.len() - i,
    {
        assert(match_views(records@).take(i + 1).drop_last() =~= match_views(records@).take(i as int));
        let r = &records[i];
        if r.match_category == MatchType::Qualification && r.match_number == number
            && r.team_number == team {
            at = Some(i);
        }
        i += 1;
    }
    assert(match_views(records@).take(i as int) =~= match_views(records@));
    match at {
        Some(k) => Some(records[k].clone()),
        None => None,
    }
}

/// The teams of an alliance, each with the record that is handed out for it.
pub fn line_up_of(
    records: &Vec<MatchInfo>,
    served: &mut Vec<(u32, u32)>,
    number: u32,
    teams: &Vec<u32>,
) -> (list: Vec<(u32, Option<MatchInfo>)>)
    ensures
        line_up_views(list@) == line_up(match_views(records@), old(served)@, number, teams@),
        final(served)@ == old(served)@ + pairs(number, teams@),
{
    let ghost before = served@;
    let mut list: Vec<(u32, Option<MatchInfo>)> = Vec::new();
    let mut k: usize = 0;
    assert(before + pairs(number, teams@.take(0)) =~= before);
    while k < teams.len()
        invariant
            k <= teams.len(),
            served@ == before + pairs(number, teams@.take(k as int)),
            list@.len() == k,
            forall|j: int|
                0 <= j < k ==> line_up_views(list@)[j] == #[trigger] line_up(
                    match_views(records@),
                    before,
                    number,
                    teams@,
                )[j],
        decreases teams.len() - k,
    {
        let team = teams[k];
        let record = if was_served(served, number, team) {
            None
        } else {
            scouted_record(records, number, team)
        };
        let ghost earlier = list@;
        assert((match record {
            Some(r) => Some(r@),
            None => None,
        }) == attach(match_views(records@), served@, number, team));
        list.push((team, record));
        served.push((number, team));
        proof {
            assert(pairs(number, teams@.take(k + 1)) =~= pairs(number, teams@.take(k as int)).push(
                (number, team),
            ));
            assert(served@ =~= before + pairs(number, teams@.take(k + 1)));
            assert forall|j: int| 0 <= j < k + 1 implies line_up_views(list@)[j]
                == #[trigger] line_up(match_views(records@), before, number, teams@)[j] by {
                if j < k {
                    assert(list@[j] == earlier[j]);
                    assert(line_up_views(earlier)[j] == line_up(match_views(records@), before, number, teams@)[j]);
                }
            }
        }
        k += 1;
    }
    assert(teams@.take(k as int) =~= teams@);
    assert(line_up_views(list@) =~= line_up(match_views(records@), before, number, teams@));
    list
}

/// Whether `full` is the match `raw` with the scouted records of its teams.
/// The blue alliance is served first.
pub open spec fn shows_full_match(
    full: FullMatchInfo,
    records: Seq<MatchInfoView>,
    raw: RawMatchData,
) -> bool {
    let blue = alliance_numbers(raw.alliances.blue);
    let red = alliance_numbers(raw.alliances.red);
    &&& full.time == match_time(raw)
    &&& line_up_views(full.blue_teams@) == line_up(records, Seq::empty(), raw.match_number, blue)
    &&& line_up_views(full.red_teams@) == line_up(
        records,
        pairs(raw.match_number, blue),
        raw.match_number,
        red,
    )
    &&& full.blue_score == raw.alliances.blue.score
    &&& full.red_score == raw.alliances.red.score
}

/// The match that the feed sent, with the scouted records of its teams from
/// the records of a snapshot; nothing where the feed sent nothing.
pub fn match_page(records: &Vec<MatchInfo>, fetched: Option<RawMatchData>) -> (info: Option<
    FullMatchInfo,
>)
    ensures
        info is Some <==> fetched is Some,
        (info, fetched) matches (Some(full), Some(raw)) ==> shows_full_match(
            full,
            match_views(records@),
            raw,
        ),
{
    match fetched {
        Some(raw) => {
            let mut served: Vec<(u32, u32)> = Vec::new();
            let blue = alliance_numbers_of(&raw.alliances.blue);
            let red = alliance_numbers_of(&raw.alliances.red);
            let blue_teams = line_up_of(records, &mut served, raw.match_number, &blue);
            assert(served@ =~= pairs(raw.match_number, blue@));
            let red_teams = line_up_of(records, &mut served, raw.match_number, &red);
            Some(
                FullMatchInfo {
                    time: match_time_of(&raw),
                    blue_teams,
                    red_teams,
                    blue_score: raw.alliances.blue.score,
                    red_score: raw.alliances.red.score,
                },
            )
        },
        None => None,
    }
}

/// The match that the feed sent, with the scouted records of its teams from
/// what a store holds; nothing where the feed sent nothing. Fails where the
/// backend fails.
pub fn get_match_info(database: &Database, fetched: Option<RawMatchData>) -> (res: Result<
    Option<FullMatchInfo>,
    DatabaseError,
>)
    ensures
        res matches Ok(info) ==> (info is Some <==> fetched is Some),
        (res, fetched) matches (Ok(Some(full)), Some(raw)) ==> shows_full_match(
            full,
            present(match_listing(database@)),
            raw,
        ),
        res matches Err(e) ==> e is Sled,
{
    match database.snapshot() {
        Ok(snapshot) => Ok(match_page(&snapshot.matches, fetched)),
        Err(e) => Err(e),
    }
}

} // verus!
