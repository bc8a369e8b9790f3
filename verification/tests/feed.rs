use automated_scout::data::MatchType;
use automated_scout::tba::{
    alliance_numbers_of, get_tba_data, level_category_of, RawAllianceData, RawAlliancesData,
    RawMatchData, RawRating, RawStatusQualData, RawStatusRankingData, RawStatusRecordData,
    RawTeamInfo, RawTeamStatus, RawTeamStatusData, TbaData, TbaFeed,
};
use automated_scout::team_info::{parse_team_key, team_key_to_number};

fn rating(key: &str, value: i64) -> RawRating {
    RawRating { team_key: key.to_string(), rating: value }
}

fn alliance(keys: &[&str], surrogates: &[&str]) -> RawAllianceData {
    RawAllianceData {
        score: 0,
        team_keys: keys.iter().map(|k| k.to_string()).collect(),
        surrogate_team_keys: surrogates.iter().map(|k| k.to_string()).collect(),
    }
}

fn raw_match(level: &str, number: u32, blue: RawAllianceData, red: RawAllianceData) -> RawMatchData {
    RawMatchData {
        comp_level: level.to_string(),
        match_number: number,
        set_number: 1,
        alliances: RawAlliancesData { blue, red },
        winning_alliance: String::new(),
        time: 0,
        predicted_time: None,
        actual_time: None,
    }
}

fn standing(key: &str, played: u32, wins: u32, losses: u32, orders: Vec<i64>) -> RawTeamStatus {
    RawTeamStatus {
        team_key: key.to_string(),
        status: RawTeamStatusData {
            qual: Some(RawStatusQualData {
                ranking: RawStatusRankingData {
                    matches_played: played,
                    record: RawStatusRecordData { losses, wins },
                    sort_orders: orders,
                },
            }),
        },
    }
}

fn empty_feed() -> TbaFeed {
    TbaFeed {
        oprs: Vec::new(),
        dprs: Vec::new(),
        teams: Vec::new(),
        statuses: Vec::new(),
        matches: Vec::new(),
    }
}

fn team_of(data: &TbaData, team: u32) -> Option<usize> {
    data.team_position(team)
}

#[test]
fn team_keys_stand_for_team_numbers() {
    assert_eq!(parse_team_key("frc254"), Some(254));
    assert_eq!(team_key_to_number("frc254"), 254);
    assert_eq!(parse_team_key("frc0"), Some(0));
    assert_eq!(parse_team_key("frc007"), Some(7));
    assert_eq!(parse_team_key("1114"), Some(1114));
    assert_eq!(parse_team_key("frc4294967295"), Some(4294967295));
    assert_eq!(parse_team_key("frc4294967296"), None);
    assert_eq!(parse_team_key("frc99999999999999999999"), None);
    assert_eq!(parse_team_key("frc"), None);
    assert_eq!(parse_team_key(""), None);
    assert_eq!(parse_team_key("frc12b"), None);
    assert_eq!(parse_team_key("frc-5"), None);
    assert_eq!(parse_team_key("frc 5"), None);
    assert_eq!(parse_team_key("team5"), None);
    // every `frc` is taken out, wherever it stands, and a plus sign may lead
    assert_eq!(parse_team_key("frcfrc12"), Some(12));
    assert_eq!(parse_team_key("1frc2"), Some(12));
    assert_eq!(parse_team_key("ffrcrc12"), None);
    assert_eq!(parse_team_key("frc+12"), Some(12));
    assert_eq!(parse_team_key("+"), None);
    assert_eq!(parse_team_key("frc\u{663}"), None);
}

#[test]
fn team_keys_agree_with_the_standard_library() {
    for key in ["frc254", "254", "+5", "frc", "frcfrc12", "12frc", "frc1x", "frc4294967296", "f", "fr", "frrc9"] {
        let expected = key.replace("frc", "").parse::<u32>().ok();
        assert_eq!(parse_team_key(key), expected);
    }
}

#[test]
fn levels_map_to_categories() {
    assert_eq!(level_category_of("qm"), Some(MatchType::Qualification));
    assert_eq!(level_category_of("qf"), None);
    assert_eq!(level_category_of("sf"), None);
    assert_eq!(level_category_of("f"), None);
    assert_eq!(level_category_of("ef"), Some(MatchType::Practice));
    assert_eq!(level_category_of("p"), Some(MatchType::Practice));
    assert_eq!(level_category_of(""), Some(MatchType::Practice));
    assert_eq!(level_category_of("QM"), Some(MatchType::Practice));
}

#[test]
fn an_alliance_lists_its_teams_then_its_surrogates() {
    let a = alliance(&["frc1", "oops", "frc22"], &["frc333"]);
    assert_eq!(alliance_numbers_of(&a), vec![1, 22, 333]);
    assert_eq!(alliance_numbers_of(&alliance(&[], &[])), Vec::<u32>::new());
}

#[test]
fn an_empty_feed_reports_nothing() {
    let data = get_tba_data(&empty_feed());
    assert_eq!(data.teams.len(), 0);
    assert_eq!(data.matches.len(), 0);
}

#[test]
fn the_last_value_of_each_kind_is_reported() {
    let mut feed = empty_feed();
    feed.oprs = vec![rating("frc10", 1000), rating("bad", 5), rating("frc20", 2000), rating("frc10", 1500)];
    feed.dprs = vec![rating("frc30", -700)];
    feed.teams = vec![
        RawTeamInfo { nickname: "Ten".to_string(), team_number: 10, rookie_year: 1999 },
        RawTeamInfo { nickname: "Forty".to_string(), team_number: 40, rookie_year: 2020 },
    ];
    feed.statuses = vec![
        standing("frc10", 8, 5, 3, vec![2125, 7]),
        RawTeamStatus { team_key: "frc50".to_string(), status: RawTeamStatusData { qual: None } },
        standing("frc60", 1, 0, 1, Vec::new()),
    ];
    let data = get_tba_data(&feed);
    let numbers: Vec<u32> = data.teams.iter().map(|t| t.team_number).collect();
    assert_eq!(numbers, vec![10, 20, 30, 40, 60]);
    let ten = &data.teams[team_of(&data, 10).unwrap()];
    assert_eq!(ten.opr, 1500);
    assert_eq!(ten.dpr, 0);
    assert_eq!(ten.team_name, "Ten");
    assert_eq!(ten.rookie_year, 1999);
    assert_eq!(ten.matches_played, 8);
    assert_eq!(ten.ranking_points, 2125);
    assert_eq!(ten.wins, 5);
    assert_eq!(ten.losses, 3);
    let thirty = &data.teams[team_of(&data, 30).unwrap()];
    assert_eq!(thirty.opr, 0);
    assert_eq!(thirty.dpr, -700);
    assert_eq!(thirty.team_name, "");
    assert_eq!(thirty.rookie_year, 0);
    let sixty = &data.teams[team_of(&data, 60).unwrap()];
    assert_eq!(sixty.matches_played, 1);
    assert_eq!(sixty.ranking_points, 0);
    assert_eq!(sixty.losses, 1);
    assert_eq!(team_of(&data, 50), None);
    assert_eq!(team_of(&data, 5), None);
}

#[test]
fn the_last_alliances_of_each_match_are_reported() {
    let mut feed = empty_feed();
    feed.matches = vec![
        raw_match("qm", 1, alliance(&["frc1", "frc2"], &[]), alliance(&["frc3"], &["frc4"])),
        raw_match("qf", 1, alliance(&["frc9"], &[]), alliance(&["frc8"], &[])),
        raw_match("ef", 1, alliance(&["frc5"], &[]), alliance(&["frc6"], &[])),
        raw_match("qm", 2, alliance(&["frc1"], &[]), alliance(&["frc2"], &[])),
        raw_match("qm", 1, alliance(&["frc7"], &[]), alliance(&["frc3"], &[])),
    ];
    let data = get_tba_data(&feed);
    assert_eq!(data.matches.len(), 3);
    let first = &data.matches[data.matchup_position(MatchType::Qualification, 1).unwrap()];
    assert_eq!(first.blue_teams, vec![7]);
    assert_eq!(first.red_teams, vec![3]);
    let second = &data.matches[data.matchup_position(MatchType::Qualification, 2).unwrap()];
    assert_eq!(second.blue_teams, vec![1]);
    let other = &data.matches[data.matchup_position(MatchType::Practice, 1).unwrap()];
    assert_eq!(other.blue_teams, vec![5]);
    assert_eq!(other.red_teams, vec![6]);
    assert_eq!(data.matchup_position(MatchType::Practice, 2), None);
    assert_eq!(data.matchup_position(MatchType::Qualification, 3), None);
}
