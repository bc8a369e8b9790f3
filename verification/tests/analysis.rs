use automated_scout::analysis::{analyze, analyze_checked, team_numbers, TeamInfo};
use automated_scout::averages::div_trunc_of;
use automated_scout::scoring::{
    contribution_of, points_of, AVERAGE_AUTO_CONE_SCORE, AVERAGE_AUTO_HIGH_CONE_SCORE,
    AVERAGE_AUTO_HIGH_SCORE, AVERAGE_AUTO_SCORE, AVERAGE_CHAOS, AVERAGE_CONE_SCORE,
    AVERAGE_CONFIDENCE, AVERAGE_CUBE_SCORE, AVERAGE_DEFENCE_SCORE, AVERAGE_HIGH_SCORE,
    AVERAGE_LUCK_SCORE, AVERAGE_PIT_PEOPLE, AVERAGE_TELEOP_HIGH_CUBE_SCORE,
    AVERAGE_TELEOP_MIDDLE_SCORE, AVERAGE_TELEOP_SCORE, CHARGE_STATION_AUTO_CHARGED,
    CHARGE_STATION_AUTO_OFF, CHARGE_STATION_AUTO_ON, CHARGE_STATION_AUTO_OTHER,
    CHARGE_STATION_TELEOP_CHARGED, CHARGE_STATION_TELEOP_OFF, CHARGE_STATION_TELEOP_ON,
    CHARGE_STATION_TELEOP_PARKED, DPR, OPR, OVERALL_DEFENCE, OVERALL_SPEED, OVERALL_STABILITY,
    RANKING_POINTS, STAT_COUNT,
};
use automated_scout::tba::{TbaData, TbaMatch, TbaTeam};
use automated_scout::data::{
    Auto, AutoChargeStation, BumperType, ConfidenceLevel, MatchInfo, MatchType, Pit, Robot,
    RobotInfo, Teleop, TeleopChargeStation,
};

fn record(number: u32, team: u32) -> MatchInfo {
    MatchInfo {
        match_number: number,
        match_category: MatchType::Qualification,
        team_number: team,
        auto: Auto::default(),
        teleop: Teleop::default(),
        speed: 0,
        stability: 0,
        defence: None,
        is_primary_defence: false,
        was_broken: false,
        was_disabled: false,
        notes: String::new(),
        last_modified_time: 1650316000001,
    }
}

fn teleop_high_cubes(number: u32, team: u32, cubes: u32) -> MatchInfo {
    let mut r = record(number, team);
    r.teleop.high_cube_scored = cubes;
    r
}

fn visit(team: u32, number: u32) -> RobotInfo {
    RobotInfo {
        visit_number: number,
        team_number: team,
        pit: Pit::default(),
        robot: Robot::default(),
        images: Vec::new(),
        last_modified_time: 1650316000001,
    }
}

fn no_oracle() -> TbaData {
    TbaData { teams: Vec::new(), matches: Vec::new() }
}

fn matchup(number: u32, blue: Vec<u32>, red: Vec<u32>) -> TbaMatch {
    TbaMatch {
        match_category: MatchType::Qualification,
        match_number: number,
        blue_teams: blue,
        red_teams: red,
    }
}

fn row_of(rows: &[TeamInfo], team: u32) -> &TeamInfo {
    rows.iter().find(|r| r.team_number == team).unwrap()
}

#[test]
fn two_high_pieces_in_auto_average_twelve_points() {
    let mut r = record(1, 100);
    r.auto.high_cone_scored = 2;
    let rows = analyze(&vec![r], &Vec::new(), &no_oracle());
    assert_eq!(rows.len(), 2);
    let team = row_of(&rows, 100);
    assert_eq!(team.matches, 1);
    assert_eq!(team.stats[AVERAGE_AUTO_SCORE], 12000);
    assert_eq!(team.stats[AVERAGE_AUTO_HIGH_SCORE], 12000);
    assert_eq!(team.stats[AVERAGE_AUTO_HIGH_CONE_SCORE], 12000);
    assert_eq!(team.stats[AVERAGE_AUTO_CONE_SCORE], 12000);
    assert_eq!(team.stats[AVERAGE_HIGH_SCORE], 12000);
    assert_eq!(team.stats[AVERAGE_CONE_SCORE], 12000);
    assert_eq!(team.stats[AVERAGE_CUBE_SCORE], 0);
    assert_eq!(team.stats[AVERAGE_TELEOP_SCORE], 0);
    assert_eq!(team.stats[CHARGE_STATION_AUTO_OFF], 1000);
    assert_eq!(team.stats[CHARGE_STATION_TELEOP_OFF], 1000);
    assert_eq!(team.stats[OVERALL_SPEED], 1000);
    assert_eq!(team.stats[OVERALL_STABILITY], 1000);
    assert_eq!(team.stats[OVERALL_DEFENCE], 0);
}

#[test]
fn every_scoring_rule_has_its_points() {
    let mut r = record(1, 1);
    r.auto = Auto {
        exited_tarmac: true,
        auto_charge_station: AutoChargeStation::Charged,
        hybrid_cube_scored: 1,
        hybrid_cone_scored: 2,
        middle_cube_scored: 3,
        middle_cone_scored: 4,
        high_cube_scored: 5,
        high_cone_scored: 6,
    };
    r.teleop = Teleop {
        hybrid_cube_scored: 7,
        hybrid_cone_scored: 8,
        middle_cube_scored: 9,
        middle_cone_scored: 10,
        high_cube_scored: 11,
        high_cone_scored: 12,
        parked: false,
        teleop_charge_station: TeleopChargeStation::On,
    };
    // 3 * 3 + 4 * 7 + 6 * 11 + 3 + 12
    assert_eq!(points_of(&r, AVERAGE_AUTO_SCORE), 118);
    // 2 * 15 + 3 * 19 + 5 * 23 + 6
    assert_eq!(points_of(&r, AVERAGE_TELEOP_SCORE), 208);
    // 3 * 2 + 4 * 4 + 6 * 6
    assert_eq!(points_of(&r, AVERAGE_AUTO_CONE_SCORE), 58);
    assert_eq!(points_of(&r, AVERAGE_TELEOP_MIDDLE_SCORE), 57);
    assert_eq!(points_of(&r, AVERAGE_TELEOP_HIGH_CUBE_SCORE), 55);
    // cones: 58 in auto, 2 * 8 + 3 * 10 + 5 * 12 afterwards
    assert_eq!(points_of(&r, AVERAGE_CONE_SCORE), 164);
    // cubes: 3 + 12 + 30 in auto, 14 + 27 + 55 afterwards
    assert_eq!(points_of(&r, AVERAGE_CUBE_SCORE), 141);
    assert_eq!(points_of(&r, CHARGE_STATION_AUTO_CHARGED), 1);
    assert_eq!(points_of(&r, CHARGE_STATION_AUTO_ON), 0);
    assert_eq!(points_of(&r, CHARGE_STATION_TELEOP_ON), 1);
    assert_eq!(points_of(&r, CHARGE_STATION_TELEOP_CHARGED), 0);
    assert_eq!(contribution_of(&r, AVERAGE_AUTO_SCORE), 118000);

    let mut docked = record(1, 1);
    docked.auto.auto_charge_station = AutoChargeStation::On;
    docked.teleop.teleop_charge_station = TeleopChargeStation::Charged;
    assert_eq!(points_of(&docked, AVERAGE_AUTO_SCORE), 8);
    assert_eq!(points_of(&docked, AVERAGE_TELEOP_SCORE), 10);
    let mut parked = record(1, 1);
    parked.auto.auto_charge_station = AutoChargeStation::OtherRobot;
    parked.teleop.teleop_charge_station = TeleopChargeStation::Parked;
    assert_eq!(points_of(&parked, AVERAGE_AUTO_SCORE), 0);
    assert_eq!(points_of(&parked, AVERAGE_TELEOP_SCORE), 2);
    assert_eq!(points_of(&parked, CHARGE_STATION_AUTO_OTHER), 1);
    assert_eq!(points_of(&parked, CHARGE_STATION_TELEOP_PARKED), 1);
}

#[test]
fn averages_divide_by_the_number_of_matches_and_round_toward_zero() {
    let mut a = record(1, 7);
    a.auto.hybrid_cube_scored = 1;
    a.speed = 2000;
    a.stability = 500;
    a.defence = Some(3000);
    let mut b = record(2, 7);
    b.auto.hybrid_cube_scored = 1;
    b.auto.auto_charge_station = AutoChargeStation::On;
    b.speed = 4000;
    let mut c = record(3, 7);
    c.auto.middle_cone_scored = 1;
    c.auto.auto_charge_station = AutoChargeStation::OtherRobot;
    c.defence = Some(0);
    let rows = analyze(&vec![a, b, c], &Vec::new(), &no_oracle());
    let team = row_of(&rows, 7);
    assert_eq!(team.matches, 3);
    // 3 + 11 + 4 points over three matches
    assert_eq!(team.stats[AVERAGE_AUTO_SCORE], 6000);
    // 3 + 3 + 0 points of hybrid cubes over three matches
    assert_eq!(team.stats[AVERAGE_CUBE_SCORE], 2000);
    // 4 points of cones over three matches: 1333.33
    assert_eq!(team.stats[AVERAGE_CONE_SCORE], 1333);
    assert_eq!(team.stats[CHARGE_STATION_AUTO_OFF], 333);
    assert_eq!(team.stats[CHARGE_STATION_AUTO_ON], 333);
    assert_eq!(team.stats[CHARGE_STATION_AUTO_OTHER], 333);
    assert_eq!(team.stats[CHARGE_STATION_AUTO_CHARGED], 0);
    // ratings of 2, 4 and 0, each raised by one
    assert_eq!(team.stats[OVERALL_SPEED], 3000);
    assert_eq!(team.stats[OVERALL_STABILITY], 1166);
    // the match without a defence rating is left out: (4 + 1) / 2
    assert_eq!(team.stats[OVERALL_DEFENCE], 2500);
}

#[test]
fn a_team_without_matches_has_averages_of_zero() {
    let mut first = visit(200, 1);
    first.robot.bumper_type = Some(BumperType::Swap);
    first.pit.pit_people = Some(3);
    first.pit.chaos = Some(1);
    let mut second = visit(200, 2);
    second.robot.bumper_type = Some(BumperType::Reversable);
    second.pit.pit_people = Some(6);
    second.pit.confidence_level = Some(ConfidenceLevel::Confident);
    let rows = analyze(&Vec::new(), &vec![second, first], &no_oracle());
    assert_eq!(rows.len(), 2);
    let team = row_of(&rows, 200);
    assert_eq!(team.matches, 0);
    for f in 0..40 {
        assert_eq!(team.stats[f], 0);
    }
    assert_eq!(team.stats[AVERAGE_DEFENCE_SCORE], 0);
    assert_eq!(team.stats[AVERAGE_LUCK_SCORE], 0);
    // what the team claims is what it said at visit 2; what it said first, at visit 1
    assert_eq!(team.original.unwrap().bumper_type, Some(BumperType::Swap));
    assert_eq!(team.claimed.unwrap().bumper_type, Some(BumperType::Reversable));
    assert_eq!(team.stats[AVERAGE_PIT_PEOPLE], 4500);
    assert_eq!(team.stats[AVERAGE_CHAOS], 1000);
    assert_eq!(team.stats[AVERAGE_CONFIDENCE], 3000);
    // no team has a match: the average team is all zero
    let average = row_of(&rows, 0);
    for f in 0..STAT_COUNT {
        assert_eq!(average.stats[f], 0);
    }
    assert_eq!(average.matches, 0);
}

#[test]
fn a_team_with_one_visit_claims_what_it_said_then() {
    let mut only = visit(9, 4);
    only.robot.battery_amount = Some(5);
    let rows = analyze(&vec![record(1, 9)], &vec![only, visit(8, 1)], &no_oracle());
    let team = row_of(&rows, 9);
    assert_eq!(team.original.unwrap().battery_amount, Some(5));
    assert_eq!(team.claimed.unwrap().battery_amount, Some(5));
    assert_eq!(team.stats[AVERAGE_PIT_PEOPLE], 0);
    assert!(row_of(&rows, 8).original.is_some());
    let unvisited = analyze(&vec![record(1, 9)], &Vec::new(), &no_oracle());
    assert!(row_of(&unvisited, 9).original.is_none());
    assert!(row_of(&unvisited, 9).claimed.is_none());
}

#[test]
fn defence_is_the_opponents_average_less_the_own_score() {
    let records = vec![teleop_high_cubes(5, 100, 4), teleop_high_cubes(5, 150, 3)];
    let oracle = TbaData { teams: Vec::new(), matches: vec![matchup(5, vec![100], vec![150])] };
    let rows = analyze(&records, &Vec::new(), &oracle);
    assert_eq!(row_of(&rows, 100).stats[AVERAGE_TELEOP_SCORE], 20000);
    assert_eq!(row_of(&rows, 150).stats[AVERAGE_TELEOP_SCORE], 15000);
    assert_eq!(row_of(&rows, 100).stats[AVERAGE_DEFENCE_SCORE], -5000);
    assert_eq!(row_of(&rows, 150).stats[AVERAGE_DEFENCE_SCORE], 5000);
    assert_eq!(row_of(&rows, 100).stats[AVERAGE_LUCK_SCORE], 0);
}

#[test]
fn luck_rises_with_the_allies_and_falls_with_the_opponents() {
    let mut third = record(7, 3);
    third.teleop.middle_cube_scored = 2;
    let records = vec![teleop_high_cubes(7, 1, 2), teleop_high_cubes(7, 2, 4), third];
    let oracle = TbaData { teams: Vec::new(), matches: vec![matchup(7, vec![1, 2], vec![3])] };
    let rows = analyze(&records, &Vec::new(), &oracle);
    // team 1: ally 2 scores 20 on average, opponent 3 scores 6
    assert_eq!(row_of(&rows, 1).stats[AVERAGE_LUCK_SCORE], 14000);
    assert_eq!(row_of(&rows, 1).stats[AVERAGE_DEFENCE_SCORE], -4000);
    assert_eq!(row_of(&rows, 2).stats[AVERAGE_LUCK_SCORE], 4000);
    assert_eq!(row_of(&rows, 2).stats[AVERAGE_DEFENCE_SCORE], -14000);
    // team 3 faces two opponents and has no ally
    assert_eq!(row_of(&rows, 3).stats[AVERAGE_LUCK_SCORE], 0);
    assert_eq!(row_of(&rows, 3).stats[AVERAGE_DEFENCE_SCORE], 18000);
}

#[test]
fn matches_without_a_matchup_do_not_count_for_defence() {
    let mut practice = teleop_high_cubes(5, 100, 4);
    practice.match_category = MatchType::Practice;
    let mut practice_other = teleop_high_cubes(5, 150, 3);
    practice_other.match_category = MatchType::Practice;
    let records =
        vec![practice, practice_other, teleop_high_cubes(6, 100, 1), teleop_high_cubes(6, 150, 1)];
    let mut practice_matchup = matchup(5, vec![100], vec![150]);
    practice_matchup.match_category = MatchType::Practice;
    let oracle = TbaData {
        teams: Vec::new(),
        matches: vec![practice_matchup, matchup(6, vec![100, 150], vec![9])],
    };
    let rows = analyze(&records, &Vec::new(), &oracle);
    // match 5 is a practice match, and in match 6 the two are allies
    assert_eq!(row_of(&rows, 100).stats[AVERAGE_DEFENCE_SCORE], 0);
    assert_eq!(row_of(&rows, 150).stats[AVERAGE_DEFENCE_SCORE], 0);
    assert_eq!(row_of(&rows, 100).stats[AVERAGE_LUCK_SCORE], 0);
}

#[test]
fn defence_is_averaged_over_the_matches_with_an_opponent() {
    let records = vec![
        teleop_high_cubes(1, 10, 1),
        teleop_high_cubes(1, 20, 2),
        teleop_high_cubes(2, 10, 3),
        teleop_high_cubes(2, 20, 2),
        teleop_high_cubes(3, 10, 2),
    ];
    let oracle = TbaData {
        teams: Vec::new(),
        matches: vec![
            matchup(1, vec![10], vec![20]),
            matchup(2, vec![20], vec![10]),
            matchup(3, vec![10], vec![20]),
        ],
    };
    let rows = analyze(&records, &Vec::new(), &oracle);
    // team 20 averages 10; team 10 scored 5 and 15 against it, and met nobody in match 3
    assert_eq!(row_of(&rows, 20).stats[AVERAGE_TELEOP_SCORE], 10000);
    assert_eq!(row_of(&rows, 10).stats[AVERAGE_DEFENCE_SCORE], 0);
    // team 10 averages 10 as well; team 20 scored 10 twice
    assert_eq!(row_of(&rows, 10).stats[AVERAGE_TELEOP_SCORE], 10000);
    assert_eq!(row_of(&rows, 20).stats[AVERAGE_DEFENCE_SCORE], 0);
    assert_eq!(div_trunc_of(-1333, 2), -666);
    assert_eq!(div_trunc_of(1333, 2), 666);
    assert_eq!(div_trunc_of(-5000, 1), -5000);
    assert_eq!(div_trunc_of(0, 3), 0);
}

#[test]
fn the_oracle_fills_in_what_it_knows() {
    let oracle = TbaData {
        teams: vec![
            TbaTeam {
                team_number: 100,
                team_name: "Hundred".to_string(),
                rookie_year: 2001,
                opr: 12500,
                dpr: -3250,
                matches_played: 9,
                ranking_points: 2250,
                wins: 6,
                losses: 3,
            },
            TbaTeam {
                team_number: 100,
                team_name: "Shadow".to_string(),
                rookie_year: 1,
                opr: 1,
                dpr: 1,
                matches_played: 1,
                ranking_points: 1,
                wins: 1,
                losses: 1,
            },
        ],
        matches: Vec::new(),
    };
    let rows = analyze(&vec![record(1, 100), record(1, 101)], &Vec::new(), &oracle);
    let known = row_of(&rows, 100);
    assert_eq!(known.team_name.as_deref(), Some("Hundred"));
    assert_eq!(known.team_rookie_year, Some(2001));
    assert_eq!(known.stats[OPR], 12500);
    assert_eq!(known.stats[DPR], -3250);
    assert_eq!(known.stats[RANKING_POINTS], 2250);
    assert_eq!(known.win_count, 6);
    assert_eq!(known.loss_count, 3);
    assert_eq!(known.matches, 1);
    let unknown = row_of(&rows, 101);
    assert_eq!(unknown.team_name, None);
    assert_eq!(unknown.team_rookie_year, None);
    assert_eq!(unknown.stats[OPR], 0);
    assert_eq!(unknown.win_count, 0);
    // the average team: the mean over both teams, rounded toward zero
    let average = row_of(&rows, 0);
    assert_eq!(average.stats[OPR], 6250);
    assert_eq!(average.stats[DPR], -1625);
    assert_eq!(average.stats[RANKING_POINTS], 1125);
    assert_eq!(average.win_count, 3);
    assert_eq!(average.loss_count, 1);
    assert_eq!(average.matches, 1);
}

#[test]
fn the_average_team_is_the_mean_of_the_teams_with_a_match() {
    let records = vec![
        teleop_high_cubes(1, 10, 2),
        teleop_high_cubes(2, 10, 4),
        teleop_high_cubes(1, 20, 1),
        teleop_high_cubes(1, 30, 0),
    ];
    let rows = analyze(&records, &vec![visit(40, 1)], &no_oracle());
    assert_eq!(rows.len(), 5);
    let average = row_of(&rows, 0);
    for f in 0..STAT_COUNT {
        let sum: i128 = rows
            .iter()
            .filter(|r| r.team_number != 0 && r.matches >= 1)
            .map(|r| r.stats[f])
            .sum();
        assert_eq!(average.stats[f], sum / 3);
    }
    // averages of 15, 5 and 0 points over three teams; team 40 has no match
    assert_eq!(average.stats[AVERAGE_TELEOP_SCORE], 6666);
    assert_eq!(average.matches, 1);
    assert_eq!(average.team_name, None);
}

#[test]
fn the_list_falls_by_combined_score_and_keeps_the_order_of_ties() {
    let mut strong = record(1, 30);
    strong.auto.high_cone_scored = 3;
    strong.teleop.high_cone_scored = 3;
    let records = vec![
        teleop_high_cubes(1, 10, 1),
        teleop_high_cubes(1, 20, 1),
        strong,
        teleop_high_cubes(1, 40, 0),
        teleop_high_cubes(1, 50, 1),
    ];
    let rows = analyze(&records, &vec![visit(60, 1)], &no_oracle());
    let order: Vec<u32> = rows.iter().map(|r| r.team_number).collect();
    // scores: 5, 5, 33, 0, 5, and 0 for team 60; the average team has 48 / 5 = 9.6
    assert_eq!(order, vec![30, 0, 10, 20, 50, 40, 60]);
    for pair in rows.windows(2) {
        let before = pair[0].stats[AVERAGE_AUTO_SCORE] + pair[0].stats[AVERAGE_TELEOP_SCORE];
        let after = pair[1].stats[AVERAGE_AUTO_SCORE] + pair[1].stats[AVERAGE_TELEOP_SCORE];
        assert!(before >= after);
    }
    assert_eq!(rows[1].stats[AVERAGE_TELEOP_SCORE], 6000);
    assert_eq!(rows[1].stats[AVERAGE_AUTO_SCORE], 3600);
    assert_eq!(rows[0].combined_score(), 33000);
}

#[test]
fn teams_come_in_the_order_of_their_first_appearance() {
    let records = vec![record(1, 5), record(2, 3), record(3, 5), record(4, 9)];
    let visits = vec![visit(3, 1), visit(2, 1), visit(9, 1), visit(2, 2)];
    assert_eq!(team_numbers(&records, &visits), vec![5, 3, 9, 2]);
    assert_eq!(team_numbers(&Vec::new(), &Vec::new()), Vec::<u32>::new());
}

#[test]
fn an_empty_snapshot_yields_the_average_team_alone() {
    let rows = analyze_checked(&Vec::new(), &Vec::new(), &no_oracle()).unwrap();
    assert_eq!(rows.len(), 1);
    assert_eq!(rows[0].team_number, 0);
    assert_eq!(rows[0].matches, 0);
    let blank = TeamInfo::new(17);
    assert_eq!(blank.team_number, 17);
    assert_eq!(blank.stats, [0; STAT_COUNT]);
    assert_eq!(blank.team_name, None);
}

#[test]
fn claimed_capabilities_are_the_latest_and_original_ones_the_earliest() {
    let mut first = visit(200, 1);
    first.robot.bumper_type = Some(BumperType::Swap);
    first.robot.battery_amount = Some(2);
    first.robot.balance_time = None;
    let mut second = visit(200, 2);
    second.robot.bumper_type = Some(BumperType::Reversable);
    second.robot.battery_amount = Some(8);
    second.robot.balance_time = Some(4);
    for visits in [vec![visit(200, 1), visit(200, 2)], vec![visit(200, 2), visit(200, 1)]] {
        let mut visits = visits;
        for v in visits.iter_mut() {
            let from = if v.visit_number == 1 { &first } else { &second };
            v.robot = from.robot.clone();
        }
        let rows = analyze(&vec![record(3, 200)], &visits, &no_oracle());
        let team = row_of(&rows, 200);
        let original = team.original.unwrap();
        let claimed = team.claimed.unwrap();
        assert_eq!(original.bumper_type, Some(BumperType::Swap));
        assert_eq!(original.battery_amount, Some(2));
        assert_eq!(original.balance_time, None);
        assert_eq!(claimed.bumper_type, Some(BumperType::Reversable));
        assert_eq!(claimed.battery_amount, Some(8));
        assert_eq!(claimed.balance_time, Some(4));
    }
}
