use automated_scout::data::{Auto, Info, MatchInfo, MatchType, Pit, Robot, RobotInfo, Teleop};
use automated_scout::database::{Database, COMP_START};
use automated_scout::ingest::{accept_batch, push_data, Submitted};
use automated_scout::match_info::match_page;
use automated_scout::matches::{get_match_data, match_code_of, Match};
use automated_scout::tba::{RawAllianceData, RawAlliancesData, RawMatchData};
use automated_scout::team_info::{
    colour_of_team, team_key_of, team_page, team_visits_of, AllianceColour, RawMediaInfo,
};

fn record(number: u32, category: MatchType, team: u32, notes: &str) -> MatchInfo {
    MatchInfo {
        match_number: number,
        match_category: category,
        team_number: team,
        auto: Auto::default(),
        teleop: Teleop::default(),
        speed: 0,
        stability: 0,
        defence: None,
        is_primary_defence: false,
        was_broken: false,
        was_disabled: false,
        notes: notes.to_string(),
        last_modified_time: COMP_START + 1,
    }
}

fn visit(team: u32, number: u32, images: &[&str]) -> RobotInfo {
    RobotInfo {
        visit_number: number,
        team_number: team,
        pit: Pit::default(),
        robot: Robot::default(),
        images: images.iter().map(|i| i.to_string()).collect(),
        last_modified_time: COMP_START + 1,
    }
}

fn alliance(score: i32, keys: &[&str], surrogates: &[&str]) -> RawAllianceData {
    RawAllianceData {
        score,
        team_keys: keys.iter().map(|k| k.to_string()).collect(),
        surrogate_team_keys: surrogates.iter().map(|k| k.to_string()).collect(),
    }
}

fn raw_match(number: u32, blue: RawAllianceData, red: RawAllianceData) -> RawMatchData {
    RawMatchData {
        comp_level: "qm".to_string(),
        match_number: number,
        set_number: 1,
        alliances: RawAlliancesData { blue, red },
        winning_alliance: "blue".to_string(),
        time: 100,
        predicted_time: None,
        actual_time: None,
    }
}

fn notes_of(list: &[(u32, Option<MatchInfo>)]) -> Vec<(u32, Option<String>)> {
    list.iter().map(|(t, r)| (*t, r.as_ref().map(|m| m.notes.clone()))).collect()
}

#[test]
fn match_codes_name_level_set_and_number() {
    assert_eq!(match_code_of(Match::Qualifier(12)), "qm12");
    assert_eq!(match_code_of(Match::Qualifier(0)), "qm0");
    assert_eq!(match_code_of(Match::SemiFinals(2, 1)), "sf2m1");
    assert_eq!(match_code_of(Match::QuarterFinals(4, 3)), "qf4m3");
    assert_eq!(match_code_of(Match::Finals(255)), "f1m255");
}

#[test]
fn match_data_holds_the_alliances_as_numbers() {
    assert!(get_match_data(None).is_none());
    let raw = raw_match(7, alliance(30, &["frc1", "frc2"], &["frc3"]), alliance(20, &["frc4"], &[]));
    let data = get_match_data(Some(raw)).unwrap();
    assert_eq!(data.comp_level, "qm");
    assert_eq!(data.match_number, 7);
    assert_eq!(data.set_number, 1);
    assert_eq!(data.alliances.blue.teams, vec![1, 2, 3]);
    assert_eq!(data.alliances.red.teams, vec![4]);
    assert_eq!(data.winning_alliance, "blue");
}

#[test]
fn a_match_shows_the_scouted_record_of_each_team_once() {
    let records = vec![
        record(7, MatchType::Qualification, 1, "first of one"),
        record(7, MatchType::Practice, 2, "practice"),
        record(7, MatchType::Qualification, 1, "second of one"),
        record(8, MatchType::Qualification, 4, "other match"),
        record(7, MatchType::Qualification, 4, "four"),
    ];
    assert!(match_page(&records, None).is_none());
    let mut raw = raw_match(7, alliance(30, &["frc1", "frc2"], &["frc1"]), alliance(20, &["frc4", "frc1"], &[]));
    raw.predicted_time = Some(150);
    let full = match_page(&records, Some(raw)).unwrap();
    assert_eq!(full.time, 150);
    assert_eq!(full.blue_score, 30);
    assert_eq!(full.red_score, 20);
    assert_eq!(
        notes_of(&full.blue_teams),
        vec![(1, Some("second of one".to_string())), (2, None), (1, None)]
    );
    assert_eq!(notes_of(&full.red_teams), vec![(4, Some("four".to_string())), (1, None)]);
    let mut played = raw_match(7, alliance(0, &[], &[]), alliance(0, &[], &[]));
    played.predicted_time = Some(150);
    played.actual_time = Some(175);
    assert_eq!(match_page(&records, Some(played)).unwrap().time, 175);
    let scheduled = raw_match(7, alliance(0, &[], &[]), alliance(0, &[], &[]));
    assert_eq!(match_page(&records, Some(scheduled)).unwrap().time, 100);
}

#[test]
fn team_keys_are_written_with_the_number() {
    assert_eq!(team_key_of(254), "frc254");
    assert_eq!(team_key_of(0), "frc0");
    assert_eq!(team_key_of(4294967295), "frc4294967295");
    let raw = raw_match(1, alliance(0, &["frc25", "frc254"], &["frc9"]), alliance(0, &["frc2"], &[]));
    assert_eq!(colour_of_team(&raw, 254), AllianceColour::Blue);
    assert_eq!(colour_of_team(&raw, 25), AllianceColour::Blue);
    assert_eq!(colour_of_team(&raw, 2), AllianceColour::Red);
    // a surrogate is not named by the team keys, and a stranger counts as red
    assert_eq!(colour_of_team(&raw, 9), AllianceColour::Red);
    assert_eq!(colour_of_team(&raw, 5), AllianceColour::Red);
}

#[test]
fn visits_come_by_rising_number_and_keep_the_order_of_ties() {
    let visits = vec![
        visit(5, 3, &["c"]),
        visit(6, 1, &["x"]),
        visit(5, 1, &["a"]),
        visit(5, 3, &["d"]),
        visit(5, 2, &["b"]),
        visit(5, 1, &["a2"]),
    ];
    let sorted = team_visits_of(&visits, 5);
    let order: Vec<(u32, String)> =
        sorted.iter().map(|v| (v.visit_number, v.images[0].clone())).collect();
    assert_eq!(
        order,
        vec![
            (1, "a".to_string()),
            (1, "a2".to_string()),
            (2, "b".to_string()),
            (3, "c".to_string()),
            (3, "d".to_string()),
        ]
    );
    assert!(team_visits_of(&visits, 7).is_empty());
}

#[test]
fn a_team_page_holds_visits_pictures_and_matches() {
    let records = vec![
        record(1, MatchType::Qualification, 5, "five in one"),
        record(1, MatchType::Qualification, 6, "six in one"),
        record(2, MatchType::Qualification, 5, "five in two"),
    ];
    let visits = vec![visit(5, 2, &["late.jpeg"]), visit(9, 1, &["nine.jpeg"]), visit(5, 1, &["early.jpeg", "side.jpeg"])];
    let media = vec![
        RawMediaInfo { direct_url: "plain".to_string(), preferred: false },
        RawMediaInfo { direct_url: "best".to_string(), preferred: true },
        RawMediaInfo { direct_url: "plain two".to_string(), preferred: false },
        RawMediaInfo { direct_url: "second best".to_string(), preferred: true },
    ];
    let fetched = vec![
        raw_match(1, alliance(10, &["frc5"], &[]), alliance(12, &["frc6"], &[])),
        raw_match(2, alliance(3, &["frc6"], &[]), alliance(4, &["frc5"], &[])),
        raw_match(1, alliance(1, &["frc5"], &[]), alliance(2, &["frc6"], &[])),
    ];
    let info = team_page(&records, &visits, 5, &media, &fetched);
    assert_eq!(info.team_number, 5);
    let numbers: Vec<u32> = info.pit_visits.iter().map(|v| v.visit_number).collect();
    assert_eq!(numbers, vec![1, 2]);
    assert_eq!(
        info.images,
        vec!["early.jpeg", "side.jpeg", "late.jpeg", "best", "second best", "plain", "plain two"]
    );
    assert_eq!(info.matches.len(), 3);
    assert_eq!(info.matches[0].alliance, AllianceColour::Blue);
    assert_eq!(info.matches[0].time, 100);
    assert_eq!(info.matches[0].blue_score, 10);
    assert_eq!(info.matches[0].red_score, 12);
    assert_eq!(notes_of(&info.matches[0].blue_teams), vec![(5, Some("five in one".to_string()))]);
    assert_eq!(notes_of(&info.matches[0].red_teams), vec![(6, Some("six in one".to_string()))]);
    assert_eq!(info.matches[1].alliance, AllianceColour::Red);
    assert_eq!(notes_of(&info.matches[1].blue_teams), vec![(6, None)]);
    assert_eq!(notes_of(&info.matches[1].red_teams), vec![(5, Some("five in two".to_string()))]);
    // the records of match 1 were handed out already
    assert_eq!(notes_of(&info.matches[2].blue_teams), vec![(5, None)]);
    assert_eq!(notes_of(&info.matches[2].red_teams), vec![(6, None)]);
    let empty = team_page(&records, &visits, 77, &Vec::new(), &Vec::new());
    assert!(empty.pit_visits.is_empty());
    assert!(empty.images.is_empty());
    assert!(empty.matches.is_empty());
}

#[test]
fn a_record_is_exported_as_one_line() {
    let mut r = record(5, MatchType::Qualification, 100, "fast\ncycles, \"tippy\"");
    r.auto.exited_tarmac = true;
    r.auto.high_cone_scored = 2;
    r.teleop.middle_cube_scored = 11;
    r.teleop.parked = true;
    r.speed = 2500;
    r.stability = 3000;
    r.defence = Some(1250);
    r.is_primary_defence = true;
    r.was_broken = true;
    assert_eq!(
        r.write_csv_line(),
        "5,Qualification,100,true,Off,0,0,0,0,0,2,0,0,11,0,0,0,true,Off,2.5,3,1.25,true,false,\"fast  cycles, \"tippy\"\"\n"
    );
    let mut blank = record(1, MatchType::Practice, 2, "");
    blank.speed = 1;
    blank.stability = 4010;
    assert_eq!(
        blank.write_csv_line(),
        "1,Practice,2,false,Off,0,0,0,0,0,0,0,0,0,0,0,0,false,Off,0.001,4.01,N/A,false,false,\"\"\n"
    );
    assert!(MatchInfo::HEADER.starts_with("match_number,match_category,team,"));
    assert!(MatchInfo::HEADER.ends_with(",was_disabled,notes\n"));
    let csv = automated_scout::csv::get_csv(&vec![r.clone(), blank.clone()]);
    assert_eq!(
        csv,
        format!("{}{}{}", MatchInfo::HEADER, r.write_csv_line(), blank.write_csv_line())
    );
    assert_eq!(automated_scout::csv::get_csv(&Vec::new()), MatchInfo::HEADER);
}

#[test]
fn a_submitted_batch_is_read_tagged_first_then_bare() {
    let t = COMP_START + 1;
    let entries = vec![
        Submitted {
            tagged: Some(Info::RobotInfo(visit(5, 1, &[]))),
            bare: Some(record(1, MatchType::Qualification, 5, "ignored")),
        },
        Submitted { tagged: None, bare: None },
        Submitted { tagged: None, bare: Some(record(2, MatchType::Qualification, 5, "bare")) },
        Submitted { tagged: Some(Info::MatchInfo(record(3, MatchType::Qualification, 5, "tagged"))), bare: None },
    ];
    let batch = accept_batch(entries);
    assert_eq!(batch.len(), 3);
    assert!(matches!(&batch[0], Info::RobotInfo(r) if r.team_number == 5));
    assert!(matches!(&batch[1], Info::MatchInfo(m) if m.notes == "bare"));
    assert!(matches!(&batch[2], Info::MatchInfo(m) if m.notes == "tagged"));
    let mut db = Database::temporary().unwrap();
    let mut stale = record(9, MatchType::Qualification, 5, "stale");
    stale.last_modified_time = COMP_START;
    let again = vec![
        Submitted { tagged: None, bare: Some(record(2, MatchType::Qualification, 5, "bare")) },
        Submitted { tagged: None, bare: Some(stale) },
        Submitted { tagged: Some(Info::RobotInfo(visit(5, 1, &[]))), bare: None },
    ];
    push_data(&mut db, again).unwrap();
    let held = db.get_info_list().unwrap();
    assert_eq!(held.len(), 2);
    assert!(matches!(&held[0], Info::MatchInfo(m) if m.notes == "bare" && m.last_modified_time == t));
    assert!(matches!(&held[1], Info::RobotInfo(_)));
}

#[test]
fn pages_are_made_from_what_the_store_holds() {
    let mut db = Database::temporary().unwrap();
    db.write_match(&record(1, MatchType::Qualification, 5, "five")).unwrap();
    let mut stale = record(1, MatchType::Qualification, 6, "stale");
    stale.last_modified_time = COMP_START;
    db.write_match(&stale).unwrap();
    db.write_robot(&visit(5, 2, &["two.jpeg"])).unwrap();
    db.write_robot(&visit(5, 1, &["one.jpeg"])).unwrap();
    let fetched = raw_match(1, alliance(10, &["frc5"], &[]), alliance(12, &["frc6"], &[]));
    let full = automated_scout::match_info::get_match_info(&db, Some(fetched)).unwrap().unwrap();
    assert_eq!(notes_of(&full.blue_teams), vec![(5, Some("five".to_string()))]);
    assert_eq!(notes_of(&full.red_teams), vec![(6, None)]);
    assert!(automated_scout::match_info::get_match_info(&db, None).unwrap().is_none());
    let fetched = vec![raw_match(1, alliance(10, &["frc5"], &[]), alliance(12, &["frc6"], &[]))];
    let info = automated_scout::team_info::get_team_info(&db, 5, &Vec::new(), &fetched).unwrap();
    assert_eq!(info.images, vec!["one.jpeg", "two.jpeg"]);
    assert_eq!(info.matches.len(), 1);
    assert_eq!(notes_of(&info.matches[0].blue_teams), vec![(5, Some("five".to_string()))]);
}
