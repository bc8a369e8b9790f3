use automated_scout::data::{
    Auto, AutoChargeStation, BumperType, ConfidenceLevel, Info, MatchInfo, MatchType, Pit, Robot,
    RobotInfo, StackType, Teleop, TeleopChargeStation, VisionType,
};
use automated_scout::database::{
    is_match_valid, is_robot_valid, present_matches, present_robots, Database, COMP_START,
};

fn match_record(number: u32, category: MatchType, team: u32, time: u64) -> MatchInfo {
    MatchInfo {
        match_number: number,
        match_category: category,
        team_number: team,
        auto: Auto::default(),
        teleop: Teleop::default(),
        speed: 0,
        stability: 0,
        defence: None,
        is_primary_defence: false,
        was_broken: false,
        was_disabled: false,
        notes: String::new(),
        last_modified_time: time,
    }
}

fn visit_record(team: u32, visit: u32, time: u64) -> RobotInfo {
    RobotInfo {
        visit_number: visit,
        team_number: team,
        pit: Pit::default(),
        robot: Robot::default(),
        images: Vec::new(),
        last_modified_time: time,
    }
}

fn stored_matches(db: &Database) -> Vec<MatchInfo> {
    present_matches(db.get_all_matches().unwrap())
}

fn stored_robots(db: &Database) -> Vec<RobotInfo> {
    present_robots(db.get_all_robots().unwrap())
}

#[test]
fn a_valid_match_record_is_stored_and_read_back() {
    let mut db = Database::temporary().unwrap();
    let mut record = match_record(5, MatchType::Qualification, 100, COMP_START + 1);
    record.auto = Auto {
        exited_tarmac: true,
        auto_charge_station: AutoChargeStation::Charged,
        hybrid_cube_scored: 1,
        hybrid_cone_scored: 2,
        middle_cube_scored: 3,
        middle_cone_scored: 4,
        high_cube_scored: 5,
        high_cone_scored: 6,
    };
    record.teleop = Teleop {
        hybrid_cube_scored: 7,
        hybrid_cone_scored: 8,
        middle_cube_scored: 9,
        middle_cone_scored: 10,
        high_cube_scored: 11,
        high_cone_scored: 12,
        parked: true,
        teleop_charge_station: TeleopChargeStation::Parked,
    };
    record.speed = 2500;
    record.stability = 4000;
    record.defence = Some(1500);
    record.is_primary_defence = true;
    record.was_broken = true;
    record.was_disabled = false;
    record.notes = "fast\ncycles \u{e9}".to_string();
    db.write_match(&record).unwrap();
    let all = stored_matches(&db);
    assert_eq!(all.len(), 1);
    let back = &all[0];
    assert_eq!(back.match_number, 5);
    assert_eq!(back.match_category, MatchType::Qualification);
    assert_eq!(back.team_number, 100);
    assert_eq!(back.auto, record.auto);
    assert_eq!(back.teleop, record.teleop);
    assert_eq!(back.speed, 2500);
    assert_eq!(back.stability, 4000);
    assert_eq!(back.defence, Some(1500));
    assert!(back.is_primary_defence);
    assert!(back.was_broken);
    assert!(!back.was_disabled);
    assert_eq!(back.notes, "fast\ncycles \u{e9}");
    assert_eq!(back.last_modified_time, COMP_START + 1);
}

#[test]
fn a_valid_visit_is_stored_and_read_back() {
    let mut db = Database::temporary().unwrap();
    let mut record = visit_record(200, 1, COMP_START + 10);
    record.pit = Pit {
        pit_people: Some(4),
        chaos: Some(2),
        confidence_level: Some(ConfidenceLevel::TooConfident),
        scouting_method: "paper".to_string(),
    };
    record.robot.bumper_type = Some(BumperType::Reversable);
    record.robot.vision_type = Some(VisionType::AprilTags);
    record.robot.stack_type = Some(StackType::Cube);
    record.robot.battery_amount = Some(6);
    record.robot.balance_time = Some(3);
    record.robot.auto_settings = "two piece".to_string();
    record.robot.drive_type = "swerve".to_string();
    record.robot.comments = "tidy".to_string();
    record.images = vec!["a.jpeg".to_string(), "b.jpeg".to_string()];
    db.write_robot(&record).unwrap();
    let all = stored_robots(&db);
    assert_eq!(all.len(), 1);
    let back = &all[0];
    assert_eq!(back.visit_number, 1);
    assert_eq!(back.team_number, 200);
    assert_eq!(back.pit.pit_people, Some(4));
    assert_eq!(back.pit.chaos, Some(2));
    assert_eq!(back.pit.confidence_level, Some(ConfidenceLevel::TooConfident));
    assert_eq!(back.pit.scouting_method, "paper");
    assert_eq!(back.robot.bumper_type, Some(BumperType::Reversable));
    assert_eq!(back.robot.vision_type, Some(VisionType::AprilTags));
    assert_eq!(back.robot.human_pickup_range, None);
    assert_eq!(back.robot.stack_type, Some(StackType::Cube));
    assert_eq!(back.robot.preferred_play, None);
    assert_eq!(back.robot.battery_amount, Some(6));
    assert_eq!(back.robot.drive_motor_amount, None);
    assert_eq!(back.robot.balance_time, Some(3));
    assert_eq!(back.robot.auto_settings, "two piece");
    assert_eq!(back.robot.drive_type, "swerve");
    assert_eq!(back.robot.comments, "tidy");
    assert_eq!(back.images, vec!["a.jpeg".to_string(), "b.jpeg".to_string()]);
    assert_eq!(back.last_modified_time, COMP_START + 10);
}

#[test]
fn a_record_from_before_the_event_is_never_stored() {
    let mut db = Database::temporary().unwrap();
    let on_the_threshold = match_record(5, MatchType::Qualification, 100, COMP_START);
    let before = match_record(6, MatchType::Qualification, 100, COMP_START - 1);
    let visit = visit_record(100, 1, COMP_START);
    assert!(!is_match_valid(&on_the_threshold));
    assert!(!is_robot_valid(&visit));
    assert!(db.write_match(&on_the_threshold).is_ok());
    assert!(db.write_match(&before).is_ok());
    assert!(db.write_robot(&visit).is_ok());
    assert_eq!(stored_matches(&db).len(), 0);
    assert_eq!(stored_robots(&db).len(), 0);
    assert_eq!(db.get_info_list().unwrap().len(), 0);
}

#[test]
fn records_with_a_bad_key_are_not_valid() {
    let t = COMP_START + 1;
    assert!(is_match_valid(&match_record(1, MatchType::Practice, 1, t)));
    assert!(is_match_valid(&match_record(99, MatchType::Qualification, 7, t)));
    assert!(!is_match_valid(&match_record(0, MatchType::Qualification, 7, t)));
    assert!(!is_match_valid(&match_record(100, MatchType::Qualification, 7, t)));
    assert!(!is_match_valid(&match_record(5, MatchType::Qualification, 0, t)));
    assert!(is_robot_valid(&visit_record(7, 1, t)));
    assert!(is_robot_valid(&visit_record(7, 9, t)));
    assert!(!is_robot_valid(&visit_record(7, 0, t)));
    assert!(!is_robot_valid(&visit_record(7, 10, t)));
    assert!(!is_robot_valid(&visit_record(0, 1, t)));
    let mut db = Database::temporary().unwrap();
    db.write_match(&match_record(100, MatchType::Qualification, 7, t)).unwrap();
    db.write_robot(&visit_record(7, 10, t)).unwrap();
    assert_eq!(db.get_info_list().unwrap().len(), 0);
}

#[test]
fn keys_spell_out_the_natural_key() {
    let m = match_record(5, MatchType::Qualification, 100, COMP_START + 1);
    assert_eq!(Database::get_match_id(&m), b"match_5_Qualification_100".to_vec());
    let p = match_record(12, MatchType::Practice, 4294967295, COMP_START + 1);
    assert_eq!(Database::get_match_id(&p), b"match_12_Practice_4294967295".to_vec());
    let v = visit_record(2056, 3, COMP_START + 1);
    assert_eq!(Database::get_robot_id(&v), b"robot_2056_3".to_vec());
    let z = visit_record(0, 10, COMP_START + 1);
    assert_eq!(Database::get_robot_id(&z), b"robot_0_10".to_vec());
}

#[test]
fn the_later_record_wins_in_either_order() {
    let t1 = COMP_START + 100;
    let t2 = COMP_START + 200;
    let mut older = match_record(5, MatchType::Qualification, 100, t1);
    older.notes = "older".to_string();
    let mut newer = match_record(5, MatchType::Qualification, 100, t2);
    newer.notes = "newer".to_string();

    let mut first = Database::temporary().unwrap();
    first.write_match(&older).unwrap();
    first.write_match(&newer).unwrap();
    let held = stored_matches(&first);
    assert_eq!(held.len(), 1);
    assert_eq!(held[0].last_modified_time, t2);
    assert_eq!(held[0].notes, "newer");

    let mut second = Database::temporary().unwrap();
    second.write_match(&newer).unwrap();
    second.write_match(&older).unwrap();
    let held = stored_matches(&second);
    assert_eq!(held.len(), 1);
    assert_eq!(held[0].last_modified_time, t2);
    assert_eq!(held[0].notes, "newer");
}

#[test]
fn the_later_visit_wins_in_either_order() {
    let t1 = COMP_START + 100;
    let t2 = COMP_START + 200;
    let mut older = visit_record(200, 2, t1);
    older.robot.comments = "older".to_string();
    let mut newer = visit_record(200, 2, t2);
    newer.robot.comments = "newer".to_string();
    let mut first = Database::temporary().unwrap();
    first.write_robot(&older).unwrap();
    first.write_robot(&newer).unwrap();
    let mut second = Database::temporary().unwrap();
    second.write_robot(&newer).unwrap();
    second.write_robot(&older).unwrap();
    for db in [&first, &second] {
        let held = stored_robots(db);
        assert_eq!(held.len(), 1);
        assert_eq!(held[0].last_modified_time, t2);
        assert_eq!(held[0].robot.comments, "newer");
    }
}

#[test]
fn a_tie_keeps_the_record_that_is_held() {
    let t = COMP_START + 100;
    let mut held = match_record(5, MatchType::Qualification, 100, t);
    held.notes = "held".to_string();
    let mut late = match_record(5, MatchType::Qualification, 100, t);
    late.notes = "late".to_string();
    let mut db = Database::temporary().unwrap();
    db.write_match(&held).unwrap();
    db.write_match(&late).unwrap();
    let all = stored_matches(&db);
    assert_eq!(all.len(), 1);
    assert_eq!(all[0].notes, "held");
}

#[test]
fn records_of_different_keys_do_not_touch_each_other() {
    let t = COMP_START + 1;
    let mut db = Database::temporary().unwrap();
    db.write_match(&match_record(1, MatchType::Qualification, 23, t)).unwrap();
    db.write_match(&match_record(12, MatchType::Qualification, 3, t)).unwrap();
    db.write_match(&match_record(1, MatchType::Practice, 23, t)).unwrap();
    db.write_robot(&visit_record(23, 1, t)).unwrap();
    db.write_robot(&visit_record(2, 3, t)).unwrap();
    assert_eq!(stored_matches(&db).len(), 3);
    assert_eq!(stored_robots(&db).len(), 2);
}

#[test]
fn merging_a_batch_twice_changes_nothing() {
    let t = COMP_START + 1;
    let mut newer = match_record(5, MatchType::Qualification, 100, t + 50);
    newer.notes = "newer".to_string();
    let batch = vec![
        Info::MatchInfo(newer),
        Info::MatchInfo(match_record(5, MatchType::Qualification, 100, t)),
        Info::MatchInfo(match_record(6, MatchType::Qualification, 100, t)),
        Info::MatchInfo(match_record(0, MatchType::Qualification, 100, t)),
        Info::RobotInfo(visit_record(100, 1, t)),
        Info::RobotInfo(visit_record(100, 2, COMP_START)),
    ];
    let mut db = Database::temporary().unwrap();
    db.merge_info(&batch).unwrap();
    let once: Vec<(u32, u32, u64, String)> = stored_matches(&db)
        .into_iter()
        .map(|m| (m.match_number, m.team_number, m.last_modified_time, m.notes))
        .collect();
    let once_visits: Vec<(u32, u32, u64)> = stored_robots(&db)
        .into_iter()
        .map(|r| (r.team_number, r.visit_number, r.last_modified_time))
        .collect();
    db.merge_info(&batch).unwrap();
    let twice: Vec<(u32, u32, u64, String)> = stored_matches(&db)
        .into_iter()
        .map(|m| (m.match_number, m.team_number, m.last_modified_time, m.notes))
        .collect();
    let twice_visits: Vec<(u32, u32, u64)> = stored_robots(&db)
        .into_iter()
        .map(|r| (r.team_number, r.visit_number, r.last_modified_time))
        .collect();
    assert_eq!(once, twice);
    assert_eq!(once_visits, twice_visits);
    assert_eq!(
        once,
        vec![(5, 100, t + 50, "newer".to_string()), (6, 100, t, String::new())]
    );
    assert_eq!(once_visits, vec![(100, 1, t)]);
}

#[test]
fn the_info_list_holds_matches_before_visits() {
    let t = COMP_START + 1;
    let mut db = Database::temporary().unwrap();
    db.write_robot(&visit_record(9, 1, t)).unwrap();
    db.write_match(&match_record(2, MatchType::Qualification, 9, t)).unwrap();
    db.write_match(&match_record(1, MatchType::Qualification, 9, t)).unwrap();
    let list = db.get_info_list().unwrap();
    assert_eq!(list.len(), 3);
    assert!(matches!(&list[0], Info::MatchInfo(m) if m.match_number == 1));
    assert!(matches!(&list[1], Info::MatchInfo(m) if m.match_number == 2));
    assert!(matches!(&list[2], Info::RobotInfo(r) if r.team_number == 9));
    let snapshot = db.snapshot().unwrap();
    assert_eq!(snapshot.matches.len(), 2);
    assert_eq!(snapshot.robots.len(), 1);
}

#[test]
fn push_then_pull_leaves_the_union_with_the_newer_versions() {
    let t = COMP_START + 1000;
    let mut local = Database::temporary().unwrap();
    let mut peer = Database::temporary().unwrap();
    // The local store holds three records.
    let mut local_a = match_record(1, MatchType::Qualification, 100, t);
    local_a.notes = "local a".to_string();
    let mut local_b = match_record(2, MatchType::Qualification, 100, t);
    local_b.notes = "local b".to_string();
    local.write_match(&local_a).unwrap();
    local.write_match(&local_b).unwrap();
    local.write_robot(&visit_record(100, 1, t)).unwrap();
    // The peer holds two of the same keys, one in a newer version, and two more.
    let mut peer_a = match_record(1, MatchType::Qualification, 100, t + 5);
    peer_a.notes = "peer a".to_string();
    let mut peer_b = match_record(2, MatchType::Qualification, 100, t - 5);
    peer_b.notes = "peer b".to_string();
    peer.write_match(&peer_a).unwrap();
    peer.write_match(&peer_b).unwrap();
    peer.write_match(&match_record(3, MatchType::Qualification, 150, t)).unwrap();
    peer.write_robot(&visit_record(150, 1, t)).unwrap();
    // Push, then pull.
    let pushed = local.get_info_list().unwrap();
    assert_eq!(pushed.len(), 3);
    peer.merge_info(&pushed).unwrap();
    let pulled = peer.get_info_list().unwrap();
    assert_eq!(pulled.len(), 5);
    local.merge_info(&pulled).unwrap();
    let matches: Vec<(u32, u32, u64, String)> = stored_matches(&local)
        .into_iter()
        .map(|m| (m.match_number, m.team_number, m.last_modified_time, m.notes))
        .collect();
    assert_eq!(
        matches,
        vec![
            (1, 100, t + 5, "peer a".to_string()),
            (2, 100, t, "local b".to_string()),
            (3, 150, t, String::new()),
        ]
    );
    let visits: Vec<(u32, u32)> =
        stored_robots(&local).into_iter().map(|r| (r.team_number, r.visit_number)).collect();
    assert_eq!(visits, vec![(100, 1), (150, 1)]);
    assert_eq!(local.get_info_list().unwrap().len(), 5);
    assert_eq!(peer.get_info_list().unwrap().len(), 5);
}

#[test]
fn stored_bytes_that_are_no_record_fail_alone() {
    let t = COMP_START + 1;
    let path = std::path::Path::new("/tmp/automated_scout_tests/bytes_that_are_no_record");
    {
        let raw = sled::open(path).unwrap();
        raw.clear().unwrap();
        raw.insert(b"match_1_Qualification_5", vec![1u8, 2, 3]).unwrap();
        let mut fields = automated_scout::codec::match_to_fields(&match_record(
            2,
            MatchType::Qualification,
            5,
            t,
        ));
        fields.1 = 7;
        raw.insert(b"match_2_Qualification_5", bincode::serialize(&fields).unwrap()).unwrap();
        let stale = automated_scout::codec::match_to_fields(&match_record(
            3,
            MatchType::Qualification,
            5,
            COMP_START,
        ));
        raw.insert(b"match_3_Qualification_5", bincode::serialize(&stale).unwrap()).unwrap();
        raw.insert(b"robot_5_1", vec![9u8]).unwrap();
        raw.insert(b"other", vec![0u8]).unwrap();
        raw.flush().unwrap();
    }
    let mut db = Database::open(path).unwrap();
    db.write_match(&match_record(4, MatchType::Qualification, 5, t)).unwrap();
    db.write_robot(&visit_record(5, 2, t)).unwrap();
    let list = db.get_all_matches().unwrap();
    assert_eq!(list.len(), 3);
    assert!(matches!(&list[0], Err(automated_scout::database::DatabaseError::Serde(_))));
    assert!(matches!(&list[1], Err(automated_scout::database::DatabaseError::Malformed)));
    assert!(matches!(&list[2], Ok(m) if m.match_number == 4));
    assert!(list[0]
        .as_ref()
        .unwrap_err()
        .message()
        .starts_with("Failed to decode data in database: "));
    let visits = db.get_all_robots().unwrap();
    assert_eq!(visits.len(), 2);
    assert!(visits[0].is_err());
    assert!(matches!(&visits[1], Ok(r) if r.visit_number == 2));
    assert!(db.get_info_list().is_err());
    let snapshot = db.snapshot().unwrap();
    assert_eq!(snapshot.matches.len(), 1);
    assert_eq!(snapshot.robots.len(), 1);
    // a valid record takes the place of bytes that are no record
    db.write_match(&match_record(1, MatchType::Qualification, 5, t)).unwrap();
    db.write_match(&match_record(2, MatchType::Qualification, 5, t)).unwrap();
    db.write_robot(&visit_record(5, 1, t)).unwrap();
    let numbers: Vec<u32> = stored_matches(&db).iter().map(|m| m.match_number).collect();
    assert_eq!(numbers, vec![1, 2, 4]);
    assert_eq!(db.get_info_list().unwrap().len(), 5);
}

#[test]
fn a_store_keeps_its_records_when_it_is_opened_again() {
    let t = COMP_START + 1;
    let path = std::path::Path::new("/tmp/automated_scout_tests/opened_again");
    {
        let raw = sled::open(path).unwrap();
        raw.clear().unwrap();
        raw.flush().unwrap();
    }
    {
        let mut db = Database::open(path).unwrap();
        assert_eq!(db.get_info_list().unwrap().len(), 0);
        db.write_match(&match_record(7, MatchType::Practice, 11, t)).unwrap();
        db.write_robot(&visit_record(11, 3, t)).unwrap();
    }
    let db = Database::open(path).unwrap();
    let list = db.get_info_list().unwrap();
    assert_eq!(list.len(), 2);
    assert!(matches!(&list[0], Info::MatchInfo(m) if m.match_number == 7 && m.team_number == 11));
    assert!(matches!(&list[1], Info::RobotInfo(r) if r.visit_number == 3));
}

#[test]
fn a_store_that_cannot_be_opened_says_why() {
    match Database::open(std::path::Path::new("/dev/null/no/store/here")) {
        Ok(_) => panic!("a store was opened where none can be"),
        Err(e) => {
            assert!(matches!(&e, automated_scout::database::DatabaseError::Sled(_)));
            assert!(e.message().starts_with("Internal database error: "));
        }
    }
}

#[test]
fn the_statistics_of_a_store_are_those_of_its_records() {
    let t = COMP_START + 1;
    let mut db = Database::temporary().unwrap();
    let mut scored = match_record(1, MatchType::Qualification, 100, t);
    scored.auto.high_cone_scored = 2;
    db.write_match(&scored).unwrap();
    db.write_match(&match_record(2, MatchType::Qualification, 100, COMP_START)).unwrap();
    db.write_robot(&visit_record(200, 1, t)).unwrap();
    let oracle = automated_scout::tba::TbaData { teams: Vec::new(), matches: Vec::new() };
    let rows = automated_scout::analysis::analyze_data(&db, &oracle).unwrap().unwrap();
    let teams: Vec<(u32, u32, i128)> =
        rows.iter().map(|r| (r.team_number, r.matches, r.stats[0])).collect();
    assert_eq!(teams, vec![(100, 1, 12000), (0, 1, 12000), (200, 0, 0)]);
}

#[test]
fn a_list_loaded_into_an_empty_store_gives_the_same_list() {
    let t = COMP_START + 1;
    let mut first = Database::temporary().unwrap();
    assert_eq!(first.get_info_list().unwrap().len(), 0);
    let mut noted = match_record(9, MatchType::Qualification, 12, t + 3);
    noted.notes = "noted".to_string();
    first.write_match(&noted).unwrap();
    first.write_match(&match_record(10, MatchType::Practice, 3, t)).unwrap();
    first.write_match(&match_record(1, MatchType::Qualification, 12, t)).unwrap();
    first.write_robot(&visit_record(12, 2, t)).unwrap();
    first.write_robot(&visit_record(3, 1, t + 1)).unwrap();
    let list = first.get_info_list().unwrap();
    let mut second = Database::temporary().unwrap();
    second.merge_info(&list).unwrap();
    let again = second.get_info_list().unwrap();
    let keys = |list: &Vec<Info>| -> Vec<(bool, u32, u32, u64, String)> {
        list.iter()
            .map(|info| match info {
                Info::MatchInfo(m) => {
                    (true, m.match_number, m.team_number, m.last_modified_time, m.notes.clone())
                }
                Info::RobotInfo(r) => {
                    (false, r.visit_number, r.team_number, r.last_modified_time, String::new())
                }
            })
            .collect()
    };
    assert_eq!(keys(&list), keys(&again));
    assert_eq!(list.len(), 5);
    assert_eq!(keys(&list)[0], (true, 10, 3, t, String::new()));
    assert_eq!(keys(&list)[2], (true, 9, 12, t + 3, "noted".to_string()));
}

#[test]
fn a_batch_without_a_valid_record_is_merged_well_and_changes_nothing() {
    let mut db = Database::temporary().unwrap();
    db.write_match(&match_record(1, MatchType::Qualification, 5, COMP_START + 1)).unwrap();
    let batch = vec![
        Info::MatchInfo(match_record(0, MatchType::Qualification, 5, COMP_START + 9)),
        Info::MatchInfo(match_record(2, MatchType::Qualification, 5, COMP_START)),
        Info::RobotInfo(visit_record(0, 1, COMP_START + 9)),
    ];
    assert!(db.merge_info(&batch).is_ok());
    assert!(db.write_info(&batch[0]).is_ok());
    assert_eq!(db.get_info_list().unwrap().len(), 1);
}
