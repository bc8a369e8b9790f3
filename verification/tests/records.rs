use automated_scout::config::{read_config, Config};
use automated_scout::data::{
    Auto, AutoChargeStation, BumperType, ChargeBattery, ConfidenceLevel, HumanPickupRange, Info,
    MatchInfo, MatchType, Pit, PreferredPlay, PreferredStack, Robot, RobotInfo, StackType, Teleop,
    TeleopChargeStation, VisionType,
};

#[test]
fn choices_stand_for_numbers_and_back() {
    assert_eq!(PreferredPlay::from_u32(0), Some(PreferredPlay::Defence));
    assert_eq!(PreferredPlay::from_u32(1), Some(PreferredPlay::PreferDefence));
    assert_eq!(PreferredPlay::from_u32(2), Some(PreferredPlay::PreferOffence));
    assert_eq!(PreferredPlay::from_u32(3), Some(PreferredPlay::Offence));
    assert_eq!(PreferredPlay::from_u32(4), None);
    assert_eq!(PreferredPlay::Offence.to_u32(), 3);
    assert_eq!(HumanPickupRange::from_u32(2), Some(HumanPickupRange::SlideShelf));
    assert_eq!(HumanPickupRange::from_u32(4), None);
    assert_eq!(StackType::from_u32(1), Some(StackType::Cone));
    assert_eq!(StackType::Both.to_u32(), 3);
    assert_eq!(PreferredStack::from_u32(3), Some(PreferredStack::High));
    assert_eq!(PreferredStack::Hybrid.to_u32(), 1);
    assert_eq!(ConfidenceLevel::from_u32(4), Some(ConfidenceLevel::TooConfident));
    assert_eq!(ConfidenceLevel::from_u32(5), None);
    assert_eq!(ConfidenceLevel::HonestlyUnconfident.to_u32(), 0);
    assert_eq!(ChargeBattery::from_u32(1), Some(ChargeBattery::Yes));
    assert_eq!(ChargeBattery::from_u32(2), None);
    assert_eq!(VisionType::from_u32(2), Some(VisionType::AprilTags));
    assert_eq!(VisionType::Tape.to_u32(), 1);
    assert_eq!(BumperType::from_u32(2), Some(BumperType::Reversable));
    assert_eq!(BumperType::from_u32(3), None);
    assert_eq!(MatchType::from_u32(0), Some(MatchType::Qualification));
    assert_eq!(MatchType::Practice.to_u32(), 1);
    assert_eq!(AutoChargeStation::from_u32(3), Some(AutoChargeStation::OtherRobot));
    assert_eq!(TeleopChargeStation::from_u32(1), Some(TeleopChargeStation::Parked));
    assert_eq!(TeleopChargeStation::from_u32(u32::MAX), None);
    for n in 0..4 {
        assert_eq!(VisionType::from_u32(n).unwrap().to_u32(), n);
        assert_eq!(AutoChargeStation::from_u32(n).unwrap().to_u32(), n);
    }
}

#[test]
fn choices_have_names() {
    assert_eq!(MatchType::Qualification.name(), "Qualification");
    assert_eq!(MatchType::Practice.name(), "Practice");
    assert_eq!(AutoChargeStation::OtherRobot.name(), "OtherRobot");
    assert_eq!(AutoChargeStation::Charged.name(), "Charged");
    assert_eq!(TeleopChargeStation::Parked.name(), "Parked");
    assert_eq!(TeleopChargeStation::Off.name(), "Off");
}

#[test]
fn defaults_are_what_a_blank_form_holds() {
    assert_eq!(MatchType::default(), MatchType::Practice);
    assert_eq!(AutoChargeStation::default(), AutoChargeStation::Off);
    assert_eq!(TeleopChargeStation::default(), TeleopChargeStation::Off);
    assert_eq!(PreferredPlay::default(), PreferredPlay::PreferOffence);
    assert_eq!(HumanPickupRange::default(), HumanPickupRange::NoPickup);
    assert_eq!(PreferredStack::default(), PreferredStack::NoPreference);
    assert_eq!(ConfidenceLevel::default(), ConfidenceLevel::Middle);
    assert_eq!(ChargeBattery::default(), ChargeBattery::No);
    assert_eq!(VisionType::default(), VisionType::NoVision);
    assert_eq!(BumperType::default(), BumperType::NoBumper);
    let auto = Auto::default();
    assert!(!auto.exited_tarmac);
    assert_eq!(auto.high_cone_scored, 0);
    let teleop = Teleop::default();
    assert!(!teleop.parked);
    assert_eq!(teleop.teleop_charge_station, TeleopChargeStation::Off);
    let m = MatchInfo::default();
    assert_eq!(m.match_number, 0);
    assert_eq!(m.match_category, MatchType::Practice);
    assert_eq!(m.defence, None);
    assert_eq!(m.notes, "");
    let pit = Pit::default();
    assert_eq!(pit.pit_people, None);
    assert_eq!(pit.scouting_method, "");
    let robot = Robot::default();
    assert_eq!(robot.bumper_type, None);
    assert_eq!(robot.comments, "");
    assert_eq!(robot.capabilities().balance_time, None);
    let visit = RobotInfo::default();
    assert_eq!(visit.visit_number, 0);
    assert!(visit.images.is_empty());
    assert!(matches!(Info::default(), Info::MatchInfo(_)));
}

#[test]
fn a_copy_holds_what_the_record_holds() {
    let mut m = MatchInfo::default();
    m.match_number = 4;
    m.notes = "tipped over".to_string();
    m.defence = Some(2000);
    let copy = m.clone();
    assert_eq!(copy.match_number, 4);
    assert_eq!(copy.notes, "tipped over");
    assert_eq!(copy.defence, Some(2000));
    let mut v = RobotInfo::default();
    v.images = vec!["x".to_string()];
    v.robot.drive_type = "tank".to_string();
    v.robot.preferred_play = Some(PreferredPlay::Defence);
    let copy = Info::RobotInfo(v).clone();
    match copy {
        Info::RobotInfo(r) => {
            assert_eq!(r.images, vec!["x".to_string()]);
            assert_eq!(r.robot.drive_type, "tank");
            assert_eq!(r.robot.capabilities().preferred_play, Some(PreferredPlay::Defence));
        }
        Info::MatchInfo(_) => panic!("the copy changed its kind"),
    }
}

#[test]
fn the_command_line_goes_before_the_file() {
    let file = || Config { leader_url: Some("http://file".to_string()), sync_interval: 2_500_999 };
    let both = read_config(Some("http://line".to_string()), Some(file()));
    assert_eq!(both.leader_url.as_deref(), Some("http://line"));
    assert_eq!(both.sync_interval, 2_500_999);
    assert_eq!(both.sync_period_millis(), 2500);
    let from_file = read_config(None, Some(file()));
    assert_eq!(from_file.leader_url.as_deref(), Some("http://file"));
    let alone = read_config(Some("http://line".to_string()), None);
    assert_eq!(alone.leader_url.as_deref(), Some("http://line"));
    assert_eq!(alone.sync_interval, 0);
    assert_eq!(alone.sync_period_millis(), 0);
    let nothing = read_config(None, None);
    assert_eq!(nothing.leader_url, None);
    let unset = Config::default();
    assert_eq!(unset.leader_url, None);
    assert_eq!(unset.sync_interval, 0);
}
