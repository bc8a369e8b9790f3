use automated_scout::data::{Auto, Info, MatchInfo, MatchType, Teleop};
use automated_scout::database::{Database, DatabaseError, COMP_START};
use automated_scout::server_sync::{
    try_sync, web_result, SyncAction, SyncEvent, SyncState, WebResultInner,
};

fn record(number: u32, team: u32, time: u64) -> MatchInfo {
    MatchInfo {
        match_number: number,
        match_category: MatchType::Qualification,
        team_number: team,
        auto: Auto::default(),
        teleop: Teleop::default(),
        speed: 0,
        stability: 0,
        defence: None,
        is_primary_defence: false,
        was_broken: false,
        was_disabled: false,
        notes: String::new(),
        last_modified_time: time,
    }
}

fn reply<T>(success: bool, data: Option<T>, error: Option<&str>) -> WebResultInner<T> {
    WebResultInner { success, data, error: error.map(|e| e.to_string()) }
}

#[test]
fn a_reply_means_its_data_or_its_error() {
    assert_eq!(web_result(reply(true, Some(5), None)), Ok(Some(5)));
    assert_eq!(web_result(reply::<u8>(true, None, Some("ignored"))), Ok(None));
    assert_eq!(web_result(reply(false, Some(5), Some("broken"))), Err("broken".to_string()));
    assert_eq!(web_result(reply::<u8>(false, None, None)), Err("No error".to_string()));
}

#[test]
fn a_cycle_pushes_then_pulls_then_merges() {
    let t = COMP_START + 1;
    let mut db = Database::temporary().unwrap();
    db.write_match(&record(1, 100, t)).unwrap();
    let (state, action) = try_sync(SyncState::Start, SyncEvent::Begin, &mut db);
    assert_eq!(state, SyncState::Pushing);
    match action {
        SyncAction::Push(list) => {
            assert_eq!(list.len(), 1);
            assert!(matches!(&list[0], Info::MatchInfo(m) if m.team_number == 100));
        }
        _ => panic!("nothing was pushed"),
    }
    let (state, action) =
        try_sync(state, SyncEvent::Pushed(Ok(reply(true, None, None))), &mut db);
    assert_eq!(state, SyncState::Pulling);
    assert!(matches!(action, SyncAction::Pull));
    let pulled = vec![
        Info::MatchInfo(record(1, 100, t + 1)),
        Info::MatchInfo(record(2, 150, t)),
        Info::MatchInfo(record(3, 150, COMP_START)),
    ];
    let (state, action) =
        try_sync(state, SyncEvent::Pulled(Ok(reply(true, Some(pulled), None))), &mut db);
    assert_eq!(state, SyncState::Finished);
    assert!(matches!(action, SyncAction::Done(Ok(()))));
    let held = db.snapshot().unwrap().matches;
    let keys: Vec<(u32, u32, u64)> =
        held.iter().map(|m| (m.match_number, m.team_number, m.last_modified_time)).collect();
    assert_eq!(keys, vec![(1, 100, t + 1), (2, 150, t)]);
}

#[test]
fn a_failed_push_ends_the_cycle() {
    let mut db = Database::temporary().unwrap();
    let (state, action) = try_sync(
        SyncState::Pushing,
        SyncEvent::Pushed(Err("connection refused".to_string())),
        &mut db,
    );
    assert_eq!(state, SyncState::Finished);
    assert!(matches!(action, SyncAction::Done(Err(text)) if text == "connection refused"));
    let (state, action) = try_sync(
        SyncState::Pushing,
        SyncEvent::Pushed(Ok(reply(false, None, Some("full")))),
        &mut db,
    );
    assert_eq!(state, SyncState::Finished);
    assert!(matches!(action, SyncAction::Done(Err(text)) if text == "full"));
    let (_, action) =
        try_sync(SyncState::Pushing, SyncEvent::Pushed(Ok(reply(false, None, None))), &mut db);
    assert!(matches!(action, SyncAction::Done(Err(text)) if text == "No error"));
}

#[test]
fn a_failed_pull_ends_the_cycle_and_leaves_the_store() {
    let t = COMP_START + 1;
    let mut db = Database::temporary().unwrap();
    db.write_match(&record(1, 100, t)).unwrap();
    let (state, action) =
        try_sync(SyncState::Pulling, SyncEvent::Pulled(Err("timed out".to_string())), &mut db);
    assert_eq!(state, SyncState::Finished);
    assert!(matches!(action, SyncAction::Done(Err(text)) if text == "timed out"));
    let (_, action) =
        try_sync(SyncState::Pulling, SyncEvent::Pulled(Ok(reply(true, None, None))), &mut db);
    assert!(matches!(action, SyncAction::Done(Err(text)) if text == "No data"));
    let (_, action) = try_sync(
        SyncState::Pulling,
        SyncEvent::Pulled(Ok(reply(false, Some(vec![Info::MatchInfo(record(2, 100, t))]), None))),
        &mut db,
    );
    assert!(matches!(action, SyncAction::Done(Err(text)) if text == "No error"));
    assert_eq!(db.snapshot().unwrap().matches.len(), 1);
}

#[test]
fn a_reply_out_of_turn_ends_the_cycle() {
    let mut db = Database::temporary().unwrap();
    let (state, action) =
        try_sync(SyncState::Start, SyncEvent::Pushed(Ok(reply(true, None, None))), &mut db);
    assert_eq!(state, SyncState::Finished);
    assert!(matches!(action, SyncAction::Done(Err(text)) if text == "Reply out of turn"));
    let (state, _) = try_sync(SyncState::Finished, SyncEvent::Begin, &mut db);
    assert_eq!(state, SyncState::Finished);
    let (state, _) = try_sync(
        SyncState::Pushing,
        SyncEvent::Pulled(Ok(reply(true, Some(vec![Info::MatchInfo(record(2, 100, COMP_START + 1))]), None))),
        &mut db,
    );
    assert_eq!(state, SyncState::Finished);
    assert_eq!(db.snapshot().unwrap().matches.len(), 0);
}

#[test]
fn a_malformed_entry_has_a_message() {
    assert_eq!(
        DatabaseError::Malformed.message(),
        "Failed to decode data in database: no such value"
    );
}
