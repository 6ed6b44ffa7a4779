use steam_backup_manager::achievements::{
    lookup_backup, Achievement, AchievementDatabase, BackupEntry, ProviderTag,
};
use steam_backup_manager::error::EngineError;

fn row(app_id: u32, key: &str, source: ProviderTag, achieved: bool, time: Option<i64>) -> Achievement {
    Achievement {
        id: None,
        app_id,
        game_name: format!("Game {}", app_id),
        achievement_id: key.to_string(),
        display_name: format!("Name of {}", key),
        description: String::new(),
        icon_url: None,
        icon_gray_url: None,
        hidden: false,
        achieved,
        unlock_time: time,
        source,
        last_updated: 100,
        global_unlock_percentage: None,
    }
}

#[test]
fn upsert_inserts_then_overwrites() {
    let mut db = AchievementDatabase::new();
    assert!(db.rows().is_empty());
    db.insert_or_update_achievement(&row(1, "a", ProviderTag::EmulatorA, false, None)).unwrap();
    db.insert_or_update_achievement(&row(1, "b", ProviderTag::EmulatorA, false, None)).unwrap();
    let mut again = row(1, "a", ProviderTag::EmulatorA, true, Some(5));
    again.id = Some(999);
    again.game_name = "Renamed".to_string();
    again.display_name = "New name".to_string();
    again.last_updated = 200;
    again.global_unlock_percentage = Some("3.5".to_string());
    db.insert_or_update_achievement(&again).unwrap();
    assert_eq!(db.rows().len(), 2);
    let a = &db.rows()[0];
    assert_eq!(a.id, Some(1));
    assert_eq!(a.achievement_id, "a");
    assert!(a.achieved);
    assert_eq!(a.unlock_time, Some(5));
    assert_eq!(a.game_name, "Renamed");
    assert_eq!(a.display_name, "New name");
    assert_eq!(a.last_updated, 200);
    assert_eq!(a.global_unlock_percentage.as_deref(), Some("3.5"));
    assert_eq!(db.rows()[1].id, Some(2));
    db.insert_or_update_achievement(&row(1, "a", ProviderTag::Manual, false, None)).unwrap();
    db.insert_or_update_achievement(&row(2, "a", ProviderTag::EmulatorA, false, None)).unwrap();
    assert_eq!(db.rows().len(), 4);
    assert_eq!(db.rows()[3].id, Some(4));
}

#[test]
fn rows_of_a_game_are_ordered_by_key() {
    let mut db = AchievementDatabase::new();
    for key in ["m", "b", "z", "B", "a10", "a9", ""] {
        db.insert_or_update_achievement(&row(7, key, ProviderTag::RemoteApi, false, None)).unwrap();
    }
    db.insert_or_update_achievement(&row(8, "c", ProviderTag::RemoteApi, false, None)).unwrap();
    db.insert_or_update_achievement(&row(7, "b", ProviderTag::Manual, false, None)).unwrap();
    let keys: Vec<String> =
        db.get_game_achievements(7).iter().map(|r| r.achievement_id.clone()).collect();
    assert_eq!(keys, vec!["", "B", "a10", "a9", "b", "b", "m", "z"]);
    let tags: Vec<ProviderTag> = db.get_game_achievements(7).iter().map(|r| r.source).collect();
    assert_eq!(tags[4], ProviderTag::RemoteApi);
    assert_eq!(tags[5], ProviderTag::Manual);
    assert!(db.get_game_achievements(9).is_empty());
}

#[test]
fn summaries_count_rows_by_game_and_provider() {
    let mut db = AchievementDatabase::new();
    let mut r = row(2, "a", ProviderTag::EmulatorB, true, Some(1));
    r.game_name = "Zeta".to_string();
    r.last_updated = 10;
    db.insert_or_update_achievement(&r).unwrap();
    let mut r = row(2, "b", ProviderTag::EmulatorB, false, None);
    r.game_name = "Zeta new".to_string();
    r.last_updated = 30;
    db.insert_or_update_achievement(&r).unwrap();
    let mut r = row(2, "c", ProviderTag::EmulatorB, true, None);
    r.game_name = "Zeta old".to_string();
    r.last_updated = 20;
    db.insert_or_update_achievement(&r).unwrap();
    let mut r = row(2, "a", ProviderTag::Manual, false, None);
    r.game_name = "Manual game".to_string();
    db.insert_or_update_achievement(&r).unwrap();
    let mut r = row(1, "x", ProviderTag::PlatformCache, true, Some(3));
    r.game_name = "Alpha".to_string();
    db.insert_or_update_achievement(&r).unwrap();
    let sums = db.get_all_games();
    assert_eq!(sums.len(), 3);
    assert_eq!(sums[0].game_name, "Alpha");
    assert_eq!((sums[0].app_id, sums[0].source), (1, ProviderTag::PlatformCache));
    assert_eq!((sums[0].total_achievements, sums[0].unlocked_achievements), (1, 1));
    assert_eq!(sums[1].game_name, "Manual game");
    assert_eq!((sums[1].total_achievements, sums[1].unlocked_achievements), (1, 0));
    assert_eq!(sums[2].game_name, "Zeta new");
    assert_eq!((sums[2].app_id, sums[2].source), (2, ProviderTag::EmulatorB));
    assert_eq!((sums[2].total_achievements, sums[2].unlocked_achievements), (3, 2));
    assert_eq!(sums[2].last_updated, 30);
    assert!(AchievementDatabase::new().get_all_games().is_empty());
}

#[test]
fn status_update_sets_state_and_time_of_write() {
    let mut db = AchievementDatabase::new();
    db.insert_or_update_achievement(&row(1, "a", ProviderTag::EmulatorA, false, None)).unwrap();
    db.insert_or_update_achievement(&row(1, "b", ProviderTag::EmulatorA, false, None)).unwrap();
    db.update_achievement_status(2, true, Some(77), 1000);
    assert!(!db.rows()[0].achieved);
    assert!(db.rows()[1].achieved);
    assert_eq!(db.rows()[1].unlock_time, Some(77));
    assert_eq!(db.rows()[1].last_updated, 1000);
    db.update_achievement_status(5, true, Some(1), 2000);
    assert_eq!(db.rows()[1].last_updated, 1000);
    db.update_achievement_status(2, false, None, 3000);
    assert!(!db.rows()[1].achieved);
    assert_eq!(db.rows()[1].unlock_time, None);
    for r in db.rows() {
        assert!(r.unlock_time.is_none() || r.achieved);
    }
}

#[test]
fn deletes_remove_a_game() {
    let mut db = AchievementDatabase::new();
    db.insert_or_update_achievement(&row(1, "a", ProviderTag::EmulatorA, false, None)).unwrap();
    db.insert_or_update_achievement(&row(2, "a", ProviderTag::EmulatorA, false, None)).unwrap();
    db.insert_or_update_achievement(&row(1, "m", ProviderTag::Manual, false, None)).unwrap();
    db.insert_or_update_achievement(&row(1, "b", ProviderTag::PlatformCache, false, None)).unwrap();
    let mut other = AchievementDatabase::new();
    for r in db.rows() {
        other.load_row(r).unwrap();
    }
    db.delete_scanned_achievements(1);
    let left: Vec<(u32, String)> =
        db.rows().iter().map(|r| (r.app_id, r.achievement_id.clone())).collect();
    assert_eq!(left, vec![(2, "a".to_string()), (1, "m".to_string())]);
    other.delete_game_achievements(1);
    assert_eq!(other.rows().len(), 1);
    assert_eq!(other.rows()[0].app_id, 2);
    other.insert_or_update_achievement(&row(3, "n", ProviderTag::EmulatorA, false, None)).unwrap();
    assert_eq!(other.rows()[1].id, Some(5));
}

#[test]
fn loading_refuses_rows_that_do_not_fit() {
    let mut db = AchievementDatabase::new();
    let mut r = row(1, "a", ProviderTag::EmulatorA, false, None);
    assert_eq!(db.load_row(&r), Err(EngineError::Storage));
    r.id = Some(5);
    assert_eq!(db.load_row(&r), Ok(()));
    assert_eq!(db.load_row(&r), Err(EngineError::Storage));
    let mut s = row(1, "b", ProviderTag::EmulatorA, false, Some(3));
    s.id = Some(6);
    assert_eq!(db.load_row(&s), Err(EngineError::Storage));
    s.unlock_time = None;
    s.id = Some(4);
    assert_eq!(db.load_row(&s), Err(EngineError::Storage));
    s.id = Some(i64::MAX);
    assert_eq!(db.load_row(&s), Err(EngineError::Storage));
    s.id = Some(i64::MAX - 1);
    assert_eq!(db.load_row(&s), Ok(()));
    assert_eq!(
        db.insert_or_update_achievement(&row(1, "c", ProviderTag::EmulatorA, false, None)),
        Err(EngineError::Storage)
    );
    assert_eq!(db.rows().len(), 2);
    assert_eq!(
        db.insert_or_update_achievement(&row(1, "b", ProviderTag::EmulatorA, true, None)),
        Ok(())
    );
}

#[test]
fn exclusions_are_kept_by_game() {
    let mut db = AchievementDatabase::new();
    assert!(!db.is_excluded(388080));
    db.add_exclusion(388080, "X".to_string());
    db.add_exclusion(5, "Five".to_string());
    db.add_exclusion(388080, "Renamed".to_string());
    assert!(db.is_excluded(388080));
    let all = db.get_all_exclusions();
    assert_eq!(all.len(), 2);
    assert_eq!((all[0].app_id, all[0].name.as_str()), (388080, "Renamed"));
    assert_eq!((all[1].app_id, all[1].name.as_str()), (5, "Five"));
    db.remove_exclusion(388080);
    db.remove_exclusion(1);
    assert!(!db.is_excluded(388080));
    assert!(db.is_excluded(5));
}

#[test]
fn export_round_trip() {
    let mut db = AchievementDatabase::new();
    for i in 1..=10 {
        let unlocked = i <= 3;
        let time = if unlocked { Some(1000 + i as i64) } else { None };
        db.insert_or_update_achievement(&row(
            42,
            &format!("key{:02}", i),
            ProviderTag::EmulatorA,
            unlocked,
            time,
        ))
        .unwrap();
    }
    let exported = db.export_unlocked_for_game(42);
    let pairs: Vec<(String, i64)> =
        exported.iter().map(|e| (e.achievement_id.clone(), e.unlock_time)).collect();
    assert_eq!(
        pairs,
        vec![("key01".to_string(), 1001), ("key02".to_string(), 1002), ("key03".to_string(), 1003)]
    );
    db.delete_game_achievements(42);
    assert!(db.get_game_achievements(42).is_empty());
    for i in 1..=10 {
        db.insert_or_update_achievement(&row(
            42,
            &format!("key{:02}", i),
            ProviderTag::EmulatorA,
            false,
            None,
        ))
        .unwrap();
    }
    assert_eq!(db.restore_from_backup(42, &exported, 5000), 3);
    let rows = db.get_game_achievements(42);
    assert_eq!(rows.len(), 10);
    for (i, r) in rows.iter().enumerate() {
        if i < 3 {
            assert!(r.achieved);
            assert_eq!(r.unlock_time, Some(1001 + i as i64));
            assert_eq!(r.last_updated, 5000);
        } else {
            assert!(!r.achieved);
            assert_eq!(r.unlock_time, None);
            assert_eq!(r.last_updated, 100);
        }
    }
}

#[test]
fn backup_details() {
    let mut db = AchievementDatabase::new();
    db.insert_or_update_achievement(&row(1, "a", ProviderTag::EmulatorA, true, None)).unwrap();
    db.insert_or_update_achievement(&row(2, "a", ProviderTag::EmulatorA, false, None)).unwrap();
    let exported = db.export_unlocked_for_game(1);
    assert_eq!(exported.len(), 1);
    assert_eq!(exported[0].unlock_time, 0);
    let backup = vec![
        BackupEntry { achievement_id: "a".to_string(), unlock_time: 1 },
        BackupEntry { achievement_id: "b".to_string(), unlock_time: 2 },
        BackupEntry { achievement_id: "a".to_string(), unlock_time: 3 },
    ];
    assert_eq!(lookup_backup(&backup, &"a".to_string()), Some(3));
    assert_eq!(lookup_backup(&backup, &"c".to_string()), None);
    assert_eq!(db.restore_from_backup(2, &backup, 9), 1);
    assert_eq!(db.rows()[1].unlock_time, Some(3));
    assert_eq!(db.rows()[0].unlock_time, None);
}

#[test]
fn a_time_that_was_not_known_is_not_known_after_a_restore() {
    let mut db = AchievementDatabase::new();
    db.insert_or_update_achievement(&row(7, "a", ProviderTag::EmulatorB, true, None)).unwrap();
    db.insert_or_update_achievement(&row(7, "b", ProviderTag::EmulatorB, true, Some(-4))).unwrap();
    db.insert_or_update_achievement(&row(7, "c", ProviderTag::EmulatorB, false, None)).unwrap();
    let exported = db.export_unlocked_for_game(7);
    let pairs: Vec<(String, i64)> =
        exported.iter().map(|e| (e.achievement_id.clone(), e.unlock_time)).collect();
    assert_eq!(pairs, vec![("a".to_string(), 0), ("b".to_string(), -4)]);
    db.delete_game_achievements(7);
    for key in ["a", "b", "c"] {
        db.insert_or_update_achievement(&row(7, key, ProviderTag::EmulatorB, false, None)).unwrap();
    }
    assert_eq!(db.restore_from_backup(7, &exported, 500), 2);
    let rows = db.get_game_achievements(7);
    assert!(rows[0].achieved);
    assert_eq!(rows[0].unlock_time, None);
    assert!(rows[1].achieved);
    assert_eq!(rows[1].unlock_time, Some(-4));
    assert!(!rows[2].achieved);
    assert_eq!(rows[2].unlock_time, None);
}

#[test]
fn providers_have_names() {
    let all = [
        (ProviderTag::PlatformCache, "Steamtools"),
        (ProviderTag::EmulatorA, "Goldberg"),
        (ProviderTag::EmulatorB, "Online-fix"),
        (ProviderTag::RemoteApi, "Steam"),
        (ProviderTag::Manual, "Manual"),
    ];
    for (tag, name) in all {
        assert_eq!(tag.label(), name);
        assert_eq!(ProviderTag::from_label(name), Some(tag));
    }
    assert_eq!(ProviderTag::from_label("Steam Web API"), Some(ProviderTag::RemoteApi));
    assert_eq!(ProviderTag::from_label("steam"), None);
    assert_eq!(ProviderTag::from_label(""), None);
}

#[test]
fn no_write_takes_the_time_of_a_row_back() {
    let mut db = AchievementDatabase::new();
    db.insert_or_update_achievement(&row(1, "a", ProviderTag::EmulatorA, false, None)).unwrap();
    db.insert_or_update_achievement(&row(1, "b", ProviderTag::EmulatorA, false, None)).unwrap();
    assert_eq!(db.rows()[0].last_updated, 100);
    let mut older = row(1, "a", ProviderTag::EmulatorA, true, Some(9));
    older.last_updated = 40;
    older.display_name = "Renamed".to_string();
    db.insert_or_update_achievement(&older).unwrap();
    assert_eq!(db.rows()[0].last_updated, 100);
    assert_eq!(db.rows()[0].display_name, "Renamed");
    assert!(db.rows()[0].achieved);
    assert_eq!(db.rows()[0].unlock_time, Some(9));
    assert_eq!(db.rows()[0].id, Some(1));
    let mut newer = row(1, "a", ProviderTag::EmulatorA, true, Some(9));
    newer.last_updated = 250;
    db.insert_or_update_achievement(&newer).unwrap();
    assert_eq!(db.rows()[0].last_updated, 250);
    db.update_achievement_status(1, false, None, 30);
    assert!(!db.rows()[0].achieved);
    assert_eq!(db.rows()[0].last_updated, 250);
    db.update_achievement_status(1, true, Some(3), 251);
    assert_eq!(db.rows()[0].last_updated, 251);
    let backup = vec![
        BackupEntry { achievement_id: "a".to_string(), unlock_time: 11 },
        BackupEntry { achievement_id: "b".to_string(), unlock_time: 12 },
    ];
    assert_eq!(db.restore_from_backup(1, &backup, 200), 2);
    assert_eq!(db.rows()[0].unlock_time, Some(11));
    assert_eq!(db.rows()[0].last_updated, 251);
    assert_eq!(db.rows()[1].unlock_time, Some(12));
    assert_eq!(db.rows()[1].last_updated, 200);
    assert_eq!(db.rows()[1].id, Some(2));
}
