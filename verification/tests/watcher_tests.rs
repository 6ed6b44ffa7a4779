use steam_backup_manager::achievement_scanner::{AchievementScanner, UserdataProbe};
use steam_backup_manager::achievement_watcher::{
    check_for_unlocks, extract_unlocks, needs_rates, pick_existing, source_candidates,
    AchievementSourceType, AchievementWatcher, Debouncer, FileEventKind, ReparseOutcome,
    SourceHealth, UnlockEntry, WatchDecision, WatcherVerdict, DEBOUNCE_MS,
};
use steam_backup_manager::achievements::{Achievement, AchievementDatabase, ProviderTag};
use steam_backup_manager::error::EngineError;
use steam_backup_manager::paths::FilePath;
use steam_backup_manager::steam_achievements::{GlobalRate, SteamAchievementSchema};

fn entry(name: &str, display: &str) -> SteamAchievementSchema {
    SteamAchievementSchema {
        name: name.to_string(),
        display_name: display.to_string(),
        description: Some(format!("About {}", display)),
        icon: Some(format!("icon-{}", name)),
        icon_gray: None,
        hidden: None,
    }
}

fn ten_keys() -> Vec<SteamAchievementSchema> {
    (1..=10).map(|i| entry(&format!("k{}", i), &format!("Name {}", i))).collect()
}

fn scanner() -> AchievementScanner {
    let probe = UserdataProbe {
        exists: true,
        configured_is_dir: true,
        read_error: None,
        directories: vec![],
    };
    AchievementScanner::new(FilePath::new("C:\\Steam"), Some("42".to_string()), &probe).unwrap()
}

fn watcher() -> AchievementWatcher {
    AchievementWatcher::new(FilePath::new("C:\\Steam"), Some("42".to_string()))
}

fn pairs(list: &[UnlockEntry]) -> Vec<(String, i64)> {
    list.iter().map(|e| (e.achievement_id.clone(), e.unlock_time)).collect()
}

fn locked_row(app_id: u32, key: &str, source: ProviderTag) -> Achievement {
    Achievement {
        id: None,
        app_id,
        game_name: "Stored name".to_string(),
        achievement_id: key.to_string(),
        display_name: format!("Name of {}", key),
        description: format!("About {}", key),
        icon_url: Some(format!("icon-{}", key)),
        icon_gray_url: None,
        hidden: false,
        achieved: false,
        unlock_time: None,
        source,
        last_updated: 1,
        global_unlock_percentage: None,
    }
}

#[test]
fn source_names_and_tags() {
    assert_eq!(AchievementSourceType::OnlineFix.to_string(), "Online-fix");
    assert_eq!(AchievementSourceType::LibraryCache.to_string(), "Steamtools");
    assert_eq!(AchievementSourceType::Goldberg.to_string(), "Goldberg");
    assert_eq!(AchievementSourceType::SteamWebApi.to_string(), "Steam Web API");
    assert_eq!(AchievementSourceType::OnlineFix.tag(), ProviderTag::EmulatorB);
    assert_eq!(AchievementSourceType::LibraryCache.tag(), ProviderTag::PlatformCache);
    assert_eq!(AchievementSourceType::Goldberg.tag(), ProviderTag::EmulatorA);
    assert_eq!(AchievementSourceType::SteamWebApi.tag(), ProviderTag::RemoteApi);
    assert_eq!(
        AchievementSourceType::of_tag(ProviderTag::EmulatorA),
        Some(AchievementSourceType::Goldberg)
    );
    assert_eq!(AchievementSourceType::of_tag(ProviderTag::Manual), None);
    assert_eq!(
        AchievementSourceType::from_name("Steam Web API"),
        Some(AchievementSourceType::SteamWebApi)
    );
    assert_eq!(
        AchievementSourceType::from_name("Online-fix"),
        Some(AchievementSourceType::OnlineFix)
    );
    assert_eq!(AchievementSourceType::from_name("Manual"), None);
    assert_eq!(AchievementSourceType::from_name("other"), None);
}

#[test]
fn candidates_are_listed_in_the_order_of_discovery() {
    let w = watcher();
    let all = w.discovery_candidates(730, "Game", &Some("C:\\Users\\me\\AppData".to_string()));
    let kinds: Vec<AchievementSourceType> = all.iter().map(|c| c.source_type).collect();
    assert_eq!(
        kinds,
        vec![
            AchievementSourceType::LibraryCache,
            AchievementSourceType::Goldberg,
            AchievementSourceType::Goldberg,
            AchievementSourceType::OnlineFix,
            AchievementSourceType::OnlineFix,
            AchievementSourceType::OnlineFix,
            AchievementSourceType::OnlineFix,
        ]
    );
    assert_eq!(all[0].file_path.root, "C:\\Steam");
    assert_eq!(
        all[0].file_path.parts,
        vec!["userdata", "42", "config", "librarycache", "730.json"]
    );
    assert_eq!(all[1].file_path.root, "C:\\Users\\me\\AppData");
    assert_eq!(all[1].file_path.parts, vec!["GSE Saves", "730", "achievements.json"]);
    assert_eq!(
        all[2].file_path.parts,
        vec!["Goldberg SteamEmu Saves", "730", "achievements.json"]
    );
    assert_eq!(all[3].file_path.root, "C:\\Users\\Public\\Documents\\OnlineFix");
    assert_eq!(all[3].file_path.parts, vec!["730", "Stats", "Achievements.ini"]);
    assert_eq!(all[4].file_path.parts, vec!["730", "stats", "Achievements.ini"]);
    assert_eq!(all[5].file_path.parts, vec!["730", "Stats", "achievements.ini"]);
    assert_eq!(all[6].file_path.parts, vec!["730", "stats", "achievements.ini"]);
    for c in &all {
        assert_eq!(c.app_id, 730);
        assert_eq!(c.game_name, "Game");
    }
    let none = AchievementWatcher::new(FilePath::new("C:\\Steam"), None);
    assert_eq!(none.discovery_candidates(730, "Game", &None).len(), 4);
    let api = source_candidates(
        AchievementSourceType::SteamWebApi,
        &FilePath::new("x"),
        &None,
        &None,
        1,
        "G",
    );
    assert!(api.is_empty());
}

#[test]
fn the_first_existing_candidate_is_found() {
    let w = watcher();
    let appdata = Some("A".to_string());
    let found = w
        .find_achievement_source(5, "G", &appdata, &vec![false, false, true, true, false, false, false])
        .unwrap();
    assert_eq!(found.source_type, AchievementSourceType::Goldberg);
    assert_eq!(found.file_path.parts[0], "Goldberg SteamEmu Saves");
    assert!(w.find_achievement_source(5, "G", &appdata, &vec![false; 7]).is_none());
    assert!(w.find_achievement_source(5, "G", &appdata, &vec![]).is_none());
    let only = w
        .find_specific_source(
            5,
            "G",
            AchievementSourceType::OnlineFix,
            &appdata,
            &vec![false, false, false, true, true],
        )
        .unwrap();
    assert_eq!(only.file_path.parts, vec!["5", "stats", "achievements.ini"]);
    let list = w.discovery_candidates(5, "G", &appdata);
    assert!(pick_existing(&list, &vec![true]).is_some());
}

#[test]
fn a_started_game_is_watched_by_the_provider_of_its_rows() {
    let mut db = AchievementDatabase::new();
    let mut w = watcher();
    let appdata = Some("A".to_string());
    assert!(matches!(
        w.start_watching_game(&db, 730, "Game", &appdata, &vec![true; 7], 100),
        WatchDecision::Ignored
    ));
    db.insert_or_update_achievement(&locked_row(730, "k1", ProviderTag::EmulatorA)).unwrap();
    let candidates = w.watch_candidates(&db, 730, "Game", &appdata);
    assert_eq!(candidates.len(), 2);
    assert!(candidates.iter().all(|c| c.source_type == AchievementSourceType::Goldberg));
    match w.start_watching_game(&db, 730, "Game", &appdata, &vec![false, true], 100) {
        WatchDecision::Watching(source) => {
            assert_eq!(source.file_path.parts[0], "Goldberg SteamEmu Saves");
            assert_eq!(source.app_id, 730);
        }
        _ => panic!("expected a file to watch"),
    }
    assert!(w.check_pending_games(1_000_000).is_empty());
    assert!(matches!(
        w.start_watching_game(&db, 730, "Game", &appdata, &vec![false, false], 100),
        WatchDecision::Pending
    ));
    let due = w.check_pending_games(700);
    assert_eq!(due.len(), 1);
    assert_eq!((due[0].app_id, due[0].game_name.as_str(), due[0].last_probe), (730, "Game", 100));
    assert!(w.check_pending_games(699).is_empty());
    assert!(w.check_pending_games(50).is_empty());
    db.add_exclusion(730, "X".to_string());
    assert!(w.watch_candidates(&db, 730, "Game", &appdata).is_empty());
    assert!(matches!(
        w.start_watching_game(&db, 730, "Game", &appdata, &vec![true, true], 100),
        WatchDecision::Ignored
    ));
}

#[test]
fn rows_written_by_the_user_bind_no_file() {
    let mut db = AchievementDatabase::new();
    let mut w = watcher();
    db.insert_or_update_achievement(&locked_row(9, "a", ProviderTag::Manual)).unwrap();
    assert!(w.watch_candidates(&db, 9, "G", &None).is_empty());
    assert!(matches!(
        w.start_watching_game(&db, 9, "G", &None, &vec![], 5),
        WatchDecision::Pending
    ));
}

#[test]
fn a_waiting_game_is_looked_for_again() {
    let mut db = AchievementDatabase::new();
    let mut w = watcher();
    let appdata = Some("A".to_string());
    db.insert_or_update_achievement(&locked_row(1, "a", ProviderTag::PlatformCache)).unwrap();
    db.insert_or_update_achievement(&locked_row(2, "a", ProviderTag::PlatformCache)).unwrap();
    assert!(matches!(
        w.start_watching_game(&db, 1, "One", &appdata, &vec![false], 0),
        WatchDecision::Pending
    ));
    assert!(matches!(
        w.start_watching_game(&db, 2, "Two", &appdata, &vec![false], 10),
        WatchDecision::Pending
    ));
    assert!(matches!(
        w.retry_pending_game(3, &appdata, &vec![true; 7], 600),
        WatchDecision::Ignored
    ));
    assert!(matches!(
        w.retry_pending_game(1, &appdata, &vec![false; 7], 600),
        WatchDecision::Pending
    ));
    let due = w.check_pending_games(1200);
    assert_eq!(due.iter().map(|p| (p.app_id, p.last_probe)).collect::<Vec<_>>(), vec![
        (1, 600),
        (2, 10)
    ]);
    match w.retry_pending_game(2, &appdata, &vec![false, false, false, true], 1200) {
        WatchDecision::Watching(source) => {
            assert_eq!(source.source_type, AchievementSourceType::OnlineFix);
            assert_eq!(source.game_name, "Two");
        }
        _ => panic!("expected a file to watch"),
    }
    let due = w.check_pending_games(5000);
    assert_eq!(due.len(), 1);
    assert_eq!(due[0].app_id, 1);
    w.stop_watching_game(1);
    w.stop_watching_game(2);
    assert!(w.check_pending_games(50000).is_empty());
}

#[test]
fn unlocks_are_read_from_each_kind_of_file() {
    let schema = ten_keys();
    let cache = r#"[["achievements", {"data": {
        "vecHighlight": [{"strID": "k1", "bAchieved": true, "rtUnlocked": 11},
                         {"strID": "k2", "bAchieved": false},
                         {"bAchieved": true}],
        "vecUnachieved": [{"strID": "k9", "bAchieved": true}],
        "vecAchievedHidden": [{"strID": "k3"}, {"strID": "k4", "bAchieved": false}]}}]]"#;
    let got = extract_unlocks(AchievementSourceType::LibraryCache, cache, &schema, 99).unwrap();
    assert_eq!(pairs(&got), vec![("k1".to_string(), 11), ("k3".to_string(), 99)]);
    let save = r#"{"k5": {"earned": true, "earned_time": 55}, "k6": {"earned": false},
                   "k7": {"earned": true}}"#;
    let got = extract_unlocks(AchievementSourceType::Goldberg, save, &schema, 99).unwrap();
    assert_eq!(pairs(&got), vec![("k5".to_string(), 55), ("k7".to_string(), 99)]);
    let ini = "[ACH_8]\nachieved=true\ntimestamp=88\n[k2]\nachieved=true\n[ACH_1]\nachieved=false\n[Zzz]\nachieved=true\n";
    let got = extract_unlocks(AchievementSourceType::OnlineFix, ini, &schema, 99).unwrap();
    assert_eq!(pairs(&got), vec![("k8".to_string(), 88), ("k2".to_string(), 99)]);
    assert!(extract_unlocks(AchievementSourceType::SteamWebApi, "anything", &schema, 1)
        .unwrap()
        .is_empty());
    assert_eq!(
        extract_unlocks(AchievementSourceType::LibraryCache, "{", &schema, 1).err(),
        Some(EngineError::Parse)
    );
    assert_eq!(
        extract_unlocks(AchievementSourceType::LibraryCache, "[]", &schema, 1).err(),
        Some(EngineError::Parse)
    );
    assert_eq!(
        extract_unlocks(AchievementSourceType::Goldberg, "[]", &schema, 1).err(),
        Some(EngineError::Parse)
    );
}

#[test]
fn live_unlock() {
    let mut db = AchievementDatabase::new();
    let schema = ten_keys();
    let s = scanner();
    let before = r#"{"k3":{"earned":false},"k1":{"earned":true,"earned_time":5}}"#;
    s.scan_goldberg_achievements(&mut db, 730, "Game", before, &schema, None, 1).unwrap();
    let after = r#"{"k3":{"earned":true,"earned_time":1700000000},"k1":{"earned":true,"earned_time":5}}"#;
    let rates = vec![GlobalRate { name: "k3".to_string(), percent: "4.2".to_string() }];
    let unlocked = extract_unlocks(AchievementSourceType::Goldberg, after, &schema, 2000).unwrap();
    let events = check_for_unlocks(
        &mut db,
        730,
        "Game",
        AchievementSourceType::Goldberg,
        &unlocked,
        Some(&rates),
        2000,
    );
    assert_eq!(events.len(), 1);
    let e = &events[0];
    assert_eq!(e.app_id, 730);
    assert_eq!(e.game_name, "Game");
    assert_eq!(e.achievement_id, "k3");
    assert_eq!(e.display_name, "Name 3");
    assert_eq!(e.description, "About Name 3");
    assert_eq!(e.unlock_time, 1700000000);
    assert_eq!(e.source, ProviderTag::EmulatorA);
    assert_eq!(e.global_unlock_percentage.as_deref(), Some("4.2"));
    let row = db.get_game_achievements(730).into_iter().find(|r| r.achievement_id == "k3").unwrap();
    assert!(row.achieved);
    assert_eq!(row.unlock_time, Some(1700000000));
    assert_eq!(row.last_updated, 2000);
    assert_eq!(row.global_unlock_percentage.as_deref(), Some("4.2"));
    let again = check_for_unlocks(
        &mut db,
        730,
        "Game",
        AchievementSourceType::Goldberg,
        &unlocked,
        Some(&rates),
        3000,
    );
    assert!(again.is_empty());
    assert_eq!(db.get_game_achievements(730).len(), 10);
}

#[test]
fn a_key_named_twice_gives_one_event() {
    let mut db = AchievementDatabase::new();
    db.insert_or_update_achievement(&locked_row(1, "a", ProviderTag::PlatformCache)).unwrap();
    db.insert_or_update_achievement(&locked_row(1, "b", ProviderTag::PlatformCache)).unwrap();
    db.insert_or_update_achievement(&locked_row(2, "a", ProviderTag::PlatformCache)).unwrap();
    let mut kept = locked_row(1, "b", ProviderTag::PlatformCache);
    kept.global_unlock_percentage = Some("7".to_string());
    db.insert_or_update_achievement(&kept).unwrap();
    let entries = vec![
        UnlockEntry { achievement_id: "a".to_string(), unlock_time: 10 },
        UnlockEntry { achievement_id: "missing".to_string(), unlock_time: 11 },
        UnlockEntry { achievement_id: "a".to_string(), unlock_time: 12 },
        UnlockEntry { achievement_id: "b".to_string(), unlock_time: 13 },
    ];
    let rates = vec![GlobalRate { name: "b".to_string(), percent: "50".to_string() }];
    let events = check_for_unlocks(
        &mut db,
        1,
        "Shown name",
        AchievementSourceType::LibraryCache,
        &entries,
        Some(&rates),
        500,
    );
    let got: Vec<(String, i64)> =
        events.iter().map(|e| (e.achievement_id.clone(), e.unlock_time)).collect();
    assert_eq!(got, vec![("a".to_string(), 10), ("b".to_string(), 13)]);
    assert_eq!(events[0].global_unlock_percentage, None);
    assert_eq!(events[1].global_unlock_percentage.as_deref(), Some("7"));
    assert_eq!(events[0].game_name, "Shown name");
    assert_eq!(events[0].icon_url.as_deref(), Some("icon-a"));
    let other = &db.rows()[2];
    assert_eq!(other.app_id, 2);
    assert!(!other.achieved);
    assert_eq!(db.rows()[0].unlock_time, Some(10));
    assert_eq!(db.rows()[0].game_name, "Stored name");
}

#[test]
fn the_row_written_last_answers_for_a_key() {
    let mut db = AchievementDatabase::new();
    db.insert_or_update_achievement(&locked_row(1, "a", ProviderTag::PlatformCache)).unwrap();
    db.insert_or_update_achievement(&locked_row(1, "a", ProviderTag::Manual)).unwrap();
    let entries = vec![UnlockEntry { achievement_id: "a".to_string(), unlock_time: 10 }];
    let events =
        check_for_unlocks(&mut db, 1, "G", AchievementSourceType::LibraryCache, &entries, None, 5);
    assert_eq!(events.len(), 1);
    assert!(!db.rows()[0].achieved);
    assert!(db.rows()[1].achieved);
    let listing = db.get_game_achievements(1);
    assert_eq!(listing[1].source, ProviderTag::Manual);
}

#[test]
fn a_burst_of_events_gives_one_reparse() {
    let mut d = Debouncer::new();
    assert_eq!(DEBOUNCE_MS, 1000);
    assert!(!d.poll(0));
    let mut runs = 0;
    for i in 0..100u64 {
        d.on_event(FileEventKind::Modify, 5000 + i * 10);
        if d.poll(5000 + i * 10 + 5) {
            runs += 1;
        }
    }
    assert_eq!(runs, 0);
    assert_eq!(d.next_deadline(), Some(5000 + 990 + 1000));
    assert!(!d.poll(6989));
    assert!(d.poll(6990));
    assert!(!d.poll(6991));
    assert!(!d.poll(100000));
    assert_eq!(d.next_deadline(), None);
}

#[test]
fn only_some_events_ask_for_a_reparse() {
    let mut d = Debouncer::new();
    d.on_event(FileEventKind::Remove, 10);
    d.on_event(FileEventKind::Any, 10);
    d.on_event(FileEventKind::Other, 10);
    assert_eq!(d.next_deadline(), None);
    d.on_event(FileEventKind::Access, 10);
    assert_eq!(d.next_deadline(), Some(1010));
    d.on_event(FileEventKind::Remove, 500);
    assert_eq!(d.next_deadline(), Some(1010));
    d.on_event(FileEventKind::Create, 20);
    assert_eq!(d.next_deadline(), Some(1020));
    d.on_event(FileEventKind::Modify, u64::MAX - 5);
    assert_eq!(d.next_deadline(), Some(u64::MAX));
    assert!(d.poll(u64::MAX));
}

#[test]
fn debounce_collapse() {
    let mut db = AchievementDatabase::new();
    let schema = ten_keys();
    let text = r#"{"k1":{"earned":true,"earned_time":5},"k2":{"earned":false}}"#;
    scanner().scan_goldberg_achievements(&mut db, 730, "Game", text, &schema, None, 1).unwrap();
    let mut d = Debouncer::new();
    let mut parses = 0;
    let mut events = 0;
    let mut clock = 0u64;
    for _ in 0..50 {
        clock += 7;
        d.on_event(FileEventKind::Modify, clock);
    }
    for tick in 0..30 {
        if d.poll(clock + tick * 100) {
            parses += 1;
            let unlocked =
                extract_unlocks(AchievementSourceType::Goldberg, text, &schema, 9).unwrap();
            events += check_for_unlocks(
                &mut db,
                730,
                "Game",
                AchievementSourceType::Goldberg,
                &unlocked,
                None,
                9,
            )
            .len();
        }
    }
    assert_eq!(parses, 1);
    assert_eq!(events, 0);
}

#[test]
fn all_watches_are_dropped_at_once() {
    let mut db = AchievementDatabase::new();
    let mut w = watcher();
    let appdata = Some("A".to_string());
    db.insert_or_update_achievement(&locked_row(1, "a", ProviderTag::EmulatorB)).unwrap();
    db.insert_or_update_achievement(&locked_row(2, "a", ProviderTag::EmulatorB)).unwrap();
    assert!(matches!(
        w.start_watching_game(&db, 1, "One", &appdata, &vec![true], 0),
        WatchDecision::Watching(_)
    ));
    assert!(matches!(
        w.start_watching_game(&db, 2, "Two", &appdata, &vec![false; 4], 0),
        WatchDecision::Pending
    ));
    w.stop_all_watchers();
    assert_eq!(w.check_pending_games(600).len(), 1);
    assert!(matches!(
        w.retry_pending_game(2, &appdata, &vec![true; 7], 600),
        WatchDecision::Watching(_)
    ));
}

#[test]
fn a_watcher_gives_up_when_its_file_stays_away() {
    let mut h = SourceHealth::new();
    assert_eq!(h.on_reparse(ReparseOutcome::Parsed, 10), WatcherVerdict::Idle);
    assert_eq!(h.on_reparse(ReparseOutcome::ParseError, 20), WatcherVerdict::Idle);
    assert_eq!(h.on_reparse(ReparseOutcome::FileMissing, 100), WatcherVerdict::LookAgain(1100));
    assert_eq!(h.on_reparse(ReparseOutcome::FileMissing, 600), WatcherVerdict::LookAgain(1100));
    assert_eq!(h.on_reparse(ReparseOutcome::Parsed, 700), WatcherVerdict::Idle);
    assert_eq!(h.on_reparse(ReparseOutcome::FileMissing, 800), WatcherVerdict::LookAgain(1800));
    assert_eq!(h.on_reparse(ReparseOutcome::FileMissing, 1799), WatcherVerdict::LookAgain(1800));
    assert_eq!(h.on_reparse(ReparseOutcome::FileMissing, 1800), WatcherVerdict::Exit);
    assert_eq!(h.on_reparse(ReparseOutcome::FileMissing, 5000), WatcherVerdict::Exit);
    assert_eq!(h.on_reparse(ReparseOutcome::ParseError, 5001), WatcherVerdict::Idle);
    let mut db = AchievementDatabase::new();
    let mut w = watcher();
    db.insert_or_update_achievement(&locked_row(1, "a", ProviderTag::EmulatorB)).unwrap();
    assert!(matches!(
        w.start_watching_game(&db, 1, "One", &None, &vec![true], 0),
        WatchDecision::Watching(_)
    ));
    w.source_lost(2, 50);
    assert!(w.check_pending_games(100000).is_empty());
    w.source_lost(1, 50);
    let waiting = w.check_pending_games(650);
    assert_eq!(waiting.len(), 1);
    assert_eq!((waiting[0].app_id, waiting[0].game_name.as_str(), waiting[0].last_probe), (1, "One", 50));
}

#[test]
fn an_unlock_noted_late_keeps_the_later_time_of_write() {
    let mut db = AchievementDatabase::new();
    let mut row = locked_row(1, "a", ProviderTag::EmulatorA);
    row.last_updated = 900;
    db.insert_or_update_achievement(&row).unwrap();
    db.insert_or_update_achievement(&locked_row(1, "b", ProviderTag::EmulatorA)).unwrap();
    let entries = vec![
        UnlockEntry { achievement_id: "a".to_string(), unlock_time: 10 },
        UnlockEntry { achievement_id: "b".to_string(), unlock_time: 11 },
    ];
    let events =
        check_for_unlocks(&mut db, 1, "Game", AchievementSourceType::Goldberg, &entries, None, 500);
    assert_eq!(events.len(), 2);
    assert!(db.rows()[0].achieved);
    assert_eq!(db.rows()[0].unlock_time, Some(10));
    assert_eq!(db.rows()[0].last_updated, 900);
    assert_eq!(db.rows()[1].unlock_time, Some(11));
    assert_eq!(db.rows()[1].last_updated, 500);
}

#[test]
fn rates_are_asked_for_only_where_an_unlock_lacks_one() {
    let mut db = AchievementDatabase::new();
    db.insert_or_update_achievement(&locked_row(1, "a", ProviderTag::EmulatorA)).unwrap();
    let mut rated = locked_row(1, "b", ProviderTag::EmulatorA);
    rated.global_unlock_percentage = Some("12.5".to_string());
    db.insert_or_update_achievement(&rated).unwrap();
    let mut done = locked_row(1, "c", ProviderTag::EmulatorA);
    done.achieved = true;
    done.unlock_time = Some(3);
    db.insert_or_update_achievement(&done).unwrap();
    db.insert_or_update_achievement(&locked_row(2, "d", ProviderTag::EmulatorA)).unwrap();
    let entry = |key: &str| UnlockEntry { achievement_id: key.to_string(), unlock_time: 9 };
    assert!(needs_rates(&db, 1, &vec![entry("b"), entry("a")]));
    assert!(!needs_rates(&db, 1, &vec![entry("b"), entry("c"), entry("d"), entry("zz")]));
    assert!(!needs_rates(&db, 1, &Vec::new()));
    assert!(needs_rates(&db, 2, &vec![entry("d")]));
}
