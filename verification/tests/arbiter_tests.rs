use steam_backup_manager::achievement_scanner::{
    scan_cache_document, scan_goldberg_document, scan_onlinefix_rows,
};
use steam_backup_manager::achievements::{Achievement, AchievementDatabase, ProviderTag};
use steam_backup_manager::arbiter::{
    add_game_from_source, check_game_sources, choose_provider, rank_of, sync_achievements,
    ProviderScan, SourceCount,
};
use steam_backup_manager::error::EngineError;
use steam_backup_manager::json::parse;
use steam_backup_manager::steam_achievements::{
    read_player_achievements, scan_achievements_for_game, SteamAchievementSchema,
};

fn entry(name: &str) -> SteamAchievementSchema {
    SteamAchievementSchema {
        name: name.to_string(),
        display_name: format!("Name {}", name),
        description: None,
        icon: None,
        icon_gray: None,
        hidden: None,
    }
}

fn ten_keys() -> Vec<SteamAchievementSchema> {
    (1..=10).map(|i| entry(&format!("k{}", i))).collect()
}

fn count(source: ProviderTag, unlocked: usize) -> SourceCount {
    SourceCount { source, unlocked_count: unlocked, total_count: 10 }
}

fn manual(app_id: u32, key: &str) -> Achievement {
    Achievement {
        id: None,
        app_id,
        game_name: "G".to_string(),
        achievement_id: key.to_string(),
        display_name: key.to_string(),
        description: String::new(),
        icon_url: None,
        icon_gray_url: None,
        hidden: false,
        achieved: true,
        unlock_time: Some(1),
        source: ProviderTag::Manual,
        last_updated: 1,
        global_unlock_percentage: None,
    }
}

#[test]
fn the_most_unlocked_rows_win() {
    let counts = vec![
        count(ProviderTag::PlatformCache, 1),
        count(ProviderTag::EmulatorB, 5),
        count(ProviderTag::EmulatorA, 3),
    ];
    assert_eq!(choose_provider(&counts), Some(ProviderTag::EmulatorB));
    assert_eq!(choose_provider(&Vec::new()), None);
}

#[test]
fn a_tie_goes_by_the_fixed_order() {
    let all = [
        ProviderTag::RemoteApi,
        ProviderTag::EmulatorB,
        ProviderTag::EmulatorA,
        ProviderTag::PlatformCache,
    ];
    let counts: Vec<SourceCount> = all.iter().map(|t| count(*t, 0)).collect();
    assert_eq!(choose_provider(&counts), Some(ProviderTag::PlatformCache));
    let counts: Vec<SourceCount> = all[..3].iter().map(|t| count(*t, 4)).collect();
    assert_eq!(choose_provider(&counts), Some(ProviderTag::EmulatorA));
    let counts = vec![count(ProviderTag::RemoteApi, 2), count(ProviderTag::EmulatorB, 2)];
    assert_eq!(choose_provider(&counts), Some(ProviderTag::EmulatorB));
    assert_eq!(
        [
            rank_of(ProviderTag::PlatformCache),
            rank_of(ProviderTag::EmulatorA),
            rank_of(ProviderTag::EmulatorB),
            rank_of(ProviderTag::RemoteApi),
            rank_of(ProviderTag::Manual)
        ],
        [0, 1, 2, 3, 4]
    );
}

#[test]
fn cold_onboard_platform_cache_wins() {
    let schema = ten_keys();
    let cache = r#"[["achievements", {"data": {
        "vecHighlight": [{"strID": "k1", "bAchieved": true, "rtUnlocked": 100}],
        "vecAchievedHidden": [{"strID": "k2", "rtUnlocked": 200}]}}]]"#;
    let cache_rows =
        scan_cache_document(&parse(cache).unwrap(), 730, "Game", &schema, None, 1).unwrap();
    let progress = read_player_achievements(&parse(r#"{"playerstats": {"success": false}}"#).unwrap());
    assert_eq!(progress.err(), Some(EngineError::Unavailable));
    let remote_rows = scan_achievements_for_game(730, "Game", &schema, None, None, 1);
    assert!(remote_rows.iter().all(|r| !r.achieved));
    let scans = vec![
        ProviderScan { source: ProviderTag::PlatformCache, rows: cache_rows },
        ProviderScan { source: ProviderTag::RemoteApi, rows: remote_rows },
    ];
    let mut db = AchievementDatabase::new();
    assert_eq!(sync_achievements(&mut db, 730, &scans), Ok(Some(ProviderTag::PlatformCache)));
    let rows = db.get_game_achievements(730);
    assert_eq!(rows.len(), 10);
    assert!(rows.iter().all(|r| r.source == ProviderTag::PlatformCache));
    let unlocked: Vec<&str> =
        rows.iter().filter(|r| r.achieved).map(|r| r.achievement_id.as_str()).collect();
    assert_eq!(unlocked, vec!["k1", "k2"]);
    let sums = db.get_all_games();
    assert_eq!(sums.len(), 1);
    assert_eq!(sums[0].unlocked_achievements, 2);
    assert_eq!(sums[0].total_achievements, 10);
}

#[test]
fn cold_onboard_emulator_b_wins_by_count() {
    let schema = ten_keys();
    let cache = r#"[["achievements", {"data": {
        "vecHighlight": [{"strID": "k1", "bAchieved": true}]}}]]"#;
    let cache_rows =
        scan_cache_document(&parse(cache).unwrap(), 730, "Game", &schema, None, 1).unwrap();
    let ini = "[ACH_1]\nachieved=true\n[ACH_2]\nachieved=true\n[ACH_3]\nachieved=true\n[ACH_4]\nachieved=true\n[ACH_5]\nachieved=true\n";
    let ini_rows = scan_onlinefix_rows(ini, 730, "Game", &schema, None, 1);
    let scans = vec![
        ProviderScan { source: ProviderTag::PlatformCache, rows: cache_rows },
        ProviderScan { source: ProviderTag::EmulatorB, rows: ini_rows },
    ];
    let mut db = AchievementDatabase::new();
    db.insert_or_update_achievement(&manual(730, "mine")).unwrap();
    db.insert_or_update_achievement(&manual(1, "other")).unwrap();
    assert_eq!(sync_achievements(&mut db, 730, &scans), Ok(Some(ProviderTag::EmulatorB)));
    let rows = db.get_game_achievements(730);
    assert_eq!(rows.iter().filter(|r| r.source == ProviderTag::PlatformCache).count(), 0);
    assert_eq!(rows.iter().filter(|r| r.source == ProviderTag::Manual).count(), 1);
    let scanned: Vec<&Achievement> =
        rows.iter().filter(|r| r.source != ProviderTag::Manual).collect();
    assert_eq!(scanned.len(), 10);
    assert!(scanned.iter().all(|r| r.source == ProviderTag::EmulatorB));
    assert_eq!(scanned.iter().filter(|r| r.achieved).count(), 5);
    assert_eq!(db.get_game_achievements(1).len(), 1);
}

#[test]
fn the_count_table_shows_every_provider() {
    let schema = ten_keys();
    let save = r#"{"k1": {"earned": true}, "k2": {"earned": true}, "k3": {"earned": false}}"#;
    let save_rows =
        scan_goldberg_document(&parse(save).unwrap(), 5, "Game", &schema, None, 1).unwrap();
    let remote_rows = scan_achievements_for_game(5, "Game", &schema, None, None, 1);
    let scans = vec![
        ProviderScan { source: ProviderTag::EmulatorA, rows: save_rows },
        ProviderScan { source: ProviderTag::RemoteApi, rows: remote_rows },
        ProviderScan { source: ProviderTag::EmulatorB, rows: Vec::new() },
    ];
    let mut db = AchievementDatabase::new();
    let counts = check_game_sources(&mut db, 5, &scans).unwrap();
    let table: Vec<(ProviderTag, usize, usize)> =
        counts.iter().map(|c| (c.source, c.unlocked_count, c.total_count)).collect();
    assert_eq!(
        table,
        vec![
            (ProviderTag::EmulatorA, 2, 10),
            (ProviderTag::RemoteApi, 0, 10),
            (ProviderTag::EmulatorB, 0, 0)
        ]
    );
    assert_eq!(db.get_game_achievements(5).len(), 20);
    assert_eq!(add_game_from_source(&mut db, 5, &scans[1]), Ok(0));
    let rows = db.get_game_achievements(5);
    assert_eq!(rows.len(), 10);
    assert!(rows.iter().all(|r| r.source == ProviderTag::RemoteApi));
    assert_eq!(add_game_from_source(&mut db, 5, &scans[0]), Ok(2));
    assert_eq!(db.get_game_achievements(5).len(), 10);
    assert_eq!(sync_achievements(&mut db, 5, &Vec::new()), Ok(None));
    assert_eq!(db.get_game_achievements(5).len(), 10);
}
