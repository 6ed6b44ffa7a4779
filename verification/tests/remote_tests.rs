use steam_backup_manager::achievement_scanner::{
    parse_steam_achievements_json, rows_of_stats,
};
use steam_backup_manager::achievements::ProviderTag;
use steam_backup_manager::error::EngineError;
use steam_backup_manager::json::parse;
use steam_backup_manager::steam_achievements::{
    find_rate, parse_steam_id, read_global_rates, read_player_achievements, read_schema,
    read_search_results, scan_achievements_for_game, GlobalRate, PlayerAchievement,
    SteamAchievementClient, SteamAchievementSchema,
};
use steam_backup_manager::vdf::parse_steam_achievements_vdf;

fn client(key: Option<&str>, id: Option<&str>) -> SteamAchievementClient {
    SteamAchievementClient::new(key.map(|k| k.to_string()), id.map(|i| i.to_string()))
}

#[test]
fn schema_answers_are_read() {
    let doc = parse(
        r#"{"game": {"gameName": "G", "availableGameStats": {"achievements": [
            {"name": "A", "defaultvalue": 0, "displayName": "First", "hidden": 0,
             "description": "Do it", "icon": "i.jpg", "icongray": "g.jpg"},
            {"name": "B", "displayName": "Second", "hidden": 1, "description": null}
        ]}}}"#,
    )
    .unwrap();
    let schema = read_schema(&doc).unwrap();
    assert_eq!(schema.len(), 2);
    assert_eq!(schema[0].name, "A");
    assert_eq!(schema[0].display_name, "First");
    assert_eq!(schema[0].description.as_deref(), Some("Do it"));
    assert_eq!(schema[0].icon.as_deref(), Some("i.jpg"));
    assert_eq!(schema[0].icon_gray.as_deref(), Some("g.jpg"));
    assert_eq!(schema[0].hidden, Some(0));
    assert_eq!(schema[1].description, None);
    assert_eq!(schema[1].icon, None);
    assert_eq!(schema[1].hidden, Some(1));
}

#[test]
fn schema_answers_without_a_schema() {
    let missing = [
        r#"{}"#,
        r#"{"game": null}"#,
        r#"{"game": {}}"#,
        r#"{"game": {"availableGameStats": {"stats": []}}}"#,
        r#"{"game": {"availableGameStats": {"achievements": null}}}"#,
    ];
    for text in missing {
        assert_eq!(read_schema(&parse(text).unwrap()).err(), Some(EngineError::NotFound), "{}", text);
    }
    let broken = [
        r#"[]"#,
        r#"{"game": 5}"#,
        r#"{"game": {"availableGameStats": []}}"#,
        r#"{"game": {"availableGameStats": {"achievements": {}}}}"#,
        r#"{"game": {"availableGameStats": {"achievements": [{"name": "A"}]}}}"#,
        r#"{"game": {"availableGameStats": {"achievements": [{"name": 1, "displayName": "x"}]}}}"#,
        r#"{"game": {"availableGameStats": {"achievements": [{"name": "A", "displayName": "x", "hidden": -1}]}}}"#,
        r#"{"game": {"availableGameStats": {"achievements": [{"name": "A", "displayName": "x", "hidden": 4294967296}]}}}"#,
        r#"{"game": {"availableGameStats": {"achievements": [{"name": "A", "displayName": "x", "icon": 3}]}}}"#,
    ];
    for text in broken {
        assert_eq!(read_schema(&parse(text).unwrap()).err(), Some(EngineError::Parse), "{}", text);
    }
    let empty = read_schema(&parse(r#"{"game": {"availableGameStats": {"achievements": []}}}"#).unwrap());
    assert!(empty.unwrap().is_empty());
}

#[test]
fn global_rates_are_read_as_decimal_text() {
    let doc = parse(
        r#"{"achievementpercentages": {"achievements": [
            {"name": "A", "percent": 12.5}, {"name": "B", "percent": 7},
            {"name": "C", "percent": -3}, {"name": "D", "percent": 18446744073709551615},
            {"name": "A", "percent": 0.1}]}}"#,
    )
    .unwrap();
    let rates = read_global_rates(&doc).unwrap();
    let got: Vec<(&str, &str)> = rates.iter().map(|r| (r.name.as_str(), r.percent.as_str())).collect();
    assert_eq!(
        got,
        vec![("A", "12.5"), ("B", "7"), ("C", "-3"), ("D", "18446744073709551615"), ("A", "0.1")]
    );
    assert_eq!(find_rate(Some(&rates), &"A".to_string()).as_deref(), Some("0.1"));
    assert_eq!(find_rate(Some(&rates), &"Z".to_string()), None);
    assert_eq!(find_rate(None, &"A".to_string()), None);
    assert!(read_global_rates(&parse("{}").unwrap()).unwrap().is_empty());
    assert!(read_global_rates(&parse(r#"{"achievementpercentages": {}}"#).unwrap())
        .unwrap()
        .is_empty());
    for text in [
        r#"[]"#,
        r#"{"achievementpercentages": 1}"#,
        r#"{"achievementpercentages": {"achievements": [{"name": "A"}]}}"#,
        r#"{"achievementpercentages": {"achievements": [{"name": "A", "percent": "12"}]}}"#,
        r#"{"achievementpercentages": {"achievements": [{"percent": 12}]}}"#,
    ] {
        assert_eq!(read_global_rates(&parse(text).unwrap()).err(), Some(EngineError::Parse));
    }
}

#[test]
fn player_progress_is_read() {
    let doc = parse(
        r#"{"playerstats": {"steamID": "1", "achievements": [
            {"apiname": "A", "achieved": 1, "unlocktime": 1700000000},
            {"apiname": "B", "achieved": 0, "unlocktime": 0},
            {"apiname": "C", "achieved": 1}]}}"#,
    )
    .unwrap();
    let progress = read_player_achievements(&doc).unwrap();
    assert_eq!(progress.len(), 3);
    assert_eq!(
        (progress[0].apiname.as_str(), progress[0].achieved, progress[0].unlocktime),
        ("A", 1, Some(1700000000))
    );
    assert_eq!(progress[2].unlocktime, None);
    for text in [r#"{}"#, r#"{"playerstats": {"error": "Profile is not public"}}"#] {
        assert_eq!(
            read_player_achievements(&parse(text).unwrap()).err(),
            Some(EngineError::Unavailable)
        );
    }
    for text in [
        r#"{"playerstats": {"achievements": [{"apiname": "A"}]}}"#,
        r#"{"playerstats": {"achievements": [{"apiname": "A", "achieved": true}]}}"#,
        r#"{"playerstats": {"achievements": [{"apiname": "A", "achieved": 1, "unlocktime": "x"}]}}"#,
        r#"3"#,
    ] {
        assert_eq!(
            read_player_achievements(&parse(text).unwrap()).err(),
            Some(EngineError::Parse)
        );
    }
}

#[test]
fn schema_and_progress_give_the_rows_of_the_web_api() {
    let schema = vec![
        SteamAchievementSchema {
            name: "A".to_string(),
            display_name: "First".to_string(),
            description: Some("Do it".to_string()),
            icon: Some("i.jpg".to_string()),
            icon_gray: Some("g.jpg".to_string()),
            hidden: Some(1),
        },
        SteamAchievementSchema {
            name: "B".to_string(),
            display_name: "Second".to_string(),
            description: None,
            icon: None,
            icon_gray: None,
            hidden: None,
        },
        SteamAchievementSchema {
            name: "C".to_string(),
            display_name: "Third".to_string(),
            description: None,
            icon: None,
            icon_gray: None,
            hidden: Some(2),
        },
    ];
    let progress = vec![
        PlayerAchievement { apiname: "B".to_string(), achieved: 0, unlocktime: Some(5) },
        PlayerAchievement { apiname: "A".to_string(), achieved: 1, unlocktime: Some(9) },
        PlayerAchievement { apiname: "A".to_string(), achieved: 0, unlocktime: None },
        PlayerAchievement { apiname: "C".to_string(), achieved: 2, unlocktime: Some(7) },
    ];
    let rates = vec![GlobalRate { name: "B".to_string(), percent: "1.5".to_string() }];
    let rows = scan_achievements_for_game(10, "G", &schema, Some(&progress), Some(&rates), 77);
    assert_eq!(rows.len(), 3);
    assert!(rows[0].achieved);
    assert_eq!(rows[0].unlock_time, Some(9));
    assert!(rows[0].hidden);
    assert_eq!(rows[0].description, "Do it");
    assert_eq!(rows[0].icon_url.as_deref(), Some("i.jpg"));
    assert_eq!(rows[0].icon_gray_url.as_deref(), Some("g.jpg"));
    assert!(!rows[1].achieved);
    assert_eq!(rows[1].unlock_time, None);
    assert_eq!(rows[1].global_unlock_percentage.as_deref(), Some("1.5"));
    assert!(!rows[2].achieved);
    assert!(!rows[2].hidden);
    for r in &rows {
        assert_eq!(r.source, ProviderTag::RemoteApi);
        assert_eq!(r.last_updated, 77);
        assert_eq!(r.app_id, 10);
    }
    let locked = scan_achievements_for_game(10, "G", &schema, None, None, 77);
    assert!(locked.iter().all(|r| !r.achieved && r.unlock_time.is_none()));
    assert!(scan_achievements_for_game(10, "G", &Vec::new(), None, None, 1).is_empty());
}

#[test]
fn search_keeps_the_first_twenty_games() {
    let mut items = Vec::new();
    for i in 0..30 {
        let kind = if i % 3 == 0 { "dlc" } else if i % 3 == 1 { "app" } else { "game" };
        items.push(format!(
            r#"{{"id": {}, "name": "Item {}", "type": "{}", "tiny_image": "t{}.jpg"}}"#,
            i, i, kind, i
        ));
    }
    let text = format!(r#"{{"total": 30, "items": [{}]}}"#, items.join(","));
    let results = read_search_results(&parse(&text).unwrap()).unwrap();
    assert_eq!(results.len(), 20);
    assert_eq!(results[0].app_id, 1);
    assert_eq!(results[0].name, "Item 1");
    assert_eq!(results[0].header_image.as_deref(), Some("t1.jpg"));
    assert_eq!(results[1].app_id, 2);
    assert_eq!(results[19].app_id, 29);
    assert!(read_search_results(&parse("{}").unwrap()).unwrap().is_empty());
    for text in [
        r#"[]"#,
        r#"{"items": 1}"#,
        r#"{"items": [{"id": 1, "name": "x"}]}"#,
        r#"{"items": [{"id": -1, "name": "x", "type": "app"}]}"#,
    ] {
        assert_eq!(read_search_results(&parse(text).unwrap()).err(), Some(EngineError::Parse));
    }
}

#[test]
fn request_addresses() {
    let c = client(Some("KEY"), Some("76561198000000000"));
    assert_eq!(c.player(), Some(76561198000000000));
    assert_eq!(
        c.get_achievement_schema(730).unwrap(),
        "https://api.steampowered.com/ISteamUserStats/GetSchemaForGame/v2/?key=KEY&appid=730"
    );
    assert_eq!(
        c.get_global_achievement_percentages(4000),
        "https://api.steampowered.com/ISteamUserStats/GetGlobalAchievementPercentagesForApp/v2/?gameid=4000"
    );
    assert_eq!(
        c.get_player_achievements(730, 76561198000000000),
        "https://api.steampowered.com/ISteamUserStats/GetPlayerAchievements/v1/?appid=730&steamid=76561198000000000&key=KEY"
    );
    assert_eq!(
        c.search_games("half life: 2").unwrap(),
        "https://store.steampowered.com/api/storesearch/?term=half%20life%3A%202&l=english&cc=US"
    );
    assert_eq!(c.search_games("  \t\n "), None);
    assert_eq!(c.search_games(""), None);
    let bare = client(None, None);
    assert_eq!(bare.get_achievement_schema(730).err(), Some(EngineError::NotConfigured));
    assert_eq!(
        bare.get_player_achievements(1, 2),
        "https://api.steampowered.com/ISteamUserStats/GetPlayerAchievements/v1/?appid=1&steamid=2"
    );
    assert_eq!(bare.player(), None);
}

#[test]
fn player_ids() {
    assert_eq!(parse_steam_id("0"), Some(0));
    assert_eq!(parse_steam_id("+15"), Some(15));
    assert_eq!(parse_steam_id("007"), Some(7));
    assert_eq!(parse_steam_id("18446744073709551615"), Some(u64::MAX));
    assert_eq!(parse_steam_id("18446744073709551616"), None);
    assert_eq!(parse_steam_id(""), None);
    assert_eq!(parse_steam_id("+"), None);
    assert_eq!(parse_steam_id("-1"), None);
    assert_eq!(parse_steam_id("12a"), None);
    assert_eq!(parse_steam_id(" 12"), None);
    assert_eq!(client(None, Some("abc")).player(), None);
}

#[test]
fn statistics_files_are_read() {
    let doc = parse(
        r#"[{"achievement": "A", "unlocked": 1, "unlocktime": 5},
            {"achievement": "B", "unlocked": 0, "unlocktime": 6},
            {"achievement": "C", "unlocked": 2}]"#,
    )
    .unwrap();
    let rows = parse_steam_achievements_json(&doc, 3, "G", 8).unwrap();
    assert_eq!(rows.len(), 3);
    assert!(rows[0].achieved);
    assert_eq!(rows[0].unlock_time, Some(5));
    assert_eq!(rows[0].display_name, "A");
    assert_eq!(rows[0].source, ProviderTag::RemoteApi);
    assert!(!rows[1].achieved);
    assert_eq!(rows[1].unlock_time, None);
    assert!(!rows[2].achieved);
    for text in [r#"{}"#, r#"[{"achievement": "A"}]"#, r#"[{"achievement": "A", "unlocked": 2147483648}]"#] {
        assert_eq!(
            parse_steam_achievements_json(&parse(text).unwrap(), 3, "G", 8).err(),
            Some(EngineError::Parse)
        );
    }
    let text = "\"Achievements\"\n{\n\t\"ACH_WIN\"\n\t{\n\t\t\"unlocked\"\t\"1\"\n\t\t\"unlocktime\"\t\"1234567890\"\n\t}\n\t\"ACH_LOSE\" { \"unlocked\" \"0\" }\n\t\"BIG\"{\"unlocked\"\"99999999999\"\"unlocktime\"\"99999999999999999999\"}\n\t\"BROKEN\" { \"unlocked\" \"x\" }\n\t\"OPEN\" { \"unlocked\" \"1\" \n}";
    let stats = parse_steam_achievements_vdf(text);
    let got: Vec<(&str, i32, Option<i64>)> =
        stats.iter().map(|s| (s.achievement.as_str(), s.unlocked, s.unlocktime)).collect();
    assert_eq!(
        got,
        vec![
            ("ACH_WIN", 1, Some(1234567890)),
            ("ACH_LOSE", 0, None),
            ("BIG", 0, None),
            ("OPEN", 1, None)
        ]
    );
    let rows = rows_of_stats(&stats, 3, "G", 8);
    assert_eq!(rows.len(), 4);
    assert!(rows[0].achieved);
    assert_eq!(rows[0].unlock_time, Some(1234567890));
    assert!(rows[3].achieved);
    assert!(parse_steam_achievements_vdf("").is_empty());
}
