use steam_backup_manager::achievement_scanner::{
    scan_cache_document, scan_goldberg_document, scan_onlinefix_rows, AchievementScanner,
    UserdataProbe,
};
use steam_backup_manager::achievements::{Achievement, AchievementDatabase, ProviderTag};
use steam_backup_manager::error::EngineError;
use steam_backup_manager::ini::parse_ini;
use steam_backup_manager::json::{parse, JsonValue};
use steam_backup_manager::paths::FilePath;
use steam_backup_manager::steam_achievements::{GlobalRate, SteamAchievementSchema};

fn entry(name: &str, display: &str, description: Option<&str>) -> SteamAchievementSchema {
    SteamAchievementSchema {
        name: name.to_string(),
        display_name: display.to_string(),
        description: description.map(|d| d.to_string()),
        icon: Some(format!("https://cdn/{}.jpg", name)),
        icon_gray: Some(format!("https://cdn/{}_gray.jpg", name)),
        hidden: Some(0),
    }
}

fn ten_keys() -> Vec<SteamAchievementSchema> {
    (1..=10).map(|i| entry(&format!("k{}", i), &format!("Name {}", i), Some("text"))).collect()
}

fn unlocked_keys(rows: &[Achievement]) -> Vec<String> {
    rows.iter().filter(|r| r.achieved).map(|r| r.achievement_id.clone()).collect()
}

fn scanner() -> AchievementScanner {
    let probe = UserdataProbe {
        exists: true,
        configured_is_dir: true,
        read_error: None,
        directories: vec![],
    };
    AchievementScanner::new(FilePath::new("C:\\Steam"), Some("42".to_string()), &probe).unwrap()
}

const CACHE: &str = r#"[
  ["other", {"data": 1}],
  ["achievements", {"version": 2, "data": {
     "vecHighlight": [{"strID": "k1", "bAchieved": true, "rtUnlocked": 1700000001},
                      {"strID": "k3", "bAchieved": false, "rtUnlocked": 0}],
     "vecUnachieved": [{"strID": "k4"}, {"strID": "k2"}],
     "vecAchievedHidden": [{"strID": "k2", "rtUnlocked": 1700000002}]
  }}]
]"#;

#[test]
fn json_documents_are_read_as_trees() {
    let doc = parse(r#"{"b": [1, -2, 18446744073709551615, 1.5, "x", null, true], "a": {}}"#)
        .unwrap();
    let b = doc.get("b").unwrap().as_array().unwrap();
    assert_eq!(b.len(), 7);
    assert_eq!(b[0].as_i64(), Some(1));
    assert_eq!(b[1].as_i64(), Some(-2));
    assert_eq!(b[1].as_u64(), None);
    assert_eq!(b[2].as_i64(), None);
    assert_eq!(b[2].as_u64(), Some(18446744073709551615));
    assert!(matches!(&b[3], JsonValue::Decimal(t) if t == "1.5"));
    assert_eq!(b[4].as_str().map(|s| s.as_str()), Some("x"));
    assert!(matches!(b[5], JsonValue::Null));
    assert_eq!(b[6].as_bool(), Some(true));
    assert!(doc.get("a").unwrap().as_object().unwrap().is_empty());
    assert!(doc.get("missing").is_none());
    assert_eq!(parse("{not json").err(), Some(EngineError::Parse));
}

#[test]
fn cache_scan_gives_one_row_for_each_schema_entry() {
    let doc = parse(CACHE).unwrap();
    let rows = scan_cache_document(&doc, 730, "Game", &ten_keys(), None, 1234).unwrap();
    assert_eq!(rows.len(), 10);
    assert_eq!(unlocked_keys(&rows), vec!["k1".to_string(), "k2".to_string()]);
    assert_eq!(rows[0].unlock_time, Some(1700000001));
    assert_eq!(rows[1].unlock_time, Some(1700000002));
    for r in &rows {
        assert_eq!(r.source, ProviderTag::PlatformCache);
        assert_eq!(r.app_id, 730);
        assert_eq!(r.game_name, "Game");
        assert_eq!(r.last_updated, 1234);
        assert_eq!(r.id, None);
        assert!(r.unlock_time.is_none() || r.achieved);
    }
    assert_eq!(rows[2].display_name, "Name 3");
    assert_eq!(rows[2].description, "text");
    assert_eq!(rows[2].icon_url.as_deref(), Some("https://cdn/k3.jpg"));
    assert_eq!(rows[2].icon_gray_url.as_deref(), Some("https://cdn/k3_gray.jpg"));
    assert!(!rows[2].hidden);
}

#[test]
fn achieved_hidden_wins_over_unachieved() {
    let text = r#"[["achievements", {"data": {
        "vecUnachieved": [{"strID": "a"}],
        "vecAchievedHidden": [{"strID": "a", "bAchieved": true, "rtUnlocked": 5}]}}]]"#;
    let schema = vec![entry("a", "A", None)];
    let rows = scan_cache_document(&parse(text).unwrap(), 1, "G", &schema, None, 0).unwrap();
    assert!(rows[0].achieved);
    assert_eq!(rows[0].unlock_time, Some(5));
}

#[test]
fn achieved_highlight_is_not_undone_by_the_locked_list() {
    let text = r#"[["achievements", {"data": {
        "vecHighlight": [{"strID": "a", "bAchieved": true}],
        "vecUnachieved": [{"strID": "a"}],
        "vecAchievedHidden": [{"strID": "a", "bAchieved": false}]}}]]"#;
    let schema = vec![entry("a", "A", None), entry("b", "B", None)];
    let rows = scan_cache_document(&parse(text).unwrap(), 1, "G", &schema, None, 0).unwrap();
    assert!(rows[0].achieved);
    assert_eq!(rows[0].unlock_time, None);
    assert!(!rows[1].achieved);
}

#[test]
fn cache_scan_errors() {
    let schema = ten_keys();
    let no_entry = parse(r#"[["other", {}]]"#).unwrap();
    assert_eq!(
        scan_cache_document(&no_entry, 1, "G", &schema, None, 0).err(),
        Some(EngineError::Parse)
    );
    let no_data = parse(r#"[["achievements", {"nodata": 1}]]"#).unwrap();
    assert_eq!(
        scan_cache_document(&no_data, 1, "G", &schema, None, 0).err(),
        Some(EngineError::Parse)
    );
    let not_array = parse(r#"{"achievements": 1}"#).unwrap();
    assert_eq!(
        scan_cache_document(&not_array, 1, "G", &schema, None, 0).err(),
        Some(EngineError::Parse)
    );
    let good = parse(CACHE).unwrap();
    assert_eq!(
        scan_cache_document(&good, 1, "G", &Vec::new(), None, 0).err(),
        Some(EngineError::NotFound)
    );
}

#[test]
fn hidden_flag_and_rates_are_taken_over() {
    let mut schema = vec![entry("a", "A", None), entry("b", "B", None)];
    schema[1].hidden = Some(1);
    let rates = vec![
        GlobalRate { name: "a".to_string(), percent: "12.5".to_string() },
        GlobalRate { name: "a".to_string(), percent: "13".to_string() },
    ];
    let rows =
        scan_cache_document(&parse(CACHE).unwrap(), 1, "G", &schema, Some(&rates), 0).unwrap();
    assert!(!rows[0].hidden);
    assert!(rows[1].hidden);
    assert_eq!(rows[0].global_unlock_percentage.as_deref(), Some("13"));
    assert_eq!(rows[1].global_unlock_percentage, None);
    assert_eq!(rows[0].description, "");
}

#[test]
fn goldberg_scan_gives_one_row_for_each_schema_entry() {
    let text = r#"{"k3": {"earned": true, "earned_time": 1700000000},
                   "k1": {"earned": false, "earned_time": 99}}"#;
    let rows = scan_goldberg_document(&parse(text).unwrap(), 730, "Game", &ten_keys(), None, 7)
        .unwrap();
    assert_eq!(rows.len(), 10);
    for (i, row) in rows.iter().enumerate() {
        assert_eq!(row.achievement_id, format!("k{}", i + 1));
        assert_eq!(row.display_name, format!("Name {}", i + 1));
        assert_eq!(row.description, "text");
        assert_eq!(row.source, ProviderTag::EmulatorA);
        assert_eq!(row.app_id, 730);
        assert_eq!(row.game_name, "Game");
        assert_eq!(row.icon_url, None);
        assert_eq!(row.last_updated, 7);
        assert_eq!(row.achieved, i == 2);
        assert_eq!(row.unlock_time, if i == 2 { Some(1700000000) } else { None });
    }
    let none = scan_goldberg_document(&parse("{}").unwrap(), 730, "Game", &ten_keys(), None, 7)
        .unwrap();
    assert_eq!(none.len(), 10);
    assert!(none.iter().all(|r| !r.achieved && r.unlock_time.is_none()));
    assert_eq!(
        scan_goldberg_document(&parse("[1]").unwrap(), 1, "G", &ten_keys(), None, 0).err(),
        Some(EngineError::Parse)
    );
}

#[test]
fn goldberg_members_outside_the_schema_keep_their_key_as_name() {
    let text = r#"{"zz": {"earned": true, "earned_time": 0},
                   "k3": {"earned": true, "earned_time": 1700000000},
                   "aa": {"earned": false, "earned_time": 5}}"#;
    let rows = scan_goldberg_document(&parse(text).unwrap(), 730, "Game", &ten_keys(), None, 7)
        .unwrap();
    assert_eq!(rows.len(), 12);
    assert_eq!(rows[2].achievement_id, "k3");
    assert!(rows[2].achieved);
    for row in &rows[10..] {
        assert_eq!(row.display_name, row.achievement_id);
        assert_eq!(row.description, "");
        assert_eq!(row.source, ProviderTag::EmulatorA);
    }
    let zz = rows[10..].iter().find(|r| r.achievement_id == "zz").unwrap();
    assert!(zz.achieved);
    assert_eq!(zz.unlock_time, None);
    let aa = rows[10..].iter().find(|r| r.achievement_id == "aa").unwrap();
    assert!(!aa.achieved);
    assert_eq!(aa.unlock_time, None);
    let bare =
        scan_goldberg_document(&parse(text).unwrap(), 730, "Game", &Vec::new(), None, 7).unwrap();
    assert_eq!(bare.len(), 3);
    assert!(bare.iter().all(|r| r.display_name == r.achievement_id));
    assert_eq!(bare.iter().filter(|r| r.achieved).count(), 2);
}

#[test]
fn a_failed_scan_leaves_the_store_as_it_was() {
    let mut db = AchievementDatabase::new();
    let s = scanner();
    let schema = ten_keys();
    assert_eq!(s.scan_steam_achievements(&mut db, 730, "Game", CACHE, &schema, None, 1), Ok(2));
    let before = db.rows().clone();
    assert_eq!(
        s.scan_steam_achievements(&mut db, 730, "Game", "nonsense", &schema, None, 9),
        Err(EngineError::Parse)
    );
    assert_eq!(
        s.scan_goldberg_achievements(&mut db, 730, "Game", "[1, 2]", &schema, None, 9),
        Err(EngineError::Parse)
    );
    assert_eq!(
        s.scan_goldberg_achievements(&mut db, 730, "Game", "{", &schema, None, 9),
        Err(EngineError::Parse)
    );
    assert_eq!(db.rows().len(), before.len());
    for (a, b) in db.rows().iter().zip(before.iter()) {
        assert_eq!(a.id, b.id);
        assert_eq!(a.achievement_id, b.achievement_id);
        assert_eq!(a.achieved, b.achieved);
        assert_eq!(a.last_updated, b.last_updated);
    }
    assert_eq!(s.scan_goldberg_achievements(&mut db, 730, "Game", "{}", &schema, None, 9), Ok(0));
    assert_eq!(db.rows().last().unwrap().id, Some(20));
}

#[test]
fn ini_sections_are_read() {
    let text = "[ACH_1]\nachieved=true\ntimestamp=1700000000\n\n[Second One]\nachieved = FALSE\n[third]\nachieved =  True\ntimestamp = 0\n";
    let sections = parse_ini(text);
    assert_eq!(sections.len(), 3);
    assert_eq!(sections[0].name, "ACH_1");
    assert!(sections[0].achieved);
    assert_eq!(sections[0].timestamp, Some(1700000000));
    assert_eq!(sections[1].name, "Second One");
    assert!(!sections[1].achieved);
    assert_eq!(sections[1].timestamp, None);
    assert_eq!(sections[2].name, "third");
    assert!(sections[2].achieved);
    assert_eq!(sections[2].timestamp, None);
}

#[test]
fn ini_edge_cases() {
    assert!(parse_ini("").is_empty());
    assert!(parse_ini("achieved=true\n").is_empty());
    assert!(parse_ini(" [indented]\nachieved=true\n").is_empty());
    assert!(parse_ini("[]\nachieved=true\n").is_empty());
    assert!(parse_ini("[open\nachieved=true\n").is_empty());
    let s = parse_ini("[a]\r\nachieved=true\r\ntimestamp=12\r\n[b]\r\nAchieved=true\r\n");
    assert_eq!(s.len(), 2);
    assert!(s[0].achieved);
    assert_eq!(s[0].timestamp, Some(12));
    assert!(!s[1].achieved);
    let s = parse_ini("[a]\n achieved=true\nachieved=truex\ntimestamp=99999999999999999999\n");
    assert_eq!(s.len(), 1);
    assert!(!s[0].achieved);
    assert_eq!(s[0].timestamp, None);
    let s = parse_ini("[a]\ntimestamp=x\ntimestamp=9223372036854775807\nachieved=;\nachieved=true;\n");
    assert!(s[0].achieved);
    assert_eq!(s[0].timestamp, Some(9223372036854775807));
    let s = parse_ini("[a]\nachieved=\nachieved=true\n");
    assert!(!s[0].achieved);
    let s = parse_ini("[a]\nachieved\t=\n true\n");
    assert!(s[0].achieved);
    let s = parse_ini("[a\nb]\nachieved=true\n[c]x\n[d]");
    assert_eq!(s.len(), 3);
    assert_eq!(s[0].name, "a\nb");
    assert_eq!(s[1].name, "c");
    assert_eq!(s[2].name, "d");
}

#[test]
fn onlinefix_scan_binds_sections_to_the_schema() {
    let text = "[ACH_7]\nachieved=true\ntimestamp=1700000007\n[k2]\nachieved=true\n[ACH_3]\nachieved=false\ntimestamp=5\n[Nothing Like It Zzz]\nachieved=true\n";
    let rows = scan_onlinefix_rows(text, 730, "Game", &ten_keys(), None, 50);
    assert_eq!(rows.len(), 10);
    assert_eq!(unlocked_keys(&rows), vec!["k2".to_string(), "k7".to_string()]);
    assert_eq!(rows[6].unlock_time, Some(1700000007));
    assert_eq!(rows[1].unlock_time, None);
    for r in &rows {
        assert_eq!(r.source, ProviderTag::EmulatorB);
        assert_eq!(r.icon_url, None);
        assert!(!r.hidden);
        assert_eq!(r.last_updated, 50);
    }
}

#[test]
fn a_later_section_overrides_an_earlier_one_for_the_same_entry() {
    let text = "[ACH_1]\nachieved=true\ntimestamp=10\n[k1]\nachieved=true\ntimestamp=20\n";
    let rows = scan_onlinefix_rows(text, 1, "G", &ten_keys(), None, 0);
    assert!(rows[0].achieved);
    assert_eq!(rows[0].unlock_time, Some(20));
}

#[test]
fn scanner_picks_the_user() {
    let root = FilePath::new("C:\\Steam");
    let probe = |exists, configured, error: Option<&str>, dirs: &[&str]| UserdataProbe {
        exists,
        configured_is_dir: configured,
        read_error: error.map(|e| e.to_string()),
        directories: dirs.iter().map(|d| d.to_string()).collect(),
    };
    let err = |r: Result<AchievementScanner, String>| r.err().unwrap();
    assert_eq!(
        err(AchievementScanner::new(root.clone(), None, &probe(false, false, None, &[]))),
        "Steam userdata folder not found"
    );
    assert_eq!(
        err(AchievementScanner::new(
            root.clone(),
            Some("77".to_string()),
            &probe(true, false, None, &["77"])
        )),
        "Steam user ID '77' not found"
    );
    assert_eq!(
        err(AchievementScanner::new(root.clone(), None, &probe(true, false, Some("denied"), &[]))),
        "Failed to read userdata: denied"
    );
    assert_eq!(
        err(AchievementScanner::new(root.clone(), None, &probe(true, false, None, &["0", "ac"]))),
        "No Steam user found"
    );
    let s = AchievementScanner::new(root.clone(), None, &probe(true, false, None, &["0", "123", "9"]))
        .unwrap();
    let p = s.librarycache_path(730).unwrap();
    assert_eq!(p.root, "C:\\Steam");
    assert_eq!(p.parts, vec!["userdata", "123", "config", "librarycache", "730.json"]);
    let s = AchievementScanner::new(root, Some("55".to_string()), &probe(true, true, None, &[]))
        .unwrap();
    assert_eq!(s.librarycache_path(4294967295).unwrap().parts[4], "4294967295.json");
    assert_eq!(s.librarycache_path(0).unwrap().parts[4], "0.json");
}

#[test]
fn scans_write_their_rows_to_the_store() {
    let mut db = AchievementDatabase::new();
    let s = scanner();
    let schema = ten_keys();
    assert_eq!(s.scan_steam_achievements(&mut db, 730, "Game", CACHE, &schema, None, 1), Ok(2));
    assert_eq!(db.get_game_achievements(730).len(), 10);
    assert_eq!(
        s.scan_steam_achievements(&mut db, 730, "Game", "nonsense", &schema, None, 1),
        Err(EngineError::Parse)
    );
    assert_eq!(
        s.scan_goldberg_achievements(&mut db, 730, "Game", r#"{"k9":{"earned":true}}"#, &schema, None, 2),
        Ok(1)
    );
    assert_eq!(db.get_game_achievements(730).len(), 20);
    assert_eq!(
        s.scan_onlinefix_achievements(&mut db, 730, "Game", "[ACH_5]\nachieved=true\n", &schema, None, 3),
        Ok(1)
    );
    assert_eq!(db.get_game_achievements(730).len(), 30);
    let ids: Vec<i64> = db.rows().iter().map(|r| r.id.unwrap()).collect();
    assert_eq!(ids, (1..=30).collect::<Vec<i64>>());
}
