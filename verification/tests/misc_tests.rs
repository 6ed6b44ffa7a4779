use steam_backup_manager::achievements::{Achievement, AchievementDatabase, ProviderTag};
use steam_backup_manager::error::EngineError;
use steam_backup_manager::export::{
    export_all, export_file_path, fetch_achievement_icon, read_backup, safe_file_name,
};
use steam_backup_manager::ludusavi::LudusaviManager;
use steam_backup_manager::overlay::{WindowGeometry, WindowMode};
use steam_backup_manager::paths::{app_id_text, FilePath};
use steam_backup_manager::text::{
    chars_of, contains, is_whitespace, decimal_chars, find, has_suffix, lowercase, parse_decimal, precedes,
    replace_char, same_chars, signed_chars, slice, sort_texts, utf8_len,
};

fn chars(s: &str) -> Vec<char> {
    s.chars().collect()
}

fn text(v: Vec<char>) -> String {
    v.into_iter().collect()
}

#[test]
fn window_modes() {
    let g = |popup, width, height| {
        Some(WindowGeometry { popup, width, height, screen_width: 1920, screen_height: 1080 })
    };
    assert_eq!(WindowMode::from_geometry(None), WindowMode::Windowed);
    assert_eq!(WindowMode::from_geometry(g(true, 1920, 1080)), WindowMode::Fullscreen);
    assert_eq!(WindowMode::from_geometry(g(true, 2560, 1440)), WindowMode::Fullscreen);
    assert_eq!(WindowMode::from_geometry(g(true, 1919, 1080)), WindowMode::BorderlessWindowed);
    assert_eq!(WindowMode::from_geometry(g(true, 1920, 1079)), WindowMode::BorderlessWindowed);
    assert_eq!(WindowMode::from_geometry(g(false, 1920, 1080)), WindowMode::Windowed);
    assert!(!WindowMode::Fullscreen.should_use_overlay());
    assert!(WindowMode::BorderlessWindowed.should_use_overlay());
    assert!(WindowMode::Windowed.should_use_overlay());
}

#[test]
fn executable_names() {
    assert_eq!(LudusaviManager::extract_exe_name("C:/Games/Dir/Game.EXE"), "game.exe");
    assert_eq!(LudusaviManager::extract_exe_name("Plain.exe"), "plain.exe");
    assert_eq!(LudusaviManager::extract_exe_name(""), "");
    assert_eq!(LudusaviManager::extract_exe_name("dir/.."), "");
    assert_eq!(LudusaviManager::exe_name_from(Some("ÄB.Exe")), "äb.exe");
    assert_eq!(LudusaviManager::exe_name_from(None), "");
}

#[test]
fn backup_tool_arguments() {
    let m = LudusaviManager::new("C:\\ludusavi.exe".to_string(), "D:\\Backups".to_string());
    assert_eq!(m.ludusavi_path(), "C:\\ludusavi.exe");
    assert_eq!(
        m.backup_args("My Game"),
        vec!["backup", "--api", "--force", "My Game", "--path", "D:\\Backups"]
    );
    let m = LudusaviManager::new("l".to_string(), String::new());
    assert_eq!(m.backup_args("My Game"), vec!["backup", "--api", "--force", "My Game"]);
    assert!(LudusaviManager::cache_is_fresh(86399, 0));
    assert!(!LudusaviManager::cache_is_fresh(86400, 0));
    assert!(LudusaviManager::cache_is_fresh(100, 100));
    assert!(!LudusaviManager::cache_is_fresh(99, 100));
}

#[test]
fn backup_answers_are_read() {
    let answer = r#"{"overall": {"totalGames": 1, "totalBytes": 30, "processedGames": 1},
        "games": {"My Game": {"decision": "Processed", "files": {
            "C:/a.sav": {"bytes": 10}, "C:/b.sav": {"bytes": 20, "change": "New"}}},
          "Skipped": {"decision": "Ignored", "files": {}},
          "Bare": {"decision": "Processed"},
          "Odd": {"decision": "Processed", "files": {"x": {}}},
          "Huge": {"decision": "Processed", "files": {
            "x": {"bytes": 9223372036854775807}, "y": {"bytes": 1}}}}}"#;
    let (r, bytes) = LudusaviManager::backup(true, answer, "", "My Game").unwrap();
    assert!(r.success);
    assert_eq!(r.files_backed_up, Some(2));
    assert_eq!(bytes, 30);
    assert_eq!(r.not_found, None);
    assert_eq!(r.error, None);
    assert_eq!(r.total_size, None);
    let (r, _) = LudusaviManager::backup(true, answer, "", "Skipped").unwrap();
    assert!(!r.success);
    assert_eq!(r.not_found, Some(true));
    let (r, _) = LudusaviManager::backup(true, answer, "", "Absent").unwrap();
    assert!(!r.success);
    assert_eq!(r.not_found, Some(true));
    let (r, bytes) = LudusaviManager::backup(true, answer, "", "Bare").unwrap();
    assert!(r.success);
    assert_eq!((r.files_backed_up, bytes), (Some(0), 0));
    assert_eq!(LudusaviManager::backup(true, answer, "", "Odd").err(), Some(EngineError::Parse));
    assert_eq!(LudusaviManager::backup(true, answer, "", "Huge").err(), Some(EngineError::Parse));
    assert_eq!(LudusaviManager::backup(true, "oops", "", "My Game").err(), Some(EngineError::Parse));
    assert_eq!(LudusaviManager::backup(true, "{}", "", "My Game").err(), Some(EngineError::Parse));
    let (r, _) = LudusaviManager::backup(false, "ignored", "it broke", "My Game").unwrap();
    assert!(!r.success);
    assert_eq!(r.error.as_deref(), Some("it broke"));
    assert_eq!(r.not_found, None);
}

#[test]
fn file_names_and_paths() {
    assert_eq!(safe_file_name("A: B/C\\D*E?F\"G<H>I|J"), "A_ B_C_D_E_F_G_H_I_J");
    assert_eq!(safe_file_name("Plain name (2)"), "Plain name (2)");
    assert_eq!(safe_file_name(""), "");
    let p = export_file_path("C:\\Users\\me\\Documents", "Half-Life: Alyx");
    assert_eq!(p.root, "C:\\Users\\me\\Documents");
    assert_eq!(p.parts, vec!["Steam Backup Monitor", "Half-Life_ Alyx.json"]);
    let q = FilePath::new("r").join("a").join("b");
    assert_eq!((q.root.as_str(), q.parts.len()), ("r", 2));
    assert_eq!(q.duplicate().parts, vec!["a", "b"]);
    assert_eq!(app_id_text(0), "0");
    assert_eq!(app_id_text(10), "10");
    assert_eq!(app_id_text(4294967295), "4294967295");
}

#[test]
fn backups_are_read() {
    let list = read_backup(
        r#"{"b": {"UnlockTime": 20}, "a": {"UnlockTime": 10, "x": 1},
            "c": {"UnlockTime": "30"}, "d": {}, "e": 5, "f": {"UnlockTime": 1.5}}"#,
    )
    .unwrap();
    let mut got: Vec<(String, i64)> =
        list.iter().map(|e| (e.achievement_id.clone(), e.unlock_time)).collect();
    got.sort();
    assert_eq!(got, vec![("a".to_string(), 10), ("b".to_string(), 20)]);
    assert!(read_backup("{}").unwrap().is_empty());
    assert_eq!(read_backup("[]").err(), Some(EngineError::Parse));
    assert_eq!(read_backup("nope").err(), Some(EngineError::Parse));
}

#[test]
fn the_whole_store_is_exported() {
    let mut db = AchievementDatabase::new();
    let row = |app_id: u32, name: &str, key: &str, source| Achievement {
        id: None,
        app_id,
        game_name: name.to_string(),
        achievement_id: key.to_string(),
        display_name: key.to_string(),
        description: String::new(),
        icon_url: None,
        icon_gray_url: None,
        hidden: false,
        achieved: false,
        unlock_time: None,
        source,
        last_updated: 1,
        global_unlock_percentage: None,
    };
    db.insert_or_update_achievement(&row(2, "Beta", "y", ProviderTag::EmulatorA)).unwrap();
    db.insert_or_update_achievement(&row(2, "Beta", "x", ProviderTag::EmulatorA)).unwrap();
    db.insert_or_update_achievement(&row(1, "Alpha", "z", ProviderTag::PlatformCache)).unwrap();
    db.insert_or_update_achievement(&row(2, "Beta", "m", ProviderTag::Manual)).unwrap();
    let all = export_all(&db);
    assert_eq!(all.len(), 3);
    assert_eq!(all[0].game.game_name, "Alpha");
    assert_eq!(all[0].achievements.len(), 1);
    assert_eq!(all[1].game.source, ProviderTag::EmulatorA);
    assert_eq!(all[1].game.total_achievements, 2);
    let keys: Vec<&str> = all[1].achievements.iter().map(|a| a.achievement_id.as_str()).collect();
    assert_eq!(keys, vec!["m", "x", "y"]);
    assert_eq!(all[2].game.source, ProviderTag::Manual);
    assert_eq!(all[2].achievements.len(), 3);
    assert!(all[1].achievements.iter().all(|a| a.id.is_some()));
    assert!(export_all(&AchievementDatabase::new()).is_empty());
}

#[test]
fn icons_become_data_addresses() {
    assert_eq!(
        fetch_achievement_icon("https://cdn/x.png", &b"hello world~".to_vec()).unwrap(),
        "data:image/png;base64,aGVsbG8gd29ybGR+"
    );
    assert_eq!(
        fetch_achievement_icon("https://cdn/x.jpeg", &vec![0u8, 255]).unwrap(),
        "data:image/jpeg;base64,AP8="
    );
    assert_eq!(
        fetch_achievement_icon("https://cdn/x.jpg", &Vec::new()).unwrap(),
        "data:image/jpeg;base64,"
    );
    assert_eq!(
        fetch_achievement_icon("https://cdn/x.gif", &vec![1u8]).unwrap(),
        "data:image/jpeg;base64,AQ=="
    );
    assert_eq!(
        fetch_achievement_icon("https://cdn/x.PNG", &vec![1u8]).unwrap(),
        "data:image/jpeg;base64,AQ=="
    );
}

#[test]
fn texts_are_handled_by_characters() {
    assert_eq!(chars_of("añb"), vec!['a', 'ñ', 'b']);
    assert_eq!(utf8_len(&chars("añ€😀")), 1 + 2 + 3 + 4);
    assert_eq!(text(lowercase(&chars("ÀbC ΣΑΣ"))), "àbc σας");
    assert!(same_chars(&chars("abc"), &chars("abc")));
    assert!(!same_chars(&chars("abc"), &chars("abd")));
    assert!(!same_chars(&chars("abc"), &chars("ab")));
    assert!(contains(&chars("hello"), &chars("ell")));
    assert!(contains(&chars("hello"), &chars("")));
    assert!(contains(&chars(""), &chars("")));
    assert!(!contains(&chars("hello"), &chars("elo")));
    assert!(!contains(&chars("he"), &chars("hello")));
    assert_eq!(find(&chars("abcabc"), &chars("bc"), 0), Some(1));
    assert_eq!(find(&chars("abcabc"), &chars("bc"), 2), Some(4));
    assert_eq!(find(&chars("abcabc"), &chars("bc"), 5), None);
    assert_eq!(find(&chars("abc"), &chars(""), 3), Some(3));
    assert_eq!(find(&chars("abc"), &chars(""), 4), None);
    assert!(has_suffix(&chars("file.png"), &chars(".png")));
    assert!(!has_suffix(&chars("png"), &chars(".png")));
    assert_eq!(text(slice(&chars("abcdef"), 2, 4)), "cd");
    assert_eq!(text(replace_char(&chars("a_b__c"), '_', ' ')), "a b  c");
}

#[test]
fn texts_are_ordered_by_code_points() {
    let lt = |a: &str, b: &str| precedes(&chars(a), &chars(b));
    assert!(lt("", "a"));
    assert!(!lt("a", ""));
    assert!(!lt("a", "a"));
    assert!(lt("a", "ab"));
    assert!(lt("B", "a"));
    assert!(lt("a10", "a9"));
    assert!(lt("z", "é"));
    assert!(!lt("b", "a"));
}

#[test]
fn numbers_are_written_and_read_in_base_ten() {
    assert_eq!(text(decimal_chars(0)), "0");
    assert_eq!(text(decimal_chars(7)), "7");
    assert_eq!(text(decimal_chars(1203)), "1203");
    assert_eq!(text(decimal_chars(u64::MAX)), "18446744073709551615");
    assert_eq!(text(signed_chars(0)), "0");
    assert_eq!(text(signed_chars(-45)), "-45");
    assert_eq!(text(signed_chars(i64::MIN)), "-9223372036854775808");
    assert_eq!(text(signed_chars(i64::MAX)), "9223372036854775807");
    assert_eq!(parse_decimal(&chars("0042"), 100), Some(42));
    assert_eq!(parse_decimal(&chars("100"), 100), Some(100));
    assert_eq!(parse_decimal(&chars("101"), 100), None);
    assert_eq!(parse_decimal(&chars(""), 100), Some(0));
    assert_eq!(parse_decimal(&chars("18446744073709551615"), u64::MAX), Some(u64::MAX));
    assert_eq!(parse_decimal(&chars("18446744073709551616"), u64::MAX), None);
    assert_eq!(parse_decimal(&chars("99999999999999999999999999999999999999999"), u64::MAX), None);
}

#[test]
fn the_games_of_the_backup_tool_are_listed_in_order() {
    assert_eq!(
        LudusaviManager::get_manifest_games(r#"{"Zelda": {}, "abc": 1, "Alpha": {}, "10": {}, "9": {}}"#)
            .unwrap(),
        vec!["10", "9", "Alpha", "Zelda", "abc"]
    );
    assert!(LudusaviManager::get_manifest_games("{}").unwrap().is_empty());
    assert_eq!(LudusaviManager::get_manifest_games("[]").err(), Some(EngineError::Parse));
    assert_eq!(LudusaviManager::get_manifest_games("x").err(), Some(EngineError::Parse));
    assert_eq!(LudusaviManager::manifest_args(), vec!["manifest", "show", "--api"]);
    let list: Vec<String> = ["b", "a", "b", "", "ab"].iter().map(|t| t.to_string()).collect();
    assert_eq!(sort_texts(&list), vec!["", "a", "ab", "b", "b"]);
}

#[test]
fn test_window_mode_detection() {
    let mode = WindowMode::from_geometry(None);
    assert_eq!(mode, WindowMode::Windowed);
}

#[test]
fn white_space_is_what_the_standard_library_takes_for_it() {
    for n in 0..=0x10ffffu32 {
        if let Some(c) = char::from_u32(n) {
            assert_eq!(is_whitespace(c), c.is_whitespace(), "U+{:04X}", n);
        }
    }
    assert!(is_whitespace(' '));
    assert!(is_whitespace('\u{3000}'));
    assert!(!is_whitespace('\u{200b}'));
    assert!(!is_whitespace('a'));
}

#[test]
fn the_file_name_of_a_path_stands_in_the_path() {
    for path in ["C:/Games/Dir/Game.EXE", "a/b/", "x.exe", "dir/sub/./", "/", "", "a/..", "Ä/Öl.exe"] {
        let name = LudusaviManager::extract_exe_name(path);
        assert!(path.to_lowercase().contains(&name), "{}", path);
    }
    assert_eq!(LudusaviManager::extract_exe_name("a/b/"), "b");
}
