use steam_backup_manager::achievements::AchievementDatabase;
use steam_backup_manager::process_monitor;
use steam_backup_manager::process_monitor::{ProcessMonitor, RunningProcess};
use steam_backup_manager::ludusavi::BackupResult;
use steam_backup_manager::orchestrator::{
    handle_game_backup, start_monitors, steam_command, Action, BackupNotice, MonitorCommand,
    MonitorControl,
};
use steam_backup_manager::steam_monitor::{
    counts_as_game, find_steam_path, has_exe_extension, is_manifest_file, may_descend,
    scan_game_executables, FoundFile, GameEvent, GameInfo, KnownExecutable, SteamMonitor,
};
use steam_backup_manager::vdf::{
    get_game_name, get_library_folders, parse_appmanifest, parse_appmanifest_basic,
};

fn exe(name: &str, app_id: u32, game: &str) -> KnownExecutable {
    KnownExecutable { exe_name: name.to_string(), app_id, game_name: game.to_string() }
}

fn names(list: &[&str]) -> Vec<String> {
    list.iter().map(|n| n.to_string()).collect()
}

fn game(app_id: u32, name: &str) -> Option<GameInfo> {
    Some(GameInfo { app_id, name: name.to_string() })
}

fn started(e: &Option<GameEvent>) -> Option<u32> {
    match e {
        Some(GameEvent::Started(g)) => Some(g.app_id),
        _ => None,
    }
}

fn ended(e: &Option<GameEvent>) -> Option<u32> {
    match e {
        Some(GameEvent::Ended(g)) => Some(g.app_id),
        _ => None,
    }
}

#[test]
fn exclusion() {
    let mut db = AchievementDatabase::new();
    db.add_exclusion(388080, "X".to_string());
    let mut monitor = SteamMonitor::new(vec![exe("x.exe", 388080, "X"), exe("game.exe", 730, "Game")]);
    let running = monitor.get_running_game(&names(&["explorer.exe", "x.exe"]), &db);
    assert!(running.is_none());
    assert!(monitor.check_steam(running).is_none());
    let running = monitor.get_running_game(&names(&["x.exe", "game.exe"]), &db);
    assert_eq!(running.as_ref().map(|g| g.app_id), Some(730));
    assert_eq!(started(&monitor.check_steam(running)), Some(730));
    db.remove_exclusion(388080);
    let running = monitor.get_running_game(&names(&["x.exe", "game.exe"]), &db);
    assert_eq!(running.as_ref().map(|g| (g.app_id, g.name.as_str())), Some((388080, "X")));
}

#[test]
fn the_running_game_is_found_by_its_executable() {
    let db = AchievementDatabase::new();
    let monitor = SteamMonitor::new(vec![
        exe("a.exe", 1, "Old name"),
        exe("b.exe", 2, "B"),
        exe("a.exe", 3, "New owner"),
    ]);
    assert!(monitor.get_running_game(&names(&[]), &db).is_none());
    assert!(monitor.get_running_game(&names(&["A.EXE", "c.exe"]), &db).is_none());
    let g = monitor.get_running_game(&names(&["c.exe", "b.exe", "a.exe"]), &db).unwrap();
    assert_eq!(g.app_id, 2);
    let g = monitor.get_running_game(&names(&["a.exe"]), &db).unwrap();
    assert_eq!((g.app_id, g.name.as_str()), (3, "New owner"));
}

#[test]
fn polls_tell_of_starts_and_ends() {
    let mut m = SteamMonitor::new(Vec::new());
    assert!(m.check_steam(None).is_none());
    assert_eq!(started(&m.check_steam(game(1, "One"))), Some(1));
    assert!(m.check_steam(game(1, "One")).is_none());
    assert!(m.check_steam(game(1, "Renamed")).is_none());
    assert_eq!(ended(&m.check_steam(game(2, "Two"))), Some(1));
    assert_eq!(started(&m.check_steam(game(2, "Two"))), Some(2));
    let e = m.check_steam(None);
    assert_eq!(ended(&e), Some(2));
    match e {
        Some(GameEvent::Ended(g)) => assert_eq!(g.name, "Two"),
        _ => panic!("expected an end"),
    }
    assert!(m.check_steam(None).is_none());
}

#[test]
fn tools_do_not_count_as_games() {
    for name in [
        "game.exe",
        "Witcher3.exe",
        "hl2.exe",
        "mysetup.exe",
        "GameSetup.exe",
        "reunins.exe",
        "xunins000.exe",
        "set.exe",
        "",
    ] {
        assert!(counts_as_game(name), "{}", name);
    }
    for name in [
        "unins000.exe",
        "UnityCrashHandler64.exe",
        "CrashReporter.exe",
        "bugreport.exe",
        "Setup.exe",
        "setup_x64.exe",
        "UNINSTALL.EXE",
        "unins",
        "GameLauncher.exe",
        "launcher.exe",
        "mycrash.exe",
        "vcredist_x64.exe",
        "REDIST.EXE",
    ] {
        assert!(!counts_as_game(name), "{}", name);
    }
}

#[test]
fn manifests_are_read() {
    let text = "\"AppState\"\n{\n\t\"appid\"\t\t\"730\"\n\t\"Universe\"\t\t\"1\"\n\t\"name\"\t\t\"Counter-Strike 2\"\n\t\"installdir\"\t\t\"Counter-Strike Global Offensive\"\n}\n";
    let m = parse_appmanifest(text).unwrap();
    assert_eq!(m.app_id, 730);
    assert_eq!(m.name, "Counter-Strike 2");
    assert_eq!(m.installdir, "Counter-Strike Global Offensive");
    assert!(parse_appmanifest("\"appid\" \"730\" \"name\" \"x\"").is_none());
    assert!(parse_appmanifest("\"appid\" \"4294967296\" \"name\" \"x\" \"installdir\" \"y\"").is_none());
    assert!(parse_appmanifest("\"appid\"\"730\" \"name\" \"x\" \"installdir\" \"y\"").is_none());
    assert!(parse_appmanifest("\"appid\" \"7a\" \"name\" \"x\" \"installdir\" \"y\"").is_none());
    assert!(parse_appmanifest("\"appid\" \"7\" \"name\" \"\" \"installdir\" \"y\"").is_none());
    let m = parse_appmanifest("\"appid\" \"x\"\n\"appid\"\n\"4294967295\" \"installdir\" \"d\" \"name\" \"n\"").unwrap();
    assert_eq!((m.app_id, m.name.as_str(), m.installdir.as_str()), (4294967295, "n", "d"));
    assert_eq!(get_game_name(Some("\"name\"\"Tight\""), 5), "Tight");
    assert_eq!(get_game_name(Some("\"name\" \"Loose\""), 5), "Loose");
    assert_eq!(get_game_name(Some("nothing here"), 440), "App 440");
    assert_eq!(get_game_name(None, 0), "App 0");
}

#[test]
fn library_folders_are_read() {
    let text = "\"libraryfolders\"\n{\n\t\"0\"\n\t{\n\t\t\"path\"\t\t\"C:\\\\Program Files (x86)\\\\Steam\"\n\t}\n\t\"1\"\n\t{\n\t\t\"path\"\t\t\"D:\\\\Games\\\\\\\\Lib\\\\\\x\"\n\t\t\"path\"\"ignored\"\n\t}\n}\n";
    assert_eq!(
        get_library_folders(text),
        vec!["C:\\Program Files (x86)\\Steam".to_string(), "D:\\Games\\\\Lib\\\\x".to_string()]
    );
    assert!(get_library_folders("").is_empty());
}

#[test]
fn configured_games_start_and_end() {
    let games = vec![
        process_monitor::GameInfo {
            name: "First".to_string(),
            exe_path: "C:/Games/First/first.exe".to_string(),
        },
        process_monitor::GameInfo {
            name: "Second".to_string(),
            exe_path: "C:/Games/Second/Second.EXE".to_string(),
        },
    ];
    let mut m = ProcessMonitor::new(games);
    let p = |name: &str, exe: &str| RunningProcess { name: name.to_string(), exe: exe.to_string() };
    assert!(m.check_processes(&vec![p("other.exe", "C:/other.exe")]).is_none());
    let both = vec![p("SECOND.exe", ""), p("x", "c:/games/first/FIRST.exe")];
    match m.check_processes(&both) {
        Some(process_monitor::GameEvent::Started(g)) => {
            assert_eq!(g.name, "First");
            assert_eq!(g.exe_path, "C:/Games/First/first.exe");
        }
        _ => panic!("expected the first game to start"),
    }
    match m.check_processes(&both) {
        Some(process_monitor::GameEvent::Started(g)) => assert_eq!(g.name, "Second"),
        _ => panic!("expected the second game to start"),
    }
    assert!(m.check_processes(&both).is_none());
    let tail = vec![p("x", "D:\\Elsewhere\\second.exe")];
    match m.check_processes(&tail) {
        Some(process_monitor::GameEvent::Ended(g)) => assert_eq!(g.name, "First"),
        _ => panic!("expected the first game to end"),
    }
    assert!(m.check_processes(&tail).is_none());
    match m.check_processes(&Vec::new()) {
        Some(process_monitor::GameEvent::Ended(g)) => assert_eq!(g.name, "Second"),
        _ => panic!("expected the second game to end"),
    }
    assert!(m.check_processes(&Vec::new()).is_none());
}

#[test]
fn the_registry_gives_the_installation() {
    let answer = "\r\nHKEY_CURRENT_USER\\Software\\Valve\\Steam\r\n    SteamPath    REG_SZ    c:/program files (x86)/steam\r\n\r\n";
    assert_eq!(find_steam_path(answer).as_deref(), Some("c:\\program files (x86)\\steam"));
    assert_eq!(find_steam_path("SteamPath REG_SZ a REG_SZ b").as_deref(), Some("a"));
    assert_eq!(find_steam_path("SteamPath missing\nREG_SZ only\nREG_SZ x/y SteamPath").as_deref(), Some("x\\y SteamPath"));
    assert_eq!(find_steam_path("SteamPath REG_SZ").as_deref(), Some(""));
    assert_eq!(find_steam_path("SteamPath REG_SZ   \t "), Some(String::new()));
    assert_eq!(find_steam_path("nothing\nat all"), None);
    assert_eq!(find_steam_path(""), None);
}

#[test]
fn manifests_are_known_by_their_names() {
    assert!(is_manifest_file("appmanifest_730.acf"));
    assert!(is_manifest_file("appmanifest_.acf"));
    assert!(!is_manifest_file("appmanifest_730.acf.tmp"));
    assert!(!is_manifest_file("Appmanifest_730.acf"));
    assert!(!is_manifest_file("manifest_730.acf"));
    assert!(!is_manifest_file(".acf"));
    assert!(may_descend(0));
    assert!(may_descend(2));
    assert!(!may_descend(3));
    assert_eq!(
        parse_appmanifest_basic("\"appid\" \"10\" \"name\" \"Ten\""),
        Some((10, "Ten".to_string()))
    );
    assert_eq!(parse_appmanifest_basic("\"appid\" \"10\""), None);
    assert_eq!(parse_appmanifest_basic("\"name\" \"Ten\""), None);
}

#[test]
fn the_orchestrator_decides() {
    let started = GameEvent::Started(GameInfo { app_id: 1, name: "G".to_string() });
    let ended = GameEvent::Ended(GameInfo { app_id: 1, name: "G".to_string() });
    assert_eq!(start_monitors(&started, true), vec![Action::StartWatching, Action::NotifyDetected]);
    assert_eq!(start_monitors(&started, false), vec![Action::StartWatching]);
    assert_eq!(start_monitors(&ended, true), vec![Action::StopWatching, Action::Backup]);
    assert_eq!(start_monitors(&ended, false), vec![Action::StopWatching, Action::Backup]);
    let g = || process_monitor::GameInfo { name: "G".to_string(), exe_path: "g.exe".to_string() };
    assert_eq!(steam_command(&process_monitor::GameEvent::Started(g())), MonitorCommand::Pause);
    assert_eq!(steam_command(&process_monitor::GameEvent::Ended(g())), MonitorCommand::Resume);
    let mut c = MonitorControl::new();
    assert!(c.polls() && c.runs());
    c.on_command(MonitorCommand::Pause);
    assert!(!c.polls() && c.runs());
    c.on_command(MonitorCommand::Pause);
    c.on_command(MonitorCommand::Resume);
    assert!(c.polls());
    c.on_command(MonitorCommand::Stop);
    assert!(!c.polls() && !c.runs());
    c.on_command(MonitorCommand::Resume);
    assert!(!c.polls() && !c.runs());
    let report = |success, not_found| BackupResult {
        success,
        not_found,
        files_backed_up: None,
        total_size: None,
        error: None,
    };
    assert_eq!(handle_game_backup(Some(&report(true, Some(true)))), BackupNotice::Success);
    assert_eq!(handle_game_backup(Some(&report(false, Some(true)))), BackupNotice::GameNotFound);
    assert_eq!(handle_game_backup(Some(&report(false, Some(false)))), BackupNotice::Failed);
    assert_eq!(handle_game_backup(Some(&report(false, None))), BackupNotice::Failed);
    assert_eq!(handle_game_backup(None), BackupNotice::Error);
}

#[test]
fn a_paused_monitor_keeps_its_game() {
    let mut m = SteamMonitor::new(Vec::new());
    let mut c = MonitorControl::new();
    assert_eq!(started(&m.check_steam(game(1, "One"))), Some(1));
    c.on_command(MonitorCommand::Pause);
    assert!(!c.polls());
    c.on_command(MonitorCommand::Resume);
    assert!(c.polls());
    assert!(m.check_steam(game(1, "One")).is_none());
    assert_eq!(ended(&m.check_steam(None)), Some(1));
}

#[test]
fn executables_of_a_game_are_picked_from_the_files_below_it() {
    let file = |name: &str, depth: usize| FoundFile { name: name.to_string(), depth };
    let files = vec![
        file("game.exe", 0),
        file("unins000.exe", 0),
        file("readme.txt", 0),
        file("CrashReporter.exe", 1),
        file("setup.exe", 1),
        file("mysetup.exe", 2),
        file("GameLauncher.exe", 2),
        file("vcredist.exe", 3),
        file("Tool.EXE", 3),
        file("deep.exe", 4),
        file("deeper.exe", 5),
        file(".exe", 0),
        file("exe", 0),
        file("game.exe.bak", 0),
    ];
    let known = scan_game_executables(&files, 730, "Counter-Strike 2");
    let got: Vec<&str> = known.iter().map(|k| k.exe_name.as_str()).collect();
    assert_eq!(got, vec!["game.exe", "mysetup.exe", "Tool.EXE"]);
    assert!(known.iter().all(|k| k.app_id == 730 && k.game_name == "Counter-Strike 2"));
    assert!(scan_game_executables(&Vec::new(), 1, "G").is_empty());
    assert!(has_exe_extension("a.exe"));
    assert!(has_exe_extension("a.ExE"));
    assert!(has_exe_extension("..exe"));
    assert!(!has_exe_extension(".exe"));
    assert!(!has_exe_extension("aexe"));
    assert!(!has_exe_extension("a.exe "));
    assert!(!has_exe_extension(""));
}
