use steam_backup_manager::key_match::{
    bind_section, differs_in_last, extract_keywords, index_from_number, overlaps, split_segments,
    split_words, strip_prefix, Lexicon,
};
use steam_backup_manager::steam_achievements::SteamAchievementSchema;

fn entry(name: &str, display: &str, description: Option<&str>) -> SteamAchievementSchema {
    SteamAchievementSchema {
        name: name.to_string(),
        display_name: display.to_string(),
        description: description.map(|d| d.to_string()),
        icon: None,
        icon_gray: None,
        hidden: None,
    }
}

fn chars(s: &str) -> Vec<char> {
    s.chars().collect()
}

fn words(v: Vec<Vec<char>>) -> Vec<String> {
    v.into_iter().map(|w| w.into_iter().collect()).collect()
}

fn ten_entries() -> Vec<SteamAchievementSchema> {
    (1..=10).map(|i| entry(&format!("k{}", i), &format!("Name {}", i), None)).collect()
}

#[test]
fn section_number_binds_the_seventh_entry() {
    let schema = ten_entries();
    assert_eq!(bind_section("ACH_7", &schema), Some(6));
}

#[test]
fn exact_key_comes_before_the_number() {
    let mut schema = ten_entries();
    schema[2].name = "ACH_7".to_string();
    assert_eq!(bind_section("ACH_7", &schema), Some(2));
}

#[test]
fn number_out_of_range_binds_nothing_by_number() {
    let schema = vec![entry("a", "Alpha", None), entry("b", "Beta", None)];
    assert_eq!(bind_section("ACH_2", &schema), Some(1));
    assert_eq!(bind_section("ACH_3", &schema), None);
    assert_eq!(bind_section("ACH_0", &schema), None);
    assert_eq!(bind_section("ACH_002", &schema), Some(1));
    assert_eq!(bind_section("ACH_99999999999999999999999999999999999", &schema), None);
}

#[test]
fn number_out_of_range_goes_on_to_the_later_rules() {
    let schema = ten_entries();
    assert_eq!(bind_section("ACH_11", &schema), Some(0));
    let schema = vec![entry("a", "Alpha", None), entry("b", "99", None)];
    assert_eq!(bind_section("ACH_99", &schema), Some(1));
}

#[test]
fn prefix_and_underscores_give_the_display_name() {
    let schema = vec![
        entry("a", "Something Else", None),
        entry("b", "First Blood", Some("Win a fight")),
    ];
    assert_eq!(bind_section("ACH_FIRST_BLOOD", &schema), Some(1));
    assert_eq!(bind_section("achievement_first_blood", &schema), Some(1));
    assert_eq!(bind_section("First_Blood", &schema), Some(1));
}

#[test]
fn capitals_are_one_word() {
    assert_eq!(words(split_words(&chars("TALK"))), vec!["talk".to_string()]);
    assert_eq!(words(extract_keywords(&chars("TALK"))), vec!["talk".to_string()]);
}

#[test]
fn mixed_case_and_digits_are_split() {
    assert_eq!(
        words(split_words(&chars("LoversVengeance10Kills"))),
        vec!["lovers".to_string(), "vengeance".to_string(), "10".to_string(), "kills".to_string()]
    );
    assert_eq!(
        words(split_segments(&chars("ab_cd--ef"))),
        vec!["ab".to_string(), "cd".to_string(), "ef".to_string()]
    );
}

#[test]
fn short_words_are_dropped_but_numbers_stay() {
    assert_eq!(
        words(extract_keywords(&chars("GoTo5thFloor"))),
        vec!["5".to_string(), "floor".to_string()]
    );
}

#[test]
fn keywords_find_the_entry() {
    let schema = vec![
        entry("a", "Gardener", Some("Plant the tree")),
        entry("b", "Pyromaniac", Some("Burn ten houses")),
    ];
    assert_eq!(bind_section("PyromanHouses", &schema), Some(1));
    assert_eq!(bind_section("Zxq", &schema), None);
    assert_eq!(bind_section("Xy", &schema), None);
    let loose = vec![entry("a", "Gardener", Some("Plant a tree"))];
    assert_eq!(bind_section("Pyroman", &loose), Some(0));
}

#[test]
fn synonyms_match() {
    let schema = vec![entry("a", "Slayer", Some("Slay the dragon"))];
    assert_eq!(bind_section("KillDragon", &schema), Some(0));
}

#[test]
fn half_of_the_keywords_have_to_match() {
    let schema = vec![
        entry("a", "Quartz", Some("xxxx yyyy")),
        entry("b", "Quartz", Some("Zebra crossing")),
    ];
    assert_eq!(bind_section("QuartzZebraWwwwVvvv", &schema), Some(1));
    assert_eq!(bind_section("QuartzWwwwVvvvJjjj", &schema), None);
    assert_eq!(bind_section("QuartzWwwwVvvvUuuu", &schema), Some(0));
    assert_eq!(bind_section("QuartzWwwwVvvv", &schema), Some(0));
    let lex = Lexicon::new();
    let kws: Vec<Vec<char>> = ["quartz", "wwww", "vvvv", "jjjj", "kkkk"].iter().map(|k| chars(k)).collect();
    assert!(!lex.keywords_fit(&kws, &chars("quartz stone")));
    let kws: Vec<Vec<char>> = ["quartz", "stone", "vvvv", "jjjj", "kkkk"].iter().map(|k| chars(k)).collect();
    assert!(lex.keywords_fit(&kws, &chars("quartz stone")));
    assert!(!lex.keywords_fit(&Vec::new(), &chars("quartz stone")));
}

#[test]
fn seven_tenths_of_the_characters_have_to_be_shared() {
    assert!(overlaps(&chars("abcdefghij"), &chars("abcdefgxyzxyz")));
    assert!(!overlaps(&chars("abcdefghij"), &chars("abcdefxyzxyzx")));
    assert!(overlaps(&chars("abcd"), &chars("dcba")));
    assert!(!overlaps(&chars("abc"), &chars("abc")));
    assert!(!overlaps(&chars("abcd"), &chars("abxy")));
    assert!(!overlaps(&chars("aaaa"), &chars("axyz")));
    assert!(overlaps(&chars("aaaa"), &chars("axyzw")));
}

#[test]
fn words_may_differ_in_their_last_character() {
    assert!(differs_in_last(&chars("kills"), &chars("killx")));
    assert!(differs_in_last(&chars("kill"), &chars("kill")));
    assert!(!differs_in_last(&chars("kills"), &chars("kill")));
    assert!(!differs_in_last(&chars("kil"), &chars("kix")));
    assert!(!differs_in_last(&chars("kills"), &chars("bills")));
}

#[test]
fn stems_and_synonyms() {
    let lex = Lexicon::new();
    let stem = |w: &str| -> String { lex.stem_of(&chars(w)).into_iter().collect() };
    assert_eq!(stem("pyromaniac"), "pyroman");
    assert_eq!(stem("running"), "runn");
    assert_eq!(stem("killer"), "kill");
    assert_eq!(stem("magic"), "mag");
    assert_eq!(stem("epic"), "epic");
    assert_eq!(stem("red"), "red");
    assert_eq!(stem("darkness"), "dark");
    assert_eq!(stem("tree"), "tree");
    assert!(lex.are_synonyms(&chars("kill"), &chars("destroy")));
    assert!(lex.are_synonyms(&chars("defeat"), &chars("lose")));
    assert!(lex.are_synonyms(&chars("first"), &chars("first")));
    assert!(!lex.are_synonyms(&chars("kill"), &chars("lose")));
    assert!(!lex.are_synonyms(&chars("Kill"), &chars("slay")));
    assert!(lex.word_match(&chars("win"), &chars("victory")));
    assert!(lex.word_match(&chars("10"), &chars("100")));
    assert!(!lex.word_match(&chars(""), &chars("abc")));
    assert!(!lex.word_match(&chars("abc"), &chars("xyz")));
}

#[test]
fn prefixes_and_numbers_of_section_names() {
    let strip = |s: &str| -> String { strip_prefix(&chars(s)).into_iter().collect() };
    assert_eq!(strip("ACH_WIN"), "WIN");
    assert_eq!(strip("ach_win"), "win");
    assert_eq!(strip("Achievement_Win"), "Win");
    assert_eq!(strip("ACHIEVEMENT_"), "");
    assert_eq!(strip("ACH"), "ACH");
    assert_eq!(strip("ACHWIN"), "ACHWIN");
    assert_eq!(strip("XACH_WIN"), "XACH_WIN");
    assert_eq!(strip("ACH_ACH_X"), "ACH_X");
    assert_eq!(index_from_number(&chars("Trophy24"), 30), Some(23));
    assert_eq!(index_from_number(&chars("Trophy24"), 24), Some(23));
    assert_eq!(index_from_number(&chars("Trophy24"), 23), None);
    assert_eq!(index_from_number(&chars("Trophy"), 23), None);
    assert_eq!(index_from_number(&chars("7"), 23), Some(6));
    assert_eq!(index_from_number(&chars("1x"), 23), None);
    assert_eq!(index_from_number(&chars(""), 23), None);
    assert_eq!(index_from_number(&chars("a0"), 23), None);
}
