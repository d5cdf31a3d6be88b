use rom_scraper::cn_match::smart_cn_similarity;
use rom_scraper::cn_names::{build_cn_to_en_map, build_en_to_cn_map, parse_csv_line, Jy6dDzEntry};
use rom_scraper::jaro::SCORE_ONE;

#[test]
fn sequel_numbers_must_agree() {
    assert_eq!(smart_cn_similarity("超级马里奥2", "超级马里奥3"), 0);
}

#[test]
fn identical_names_score_one() {
    assert!(smart_cn_similarity("超级马里奥", "超级马里奥") >= 990_000);
    assert_eq!(smart_cn_similarity("超级马里奥", "超级马里奥"), SCORE_ONE);
    assert_eq!(smart_cn_similarity("", ""), SCORE_ONE);
}

#[test]
fn traditional_characters_and_brand_prefix_are_normalised() {
    assert_eq!(smart_cn_similarity("神游马里奥", "馬里奥"), SCORE_ONE);
}

#[test]
fn reordered_characters_reach_the_jaccard_floor() {
    let s = smart_cn_similarity("马里奥赛车", "赛车马里奥");
    assert!(s >= 850_000);
}

#[test]
fn unrelated_names_score_low() {
    assert!(smart_cn_similarity("塞尔达传说", "恶魔城") < 500_000);
}

#[test]
fn test_parse_csv_line() {
    let line = r#"Hello World,你好世界,"with,comma","with ""quotes"""#;
    let fields = parse_csv_line(line);
    assert_eq!(fields.len(), 4);
    assert_eq!(fields[0], "Hello World");
    assert_eq!(fields[1], "你好世界");
    assert_eq!(fields[2], "with,comma");
    assert_eq!(fields[3], r#"with "quotes""#);
}

#[test]
fn name_tables_key_by_lowercase_and_skip_half_rows() {
    let entries = vec![
        Jy6dDzEntry { english_name: "Super Mario".to_string(), chinese_name: "超级马里奥".to_string() },
        Jy6dDzEntry { english_name: "".to_string(), chinese_name: "空".to_string() },
        Jy6dDzEntry { english_name: "SUPER MARIO".to_string(), chinese_name: "马里奥".to_string() },
    ];
    let en = build_en_to_cn_map(&entries);
    assert_eq!(en, vec![("super mario".to_string(), "马里奥".to_string())]);
    let cn = build_cn_to_en_map(&entries);
    assert_eq!(cn.len(), 2);
    assert_eq!(cn[0], ("超级马里奥".to_string(), "Super Mario".to_string()));
}

use rom_scraper::cn_names::CnRomEntry;
use rom_scraper::local_cn::{search_entries, LocalCnProvider};

fn row(en: &str, cn: &str) -> CnRomEntry {
    CnRomEntry { english_name: en.to_string(), chinese_name: cn.to_string() }
}

#[test]
fn local_database_ranks_and_limits_results() {
    let rows = vec![
        row("Super Mario Bros. (World)", "超级马里奥兄弟"),
        row("Contra (USA)", "魂斗罗"),
        row("Super Mario Bros. 3 (USA)", "超级马里奥兄弟3"),
        row("Tetris", "俄罗斯方块"),
    ];
    let system = "FC".to_string();
    let r = search_entries("超级马里奥兄弟", "Super Mario Bros. (World)", &system, &rows);
    assert!(!r.is_empty() && r.len() <= 5);
    assert_eq!(r[0].source_id, "Super Mario Bros. (World)");
    assert_eq!(r[0].name, "超级马里奥兄弟");
    assert_eq!(r[0].confidence, 1_000_000);
    assert_eq!(r[0].provider, "local_cn_repo");
    assert_eq!(r[0].system, Some("FC".to_string()));
    assert!(r.iter().all(|x| x.source_id != "Contra (USA)"));
    assert!(r.windows(2).all(|w| w[0].confidence >= w[1].confidence));
    let many: Vec<CnRomEntry> = (0..8).map(|i| row(&format!("Tetris {}", i), "俄罗斯方块")).collect();
    assert_eq!(search_entries("俄罗斯方块", "x", &system, &many).len(), 5);
}

#[test]
fn local_database_paths_and_metadata() {
    let mut p = LocalCnProvider::new("/data", vec!["/bundled".to_string()]);
    assert_eq!(p.search_paths, vec!["/data/rom-name-cn".to_string(), "/bundled".to_string()]);
    assert!(p.metadata_for("Tetris").is_none());
    p.cache.push(("GB".to_string(), vec![row("Tetris", "俄罗斯方块")]));
    assert_eq!(p.cached("GB"), Some(0));
    let m = p.metadata_for("Tetris").unwrap();
    assert_eq!(m.name, "俄罗斯方块");
    assert_eq!(m.english_name, Some("Tetris".to_string()));
    assert_eq!(m.description, Some("中文名称: 俄罗斯方块".to_string()));
}

#[test]
fn pinyin_letters_are_compared() {
    // 马 (ma) and 猫 (mao) share two of three Pinyin letters.
    assert_eq!(smart_cn_similarity("马", "猫"), 666_666);
}

#[test]
fn csv_tables_are_found_by_system_keyword() {
    assert_eq!(rom_scraper::local_cn::csv_keyword("SNES"), "Nintendo - Super Nintendo Entertainment System");
    assert_eq!(rom_scraper::local_cn::csv_keyword("Custom"), "Custom");
    assert!(rom_scraper::local_cn::csv_file_matches("Nintendo - Game Boy Advance (2024).csv", "nintendo - game boy advance"));
    assert!(!rom_scraper::local_cn::csv_file_matches("Nintendo - Game Boy Advance.txt", "Nintendo - Game Boy Advance"));
    assert!(!rom_scraper::local_cn::csv_file_matches("Sega - Saturn.csv", "Arcade"));
}
