use rom_scraper::jaro::{jaro_winkler_similarity, SCORE_ONE};
use rom_scraper::matcher::{calculate_confidence, normalize_game_name, parse_game_name_from_filename, rank_results};
use rom_scraper::types::{ScrapeQuery, SearchResult};

fn result(name: &str, system: Option<&str>, confidence: u32) -> SearchResult {
    SearchResult {
        provider: "test".to_string(),
        source_id: "1".to_string(),
        name: name.to_string(),
        year: None,
        system: system.map(|s| s.to_string()),
        thumbnail: None,
        confidence,
    }
}

#[test]
fn test_jaro_winkler() {
    assert!(jaro_winkler_similarity("Super Mario World", "Super Mario World") > 990_000);
    assert!(jaro_winkler_similarity("Super Mario World", "super mario world") > 990_000);
    assert!(jaro_winkler_similarity("Super Mario World", "Super Mario Bros") > 700_000);
    assert!(jaro_winkler_similarity("Zelda", "Pokemon") < 500_000);
}

#[test]
fn test_normalize_game_name() {
    assert_eq!(normalize_game_name("Super Mario World (USA).sfc"), "Super Mario World");
    assert_eq!(normalize_game_name("Legend of Zelda, The (Japan) [!].zip"), "Legend of Zelda, The");
    assert_eq!(normalize_game_name("Pokemon Red (USA, Europe) (Rev 1).gbc"), "Pokemon Red");
}

#[test]
fn test_calculate_confidence() {
    let query = ScrapeQuery::new("Super Mario World".to_string(), "Super Mario World (USA).sfc".to_string());
    let r = result("Super Mario World", None, 0);
    let confidence = calculate_confidence(&query, &r);
    // 0.7 of a full similarity plus 0.2 for the exact name; no system is given.
    assert_eq!(confidence, 900_000);
}

#[test]
fn jaro_winkler_of_a_string_with_itself_is_one() {
    for s in ["", "a", "Zelda", "超级马里奥", "Final Fantasy VII"] {
        assert_eq!(jaro_winkler_similarity(s, s), SCORE_ONE);
    }
}

#[test]
fn jaro_winkler_is_bounded_and_ignores_ascii_case() {
    let pairs = [("Zelda", "Pokemon"), ("MARTHA", "marhta"), ("", "abc"), ("DwAyNe", "DUANE")];
    for (a, b) in pairs {
        let v = jaro_winkler_similarity(a, b);
        assert!(v <= SCORE_ONE);
        assert_eq!(v, jaro_winkler_similarity(&a.to_ascii_lowercase(), &b.to_ascii_lowercase()));
    }
}

#[test]
fn jaro_winkler_known_values() {
    // MARTHA / MARHTA: 6 matches, 1 transposition; Jaro 0.9444, prefix 3.
    assert_eq!(jaro_winkler_similarity("MARTHA", "MARHTA"), 961_110);
    assert_eq!(jaro_winkler_similarity("abc", ""), 0);
    assert_eq!(jaro_winkler_similarity("abc", "xyz"), 0);
}

#[test]
fn normalize_is_idempotent_on_examples() {
    for s in ["Legend of Zelda, The (Japan) [!].zip", "  Mega   Man  X (USA).sfc", "Tetris [b1].gb", "Game (Beta"] {
        let once = normalize_game_name(s);
        assert_eq!(normalize_game_name(&once), once);
    }
    assert_eq!(normalize_game_name("Legend of Zelda, The (Japan) [!].zip"), "Legend of Zelda, The");
}

#[test]
fn normalize_strips_extension_ignoring_case_and_unclosed_groups_stay() {
    assert_eq!(normalize_game_name("Metroid.NES"), "Metroid");
    assert_eq!(normalize_game_name("Game (Beta"), "Game (Beta");
    assert_eq!(parse_game_name_from_filename("Kirby [T+Eng].gba"), "Kirby");
}

#[test]
fn exact_name_and_system_scores_high() {
    let query = ScrapeQuery::new("Chrono Trigger".to_string(), "ct.sfc".to_string()).with_system("SNES".to_string());
    let r = result("Chrono Trigger", Some("snes"), 0);
    assert!(calculate_confidence(&query, &r) >= 900_000);
    assert_eq!(calculate_confidence(&query, &r), SCORE_ONE);
}

#[test]
fn rank_results_orders_by_rescored_confidence() {
    let query = ScrapeQuery::new("Zelda".to_string(), "zelda.nes".to_string());
    let rs = vec![result("Pokemon", None, 999_999), result("Zelda", None, 0), result("Zelda II", None, 5)];
    let ranked = rank_results(&query, rs);
    assert_eq!(ranked.len(), 3);
    assert_eq!(ranked[0].name, "Zelda");
    assert_eq!(ranked[0].confidence, 900_000);
    assert_eq!(ranked[2].name, "Pokemon");
    assert!(ranked[0].confidence >= ranked[1].confidence && ranked[1].confidence >= ranked[2].confidence);
}

#[test]
fn repeated_extensions_are_all_stripped() {
    assert_eq!(normalize_game_name("a.zip.zip"), "a");
    assert_eq!(normalize_game_name(".7z.7z"), "");
    assert_eq!(normalize_game_name("Mega Man X (USA).sfc "), "Mega Man X");
    assert_eq!(normalize_game_name("Game.bin .cue"), "Game");
    for s in ["a.zip.zip", "x.zip.bin", "Mega Man X (USA).sfc ", "Tetris (World) [!].GB.zip"] {
        let once = normalize_game_name(s);
        assert_eq!(normalize_game_name(&once), once);
    }
}
