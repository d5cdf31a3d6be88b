use rom_scraper::codec::{
    detect_metadata_format, export_to_pegasus, export_to_pegasus_legacy, parse_pegasus_content,
    pegasus_file_content, PegasusExportOptions,
};
use rom_scraper::decode::{decode_bytes_to_string, decode_with_detection};
use rom_scraper::systems::get_system_mappings;
use rom_scraper::merge::merge_games;
use rom_scraper::pegasus::PegasusGame;
use rom_scraper::sfo::{read_u16_le, read_u32_le};

#[test]
fn test_parse_basic() {
    let content = r#"
collection: SNES
extensions: sfc smc

game: Super Mario World
file: Super Mario World.sfc
developer: Nintendo
genre: Platform
players: 2
rating: 95%
"#;
    let result = parse_pegasus_content(content).unwrap();
    assert_eq!(result.collections.len(), 1);
    assert_eq!(result.collections[0].name, "SNES");
    assert_eq!(result.games.len(), 1);
    assert_eq!(result.games[0].name, "Super Mario World");
    assert_eq!(result.games[0].developer, Some("Nintendo".to_string()));
}

#[test]
fn parse_continuations_aliases_and_extensions() {
    let content = "# comment\r\ncollection: NES\r\nextension: nes zip\r\nlaunch: run {file.path}\r\ngame: Metroid\r\nfile: metroid.nes\r\ndescription: First\r\n  line\r\n  .\r\n  Second\r\nboxart: covers/metroid.png extra\r\nx-custom: Yes\r\nX-Other: b\r\nunknown: dropped\r\n";
    let m = parse_pegasus_content(content).unwrap();
    assert_eq!(m.collections.len(), 1);
    assert_eq!(m.collections[0].extensions, vec!["nes".to_string(), "zip".to_string()]);
    assert_eq!(m.collections[0].launch_command, Some("run {file.path}".to_string()));
    let g = &m.games[0];
    assert_eq!(g.file, Some("metroid.nes".to_string()));
    assert_eq!(g.description, Some("First line\n\n Second".to_string()));
    assert_eq!(g.box_front, Some("covers/metroid.png".to_string()));
    assert_eq!(g.extra, vec![("x-custom".to_string(), "Yes".to_string()), ("x-other".to_string(), "b".to_string())]);
}

fn game(name: &str, file: &str) -> PegasusGame {
    let mut g = PegasusGame::named(name.to_string());
    g.file = Some(file.to_string());
    g
}

#[test]
fn export_writes_present_fields_and_sorted_extensions() {
    let mut g = game("Metroid", "metroid.nes");
    g.developer = Some("Nintendo".to_string());
    g.summary = Some("a\nb".to_string());
    g.description = Some("one\n\ntwo".to_string());
    g.extra = vec![("x-z".to_string(), "1".to_string()), ("x-a".to_string(), "2".to_string())];
    let mut o = PegasusExportOptions::new();
    o.include_collection = true;
    o.collection_name = Some("NES".to_string());
    o.extensions = Some(vec!["nes".to_string(), "zip".to_string()]);
    let text = export_to_pegasus(&[g], &o);
    assert_eq!(
        text,
        "collection: NES\nextensions: nes zip\n\ngame: Metroid\nfile: metroid.nes\ndeveloper: Nintendo\nsummary: a b\ndescription: one\n  .\n  two\nx-a: 2\nx-z: 1\n\n"
    );
}

#[test]
fn export_then_parse_keeps_fields() {
    let mut g = game("Contra", "contra.nes");
    g.publisher = Some("Konami".to_string());
    g.genre = Some("Action".to_string());
    g.sort_title = Some("Contra 1".to_string());
    g.extra = vec![("x-b".to_string(), "2".to_string()), ("x-a".to_string(), "1".to_string())];
    let mut o = PegasusExportOptions::new();
    o.include_assets = true;
    g.logo = Some("logo.png".to_string());
    let text = export_to_pegasus(&[g], &o);
    let back = parse_pegasus_content(&text).unwrap();
    let h = &back.games[0];
    assert_eq!(h.name, "Contra");
    assert_eq!(h.file, Some("contra.nes".to_string()));
    assert_eq!(h.publisher, Some("Konami".to_string()));
    assert_eq!(h.genre, Some("Action".to_string()));
    assert_eq!(h.sort_title, Some("Contra 1".to_string()));
    assert_eq!(h.logo, Some("logo.png".to_string()));
    assert_eq!(h.extra, vec![("x-a".to_string(), "1".to_string()), ("x-b".to_string(), "2".to_string())]);
}

#[test]
fn legacy_export_has_header() {
    let text = export_to_pegasus_legacy("SNES", &[game("F-Zero", "fzero.sfc")], Some(&["sfc", "smc"]));
    assert_eq!(text, "collection: SNES\nextensions: sfc smc\n\ngame: F-Zero\nfile: fzero.sfc\n\n");
}

#[test]
fn merging_the_same_game_twice_keeps_one() {
    let mut g = game("Metroid", "metroid.nes");
    g.developer = Some("Nintendo R&D1".to_string());
    let existing = vec![game("Old Name", "metroid.nes"), game("Other", "other.nes")];
    let once = merge_games(existing, &[g.clone()]);
    let twice = merge_games(once, &[g.clone()]);
    let with_key: Vec<_> = twice.iter().filter(|x| x.file.as_deref() == Some("metroid.nes")).collect();
    assert_eq!(with_key.len(), 1);
    assert_eq!(with_key[0].name, "Metroid");
    assert_eq!(with_key[0].developer, Some("Nintendo R&D1".to_string()));
    assert_eq!(twice.len(), 2);
}

#[test]
fn merge_appends_unknown_files_and_merges_extensions() {
    let mut old = game("A", "a.nes");
    old.extra = vec![("x-k".to_string(), "old".to_string()), ("x-keep".to_string(), "1".to_string())];
    let mut new = game("", "a.nes");
    new.extra = vec![("x-k".to_string(), "new".to_string())];
    let merged = merge_games(vec![old], &[new, game("B", "b.nes")]);
    assert_eq!(merged.len(), 2);
    assert_eq!(merged[0].name, "A");
    assert_eq!(merged[0].extra, vec![("x-k".to_string(), "new".to_string()), ("x-keep".to_string(), "1".to_string())]);
    assert_eq!(merged[1].name, "B");
}

#[test]
fn file_content_merges_into_existing_text() {
    let existing = "game: Old\nfile: a.nes\nplayers: 2\n";
    let mut g = game("New", "a.nes");
    g.rating = Some("80%".to_string());
    let o = PegasusExportOptions::new();
    let merged = pegasus_file_content(Some(existing), &[g.clone()], &o, true);
    assert_eq!(merged, "game: New\nfile: a.nes\nplayers: 2\nrating: 80%\n\n");
    let fresh = pegasus_file_content(Some(existing), &[g], &o, false);
    assert_eq!(fresh, "game: New\nfile: a.nes\nrating: 80%\n\n");
}

#[test]
fn decoding_utf8_bom_and_gbk() {
    assert_eq!(decode_bytes_to_string(&[0xEF, 0xBB, 0xBF, b'h', b'i']), "hi");
    assert_eq!(decode_bytes_to_string("游戏".as_bytes()), "游戏");
    // "游戏" in GBK.
    assert_eq!(decode_bytes_to_string(&[0xD3, 0xCE, 0xCF, 0xB7]), "游戏");
}

#[test]
fn metadata_format_detection() {
    assert_eq!(detect_metadata_format(false, true, true), "pegasus");
    assert_eq!(detect_metadata_format(false, false, true), "emulationstation");
    assert_eq!(detect_metadata_format(false, false, false), "none");
}

#[test]
fn test_read_u16_le() {
    let data = [0x34, 0x12];
    assert_eq!(read_u16_le(&data, 0), 0x1234);
}

#[test]
fn test_read_u32_le() {
    let data = [0x78, 0x56, 0x34, 0x12];
    assert_eq!(read_u32_le(&data, 0), 0x12345678);
}

#[test]
fn game_record_to_metadata() {
    let mut g = game("超级马里奥", "smb.nes");
    g.genre = Some("Platform".to_string());
    g.extra = vec![("x-english-name".to_string(), "Super Mario".to_string()), ("x-mrrm-eng".to_string(), "Super Mario Bros.".to_string())];
    let m = g.to_metadata(Some(950_000));
    assert_eq!(m.name, "超级马里奥");
    assert_eq!(m.english_name, Some("Super Mario Bros.".to_string()));
    assert_eq!(m.genres, vec!["Platform".to_string()]);
    assert_eq!(m.rating, Some(950_000));
    g.extra.remove(1);
    assert_eq!(g.to_metadata(None).english_name, Some("Super Mario".to_string()));
}

#[test]
fn keys_in_any_case_are_recognised() {
    let m = parse_pegasus_content("game: G\nCover: art.png more\nX-Foo: v\nDEVELOPER: Sega\n").unwrap();
    let g = &m.games[0];
    assert_eq!(g.box_front, Some("art.png".to_string()));
    assert_eq!(g.developer, Some("Sega".to_string()));
    assert_eq!(g.extra, vec![("x-foo".to_string(), "v".to_string())]);
}

#[test]
fn decoding_prefers_the_detector_then_gbk() {
    let gbk = [0xD3, 0xCE, 0xCF, 0xB7];
    assert_eq!(decode_with_detection(&gbk, Some("detected".to_string())), "detected");
    assert_eq!(decode_with_detection(&gbk, None), "游戏");
    assert_eq!(decode_with_detection(b"plain", Some("ignored".to_string())), "plain");
}

#[test]
fn system_mappings_table() {
    let m = get_system_mappings();
    assert_eq!(m.len(), 64);
    assert_eq!(m[0].folder_name, "3DS");
    assert_eq!(m[0].csv_name, Some("Nintendo - Nintendo 3DS.csv"));
    assert_eq!(m[2].csv_name, None);
    assert_eq!(m[63].folder_name, "Light Gun");
}

#[test]
fn decoding_non_utf8_goes_through_detection() {
    let gbk = [0xD3, 0xCE, 0xCF, 0xB7, 0xD3, 0xCE, 0xCF, 0xB7];
    let text = decode_bytes_to_string(&gbk);
    assert!(!text.is_empty());
    assert_ne!(text, String::from_utf8_lossy(&gbk));
}
