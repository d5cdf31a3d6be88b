use rom_scraper::manager::{
    choose_best_match, collect_ok, lookup_step, merge_metadata, select_best, LookupStep, ProviderConfig,
    ScrapeError, ScraperManager, DEFAULT_PRIORITY,
};
use rom_scraper::types::{Capabilities, GameMetadata, MediaType, ProviderCapability, RomHash, ScrapeQuery, SearchResult};

fn caps(list: &[ProviderCapability]) -> Capabilities {
    let mut c = Capabilities::new();
    for x in list {
        c = c.with(*x);
    }
    c
}

fn hit(provider: &str, id: &str, confidence: u32) -> SearchResult {
    SearchResult {
        provider: provider.to_string(),
        source_id: id.to_string(),
        name: "Game".to_string(),
        year: None,
        system: None,
        thumbnail: None,
        confidence,
    }
}

#[test]
fn test_manager_creation() {
    let manager: ScraperManager<()> = ScraperManager::new();
    assert!(manager.provider_ids().is_empty());
}

#[test]
fn register_uses_saved_or_default_config() {
    let mut m: ScraperManager<u8> = ScraperManager::new();
    m.register("a".to_string(), caps(&[ProviderCapability::Search]), 1, None);
    m.register("b".to_string(), caps(&[ProviderCapability::Search]), 2, Some(ProviderConfig { enabled: false, priority: 5 }));
    assert_eq!(m.entries[0].config, ProviderConfig { enabled: true, priority: DEFAULT_PRIORITY });
    assert_eq!(m.entries[1].config, ProviderConfig { enabled: false, priority: 5 });
    m.register("a".to_string(), caps(&[ProviderCapability::Media]), 3, None);
    assert_eq!(m.provider_ids(), vec!["a".to_string(), "b".to_string()]);
    assert_eq!(m.entries[0].provider, 3);
    m.unregister("a");
    assert_eq!(m.provider_ids(), vec!["b".to_string()]);
}

#[test]
fn enabled_order_filters_and_sorts_by_priority() {
    let mut m: ScraperManager<()> = ScraperManager::new();
    let all = [ProviderCapability::Search, ProviderCapability::Metadata];
    m.register_with_config("x".to_string(), caps(&all), (), ProviderConfig { enabled: true, priority: 30 });
    m.register_with_config("y".to_string(), caps(&all), (), ProviderConfig { enabled: true, priority: 10 });
    m.register_with_config("z".to_string(), caps(&all), (), ProviderConfig { enabled: false, priority: 1 });
    m.register_with_config("w".to_string(), caps(&[ProviderCapability::Media]), (), ProviderConfig { enabled: true, priority: 0 });
    m.register_with_config("v".to_string(), caps(&all), (), ProviderConfig { enabled: true, priority: 10 });
    assert_eq!(m.enabled_order(ProviderCapability::Search), vec![1, 4, 0]);
    m.set_enabled("z", true);
    m.set_priority("x", 0);
    m.set_priority("unknown", 0);
    assert_eq!(m.enabled_order(ProviderCapability::Metadata), vec![0, 2, 1, 4]);
    assert_eq!(m.enabled_order(ProviderCapability::HashLookup), Vec::<usize>::new());
}

#[test]
fn unknown_provider_is_not_found() {
    let mut m: ScraperManager<()> = ScraperManager::new();
    m.register("a".to_string(), Capabilities::new(), (), None);
    assert_eq!(m.find_provider("a"), Ok(0));
    assert_eq!(m.find_provider("b"), Err(ScrapeError::ProviderNotFound));
}

#[test]
fn metadata_merge_prefers_higher_priority() {
    let mut a = GameMetadata::empty();
    a.developer = Some("Nintendo".to_string());
    let mut b = GameMetadata::empty();
    b.developer = Some("Other".to_string());
    b.genres = vec!["Platform".to_string()];
    let (merged, sources) = merge_metadata(vec![
        ("priorityA".to_string(), Some(a)),
        ("broken".to_string(), None),
        ("priorityB".to_string(), Some(b)),
    ]);
    assert_eq!(merged.developer, Some("Nintendo".to_string()));
    assert_eq!(merged.genres, vec!["Platform".to_string()]);
    assert_eq!(merged.name, "");
    assert_eq!(merged.publisher, None);
    assert_eq!(sources, vec!["priorityA".to_string(), "priorityB".to_string()]);
}

#[test]
fn metadata_merge_unions_genres_in_order() {
    let mut a = GameMetadata::empty();
    a.name = "Zelda".to_string();
    a.genres = vec!["Action".to_string(), "Adventure".to_string()];
    let mut b = GameMetadata::empty();
    b.name = "Other".to_string();
    b.genres = vec!["RPG".to_string(), "Action".to_string(), "RPG".to_string()];
    b.rating = Some(900_000);
    let (merged, _) = merge_metadata(vec![("a".to_string(), Some(a)), ("b".to_string(), Some(b))]);
    assert_eq!(merged.name, "Zelda");
    assert_eq!(merged.genres, vec!["Action".to_string(), "Adventure".to_string(), "RPG".to_string()]);
    assert_eq!(merged.rating, Some(900_000));
}

#[test]
fn search_over_no_enabled_providers_is_empty_and_scrape_fails() {
    let mut m: ScraperManager<()> = ScraperManager::new();
    m.register_with_config("off".to_string(), caps(&[ProviderCapability::Search]), (), ProviderConfig { enabled: false, priority: 1 });
    let order = m.enabled_order(ProviderCapability::Search);
    assert!(order.is_empty());
    let answers: Vec<Option<Vec<SearchResult>>> = order.iter().map(|_| None).collect();
    let results = collect_ok(answers);
    assert!(results.is_empty());
    assert_eq!(choose_best_match(None, results).unwrap_err(), ScrapeError::NoResultsFound);
}

#[test]
fn hash_lookup_stops_at_first_match() {
    let mut m: ScraperManager<&str> = ScraperManager::new();
    let h = caps(&[ProviderCapability::HashLookup]);
    m.register_with_config("gamma".to_string(), h, "gamma", ProviderConfig { enabled: true, priority: 3 });
    m.register_with_config("alpha".to_string(), h, "alpha", ProviderConfig { enabled: true, priority: 1 });
    m.register_with_config("beta".to_string(), h, "beta", ProviderConfig { enabled: true, priority: 2 });
    let order = m.enabled_order(ProviderCapability::HashLookup);
    let mut asked: Vec<&str> = Vec::new();
    let mut step = lookup_step(&order, 0, None);
    let found = loop {
        match step {
            LookupStep::Ask(i) => {
                let p = m.entries[i].provider;
                asked.push(p);
                let answer = if p == "alpha" { None } else { Some(hit(p, "id", 1_000_000)) };
                step = lookup_step(&order, asked.len(), answer);
            }
            LookupStep::Found(r) => break Some(r),
            LookupStep::Exhausted => break None,
        }
    };
    assert_eq!(asked, vec!["alpha", "beta"]);
    assert_eq!(found.unwrap().provider, "beta");
    let query = ScrapeQuery::new("x".to_string(), "x.bin".to_string()).with_hash(RomHash { crc32: Some("1".to_string()), md5: None, sha1: None });
    assert!(query.hash.is_some());
}

#[test]
fn best_match_prefers_hash_then_highest_confidence() {
    let rs = vec![hit("a", "1", 10), hit("b", "2", 30), hit("c", "3", 30)];
    assert_eq!(select_best(&rs), Some(1));
    assert_eq!(choose_best_match(None, rs.clone()).unwrap().provider, "b");
    assert_eq!(choose_best_match(Some(hit("h", "9", 0)), rs).unwrap().provider, "h");
    assert_eq!(select_best(&Vec::new()), None);
}

#[test]
fn collect_ok_concatenates_successes() {
    let out = collect_ok(vec![Some(vec![1, 2]), None, Some(vec![3])]);
    assert_eq!(out, vec![1, 2, 3]);
}

#[test]
fn media_types_and_capabilities() {
    assert_eq!(MediaType::from_str("Box-2D"), MediaType::BoxFront);
    assert_eq!(MediaType::from_str("WHEEL"), MediaType::Logo);
    assert_eq!(MediaType::from_str("nothing"), MediaType::Other);
    assert_eq!(MediaType::Box3D.as_str(), "box3d");
    let c = Capabilities::new().with(ProviderCapability::Media).with(ProviderCapability::Search);
    assert!(c.has(ProviderCapability::Search));
    assert!(!c.has(ProviderCapability::HashLookup));
    assert_eq!(c.all(), vec![ProviderCapability::Search, ProviderCapability::Media]);
}

#[test]
fn search_runs_only_without_hash_match() {
    assert!(rom_scraper::manager::search_due(&None));
    assert!(!rom_scraper::manager::search_due(&Some(hit("h", "1", 0))));
}
