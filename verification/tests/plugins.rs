use mx_scraper::cli::fetch::{fetch_terms, Resolution};
use mx_scraper::plugins::{
    name_has_many_words, AutoAction, AutoEvent, AutoPhase, CustomDownload, FetchResult,
    FetchStep, PluginManager,
};
use mx_scraper::schemas::book::Book;
use mx_scraper::schemas::config::Config;

fn manager(found: &[&str]) -> PluginManager {
    let mut manager = PluginManager::new();
    manager
        .init(found.iter().map(|s| s.to_string()).collect())
        .unwrap();
    manager
}

fn book(title: &str) -> Book {
    let mut book = Book::default();
    book.title = title.to_string();
    book
}

fn fetched(term: &str, plugin: &str, title: &str) -> FetchResult {
    FetchResult {
        query_term: term.to_string(),
        book: book(title),
        plugin_name: plugin.to_string(),
        cached: false,
    }
}

#[test]
fn plugins_are_listed_in_registration_order() {
    assert!(PluginManager::new().list_plugins().is_empty());
    let manager = manager(&["zeta", "alpha"]);
    assert_eq!(manager.list_plugins(), vec!["zeta", "alpha", "gallery-dl"]);
    assert!(manager.has_plugin("alpha"));
    assert!(!manager.has_plugin("Alpha"));
}

#[test]
fn plugin_names_must_be_one_word() {
    let mut manager = PluginManager::new();
    let r = manager.init(vec!["fine".to_string(), "not fine".to_string()]);
    assert_eq!(
        r,
        Err("Invalid \"not fine\": plugin name cannot contain whitespaces".to_string())
    );
    assert!(manager.list_plugins().is_empty());
    // white space around a single word parts nothing
    assert!(!name_has_many_words(" padded "));
    assert!(!name_has_many_words(""));
    assert!(name_has_many_words("a\tb"));
    let mut manager = PluginManager::new();
    assert_eq!(manager.init(vec![" padded ".to_string()]), Ok(()));
    assert_eq!(manager.list_plugins(), vec![" padded ", "gallery-dl"]);
}

#[test]
fn missing_plugin_is_reported() {
    let manager = manager(&["mock"]);
    assert_eq!(manager.assert_exists("mock".to_string()), Ok(()));
    assert_eq!(
        manager.assert_exists("nope".to_string()),
        Err("Plugin named \"nope\" does not exist".to_string())
    );
    assert_eq!(
        manager.fetch("nope", true, true),
        Err("No plugin named \"nope\"".to_string())
    );
}

#[test]
fn folders_are_prepared_in_order() {
    let config = Config::new("1", "os", "arch");
    assert_eq!(
        PluginManager::prepare_folders(&config),
        vec![
            vec!["./query_cache"],
            vec!["./download/temp"],
            vec!["./download/download"],
            vec!["./download/metadata"],
            vec!["./plugins"],
        ]
    );
}

#[test]
fn cache_is_read_only_where_it_is_enabled_and_filled() {
    let manager = manager(&["mock"]);
    assert_eq!(manager.fetch("mock", true, true), Ok(FetchStep::ReadCache));
    assert_eq!(manager.fetch("mock", true, false), Ok(FetchStep::Resolve));
    assert_eq!(manager.fetch("mock", false, true), Ok(FetchStep::Resolve));
    assert_eq!(manager.fetch("mock", false, false), Ok(FetchStep::Resolve));
}

#[test]
fn cache_hit_needs_no_plugin() {
    // the cache holds a book for ("http://a", "mock")
    let manager = manager(&["mock"]);
    let step = manager.fetch("mock", true, true).unwrap();
    // no plugin is asked: the book is read
    assert_eq!(step, FetchStep::ReadCache);
    let outcome = PluginManager::from_cache(
        "http://a".to_string(),
        "mock".to_string(),
        "./query_cache/mx_e6c0.json",
        Ok(book("B")),
        25,
    );
    let result = outcome.result.unwrap();
    assert!(result.cached);
    assert_eq!(result.book.title, "B");
    assert_eq!(result.query_term, "http://a");
    assert_eq!(result.plugin_name, "mock");
    assert!(!outcome.store);
    assert_eq!(outcome.pause, 25);
}

#[test]
fn unreadable_cache_fails_the_term() {
    let outcome = PluginManager::from_cache(
        "term".to_string(),
        "mock".to_string(),
        "./c/f.json",
        Err("expected value at line 1".to_string()),
        0,
    );
    assert_eq!(
        outcome.result.unwrap_err(),
        "Deserializing cache file for term term located at \"./c/f.json\": expected value at line 1"
    );
    assert!(!outcome.store);
}

#[test]
fn resolved_book_is_stored_where_caching_is_enabled() {
    let outcome = PluginManager::from_plugin(
        "term".to_string(),
        "mock".to_string(),
        true,
        Ok(book("B")),
        10,
    );
    assert!(outcome.store);
    let result = outcome.result.unwrap();
    assert!(!result.cached);
    assert_eq!(result.book.title, "B");

    let outcome = PluginManager::from_plugin(
        "term".to_string(),
        "mock".to_string(),
        false,
        Ok(book("B")),
        10,
    );
    assert!(!outcome.store);
    assert!(outcome.result.is_ok());

    let outcome = PluginManager::from_plugin(
        "term".to_string(),
        "mock".to_string(),
        true,
        Err("plugin threw".to_string()),
        10,
    );
    assert!(!outcome.store);
    assert_eq!(outcome.result.unwrap_err(), "plugin threw");
}

fn plugin_of(action: &AutoAction) -> String {
    match action {
        AutoAction::AskSupport { plugin } => format!("ask {plugin}"),
        AutoAction::Fetch { plugin } => format!("fetch {plugin}"),
        AutoAction::Finish(Ok(f)) => format!("found by {}", f.plugin_name),
        AutoAction::Finish(Err(e)) => format!("failed: {e}"),
    }
}

#[test]
fn auto_fetch_asks_plugins_in_order() {
    let manager = manager(&["first", "second"]);
    let mut search = manager.auto_fetch("term".to_string());
    assert_eq!(search.phase, AutoPhase::Idle);
    assert_eq!(plugin_of(&search.step(AutoEvent::Begin)), "ask first");
    assert_eq!(
        plugin_of(&search.step(AutoEvent::Support(Ok(false)))),
        "ask second"
    );
    assert_eq!(
        plugin_of(&search.step(AutoEvent::Support(Ok(true)))),
        "fetch second"
    );
    assert_eq!(search.phase, AutoPhase::Fetching);
    let done = search.step(AutoEvent::Fetched(Ok(fetched("term", "second", "X"))));
    assert_eq!(plugin_of(&done), "found by second");
    assert_eq!(search.phase, AutoPhase::Finished);
}

#[test]
fn auto_fetch_ends_with_the_fetch_of_the_first_plugin_that_supports_the_term() {
    let manager = manager(&["first", "second"]);
    let mut search = manager.auto_fetch("term".to_string());
    search.step(AutoEvent::Begin);
    assert_eq!(
        plugin_of(&search.step(AutoEvent::Support(Ok(true)))),
        "fetch first"
    );
    // the fetch fails: that is the result, and no other plugin is asked
    assert_eq!(
        plugin_of(&search.step(AutoEvent::Fetched(Err("boom".to_string())))),
        "failed: boom"
    );
    assert_eq!(search.phase, AutoPhase::Finished);
}

#[test]
fn auto_fetch_lists_the_plugins_that_could_not_tell() {
    let manager = manager(&["first"]);
    let mut search = manager.auto_fetch("term".to_string());
    search.step(AutoEvent::Begin);
    assert_eq!(
        plugin_of(&search.step(AutoEvent::Support(Err("boom".to_string())))),
        "ask gallery-dl"
    );
    assert_eq!(
        plugin_of(&search.step(AutoEvent::Support(Err("no binary".to_string())))),
        "failed: \n  - Plugin first: boom\n  - Plugin gallery-dl: no binary"
    );
}

#[test]
fn auto_fetch_without_support_names_the_term() {
    let manager = manager(&[]);
    let mut search = manager.auto_fetch("some term".to_string());
    search.step(AutoEvent::Begin);
    assert_eq!(
        plugin_of(&search.step(AutoEvent::Support(Ok(false)))),
        "failed: Cannot auto-detect plugin that supports the term \"some term\"\nYou can try with --plugin <PLUGIN_NAME>"
    );
    let empty = PluginManager::new();
    let mut search = empty.auto_fetch("t".to_string());
    assert_eq!(
        plugin_of(&search.step(AutoEvent::Begin)),
        "failed: Cannot auto-detect plugin that supports the term \"t\"\nYou can try with --plugin <PLUGIN_NAME>"
    );
}

#[test]
fn page_is_fetched_directly_where_the_plugin_has_no_downloader() {
    assert_eq!(
        PluginManager::download_url(Some(Ok(()))),
        Ok(CustomDownload::Saved)
    );
    assert_eq!(
        PluginManager::download_url(Some(Err("exit 1".to_string()))),
        Err("exit 1".to_string())
    );
    assert_eq!(
        PluginManager::download_url(None),
        Ok(CustomDownload::FetchDirectly)
    );
}

#[test]
fn repeated_terms_are_resolved_once_by_the_forced_plugin() {
    // a mock plugin maps "x" to the book X and "y" to the book Y
    let manager = manager(&["mock"]);
    let terms = vec!["x".to_string(), "y".to_string(), "x".to_string()];
    let mut resolver = fetch_terms(&manager, terms, Some("mock".to_string()), 5).unwrap();
    assert_eq!(resolver.len(), 2);
    for i in 0..resolver.len() {
        let term = resolver.term(i).clone();
        let plugin = resolver.forced_plugin().clone().unwrap();
        let step = manager.fetch(&plugin, false, false).unwrap();
        assert_eq!(step, FetchStep::Resolve);
        let title = term.to_uppercase();
        let outcome = PluginManager::from_plugin(term, plugin, false, Ok(book(&title)), 0);
        resolver.record(i, outcome.result);
    }
    let results = resolver.finish();
    let keys: Vec<&str> = results.keys().map(|k| k.as_str()).collect();
    assert_eq!(keys, vec!["x", "y"]);
    match &results["x"] {
        Resolution::Success(f) => assert_eq!(f.book.title, "X"),
        Resolution::Fail(e) => panic!("{e}"),
    }
    match &results["y"] {
        Resolution::Success(f) => assert_eq!(f.book.title, "Y"),
        Resolution::Fail(e) => panic!("{e}"),
    }
}
