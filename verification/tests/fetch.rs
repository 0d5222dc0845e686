use mx_scraper::cli::fetch::{
    dedupe_terms, display_download_status, display_fetch_status,
    display_main_metadata_attributes, fetch_terms, read_terms, reflect_back_terms,
    shuffle_in_place, sort_in_place, Auth, FileSequence, Resolution, SharedFetchOption,
    TermSequence, UrlOutput, UrlTerm,
};
use indexmap::IndexMap;
use mx_scraper::cli::infos::{InfoRequest, Infos};
use mx_scraper::downloader::{DownloadStatus, Failure};
use mx_scraper::http::AuthKind;
use mx_scraper::plugins::{FetchResult, PluginManager};
use mx_scraper::schemas::book::{Book, Chapter, Page};

fn strings(items: &[&str]) -> Vec<String> {
    items.iter().map(|s| s.to_string()).collect()
}

fn options() -> SharedFetchOption {
    SharedFetchOption {
        meta_only: false,
        batch_size: None,
        mini_batch_size: None,
        max_size_init_crawl_batch: None,
        max_parallel_fetch: None,
        verbose: false,
        no_cache: false,
        rand: false,
        asc: false,
        reflect: false,
        plugin: None,
        cookies: None,
        custom_downloader: false,
        auth: None,
        listen_cookies: false,
    }
}

fn fetched(term: &str, pages: usize, cached: bool) -> FetchResult {
    let mut book = Book::default();
    book.title = format!("Book of {term}");
    let mut chapter = Chapter::default();
    chapter.pages = (0..pages).map(|_| Page::default()).collect();
    book.chapters.push(chapter);
    FetchResult {
        query_term: term.to_string(),
        book,
        plugin_name: "mock".to_string(),
        cached,
    }
}

fn manager() -> PluginManager {
    let mut manager = PluginManager::new();
    manager.init(vec!["mock".to_string()]).unwrap();
    manager
}

#[test]
fn dedupe_keeps_the_first_occurrence() {
    assert_eq!(dedupe_terms(strings(&["t1", "t2", "t1"])), vec!["t1", "t2"]);
    assert_eq!(
        dedupe_terms(strings(&["b", "a", "b", "c", "a", "a"])),
        vec!["b", "a", "c"]
    );
    assert!(dedupe_terms(vec![]).is_empty());
    assert_eq!(dedupe_terms(strings(&["x", "X"])), vec!["x", "X"]);
}

#[test]
fn basic_credential_wins_over_bearer() {
    let auth = Auth {
        user: Some("u".to_string()),
        password: Some("p".to_string()),
        bearer: Some("token".to_string()),
    };
    match auth.gen_basic_auth().unwrap() {
        AuthKind::Basic { user, password } => {
            assert_eq!(user, "u");
            assert_eq!(password, Some("p".to_string()));
        }
        AuthKind::Bearer { .. } => panic!("a user asks for basic authentication"),
    }
}

#[test]
fn bearer_prefix_is_stripped() {
    let auth = |bearer: &str| Auth {
        user: None,
        password: None,
        bearer: Some(bearer.to_string()),
    };
    match auth("Bearer abc").gen_basic_auth().unwrap() {
        AuthKind::Bearer { token } => assert_eq!(token, "abc"),
        AuthKind::Basic { .. } => panic!("no user was given"),
    }
    match auth("abc").gen_basic_auth().unwrap() {
        AuthKind::Bearer { token } => assert_eq!(token, "abc"),
        AuthKind::Basic { .. } => panic!("no user was given"),
    }
    match auth("bearer abc").gen_basic_auth().unwrap() {
        AuthKind::Bearer { token } => assert_eq!(token, "bearer abc"),
        AuthKind::Basic { .. } => panic!("no user was given"),
    }
    let none = Auth {
        user: None,
        password: Some("p".to_string()),
        bearer: None,
    };
    assert_eq!(
        none.gen_basic_auth().unwrap_err(),
        "At least user must be provided, or use --bearer"
    );
}

#[test]
fn terms_of_a_file() {
    let content = "# a comment\nfirst second\n\n   # indented comment\n  third\tfourth  \r\nfifth#not-a-comment\n";
    assert_eq!(
        read_terms(content),
        vec!["first", "second", "third", "fourth", "fifth#not-a-comment"]
    );
    assert!(read_terms("").is_empty());
    assert!(read_terms("#only").is_empty());
    assert_eq!(read_terms("last-line-without-newline"), vec!["last-line-without-newline"]);
}

#[test]
fn unknown_forced_plugin_stops_the_resolution() {
    let r = fetch_terms(&manager(), strings(&["a"]), Some("nope".to_string()), 3);
    assert_eq!(r.unwrap_err(), "Plugin named \"nope\" does not exist");
}

#[test]
fn terms_are_resolved_in_batches() {
    let resolver = fetch_terms(&manager(), strings(&["a", "b", "a", "c", "d"]), None, 3).unwrap();
    assert_eq!(resolver.len(), 4);
    assert_eq!(resolver.found(), "[Found 4 entries]");
    assert_eq!(
        resolver.batches(),
        vec![strings(&["a", "b", "c"]), strings(&["d"])]
    );
    let one = fetch_terms(&manager(), strings(&["a"]), None, 3).unwrap();
    assert_eq!(one.found(), "[Found 1 entry]");
    assert_eq!(one.progress(), "0 fetched, 0 cached, 1 left");
}

#[test]
fn results_keep_input_order_whatever_the_completion_order() {
    let mut resolver = fetch_terms(&manager(), strings(&["a", "b", "c", "d"]), None, 2).unwrap();
    assert_eq!(
        resolver.record(2, Ok(fetched("c", 1, true))),
        "0 fetched, 1 cached, 3 left"
    );
    assert_eq!(
        resolver.record(0, Ok(fetched("a", 1, false))),
        "1 fetched, 1 cached, 2 left"
    );
    assert_eq!(
        resolver.record(1, Err("plugin threw".to_string())),
        "1 fetched, 1 cached, 2 left"
    );
    // the task of "d" never reported
    let results = resolver.finish();
    let keys: Vec<&str> = results.keys().map(|k| k.as_str()).collect();
    assert_eq!(keys, vec!["a", "b", "c"]);
    assert!(matches!(results["a"], Resolution::Success(_)));
    assert!(matches!(results["b"], Resolution::Fail(_)));
    assert!(matches!(results["c"], Resolution::Success(_)));
}

#[test]
fn failed_terms_are_reported() {
    let mut results = IndexMap::new();
    results.insert("a".to_string(), Resolution::Success(fetched("a", 1, false)));
    results.insert("b".to_string(), Resolution::Fail("first error".to_string()));
    results.insert("c".to_string(), Resolution::Fail("second error".to_string()));
    assert_eq!(
        display_fetch_status(&results, false),
        Some("Failed fetching 2/3..\n".to_string())
    );
    assert_eq!(
        display_fetch_status(&results, true),
        Some("Failed fetching 2/3:\n#1. \"b\"\nfirst error\n#2. \"c\"\nsecond error\n".to_string())
    );
    let mut fine = IndexMap::new();
    fine.insert("a".to_string(), Resolution::Success(fetched("a", 1, false)));
    assert_eq!(display_fetch_status(&fine, true), None);
    assert_eq!(display_fetch_status(&IndexMap::new(), false), None);
}

#[test]
fn failed_downloads_are_reported() {
    let books = vec![fetched("a", 1, false), fetched("b", 1, false), fetched("c", 1, false)];
    let statuses = vec![
        DownloadStatus::Fail(Failure::Failed("p2.jpg: 404".to_string())),
        DownloadStatus::Success,
        DownloadStatus::Fail(Failure::Cancelled("task 7 was cancelled".to_string())),
    ];
    assert_eq!(
        display_download_status(&books, &statuses),
        Some(
            "Failed downloads 2/3:\n#1. Query term \"a\":\n  - Book of a\n  - Some(p2.jpg: 404)\n\n#3. Query term \"c\":\n  - Book of c\n  - Cancelled(task 7 was cancelled)"
                .to_string()
        )
    );
    let fine = vec![DownloadStatus::Success, DownloadStatus::Success, DownloadStatus::Success];
    assert_eq!(display_download_status(&books, &fine), None);
    assert_eq!(
        Failure::Unknown("join error".to_string()).describe(),
        "Unknown(join error)"
    );
}

#[test]
fn terms_are_reflected_back() {
    let books = vec![fetched("a", 2, false), fetched("b", 0, true)];
    assert_eq!(reflect_back_terms(&books, false), "a\nb\n");
    assert_eq!(
        reflect_back_terms(&books, true),
        "# 1: Resolver mock, total links 2\na\n\n# 2: Resolver mock, total links 0\nb\n\n"
    );
    assert_eq!(reflect_back_terms(&vec![], true), "");
}

#[test]
fn metadata_is_listed_under_numbered_rules() {
    let books = vec![fetched("a", 2, false)];
    assert_eq!(
        display_main_metadata_attributes(&books),
        "\n1. ==============\n- Title: Book of a\n- Source: \n- Author(s): \n- Tag(s): \n- Chapter(s) (1):\n   -  (2 pages)\n"
    );
}

#[test]
fn books_are_sorted_by_page_count() {
    let mut books = vec![
        fetched("five", 5, false),
        fetched("one", 1, false),
        fetched("three-a", 3, false),
        fetched("zero", 0, false),
        fetched("three-b", 3, false),
    ];
    sort_in_place(&mut books, false);
    let order: Vec<&str> = books.iter().map(|b| b.query_term.as_str()).collect();
    assert_eq!(order, vec!["five", "one", "three-a", "zero", "three-b"]);
    sort_in_place(&mut books, true);
    let order: Vec<&str> = books.iter().map(|b| b.query_term.as_str()).collect();
    assert_eq!(order, vec!["zero", "one", "three-a", "three-b", "five"]);
    let mut none: Vec<FetchResult> = vec![];
    sort_in_place(&mut none, true);
    assert!(none.is_empty());
}

#[test]
fn shuffle_keeps_the_terms() {
    let terms: Vec<String> = (0..60).map(|i| format!("term-{i}")).collect();
    let mut same = terms.clone();
    shuffle_in_place(&mut same, false);
    assert_eq!(same, terms);
    let mut shuffled = terms.clone();
    shuffle_in_place(&mut shuffled, true);
    assert_ne!(shuffled, terms);
    let mut sorted = shuffled.clone();
    sorted.sort();
    let mut expected = terms.clone();
    expected.sort();
    assert_eq!(sorted, expected);
}

#[test]
fn plan_of_the_fetch_commands() {
    let mut flags = options();
    flags.max_parallel_fetch = Some(4);
    flags.rand = true;
    flags.meta_only = true;
    flags.verbose = true;
    flags.reflect = true;
    let terms = TermSequence {
        terms: strings(&["a"]),
        flags: flags.clone(),
    };
    let plan = terms.fetch();
    assert_eq!(plan.resize_permits, Some(4));
    assert!(plan.shuffle);
    assert!(!plan.sort);
    assert!(plan.show_metadata);
    assert!(plan.reflect);
    assert!(!plan.listen_cookies);
    assert!(!plan.check_plugin_first);
    flags.verbose = false;
    let files = FileSequence {
        files: strings(&["terms.txt"]),
        flags,
    };
    let plan = files.fetch();
    assert!(plan.check_plugin_first);
    assert!(!plan.show_metadata);
    let mut results = IndexMap::new();
    results.insert("a".to_string(), Resolution::Fail("e".to_string()));
    FileSequence::unreadable(&mut results, "terms.txt", "No such file".to_string());
    FileSequence::unreadable(&mut results, "other.txt", "Is a directory".to_string());
    FileSequence::unreadable(&mut results, "terms.txt", "Permission denied".to_string());
    let keys: Vec<&str> = results.keys().map(|k| k.as_str()).collect();
    assert_eq!(keys, vec!["a", "File at \"terms.txt\"", "File at \"other.txt\""]);
    assert!(matches!(
        &results["File at \"terms.txt\""],
        Resolution::Fail(e) if e == "Permission denied"
    ));
}

#[test]
fn output_of_a_request() {
    let term = |print: bool, dest: Option<&str>| UrlTerm {
        url: "http://x".to_string(),
        print,
        dest: dest.map(|d| d.to_string()),
        flags: options(),
    };
    assert!(matches!(term(false, None).fetch(), UrlOutput::Stdout));
    assert!(matches!(term(true, Some("out.bin")).fetch(), UrlOutput::Stdout));
    assert!(matches!(term(false, Some("out.bin")).fetch(), UrlOutput::File(p) if p == "out.bin"));
}

#[test]
fn what_infos_shows() {
    let infos = |plugins: bool, config: bool| Infos { plugins, config };
    assert_eq!(infos(true, true).display(), InfoRequest::Plugins);
    assert_eq!(infos(true, false).display(), InfoRequest::Plugins);
    assert_eq!(infos(false, true).display(), InfoRequest::Config);
    assert_eq!(infos(false, false).display(), InfoRequest::Nothing);
    assert_eq!(
        Infos::list_plugins(&strings(&["a", "gallery-dl"])),
        "Installed Plugins (2):\n  - a\n  - gallery-dl"
    );
    assert_eq!(Infos::list_plugins(&vec![]), "Installed Plugins (0):\n");
}

#[test]
fn cancelled_term_is_a_labelled_failure() {
    let mut resolver = fetch_terms(&manager(), strings(&["a", "b"]), None, 2).unwrap();
    assert_eq!(
        resolver.cancelled(1, "task 3 was cancelled"),
        "0 fetched, 0 cached, 2 left"
    );
    let results = resolver.finish();
    assert_eq!(results.len(), 1);
    assert!(matches!(&results["b"], Resolution::Fail(e) if e == "Cancelled: task 3 was cancelled"));
}
