use mx_scraper::cli::fetch::{Auth, SharedFetchOption};
use mx_scraper::collections::StringMap;
use mx_scraper::http::AuthKind;
use mx_scraper::schemas::config::{join_path, root_path, Config, Request};
use mx_scraper::schemas::cookies::NetscapeCookie;

fn options() -> SharedFetchOption {
    SharedFetchOption {
        meta_only: false,
        batch_size: None,
        mini_batch_size: None,
        max_size_init_crawl_batch: None,
        max_parallel_fetch: None,
        verbose: false,
        no_cache: false,
        rand: false,
        asc: false,
        reflect: false,
        plugin: None,
        cookies: None,
        custom_downloader: false,
        auth: None,
        listen_cookies: false,
    }
}

fn map(pairs: &[(&str, &str)]) -> StringMap<String> {
    let mut m = StringMap::new();
    for (k, v) in pairs {
        m.insert(k.to_string(), v.to_string());
    }
    m
}

fn list(map: &StringMap<String>) -> Vec<(String, String)> {
    (0..map.len())
        .map(|i| (map.key_at(i).clone(), map.value_at(i).clone()))
        .collect()
}

fn owned(pairs: &[(&str, &str)]) -> Vec<(String, String)> {
    pairs
        .iter()
        .map(|(k, v)| (k.to_string(), v.to_string()))
        .collect()
}

#[test]
fn default_configuration() {
    let config = Config::new("1.2.3", "linux", "x86_64");
    assert_eq!(config.version, "1.2.3");
    assert_eq!(config.request.len(), 1);
    let shared = config.request.get("_all").unwrap();
    assert_eq!(
        shared.user_agent,
        Some("mx-scraper/1.2.3 (linux; x86_64)".to_string())
    );
    assert_eq!(
        list(shared.headers.as_ref().unwrap()),
        owned(&[("Accept", "*/*")])
    );
    assert!(shared.cookies.is_none());
    assert_eq!(config.download_folder.download, vec!["./download/download"]);
    assert_eq!(config.download_folder.temp, vec!["./download/temp"]);
    assert_eq!(config.download_folder.metadata, vec!["./download/metadata"]);
    assert_eq!(config.cache.folder, vec!["./query_cache"]);
    assert!(config.cache.enable);
    assert_eq!(config.delay.fetch, 25);
    assert_eq!(config.delay.download, 25);
    assert_eq!(config.max_size_batch, 10);
    assert!(!config.verbose);
    assert!(!config.plugins.meta_only);
    assert_eq!(config.plugins.location, vec!["./plugins"]);
}

#[test]
fn paths_are_joined_component_by_component() {
    let root = root_path("./download");
    assert_eq!(root, vec!["./download"]);
    let deeper = join_path(&join_path(&root, "plugin"), "book (id)");
    assert_eq!(deeper, vec!["./download", "plugin", "book (id)"]);
}

#[test]
fn cache_file_is_named_after_the_fingerprint() {
    let config = Config::new("1", "os", "arch");
    assert_eq!(
        config.get_cache_file_path("abc", "p"),
        vec![
            "./query_cache".to_string(),
            "mx_7c3810d196413f42bc3ffdcf6cba23c3568a5f5c99bd9b779610888c03399257.json".to_string()
        ]
    );
}

#[test]
fn shared_context_without_a_focused_plugin() {
    let mut config = Config::new("1", "os", "arch");
    let mut shared = config.request.replace_at(0, Request::new());
    shared.cookies = Some(owned(&[("a", "1"), ("b", "2")]));
    config.request.replace_at(0, shared);
    let ctx = config.gen_fetch_context();
    assert_eq!(ctx.user_agent, Some("mx-scraper/1 (os; arch)".to_string()));
    assert_eq!(list(&ctx.headers), owned(&[("Accept", "*/*")]));
    assert_eq!(NetscapeCookie::to_raw_string(&ctx.cookies), "a=1; b=2");
    assert!(ctx.auth.is_none());
}

#[test]
fn focused_plugin_extends_the_shared_profile() {
    let mut config = Config::new("1", "os", "arch");
    let mut shared = config.request.replace_at(0, Request::new());
    shared.cookies = Some(owned(&[("a", "1")]));
    config.request.replace_at(0, shared);
    let mut own = Request::new();
    own.user_agent = Some("plugin-agent".to_string());
    own.headers = Some(map(&[("Accept", "text/html"), ("X-Plugin", "yes")]));
    own.cookies = Some(owned(&[("b", "2")]));
    config.request.insert("mock".to_string(), own);
    config.__options.focused_plugin = Some("mock".to_string());
    config.__options.auth_kind = Some(AuthKind::Bearer {
        token: "t".to_string(),
    });

    let ctx = config.gen_fetch_context();
    assert_eq!(ctx.user_agent, Some("plugin-agent".to_string()));
    // the value of the baseline stays on collision
    assert_eq!(
        list(&ctx.headers),
        owned(&[("Accept", "*/*"), ("X-Plugin", "yes")])
    );
    assert_eq!(NetscapeCookie::to_raw_string(&ctx.cookies), "a=1; b=2");
    assert_eq!(ctx.auth.unwrap().stringify(), "Bearer t");
}

#[test]
fn focused_plugin_without_a_profile_gets_the_shared_context() {
    let mut config = Config::new("1", "os", "arch");
    config.__options.focused_plugin = Some("unknown".to_string());
    let ctx = config.gen_fetch_context();
    assert_eq!(ctx.user_agent, Some("mx-scraper/1 (os; arch)".to_string()));
    assert_eq!(list(&ctx.headers), owned(&[("Accept", "*/*")]));
    assert!(ctx.cookies.is_empty());
}

#[test]
fn focused_plugin_without_user_agent_keeps_the_shared_one() {
    let mut config = Config::new("1", "os", "arch");
    let mut own = Request::new();
    own.headers = Some(map(&[("X-Plugin", "yes")]));
    config.request.insert("mock".to_string(), own);
    config.__options.focused_plugin = Some("mock".to_string());
    let ctx = config.gen_fetch_context();
    assert_eq!(ctx.user_agent, Some("mx-scraper/1 (os; arch)".to_string()));
    assert_eq!(
        list(&ctx.headers),
        owned(&[("Accept", "*/*"), ("X-Plugin", "yes")])
    );
}

#[test]
fn overrides_from_the_command_line() {
    let mut config = Config::new("1", "os", "arch");
    let mut opt = options();
    opt.no_cache = true;
    opt.meta_only = true;
    opt.verbose = true;
    opt.custom_downloader = true;
    opt.batch_size = Some(3);
    opt.mini_batch_size = Some(7);
    opt.plugin = Some("mock".to_string());
    opt.auth = Some(Auth {
        user: None,
        password: None,
        bearer: Some("Bearer secret".to_string()),
    });
    let cookies = vec![
        NetscapeCookie::minimal("a".to_string(), "1".to_string()),
        NetscapeCookie::minimal("b".to_string(), "2".to_string()),
    ];
    assert_eq!(config.adapt_override(opt, Some(Ok(cookies))), Ok(()));
    assert!(!config.cache.enable);
    assert!(config.plugins.meta_only);
    assert!(config.verbose);
    assert!(config.custom_downloader);
    assert_eq!(config.max_size_batch, 3);
    assert_eq!(config.max_size_mini_batch, 7);
    assert_eq!(config.max_size_init_crawl_batch, 10);
    assert_eq!(config.__options.focused_plugin, Some("mock".to_string()));
    assert_eq!(
        config.__options.auth_kind.as_ref().unwrap().stringify(),
        "Bearer secret"
    );
    let shared = config.request.get("_all").unwrap();
    assert_eq!(shared.cookies, Some(owned(&[("a", "1"), ("b", "2")])));
    assert_eq!(
        shared.user_agent,
        Some("mx-scraper/1 (os; arch)".to_string())
    );
}

#[test]
fn overrides_keep_what_is_not_named() {
    let mut config = Config::new("1", "os", "arch");
    config.verbose = true;
    assert_eq!(config.adapt_override(options(), None), Ok(()));
    assert!(config.cache.enable);
    assert!(!config.plugins.meta_only);
    assert!(!config.verbose);
    assert_eq!(config.max_size_batch, 10);
    assert!(config.__options.focused_plugin.is_none());
    assert!(config.__options.auth_kind.is_none());
}

#[test]
fn unreadable_cookies_fail_the_overrides() {
    let mut config = Config::new("1", "os", "arch");
    let mut opt = options();
    opt.no_cache = true;
    opt.batch_size = Some(3);
    let r = config.adapt_override(opt, Some(Err("No such file".to_string())));
    assert_eq!(r, Err("No such file".to_string()));
    assert!(!config.cache.enable);
    assert_eq!(config.max_size_batch, 10);
}

#[test]
fn credential_without_user_or_token_fails_the_overrides() {
    let mut config = Config::new("1", "os", "arch");
    let mut opt = options();
    opt.auth = Some(Auth {
        user: None,
        password: Some("p".to_string()),
        bearer: None,
    });
    let r = config.adapt_override(opt, None);
    assert_eq!(
        r,
        Err("At least user must be provided, or use --bearer".to_string())
    );
    assert!(config.__options.auth_kind.is_none());
}
