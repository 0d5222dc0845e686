use mx_scraper::schemas::cookies::NetscapeCookie;

fn cookie(name: &str, value: &str) -> NetscapeCookie {
    NetscapeCookie::minimal(name.to_string(), value.to_string())
}

#[test]
fn cookie_header_joins_pairs_in_order() {
    let cookies = vec![cookie("a", "1"), cookie("b", "2")];
    assert_eq!(NetscapeCookie::to_raw_string(&cookies), "a=1; b=2");
}

#[test]
fn cookie_header_of_no_cookie_is_empty() {
    assert_eq!(NetscapeCookie::to_raw_string(&vec![]), "");
    assert_eq!(NetscapeCookie::to_raw_string(&vec![cookie("k", "v")]), "k=v");
}

#[test]
fn cookie_header_keeps_insertion_order() {
    let cookies = vec![cookie("z", "26"), cookie("a", "1"), cookie("m", "13")];
    assert_eq!(NetscapeCookie::to_raw_string(&cookies), "z=26; a=1; m=13");
}

#[test]
fn minimal_cookies_from_pairs() {
    let pairs = vec![
        ("session".to_string(), "abc".to_string()),
        ("theme".to_string(), "dark".to_string()),
    ];
    let cookies = NetscapeCookie::from_hashmap(&pairs);
    assert_eq!(cookies.len(), 2);
    assert_eq!(cookies[0].name, "session");
    assert_eq!(cookies[0].value, "abc");
    assert_eq!(cookies[0].domain, None);
    assert_eq!(cookies[0].path, None);
    assert_eq!(cookies[0].secure, None);
    assert_eq!(cookies[1].name, "theme");
    assert_eq!(cookies[1].value, "dark");
    assert_eq!(NetscapeCookie::from_key_value_json(&pairs).len(), 2);
}

#[test]
fn pairs_of_cookies() {
    let mut rich = cookie("a", "1");
    rich.domain = Some("example.com".to_string());
    rich.secure = Some(true);
    let cookies = vec![rich, cookie("b", "2")];
    assert_eq!(
        NetscapeCookie::to_map(&cookies),
        vec![
            ("a".to_string(), "1".to_string()),
            ("b".to_string(), "2".to_string())
        ]
    );
}

#[test]
fn copy_of_a_cookie_is_equal_in_every_field() {
    let mut rich = cookie("a", "1");
    rich.domain = Some("example.com".to_string());
    rich.path = Some("/".to_string());
    rich.http_only = Some(false);
    rich.same_site = Some("lax".to_string());
    let copy = rich.copy();
    assert_eq!(copy.name, "a");
    assert_eq!(copy.value, "1");
    assert_eq!(copy.domain, Some("example.com".to_string()));
    assert_eq!(copy.path, Some("/".to_string()));
    assert_eq!(copy.http_only, Some(false));
    assert_eq!(copy.same_site, Some("lax".to_string()));
    assert_eq!(copy.secure, None);
}

#[test]
fn first_reading_that_succeeded_wins() {
    let kv = vec![cookie("k", "v")];
    let records = vec![cookie("r1", "1"), cookie("r2", "2")];
    let got = NetscapeCookie::from_json(
        Some(kv),
        Some(records),
        Ok(cookie("single", "s")),
    )
    .unwrap();
    assert_eq!(got.len(), 1);
    assert_eq!(got[0].name, "k");

    let records = vec![cookie("r1", "1"), cookie("r2", "2")];
    let got = NetscapeCookie::from_json(None, Some(records), Err("no".to_string())).unwrap();
    assert_eq!(got.len(), 2);
    assert_eq!(got[1].name, "r2");

    let got = NetscapeCookie::from_json(None, None, Ok(cookie("single", "s"))).unwrap();
    assert_eq!(got.len(), 1);
    assert_eq!(got[0].name, "single");
}

#[test]
fn no_reading_gives_the_error_of_the_last() {
    let got = NetscapeCookie::from_json(None, None, Err("expected value".to_string()));
    assert_eq!(got.unwrap_err(), "expected value");
    let got = NetscapeCookie::from_netscape_json(None, Err("bad".to_string()));
    assert_eq!(got.unwrap_err(), "bad");
}
