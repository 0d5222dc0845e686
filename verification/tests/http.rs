use mx_scraper::collections::StringMap;
use mx_scraper::http::{
    base64_encode, AuthKind, BasicRequestResolver, ContextProvider, FetchContext,
    FlareSolverrOutput, FlareSolverrResolver, FlareSolverrSolutionPartial, HttpRequest,
    MxScraperHttpClient, Resolver,
};
use mx_scraper::schemas::cookies::NetscapeCookie;

fn headers(pairs: &[(&str, &str)]) -> StringMap<String> {
    let mut map = StringMap::new();
    for (k, v) in pairs {
        map.insert(k.to_string(), v.to_string());
    }
    map
}

fn pairs(list: &[(&str, &str)]) -> Vec<(String, String)> {
    list.iter()
        .map(|(k, v)| (k.to_string(), v.to_string()))
        .collect()
}

fn header_list(map: &StringMap<String>) -> Vec<(String, String)> {
    (0..map.len())
        .map(|i| (map.key_at(i).clone(), map.value_at(i).clone()))
        .collect()
}

fn context(ua: Option<&str>, h: &[(&str, &str)], cookies: &[(&str, &str)]) -> FetchContext {
    FetchContext {
        user_agent: ua.map(|s| s.to_string()),
        headers: headers(h),
        cookies: cookies
            .iter()
            .map(|(k, v)| NetscapeCookie::minimal(k.to_string(), v.to_string()))
            .collect(),
        auth: None,
    }
}

#[test]
fn base64_of_the_standard_vectors() {
    assert_eq!(base64_encode(b""), "");
    assert_eq!(base64_encode(b"f"), "Zg==");
    assert_eq!(base64_encode(b"fo"), "Zm8=");
    assert_eq!(base64_encode(b"foo"), "Zm9v");
    assert_eq!(base64_encode(b"foob"), "Zm9vYg==");
    assert_eq!(base64_encode(b"fooba"), "Zm9vYmE=");
    assert_eq!(base64_encode(b"foobar"), "Zm9vYmFy");
    assert_eq!(base64_encode(&[0xfb, 0xff, 0xfe]), "+//+");
}

#[test]
fn authorization_of_basic_and_bearer() {
    let basic = AuthKind::Basic {
        user: "user".to_string(),
        password: Some("pass".to_string()),
    };
    assert_eq!(basic.stringify(), "Basic dXNlcjpwYXNz");
    let no_password = AuthKind::Basic {
        user: "user".to_string(),
        password: None,
    };
    assert_eq!(no_password.stringify(), "Basic dXNlcjo=");
    let unicode = AuthKind::Basic {
        user: "ünï".to_string(),
        password: Some("ß".to_string()),
    };
    assert_eq!(unicode.stringify(), "Basic w7xuw686w58=");
    let bearer = AuthKind::Bearer {
        token: "abc.def".to_string(),
    };
    assert_eq!(bearer.stringify(), "Bearer abc.def");
}

#[test]
fn string_map_keeps_first_insertion_order() {
    let mut map: StringMap<u32> = StringMap::new();
    assert!(map.insert_if_absent("b".to_string(), 1));
    assert!(map.insert_if_absent("a".to_string(), 2));
    assert!(!map.insert_if_absent("b".to_string(), 3));
    assert_eq!(map.len(), 2);
    assert_eq!(map.key_at(0), "b");
    assert_eq!(*map.value_at(0), 1);
    assert_eq!(map.get("a"), Some(&2));
    assert_eq!(map.get("c"), None);
    map.insert("b".to_string(), 9);
    assert_eq!(map.get("b"), Some(&9));
    assert_eq!(map.position("b"), Some(0));
    assert!(map.contains_key("a"));
    assert!(!map.contains_key("A"));
    assert_eq!(map.replace_at(1, 7), 2);
    assert_eq!(map.get("a"), Some(&7));
}

#[test]
fn overlay_headers_extend_the_baseline() {
    let mut base = context(
        None,
        &[("Accept", "*/*"), ("X-Base", "b")],
        &[("a", "1")],
    );
    let overlay = context(
        None,
        &[("X-Base", "overlay"), ("X-New", "n")],
        &[("b", "2")],
    );
    base.override_inherit_from(&overlay);
    // every key of the baseline stays, with the value of the baseline
    assert_eq!(base.headers.get("Accept"), Some(&"*/*".to_string()));
    assert_eq!(base.headers.get("X-Base"), Some(&"b".to_string()));
    // every key of the overlay is there
    assert_eq!(base.headers.get("X-New"), Some(&"n".to_string()));
    assert_eq!(
        header_list(&base.headers),
        pairs(&[("Accept", "*/*"), ("X-Base", "b"), ("X-New", "n")])
    );
    assert_eq!(NetscapeCookie::to_raw_string(&base.cookies), "a=1; b=2");
}

#[test]
fn user_agent_follows_the_overlay_and_the_credential_stays() {
    let mut base = context(Some("base-agent"), &[], &[]);
    base.auth = Some(AuthKind::Bearer {
        token: "base".to_string(),
    });
    let mut silent = context(None, &[], &[]);
    silent.auth = Some(AuthKind::Bearer {
        token: "ignored".to_string(),
    });
    base.override_inherit_from(&silent);
    assert_eq!(base.user_agent, Some("base-agent".to_string()));
    assert_eq!(base.auth.as_ref().unwrap().stringify(), "Bearer base");

    let mut loud = context(Some("overlay-agent"), &[], &[]);
    loud.auth = Some(AuthKind::Bearer {
        token: "other".to_string(),
    });
    base.override_inherit_from(&loud);
    assert_eq!(base.user_agent, Some("overlay-agent".to_string()));
    assert_eq!(base.auth.as_ref().unwrap().stringify(), "Bearer base");

    let mut bare = context(None, &[], &[]);
    bare.override_inherit_from(&loud);
    assert!(bare.auth.is_none());
}

#[test]
fn headers_of_a_direct_request() {
    let ctx = context(
        Some("agent/1"),
        &[("Accept", "*/*"), ("Referer", "http://r")],
        &[("a", "1"), ("b", "2")],
    );
    assert_eq!(
        ctx.to_headermap(),
        pairs(&[
            ("user-agent", "agent/1"),
            ("Accept", "*/*"),
            ("Referer", "http://r"),
            ("cookie", "a=1; b=2"),
        ])
    );
    let empty = FetchContext::new();
    assert_eq!(empty.to_headermap(), pairs(&[("cookie", "")]));
}

#[test]
fn context_provider_gives_the_held_or_the_empty_context() {
    let held = ContextProvider::Concrete(context(Some("ua"), &[("k", "v")], &[("c", "1")]));
    let got = held.get();
    assert_eq!(got.user_agent, Some("ua".to_string()));
    assert_eq!(header_list(&got.headers), pairs(&[("k", "v")]));
    assert_eq!(got.cookies.len(), 1);
    let none = ContextProvider::Absent.get();
    assert_eq!(none.user_agent, None);
    assert_eq!(none.headers.len(), 0);
    assert!(none.cookies.is_empty());
    assert!(none.auth.is_none());
}

#[test]
fn direct_request_carries_context_and_follows_five_redirects() {
    let mut ctx = context(Some("ua"), &[("k", "v")], &[]);
    ctx.auth = Some(AuthKind::Basic {
        user: "u".to_string(),
        password: None,
    });
    let request = BasicRequestResolver.get("http://x/y", &ContextProvider::Concrete(ctx));
    assert_eq!(request.url, "http://x/y");
    assert_eq!(request.max_redirects, 5);
    assert_eq!(
        request.headers,
        pairs(&[("user-agent", "ua"), ("k", "v"), ("cookie", "")])
    );
    assert_eq!(request.auth.unwrap().stringify(), "Basic dTo=");
    let same = BasicRequestResolver.get_async("http://x/y", &ContextProvider::Absent);
    assert_eq!(same.headers, pairs(&[("cookie", "")]));
    assert!(same.auth.is_none());
}

#[test]
fn direct_response_fails_on_any_status_outside_2xx() {
    let ok = BasicRequestResolver::accept(200, "200 OK", "http://x", vec![1, 2, 3]);
    assert_eq!(ok, Ok(vec![1, 2, 3]));
    let ok = BasicRequestResolver::accept(299, "299", "http://x", vec![]);
    assert_eq!(ok, Ok(vec![]));
    let not_found = BasicRequestResolver::accept(404, "404 Not Found", "http://x/p", vec![9]);
    assert_eq!(not_found, Err("404 Not Found: http://x/p".to_string()));
    let redirect = BasicRequestResolver::accept(301, "301 Moved Permanently", "http://x", vec![]);
    assert_eq!(redirect, Err("301 Moved Permanently: http://x".to_string()));
    let low = BasicRequestResolver::accept(199, "199", "http://x", vec![]);
    assert!(low.is_err());
}

fn flare() -> FlareSolverrResolver {
    FlareSolverrResolver {
        endpoint: "http://localhost:8191/v1".to_string(),
        max_timeout: Some(60000),
        session_ttl_minutes: None,
    }
}

#[test]
fn anti_bot_envelope_for_a_get() {
    let payload = flare().create_payload("http://x", &ContextProvider::Absent);
    assert_eq!(payload.cmd, "request.get");
    assert_eq!(payload.url, "http://x");
    assert_eq!(payload.max_timeout, Some(60000));
    assert_eq!(payload.session_ttl_minutes, None);
    assert_eq!(payload.headers, None);
    assert_eq!(payload.cookies, None);
}

#[test]
fn anti_bot_envelope_with_a_context() {
    let mut ctx = context(Some("ua"), &[("Accept", "*/*")], &[("a", "1"), ("b", "2")]);
    ctx.auth = Some(AuthKind::Bearer {
        token: "t".to_string(),
    });
    let payload = flare().create_payload("http://x", &ContextProvider::Concrete(ctx));
    assert_eq!(
        payload.headers,
        Some(pairs(&[("Accept", "*/*"), ("authorization", "Bearer t")]))
    );
    assert_eq!(payload.cookies, Some(pairs(&[("a", "1"), ("b", "2")])));

    let bare = context(None, &[], &[]);
    let payload = flare().create_payload("http://x", &ContextProvider::Concrete(bare));
    assert_eq!(payload.headers, Some(vec![]));
    assert_eq!(payload.cookies, None);

    let mut replaced = context(None, &[("authorization", "old"), ("z", "1")], &[]);
    replaced.auth = Some(AuthKind::Bearer {
        token: "new".to_string(),
    });
    let payload = flare().create_payload("http://x", &ContextProvider::Concrete(replaced));
    assert_eq!(
        payload.headers,
        Some(pairs(&[("authorization", "Bearer new"), ("z", "1")]))
    );
}

fn output(status: u16, response: &str) -> FlareSolverrOutput {
    FlareSolverrOutput {
        solution: FlareSolverrSolutionPartial {
            url: "http://x/solved".to_string(),
            status,
            headers: vec![],
            response: response.to_string(),
            user_agent: "ua".to_string(),
        },
        status: "ok".to_string(),
        message: "".to_string(),
        version: "3".to_string(),
    }
}

#[test]
fn anti_bot_answer_must_carry_status_200() {
    let good = FlareSolverrResolver::accept(200, "200 OK", "http://x", Ok(output(200, "<html>é</html>")));
    assert_eq!(good, Ok("<html>é</html>".as_bytes().to_vec()));
    let inner = FlareSolverrResolver::accept(200, "200 OK", "http://x", Ok(output(403, "denied")));
    assert_eq!(inner, Err("403: http://x/solved".to_string()));
    let outer = FlareSolverrResolver::accept(500, "500 Internal Server Error", "http://x", Ok(output(200, "")));
    assert_eq!(outer, Err("500 Internal Server Error: http://x".to_string()));
    let unreadable = FlareSolverrResolver::accept(200, "200 OK", "http://x", Err("EOF".to_string()));
    assert_eq!(unreadable, Err("Parsing Flaresolverr response: EOF".to_string()));
}

#[test]
fn client_resolves_through_its_resolver_but_downloads_directly() {
    let client = MxScraperHttpClient::new(Resolver::FlareSolverr(flare()));
    let planned = client.get("http://x", &ContextProvider::Absent);
    assert!(!planned.needs_permit);
    match planned.request {
        HttpRequest::AntiBot { endpoint, payload } => {
            assert_eq!(endpoint, "http://localhost:8191/v1");
            assert_eq!(payload.cmd, "request.get");
            assert_eq!(payload.url, "http://x");
        }
        HttpRequest::Direct(_) => panic!("the anti-bot resolver must post an envelope"),
    }
    let planned = client.get_async("http://x", &ContextProvider::Absent);
    assert!(planned.needs_permit);
    assert!(matches!(planned.request, HttpRequest::AntiBot { .. }));
    let planned = client.download("http://x/img.png", &ContextProvider::Absent);
    assert!(planned.needs_permit);
    match planned.request {
        HttpRequest::Direct(direct) => {
            assert_eq!(direct.url, "http://x/img.png");
            assert_eq!(direct.max_redirects, 5);
        }
        HttpRequest::AntiBot { .. } => panic!("a download is always direct"),
    }
    let basic = MxScraperHttpClient::new(Resolver::Basic(BasicRequestResolver));
    assert!(matches!(
        basic.get("http://x", &ContextProvider::Absent).request,
        HttpRequest::Direct(_)
    ));
}
