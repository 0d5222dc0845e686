use mx_scraper::plugins::gallery_dl::schema::{
    get_as_string, get_if_not_str_rec, member, FirstGalleryEntry, Gallery, GalleryItem,
    GalleryPage, UrlGalleryEntry,
};
use mx_scraper::plugins::gallery_dl::{
    generate_book, print_command_invocation, try_generate_book, GalleryDLPlugin,
};
use mx_scraper::collections::StringMap;
use mx_scraper::schemas::config::{Config, Request};
use mx_scraper::schemas::json::JsonValue;
use mx_scraper::utils::IsEmpty;

fn strings(items: &[&str]) -> Vec<String> {
    items.iter().map(|s| s.to_string()).collect()
}

fn text(s: &str) -> JsonValue {
    JsonValue::Text(s.to_string())
}

fn object(members: Vec<(&str, JsonValue)>) -> JsonValue {
    JsonValue::Object(
        members
            .into_iter()
            .map(|(k, v)| (k.to_string(), v))
            .collect(),
    )
}

fn gallery() -> Gallery {
    Gallery {
        title: None,
        title_aliases: vec![],
        gallery_id: None,
        user: None,
        artists: vec![],
        group: vec![],
        category: String::new(),
        characters: vec![],
        language: String::new(),
        parody: vec![],
        subcategory: String::new(),
        tags: vec![],
        hashtags: vec![],
        _remaining_fields: JsonValue::Object(vec![]),
    }
}

fn gpage(title: &str, filename: Option<&str>, extension: Option<&str>) -> GalleryPage {
    GalleryPage {
        title: title.to_string(),
        filename: filename.map(|s| s.to_string()),
        extension: extension.map(|s| s.to_string()),
        tags: vec![],
        hashtags: vec![],
    }
}

fn entry(url: &str, meta: JsonValue, meta_text: &str, page: Result<GalleryPage, String>) -> GalleryItem {
    GalleryItem::ThreeElementTuple(UrlGalleryEntry {
        kind: 3,
        url: url.to_string(),
        meta,
        meta_text: meta_text.to_string(),
        page,
    })
}

#[test]
fn json_values_that_are_empty() {
    assert!(JsonValue::Null.is_empty());
    assert!(JsonValue::Array(vec![]).is_empty());
    assert!(text("").is_empty());
    assert!(object(vec![]).is_empty());
    assert!(!JsonValue::Bool(false).is_empty());
    assert!(!JsonValue::Number("0".to_string()).is_empty());
    assert!(!text("x").is_empty());
    assert!(!JsonValue::Array(vec![JsonValue::Null]).is_empty());
    assert!(!object(vec![("k", JsonValue::Null)]).is_empty());
}

#[test]
fn file_name_of_a_page() {
    assert_eq!(
        gpage("", Some("001"), Some("png")).get_filename(),
        Some("001.png".to_string())
    );
    assert_eq!(
        gpage("", Some("001"), None).get_filename(),
        Some("001.jpg".to_string())
    );
    assert_eq!(gpage("", None, Some("png")).get_filename(), None);
}

#[test]
fn explicit_tags_of_a_page() {
    let mut page = gpage("", None, None);
    page.tags = strings(&["a", "b", "a"]);
    page.hashtags = strings(&["b", "c"]);
    assert_eq!(page.get_explicit_tags(), vec!["a", "b", "c"]);
}

#[test]
fn name_is_found_through_nested_objects() {
    assert_eq!(
        get_if_not_str_rec("name", &text("Ann")),
        Some("Ann".to_string())
    );
    let nested = object(vec![
        ("id", JsonValue::Number("7".to_string())),
        ("name", object(vec![("name", text("Bob"))])),
    ]);
    assert_eq!(get_if_not_str_rec("name", &nested), Some("Bob".to_string()));
    assert_eq!(
        get_if_not_str_rec("name", &object(vec![("nick", text("x"))])),
        None
    );
    assert_eq!(
        get_if_not_str_rec("name", &JsonValue::Number("1".to_string())),
        None
    );
    assert_eq!(
        get_if_not_str_rec("name", &object(vec![("name", JsonValue::Null)])),
        None
    );
}

#[test]
fn first_member_of_that_name_is_found() {
    let members = vec![
        ("a".to_string(), text("1")),
        ("b".to_string(), text("2")),
        ("a".to_string(), text("3")),
    ];
    assert!(matches!(member(&members, "a"), Some(JsonValue::Text(s)) if s == "1"));
    assert!(matches!(member(&members, "b"), Some(JsonValue::Text(s)) if s == "2"));
    assert!(member(&members, "c").is_none());
}

#[test]
fn scalars_as_text() {
    assert_eq!(get_as_string(&JsonValue::Bool(true)), Some("true".to_string()));
    assert_eq!(get_as_string(&JsonValue::Bool(false)), Some("false".to_string()));
    assert_eq!(
        get_as_string(&JsonValue::Number("1.5".to_string())),
        Some("1.5".to_string())
    );
    assert_eq!(get_as_string(&text("t")), Some("t".to_string()));
    assert_eq!(get_as_string(&JsonValue::Null), None);
    assert_eq!(get_as_string(&JsonValue::Array(vec![])), None);
}

#[test]
fn tags_of_a_gallery() {
    let mut gl = gallery();
    gl.hashtags = strings(&["h1"]);
    gl.tags = strings(&["t1", "h1", "t2"]);
    gl.characters = strings(&["c1"]);
    gl.parody = strings(&["p1"]);
    gl.category = "cat".to_string();
    gl.subcategory = "sub".to_string();
    gl.language = "en".to_string();
    gl._remaining_fields = object(vec![
        ("other", text("ignored words")),
        (
            "tag_array",
            JsonValue::Array(vec![
                text("x y"),
                JsonValue::Bool(true),
                JsonValue::Null,
                JsonValue::Number("3".to_string()),
            ]),
        ),
        ("tag_text", text("  w1 t1\tw2 ")),
        ("tag_object", object(vec![("k", text("v"))])),
    ]);
    assert_eq!(
        gl.get_tags(),
        vec!["h1", "t1", "t2", "c1", "p1", "cat", "sub", "en", "x y", "true", "3", "w1", "w2"]
    );
}

#[test]
fn authors_of_a_gallery() {
    let mut gl = gallery();
    gl.artists = vec![text("Ann"), object(vec![("name", text("Bob"))])];
    gl.user = Some(object(vec![("name", text("Ann"))]));
    gl.group = strings(&["Circle", "Bob"]);
    assert_eq!(gl.get_authors(), Ok(strings(&["Ann", "Bob", "Circle"])));
    gl.user = Some(JsonValue::Null);
    assert_eq!(
        gl.get_authors(),
        Err("Processing authors: could not get a name".to_string())
    );
    gl.user = None;
    gl.artists.push(JsonValue::Number("1".to_string()));
    assert!(gl.get_authors().is_err());
}

#[test]
fn title_and_identifier_of_a_gallery() {
    let mut gl = gallery();
    assert_eq!(gl.get_title_or_default("fallback".to_string()), "fallback");
    assert_eq!(gl.get_id_or_default("fallback".to_string()), "fallback");
    gl._remaining_fields = object(vec![("search_tags", text("  cats dogs "))]);
    assert_eq!(gl.get_title_or_default("fallback".to_string()), "cats dogs");
    gl._remaining_fields = object(vec![("search_tags", JsonValue::Number("1".to_string()))]);
    assert_eq!(gl.get_title_or_default("fallback".to_string()), "fallback");
    gl.title = Some("Title".to_string());
    gl.gallery_id = Some("123".to_string());
    assert_eq!(gl.get_title_or_default("fallback".to_string()), "Title");
    assert_eq!(gl.get_id_or_default("fallback".to_string()), "123");
    gl.title_aliases = strings(&["a", "b", "a"]);
    assert_eq!(gl.get_title_aliases(), vec!["a", "b"]);
    assert!(gl.inspect_unprocessed_field("search_tags").is_some());
    assert!(gl.inspect_unprocessed_field("nothing").is_none());
}

#[test]
fn book_of_a_dump() {
    let mut gl = gallery();
    gl.title = Some("Gallery".to_string());
    gl.gallery_id = Some("g-1".to_string());
    gl.title_aliases = strings(&["Alias"]);
    gl.artists = vec![text("Ann"), text("")];
    gl.tags = strings(&["t1"]);
    gl.category = "cat".to_string();
    let mut second = gpage("second", None, None);
    second.tags = strings(&["t1", "t2"]);
    let items = vec![
        GalleryItem::TwoElementTuple(FirstGalleryEntry(2, gl)),
        entry(
            "http://host/a/one.png",
            object(vec![("k", text("v"))]),
            "{\"k\":\"v\"}",
            Ok(gpage("first", Some("001"), Some("png"))),
        ),
        entry("http://host/a/two%20b.png", object(vec![]), "{}", Ok(second)),
        entry("http://host/%FF", JsonValue::Null, "null", Ok(gpage("third", None, None))),
    ];
    let book = generate_book("http://some.website/a/b/c".to_string(), items).unwrap();
    assert_eq!(book.title, "Gallery");
    assert_eq!(book.source_id, "g-1");
    assert_eq!(book.url, "http://some.website/a/b/c");
    assert_eq!(book.description, "");
    let aliases: Vec<&str> = book.title_aliases.iter().map(|a| a.title.as_str()).collect();
    assert_eq!(aliases, vec!["Alias"]);
    let authors: Vec<&str> = book.authors.iter().map(|a| a.name.as_str()).collect();
    assert_eq!(authors, vec!["Ann"]);
    let tags: Vec<&str> = book.tags.iter().map(|t| t.name.as_str()).collect();
    assert_eq!(tags, vec!["t1", "cat", "t2"]);
    assert_eq!(book.chapters.len(), 1);
    let chapter = &book.chapters[0];
    assert_eq!(chapter.title, "Gallery");
    assert_eq!(chapter.number, 1);
    assert_eq!(chapter.url, "http://some.website/a/b/c");
    assert_eq!(chapter.pages.len(), 3);
    assert_eq!(chapter.pages[0].filename, "001.png");
    assert_eq!(chapter.pages[0].title, "first");
    assert_eq!(chapter.pages[0].number, 1);
    assert_eq!(chapter.pages[0].url, "http://host/a/one.png");
    assert_eq!(chapter.pages[0].metadata.len(), 1);
    assert_eq!(chapter.pages[0].metadata[0].label, "001.png");
    assert_eq!(chapter.pages[0].metadata[0].content, "{\"k\":\"v\"}");
    assert_eq!(chapter.pages[1].filename, "two b.png");
    assert!(chapter.pages[1].metadata.is_empty());
    assert_eq!(chapter.pages[2].filename, "3");
    assert_eq!(chapter.pages[2].number, 3);
    assert!(chapter.pages[2].metadata.is_empty());
}

#[test]
fn book_of_an_empty_dump_is_named_after_the_term() {
    let term = "  a term that is longer than twenty characters  ";
    let book = generate_book(term.to_string(), vec![]).unwrap();
    // 48 characters: 28 go, around the middle
    assert_eq!(book.title, "a term t .. aracters");
    assert_eq!(book.source_id, "a term t .. aracters");
    assert_eq!(book.chapters.len(), 1);
    assert!(book.chapters[0].pages.is_empty());
    assert!(book.tags.is_empty());
}

#[test]
fn book_without_identifier_gets_the_fingerprint() {
    let mut gl = gallery();
    gl.gallery_id = Some(String::new());
    let items = vec![GalleryItem::TwoElementTuple(FirstGalleryEntry(2, gl))];
    let book = generate_book("some term".to_string(), items).unwrap();
    assert_eq!(
        book.source_id,
        "mx_83582b8b1bf5754cee370a1013e8bb2b8f3dad208b8232d2b1855c849b80fd0f"
    );
    assert_eq!(book.title, "some term");
}

#[test]
fn first_entry_that_cannot_be_taken_fails_the_book() {
    let mut gl = gallery();
    gl.artists = vec![JsonValue::Null];
    let items = vec![
        entry("http://h/x", JsonValue::Null, "null", Err("missing field".to_string())),
        GalleryItem::TwoElementTuple(FirstGalleryEntry(2, gl)),
    ];
    assert_eq!(
        generate_book("t".to_string(), items).unwrap_err(),
        "missing field"
    );
    let mut gl = gallery();
    gl.artists = vec![JsonValue::Null];
    let items = vec![GalleryItem::TwoElementTuple(FirstGalleryEntry(2, gl))];
    assert_eq!(
        generate_book("t".to_string(), items).unwrap_err(),
        "Processing authors: could not get a name"
    );
}

#[test]
fn dump_whose_files_cannot_be_named() {
    let items = vec![entry("not a url", JsonValue::Null, "null", Ok(gpage("", None, None)))];
    assert!(try_generate_book("t".to_string(), items).is_none());
    let items = vec![entry(
        "not a url",
        JsonValue::Null,
        "null",
        Ok(gpage("", Some("named"), None)),
    )];
    let book = try_generate_book("t".to_string(), items).unwrap().unwrap();
    assert_eq!(book.chapters[0].pages[0].filename, "named.jpg");
}

#[test]
fn plugin_takes_its_program_from_the_configuration() {
    let mut config = Config::new("1", "os", "arch");
    let plugin = GalleryDLPlugin::new(&config);
    assert_eq!(plugin.name, "gallery-dl");
    assert_eq!(plugin.bin, "gallery-dl");
    let mut extra = StringMap::new();
    extra.insert("bin".to_string(), "/opt/bin/gdl".to_string());
    let mut profile = Request::new();
    profile.extra_config = Some(extra);
    config.request.insert("gallery-dl".to_string(), profile);
    assert_eq!(GalleryDLPlugin::new(&config).bin, "/opt/bin/gdl");
}

#[test]
fn commands_of_the_plugin() {
    let config = Config::new("1", "os", "arch");
    let plugin = GalleryDLPlugin::new(&config);
    let args = plugin.get_book("http://x");
    assert_eq!(args, vec!["http://x", "--dump-json"]);
    assert_eq!(
        plugin.is_supported("http://x"),
        vec!["http://x", "--extractor-info"]
    );
    assert_eq!(
        plugin.download_url("dir/page.jpg_temp", "http://x/p"),
        vec!["--directory", "dir/page.jpg_temp", "http://x/p"]
    );
    assert_eq!(GalleryDLPlugin::temp_name("page.jpg"), "page.jpg_temp");
    assert_eq!(
        print_command_invocation(&plugin.bin, &args),
        "gallery-dl http://x --dump-json"
    );
    assert_eq!(GalleryDLPlugin::failure("out", "err"), "stdout: out\nstderr: err");
}
