use mx_scraper::plugins::FetchResult;
use mx_scraper::schemas::book::{all_have_segments, Author, Book, Chapter, Page, RawUrls, Tag};
use mx_scraper::schemas::config::DownloadFolder;

fn raw(urls: &[&str]) -> RawUrls {
    RawUrls {
        title: "Title".to_string(),
        url_source: "http://source".to_string(),
        urls: urls.iter().map(|u| u.to_string()).collect(),
        tags: vec!["one".to_string(), "two".to_string()],
    }
}

fn pages(n: usize) -> Vec<Page> {
    (0..n)
        .map(|i| {
            let mut page = Page::default();
            page.filename = format!("{i}.jpg");
            page
        })
        .collect()
}

fn book_with(chapters: &[usize]) -> Book {
    let mut book = Book::default();
    book.title = "A: Title".to_string();
    book.source_id = "id/42".to_string();
    book.url = "http://origin".to_string();
    for (i, n) in chapters.iter().enumerate() {
        let mut chapter = Chapter::default();
        chapter.title = format!("Chapter {}", i + 1);
        chapter.pages = pages(*n);
        book.chapters.push(chapter);
    }
    book
}

fn roots() -> DownloadFolder {
    DownloadFolder {
        download: vec!["./d".to_string()],
        temp: vec!["./t".to_string()],
        metadata: vec!["./m".to_string()],
    }
}

#[test]
fn default_values_are_empty() {
    let page = Page::default();
    assert_eq!(page.title, "");
    assert_eq!(page.number, 0);
    assert!(page.intermediate_link_hint.is_none());
    assert!(page.fetch_context.is_none());
    let chapter = Chapter::default();
    assert!(chapter.pages.is_empty());
    let book = Book::default();
    assert!(book.chapters.is_empty());
    assert_eq!(book.url, "");
}

#[test]
fn chapter_from_urls() {
    let chapter = Chapter::from_raw_urls(raw(&[
        "http://host/a/first.png",
        "http://host",
        "http://host/dir/with%20space.jpg",
    ]))
    .unwrap();
    assert_eq!(chapter.title, "Title");
    assert_eq!(chapter.number, 1);
    assert_eq!(chapter.pages.len(), 3);
    assert_eq!(chapter.pages[0].title, "Title page #1");
    assert_eq!(chapter.pages[0].filename, "first.png");
    assert_eq!(chapter.pages[0].url, "http://host/a/first.png");
    assert_eq!(chapter.pages[0].number, 1);
    // the URL is kept as the parser writes it
    assert_eq!(chapter.pages[1].url, "http://host/");
    assert_eq!(chapter.pages[1].filename, "");
    assert_eq!(chapter.pages[1].title, "Title page #2");
    assert_eq!(chapter.pages[2].filename, "with space.jpg");
    assert_eq!(chapter.pages[2].number, 3);
}

#[test]
fn chapter_page_is_named_after_its_position_where_the_url_has_no_name() {
    let chapter = Chapter::from_raw_urls(raw(&["http://host/%FF"])).unwrap();
    assert_eq!(chapter.pages[0].filename, "Title_1");
}

#[test]
fn chapter_from_urls_fails_on_the_first_bad_url() {
    let r = Chapter::from_raw_urls(raw(&["http://host/a", "no url", "also none"]));
    assert_eq!(r.unwrap_err(), "Failed Parsing: \"no url\"");
}

#[test]
fn chapter_from_urls_without_segments() {
    assert!(!all_have_segments(&vec!["data:text/plain,x".to_string()]));
    assert!(all_have_segments(&vec![
        "http://a/b".to_string(),
        "no url".to_string()
    ]));
    assert!(Chapter::try_from_raw_urls(raw(&["mailto:a@b.c"])).is_none());
    assert!(Book::try_from_raw_urls(raw(&["mailto:a@b.c"])).is_none());
    let some = Chapter::try_from_raw_urls(raw(&["http://host/x"])).unwrap();
    assert_eq!(some.unwrap().pages.len(), 1);
}

#[test]
fn book_from_urls() {
    let book = Book::from_raw_urls(raw(&["http://host/1.png", "http://host/2.png"])).unwrap();
    assert_eq!(book.title, "Title");
    assert_eq!(book.source_id, "Title");
    assert_eq!(book.url, "http://source");
    assert_eq!(book.chapters.len(), 1);
    assert_eq!(book.chapters[0].number, 1);
    assert_eq!(book.chapters[0].pages.len(), 2);
    assert_eq!(book.chapters[0].pages[1].filename, "2.png");
    let tags: Vec<&str> = book.tags.iter().map(|t| t.name.as_str()).collect();
    assert_eq!(tags, vec!["one", "two"]);
    assert!(book.authors.is_empty());
    let failed = Book::from_raw_urls(raw(&["::"]));
    assert_eq!(failed.unwrap_err(), "Failed Parsing: \"::\"");
}

#[test]
fn folders_of_a_book() {
    let book = book_with(&[1]);
    assert_eq!(book.get_sanitized_title(), "A_ Title");
    let folders = book.get_download_folders("abc", "p", &roots());
    // the fingerprint of ("abc", "p") starts with mx_7c3810d
    assert_eq!(folders.download, vec!["./d", "p", "A_ Title (mx_7c3810d)"]);
    assert_eq!(folders.temp, vec!["./t", "p", "A_ Title (mx_7c3810d)"]);
    assert_eq!(folders.metadata, vec!["./m", "p"]);
    assert_eq!(
        book.get_metadata_path("abc", "p", &roots()),
        vec!["./t", "p", "A_ Title (mx_7c3810d)", "id_42.json"]
    );
    assert_eq!(
        book.get_metadata_dest_path("abc", "p", &roots()),
        vec!["./m", "p", "A_ Title (mx_7c3810d)", "id_42.json"]
    );
}

#[test]
fn book_whose_title_cannot_be_decoded_is_stored_under_what_is_written() {
    let mut book = book_with(&[1]);
    book.title = "bad \\q".to_string();
    assert_eq!(book.get_sanitized_title(), "bad _q");
    let folders = book.get_download_folders("abc", "p", &roots());
    assert_eq!(folders.download, vec!["./d", "p", "bad _q (mx_7c3810d)"]);
}

#[test]
fn summary_of_a_book() {
    let mut book = book_with(&[2, 0]);
    book.authors = vec![
        Author {
            name: "Ann".to_string(),
            description: String::new(),
        },
        Author {
            name: "Bob".to_string(),
            description: String::new(),
        },
    ];
    book.tags = vec![Tag {
        name: "tag".to_string(),
        metadata: vec![],
    }];
    assert_eq!(
        book.resume(),
        "- Title: A: Title\n- Source: http://origin\n- Author(s): Ann, Bob\n- Tag(s): tag\n- Chapter(s) (2):\n   - Chapter 1 (2 pages)\n   - Chapter 2 (0 pages)"
    );
}

#[test]
fn summary_of_an_empty_book() {
    assert_eq!(
        Book::default().resume(),
        "- Title: \n- Source: \n- Author(s): \n- Tag(s): \n- Chapter(s) (0):"
    );
}

#[test]
fn pages_are_counted_over_all_chapters() {
    let fetched = FetchResult {
        query_term: "t".to_string(),
        book: book_with(&[3, 0, 4]),
        plugin_name: "p".to_string(),
        cached: false,
    };
    assert_eq!(fetched.count_pages(), 7);
    let empty = FetchResult {
        query_term: "t".to_string(),
        book: Book::default(),
        plugin_name: "p".to_string(),
        cached: true,
    };
    assert_eq!(empty.count_pages(), 0);
}
