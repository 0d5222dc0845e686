//! Books, chapters and pages, and where a book is stored.

use crate::http::{FetchContext, FetchContextView};
use crate::outside::{
    debug_form, debug_quoted, normalize_url, url_last_segment, url_normal_form,
};
use crate::schemas::config::{join_path, DownloadFolder};
use crate::text::{
    concat, decimal, join, join_all, push_decimal, push_text, trim, trimmed,
};
use crate::utils::{
    as_path, compute_query_signature, extract_filename, filename_of, fingerprint,
    has_path_segments, leading_chars, sanitize_string,
    sanitize_string_as_path, sanitized,
};
use vstd::prelude::*;

verus! {

/// Another title of a book.
#[derive(Debug, Clone)]
pub struct TitleAlias {
    pub title: String,
    pub description: String,
}

/// An author of a book.
#[derive(Debug, Clone)]
pub struct Author {
    pub name: String,
    pub description: String,
}

/// A labelled piece of metadata. The content is a JSON document, kept as
/// text.
#[derive(Debug, Clone)]
pub struct Metadata {
    pub label: String,
    pub content: String,
}

/// A tag of a book.
#[derive(Debug, Clone)]
pub struct Tag {
    pub name: String,
    pub metadata: Vec<Metadata>,
}

/// How to find the real URL of a page in the document that its URL
/// points to: select an element, read an attribute.
#[derive(Debug, Clone)]
pub struct ParseLinkHint {
    pub selector: String,
    pub attribute: String,
}

/// One page of a chapter.
#[derive(Debug, Clone)]
pub struct Page {
    pub title: String,
    pub url: String,
    pub intermediate_link_hint: Option<ParseLinkHint>,
    pub fetch_context: Option<FetchContext>,
    pub number: u32,
    pub filename: String,
    pub metadata: Vec<Metadata>,
}

/// One chapter of a book.
#[derive(Debug, Clone)]
pub struct Chapter {
    pub title: String,
    pub description: String,
    pub url: String,
    pub number: u32,
    pub pages: Vec<Page>,
    pub metadata: Vec<Metadata>,
}

/// A resolved gallery.
#[derive(Debug, Clone)]
pub struct Book {
    pub title: String,
    pub title_aliases: Vec<TitleAlias>,
    pub source_id: String,
    pub description: String,
    pub authors: Vec<Author>,
    pub chapters: Vec<Chapter>,
    pub tags: Vec<Tag>,
    pub metadata: Vec<Metadata>,
    pub url: String,
}

/// The record written beside a downloaded book.
#[derive(Debug, Clone)]
pub struct DownloadBookMeta {
    pub engine: String,
    pub date: String,
    pub book: Book,
}

/// Options handed to a plugin.
#[derive(Debug, Clone)]
pub struct PluginOption {
    pub use_proxy: bool,
    pub proxy_url: Option<String>,
    pub proxy_port: Option<u16>,
}

/// Options of a search. Each value is a JSON document, kept as text.
#[derive(Debug, Clone)]
pub struct SearchOption {
    pub additional_options: Vec<(String, String)>,
}

/// What a plugin that only lists URLs returns.
#[derive(Debug, Clone)]
pub struct RawUrls {
    pub title: String,
    pub url_source: String,
    pub urls: Vec<String>,
    pub tags: Vec<String>,
}

/// The record kept for a book: who wrote it, when, and the book.
#[derive(Debug, Clone)]
pub struct CacheFile {
    pub engine: String,
    pub date: String,
    pub book: Book,
}

/// The view of a [`TitleAlias`].
pub struct TitleAliasView {
    pub title: Seq<char>,
    pub description: Seq<char>,
}

/// The view of an [`Author`].
pub struct AuthorView {
    pub name: Seq<char>,
    pub description: Seq<char>,
}

/// The view of a [`Metadata`].
pub struct MetadataView {
    pub label: Seq<char>,
    pub content: Seq<char>,
}

/// The view of a [`Tag`].
pub struct TagView {
    pub name: Seq<char>,
    pub metadata: Seq<MetadataView>,
}

/// The view of a [`ParseLinkHint`].
pub struct ParseLinkHintView {
    pub selector: Seq<char>,
    pub attribute: Seq<char>,
}

/// The view of a [`Page`].
pub struct PageView {
    pub title: Seq<char>,
    pub url: Seq<char>,
    pub intermediate_link_hint: Option<ParseLinkHintView>,
    pub fetch_context: Option<FetchContextView>,
    pub number: u32,
    pub filename: Seq<char>,
    pub metadata: Seq<MetadataView>,
}

/// The view of a [`Chapter`].
pub struct ChapterView {
    pub title: Seq<char>,
    pub description: Seq<char>,
    pub url: Seq<char>,
    pub number: u32,
    pub pages: Seq<PageView>,
    pub metadata: Seq<MetadataView>,
}

/// The view of a [`Book`].
pub struct BookView {
    pub title: Seq<char>,
    pub title_aliases: Seq<TitleAliasView>,
    pub source_id: Seq<char>,
    pub description: Seq<char>,
    pub authors: Seq<AuthorView>,
    pub chapters: Seq<ChapterView>,
    pub tags: Seq<TagView>,
    pub metadata: Seq<MetadataView>,
    pub url: Seq<char>,
}

/// The view of a [`RawUrls`].
pub struct RawUrlsView {
    pub title: Seq<char>,
    pub url_source: Seq<char>,
    pub urls: Seq<Seq<char>>,
    pub tags: Seq<Seq<char>>,
}

impl DeepView for TitleAlias {
    type V = TitleAliasView;

    open spec fn deep_view(&self) -> TitleAliasView {
        TitleAliasView { title: self.title@, description: self.description@ }
    }
}

impl DeepView for Author {
    type V = AuthorView;

    open spec fn deep_view(&self) -> AuthorView {
        AuthorView { name: self.name@, description: self.description@ }
    }
}

impl DeepView for Metadata {
    type V = MetadataView;

    open spec fn deep_view(&self) -> MetadataView {
        MetadataView { label: self.label@, content: self.content@ }
    }
}

impl DeepView for Tag {
    type V = TagView;

    open spec fn deep_view(&self) -> TagView {
        TagView { name: self.name@, metadata: self.metadata.deep_view() }
    }
}

impl DeepView for ParseLinkHint {
    type V = ParseLinkHintView;

    open spec fn deep_view(&self) -> ParseLinkHintView {
        ParseLinkHintView { selector: self.selector@, attribute: self.attribute@ }
    }
}

/// The view of an optional hint.
pub open spec fn opt_hint(hint: Option<ParseLinkHint>) -> Option<ParseLinkHintView> {
    match hint {
        Some(h) => Some(h.deep_view()),
        None => None,
    }
}

/// The view of an optional context.
pub open spec fn opt_context(ctx: Option<FetchContext>) -> Option<FetchContextView> {
    match ctx {
        Some(c) => Some(c@),
        None => None,
    }
}

impl DeepView for Page {
    type V = PageView;

    open spec fn deep_view(&self) -> PageView {
        PageView {
            title: self.title@,
            url: self.url@,
            intermediate_link_hint: opt_hint(self.intermediate_link_hint),
            fetch_context: opt_context(self.fetch_context),
            number: self.number,
            filename: self.filename@,
            metadata: self.metadata.deep_view(),
        }
    }
}

impl DeepView for Chapter {
    type V = ChapterView;

    open spec fn deep_view(&self) -> ChapterView {
        ChapterView {
            title: self.title@,
            description: self.description@,
            url: self.url@,
            number: self.number,
            pages: self.pages.deep_view(),
            metadata: self.metadata.deep_view(),
        }
    }
}

impl DeepView for Book {
    type V = BookView;

    open spec fn deep_view(&self) -> BookView {
        BookView {
            title: self.title@,
            title_aliases: self.title_aliases.deep_view(),
            source_id: self.source_id@,
            description: self.description@,
            authors: self.authors.deep_view(),
            chapters: self.chapters.deep_view(),
            tags: self.tags.deep_view(),
            metadata: self.metadata.deep_view(),
            url: self.url@,
        }
    }
}

impl DeepView for RawUrls {
    type V = RawUrlsView;

    open spec fn deep_view(&self) -> RawUrlsView {
        RawUrlsView {
            title: self.title@,
            url_source: self.url_source@,
            urls: self.urls.deep_view(),
            tags: self.tags.deep_view(),
        }
    }
}

impl View for Page {
    type V = PageView;

    open spec fn view(&self) -> PageView {
        self.deep_view()
    }
}

impl View for Chapter {
    type V = ChapterView;

    open spec fn view(&self) -> ChapterView {
        self.deep_view()
    }
}

impl View for Book {
    type V = BookView;

    open spec fn view(&self) -> BookView {
        self.deep_view()
    }
}

impl View for RawUrls {
    type V = RawUrlsView;

    open spec fn view(&self) -> RawUrlsView {
        self.deep_view()
    }
}

/// The page with nothing in it.
pub open spec fn empty_page() -> PageView {
    PageView {
        title: Seq::empty(),
        url: Seq::empty(),
        intermediate_link_hint: None,
        fetch_context: None,
        number: 0,
        filename: Seq::empty(),
        metadata: Seq::empty(),
    }
}

/// The chapter with nothing in it.
pub open spec fn empty_chapter() -> ChapterView {
    ChapterView {
        title: Seq::empty(),
        description: Seq::empty(),
        url: Seq::empty(),
        number: 0,
        pages: Seq::empty(),
        metadata: Seq::empty(),
    }
}

/// The book with nothing in it.
pub open spec fn empty_book() -> BookView {
    BookView {
        title: Seq::empty(),
        title_aliases: Seq::empty(),
        source_id: Seq::empty(),
        description: Seq::empty(),
        authors: Seq::empty(),
        chapters: Seq::empty(),
        tags: Seq::empty(),
        metadata: Seq::empty(),
        url: Seq::empty(),
    }
}

impl Default for Page {
    fn default() -> (page: Page)
        ensures
            page@ == empty_page(),
    {
        let page = Page {
            title: String::new(),
            url: String::new(),
            intermediate_link_hint: None,
            fetch_context: None,
            number: 0,
            filename: String::new(),
            metadata: Vec::new(),
        };
        assert(page@.metadata =~= Seq::empty());
        page
    }
}

impl Default for Chapter {
    fn default() -> (chapter: Chapter)
        ensures
            chapter@ == empty_chapter(),
    {
        let chapter = Chapter {
            title: String::new(),
            description: String::new(),
            url: String::new(),
            number: 0,
            pages: Vec::new(),
            metadata: Vec::new(),
        };
        assert(chapter@.metadata =~= Seq::empty());
        assert(chapter@.pages =~= Seq::empty());
        chapter
    }
}

impl Default for Book {
    fn default() -> (book: Book)
        ensures
            book@ == empty_book(),
    {
        let book = Book {
            title: String::new(),
            title_aliases: Vec::new(),
            source_id: String::new(),
            description: String::new(),
            authors: Vec::new(),
            chapters: Vec::new(),
            tags: Vec::new(),
            metadata: Vec::new(),
            url: String::new(),
        };
        assert(book@.title_aliases =~= Seq::empty());
        assert(book@.authors =~= Seq::empty());
        assert(book@.chapters =~= Seq::empty());
        assert(book@.tags =~= Seq::empty());
        assert(book@.metadata =~= Seq::empty());
        book
    }
}

/// Page `p` (counted from 0) of the chapter `title`, for the URL whose
/// serialization is `normal`: it is named after the chapter and its
/// position, and its file is named after the URL where the URL ends in a
/// name.
pub open spec fn page_of_url(title: Seq<char>, p: int, normal: Seq<char>) -> PageView {
    PageView {
        title: title + " page #"@ + decimal((p + 1) as nat),
        url: normal,
        intermediate_link_hint: None,
        fetch_context: None,
        number: (p + 1) as u32,
        filename: match filename_of(normal) {
            Some(name) => name,
            None => title + "_"@ + decimal((p + 1) as nat),
        },
        metadata: Seq::empty(),
    }
}

/// The chapter made of `urls`: the first chapter of its book, with one
/// page per URL.
pub open spec fn chapter_of_urls(title: Seq<char>, urls: Seq<Seq<char>>) -> ChapterView {
    ChapterView {
        title,
        description: Seq::empty(),
        url: Seq::empty(),
        number: 1,
        pages: Seq::new(urls.len(), |p: int| page_of_url(title, p, url_normal_form(urls[p])->0)),
        metadata: Seq::empty(),
    }
}

/// The error for a URL that does not parse.
pub open spec fn parse_failure(url: Seq<char>) -> Seq<char> {
    "Failed Parsing: "@ + debug_form(url)
}

/// Whether `r` is what `urls` make under `title`: the chapter where every
/// URL parses, else the error for the first URL that does not.
pub open spec fn is_chapter_of(
    title: Seq<char>,
    urls: Seq<Seq<char>>,
    r: Result<ChapterView, Seq<char>>,
) -> bool {
    match r {
        Ok(chapter) => {
            &&& forall|i: int| 0 <= i < urls.len() ==> url_normal_form(#[trigger] urls[i]) is Some
            &&& chapter == chapter_of_urls(title, urls)
        },
        Err(e) => exists|i: int|
            {
                &&& 0 <= i < urls.len()
                &&& forall|k: int| 0 <= k < i ==> url_normal_form(#[trigger] urls[k]) is Some
                &&& url_normal_form(#[trigger] urls[i]) is None
                &&& e == parse_failure(urls[i])
            },
    }
}

/// Whether every URL of `urls` that parses has path segments.
pub open spec fn urls_have_segments(urls: Seq<Seq<char>>) -> bool {
    forall|i: int|
        0 <= i < urls.len() && url_normal_form(#[trigger] urls[i]) is Some ==> url_last_segment(
            url_normal_form(urls[i])->0,
        ) is Some
}

/// The view of a chapter or an error message.
pub open spec fn chapter_result(r: Result<Chapter, String>) -> Result<ChapterView, Seq<char>> {
    match r {
        Ok(chapter) => Ok(chapter@),
        Err(e) => Err(e@),
    }
}

/// The view of a book or an error message.
pub open spec fn book_result(r: Result<Book, String>) -> Result<BookView, Seq<char>> {
    match r {
        Ok(book) => Ok(book@),
        Err(e) => Err(e@),
    }
}

/// The tags named `names`, without metadata.
pub open spec fn plain_tags(names: Seq<Seq<char>>) -> Seq<TagView> {
    Seq::new(names.len(), |i: int| TagView { name: names[i], metadata: Seq::empty() })
}

/// Whether `r` is the book that `raw` stands for: titled and identified
/// by the title of `raw`, with its source as URL, its tags, and one
/// chapter made of its URLs.
pub open spec fn is_book_of(raw: RawUrlsView, r: Result<BookView, Seq<char>>) -> bool {
    match r {
        Ok(book) => {
            &&& is_chapter_of(raw.title, raw.urls, Ok(book.chapters[0]))
            &&& book == BookView {
                title: raw.title,
                title_aliases: Seq::empty(),
                source_id: raw.title,
                description: Seq::empty(),
                authors: Seq::empty(),
                chapters: seq![chapter_of_urls(raw.title, raw.urls)],
                tags: plain_tags(raw.tags),
                metadata: Seq::empty(),
                url: raw.url_source,
            }
        },
        Err(e) => is_chapter_of(raw.title, raw.urls, Err(e)),
    }
}

fn page_label(title: &str, infix: &str, number: usize) -> (label: String)
    ensures
        label@ == title@ + infix@ + decimal(number as nat),
{
    let mut label = String::new();
    push_text(&mut label, title);
    push_text(&mut label, infix);
    push_decimal(&mut label, number);
    label
}

impl Chapter {
    /// Makes a chapter of a list of URLs. Each URL that parses must have
    /// path segments.
    pub fn from_raw_urls(raw: RawUrls) -> (chapter: Result<Chapter, String>)
        requires
            raw.urls.len() < u32::MAX,
            urls_have_segments(raw.urls.deep_view()),
        ensures
            is_chapter_of(raw.title@, raw.urls.deep_view(), chapter_result(chapter)),
    {
        let RawUrls { urls, url_source: _, title, tags: _ } = raw;
        let ghost all = urls.deep_view();
        let mut pages: Vec<Page> = Vec::new();
        let mut p: usize = 0;
        assert(pages.deep_view() =~= chapter_of_urls(title@, all).pages.take(0));
        while p < urls.len()
            invariant
                p <= urls.len() < u32::MAX,
                all == urls.deep_view(),
                urls == raw.urls,
                title == raw.title,
                urls_have_segments(all),
                forall|k: int| 0 <= k < p ==> url_normal_form(#[trigger] all[k]) is Some,
                pages.deep_view() == chapter_of_urls(title@, all).pages.take(p as int),
            decreases urls.len() - p,
        {
            assert(all[p as int] == urls@[p as int]@);
            let normal = match normalize_url(urls[p].as_str()) {
                Some(normal) => normal,
                None => {
                    let mut message = String::new();
                    push_text(&mut message, "Failed Parsing: ");
                    let quoted = debug_quoted(urls[p].as_str());
                    push_text(&mut message, quoted.as_str());
                    assert(url_normal_form(all[p as int]) is None);
                    assert(message@ == parse_failure(all[p as int]));
                    return Err(message);
                },
            };
            let filename = match extract_filename(normal.as_str()) {
                Some(name) => name,
                None => page_label(title.as_str(), "_", p + 1),
            };
            let ghost before = pages.deep_view();
            let page = Page {
                filename,
                title: page_label(title.as_str(), " page #", p + 1),
                number: p as u32 + 1,
                url: normal,
                intermediate_link_hint: None,
                fetch_context: None,
                metadata: Vec::new(),
            };
            assert(page@.metadata =~= Seq::empty());
            assert(page@ == page_of_url(title@, p as int, url_normal_form(all[p as int])->0));
            pages.push(page);
            assert(pages.deep_view() =~= before.push(page@));
            assert(pages.deep_view() =~= chapter_of_urls(title@, all).pages.take(p + 1));
            p += 1;
        }
        assert(chapter_of_urls(title@, all).pages.take(urls.len() as int) == chapter_of_urls(
            title@,
            all,
        ).pages);
        let chapter = Chapter {
            title,
            pages,
            description: String::new(),
            url: String::new(),
            number: 1,
            metadata: Vec::new(),
        };
        assert(chapter@.metadata =~= Seq::empty());
        Ok(chapter)
    }

    /// Makes a chapter of a list of URLs, or gives `None` where a URL
    /// parses and has no path segments.
    pub fn try_from_raw_urls(raw: RawUrls) -> (chapter: Option<Result<Chapter, String>>)
        requires
            raw.urls.len() < u32::MAX,
        ensures
            chapter is Some == urls_have_segments(raw.urls.deep_view()),
            chapter matches Some(r) ==> is_chapter_of(
                raw.title@,
                raw.urls.deep_view(),
                chapter_result(r),
            ),
    {
        if all_have_segments(&raw.urls) {
            Some(Chapter::from_raw_urls(raw))
        } else {
            None
        }
    }
}

/// Tells whether every URL of `urls` that parses has path segments.
pub fn all_have_segments(urls: &Vec<String>) -> (r: bool)
    ensures
        r == urls_have_segments(urls.deep_view()),
{
    let ghost all = urls.deep_view();
    let mut i: usize = 0;
    while i < urls.len()
        invariant
            i <= urls.len(),
            all == urls.deep_view(),
            forall|k: int|
                0 <= k < i && url_normal_form(#[trigger] all[k]) is Some ==> url_last_segment(
                    url_normal_form(all[k])->0,
                ) is Some,
        decreases urls.len() - i,
    {
        assert(all[i as int] == urls@[i as int]@);
        match normalize_url(urls[i].as_str()) {
            Some(normal) => {
                if !has_path_segments(normal.as_str()) {
                    return false;
                }
            },
            None => {},
        }
        i += 1;
    }
    true
}

/// `"{fingerprint}"` cut down to its first ten characters.
pub open spec fn short_id(term: Seq<char>, plugin_name: Seq<char>) -> Seq<char> {
    fingerprint(term, plugin_name).take(10)
}

/// The name of the directory of a book titled `title`: the sanitized
/// title, made a path component labelled with the short fingerprint of
/// the query.
pub open spec fn book_dir(title: Seq<char>, term: Seq<char>, plugin_name: Seq<char>) -> Seq<char> {
    as_path(sanitized(title), Some(short_id(term, plugin_name)), usize::MAX as nat)
}

/// The name of the metadata file of a book: its sanitized source id and
/// `.json`.
pub open spec fn metadata_name(source_id: Seq<char>) -> Seq<char> {
    sanitized(source_id) + ".json"@
}

/// The names of the authors of a book.
pub open spec fn author_names(authors: Seq<AuthorView>) -> Seq<Seq<char>> {
    Seq::new(authors.len(), |i: int| authors[i].name)
}

/// The tag names of a book.
pub open spec fn tag_names(tags: Seq<TagView>) -> Seq<Seq<char>> {
    Seq::new(tags.len(), |i: int| tags[i].name)
}

/// The line that sums up a chapter: its title and its number of pages.
pub open spec fn chapter_line(chapter: ChapterView) -> Seq<char> {
    "   - "@ + chapter.title + " ("@ + decimal(chapter.pages.len()) + " pages)"@
}

/// One line per chapter.
pub open spec fn chapter_lines(chapters: Seq<ChapterView>) -> Seq<Seq<char>> {
    Seq::new(chapters.len(), |i: int| chapter_line(chapters[i]))
}

/// The summary of a book before it is trimmed.
pub open spec fn resume_body(book: BookView) -> Seq<char> {
    "\n- Title: "@ + book.title + "\n- Source: "@ + book.url + "\n- Author(s): "@ + join(
        author_names(book.authors),
        ", "@,
    ) + "\n- Tag(s): "@ + join(tag_names(book.tags), ", "@) + "\n- Chapter(s) ("@ + decimal(
        book.chapters.len(),
    ) + "):\n"@ + join(chapter_lines(book.chapters), "\n"@) + "\n    "@
}

impl Book {
    /// Makes a book of a list of URLs. Each URL that parses must have
    /// path segments.
    pub fn from_raw_urls(raw: RawUrls) -> (book: Result<Book, String>)
        requires
            raw.urls.len() < u32::MAX,
            urls_have_segments(raw.urls.deep_view()),
        ensures
            is_book_of(raw@, book_result(book)),
    {
        let mut tags: Vec<Tag> = Vec::new();
        let mut i: usize = 0;
        assert(tags.deep_view() =~= plain_tags(raw.tags.deep_view()).take(0));
        while i < raw.tags.len()
            invariant
                i <= raw.tags.len(),
                tags.deep_view() == plain_tags(raw.tags.deep_view()).take(i as int),
            decreases raw.tags.len() - i,
        {
            let ghost before = tags.deep_view();
            let tag = Tag { name: raw.tags[i].clone(), metadata: Vec::new() };
            assert(tag.deep_view().metadata =~= Seq::empty());
            tags.push(tag);
            assert(tags.deep_view() =~= before.push(tag.deep_view()));
            assert(tags.deep_view() =~= plain_tags(raw.tags.deep_view()).take(i + 1));
            i += 1;
        }
        assert(plain_tags(raw.tags.deep_view()).take(raw.tags.len() as int) == plain_tags(
            raw.tags.deep_view(),
        ));
        let title = raw.title.clone();
        let source_id = raw.title.clone();
        let url = raw.url_source.clone();
        let ghost view = raw@;
        match Chapter::from_raw_urls(raw) {
            Err(e) => Err(e),
            Ok(chapter) => {
                let mut chapters: Vec<Chapter> = Vec::new();
                chapters.push(chapter);
                assert(chapters.deep_view() =~= seq![chapter@]);
                let book = Book {
                    title,
                    title_aliases: Vec::new(),
                    source_id,
                    description: String::new(),
                    authors: Vec::new(),
                    chapters,
                    tags,
                    metadata: Vec::new(),
                    url,
                };
                assert(book@.title_aliases =~= Seq::empty());
                assert(book@.authors =~= Seq::empty());
                assert(book@.metadata =~= Seq::empty());
                Ok(book)
            },
        }
    }

    /// Makes a book of a list of URLs, or gives `None` where a URL parses
    /// and has no path segments.
    pub fn try_from_raw_urls(raw: RawUrls) -> (book: Option<Result<Book, String>>)
        requires
            raw.urls.len() < u32::MAX,
        ensures
            book is Some == urls_have_segments(raw.urls.deep_view()),
            book matches Some(r) ==> is_book_of(raw@, book_result(r)),
    {
        if all_have_segments(&raw.urls) {
            Some(Book::from_raw_urls(raw))
        } else {
            None
        }
    }

    /// The title, safe to use inside a file name.
    pub fn get_sanitized_title(&self) -> (title: String)
        ensures
            title@ == sanitized(self.title@),
    {
        sanitize_string(self.title.as_str())
    }

    fn dir_name(&self, term: &str, plugin_name: &str) -> (name: String)
        ensures
            name@ == book_dir(self.title@, term@, plugin_name@),
    {
        let signature = compute_query_signature(term, plugin_name);
        let id = leading_chars(signature.as_str(), 10);
        let title = self.get_sanitized_title();
        sanitize_string_as_path(title.as_str(), Some(id))
    }

    /// Where this book goes under the roots `roots`: the download and the
    /// staging directory are `{root}/{plugin}/{directory of the book}`,
    /// the metadata directory is `{root}/{plugin}`.
    pub fn get_download_folders(&self, term: &str, plugin_name: &str, roots: &DownloadFolder) -> (folders:
        DownloadFolder)
        ensures
            folders.download.deep_view() == roots.download.deep_view().push(plugin_name@).push(
                book_dir(self.title@, term@, plugin_name@),
            ),
            folders.temp.deep_view() == roots.temp.deep_view().push(plugin_name@).push(
                book_dir(self.title@, term@, plugin_name@),
            ),
            folders.metadata.deep_view() == roots.metadata.deep_view().push(plugin_name@),
    {
        let chunk_title_path = self.dir_name(term, plugin_name);
        let download = join_path(&roots.download, plugin_name);
        let temp = join_path(&roots.temp, plugin_name);
        DownloadFolder {
            download: join_path(&download, chunk_title_path.as_str()),
            temp: join_path(&temp, chunk_title_path.as_str()),
            metadata: join_path(&roots.metadata, plugin_name),
        }
    }

    fn metadata_file(&self, root: &Vec<String>, term: &str, plugin_name: &str) -> (path: Vec<String>)
        ensures
            path.deep_view() == root.deep_view().push(plugin_name@).push(
                book_dir(self.title@, term@, plugin_name@),
            ).push(metadata_name(self.source_id@)),
    {
        let chunk_title_path = self.dir_name(term, plugin_name);
        let id = sanitize_string(self.source_id.as_str());
        let name = concat(id.as_str(), ".json");
        let under_plugin = join_path(root, plugin_name);
        let under_book = join_path(&under_plugin, chunk_title_path.as_str());
        join_path(&under_book, name.as_str())
    }

    /// The metadata file in the staging tree:
    /// `{temp}/{plugin}/{directory of the book}/{source id}.json`.
    pub fn get_metadata_path(&self, term: &str, plugin_name: &str, roots: &DownloadFolder) -> (path:
        Vec<String>)
        ensures
            path.deep_view() == roots.temp.deep_view().push(plugin_name@).push(
                book_dir(self.title@, term@, plugin_name@),
            ).push(metadata_name(self.source_id@)),
    {
        self.metadata_file(&roots.temp, term, plugin_name)
    }

    /// The metadata file in the metadata tree:
    /// `{metadata}/{plugin}/{directory of the book}/{source id}.json`.
    pub fn get_metadata_dest_path(&self, term: &str, plugin_name: &str, roots: &DownloadFolder) -> (path:
        Vec<String>)
        ensures
            path.deep_view() == roots.metadata.deep_view().push(plugin_name@).push(
                book_dir(self.title@, term@, plugin_name@),
            ).push(metadata_name(self.source_id@)),
    {
        self.metadata_file(&roots.metadata, term, plugin_name)
    }

    /// A few lines that sum up the book.
    pub fn resume(&self) -> (summary: String)
        ensures
            summary@ == trim(resume_body(self@)),
    {
        let mut authors: Vec<String> = Vec::new();
        let mut i: usize = 0;
        assert(authors.deep_view() =~= author_names(self.authors.deep_view()).take(0));
        while i < self.authors.len()
            invariant
                i <= self.authors.len(),
                authors.deep_view() == author_names(self.authors.deep_view()).take(i as int),
            decreases self.authors.len() - i,
        {
            let ghost before = authors.deep_view();
            authors.push(self.authors[i].name.clone());
            assert(authors.deep_view() =~= before.push(self.authors@[i as int].name@));
            assert(authors.deep_view() =~= author_names(self.authors.deep_view()).take(i + 1));
            i += 1;
        }
        assert(author_names(self.authors.deep_view()).take(self.authors.len() as int)
            == author_names(self.authors.deep_view()));
        let mut tags: Vec<String> = Vec::new();
        let mut i: usize = 0;
        assert(tags.deep_view() =~= tag_names(self.tags.deep_view()).take(0));
        while i < self.tags.len()
            invariant
                i <= self.tags.len(),
                tags.deep_view() == tag_names(self.tags.deep_view()).take(i as int),
            decreases self.tags.len() - i,
        {
            let ghost before = tags.deep_view();
            tags.push(self.tags[i].name.clone());
            assert(tags.deep_view() =~= before.push(self.tags@[i as int].name@));
            assert(tags.deep_view() =~= tag_names(self.tags.deep_view()).take(i + 1));
            i += 1;
        }
        assert(tag_names(self.tags.deep_view()).take(self.tags.len() as int) == tag_names(
            self.tags.deep_view(),
        ));
        let mut lines: Vec<String> = Vec::new();
        let mut i: usize = 0;
        assert(lines.deep_view() =~= chapter_lines(self.chapters.deep_view()).take(0));
        while i < self.chapters.len()
            invariant
                i <= self.chapters.len(),
                lines.deep_view() == chapter_lines(self.chapters.deep_view()).take(i as int),
            decreases self.chapters.len() - i,
        {
            let ghost before = lines.deep_view();
            let mut line = String::new();
            push_text(&mut line, "   - ");
            push_text(&mut line, self.chapters[i].title.as_str());
            push_text(&mut line, " (");
            push_decimal(&mut line, self.chapters[i].pages.len());
            push_text(&mut line, " pages)");
            assert(line@ == chapter_line(self.chapters@[i as int]@));
            lines.push(line);
            assert(lines.deep_view() =~= before.push(chapter_line(self.chapters@[i as int]@)));
            assert(lines.deep_view() =~= chapter_lines(self.chapters.deep_view()).take(i + 1));
            i += 1;
        }
        assert(chapter_lines(self.chapters.deep_view()).take(self.chapters.len() as int)
            == chapter_lines(self.chapters.deep_view()));
        let mut body = String::new();
        push_text(&mut body, "\n- Title: ");
        push_text(&mut body, self.title.as_str());
        push_text(&mut body, "\n- Source: ");
        push_text(&mut body, self.url.as_str());
        push_text(&mut body, "\n- Author(s): ");
        let joined = join_all(&authors, ", ");
        push_text(&mut body, joined.as_str());
        push_text(&mut body, "\n- Tag(s): ");
        let joined = join_all(&tags, ", ");
        push_text(&mut body, joined.as_str());
        push_text(&mut body, "\n- Chapter(s) (");
        push_decimal(&mut body, self.chapters.len());
        push_text(&mut body, "):\n");
        let joined = join_all(&lines, "\n");
        push_text(&mut body, joined.as_str());
        push_text(&mut body, "\n    ");
        trimmed(body.as_str())
    }
}

} // verus!
