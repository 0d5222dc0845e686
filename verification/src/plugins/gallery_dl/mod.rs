//! Books made of what `gallery-dl` knows about a term.

pub mod schema;

use crate::cli::fetch::{dedup_first, dedupe_terms};
use crate::outside::{url_last_segment};
use crate::plugins::gallery_dl::schema::{
    append_all, FirstGalleryEntry, GalleryItem, GalleryPage, UrlGalleryEntry,
};
use crate::schemas::book::{
    Author, AuthorView, Book, BookView, Chapter, ChapterView, Metadata, MetadataView, Page,
    PageView, Tag, TagView, TitleAlias, TitleAliasView,
};
use crate::schemas::config::Config;
use crate::schemas::json::JsonValue;
use crate::text::{decimal, decimal_string, join, join_all, push_text, trim, trimmed};
use crate::utils::{
    compute_query_signature, extract_filename, filename_of, fingerprint, has_path_segments,
    resume_text, resumed, set_if_empty,
};
use vstd::prelude::*;

verus! {

/// The plugin that asks the program `gallery-dl`.
#[derive(Debug, Clone)]
pub struct GalleryDLPlugin {
    pub name: String,
    /// The program to run.
    pub bin: String,
}

/// The program that `config` names for the plugin: the `bin` entry of the
/// extra configuration of its request profile, or `gallery-dl`.
pub open spec fn configured_bin(config: Config) -> Seq<char> {
    match config.request.lookup("gallery-dl"@) {
        Some(profile) => match profile.extra_config {
            Some(extra) => match extra.lookup("bin"@) {
                Some(bin) => bin@,
                None => "gallery-dl"@,
            },
            None => "gallery-dl"@,
        },
        None => "gallery-dl"@,
    }
}

/// What is reported when the program fails: its two outputs.
pub open spec fn failure_report(stdout: Seq<char>, stderr: Seq<char>) -> Seq<char> {
    "stdout: "@ + stdout + "\nstderr: "@ + stderr
}

impl GalleryDLPlugin {
    /// The plugin as `config` sets it up.
    pub fn new(config: &Config) -> (plugin: Self)
        requires
            config.wf(),
        ensures
            plugin.name@ == "gallery-dl"@,
            plugin.bin@ == configured_bin(*config),
    {
        let mut name = String::new();
        push_text(&mut name, "gallery-dl");
        let mut bin = String::new();
        let mut found = false;
        proof {
            config.request.lemma_wf();
        }
        match config.request.position("gallery-dl") {
            Some(at) => {
                let profile = config.request.value_at(at);
                assert(config.request.values()[at as int].wf());
                match &profile.extra_config {
                    Some(extra) => {
                        match extra.get("bin") {
                            Some(path) => {
                                push_text(&mut bin, path.as_str());
                                found = true;
                            },
                            None => {},
                        }
                    },
                    None => {},
                }
            },
            None => {},
        }
        if !found {
            push_text(&mut bin, "gallery-dl");
        }
        Self { name, bin }
    }

    /// The arguments with which the program dumps what it knows of
    /// `term`.
    pub fn get_book(&self, term: &str) -> (args: Vec<String>)
        ensures
            args.deep_view() == seq![term@, "--dump-json"@],
    {
        Self::arguments(term, "--dump-json")
    }

    /// The arguments with which the program tells whether it supports
    /// `term`: it does where it then ends with success.
    pub fn is_supported(&self, term: &str) -> (args: Vec<String>)
        ensures
            args.deep_view() == seq![term@, "--extractor-info"@],
    {
        Self::arguments(term, "--extractor-info")
    }

    fn arguments(term: &str, flag: &str) -> (args: Vec<String>)
        ensures
            args.deep_view() == seq![term@, flag@],
    {
        let mut args: Vec<String> = Vec::new();
        let mut first = String::new();
        push_text(&mut first, term);
        let mut second = String::new();
        push_text(&mut second, flag);
        args.push(first);
        args.push(second);
        assert(args.deep_view() =~= seq![term@, flag@]);
        args
    }

    /// The arguments with which the program downloads `url` into the
    /// directory `directory`.
    pub fn download_url(&self, directory: &str, url: &str) -> (args: Vec<String>)
        ensures
            args.deep_view() == seq!["--directory"@, directory@, url@],
    {
        let mut args: Vec<String> = Vec::new();
        let mut flag = String::new();
        push_text(&mut flag, "--directory");
        let mut dir = String::new();
        push_text(&mut dir, directory);
        let mut target = String::new();
        push_text(&mut target, url);
        args.push(flag);
        args.push(dir);
        args.push(target);
        assert(args.deep_view() =~= seq!["--directory"@, directory@, url@]);
        args
    }

    /// The directory into which the program downloads a page that is to
    /// end up at `filename`.
    pub fn temp_name(filename: &str) -> (name: String)
        ensures
            name@ == filename@ + "_temp"@,
    {
        let mut name = String::new();
        push_text(&mut name, filename);
        push_text(&mut name, "_temp");
        name
    }

    /// What is reported when the program fails.
    pub fn failure(stdout: &str, stderr: &str) -> (report: String)
        ensures
            report@ == failure_report(stdout@, stderr@),
    {
        let mut report = String::new();
        push_text(&mut report, "stdout: ");
        push_text(&mut report, stdout);
        push_text(&mut report, "\nstderr: ");
        push_text(&mut report, stderr);
        report
    }
}

/// How a command is shown: the program and its arguments, with single
/// spaces between them.
pub fn print_command_invocation(bin: &str, args: &Vec<String>) -> (shown: String)
    ensures
        shown@ == bin@ + " "@ + join(args.deep_view(), " "@),
{
    let mut shown = String::new();
    push_text(&mut shown, bin);
    push_text(&mut shown, " ");
    let joined = join_all(args, " ");
    push_text(&mut shown, joined.as_str());
    shown
}

/// What was gathered from the entries of a dump.
pub struct Harvest {
    pub title: Seq<char>,
    pub gallery_id: Seq<char>,
    pub aliases: Seq<Seq<char>>,
    pub tags: Seq<Seq<char>>,
    pub authors: Seq<Seq<char>>,
    pub pages: Seq<PageView>,
}

/// The name under which a gallery goes before its description is read:
/// the term, cut down to 20 characters and trimmed.
pub open spec fn placeholder(term: Seq<char>) -> Seq<char> {
    trim(resumed(term, 20))
}

/// The file name of the page of entry `p`: that of its description where
/// it has one, else the one its URL ends in, else the position.
pub open spec fn entry_filename(entry: UrlGalleryEntry, gpage: GalleryPage, p: int) -> Seq<char> {
    match gpage.filename_spec() {
        Some(name) => name,
        None => match filename_of(entry.url@) {
            Some(name) => name,
            None => decimal(p as nat),
        },
    }
}

/// The page of entry `p`. It carries the metadata of the entry, labelled
/// with its file name, where the metadata is an object with members.
pub open spec fn entry_page(entry: UrlGalleryEntry, gpage: GalleryPage, p: int) -> PageView {
    PageView {
        title: gpage.title@,
        url: entry.url@,
        intermediate_link_hint: None,
        fetch_context: None,
        number: p as u32,
        filename: entry_filename(entry, gpage, p),
        metadata: match entry.meta {
            JsonValue::Object(o) => if o@.len() > 0 {
                seq![
                    MetadataView {
                        label: entry_filename(entry, gpage, p),
                        content: entry.meta_text@,
                    },
                ]
            } else {
                Seq::empty()
            },
            _ => Seq::empty(),
        },
    }
}

/// What entry `p` adds to what was gathered: a description of the gallery
/// sets title and identifier and adds aliases, tags and authors; a
/// description of a file adds tags and a page.
pub open spec fn take_entry(term: Seq<char>, h: Harvest, p: int, item: GalleryItem) -> Result<
    Harvest,
    Seq<char>,
> {
    match item {
        GalleryItem::TwoElementTuple(FirstGalleryEntry(_, gl)) => match gl.all_authors() {
            None => Err(schema::nameless_author()),
            Some(names) => Ok(
                Harvest {
                    title: gl.title_or(term),
                    gallery_id: gl.id_or(term),
                    aliases: h.aliases + dedup_first(gl.title_aliases.deep_view()),
                    tags: h.tags + dedup_first(gl.all_tags()),
                    authors: h.authors + dedup_first(names),
                    pages: h.pages,
                },
            ),
        },
        GalleryItem::ThreeElementTuple(entry) => match entry.page {
            Err(e) => Err(e@),
            Ok(gpage) => Ok(
                Harvest {
                    tags: h.tags + dedup_first(gpage.tags.deep_view() + gpage.hashtags.deep_view()),
                    pages: h.pages.push(entry_page(entry, gpage, p)),
                    ..h
                },
            ),
        },
    }
}

/// What the entries of a dump give, taken in order; the first entry that
/// cannot be taken fails the whole.
pub open spec fn harvest(term: Seq<char>, items: Seq<GalleryItem>) -> Result<Harvest, Seq<char>>
    decreases items.len(),
{
    if items.len() == 0 {
        Ok(
            Harvest {
                title: placeholder(term),
                gallery_id: placeholder(term),
                aliases: Seq::empty(),
                tags: Seq::empty(),
                authors: Seq::empty(),
                pages: Seq::empty(),
            },
        )
    } else {
        match harvest(term, items.drop_last()) {
            Err(e) => Err(e),
            Ok(h) => take_entry(term, h, items.len() - 1, items.last()),
        }
    }
}

/// A failure among the first entries is the failure of the whole.
pub proof fn lemma_harvest_fails(term: Seq<char>, items: Seq<GalleryItem>, n: int)
    requires
        0 <= n <= items.len(),
        harvest(term, items.take(n)) is Err,
    ensures
        harvest(term, items) == harvest(term, items.take(n)),
    decreases items.len(),
{
    if n < items.len() {
        assert(items.drop_last().take(n) == items.take(n));
        lemma_harvest_fails(term, items.drop_last(), n);
    } else {
        assert(items.take(n) == items);
    }
}

/// The names of `names` that are not empty, in order.
pub open spec fn named(names: Seq<Seq<char>>) -> Seq<Seq<char>>
    decreases names.len(),
{
    if names.len() == 0 {
        names
    } else if names.last().len() == 0 {
        named(names.drop_last())
    } else {
        named(names.drop_last()).push(names.last())
    }
}

/// The book made of what was gathered for `term`: one chapter with all
/// the pages; aliases, authors and tags each once, the empty ones left
/// out; the fingerprint of the term as identifier where the gallery has
/// none.
pub open spec fn book_of(term: Seq<char>, h: Harvest) -> BookView {
    let names = named(dedup_first(h.authors));
    let tags = named(dedup_first(h.tags));
    let aliases = dedup_first(h.aliases);
    BookView {
        title: h.title,
        title_aliases: Seq::new(
            aliases.len(),
            |i: int| TitleAliasView { title: aliases[i], description: Seq::empty() },
        ),
        source_id: if h.gallery_id.len() == 0 {
            fingerprint(term, "gallery-dl"@)
        } else {
            h.gallery_id
        },
        description: Seq::empty(),
        authors: Seq::new(
            names.len(),
            |i: int| AuthorView { name: names[i], description: Seq::empty() },
        ),
        chapters: seq![
            ChapterView {
                title: h.title,
                description: Seq::empty(),
                url: term,
                number: 1,
                pages: h.pages,
                metadata: Seq::empty(),
            },
        ],
        tags: Seq::new(tags.len(), |i: int| TagView { name: tags[i], metadata: Seq::empty() }),
        metadata: Seq::empty(),
        url: term,
    }
}

/// Whether the file of entry `item` can be named: it has a name of its
/// own, or its URL has path segments.
pub open spec fn nameable(item: GalleryItem) -> bool {
    match item {
        GalleryItem::ThreeElementTuple(entry) => match entry.page {
            Ok(gpage) => gpage.filename is Some || url_last_segment(entry.url@) is Some,
            Err(_) => true,
        },
        _ => true,
    }
}

/// Whether the file of every entry can be named.
pub open spec fn all_nameable(items: Seq<GalleryItem>) -> bool {
    forall|p: int| 0 <= p < items.len() ==> nameable(#[trigger] items[p])
}

/// Tells whether the file of every entry can be named.
pub fn can_name_all(items: &Vec<GalleryItem>) -> (r: bool)
    ensures
        r == all_nameable(items@),
{
    let mut p: usize = 0;
    while p < items.len()
        invariant
            p <= items.len(),
            forall|k: int| 0 <= k < p ==> nameable(#[trigger] items@[k]),
        decreases items.len() - p,
    {
        match &items[p] {
            GalleryItem::ThreeElementTuple(entry) => {
                match &entry.page {
                    Ok(gpage) => {
                        if gpage.filename.is_none() && !has_path_segments(entry.url.as_str()) {
                            return false;
                        }
                    },
                    Err(_) => {},
                }
            },
            _ => {},
        }
        p += 1;
    }
    true
}

fn names_only(names: Vec<String>) -> (kept: Vec<String>)
    ensures
        kept.deep_view() == named(names.deep_view()),
{
    let mut kept: Vec<String> = Vec::new();
    let mut i: usize = 0;
    assert(kept.deep_view() =~= named(names.deep_view().take(0)));
    while i < names.len()
        invariant
            i <= names.len(),
            kept.deep_view() == named(names.deep_view().take(i as int)),
        decreases names.len() - i,
    {
        let ghost before = kept.deep_view();
        assert(names.deep_view().take(i + 1).drop_last() == names.deep_view().take(i as int));
        assert(names.deep_view().take(i + 1).last() == names@[i as int]@);
        if !names[i].as_str().is_empty() {
            kept.push(names[i].clone());
            assert(kept.deep_view() =~= before.push(names@[i as int]@));
        }
        i += 1;
    }
    assert(names.deep_view().take(names.len() as int) == names.deep_view());
    kept
}

/// The view of a book or an error message.
pub open spec fn made_book(r: Result<Book, String>) -> Result<BookView, Seq<char>> {
    match r {
        Ok(book) => Ok(book@),
        Err(e) => Err(e@),
    }
}

/// Makes a book of the entries that the program dumped for `term`. The
/// file of every entry must be nameable.
pub fn generate_book(term: String, items: Vec<GalleryItem>) -> (book: Result<Book, String>)
    requires
        all_nameable(items@),
        items@.len() <= u32::MAX,
    ensures
        made_book(book) == match harvest(term@, items@) {
            Ok(h) => Ok(book_of(term@, h)),
            Err(e) => Err(e),
        },
{
    let placeholder_title = resume_text(term.as_str(), Some(20));
    let mut title = trimmed(placeholder_title.as_str());
    let mut gallery_id = title.clone();
    let mut title_aliases: Vec<String> = Vec::new();
    let mut tags: Vec<String> = Vec::new();
    let mut authors: Vec<String> = Vec::new();
    let mut pages: Vec<Page> = Vec::new();
    let mut p: usize = 0;
    assert(items@.take(0) =~= Seq::<GalleryItem>::empty());
    assert(title_aliases.deep_view() =~= Seq::<Seq<char>>::empty());
    assert(tags.deep_view() =~= Seq::<Seq<char>>::empty());
    assert(authors.deep_view() =~= Seq::<Seq<char>>::empty());
    assert(pages.deep_view() =~= Seq::<PageView>::empty());
    while p < items.len()
        invariant
            p <= items.len() <= u32::MAX,
            all_nameable(items@),
            harvest(term@, items@.take(p as int)) == Ok::<Harvest, Seq<char>>(
                Harvest {
                    title: title@,
                    gallery_id: gallery_id@,
                    aliases: title_aliases.deep_view(),
                    tags: tags.deep_view(),
                    authors: authors.deep_view(),
                    pages: pages.deep_view(),
                },
            ),
        decreases items.len() - p,
    {
        let ghost upto = items@.take(p + 1);
        proof {
            assert(upto.drop_last() == items@.take(p as int));
            assert(upto.last() == items@[p as int]);
            assert(nameable(items@[p as int]));
        }
        match &items[p] {
            GalleryItem::TwoElementTuple(FirstGalleryEntry(_len, gl)) => {
                let names = match gl.get_authors() {
                    Ok(names) => names,
                    Err(e) => {
                        proof {
                            lemma_harvest_fails(term@, items@, p + 1);
                        }
                        return Err(e);
                    },
                };
                title = gl.get_title_or_default(term.clone());
                gallery_id = gl.get_id_or_default(term.clone());
                let aliases = gl.get_title_aliases();
                append_all(&mut title_aliases, &aliases);
                let found = gl.get_tags();
                append_all(&mut tags, &found);
                append_all(&mut authors, &names);
            },
            GalleryItem::ThreeElementTuple(entry) => {
                let gpage = match &entry.page {
                    Ok(gpage) => gpage,
                    Err(e) => {
                        proof {
                            lemma_harvest_fails(term@, items@, p + 1);
                        }
                        return Err(e.clone());
                    },
                };
                let filename = match gpage.get_filename() {
                    Some(name) => name,
                    None => match extract_filename(entry.url.as_str()) {
                        Some(name) => name,
                        None => decimal_string(p),
                    },
                };
                let mut metadata: Vec<Metadata> = Vec::new();
                assert(metadata.deep_view() =~= Seq::<MetadataView>::empty());
                match &entry.meta {
                    JsonValue::Object(o) => {
                        if o.len() > 0 {
                            let item = Metadata {
                                label: filename.clone(),
                                content: entry.meta_text.clone(),
                            };
                            metadata.push(item);
                            assert(metadata.deep_view() =~= seq![item.deep_view()]);
                        }
                    },
                    _ => {},
                }
                let found = gpage.get_explicit_tags();
                append_all(&mut tags, &found);
                let ghost before = pages.deep_view();
                let page = Page {
                    title: gpage.title.clone(),
                    url: entry.url.clone(),
                    intermediate_link_hint: None,
                    fetch_context: None,
                    number: p as u32,
                    filename,
                    metadata,
                };
                assert(page@ == entry_page(*entry, *gpage, p as int));
                pages.push(page);
                assert(pages.deep_view() =~= before.push(page@));
            },
        }
        p += 1;
    }
    assert(items@.take(items.len() as int) == items@);
    let ghost gathered = harvest(term@, items@)->Ok_0;
    let gallery_id = set_if_empty(gallery_id, compute_query_signature(term.as_str(), "gallery-dl"));
    let aliases = dedupe_terms(title_aliases);
    let names = names_only(dedupe_terms(authors));
    let labels = names_only(dedupe_terms(tags));
    let mut alias_list: Vec<TitleAlias> = Vec::new();
    let mut i: usize = 0;
    while i < aliases.len()
        invariant
            i <= aliases.len(),
            alias_list.deep_view() == Seq::new(
                i as nat,
                |k: int|
                    TitleAliasView { title: aliases.deep_view()[k], description: Seq::empty() },
            ),
        decreases aliases.len() - i,
    {
        let ghost before = alias_list.deep_view();
        let alias = TitleAlias { title: aliases[i].clone(), description: String::new() };
        alias_list.push(alias);
        assert(alias_list.deep_view() =~= before.push(alias.deep_view()));
        assert(aliases.deep_view()[i as int] == aliases@[i as int]@);
        i += 1;
    }
    let mut author_list: Vec<Author> = Vec::new();
    let mut i: usize = 0;
    while i < names.len()
        invariant
            i <= names.len(),
            author_list.deep_view() == Seq::new(
                i as nat,
                |k: int| AuthorView { name: names.deep_view()[k], description: Seq::empty() },
            ),
        decreases names.len() - i,
    {
        let ghost before = author_list.deep_view();
        let author = Author { name: names[i].clone(), description: String::new() };
        author_list.push(author);
        assert(author_list.deep_view() =~= before.push(author.deep_view()));
        assert(names.deep_view()[i as int] == names@[i as int]@);
        i += 1;
    }
    let mut tag_list: Vec<Tag> = Vec::new();
    let mut i: usize = 0;
    while i < labels.len()
        invariant
            i <= labels.len(),
            tag_list.deep_view() == Seq::new(
                i as nat,
                |k: int| TagView { name: labels.deep_view()[k], metadata: Seq::empty() },
            ),
        decreases labels.len() - i,
    {
        let ghost before = tag_list.deep_view();
        let tag = Tag { name: labels[i].clone(), metadata: Vec::new() };
        assert(tag.deep_view().metadata =~= Seq::empty());
        tag_list.push(tag);
        assert(tag_list.deep_view() =~= before.push(tag.deep_view()));
        assert(labels.deep_view()[i as int] == labels@[i as int]@);
        i += 1;
    }
    let chapter = Chapter {
        title: title.clone(),
        url: term.clone(),
        number: 1,
        pages,
        description: String::new(),
        metadata: Vec::new(),
    };
    assert(chapter@.metadata =~= Seq::empty());
    let mut chapters: Vec<Chapter> = Vec::new();
    chapters.push(chapter);
    assert(chapters.deep_view() =~= seq![chapter@]);
    let book = Book {
        title,
        url: term,
        title_aliases: alias_list,
        source_id: gallery_id,
        description: String::new(),
        chapters,
        authors: author_list,
        tags: tag_list,
        metadata: Vec::new(),
    };
    assert(book@.metadata =~= Seq::empty());
    assert(book@.title_aliases =~= book_of(term@, gathered).title_aliases);
    assert(book@.authors =~= book_of(term@, gathered).authors);
    assert(book@.tags =~= book_of(term@, gathered).tags);
    Ok(book)
}

/// Makes a book of the entries that the program dumped for `term`, or
/// gives `None` where the file of an entry cannot be named or where there
/// are more entries than pages can be numbered.
pub fn try_generate_book(term: String, items: Vec<GalleryItem>) -> (book: Option<Result<Book, String>>)
    ensures
        book is Some == (all_nameable(items@) && items@.len() <= u32::MAX),
        book matches Some(r) ==> made_book(r) == match harvest(term@, items@) {
            Ok(h) => Ok(book_of(term@, h)),
            Err(e) => Err(e),
        },
{
    if items.len() > u32::MAX as usize || !can_name_all(&items) {
        None
    } else {
        Some(generate_book(term, items))
    }
}

} // verus!
