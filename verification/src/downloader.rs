//! The staged download of books: what to do next, and when a book may be
//! promoted from the staging tree to the download tree.

use crate::outside::{
    html_selection, normalize_url, select_attribute, text_of_bytes, url_normal_form, Selection,
    SelectionView,
};
use crate::plugins::{page_count, pages_before, FetchResult, FetchResultView};
use crate::schemas::book::{
    book_dir, metadata_name, Book, BookView, CacheFile, Page, PageView,
};
use crate::schemas::config::{join_path, DownloadFolder};
use crate::text::{decimal, join, join_all, push_decimal, push_text};
use crate::utils::{
    as_path, batch_a_list_of, is_batching, resume_text, resumed,
    sanitize_string_as_path_within,
};
use vstd::prelude::*;
use vstd::utf8::*;

verus! {

/// Why a download failed.
#[derive(Debug)]
pub enum Failure {
    /// The task was cancelled.
    Cancelled(String),
    /// The task ended in a way that is neither success, failure, panic
    /// nor cancellation.
    Unknown(String),
    /// The download itself failed.
    Failed(String),
}

/// What became of the download of one book.
#[derive(Debug)]
pub enum DownloadStatus {
    Success,
    Fail(Failure),
}

/// How the task that downloads one book ended.
#[derive(Debug)]
pub enum TaskOutcome {
    /// The task ran to its end, with this result.
    Finished(Result<(), String>),
    /// The task was cancelled; the text describes the cancellation.
    Cancelled(String),
    /// The task could not be joined for another reason.
    Lost(String),
}

/// The view of a [`DownloadStatus`]: `None` for success, else the kind of
/// failure (0 cancelled, 1 unknown, 2 failed) and its text.
pub open spec fn status_view(status: DownloadStatus) -> Option<(int, Seq<char>)> {
    match status {
        DownloadStatus::Success => None,
        DownloadStatus::Fail(Failure::Cancelled(e)) => Some((0, e@)),
        DownloadStatus::Fail(Failure::Unknown(e)) => Some((1, e@)),
        DownloadStatus::Fail(Failure::Failed(e)) => Some((2, e@)),
    }
}

/// The status that a task outcome stands for.
pub open spec fn outcome_status(outcome: TaskOutcome) -> Option<(int, Seq<char>)> {
    match outcome {
        TaskOutcome::Finished(Ok(_)) => None,
        TaskOutcome::Finished(Err(e)) => Some((2, e@)),
        TaskOutcome::Cancelled(e) => Some((0, e@)),
        TaskOutcome::Lost(e) => Some((1, e@)),
    }
}

/// How a failure is shown: its kind, and its text in round brackets.
pub open spec fn failure_text(failure: Failure) -> Seq<char> {
    match failure {
        Failure::Cancelled(e) => "Cancelled("@ + e@ + ")"@,
        Failure::Unknown(e) => "Unknown("@ + e@ + ")"@,
        Failure::Failed(e) => "Some("@ + e@ + ")"@,
    }
}

impl Failure {
    /// This failure as it is shown to the user.
    pub fn describe(&self) -> (text: String)
        ensures
            text@ == failure_text(*self),
    {
        let mut text = String::new();
        match self {
            Failure::Cancelled(e) => {
                push_text(&mut text, "Cancelled(");
                push_text(&mut text, e.as_str());
            },
            Failure::Unknown(e) => {
                push_text(&mut text, "Unknown(");
                push_text(&mut text, e.as_str());
            },
            Failure::Failed(e) => {
                push_text(&mut text, "Some(");
                push_text(&mut text, e.as_str());
            },
        }
        push_text(&mut text, ")");
        text
    }
}

/// The status of each book of a batch, in the order of the batch.
pub fn download(outcomes: Vec<TaskOutcome>) -> (statuses: Vec<DownloadStatus>)
    ensures
        statuses@.len() == outcomes@.len(),
        forall|i: int|
            0 <= i < outcomes@.len() ==> status_view(#[trigger] statuses@[i]) == outcome_status(
                outcomes@[i],
            ),
{
    let ghost all = outcomes@;
    let mut rest = outcomes;
    let mut reversed: Vec<DownloadStatus> = Vec::new();
    while rest.len() > 0
        invariant
            rest.len() + reversed.len() == all.len(),
            rest@ == all.take(rest.len() as int),
            forall|k: int|
                0 <= k < reversed.len() ==> status_view(#[trigger] reversed@[k]) == outcome_status(
                    all[all.len() - 1 - k],
                ),
        decreases rest.len(),
    {
        let ghost before = reversed@;
        let outcome = rest.pop().unwrap();
        let status = match outcome {
            TaskOutcome::Finished(Ok(_)) => DownloadStatus::Success,
            TaskOutcome::Finished(Err(e)) => DownloadStatus::Fail(Failure::Failed(e)),
            TaskOutcome::Cancelled(e) => DownloadStatus::Fail(Failure::Cancelled(e)),
            TaskOutcome::Lost(e) => DownloadStatus::Fail(Failure::Unknown(e)),
        };
        reversed.push(status);
        assert(rest@ =~= all.take(rest.len() as int));
        assert forall|k: int| 0 <= k < reversed.len() implies status_view(
            #[trigger] reversed@[k],
        ) == outcome_status(all[all.len() - 1 - k]) by {
            if k < before.len() {
                assert(reversed@[k] == before[k]);
            }
        }
    }
    let mut statuses: Vec<DownloadStatus> = Vec::new();
    let ghost turned = reversed@;
    while reversed.len() > 0
        invariant
            statuses.len() + reversed.len() == turned.len(),
            reversed@ == turned.take(reversed.len() as int),
            forall|k: int|
                0 <= k < statuses.len() ==> (#[trigger] statuses@[k]) == turned[turned.len() - 1
                    - k],
        decreases reversed.len(),
    {
        let ghost before = statuses@;
        let status = reversed.pop().unwrap();
        statuses.push(status);
        assert(reversed@ =~= turned.take(reversed.len() as int));
        assert forall|k: int| 0 <= k < statuses.len() implies (#[trigger] statuses@[k])
            == turned[turned.len() - 1 - k] by {
            if k < before.len() {
                assert(statuses@[k] == before[k]);
            }
        }
    }
    statuses
}

/// The batches in which books are downloaded: books of one batch at the
/// same time, batches one after the other.
pub fn batch_download(fetched_book: &[FetchResult], batch_size: usize) -> (batches: Vec<
    Vec<FetchResult>,
>)
    requires
        batch_size > 0,
    ensures
        is_batching(fetched_book@, batch_size as nat, batches@),
{
    batch_a_list_of(fetched_book, batch_size)
}

/// The line that announces batch `p` (counted from 0) of `n`.
pub fn batch_label(p: usize, n: usize) -> (label: String)
    requires
        p < n,
    ensures
        label@ == "Batch "@ + decimal((p + 1) as nat) + "/"@ + decimal(n as nat),
{
    let mut label = String::new();
    push_text(&mut label, "Batch ");
    push_decimal(&mut label, p + 1);
    push_text(&mut label, "/");
    push_decimal(&mut label, n);
    label
}

/// The record that is written beside a book: the engine and its version,
/// the date, the book.
pub fn create_metadata_file(version: &str, date: String, book: Book) -> (record: CacheFile)
    ensures
        record.engine@ == "mx-scraper "@ + version@,
        record.date == date,
        record.book == book,
{
    let mut engine = String::new();
    push_text(&mut engine, "mx-scraper ");
    push_text(&mut engine, version);
    CacheFile { engine, date, book }
}

/// What the document behind a lazy link gives: the page with its real
/// URL and without its hint, or the reason why no URL was found.
pub open spec fn lazy_result(page: PageView, body: Seq<u8>) -> Result<PageView, Seq<char>> {
    match page.intermediate_link_hint {
        None => Ok(page),
        Some(hint) => if !valid_utf8(body) {
            Err("The document is not valid UTF-8"@)
        } else {
            match html_selection(decode_utf8(body), hint.selector, hint.attribute) {
                SelectionView::BadSelector => Err("Bad selector: "@ + hint.selector),
                SelectionView::NoMatch => Err(
                    "Could not find evaluate "@ + hint.selector + " at "@ + page.url,
                ),
                SelectionView::NoAttribute => Err(
                    "Retrieving attribute "@ + hint.attribute + " using "@ + hint.selector,
                ),
                SelectionView::Found(link) => match url_normal_form(link) {
                    None => Err("Not a URL: "@ + link),
                    Some(url) => Ok(PageView { url, intermediate_link_hint: None, ..page }),
                },
            }
        },
    }
}

/// The view of a page or an error message.
pub open spec fn page_result(r: Result<Page, String>) -> Result<PageView, Seq<char>> {
    match r {
        Ok(page) => Ok(page@),
        Err(e) => Err(e@),
    }
}

fn two_part_error(head: &str, a: &str, middle: &str, b: &str) -> (message: String)
    ensures
        message@ == head@ + a@ + middle@ + b@,
{
    let mut message = String::new();
    push_text(&mut message, head);
    push_text(&mut message, a);
    push_text(&mut message, middle);
    push_text(&mut message, b);
    message
}

/// Resolves the lazy link of `page` from the document `body` that its URL
/// points to: the first element that the selector of the hint matches
/// gives the real URL in the attribute that the hint names. A page
/// without a hint is returned as it is.
pub fn evaluate_lazy_ops(page: Page, body: Vec<u8>) -> (r: Result<Page, String>)
    ensures
        page_result(r) == lazy_result(page@, body@),
{
    let hint = match &page.intermediate_link_hint {
        None => {
            return Ok(page);
        },
        Some(hint) => hint,
    };
    let html = match text_of_bytes(body) {
        Some(html) => html,
        None => {
            let mut message = String::new();
            push_text(&mut message, "The document is not valid UTF-8");
            return Err(message);
        },
    };
    match select_attribute(html.as_str(), hint.selector.as_str(), hint.attribute.as_str()) {
        Selection::BadSelector => {
            let mut message = String::new();
            push_text(&mut message, "Bad selector: ");
            push_text(&mut message, hint.selector.as_str());
            Err(message)
        },
        Selection::NoMatch => Err(
            two_part_error(
                "Could not find evaluate ",
                hint.selector.as_str(),
                " at ",
                page.url.as_str(),
            ),
        ),
        Selection::NoAttribute => Err(
            two_part_error(
                "Retrieving attribute ",
                hint.attribute.as_str(),
                " using ",
                hint.selector.as_str(),
            ),
        ),
        Selection::Found(link) => match normalize_url(link.as_str()) {
            None => {
                let mut message = String::new();
                push_text(&mut message, "Not a URL: ");
                push_text(&mut message, link.as_str());
                Err(message)
            },
            Some(url) => Ok(
                Page {
                    url,
                    intermediate_link_hint: None,
                    title: page.title,
                    fetch_context: page.fetch_context,
                    number: page.number,
                    filename: page.filename,
                    metadata: page.metadata,
                },
            ),
        },
    }
}

/// What is to be done first for a page.
#[derive(Debug, Clone, Copy, PartialEq, Eq, Structural)]
pub enum PageStep {
    /// The file is there already: nothing is fetched.
    Skip,
    /// The URL of the page points to a document that holds the real URL:
    /// that document is fetched first.
    ResolveLink,
    /// The URL of the page is fetched.
    Fetch,
}

/// How the content of a page is fetched.
#[derive(Debug)]
pub enum PageFetch {
    /// By the downloader of the plugin.
    Custom { url: String },
    /// By a direct request.
    Direct { url: String },
}

/// What to do first for `page`: nothing where its file exists in the
/// staging or in the download directory, else resolve its link where it
/// has a hint, else fetch it.
pub fn download_page(page: &Page, tmp_exists: bool, down_exists: bool) -> (step: PageStep)
    ensures
        step == if tmp_exists || down_exists {
            PageStep::Skip
        } else if page.intermediate_link_hint is Some {
            PageStep::ResolveLink
        } else {
            PageStep::Fetch
        },
{
    if tmp_exists || down_exists {
        PageStep::Skip
    } else if page.intermediate_link_hint.is_some() {
        PageStep::ResolveLink
    } else {
        PageStep::Fetch
    }
}

/// How to fetch a page whose link is resolved: its URL must parse; then
/// the plugin's downloader is used where custom downloaders are enabled,
/// and a direct request otherwise.
pub fn page_fetch(use_custom_downloader: bool, page: &Page) -> (fetch: Result<PageFetch, String>)
    ensures
        match fetch {
            Ok(PageFetch::Custom { url }) => use_custom_downloader && url_normal_form(page.url@)
                == Some(url@),
            Ok(PageFetch::Direct { url }) => !use_custom_downloader && url_normal_form(page.url@)
                == Some(url@),
            Err(e) => url_normal_form(page.url@) is None && e@ == "Not a URL: "@ + page.url@,
        },
{
    match normalize_url(page.url.as_str()) {
        None => {
            let mut message = String::new();
            push_text(&mut message, "Not a URL: ");
            push_text(&mut message, page.url.as_str());
            Err(message)
        },
        Some(url) => {
            if use_custom_downloader {
                Ok(PageFetch::Custom { url })
            } else {
                Ok(PageFetch::Direct { url })
            }
        },
    }
}

/// The settings of a download, taken once when the download starts.
#[derive(Debug, Clone)]
pub struct DownloadSettings {
    pub meta_only: bool,
    /// The pause after each page, in milliseconds.
    pub delay_download: u32,
    pub verbose: bool,
    pub custom_downloader: bool,
    /// How many pages are downloaded at the same time.
    pub max_size_mini_batch: usize,
    /// How many bytes a path component may take.
    pub max_path_component: usize,
}

/// Where the download of a book stands.
#[derive(Debug, Clone, Copy, PartialEq, Eq, Structural)]
pub enum DownloadPhase {
    /// Nothing was done yet.
    Start,
    /// The metadata file is being written.
    Metadata,
    /// The staging directory of a chapter is being made.
    ChapterDir,
    /// Pages of a chapter are being downloaded.
    Pages,
    /// The staging directory is being moved to the download tree.
    Promotion,
    /// The download is over.
    Finished,
}

/// The download of one book.
#[derive(Debug)]
pub struct BookDownload {
    pub fetched: FetchResult,
    pub settings: DownloadSettings,
    /// The download and the staging directory of the book, and the
    /// metadata directory of its plugin.
    pub folders: DownloadFolder,
    /// Where the metadata file is written.
    pub metadata_path: Vec<String>,
    /// The name of the directory of each chapter.
    pub chapter_dirs: Vec<String>,
    pub phase: DownloadPhase,
    /// The chapter at hand.
    pub chapter: usize,
    /// The pages in flight are those from `from` up to `to`.
    pub from: usize,
    pub to: usize,
    /// One line per page of the chapter at hand that failed.
    pub failed: Vec<String>,
    /// How many pages were reported as saved.
    pub saved: usize,
}

/// The part of a download that changes from step to step.
#[verifier::ext_equal]
pub struct ProgressView {
    pub phase: DownloadPhase,
    pub chapter: nat,
    pub from: nat,
    pub to: nat,
    pub failed: Seq<Seq<char>>,
    pub saved: nat,
}

/// What the download wants done next.
#[derive(Debug)]
pub enum DownloadAction {
    /// Write the record of the book to `path`, making the directories
    /// above it.
    WriteMetadata { path: Vec<String> },
    /// Make the staging directory of a chapter, unless it exists.
    EnsureChapterDir { chapter: usize, path: Vec<String>, progress: String },
    /// Download pages `from..to` of a chapter, all at the same time, into
    /// `temp_dir`; a page whose file is in `temp_dir` or `down_dir` is
    /// skipped. Pause for `delay` milliseconds after each page.
    DownloadPages {
        chapter: usize,
        from: usize,
        to: usize,
        temp_dir: Vec<String>,
        down_dir: Vec<String>,
        delay: u32,
    },
    /// Unless `to` exists: make the directory above it and, where `from`
    /// exists, rename `from` to `to`.
    Promote { from: Vec<String>, to: Vec<String> },
    /// The download is over, with this result.
    Finish(Result<(), String>),
}

/// The view of a [`DownloadAction`].
#[verifier::ext_equal]
pub enum DownloadActionView {
    WriteMetadata { path: Seq<Seq<char>> },
    EnsureChapterDir { chapter: nat, path: Seq<Seq<char>>, progress: Seq<char> },
    DownloadPages {
        chapter: nat,
        from: nat,
        to: nat,
        temp_dir: Seq<Seq<char>>,
        down_dir: Seq<Seq<char>>,
        delay: u32,
    },
    Promote { from: Seq<Seq<char>>, to: Seq<Seq<char>> },
    Finish(Result<(), Seq<char>>),
}

impl View for DownloadAction {
    type V = DownloadActionView;

    open spec fn view(&self) -> DownloadActionView {
        match self {
            DownloadAction::WriteMetadata { path } => DownloadActionView::WriteMetadata {
                path: path.deep_view(),
            },
            DownloadAction::EnsureChapterDir {
                chapter,
                path,
                progress,
            } => DownloadActionView::EnsureChapterDir {
                chapter: *chapter as nat,
                path: path.deep_view(),
                progress: progress@,
            },
            DownloadAction::DownloadPages {
                chapter,
                from,
                to,
                temp_dir,
                down_dir,
                delay,
            } => DownloadActionView::DownloadPages {
                chapter: *chapter as nat,
                from: *from as nat,
                to: *to as nat,
                temp_dir: temp_dir.deep_view(),
                down_dir: down_dir.deep_view(),
                delay: *delay,
            },
            DownloadAction::Promote { from, to } => DownloadActionView::Promote {
                from: from.deep_view(),
                to: to.deep_view(),
            },
            DownloadAction::Finish(r) => DownloadActionView::Finish(
                match r {
                    Ok(_) => Ok(()),
                    Err(e) => Err(e@),
                },
            ),
        }
    }
}

/// What happened since the download last asked for something.
#[derive(Debug)]
pub enum DownloadEvent {
    /// The download is started.
    Begin,
    /// What was asked for was done.
    Done,
    /// What was asked for could not be done.
    Failed(String),
    /// The pages in flight ended; one outcome per page, in page order.
    Pages(Vec<Result<(), String>>),
}

/// The views of the outcomes of pages.
pub open spec fn page_outcomes(outcomes: Seq<Result<(), String>>) -> Seq<Result<(), Seq<char>>> {
    Seq::new(
        outcomes.len(),
        |i: int|
            match outcomes[i] {
                Ok(_) => Ok(()),
                Err(e) => Err(e@),
            },
    )
}

/// The line that reports a page that failed.
pub open spec fn failed_page(filename: Seq<char>, error: Seq<char>) -> Seq<char> {
    filename + ": "@ + error
}

/// The failures and the number of saved pages after the outcomes of the
/// pages from `from` on were taken in: a page that failed adds a line, a
/// page that did not counts as saved.
pub open spec fn recorded(
    pages: Seq<PageView>,
    from: int,
    outcomes: Seq<Result<(), Seq<char>>>,
    failed: Seq<Seq<char>>,
    saved: nat,
) -> (Seq<Seq<char>>, nat)
    decreases outcomes.len(),
{
    if outcomes.len() == 0 {
        (failed, saved)
    } else {
        let (f, s) = recorded(pages, from, outcomes.drop_last(), failed, saved);
        match outcomes.last() {
            Ok(_) => (f, s + 1),
            Err(e) => (f.push(failed_page(pages[from + outcomes.len() - 1].filename, e)), s),
        }
    }
}

/// Every outcome either adds a failure or a saved page.
pub proof fn lemma_recorded(
    pages: Seq<PageView>,
    from: int,
    outcomes: Seq<Result<(), Seq<char>>>,
    failed: Seq<Seq<char>>,
    saved: nat,
)
    ensures
        recorded(pages, from, outcomes, failed, saved).0.len() + recorded(
            pages,
            from,
            outcomes,
            failed,
            saved,
        ).1 == failed.len() + saved + outcomes.len(),
    decreases outcomes.len(),
{
    if outcomes.len() > 0 {
        lemma_recorded(pages, from, outcomes.drop_last(), failed, saved);
    }
}

/// Whether every page of a mini-batch was saved or was there already.
pub open spec fn all_saved(outcomes: Seq<Result<(), Seq<char>>>) -> bool {
    forall|i: int| 0 <= i < outcomes.len() ==> (#[trigger] outcomes[i]) is Ok
}

/// Pages that were all saved add no failure.
pub proof fn lemma_recorded_all_saved(
    pages: Seq<PageView>,
    from: int,
    outcomes: Seq<Result<(), Seq<char>>>,
    failed: Seq<Seq<char>>,
    saved: nat,
)
    requires
        all_saved(outcomes),
    ensures
        recorded(pages, from, outcomes, failed, saved) == (failed, saved + outcomes.len()),
    decreases outcomes.len(),
{
    if outcomes.len() > 0 {
        assert forall|i: int| 0 <= i < outcomes.drop_last().len() implies (
        #[trigger] outcomes.drop_last()[i]) is Ok by {
            assert(outcomes.drop_last()[i] == outcomes[i]);
        }
        lemma_recorded_all_saved(pages, from, outcomes.drop_last(), failed, saved);
        assert(outcomes[outcomes.len() - 1] is Ok);
    }
}

/// The number of pages before chapter `n` grows with `n`.
pub proof fn lemma_pages_before(book: BookView, a: int, b: int)
    requires
        0 <= a <= b,
    ensures
        pages_before(book, a) <= pages_before(book, b),
    decreases b - a,
{
    if a < b {
        lemma_pages_before(book, a, b - 1);
    }
}

/// The text shown while chapter `c` (counted from 0) is downloaded.
pub open spec fn chapter_progress(fetched: FetchResultView, verbose: bool, c: nat) -> Seq<char> {
    let position = "[ch. "@ + decimal(c + 1) + "/"@ + decimal(fetched.book.chapters.len())
        + "] :: "@ + resumed(fetched.query_term, 20);
    if verbose {
        (if fetched.cached {
            "cached"@
        } else {
            fetched.plugin_name
        }) + " | "@ + position + " | "@ + resumed(fetched.book.title, 40)
    } else {
        position
    }
}

impl BookDownload {
    /// The changing part of this download.
    pub open spec fn progress(&self) -> ProgressView {
        ProgressView {
            phase: self.phase,
            chapter: self.chapter as nat,
            from: self.from as nat,
            to: self.to as nat,
            failed: self.failed.deep_view(),
            saved: self.saved as nat,
        }
    }

    /// The book being downloaded.
    pub open spec fn book(&self) -> BookView {
        self.fetched@.book
    }

    /// The number of pages whose outcome is known.
    pub open spec fn settled(&self) -> nat {
        match self.phase {
            DownloadPhase::Start => 0,
            DownloadPhase::Metadata => 0,
            DownloadPhase::ChapterDir => pages_before(self.book(), self.chapter as int),
            DownloadPhase::Pages => pages_before(self.book(), self.chapter as int)
                + self.from as nat,
            DownloadPhase::Promotion => page_count(self.book()),
            DownloadPhase::Finished => (self.saved + self.failed.deep_view().len()) as nat,
        }
    }

    /// A download is well formed when its position lies within the book,
    /// when failures are only kept while pages of a chapter are in
    /// flight, and when every page whose outcome is known was either
    /// saved or is listed as failed.
    pub open spec fn wf(&self) -> bool {
        &&& self.chapter_dirs@.len() == self.book().chapters.len()
        &&& self.settings.max_size_mini_batch > 0
        &&& page_count(self.book()) < usize::MAX
        &&& self.chapter <= self.book().chapters.len()
        &&& (self.phase == DownloadPhase::ChapterDir || self.phase == DownloadPhase::Pages)
            ==> self.chapter < self.book().chapters.len()
        &&& self.phase == DownloadPhase::Pages ==> self.from < self.to
            <= self.book().chapters[self.chapter as int].pages.len()
        &&& (self.phase != DownloadPhase::Pages && self.phase != DownloadPhase::Finished)
            ==> self.failed.deep_view().len() == 0
        &&& self.saved + self.failed.deep_view().len() == self.settled()
    }

    /// The staging directory of chapter `c`.
    pub open spec fn temp_dir(&self, c: int) -> Seq<Seq<char>> {
        self.folders.temp.deep_view().push(self.chapter_dirs@[c]@)
    }

    /// The download directory of chapter `c`.
    pub open spec fn down_dir(&self, c: int) -> Seq<Seq<char>> {
        self.folders.download.deep_view().push(self.chapter_dirs@[c]@)
    }

    /// Whether `event` is what this download waits for.
    pub open spec fn expects(&self, event: DownloadEvent) -> bool {
        match self.phase {
            DownloadPhase::Start => event is Begin,
            DownloadPhase::Metadata => event is Done || event is Failed,
            DownloadPhase::ChapterDir => event is Done || event is Failed,
            DownloadPhase::Pages => event matches DownloadEvent::Pages(outcomes) && outcomes@.len()
                == self.to - self.from,
            DownloadPhase::Promotion => event is Done || event is Failed,
            DownloadPhase::Finished => false,
        }
    }

    /// The download turned to chapter `c`, with `saved` pages saved so
    /// far: it asks for the staging directory of that chapter or, where
    /// no chapter is left, for the promotion of the book.
    pub open spec fn at_chapter(&self, c: nat, saved: nat) -> (ProgressView, DownloadActionView) {
        if c < self.book().chapters.len() {
            (
                ProgressView {
                    phase: DownloadPhase::ChapterDir,
                    chapter: c,
                    from: 0,
                    to: 0,
                    failed: Seq::empty(),
                    saved,
                },
                DownloadActionView::EnsureChapterDir {
                    chapter: c,
                    path: self.temp_dir(c as int),
                    progress: chapter_progress(self.fetched@, self.settings.verbose, c),
                },
            )
        } else {
            (
                ProgressView {
                    phase: DownloadPhase::Promotion,
                    chapter: c,
                    from: 0,
                    to: 0,
                    failed: Seq::empty(),
                    saved,
                },
                DownloadActionView::Promote {
                    from: self.folders.temp.deep_view(),
                    to: self.folders.download.deep_view(),
                },
            )
        }
    }

    /// The download turned to the pages of chapter `c` from `from` on: it
    /// asks for the next mini-batch. Where no page is left, the chapter
    /// is over: with failures the book fails with the list of them, and
    /// without the download turns to the next chapter.
    pub open spec fn at_pages(&self, c: nat, from: nat, failed: Seq<Seq<char>>, saved: nat) -> (
        ProgressView,
        DownloadActionView,
    ) {
        let pages = self.book().chapters[c as int].pages.len();
        if from < pages {
            let to = if pages - from > self.settings.max_size_mini_batch {
                from + self.settings.max_size_mini_batch
            } else {
                pages as int
            };
            (
                ProgressView {
                    phase: DownloadPhase::Pages,
                    chapter: c,
                    from,
                    to: to as nat,
                    failed,
                    saved,
                },
                DownloadActionView::DownloadPages {
                    chapter: c,
                    from,
                    to: to as nat,
                    temp_dir: self.temp_dir(c as int),
                    down_dir: self.down_dir(c as int),
                    delay: self.settings.delay_download,
                },
            )
        } else if failed.len() > 0 {
            (
                ProgressView {
                    phase: DownloadPhase::Finished,
                    chapter: c,
                    from,
                    to: from,
                    failed,
                    saved,
                },
                DownloadActionView::Finish(Err(join(failed, "\n"@))),
            )
        } else {
            self.at_chapter(c + 1, saved)
        }
    }

    /// The download after it is over, with `result`.
    pub open spec fn at_end(&self, result: Result<(), Seq<char>>) -> (
        ProgressView,
        DownloadActionView,
    ) {
        (
            ProgressView { phase: DownloadPhase::Finished, ..self.progress() },
            DownloadActionView::Finish(result),
        )
    }

    /// One step of the download. The metadata file is written first; in
    /// metadata-only mode that is all. Then the chapters are taken in
    /// order, and the pages of a chapter in mini-batches. A chapter with
    /// a failed page ends the download. After the last chapter the book
    /// is promoted. A step that cannot be done ends the download with
    /// its error.
    pub open spec fn next(&self, event: DownloadEvent) -> (ProgressView, DownloadActionView) {
        match event {
            DownloadEvent::Begin => (
                ProgressView { phase: DownloadPhase::Metadata, ..self.progress() },
                DownloadActionView::WriteMetadata { path: self.metadata_path.deep_view() },
            ),
            DownloadEvent::Failed(e) => self.at_end(Err(e@)),
            DownloadEvent::Done => match self.phase {
                DownloadPhase::Metadata => if self.settings.meta_only {
                    self.at_end(Ok(()))
                } else {
                    self.at_chapter(0, 0)
                },
                DownloadPhase::ChapterDir => self.at_pages(
                    self.chapter as nat,
                    0,
                    Seq::empty(),
                    self.saved as nat,
                ),
                _ => self.at_end(Ok(())),
            },
            DownloadEvent::Pages(outcomes) => {
                let (failed, saved) = recorded(
                    self.book().chapters[self.chapter as int].pages,
                    self.from as int,
                    page_outcomes(outcomes@),
                    self.failed.deep_view(),
                    self.saved as nat,
                );
                self.at_pages(self.chapter as nat, self.to as nat, failed, saved)
            },
        }
    }

    /// A run over pages that are all saved, or that are there already as
    /// on a second run over a downloaded book, does not fail at its pages:
    /// after such a mini-batch the download goes on to more pages, to the
    /// next chapter or to the promotion, and no failure is kept.
    pub proof fn lemma_saved_pages_go_on(&self, outcomes: Vec<Result<(), String>>)
        requires
            self.wf(),
            self.phase == DownloadPhase::Pages,
            self.failed.deep_view().len() == 0,
            outcomes@.len() == self.to - self.from,
            all_saved(page_outcomes(outcomes@)),
        ensures
            !(self.next(DownloadEvent::Pages(outcomes)).1 is Finish),
            self.next(DownloadEvent::Pages(outcomes)).0.failed.len() == 0,
            self.next(DownloadEvent::Pages(outcomes)).0.phase != DownloadPhase::Finished,
    {
        lemma_recorded_all_saved(
            self.book().chapters[self.chapter as int].pages,
            self.from as int,
            page_outcomes(outcomes@),
            self.failed.deep_view(),
            self.saved as nat,
        );
    }

    /// A book is promoted only when every one of its pages was reported
    /// as saved.
    pub proof fn lemma_promotion_is_complete(&self)
        requires
            self.wf(),
            self.phase == DownloadPhase::Promotion,
        ensures
            self.saved == page_count(self.book()),
    {
    }

    fn progress_text(&self, c: usize) -> (text: String)
        requires
            c < self.book().chapters.len(),
        ensures
            text@ == chapter_progress(self.fetched@, self.settings.verbose, c as nat),
    {
        let mut position = String::new();
        push_text(&mut position, "[ch. ");
        assert(self.book().chapters.len() == self.fetched.book.chapters@.len());
        let count: usize = self.fetched.book.chapters.len();
        push_decimal(&mut position, c + 1);
        push_text(&mut position, "/");
        push_decimal(&mut position, count);
        push_text(&mut position, "] :: ");
        let term = resume_text(self.fetched.query_term.as_str(), Some(20));
        push_text(&mut position, term.as_str());
        if self.settings.verbose {
            let mut text = String::new();
            if self.fetched.cached {
                push_text(&mut text, "cached");
            } else {
                push_text(&mut text, self.fetched.plugin_name.as_str());
            }
            push_text(&mut text, " | ");
            push_text(&mut text, position.as_str());
            push_text(&mut text, " | ");
            let title = resume_text(self.fetched.book.title.as_str(), Some(40));
            push_text(&mut text, title.as_str());
            text
        } else {
            position
        }
    }

    fn enter_chapter(&mut self, c: usize, saved: usize) -> (action: DownloadAction)
        requires
            old(self).chapter_dirs@.len() == old(self).book().chapters.len(),
            c <= old(self).book().chapters.len(),
        ensures
            (final(self).progress(), action@) == old(self).at_chapter(c as nat, saved as nat),
            final(self).fetched == old(self).fetched,
            final(self).settings == old(self).settings,
            final(self).folders == old(self).folders,
            final(self).metadata_path == old(self).metadata_path,
            final(self).chapter_dirs == old(self).chapter_dirs,
    {
        self.chapter = c;
        self.from = 0;
        self.to = 0;
        self.failed = Vec::new();
        self.saved = saved;
        assert(self.failed.deep_view() =~= Seq::empty());
        assert(self.book().chapters.len() == self.fetched.book.chapters@.len());
        if c < self.fetched.book.chapters.len() {
            self.phase = DownloadPhase::ChapterDir;
            DownloadAction::EnsureChapterDir {
                chapter: c,
                path: join_path(&self.folders.temp, self.chapter_dirs[c].as_str()),
                progress: self.progress_text(c),
            }
        } else {
            self.phase = DownloadPhase::Promotion;
            DownloadAction::Promote {
                from: crate::plugins::copy_path(&self.folders.temp),
                to: crate::plugins::copy_path(&self.folders.download),
            }
        }
    }

    fn enter_pages(&mut self, from: usize) -> (action: DownloadAction)
        requires
            old(self).chapter_dirs@.len() == old(self).book().chapters.len(),
            old(self).chapter < old(self).book().chapters.len(),
            from <= old(self).book().chapters[old(self).chapter as int].pages.len(),
            old(self).settings.max_size_mini_batch > 0,
        ensures
            (final(self).progress(), action@) == old(self).at_pages(
                old(self).chapter as nat,
                from as nat,
                old(self).failed.deep_view(),
                old(self).saved as nat,
            ),
            final(self).fetched == old(self).fetched,
            final(self).settings == old(self).settings,
            final(self).folders == old(self).folders,
            final(self).metadata_path == old(self).metadata_path,
            final(self).chapter_dirs == old(self).chapter_dirs,
    {
        let c: usize = self.chapter;
        assert(self.book().chapters.len() == self.fetched.book.chapters@.len());
        assert(self.book().chapters[c as int].pages.len()
            == self.fetched.book.chapters@[c as int].pages@.len());
        let count: usize = self.fetched.book.chapters.len();
        let pages: usize = self.fetched.book.chapters[c].pages.len();
        assert(self.failed.deep_view().len() == self.failed@.len());
        if from < pages {
            let to: usize = if pages - from > self.settings.max_size_mini_batch {
                from + self.settings.max_size_mini_batch
            } else {
                pages
            };
            self.phase = DownloadPhase::Pages;
            self.from = from;
            self.to = to;
            DownloadAction::DownloadPages {
                chapter: c,
                from,
                to,
                temp_dir: join_path(&self.folders.temp, self.chapter_dirs[c].as_str()),
                down_dir: join_path(&self.folders.download, self.chapter_dirs[c].as_str()),
                delay: self.settings.delay_download,
            }
        } else if self.failed.len() > 0 {
            self.phase = DownloadPhase::Finished;
            self.from = from;
            self.to = from;
            let report = join_all(&self.failed, "\n");
            DownloadAction::Finish(Err(report))
        } else {
            let saved: usize = self.saved;
            self.enter_chapter(c + 1, saved)
        }
    }

    fn record(&mut self, outcomes: Vec<Result<(), String>>)
        requires
            old(self).wf(),
            old(self).phase == DownloadPhase::Pages,
            outcomes@.len() == old(self).to - old(self).from,
        ensures
            (final(self).failed.deep_view(), final(self).saved as nat) == recorded(
                old(self).book().chapters[old(self).chapter as int].pages,
                old(self).from as int,
                page_outcomes(outcomes@),
                old(self).failed.deep_view(),
                old(self).saved as nat,
            ),
            final(self).fetched == old(self).fetched,
            final(self).settings == old(self).settings,
            final(self).folders == old(self).folders,
            final(self).metadata_path == old(self).metadata_path,
            final(self).chapter_dirs == old(self).chapter_dirs,
            final(self).phase == old(self).phase,
            final(self).chapter == old(self).chapter,
            final(self).from == old(self).from,
            final(self).to == old(self).to,
    {
        let ghost pages = self.book().chapters[self.chapter as int].pages;
        let ghost all = page_outcomes(outcomes@);
        let ghost failed0 = self.failed.deep_view();
        let ghost saved0 = self.saved as nat;
        let ghost start = *self;
        let c: usize = self.chapter;
        let mut k: usize = 0;
        assert(all.take(0) =~= Seq::empty());
        proof {
            lemma_pages_before(self.book(), c as int + 1, self.book().chapters.len() as int);
        }
        while k < outcomes.len()
            invariant
                k <= outcomes.len(),
                all == page_outcomes(outcomes@),
                pages == self.book().chapters[c as int].pages,
                c == self.chapter,
                c < self.book().chapters.len(),
                outcomes@.len() == self.to - self.from,
                self.to <= pages.len(),
                (self.failed.deep_view(), self.saved as nat) == recorded(
                    pages,
                    self.from as int,
                    all.take(k as int),
                    failed0,
                    saved0,
                ),
                saved0 + failed0.len() == pages_before(self.book(), c as int) + self.from,
                pages_before(self.book(), c as int + 1) <= page_count(self.book()) < usize::MAX,
                self.fetched == start.fetched,
                self.settings == start.settings,
                self.folders == start.folders,
                self.metadata_path == start.metadata_path,
                self.chapter_dirs == start.chapter_dirs,
                self.phase == start.phase,
                self.chapter == start.chapter,
                self.from == start.from,
                self.to == start.to,
            decreases outcomes.len() - k,
        {
            let ghost before = self.failed.deep_view();
            proof {
                assert(all.take(k + 1).drop_last() == all.take(k as int));
                lemma_recorded(pages, self.from as int, all.take(k as int), failed0, saved0);
                assert(self.book().chapters.len() == self.fetched.book.chapters@.len());
                assert(pages.len() == self.fetched.book.chapters@[c as int].pages@.len());
            }
            match &outcomes[k] {
                Ok(_) => {
                    self.saved = self.saved + 1;
                },
                Err(e) => {
                    let mut line = String::new();
                    let index: usize = self.from + k;
                    push_text(
                        &mut line,
                        self.fetched.book.chapters[c].pages[index].filename.as_str(),
                    );
                    push_text(&mut line, ": ");
                    push_text(&mut line, e.as_str());
                    assert(line@ == failed_page(pages[self.from + k].filename, e@));
                    self.failed.push(line);
                    assert(self.failed.deep_view() =~= before.push(line@));
                },
            }
            k += 1;
        }
        assert(all.take(outcomes.len() as int) == all);
    }

    /// Takes the download one step further.
    pub fn step(&mut self, event: DownloadEvent) -> (action: DownloadAction)
        requires
            old(self).wf(),
            old(self).expects(event),
        ensures
            final(self).wf(),
            final(self).progress() == old(self).next(event).0,
            action@ == old(self).next(event).1,
            action is Promote ==> final(self).saved == page_count(final(self).book()),
            final(self).fetched == old(self).fetched,
            final(self).settings == old(self).settings,
            final(self).folders == old(self).folders,
            final(self).metadata_path == old(self).metadata_path,
            final(self).chapter_dirs == old(self).chapter_dirs,
    {
        proof {
            lemma_pages_before(self.book(), 0, self.book().chapters.len() as int);
            if self.chapter < self.book().chapters.len() {
                lemma_pages_before(
                    self.book(),
                    self.chapter as int + 1,
                    self.book().chapters.len() as int,
                );
            }
        }
        match event {
            DownloadEvent::Begin => {
                self.phase = DownloadPhase::Metadata;
                DownloadAction::WriteMetadata {
                    path: crate::plugins::copy_path(&self.metadata_path),
                }
            },
            DownloadEvent::Failed(e) => {
                self.phase = DownloadPhase::Finished;
                DownloadAction::Finish(Err(e))
            },
            DownloadEvent::Done => match self.phase {
                DownloadPhase::Metadata => {
                    if self.settings.meta_only {
                        self.phase = DownloadPhase::Finished;
                        DownloadAction::Finish(Ok(()))
                    } else {
                        self.enter_chapter(0, 0)
                    }
                },
                DownloadPhase::ChapterDir => {
                    let action = self.enter_pages(0);
                    action
                },
                _ => {
                    self.phase = DownloadPhase::Finished;
                    DownloadAction::Finish(Ok(()))
                },
            },
            DownloadEvent::Pages(outcomes) => {
                proof {
                    lemma_recorded(
                        self.book().chapters[self.chapter as int].pages,
                        self.from as int,
                        page_outcomes(outcomes@),
                        self.failed.deep_view(),
                        self.saved as nat,
                    );
                }
                self.record(outcomes);
                let to: usize = self.to;
                self.enter_pages(to)
            },
        }
    }
}

/// Whether `download` is the download of `fetch_result` before its first
/// step: the book goes to `{root}/{plugin}/{directory of the book}` in
/// the download and in the staging tree, each chapter to a directory
/// named after its title, and the metadata file to the metadata tree in
/// metadata-only mode and to the staging tree otherwise.
pub open spec fn is_planned(
    download: BookDownload,
    fetch_result: FetchResult,
    settings: DownloadSettings,
    roots: DownloadFolder,
) -> bool {
    let book = fetch_result@.book;
    let dir = book_dir(book.title, fetch_result@.query_term, fetch_result@.plugin_name);
    &&& download.wf()
    &&& download.phase == DownloadPhase::Start
    &&& download.fetched == fetch_result
    &&& download.settings == settings
    &&& download.folders.download.deep_view() == roots.download.deep_view().push(
        fetch_result@.plugin_name,
    ).push(dir)
    &&& download.folders.temp.deep_view() == roots.temp.deep_view().push(
        fetch_result@.plugin_name,
    ).push(dir)
    &&& download.folders.metadata.deep_view() == roots.metadata.deep_view().push(
        fetch_result@.plugin_name,
    )
    &&& download.metadata_path.deep_view() == (if settings.meta_only {
        roots.metadata.deep_view()
    } else {
        roots.temp.deep_view()
    }).push(fetch_result@.plugin_name).push(dir).push(metadata_name(book.source_id))
    &&& forall|c: int|
        0 <= c < book.chapters.len() ==> (#[trigger] download.chapter_dirs@[c])@ == as_path(
            book.chapters[c].title,
            None,
            settings.max_path_component as nat,
        )
}

/// Prepares the download of a book that was resolved.
pub fn download_book(fetch_result: FetchResult, settings: DownloadSettings, roots: &DownloadFolder) -> (download:
    BookDownload)
    requires
        settings.max_size_mini_batch > 0,
        page_count(fetch_result@.book) < usize::MAX,
    ensures
        is_planned(download, fetch_result, settings, *roots),
{
    let term = fetch_result.query_term.as_str();
    let plugin = fetch_result.plugin_name.as_str();
    let folders = fetch_result.book.get_download_folders(term, plugin, roots);
    let metadata_path = if settings.meta_only {
        fetch_result.book.get_metadata_dest_path(term, plugin, roots)
    } else {
        fetch_result.book.get_metadata_path(term, plugin, roots)
    };
    let mut chapter_dirs: Vec<String> = Vec::new();
    let mut c: usize = 0;
    let ghost book = fetch_result@.book;
    assert(book.chapters.len() == fetch_result.book.chapters@.len());
    while c < fetch_result.book.chapters.len()
        invariant
            c <= fetch_result.book.chapters.len(),
            book == fetch_result@.book,
            book.chapters.len() == fetch_result.book.chapters@.len(),
            chapter_dirs@.len() == c,
            forall|k: int|
                0 <= k < c ==> (#[trigger] chapter_dirs@[k])@ == as_path(
                    book.chapters[k].title,
                    None,
                    settings.max_path_component as nat,
                ),
        decreases fetch_result.book.chapters.len() - c,
    {
        assert(book.chapters[c as int].title == fetch_result.book.chapters@[c as int].title@);
        let dir = sanitize_string_as_path_within(
            fetch_result.book.chapters[c].title.as_str(),
            None,
            settings.max_path_component,
        );
        chapter_dirs.push(dir);
        c += 1;
    }
    let download = BookDownload {
        fetched: fetch_result,
        settings,
        folders,
        metadata_path,
        chapter_dirs,
        phase: DownloadPhase::Start,
        chapter: 0,
        from: 0,
        to: 0,
        failed: Vec::new(),
        saved: 0,
    };
    download
}

/// Prepares the download of a book, or gives `None` where the mini-batch
/// size is 0 or where the book has more pages than can be counted.
pub fn try_download_book(
    fetch_result: FetchResult,
    settings: DownloadSettings,
    roots: &DownloadFolder,
) -> (download: Option<BookDownload>)
    ensures
        download is Some == (settings.max_size_mini_batch > 0 && page_count(fetch_result@.book)
            < usize::MAX),
        download matches Some(d) ==> is_planned(d, fetch_result, settings, *roots),
{
    if settings.max_size_mini_batch == 0 || fetch_result.count_pages() == usize::MAX {
        return None;
    }
    Some(download_book(fetch_result, settings, roots))
}

} // verus!
