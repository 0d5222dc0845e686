//! The plugin registry and the decisions taken while a term is resolved.

pub mod gallery_dl;

use crate::outside::{debug_form, debug_quoted};
use crate::schemas::book::{Book, BookView};
use crate::schemas::config::{Config};
use crate::cli::fetch::{split_words, words};
use crate::text::{join, join_all, push_text, same_text};
use vstd::prelude::*;

verus! {

/// The name of the plugin that is always installed.
pub open spec fn static_plugin() -> Seq<char> {
    "gallery-dl"@
}

/// A term that was resolved.
#[derive(Debug, Clone)]
pub struct FetchResult {
    pub query_term: String,
    pub book: Book,
    pub plugin_name: String,
    pub cached: bool,
}

/// The view of a [`FetchResult`].
pub struct FetchResultView {
    pub query_term: Seq<char>,
    pub book: BookView,
    pub plugin_name: Seq<char>,
    pub cached: bool,
}

impl DeepView for FetchResult {
    type V = FetchResultView;

    open spec fn deep_view(&self) -> FetchResultView {
        FetchResultView {
            query_term: self.query_term@,
            book: self.book@,
            plugin_name: self.plugin_name@,
            cached: self.cached,
        }
    }
}

impl View for FetchResult {
    type V = FetchResultView;

    open spec fn view(&self) -> FetchResultView {
        self.deep_view()
    }
}

/// The view of a fetch result or an error message.
pub open spec fn fetch_outcome(r: Result<FetchResult, String>) -> Result<FetchResultView, Seq<char>> {
    match r {
        Ok(f) => Ok(f@),
        Err(e) => Err(e@),
    }
}

/// The number of pages in the first `n` chapters of `book`.
pub open spec fn pages_before(book: BookView, n: int) -> nat
    decreases n,
{
    if n <= 0 {
        0
    } else {
        pages_before(book, n - 1) + book.chapters[n - 1].pages.len()
    }
}

/// The number of pages of `book`.
pub open spec fn page_count(book: BookView) -> nat {
    pages_before(book, book.chapters.len() as int)
}

impl FetchResult {
    /// The number of pages of the book, or `usize::MAX` where there are
    /// more.
    pub fn count_pages(&self) -> (total: usize)
        ensures
            total == if page_count(self.book@) > usize::MAX {
                usize::MAX as nat
            } else {
                page_count(self.book@)
            },
    {
        let mut total: usize = 0;
        let mut i: usize = 0;
        while i < self.book.chapters.len()
            invariant
                i <= self.book.chapters.len(),
                total == if pages_before(self.book@, i as int) > usize::MAX {
                    usize::MAX as nat
                } else {
                    pages_before(self.book@, i as int)
                },
            decreases self.book.chapters.len() - i,
        {
            assert(self.book@.chapters[i as int].pages.len() == self.book.chapters@[i as int].pages@.len());
            total = total.saturating_add(self.book.chapters[i].pages.len());
            i += 1;
        }
        total
    }
}

/// The registry of plugins: their names, in the order in which they are
/// asked.
#[derive(Debug, Clone)]
pub struct PluginManager {
    plugins: Vec<String>,
}

/// Whether `name` is made of more than one word, that is whether white
/// space parts it.
pub open spec fn has_many_words(name: Seq<char>) -> bool {
    words(name).len() > 1
}

/// The error for a plugin that is not registered, as `assert_exists`
/// words it.
pub open spec fn missing_plugin(name: Seq<char>) -> Seq<char> {
    "Plugin named "@ + debug_form(name) + " does not exist"@
}

/// The error for a plugin that is not registered, as `fetch` words it.
pub open spec fn unknown_plugin(name: Seq<char>) -> Seq<char> {
    "No plugin named "@ + debug_form(name)
}

/// The error for a plugin whose name is made of more than one word.
pub open spec fn invalid_plugin(name: Seq<char>) -> Seq<char> {
    "Invalid "@ + debug_form(name) + ": plugin name cannot contain whitespaces"@
}

/// The error when no plugin could be tried at all.
pub open spec fn no_support(term: Seq<char>) -> Seq<char> {
    "Cannot auto-detect plugin that supports the term "@ + debug_form(term)
        + "\nYou can try with --plugin <PLUGIN_NAME>"@
}

/// The line that reports what went wrong with one plugin.
pub open spec fn issue_line(plugin: Seq<char>, error: Seq<char>) -> Seq<char> {
    "  - Plugin "@ + plugin + ": "@ + error
}

/// The error that lists the issues of all the plugins that were tried.
pub open spec fn issue_report(issues: Seq<Seq<char>>) -> Seq<char> {
    "\n"@ + join(issues, "\n"@)
}

/// Tells whether `name` is made of more than one word.
pub fn name_has_many_words(name: &str) -> (r: bool)
    ensures
        r == has_many_words(name@),
{
    let found = split_words(name);
    found.len() > 1
}

/// How a term is to be resolved by one plugin.
#[derive(Debug, Clone, Copy, PartialEq, Eq, Structural)]
pub enum FetchStep {
    /// Read the book from its cache file.
    ReadCache,
    /// Ask the plugin for the book.
    Resolve,
}

/// What is left to do for a page after the plugin was asked to download
/// it.
#[derive(Debug, Clone, Copy, PartialEq, Eq, Structural)]
pub enum CustomDownload {
    /// The plugin saved the page.
    Saved,
    /// The plugin has no downloader: the page is to be fetched directly.
    FetchDirectly,
}

/// What remains to be done once a book is at hand.
#[derive(Debug)]
pub struct FetchOutcome {
    /// What the fetch comes to.
    pub result: Result<FetchResult, String>,
    /// Whether the book is to be written to its cache file.
    pub store: bool,
    /// How long to pause afterwards, in milliseconds.
    pub pause: u32,
}

/// The error for a cache file that cannot be read as a book.
pub open spec fn cache_failure(term: Seq<char>, path: Seq<char>, cause: Seq<char>) -> Seq<char> {
    "Deserializing cache file for term "@ + term + " located at "@ + debug_form(path) + ": "@
        + cause
}

impl PluginManager {
    /// The names of the plugins, in registration order.
    pub closed spec fn names(&self) -> Seq<Seq<char>> {
        self.plugins.deep_view()
    }

    /// The registry without plugins.
    pub fn new() -> (manager: Self)
        ensures
            manager.names() == Seq::<Seq<char>>::empty(),
    {
        let manager = Self { plugins: Vec::new() };
        assert(manager.names() =~= Seq::<Seq<char>>::empty());
        manager
    }

    /// A list of all installed plugins.
    pub fn list_plugins(&self) -> (names: Vec<String>)
        ensures
            names.deep_view() == self.names(),
    {
        let mut names: Vec<String> = Vec::new();
        let mut i: usize = 0;
        assert(names.deep_view() =~= self.names().take(0));
        while i < self.plugins.len()
            invariant
                i <= self.plugins.len(),
                names.deep_view() == self.names().take(i as int),
            decreases self.plugins.len() - i,
        {
            let ghost before = names.deep_view();
            names.push(self.plugins[i].clone());
            assert(names.deep_view() =~= before.push(self.plugins@[i as int]@));
            assert(names.deep_view() =~= self.names().take(i + 1));
            i += 1;
        }
        assert(self.names().take(self.plugins.len() as int) == self.names());
        names
    }

    /// Whether a plugin named `name` is registered.
    pub fn has_plugin(&self, name: &str) -> (r: bool)
        ensures
            r == self.names().contains(name@),
    {
        let mut i: usize = 0;
        while i < self.plugins.len()
            invariant
                i <= self.plugins.len(),
                forall|k: int| 0 <= k < i ==> self.names()[k] != name@,
            decreases self.plugins.len() - i,
        {
            if same_text(self.plugins[i].as_str(), name) {
                assert(self.names()[i as int] == name@);
                return true;
            }
            i += 1;
        }
        false
    }

    /// Fails if no plugin is named `plugin_name`.
    pub fn assert_exists(&self, plugin_name: String) -> (r: Result<(), String>)
        ensures
            match r {
                Ok(_) => self.names().contains(plugin_name@),
                Err(e) => !self.names().contains(plugin_name@) && e@ == missing_plugin(
                    plugin_name@,
                ),
            },
    {
        if !self.has_plugin(plugin_name.as_str()) {
            let mut message = String::new();
            push_text(&mut message, "Plugin named ");
            let quoted = debug_quoted(plugin_name.as_str());
            push_text(&mut message, quoted.as_str());
            push_text(&mut message, " does not exist");
            return Err(message);
        }
        Ok(())
    }

    /// Installs the plugins: those found under the plugin directory, in
    /// the order given, then the static one. A found plugin whose name
    /// is made of more than one word stops the installation, and nothing
    /// is installed.
    pub fn init(&mut self, found: Vec<String>) -> (r: Result<(), String>)
        ensures
            match r {
                Ok(_) => {
                    &&& forall|i: int|
                        0 <= i < found@.len() ==> !has_many_words(#[trigger] found.deep_view()[i])
                    &&& final(self).names() == found.deep_view().push(static_plugin())
                },
                Err(e) => {
                    &&& final(self).names() == old(self).names()
                    &&& exists|i: int|
                        {
                            &&& 0 <= i < found@.len()
                            &&& forall|k: int|
                                0 <= k < i ==> !has_many_words(#[trigger] found.deep_view()[k])
                            &&& has_many_words(#[trigger] found.deep_view()[i])
                            &&& e@ == invalid_plugin(found.deep_view()[i])
                        }
                },
            },
    {
        let mut i: usize = 0;
        while i < found.len()
            invariant
                i <= found.len(),
                self.names() == old(self).names(),
                forall|k: int| 0 <= k < i ==> !has_many_words(#[trigger] found.deep_view()[k]),
            decreases found.len() - i,
        {
            assert(found.deep_view()[i as int] == found@[i as int]@);
            if name_has_many_words(found[i].as_str()) {
                let mut message = String::new();
                push_text(&mut message, "Invalid ");
                let quoted = debug_quoted(found[i].as_str());
                push_text(&mut message, quoted.as_str());
                push_text(&mut message, ": plugin name cannot contain whitespaces");
                assert(message@ == invalid_plugin(found.deep_view()[i as int]));
                return Err(message);
            }
            i += 1;
        }
        let mut plugins = found;
        let ghost before = plugins.deep_view();
        let mut name = String::new();
        push_text(&mut name, "gallery-dl");
        plugins.push(name);
        assert(plugins.deep_view() =~= before.push(static_plugin()));
        self.plugins = plugins;
        Ok(())
    }

    /// The folders that must exist before anything is fetched, in the
    /// order in which they are made: cache, staging, download, metadata,
    /// plugins.
    pub fn prepare_folders(config: &Config) -> (folders: Vec<Vec<String>>)
        ensures
            folders@.len() == 5,
            folders@[0].deep_view() == config.cache.folder.deep_view(),
            folders@[1].deep_view() == config.download_folder.temp.deep_view(),
            folders@[2].deep_view() == config.download_folder.download.deep_view(),
            folders@[3].deep_view() == config.download_folder.metadata.deep_view(),
            folders@[4].deep_view() == config.plugins.location.deep_view(),
    {
        let mut folders: Vec<Vec<String>> = Vec::new();
        folders.push(copy_path(&config.cache.folder));
        folders.push(copy_path(&config.download_folder.temp));
        folders.push(copy_path(&config.download_folder.download));
        folders.push(copy_path(&config.download_folder.metadata));
        folders.push(copy_path(&config.plugins.location));
        folders
    }

    /// Starts a fetch of `term` by the plugin `plugin_name`: the book is
    /// read from the cache where caching is enabled and the cache file
    /// exists, and asked of the plugin otherwise. Fails if no plugin has
    /// that name.
    pub fn fetch(&self, plugin_name: &str, enable_cache: bool, cache_exists: bool) -> (step: Result<
        FetchStep,
        String,
    >)
        ensures
            match step {
                Ok(s) => self.names().contains(plugin_name@) && s == if enable_cache
                    && cache_exists {
                    FetchStep::ReadCache
                } else {
                    FetchStep::Resolve
                },
                Err(e) => !self.names().contains(plugin_name@) && e@ == unknown_plugin(
                    plugin_name@,
                ),
            },
    {
        if !self.has_plugin(plugin_name) {
            let mut message = String::new();
            push_text(&mut message, "No plugin named ");
            let quoted = debug_quoted(plugin_name);
            push_text(&mut message, quoted.as_str());
            return Err(message);
        }
        Ok(Self::fetch_by_plugin(enable_cache, cache_exists))
    }

    /// Where the book comes from: the cache where caching is enabled and
    /// the cache file exists, else the plugin.
    pub fn fetch_by_plugin(enable_cache: bool, cache_exists: bool) -> (step: FetchStep)
        ensures
            step == if enable_cache && cache_exists {
                FetchStep::ReadCache
            } else {
                FetchStep::Resolve
            },
    {
        if enable_cache && cache_exists {
            FetchStep::ReadCache
        } else {
            FetchStep::Resolve
        }
    }

    /// Ends a fetch that read the cache file at `path`: a book that was
    /// read is the result, marked as cached; a file that could not be
    /// read as a book fails the term. Nothing is stored.
    pub fn from_cache(
        term: String,
        plugin_name: String,
        path: &str,
        read: Result<Book, String>,
        pause: u32,
    ) -> (outcome: FetchOutcome)
        ensures
            !outcome.store,
            outcome.pause == pause,
            fetch_outcome(outcome.result) == match read {
                Ok(book) => Ok(
                    FetchResultView {
                        query_term: term@,
                        book: book@,
                        plugin_name: plugin_name@,
                        cached: true,
                    },
                ),
                Err(cause) => Err(cache_failure(term@, path@, cause@)),
            },
    {
        match read {
            Ok(book) => FetchOutcome {
                result: Ok(FetchResult { query_term: term, book, plugin_name, cached: true }),
                store: false,
                pause,
            },
            Err(cause) => {
                let mut message = String::new();
                push_text(&mut message, "Deserializing cache file for term ");
                push_text(&mut message, term.as_str());
                push_text(&mut message, " located at ");
                let quoted = debug_quoted(path);
                push_text(&mut message, quoted.as_str());
                push_text(&mut message, ": ");
                push_text(&mut message, cause.as_str());
                FetchOutcome { result: Err(message), store: false, pause }
            },
        }
    }

    /// Ends a fetch that asked the plugin: a book that was resolved is the
    /// result, not marked as cached, and it is stored where caching is
    /// enabled; the error of the plugin fails the term.
    pub fn from_plugin(
        term: String,
        plugin_name: String,
        enable_cache: bool,
        resolved: Result<Book, String>,
        pause: u32,
    ) -> (outcome: FetchOutcome)
        ensures
            outcome.pause == pause,
            outcome.store == (enable_cache && resolved is Ok),
            fetch_outcome(outcome.result) == match resolved {
                Ok(book) => Ok(
                    FetchResultView {
                        query_term: term@,
                        book: book@,
                        plugin_name: plugin_name@,
                        cached: false,
                    },
                ),
                Err(e) => Err(e@),
            },
    {
        match resolved {
            Ok(book) => FetchOutcome {
                result: Ok(FetchResult { query_term: term, book, plugin_name, cached: false }),
                store: enable_cache,
                pause,
            },
            Err(e) => FetchOutcome { result: Err(e), store: false, pause },
        }
    }

    /// Starts the search for a plugin that resolves `term`.
    pub fn auto_fetch(&self, term: String) -> (search: AutoFetch)
        ensures
            search.wf(),
            search@ == (AutoFetchView {
                term: term@,
                plugins: self.names(),
                index: 0,
                issues: Seq::empty(),
                phase: AutoPhase::Idle,
            }),
    {
        let search = AutoFetch {
            term,
            plugins: self.list_plugins(),
            index: 0,
            issues: Vec::new(),
            phase: AutoPhase::Idle,
        };
        assert(search.issues.deep_view() =~= Seq::empty());
        search
    }

    /// What the custom download of a page comes to. `None` tells that the
    /// plugin has no downloader of its own: the page is then to be fetched
    /// by a direct request. A downloader that ran has saved the page or
    /// fails it.
    pub fn download_url(outcome: Option<Result<(), String>>) -> (r: Result<CustomDownload, String>)
        ensures
            match outcome {
                Some(Ok(_)) => r == Ok::<CustomDownload, String>(CustomDownload::Saved),
                Some(Err(e)) => r == Err::<CustomDownload, String>(e),
                None => r == Ok::<CustomDownload, String>(CustomDownload::FetchDirectly),
            },
    {
        match outcome {
            Some(Ok(_)) => Ok(CustomDownload::Saved),
            Some(Err(e)) => Err(e),
            None => Ok(CustomDownload::FetchDirectly),
        }
    }
}

/// A copy of `path`.
pub fn copy_path(path: &Vec<String>) -> (out: Vec<String>)
    ensures
        out.deep_view() == path.deep_view(),
{
    let mut out: Vec<String> = Vec::new();
    let mut i: usize = 0;
    assert(out.deep_view() =~= path.deep_view().take(0));
    while i < path.len()
        invariant
            i <= path.len(),
            out.deep_view() == path.deep_view().take(i as int),
        decreases path.len() - i,
    {
        let ghost before = out.deep_view();
        out.push(path[i].clone());
        assert(out.deep_view() =~= before.push(path@[i as int]@));
        assert(out.deep_view() =~= path.deep_view().take(i + 1));
        i += 1;
    }
    assert(path.deep_view().take(path.len() as int) == path.deep_view());
    out
}

/// What a search for a plugin waits for.
#[derive(Debug, Clone, Copy, PartialEq, Eq, Structural)]
pub enum AutoPhase {
    /// Nothing was asked yet.
    Idle,
    /// The plugin at `index` was asked whether it supports the term.
    Asked,
    /// The plugin at `index` was asked to fetch the term.
    Fetching,
    /// The search is over.
    Finished,
}

/// A search, in registration order, for a plugin that resolves a term.
#[derive(Debug)]
pub struct AutoFetch {
    pub term: String,
    pub plugins: Vec<String>,
    pub index: usize,
    pub issues: Vec<String>,
    pub phase: AutoPhase,
}

/// The view of an [`AutoFetch`].
pub struct AutoFetchView {
    pub term: Seq<char>,
    pub plugins: Seq<Seq<char>>,
    pub index: nat,
    pub issues: Seq<Seq<char>>,
    pub phase: AutoPhase,
}

/// What the search wants done next.
#[derive(Debug)]
pub enum AutoAction {
    /// Ask the plugin whether it supports the term.
    AskSupport { plugin: String },
    /// Fetch the term with the plugin.
    Fetch { plugin: String },
    /// The search is over, with this result.
    Finish(Result<FetchResult, String>),
}

/// What happened since the search last asked for something.
#[derive(Debug)]
pub enum AutoEvent {
    /// The search is started.
    Begin,
    /// The plugin answered whether it supports the term.
    Support(Result<bool, String>),
    /// The fetch with the plugin ended.
    Fetched(Result<FetchResult, String>),
}

/// The view of an [`AutoAction`].
pub enum AutoActionView {
    AskSupport { plugin: Seq<char> },
    Fetch { plugin: Seq<char> },
    Finish(Result<FetchResultView, Seq<char>>),
}

/// The view of an [`AutoEvent`].
pub enum AutoEventView {
    Begin,
    Support(Result<bool, Seq<char>>),
    Fetched(Result<FetchResultView, Seq<char>>),
}

impl View for AutoFetch {
    type V = AutoFetchView;

    open spec fn view(&self) -> AutoFetchView {
        AutoFetchView {
            term: self.term@,
            plugins: self.plugins.deep_view(),
            index: self.index as nat,
            issues: self.issues.deep_view(),
            phase: self.phase,
        }
    }
}

impl View for AutoAction {
    type V = AutoActionView;

    open spec fn view(&self) -> AutoActionView {
        match self {
            AutoAction::AskSupport { plugin } => AutoActionView::AskSupport { plugin: plugin@ },
            AutoAction::Fetch { plugin } => AutoActionView::Fetch { plugin: plugin@ },
            AutoAction::Finish(r) => AutoActionView::Finish(fetch_outcome(*r)),
        }
    }
}

impl View for AutoEvent {
    type V = AutoEventView;

    open spec fn view(&self) -> AutoEventView {
        match self {
            AutoEvent::Begin => AutoEventView::Begin,
            AutoEvent::Support(r) => AutoEventView::Support(
                match r {
                    Ok(b) => Ok(*b),
                    Err(e) => Err(e@),
                },
            ),
            AutoEvent::Fetched(r) => AutoEventView::Fetched(fetch_outcome(*r)),
        }
    }
}

/// Whether `event` is what the search waits for in `phase`.
pub open spec fn auto_expects(phase: AutoPhase, event: AutoEventView) -> bool {
    match phase {
        AutoPhase::Idle => event is Begin,
        AutoPhase::Asked => event is Support,
        AutoPhase::Fetching => event is Fetched,
        AutoPhase::Finished => false,
    }
}

/// The search turned to the plugin at `index`: it asks that plugin, or,
/// where no plugin is left, ends with the issues met so far, or with the
/// hint to name a plugin where there were none.
pub open spec fn auto_turn_to(s: AutoFetchView, index: nat, issues: Seq<Seq<char>>) -> (
    AutoFetchView,
    AutoActionView,
) {
    if index < s.plugins.len() {
        (
            AutoFetchView { index, issues, phase: AutoPhase::Asked, ..s },
            AutoActionView::AskSupport { plugin: s.plugins[index as int] },
        )
    } else {
        (
            AutoFetchView { index, issues, phase: AutoPhase::Finished, ..s },
            AutoActionView::Finish(
                Err(
                    if issues.len() > 0 {
                        issue_report(issues)
                    } else {
                        no_support(s.term)
                    },
                ),
            ),
        )
    }
}

/// One step of the search. Plugins are asked in order whether they
/// support the term. A plugin that cannot tell leaves an issue, and the
/// search moves on, as it does after a plugin that does not support the
/// term. The first plugin that supports the term is made to fetch it, and
/// what that fetch comes to ends the search, be it a book or an error: no
/// later plugin is asked.
pub open spec fn auto_step(s: AutoFetchView, event: AutoEventView) -> (AutoFetchView, AutoActionView) {
    match event {
        AutoEventView::Begin => auto_turn_to(s, 0, s.issues),
        AutoEventView::Support(Ok(true)) => (
            AutoFetchView { phase: AutoPhase::Fetching, ..s },
            AutoActionView::Fetch { plugin: s.plugins[s.index as int] },
        ),
        AutoEventView::Support(Ok(false)) => auto_turn_to(s, s.index + 1, s.issues),
        AutoEventView::Support(Err(e)) => auto_turn_to(
            s,
            s.index + 1,
            s.issues.push(issue_line(s.plugins[s.index as int], e)),
        ),
        AutoEventView::Fetched(Ok(found)) => (
            AutoFetchView { phase: AutoPhase::Finished, ..s },
            AutoActionView::Finish(Ok(found)),
        ),
        AutoEventView::Fetched(Err(e)) => (
            AutoFetchView { phase: AutoPhase::Finished, ..s },
            AutoActionView::Finish(Err(e)),
        ),
    }
}

impl AutoFetch {
    /// While a plugin is being asked, there is such a plugin.
    pub open spec fn wf(&self) -> bool {
        &&& self.index <= self.plugins.len()
        &&& (self.phase == AutoPhase::Asked || self.phase == AutoPhase::Fetching) ==> self.index
            < self.plugins.len()
    }

    fn turn_to(&mut self, index: usize) -> (action: AutoAction)
        requires
            index <= old(self).plugins.len(),
        ensures
            final(self).wf(),
            (final(self)@, action@) == auto_turn_to(
                old(self)@,
                index as nat,
                old(self).issues.deep_view(),
            ),
    {
        self.index = index;
        if index < self.plugins.len() {
            self.phase = AutoPhase::Asked;
            AutoAction::AskSupport { plugin: self.plugins[index].clone() }
        } else {
            self.phase = AutoPhase::Finished;
            let mut message = String::new();
            if self.issues.len() > 0 {
                push_text(&mut message, "\n");
                let body = join_all(&self.issues, "\n");
                push_text(&mut message, body.as_str());
            } else {
                push_text(&mut message, "Cannot auto-detect plugin that supports the term ");
                let quoted = debug_quoted(self.term.as_str());
                push_text(&mut message, quoted.as_str());
                push_text(&mut message, "\nYou can try with --plugin <PLUGIN_NAME>");
            }
            AutoAction::Finish(Err(message))
        }
    }

    fn note_issue(&mut self, error: &str)
        requires
            old(self).index < old(self).plugins.len(),
        ensures
            final(self)@ == (AutoFetchView {
                issues: old(self)@.issues.push(
                    issue_line(old(self)@.plugins[old(self).index as int], error@),
                ),
                ..old(self)@
            }),
            final(self).plugins == old(self).plugins,
            final(self).index == old(self).index,
    {
        let ghost before = self.issues.deep_view();
        let mut line = String::new();
        push_text(&mut line, "  - Plugin ");
        push_text(&mut line, self.plugins[self.index].as_str());
        push_text(&mut line, ": ");
        push_text(&mut line, error);
        self.issues.push(line);
        assert(self.issues.deep_view() =~= before.push(line@));
    }

    /// Takes the search one step further.
    pub fn step(&mut self, event: AutoEvent) -> (action: AutoAction)
        requires
            old(self).wf(),
            auto_expects(old(self).phase, event@),
        ensures
            final(self).wf(),
            (final(self)@, action@) == auto_step(old(self)@, event@),
    {
        match event {
            AutoEvent::Begin => self.turn_to(0),
            AutoEvent::Support(Ok(true)) => {
                self.phase = AutoPhase::Fetching;
                AutoAction::Fetch { plugin: self.plugins[self.index].clone() }
            },
            AutoEvent::Support(Ok(false)) => {
                let next: usize = self.index + 1;
                self.turn_to(next)
            },
            AutoEvent::Support(Err(e)) => {
                self.note_issue(e.as_str());
                let next: usize = self.index + 1;
                self.turn_to(next)
            },
            AutoEvent::Fetched(Ok(found)) => {
                self.phase = AutoPhase::Finished;
                AutoAction::Finish(Ok(found))
            },
            AutoEvent::Fetched(Err(e)) => {
                self.phase = AutoPhase::Finished;
                AutoAction::Finish(Err(e))
            },
        }
    }
}

} // verus!
