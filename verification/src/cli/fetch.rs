//! The options of the fetch commands and what they ask for.

use crate::downloader::{failure_text, DownloadStatus};
use crate::http::{AuthKind, AuthView};
use crate::schemas::book::resume_body;
use crate::outside::{
    debug_form, debug_quoted, entry_keys, index_map_entries, index_map_get_index,
    index_map_insert, index_map_len, index_map_new, index_set_insert, index_set_into_vec,
    index_set_items, index_set_new, shuffle_strings,
};
use indexmap::IndexMap;
use std::hash::RandomState;
use crate::plugins::{fetch_outcome, FetchResult, FetchResultView, PluginManager};
use crate::text::{
    char_is_whitespace, chars_of, decimal, has_prefix, is_whitespace, join, join_all, opt_text,
    push_decimal, push_range, push_text, string_of, trim, trim_start,
};
use crate::utils::{batch_a_list_of, is_batching};
use vstd::prelude::*;

verus! {

/// The credential given on the command line.
#[derive(Debug, Clone)]
pub struct Auth {
    /// Username (Basic)
    pub user: Option<String>,
    /// Password (Basic)
    pub password: Option<String>,
    /// Bearer string
    pub bearer: Option<String>,
}

/// The options that all fetch commands share.
#[derive(Debug, Clone)]
pub struct SharedFetchOption {
    /// Only fetch metadata
    pub meta_only: bool,
    /// Override the download batch amount
    pub batch_size: Option<usize>,
    /// Override the download mini batch amount
    pub mini_batch_size: Option<usize>,
    /// Override the number of terms to process at init (metadata retrieval)
    pub max_size_init_crawl_batch: Option<usize>,
    /// Override the number of parallel request at a time
    pub max_parallel_fetch: Option<usize>,
    /// Verbose mode
    pub verbose: bool,
    /// Override cache status
    pub no_cache: bool,
    /// Shuffle terms
    pub rand: bool,
    /// Sort terms by page count in ascending order
    pub asc: bool,
    /// Print back terms, can be affected by --asc, --rand or --verbose
    pub reflect: bool,
    /// Force use a plugin and bypass term pattern checks
    pub plugin: Option<String>,
    /// Load cookies from a file
    pub cookies: Option<String>,
    /// Use the downloader associated with the plugin
    pub custom_downloader: bool,
    pub auth: Option<Auth>,
    /// Wait for cookies sent from a callback
    pub listen_cookies: bool,
}

/// `fetch`: a sequence of terms.
#[derive(Debug, Clone)]
pub struct TermSequence {
    pub terms: Vec<String>,
    pub flags: SharedFetchOption,
}

/// `request`: one URL, printed or saved.
#[derive(Debug, Clone)]
pub struct UrlTerm {
    /// Request url
    pub url: String,
    /// Print as text to stdout
    pub print: bool,
    /// File destination
    pub dest: Option<String>,
    pub flags: SharedFetchOption,
}

/// `fetch-files`: a sequence of files that hold terms.
#[derive(Debug, Clone)]
pub struct FileSequence {
    pub files: Vec<String>,
    pub flags: SharedFetchOption,
}

/// `token` without a leading `Bearer `.
pub open spec fn bare_token(token: Seq<char>) -> Seq<char> {
    if "Bearer "@.is_prefix_of(token) {
        token.skip("Bearer "@.len() as int)
    } else {
        token
    }
}

/// The credential that the options stand for: basic where a user is
/// given, else bearer where a token is given, else an error.
pub open spec fn credential(
    user: Option<Seq<char>>,
    password: Option<Seq<char>>,
    bearer: Option<Seq<char>>,
) -> Result<AuthView, Seq<char>> {
    match user {
        Some(user) => Ok(AuthView::Basic { user, password }),
        None => match bearer {
            Some(token) => Ok(AuthView::Bearer { token: bare_token(token) }),
            None => Err("At least user must be provided, or use --bearer"@),
        },
    }
}

/// The view of a credential or an error message.
pub open spec fn auth_result(r: Result<AuthKind, String>) -> Result<AuthView, Seq<char>> {
    match r {
        Ok(auth) => Ok(auth@),
        Err(e) => Err(e@),
    }
}

impl Auth {
    /// The credential that these options stand for.
    pub fn gen_basic_auth(&self) -> (auth: Result<AuthKind, String>)
        ensures
            auth_result(auth) == credential(
                opt_text(self.user),
                opt_text(self.password),
                opt_text(self.bearer),
            ),
    {
        match &self.user {
            Some(user) => Ok(
                AuthKind::Basic {
                    user: user.clone(),
                    password: match &self.password {
                        Some(p) => Some(p.clone()),
                        None => None,
                    },
                },
            ),
            None => match &self.bearer {
                Some(bearer) => {
                    let chars = chars_of(bearer.as_str());
                    let prefix = chars_of("Bearer ");
                    let mut token = String::new();
                    if has_prefix(&chars, &prefix) {
                        push_range(&mut token, &chars, prefix.len(), chars.len());
                        assert(chars@.subrange(prefix.len() as int, chars.len() as int)
                            == chars@.skip(prefix.len() as int));
                    } else {
                        push_range(&mut token, &chars, 0, chars.len());
                        assert(chars@.subrange(0, chars.len() as int) == chars@);
                    }
                    Ok(AuthKind::Bearer { token })
                },
                None => {
                    let mut message = String::new();
                    push_text(&mut message, "At least user must be provided, or use --bearer");
                    Err(message)
                },
            },
        }
    }
}

/// `items` without repetitions: of equal items only the first stays.
pub open spec fn dedup_first(items: Seq<Seq<char>>) -> Seq<Seq<char>>
    decreases items.len(),
{
    if items.len() == 0 {
        items
    } else {
        let init = dedup_first(items.drop_last());
        if init.contains(items.last()) {
            init
        } else {
            init.push(items.last())
        }
    }
}

/// Deduplication keeps exactly the items of the list, each once.
pub proof fn lemma_dedup_first(items: Seq<Seq<char>>)
    ensures
        dedup_first(items).no_duplicates(),
        dedup_first(items).len() <= items.len(),
        forall|x: Seq<char>| dedup_first(items).contains(x) <==> items.contains(x),
    decreases items.len(),
{
    if items.len() > 0 {
        let init = items.drop_last();
        let last = items.last();
        lemma_dedup_first(init);
        let d = dedup_first(init);
        assert forall|x: Seq<char>| dedup_first(items).contains(x) <==> items.contains(x) by {
            if items.contains(x) {
                let i = choose|i: int| 0 <= i < items.len() && items[i] == x;
                if i < init.len() {
                    assert(init[i] == x);
                    assert(init.contains(x));
                    let j = choose|j: int| 0 <= j < d.len() && d[j] == x;
                    assert(dedup_first(items)[j] == x);
                } else if !d.contains(last) {
                    assert(d.push(last)[d.len() as int] == x);
                }
            }
            if dedup_first(items).contains(x) {
                let j = choose|j: int| 0 <= j < dedup_first(items).len() && dedup_first(items)[j] == x;
                if j < d.len() {
                    assert(d[j] == x);
                    assert(d.contains(x));
                    assert(init.contains(x));
                    let i = choose|i: int| 0 <= i < init.len() && init[i] == x;
                    assert(items[i] == x);
                } else {
                    assert(items[items.len() - 1] == x);
                }
            }
        }
    }
}

/// Deduplication keeps the order of first occurrence: an item that stays
/// is where it was among the items that stay from any prefix.
pub proof fn lemma_dedup_first_prefix(items: Seq<Seq<char>>, n: int)
    requires
        0 <= n <= items.len(),
    ensures
        dedup_first(items.take(n)).is_prefix_of(dedup_first(items)),
    decreases items.len(),
{
    if n == items.len() {
        assert(items.take(n) == items);
    } else {
        let init = items.drop_last();
        assert(init.take(n) == items.take(n));
        lemma_dedup_first_prefix(init, n);
    }
}

/// Removes repeated terms; the first occurrence of a term stays where it
/// is.
pub fn dedupe_terms(terms: Vec<String>) -> (unique: Vec<String>)
    ensures
        unique.deep_view() == dedup_first(terms.deep_view()),
{
    let mut set = index_set_new();
    let mut i: usize = 0;
    assert(terms.deep_view().take(0) =~= Seq::<Seq<char>>::empty());
    while i < terms.len()
        invariant
            i <= terms.len(),
            index_set_items(set) == dedup_first(terms.deep_view().take(i as int)),
        decreases terms.len() - i,
    {
        let ghost upto = terms.deep_view().take(i + 1);
        assert(upto.drop_last() == terms.deep_view().take(i as int));
        assert(upto.last() == terms@[i as int]@);
        let fresh = index_set_insert(&mut set, terms[i].clone());
        i += 1;
    }
    assert(terms.deep_view().take(terms.len() as int) == terms.deep_view());
    index_set_into_vec(set)
}

/// What became of one term.
#[derive(Debug)]
pub enum Resolution {
    Success(FetchResult),
    Fail(String),
}

/// The view of a [`Resolution`].
pub enum ResolutionView {
    Success(FetchResultView),
    Fail(Seq<char>),
}

impl DeepView for Resolution {
    type V = ResolutionView;

    open spec fn deep_view(&self) -> ResolutionView {
        match self {
            Resolution::Success(f) => ResolutionView::Success(f@),
            Resolution::Fail(e) => ResolutionView::Fail(e@),
        }
    }
}

impl View for Resolution {
    type V = ResolutionView;

    open spec fn view(&self) -> ResolutionView {
        self.deep_view()
    }
}

/// The view of an outcome that may still be missing.
pub open spec fn opt_resolution(r: Option<Resolution>) -> Option<ResolutionView> {
    match r {
        Some(r) => Some(r@),
        None => None,
    }
}

/// The views of a list of outcomes.
pub open spec fn outcome_views(outcomes: Seq<Option<Resolution>>) -> Seq<Option<ResolutionView>> {
    Seq::new(outcomes.len(), |i: int| opt_resolution(outcomes[i]))
}

/// The terms that have an outcome, each with its outcome, in the order of
/// the terms.
pub open spec fn resolved_terms(
    terms: Seq<Seq<char>>,
    outcomes: Seq<Option<ResolutionView>>,
) -> Seq<(Seq<char>, ResolutionView)>
    recommends
        terms.len() == outcomes.len(),
    decreases terms.len(),
{
    if terms.len() == 0 || outcomes.len() == 0 {
        Seq::empty()
    } else {
        let init = resolved_terms(terms.drop_last(), outcomes.drop_last());
        match outcomes.last() {
            Some(r) => init.push((terms.last(), r)),
            None => init,
        }
    }
}

/// Among terms that are all different, those that have an outcome are all
/// different too, and each of them is one of the terms.
pub proof fn lemma_resolved_keys(terms: Seq<Seq<char>>, outcomes: Seq<Option<ResolutionView>>)
    requires
        terms.len() == outcomes.len(),
        terms.no_duplicates(),
    ensures
        entry_keys(resolved_terms(terms, outcomes)).no_duplicates(),
        forall|i: int|
            0 <= i < resolved_terms(terms, outcomes).len() ==> terms.contains(
                #[trigger] resolved_terms(terms, outcomes)[i].0,
            ),
    decreases terms.len(),
{
    if terms.len() > 0 {
        let init_terms = terms.drop_last();
        let init = resolved_terms(init_terms, outcomes.drop_last());
        let all = resolved_terms(terms, outcomes);
        lemma_resolved_keys(init_terms, outcomes.drop_last());
        assert forall|i: int| 0 <= i < all.len() implies terms.contains(#[trigger] all[i].0) by {
            if i < init.len() {
                assert(all[i] == init[i]);
                assert(init_terms.contains(init[i].0));
                let k = choose|k: int| 0 <= k < init_terms.len() && init_terms[k] == init[i].0;
                assert(terms[k] == init[i].0);
            } else {
                assert(terms[terms.len() - 1] == all[i].0);
            }
        }
        assert forall|a: int, b: int|
            0 <= a < all.len() && 0 <= b < all.len() && a != b implies entry_keys(all)[a]
            != entry_keys(all)[b] by {
            if a < init.len() && b < init.len() {
                assert(entry_keys(init)[a] == entry_keys(all)[a]);
                assert(entry_keys(init)[b] == entry_keys(all)[b]);
            } else {
                let low = if a < init.len() {
                    a
                } else {
                    b
                };
                assert(all[low] == init[low]);
                assert(init_terms.contains(init[low].0));
                let k = choose|k: int| 0 <= k < init_terms.len() && init_terms[k] == init[low].0;
                assert(terms[k] == init[low].0);
                assert(terms[terms.len() - 1] == terms.last());
            }
        }
    }
}

/// The number of outcomes that are a success with the given cache mark.
pub open spec fn count_fetched(outcomes: Seq<Option<ResolutionView>>, cached: bool) -> nat
    decreases outcomes.len(),
{
    if outcomes.len() == 0 {
        0
    } else {
        count_fetched(outcomes.drop_last(), cached) + match outcomes.last() {
            Some(ResolutionView::Success(f)) => if f.cached == cached {
                1nat
            } else {
                0nat
            },
            _ => 0nat,
        }
    }
}

/// Successes of either kind are never more than there are outcomes.
pub proof fn lemma_count_fetched(outcomes: Seq<Option<ResolutionView>>)
    ensures
        count_fetched(outcomes, true) + count_fetched(outcomes, false) <= outcomes.len(),
    decreases outcomes.len(),
{
    if outcomes.len() > 0 {
        lemma_count_fetched(outcomes.drop_last());
    }
}

/// The status shown while terms are resolved.
pub open spec fn fetch_progress(outcomes: Seq<Option<ResolutionView>>) -> Seq<char> {
    decimal(count_fetched(outcomes, false)) + " fetched, "@ + decimal(
        count_fetched(outcomes, true),
    ) + " cached, "@ + decimal(
        (outcomes.len() - count_fetched(outcomes, false) - count_fetched(outcomes, true)) as nat,
    ) + " left"@
}

/// How many terms were found: `[Found 1 entry]`, `[Found 3 entries]`.
pub open spec fn found_label(count: nat) -> Seq<char> {
    "[Found "@ + decimal(count) + " entr"@ + if count == 1 {
        "y"@
    } else {
        "ies"@
    } + "]"@
}

/// The resolution of a list of terms: which terms there are, in which
/// batches they are resolved, and what became of each.
#[derive(Debug)]
pub struct TermResolver {
    terms: Vec<String>,
    plugin: Option<String>,
    crawl_batch: usize,
    outcomes: Vec<Option<Resolution>>,
}

/// Starts the resolution of `terms`, by the plugin `plugin` where one is
/// named and by the first plugin that supports a term otherwise. Repeated
/// terms are resolved once. Fails where the named plugin does not exist.
pub fn fetch_terms(
    manager: &PluginManager,
    terms: Vec<String>,
    plugin: Option<String>,
    crawl_batch: usize,
) -> (resolver: Result<TermResolver, String>)
    requires
        crawl_batch > 0,
    ensures
        match resolver {
            Ok(r) => {
                &&& r.wf()
                &&& plugin matches Some(name) ==> manager.names().contains(name@)
                &&& r.terms() == dedup_first(terms.deep_view())
                &&& opt_text(r.plugin()) == opt_text(plugin)
                &&& r.crawl_batch() == crawl_batch
                &&& forall|i: int| 0 <= i < r.outcomes().len() ==> (#[trigger] r.outcomes()[i]) is None
            },
            Err(e) => plugin matches Some(name) && !manager.names().contains(name@) && e@
                == crate::plugins::missing_plugin(name@),
        },
{
    if let Some(name) = &plugin {
        match manager.assert_exists(name.clone()) {
            Ok(_) => {},
            Err(e) => {
                return Err(e);
            },
        }
    }
    let ghost given = terms.deep_view();
    let terms = dedupe_terms(terms);
    proof {
        lemma_dedup_first(given);
    }
    let mut outcomes: Vec<Option<Resolution>> = Vec::new();
    let mut i: usize = 0;
    while i < terms.len()
        invariant
            i <= terms.len(),
            outcomes.len() == i,
            forall|k: int| 0 <= k < i ==> (#[trigger] outcomes@[k]) is None,
        decreases terms.len() - i,
    {
        outcomes.push(None);
        i += 1;
    }
    let resolver = TermResolver { terms, plugin, crawl_batch, outcomes };
    assert(outcome_views(resolver.outcomes@) =~= resolver.outcomes());
    Ok(resolver)
}

impl TermResolver {
    /// The terms, without repetitions, in input order.
    pub closed spec fn terms(&self) -> Seq<Seq<char>> {
        self.terms.deep_view()
    }

    /// The plugin that is to resolve the terms, where one is named.
    pub closed spec fn plugin(&self) -> Option<String> {
        self.plugin
    }

    /// The number of terms that are resolved at a time.
    pub closed spec fn crawl_batch(&self) -> usize {
        self.crawl_batch
    }

    /// What is known of each term so far.
    pub closed spec fn outcomes(&self) -> Seq<Option<ResolutionView>> {
        outcome_views(self.outcomes@)
    }

    /// There is one outcome slot per term, no term occurs twice, and
    /// batches are not empty.
    pub closed spec fn wf(&self) -> bool {
        &&& self.terms@.len() == self.outcomes@.len()
        &&& self.terms.deep_view().no_duplicates()
        &&& self.crawl_batch > 0
    }

    /// What a well-formed resolver guarantees.
    pub proof fn lemma_wf(&self)
        requires
            self.wf(),
        ensures
            self.terms().len() == self.outcomes().len(),
            self.terms().no_duplicates(),
            self.crawl_batch() > 0,
    {
    }

    /// The number of terms.
    pub fn len(&self) -> (n: usize)
        ensures
            n == self.terms().len(),
    {
        self.terms.len()
    }

    /// The term at position `i`.
    pub fn term(&self, i: usize) -> (term: &String)
        requires
            i < self.terms().len(),
        ensures
            term@ == self.terms()[i as int],
    {
        &self.terms[i]
    }

    /// The plugin named for all terms, if any.
    pub fn forced_plugin(&self) -> (plugin: &Option<String>)
        ensures
            *plugin == self.plugin(),
    {
        &self.plugin
    }

    /// The batches in which the terms are resolved: terms of one batch
    /// are resolved at the same time, batches one after the other.
    pub fn batches(&self) -> (batches: Vec<Vec<String>>)
        requires
            self.wf(),
        ensures
            is_batching(self.terms_list(), self.crawl_batch() as nat, batches@),
    {
        batch_a_list_of(self.terms.as_slice(), self.crawl_batch)
    }

    /// The terms as they are stored.
    pub closed spec fn terms_list(&self) -> Seq<String> {
        self.terms@
    }

    /// The stored terms are the terms.
    pub proof fn lemma_terms_list(&self)
        ensures
            self.terms_list().len() == self.terms().len(),
            forall|i: int|
                0 <= i < self.terms().len() ==> (#[trigger] self.terms_list()[i])@
                    == self.terms()[i],
    {
    }

    /// How many terms were found.
    pub fn found(&self) -> (label: String)
        ensures
            label@ == found_label(self.terms().len()),
    {
        let mut label = String::new();
        push_text(&mut label, "[Found ");
        push_decimal(&mut label, self.terms.len());
        push_text(&mut label, " entr");
        if self.terms.len() == 1 {
            push_text(&mut label, "y");
        } else {
            push_text(&mut label, "ies");
        }
        push_text(&mut label, "]");
        label
    }

    /// Records what became of the term at position `index`, and gives
    /// the status to show.
    pub fn record(&mut self, index: usize, outcome: Result<FetchResult, String>) -> (status: String)
        requires
            old(self).wf(),
            index < old(self).terms().len(),
        ensures
            final(self).wf(),
            final(self).terms() == old(self).terms(),
            final(self).plugin() == old(self).plugin(),
            final(self).crawl_batch() == old(self).crawl_batch(),
            final(self).outcomes() == old(self).outcomes().update(
                index as int,
                Some(
                    match fetch_outcome(outcome) {
                        Ok(f) => ResolutionView::Success(f),
                        Err(e) => ResolutionView::Fail(e),
                    },
                ),
            ),
            status@ == fetch_progress(final(self).outcomes()),
    {
        let ghost before = self.outcomes();
        let resolution = match outcome {
            Ok(fetched) => Resolution::Success(fetched),
            Err(e) => Resolution::Fail(e),
        };
        self.outcomes.set(index, Some(resolution));
        assert(self.outcomes() =~= before.update(index as int, Some(resolution@)));
        self.progress()
    }

    /// Records that the task of the term at position `index` was
    /// cancelled: the term failed, and `Cancelled` labels the failure.
    pub fn cancelled(&mut self, index: usize, reason: &str) -> (status: String)
        requires
            old(self).wf(),
            index < old(self).terms().len(),
        ensures
            final(self).wf(),
            final(self).terms() == old(self).terms(),
            final(self).plugin() == old(self).plugin(),
            final(self).crawl_batch() == old(self).crawl_batch(),
            final(self).outcomes() == old(self).outcomes().update(
                index as int,
                Some(ResolutionView::Fail("Cancelled: "@ + reason@)),
            ),
            status@ == fetch_progress(final(self).outcomes()),
    {
        let mut message = String::new();
        push_text(&mut message, "Cancelled: ");
        push_text(&mut message, reason);
        self.record(index, Err(message))
    }

    /// The status to show: how many terms were fetched, how many came
    /// from the cache, how many are left.
    pub fn progress(&self) -> (status: String)
        ensures
            status@ == fetch_progress(self.outcomes()),
    {
        let ghost all = self.outcomes();
        let mut fetched: usize = 0;
        let mut cached: usize = 0;
        let mut i: usize = 0;
        while i < self.outcomes.len()
            invariant
                i <= self.outcomes.len(),
                all == self.outcomes(),
                fetched == count_fetched(all.take(i as int), false),
                cached == count_fetched(all.take(i as int), true),
                fetched + cached <= i,
            decreases self.outcomes.len() - i,
        {
            assert(all.take(i + 1).drop_last() == all.take(i as int));
            assert(all.take(i + 1).last() == opt_resolution(self.outcomes@[i as int]));
            match &self.outcomes[i] {
                Some(Resolution::Success(f)) => {
                    if f.cached {
                        cached += 1;
                    } else {
                        fetched += 1;
                    }
                },
                _ => {},
            }
            i += 1;
        }
        assert(all.take(self.outcomes.len() as int) == all);
        let mut status = String::new();
        push_decimal(&mut status, fetched);
        push_text(&mut status, " fetched, ");
        push_decimal(&mut status, cached);
        push_text(&mut status, " cached, ");
        push_decimal(&mut status, self.outcomes.len() - fetched - cached);
        push_text(&mut status, " left");
        status
    }

    /// Ends the resolution: the terms that have an outcome, each with its
    /// outcome, in input order.
    pub fn finish(self) -> (results: IndexMap<String, Resolution, RandomState>)
        requires
            self.wf(),
        ensures
            index_map_entries(results) == resolved_terms(self.terms(), self.outcomes()),
    {
        let ghost terms = self.terms();
        let ghost outcomes = self.outcomes();
        let TermResolver { terms: mut names, plugin: _, crawl_batch: _, outcomes: mut list } = self;
        let mut reversed: Vec<(String, Resolution)> = Vec::new();
        assert(terms.take(terms.len() as int) =~= terms);
        assert(outcomes.take(outcomes.len() as int) =~= outcomes);
        assert(reversed.deep_view().reverse() =~= Seq::empty());
        while names.len() > 0
            invariant
                names.len() == list.len(),
                names.len() <= terms.len(),
                names.deep_view() == terms.take(names.len() as int),
                outcome_views(list@) == outcomes.take(list.len() as int),
                terms.len() == outcomes.len(),
                resolved_terms(names.deep_view(), outcome_views(list@)) + reversed.deep_view().reverse()
                    == resolved_terms(terms, outcomes),
            decreases names.len(),
        {
            let ghost n = names.deep_view();
            let ghost o = outcome_views(list@);
            let ghost r = reversed.deep_view();
            let name = names.pop().unwrap();
            let outcome = list.pop().unwrap();
            assert(names.deep_view() =~= n.drop_last());
            assert(outcome_views(list@) =~= o.drop_last());
            assert(n.last() == name@);
            assert(o.last() == opt_resolution(outcome));
            match outcome {
                Some(resolution) => {
                    reversed.push((name, resolution));
                    assert(reversed.deep_view() =~= r.push((name@, resolution@)));
                    assert(reversed.deep_view().reverse() =~= seq![(name@, resolution@)]
                        + r.reverse());
                    assert(resolved_terms(n, o) =~= resolved_terms(n.drop_last(), o.drop_last())
                        + seq![(name@, resolution@)]);
                    assert(resolved_terms(n.drop_last(), o.drop_last()) + reversed.deep_view().reverse()
                        =~= resolved_terms(n, o) + r.reverse());
                },
                None => {},
            }
            assert(terms.take(n.len() as int).drop_last() =~= terms.take(n.len() - 1));
            assert(outcomes.take(o.len() as int).drop_last() =~= outcomes.take(o.len() - 1));
            assert(names.deep_view() =~= terms.take(names.len() as int));
            assert(outcome_views(list@) =~= outcomes.take(list.len() as int));
        }
        let ghost r = reversed.deep_view();
        let ghost all = r.reverse();
        proof {
            assert(resolved_terms(names.deep_view(), outcome_views(list@)) =~= Seq::empty());
            assert(all =~= resolved_terms(terms, outcomes));
            lemma_resolved_keys(terms, outcomes);
        }
        let mut results = index_map_new();
        while reversed.len() > 0
            invariant
                entry_keys(all).no_duplicates(),
                index_map_entries(results) + reversed.deep_view().reverse() == all,
            decreases reversed.len(),
        {
            let ghost before = reversed.deep_view();
            let ghost done = index_map_entries(results);
            let (name, resolution) = reversed.pop().unwrap();
            proof {
                assert(reversed.deep_view() =~= before.drop_last());
                assert(before.last() == (name@, resolution@));
                assert(before.reverse() =~= seq![before.last()] + before.drop_last().reverse());
                assert(all[done.len() as int] == before.last());
                if entry_keys(done).contains(name@) {
                    let k = entry_keys(done).index_of(name@);
                    assert(entry_keys(done)[k] == name@);
                    assert(all[k] == done[k]);
                    assert(entry_keys(all)[k] == entry_keys(all)[done.len() as int]);
                }
            }
            index_map_insert(&mut results, name, resolution);
            assert(index_map_entries(results) + reversed.deep_view().reverse() =~= done
                + before.reverse());
        }
        assert(reversed.deep_view().reverse() =~= Seq::empty());
        assert(index_map_entries(results) =~= all);
        results
    }
}

/// Scanning `s` for words: the words that are complete, and the word that
/// is being read.
pub open spec fn word_scan(s: Seq<char>) -> (Seq<Seq<char>>, Seq<char>)
    decreases s.len(),
{
    if s.len() == 0 {
        (Seq::empty(), Seq::empty())
    } else {
        let (done, current) = word_scan(s.drop_last());
        if !is_whitespace(s.last()) {
            (done, current.push(s.last()))
        } else if current.len() > 0 {
            (done.push(current), Seq::empty())
        } else {
            (done, current)
        }
    }
}

/// The words of `s`: its maximal runs of characters that are not white
/// space.
pub open spec fn words(s: Seq<char>) -> Seq<Seq<char>> {
    let (done, current) = word_scan(s);
    if current.len() > 0 {
        done.push(current)
    } else {
        done
    }
}

/// Whether a line is a comment: its first character that is not white
/// space is `#`.
pub open spec fn is_comment(line: Seq<char>) -> bool {
    trim_start(line).len() > 0 && trim_start(line)[0] == '#'
}

/// The terms that a line holds: none where it is a comment, else its
/// words.
pub open spec fn line_terms(line: Seq<char>) -> Seq<Seq<char>> {
    if is_comment(line) {
        Seq::empty()
    } else {
        words(line)
    }
}

/// Scanning a file of terms: the terms of the lines that are complete,
/// and the line that is being read.
pub open spec fn file_scan(content: Seq<char>) -> (Seq<Seq<char>>, Seq<char>)
    decreases content.len(),
{
    if content.len() == 0 {
        (Seq::empty(), Seq::empty())
    } else {
        let (terms, line) = file_scan(content.drop_last());
        if content.last() == '\n' {
            (terms + line_terms(line), Seq::empty())
        } else {
            (terms, line.push(content.last()))
        }
    }
}

/// The terms in a file of terms: the words of every line that is not a
/// comment, in order.
pub open spec fn file_terms(content: Seq<char>) -> Seq<Seq<char>> {
    let (terms, line) = file_scan(content);
    terms + line_terms(line)
}

fn line_is_comment(line: &Vec<char>) -> (r: bool)
    ensures
        r == is_comment(line@),
{
    let mut i: usize = 0;
    assert(line@.skip(0) == line@);
    while i < line.len() && char_is_whitespace(line[i])
        invariant
            i <= line.len(),
            trim_start(line@) == trim_start(line@.skip(i as int)),
        decreases line.len() - i,
    {
        assert(line@.skip(i as int).drop_first() == line@.skip(i + 1));
        i += 1;
    }
    i < line.len() && line[i] == '#'
}

fn push_words(terms: &mut Vec<String>, line: &Vec<char>)
    ensures
        final(terms).deep_view() == old(terms).deep_view() + words(line@),
{
    let ghost start = terms.deep_view();
    let mut current: Vec<char> = Vec::new();
    let mut i: usize = 0;
    assert(start + Seq::<Seq<char>>::empty() =~= start);
    while i < line.len()
        invariant
            i <= line.len(),
            terms.deep_view() == start + word_scan(line@.take(i as int)).0,
            current@ == word_scan(line@.take(i as int)).1,
        decreases line.len() - i,
    {
        let ghost before = terms.deep_view();
        assert(line@.take(i + 1).drop_last() == line@.take(i as int));
        if !char_is_whitespace(line[i]) {
            current.push(line[i]);
        } else if current.len() > 0 {
            let word = string_of(&current);
            terms.push(word);
            assert(terms.deep_view() =~= before.push(current@));
            current = Vec::new();
            assert(terms.deep_view() =~= start + word_scan(line@.take(i + 1)).0);
        }
        i += 1;
    }
    assert(line@.take(line.len() as int) == line@);
    if current.len() > 0 {
        let ghost before = terms.deep_view();
        let word = string_of(&current);
        terms.push(word);
        assert(terms.deep_view() =~= before.push(current@));
        assert(terms.deep_view() =~= start + words(line@));
    }
}

/// The words of `text`.
pub fn split_words(text: &str) -> (found: Vec<String>)
    ensures
        found.deep_view() == words(text@),
{
    let chars = chars_of(text);
    let mut found: Vec<String> = Vec::new();
    assert(found.deep_view() =~= Seq::<Seq<char>>::empty());
    push_words(&mut found, &chars);
    assert(Seq::<Seq<char>>::empty() + words(text@) =~= words(text@));
    found
}

fn push_line_terms(terms: &mut Vec<String>, line: &Vec<char>)
    ensures
        final(terms).deep_view() == old(terms).deep_view() + line_terms(line@),
{
    if !line_is_comment(line) {
        push_words(terms, line);
    } else {
        assert(terms.deep_view() + Seq::<Seq<char>>::empty() =~= terms.deep_view());
    }
}

/// Reads the terms from the content of a file of terms.
pub fn read_terms(content: &str) -> (terms: Vec<String>)
    ensures
        terms.deep_view() == file_terms(content@),
{
    let chars = chars_of(content);
    let mut terms: Vec<String> = Vec::new();
    let mut line: Vec<char> = Vec::new();
    let mut i: usize = 0;
    assert(terms.deep_view() =~= Seq::<Seq<char>>::empty());
    while i < chars.len()
        invariant
            i <= chars.len(),
            terms.deep_view() == file_scan(chars@.take(i as int)).0,
            line@ == file_scan(chars@.take(i as int)).1,
        decreases chars.len() - i,
    {
        assert(chars@.take(i + 1).drop_last() == chars@.take(i as int));
        if chars[i] == '\n' {
            push_line_terms(&mut terms, &line);
            line = Vec::new();
        } else {
            line.push(chars[i]);
        }
        i += 1;
    }
    assert(chars@.take(chars.len() as int) == chars@);
    push_line_terms(&mut terms, &line);
    terms
}

/// Shuffles `terms` where `enable` is set.
pub fn shuffle_in_place(terms: &mut Vec<String>, enable: bool)
    ensures
        final(terms).deep_view().to_multiset() == old(terms).deep_view().to_multiset(),
        !enable ==> final(terms).deep_view() == old(terms).deep_view(),
{
    if enable {
        shuffle_strings(terms);
    }
}

/// Whether `results` is in ascending order of page count, as far as the
/// counts can be told apart in a `usize`.
pub open spec fn sorted_by_pages(results: Seq<FetchResult>) -> bool {
    forall|i: int, j: int|
        0 <= i <= j < results.len() ==> sort_key(#[trigger] results[i]) <= sort_key(
            #[trigger] results[j],
        )
}

/// The key by which results are sorted: the number of pages, or
/// `usize::MAX` where there are more.
pub open spec fn sort_key(result: FetchResult) -> nat {
    if crate::plugins::page_count(result@.book) > usize::MAX {
        usize::MAX as nat
    } else {
        crate::plugins::page_count(result@.book)
    }
}

/// `sorted` with `x` put behind the last result that has no more pages
/// than `x`.
pub open spec fn placed(sorted: Seq<FetchResult>, x: FetchResult) -> Seq<FetchResult>
    decreases sorted.len(),
{
    if sorted.len() == 0 || sort_key(sorted.last()) <= sort_key(x) {
        sorted.push(x)
    } else {
        placed(sorted.drop_last(), x).push(sorted.last())
    }
}

/// `results` in ascending order of page count; results with the same
/// number of pages stay in the order they had.
pub open spec fn ordered_by_pages(results: Seq<FetchResult>) -> Seq<FetchResult>
    decreases results.len(),
{
    if results.len() == 0 {
        results
    } else {
        placed(ordered_by_pages(results.drop_last()), results.last())
    }
}

proof fn lemma_placed(sorted: Seq<FetchResult>, x: FetchResult, j: int)
    requires
        0 <= j <= sorted.len(),
        forall|k: int| j <= k < sorted.len() ==> sort_key(#[trigger] sorted[k]) > sort_key(x),
        j > 0 ==> sort_key(sorted[j - 1]) <= sort_key(x),
    ensures
        placed(sorted, x) == sorted.insert(j, x),
    decreases sorted.len(),
{
    if j == sorted.len() {
        assert(sorted.push(x) =~= sorted.insert(j, x));
    } else {
        let init = sorted.drop_last();
        assert(sort_key(sorted[sorted.len() - 1]) > sort_key(x));
        assert forall|k: int| j <= k < init.len() implies sort_key(#[trigger] init[k]) > sort_key(
            x,
        ) by {
            assert(init[k] == sorted[k]);
        }
        if j > 0 {
            assert(init[j - 1] == sorted[j - 1]);
        }
        lemma_placed(init, x, j);
        assert(init.insert(j, x).push(sorted.last()) =~= sorted.insert(j, x));
    }
}

/// Sorts `results` by page count, in ascending order, where `enable` is
/// set. Results with the same number of pages keep their order.
pub fn sort_in_place(results: &mut Vec<FetchResult>, enable: bool)
    ensures
        final(results)@.to_multiset() == old(results)@.to_multiset(),
        enable ==> sorted_by_pages(final(results)@),
        enable ==> final(results)@ == ordered_by_pages(old(results)@),
        !enable ==> final(results)@ == old(results)@,
{
    if !enable {
        return ;
    }
    if results.len() < 2 {
        proof {
            reveal_with_fuel(ordered_by_pages, 2);
            reveal_with_fuel(placed, 2);
            if results@.len() == 1 {
                assert(results@.drop_last() =~= Seq::<FetchResult>::empty());
                assert(Seq::<FetchResult>::empty().push(results@.last()) =~= results@);
            }
        }
        return ;
    }
    let mut i: usize = 1;
    proof {
        reveal_with_fuel(ordered_by_pages, 2);
        reveal_with_fuel(placed, 2);
        let first = results@.take(1);
        assert(first.drop_last() =~= Seq::<FetchResult>::empty());
        assert(Seq::<FetchResult>::empty().push(first.last()) =~= first);
        assert(results@ =~= first + results@.skip(1));
    }
    while i < results.len()
        invariant
            1 <= i <= results.len(),
            results.len() == old(results).len(),
            results@.to_multiset() == old(results)@.to_multiset(),
            sorted_by_pages(results@.take(i as int)),
            results@ == ordered_by_pages(old(results)@.take(i as int)) + old(results)@.skip(
                i as int,
            ),
        decreases results.len() - i,
    {
        let ghost before = results@;
        let ghost front = ordered_by_pages(old(results)@.take(i as int));
        let ghost rest = old(results)@.skip(i as int);
        proof {
            assert(front.len() == i) by {
                assert(before.len() == front.len() + rest.len());
            }
            assert(before.take(i as int) =~= front);
        }
        let moved = results.remove(i);
        let key: usize = moved.count_pages();
        let mut j: usize = i;
        while j > 0 && results[j - 1].count_pages() > key
            invariant
                j <= i < before.len(),
                before.len() == results.len() + 1,
                results@ == before.remove(i as int),
                key == sort_key(moved),
                forall|k: int| j <= k < i ==> sort_key(#[trigger] results@[k]) > key,
            decreases j,
        {
            j -= 1;
        }
        results.insert(j, moved);
        proof {
            let mid = before.remove(i as int);
            assert(mid.take(i as int) =~= before.take(i as int));
            assert forall|a: int, b: int| 0 <= a <= b < i + 1 implies sort_key(
                #[trigger] results@[a],
            ) <= sort_key(#[trigger] results@[b]) by {
                if a < j && b > j {
                    assert(results@[a] == before.take(i as int)[a]);
                    assert(results@[b] == before.take(i as int)[b - 1]);
                } else if a < j && b < j {
                    assert(results@[a] == before.take(i as int)[a]);
                    assert(results@[b] == before.take(i as int)[b]);
                } else if a > j {
                    assert(results@[a] == before.take(i as int)[a - 1]);
                    assert(results@[b] == before.take(i as int)[b - 1]);
                } else if a < j && b == j {
                    assert(results@[a] == before.take(i as int)[a]);
                    if j > 0 {
                        assert(results@[j - 1] == before.take(i as int)[j - 1]);
                        assert(sort_key(before.take(i as int)[a]) <= sort_key(
                            before.take(i as int)[j - 1],
                        ));
                    }
                } else if a == j && b > j {
                    assert(results@[b] == mid[b - 1]);
                }
            }
            assert(before =~= mid.insert(i as int, moved));
            assert(before.to_multiset() =~= mid.to_multiset().insert(moved)) by {
                vstd::seq_lib::to_multiset_insert(mid, i as int, moved);
            }
            assert(results@.to_multiset() =~= mid.to_multiset().insert(moved)) by {
                vstd::seq_lib::to_multiset_insert(mid, j as int, moved);
            }
            // the result is the stable order of one more item
            let upto = old(results)@.take(i + 1);
            assert(upto.drop_last() =~= old(results)@.take(i as int));
            assert(upto.last() == rest[0]);
            assert(moved == before[i as int]);
            assert(before[i as int] == rest[0]);
            assert forall|k: int| j <= k < front.len() implies sort_key(#[trigger] front[k])
                > sort_key(moved) by {
                assert(front[k] == mid[k]);
            }
            if j > 0 {
                assert(front[j - 1] == mid[j - 1]);
            }
            lemma_placed(front, moved, j as int);
            assert(mid =~= front + rest.drop_first());
            assert(results@ =~= front.insert(j as int, moved) + rest.drop_first());
            assert(rest.drop_first() =~= old(results)@.skip(i + 1));
        }
        i += 1;
    }
    assert(results@.take(results.len() as int) =~= results@);
    assert(old(results)@.take(results.len() as int) =~= old(results)@);
    assert(old(results)@.skip(results.len() as int) =~= Seq::<FetchResult>::empty());
    assert(results@ =~= ordered_by_pages(old(results)@) + Seq::<FetchResult>::empty());
}

/// What is reported of the terms that could not be resolved: nothing
/// where all were resolved; else how many failed, followed by two dots
/// or, in verbose mode, by one entry per failed term.
pub open spec fn fetch_report(results: Seq<(Seq<char>, ResolutionView)>, verbose: bool) -> Option<
    Seq<char>,
> {
    let failures = failed_entries(results);
    if failures.len() == 0 {
        None
    } else {
        Some(
            "Failed fetching "@ + decimal(failures.len()) + "/"@ + decimal(results.len()) + if verbose {
                ":\n"@ + join(failures, "\n"@)
            } else {
                ".."@
            } + "\n"@,
        )
    }
}

/// One entry per failed term, numbered from 1 in the order of the terms:
/// the number, the term, and on the next line the error.
pub open spec fn failed_entries(results: Seq<(Seq<char>, ResolutionView)>) -> Seq<Seq<char>>
    decreases results.len(),
{
    if results.len() == 0 {
        Seq::empty()
    } else {
        let init = failed_entries(results.drop_last());
        match results.last().1 {
            ResolutionView::Fail(e) => init.push(
                "#"@ + decimal(init.len() + 1) + ". "@ + debug_form(results.last().0) + "\n"@ + e,
            ),
            ResolutionView::Success(_) => init,
        }
    }
}

/// What to tell the user about the terms that could not be resolved.
pub fn display_fetch_status(results: &IndexMap<String, Resolution, RandomState>, verbose: bool) -> (report:
    Option<String>)
    ensures
        opt_text(report) == fetch_report(index_map_entries(*results), verbose),
{
    let ghost all = index_map_entries(*results);
    let total: usize = index_map_len(results);
    let mut fail_messages: Vec<String> = Vec::new();
    let mut i: usize = 0;
    assert(fail_messages.deep_view() =~= failed_entries(all.take(0)));
    while i < total
        invariant
            i <= total,
            total == all.len(),
            all == index_map_entries(*results),
            fail_messages.len() <= i,
            fail_messages.deep_view() == failed_entries(all.take(i as int)),
        decreases total - i,
    {
        let ghost before = fail_messages.deep_view();
        assert(all.take(i + 1).drop_last() == all.take(i as int));
        assert(all.take(i + 1).last() == all[i as int]);
        match index_map_get_index(results, i) {
            Some((term, Resolution::Fail(e))) => {
                let mut entry = String::new();
                push_text(&mut entry, "#");
                push_decimal(&mut entry, fail_messages.len() + 1);
                push_text(&mut entry, ". ");
                let quoted = debug_quoted(term.as_str());
                push_text(&mut entry, quoted.as_str());
                push_text(&mut entry, "\n");
                push_text(&mut entry, e.as_str());
                fail_messages.push(entry);
                assert(fail_messages.deep_view() =~= before.push(entry@));
            },
            _ => {},
        }
        i += 1;
    }
    assert(all.take(total as int) == all);
    if fail_messages.len() == 0 {
        return None;
    }
    let mut report = String::new();
    push_text(&mut report, "Failed fetching ");
    push_decimal(&mut report, fail_messages.len());
    push_text(&mut report, "/");
    push_decimal(&mut report, total);
    if verbose {
        push_text(&mut report, ":\n");
        let body = join_all(&fail_messages, "\n");
        push_text(&mut report, body.as_str());
    } else {
        push_text(&mut report, "..");
    }
    push_text(&mut report, "\n");
    Some(report)
}

/// The terms that were resolved, each preceded in verbose mode by a
/// comment line that names the resolver and the number of pages, and
/// followed by an empty line.
pub open spec fn reflected(results: Seq<FetchResult>, verbose: bool) -> Seq<char>
    decreases results.len(),
{
    if results.len() == 0 {
        Seq::empty()
    } else {
        let last = results.last();
        reflected(results.drop_last(), verbose) + if verbose {
            "# "@ + decimal(results.len()) + ": Resolver "@ + last@.plugin_name + ", total links "@
                + decimal(sort_key(last)) + "\n"@ + last@.query_term + "\n\n"@
        } else {
            last@.query_term + "\n"@
        }
    }
}

/// What `--reflect` prints: the terms back, one per line.
pub fn reflect_back_terms(results: &Vec<FetchResult>, verbose: bool) -> (out: String)
    ensures
        out@ == reflected(results@, verbose),
{
    let mut out = String::new();
    let mut i: usize = 0;
    assert(results@.take(0) =~= Seq::empty());
    while i < results.len()
        invariant
            i <= results.len(),
            out@ == reflected(results@.take(i as int), verbose),
        decreases results.len() - i,
    {
        let ghost before = out@;
        assert(results@.take(i + 1).drop_last() == results@.take(i as int));
        let mut entry = String::new();
        if verbose {
            push_text(&mut entry, "# ");
            push_decimal(&mut entry, i + 1);
            push_text(&mut entry, ": Resolver ");
            push_text(&mut entry, results[i].plugin_name.as_str());
            push_text(&mut entry, ", total links ");
            push_decimal(&mut entry, results[i].count_pages());
            push_text(&mut entry, "\n");
            push_text(&mut entry, results[i].query_term.as_str());
            push_text(&mut entry, "\n\n");
        } else {
            push_text(&mut entry, results[i].query_term.as_str());
            push_text(&mut entry, "\n");
        }
        push_text(&mut out, entry.as_str());
        i += 1;
    }
    assert(results@.take(results.len() as int) == results@);
    out
}

/// What a fetch command does besides resolving its terms.
#[derive(Debug, Clone)]
pub struct FetchPlan {
    /// The number of permits to give to the semaphore that bounds the
    /// requests in flight.
    pub resize_permits: Option<usize>,
    /// Whether to wait for a fetch context sent by a callback.
    pub listen_cookies: bool,
    /// Whether the plugin named, if any, is checked before terms are
    /// read.
    pub check_plugin_first: bool,
    /// Whether to shuffle the terms.
    pub shuffle: bool,
    /// Whether to sort the resolved books by page count.
    pub sort: bool,
    /// Whether to show a summary of each resolved book.
    pub show_metadata: bool,
    /// Whether to print the terms back instead of downloading.
    pub reflect: bool,
}

impl SharedFetchOption {
    /// What the flags ask for.
    pub fn plan(&self, check_plugin_first: bool) -> (plan: FetchPlan)
        ensures
            plan.resize_permits == self.max_parallel_fetch,
            plan.listen_cookies == self.listen_cookies,
            plan.check_plugin_first == check_plugin_first,
            plan.shuffle == self.rand,
            plan.sort == self.asc,
            plan.show_metadata == (self.meta_only && self.verbose),
            plan.reflect == self.reflect,
    {
        FetchPlan {
            resize_permits: self.max_parallel_fetch,
            listen_cookies: self.listen_cookies,
            check_plugin_first,
            shuffle: self.rand,
            sort: self.asc,
            show_metadata: self.meta_only && self.verbose,
            reflect: self.reflect,
        }
    }
}

impl TermSequence {
    /// What `fetch` does around the resolution of its terms.
    pub fn fetch(&self) -> (plan: FetchPlan)
        ensures
            plan.resize_permits == self.flags.max_parallel_fetch,
            plan.listen_cookies == self.flags.listen_cookies,
            !plan.check_plugin_first,
            plan.shuffle == self.flags.rand,
            plan.sort == self.flags.asc,
            plan.show_metadata == (self.flags.meta_only && self.flags.verbose),
            plan.reflect == self.flags.reflect,
    {
        self.flags.plan(false)
    }
}

impl FileSequence {
    /// What `fetch-files` does around the resolution of its terms.
    pub fn fetch(&self) -> (plan: FetchPlan)
        ensures
            plan.resize_permits == self.flags.max_parallel_fetch,
            plan.listen_cookies == self.flags.listen_cookies,
            plan.check_plugin_first,
            plan.shuffle == self.flags.rand,
            plan.sort == self.flags.asc,
            plan.show_metadata == (self.flags.meta_only && self.flags.verbose),
            plan.reflect == self.flags.reflect,
    {
        self.flags.plan(true)
    }

    /// Adds to `results` the entry that stands for a file that could not
    /// be read: the failure `cause` under the key `File at "{file}"`. A
    /// key that is taken keeps its place and gets this failure.
    pub fn unreadable(
        results: &mut IndexMap<String, Resolution, RandomState>,
        file: &str,
        cause: String,
    )
        ensures
            index_map_entries(*final(results)) == with_entry(
                index_map_entries(*old(results)),
                "File at "@ + debug_form(file@),
                ResolutionView::Fail(cause@),
            ),
    {
        let mut key = String::new();
        push_text(&mut key, "File at ");
        let quoted = debug_quoted(file);
        push_text(&mut key, quoted.as_str());
        index_map_insert(results, key, Resolution::Fail(cause));
    }
}

/// `entries` where `key` stands for `value`: in place where the key
/// occurs, at the end where it does not.
pub open spec fn with_entry(
    entries: Seq<(Seq<char>, ResolutionView)>,
    key: Seq<char>,
    value: ResolutionView,
) -> Seq<(Seq<char>, ResolutionView)> {
    match crate::collections::position_of(entry_keys(entries), key) {
        Some(at) => entries.update(at, (key, value)),
        None => entries.push((key, value)),
    }
}

/// Where the body of a response goes.
#[derive(Debug)]
pub enum UrlOutput {
    Stdout,
    File(String),
}

impl UrlTerm {
    /// Where `request` puts what it fetched: on standard output where
    /// printing is asked for or no destination is given, else in the
    /// destination.
    pub fn fetch(&self) -> (output: UrlOutput)
        ensures
            match output {
                UrlOutput::Stdout => self.print || self.dest is None,
                UrlOutput::File(path) => !self.print && opt_text(self.dest) == Some(path@),
            },
    {
        if self.print {
            return UrlOutput::Stdout;
        }
        match &self.dest {
            Some(dest) => UrlOutput::File(dest.clone()),
            None => UrlOutput::Stdout,
        }
    }
}

/// One entry per book whose download failed, in the order of the books:
/// its position counted from 1, the term, the title, and the failure.
pub open spec fn failed_downloads(books: Seq<FetchResult>, statuses: Seq<DownloadStatus>) -> Seq<
    Seq<char>,
>
    recommends
        books.len() == statuses.len(),
    decreases books.len(),
{
    if books.len() == 0 || statuses.len() == 0 {
        Seq::empty()
    } else {
        let init = failed_downloads(books.drop_last(), statuses.drop_last());
        match statuses.last() {
            DownloadStatus::Fail(failure) => init.push(
                "#"@ + decimal(books.len()) + ". Query term "@ + debug_form(
                    books.last()@.query_term,
                ) + ":\n  - "@ + books.last()@.book.title + "\n  - "@ + failure_text(failure),
            ),
            DownloadStatus::Success => init,
        }
    }
}

/// What is reported of the books that could not be downloaded: nothing
/// where all were; else how many failed, and one entry for each.
pub open spec fn download_report(books: Seq<FetchResult>, statuses: Seq<DownloadStatus>) -> Option<
    Seq<char>,
> {
    let failures = failed_downloads(books, statuses);
    if failures.len() == 0 {
        None
    } else {
        Some(
            "Failed downloads "@ + decimal(failures.len()) + "/"@ + decimal(books.len()) + ":\n"@
                + join(failures, "\n\n"@),
        )
    }
}

/// What to tell the user about the books that could not be downloaded.
/// There must be one status per book.
pub fn display_download_status(fetched_books: &Vec<FetchResult>, results: &Vec<DownloadStatus>) -> (report:
    Option<String>)
    requires
        fetched_books@.len() == results@.len(),
    ensures
        opt_text(report) == download_report(fetched_books@, results@),
{
    let mut fail_messages: Vec<String> = Vec::new();
    let mut p: usize = 0;
    assert(fail_messages.deep_view() =~= failed_downloads(
        fetched_books@.take(0),
        results@.take(0),
    ));
    while p < fetched_books.len()
        invariant
            p <= fetched_books.len(),
            fetched_books@.len() == results@.len(),
            fail_messages.len() <= p,
            fail_messages.deep_view() == failed_downloads(
                fetched_books@.take(p as int),
                results@.take(p as int),
            ),
        decreases fetched_books.len() - p,
    {
        let ghost before = fail_messages.deep_view();
        assert(fetched_books@.take(p + 1).drop_last() == fetched_books@.take(p as int));
        assert(results@.take(p + 1).drop_last() == results@.take(p as int));
        if let DownloadStatus::Fail(failure) = &results[p] {
            let mut entry = String::new();
            push_text(&mut entry, "#");
            push_decimal(&mut entry, p + 1);
            push_text(&mut entry, ". Query term ");
            let quoted = debug_quoted(fetched_books[p].query_term.as_str());
            push_text(&mut entry, quoted.as_str());
            push_text(&mut entry, ":\n  - ");
            push_text(&mut entry, fetched_books[p].book.title.as_str());
            push_text(&mut entry, "\n  - ");
            let shown = failure.describe();
            push_text(&mut entry, shown.as_str());
            fail_messages.push(entry);
            assert(fail_messages.deep_view() =~= before.push(entry@));
        }
        p += 1;
    }
    assert(fetched_books@.take(fetched_books.len() as int) == fetched_books@);
    assert(results@.take(results.len() as int) == results@);
    if fail_messages.len() == 0 {
        return None;
    }
    let mut report = String::new();
    push_text(&mut report, "Failed downloads ");
    push_decimal(&mut report, fail_messages.len());
    push_text(&mut report, "/");
    push_decimal(&mut report, fetched_books.len());
    push_text(&mut report, ":\n");
    let body = join_all(&fail_messages, "\n\n");
    push_text(&mut report, body.as_str());
    Some(report)
}

/// The summaries of the books, each under a numbered rule.
pub open spec fn metadata_listing(results: Seq<FetchResult>) -> Seq<char>
    decreases results.len(),
{
    if results.len() == 0 {
        Seq::empty()
    } else {
        metadata_listing(results.drop_last()) + "\n"@ + decimal(results.len())
            + ". ==============\n"@ + trim(resume_body(results.last()@.book)) + "\n"@
    }
}

/// What is shown of the books in verbose metadata-only mode.
pub fn display_main_metadata_attributes(results: &Vec<FetchResult>) -> (out: String)
    ensures
        out@ == metadata_listing(results@),
{
    let mut out = String::new();
    let mut p: usize = 0;
    assert(results@.take(0) =~= Seq::empty());
    while p < results.len()
        invariant
            p <= results.len(),
            out@ == metadata_listing(results@.take(p as int)),
        decreases results.len() - p,
    {
        assert(results@.take(p + 1).drop_last() == results@.take(p as int));
        let mut entry = String::new();
        push_text(&mut entry, "\n");
        push_decimal(&mut entry, p + 1);
        push_text(&mut entry, ". ==============\n");
        let summary = results[p].book.resume();
        push_text(&mut entry, summary.as_str());
        push_text(&mut entry, "\n");
        push_text(&mut out, entry.as_str());
        p += 1;
    }
    assert(results@.take(results.len() as int) == results@);
    out
}

} // verus!
