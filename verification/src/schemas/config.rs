//! The configuration and the fetch context derived from it.

use crate::collections::{position_of, StringMap};
use crate::cli::fetch::{credential, SharedFetchOption};
use crate::http::{
    copy_headers, extend_cookies, header_pairs, merge_headers,
    merged_headers, opt_auth, AuthKind, AuthView, FetchContext, FetchContextView,
};
use crate::schemas::cookies::{minimal_cookie, CookieView, NetscapeCookie};
use crate::text::{concat, opt_text, push_text};
use crate::utils::{compute_query_signature, fingerprint};
use vstd::prelude::*;

verus! {

/// `base` with `component` joined to it. A path is kept as the components
/// that are joined to make it; the first is a root as it was configured
/// and may itself hold separators.
pub fn join_path(base: &Vec<String>, component: &str) -> (path: Vec<String>)
    ensures
        path.deep_view() == base.deep_view().push(component@),
{
    let mut path: Vec<String> = Vec::new();
    let mut i: usize = 0;
    assert(path.deep_view() =~= base.deep_view().take(0));
    while i < base.len()
        invariant
            i <= base.len(),
            path.deep_view() == base.deep_view().take(i as int),
        decreases base.len() - i,
    {
        let ghost before = path.deep_view();
        path.push(base[i].clone());
        assert(path.deep_view() =~= before.push(base@[i as int]@));
        assert(path.deep_view() =~= base.deep_view().take(i + 1));
        i += 1;
    }
    assert(base.deep_view().take(base.len() as int) == base.deep_view());
    let ghost before = path.deep_view();
    let mut last = String::new();
    push_text(&mut last, component);
    path.push(last);
    assert(path.deep_view() =~= before.push(component@));
    path
}

/// The path made of the single component `root`.
pub fn root_path(root: &str) -> (path: Vec<String>)
    ensures
        path.deep_view() == seq![root@],
{
    let mut path: Vec<String> = Vec::new();
    let mut first = String::new();
    push_text(&mut first, root);
    path.push(first);
    assert(path.deep_view() =~= seq![root@]);
    path
}

/// The name under which the request profile shared by all plugins is kept.
pub open spec fn all_profile() -> Seq<char> {
    "_all"@
}

/// Settings that come from the command line rather than from the file.
#[derive(Debug, Clone)]
pub struct AdditionalOptions {
    pub focused_plugin: Option<String>,
    pub auth_kind: Option<AuthKind>,
}

/// Where downloads, staged downloads and metadata go.
#[derive(Debug, Clone)]
pub struct DownloadFolder {
    pub download: Vec<String>,
    pub temp: Vec<String>,
    pub metadata: Vec<String>,
}

/// Whether resolved books are cached, and where.
#[derive(Debug, Clone)]
pub struct Cache {
    pub enable: bool,
    pub folder: Vec<String>,
}

/// Pauses, in milliseconds, after a fetch and after a download.
#[derive(Debug, Clone)]
pub struct Delay {
    pub fetch: u32,
    pub download: u32,
}

/// A request profile: what a plugin, or all of them, add to a request.
#[derive(Debug, Clone)]
pub struct Request {
    pub user_agent: Option<String>,
    pub headers: Option<StringMap<String>>,
    pub cookies: Option<Vec<(String, String)>>,
    pub extra_config: Option<StringMap<String>>,
}

/// Where plugins live and whether only metadata is fetched.
#[derive(Debug, Clone)]
pub struct PluginOptions {
    pub location: Vec<String>,
    pub meta_only: bool,
}

/// The configuration of a run.
#[derive(Debug, Clone)]
pub struct Config {
    pub version: String,
    pub plugins: PluginOptions,
    pub download_folder: DownloadFolder,
    pub cache: Cache,
    pub delay: Delay,
    pub max_size_batch: usize,
    pub max_size_mini_batch: usize,
    pub max_size_init_crawl_batch: usize,
    pub max_parallel_fetch: usize,
    pub verbose: bool,
    pub custom_downloader: bool,
    pub request: StringMap<Request>,
    pub __options: AdditionalOptions,
    /// A context that was handed in from outside while the program runs.
    /// It is kept apart from the request profiles.
    pub __known_fetch_context: Option<FetchContext>,
}

impl Request {
    /// Whether the maps of this profile are proper maps.
    pub open spec fn wf(&self) -> bool {
        &&& self.headers matches Some(h) ==> h.wf()
        &&& self.extra_config matches Some(c) ==> c.wf()
    }

    /// The headers of this profile.
    pub open spec fn header_list(&self) -> Seq<(Seq<char>, Seq<char>)> {
        match self.headers {
            Some(h) => header_pairs(h),
            None => Seq::empty(),
        }
    }

    /// The cookies of this profile, one minimal cookie per pair.
    pub open spec fn cookie_list(&self) -> Seq<CookieView> {
        match self.cookies {
            Some(pairs) => Seq::new(pairs@.len(), |i: int| minimal_cookie(pairs@[i].0@, pairs@[i].1@)),
            None => Seq::empty(),
        }
    }

    /// The profile that adds nothing.
    pub fn new() -> (request: Request)
        ensures
            request.wf(),
            request.user_agent is None,
            request.headers is None,
            request.cookies is None,
            request.extra_config is None,
    {
        Request { user_agent: None, headers: None, cookies: None, extra_config: None }
    }

    fn headers_or_empty(&self) -> (headers: StringMap<String>)
        requires
            self.wf(),
        ensures
            headers.wf(),
            header_pairs(headers) == self.header_list(),
    {
        match &self.headers {
            Some(h) => copy_headers(h),
            None => {
                let empty: StringMap<String> = StringMap::new();
                assert(header_pairs(empty) =~= Seq::empty());
                empty
            },
        }
    }

    fn cookies_or_empty(&self) -> (cookies: Vec<NetscapeCookie>)
        ensures
            cookies.deep_view() == self.cookie_list(),
    {
        match &self.cookies {
            Some(pairs) => NetscapeCookie::from_hashmap(pairs),
            None => {
                let empty: Vec<NetscapeCookie> = Vec::new();
                assert(empty.deep_view() =~= Seq::empty());
                empty
            },
        }
    }
}

/// The context that the shared profile `shared` gives, with the
/// process-wide credential `auth`.
pub open spec fn shared_context(shared: Request, auth: Option<AuthView>) -> FetchContextView {
    FetchContextView {
        user_agent: opt_text(shared.user_agent),
        headers: shared.header_list(),
        cookies: shared.cookie_list(),
        auth,
    }
}

/// The context for requests on behalf of a plugin with the profile
/// `own`: its user agent where it has one, else the shared one; the
/// shared headers, then those of its own whose names are still free; the
/// shared cookies, then its own; and the process-wide credential.
pub open spec fn focused_context(shared: Request, own: Request, auth: Option<AuthView>) -> FetchContextView {
    FetchContextView {
        user_agent: if own.user_agent is Some {
            opt_text(own.user_agent)
        } else {
            opt_text(shared.user_agent)
        },
        headers: merged_headers(shared.header_list(), own.header_list()),
        cookies: shared.cookie_list() + own.cookie_list(),
        auth,
    }
}

impl Config {
    /// Whether every map in the configuration is a proper map.
    pub open spec fn wf(&self) -> bool {
        profiles_wf(self.request)
    }

    /// The context that this configuration gives to requests; see
    /// [`shared_context`] and [`focused_context`]. The profile of the
    /// focused plugin counts only where the configuration holds one.
    pub open spec fn fetch_context(&self) -> FetchContextView {
        let shared = self.request.lookup(all_profile())->0;
        let auth = opt_auth(self.__options.auth_kind);
        match self.__options.focused_plugin {
            Some(name) => match self.request.lookup(name@) {
                Some(own) => focused_context(shared, own, auth),
                None => shared_context(shared, auth),
            },
            None => shared_context(shared, auth),
        }
    }

    /// Collects user agent, headers, cookies and credential for a request.
    /// The configuration must hold the shared profile.
    pub fn gen_fetch_context(&self) -> (ctx: FetchContext)
        requires
            self.wf(),
            self.request.keys().contains(all_profile()),
        ensures
            ctx.wf(),
            ctx@ == self.fetch_context(),
    {
        proof {
            self.request.lemma_wf();
        }
        let at = self.request.position("_all");
        let shared: &Request = match at {
            Some(i) => self.request.value_at(i),
            None => {
                proof {
                    assert(false);
                }
                vstd::pervasive::unreached()
            },
        };
        let auth = match &self.__options.auth_kind {
            Some(a) => Some(a.copy()),
            None => None,
        };
        let mut ctx = FetchContext {
            user_agent: match &shared.user_agent {
                Some(ua) => Some(ua.clone()),
                None => None,
            },
            headers: shared.headers_or_empty(),
            cookies: shared.cookies_or_empty(),
            auth,
        };
        match &self.__options.focused_plugin {
            Some(plugin_name) => {
                match self.request.position(plugin_name.as_str()) {
                    Some(j) => {
                        let own: &Request = self.request.value_at(j);
                        if own.user_agent.is_some() {
                            ctx.user_agent = match &own.user_agent {
                                Some(ua) => Some(ua.clone()),
                                None => None,
                            };
                        }
                        let overlay = own.headers_or_empty();
                        merge_headers(&mut ctx.headers, &overlay);
                        let more = own.cookies_or_empty();
                        extend_cookies(&mut ctx.cookies, &more);
                    },
                    None => {},
                }
            },
            None => {},
        }
        ctx
    }

    /// The file in which the book resolved for `(term, plugin_name)` is
    /// cached: `{fingerprint}.json` in the cache folder.
    pub fn get_cache_file_path(&self, term: &str, plugin_name: &str) -> (path: Vec<String>)
        ensures
            path.deep_view() == self.cache.folder.deep_view().push(
                fingerprint(term@, plugin_name@) + ".json"@,
            ),
    {
        let signature = compute_query_signature(term, plugin_name);
        let name = concat(signature.as_str(), ".json");
        join_path(&self.cache.folder, name.as_str())
    }

    /// The configuration that a first run starts with. `version` is the
    /// version of the program, `os` and `arch` name the platform.
    pub fn new(version: &str, os: &str, arch: &str) -> (config: Config)
        ensures
            config.wf(),
            config.version@ == version@,
            config.request.keys() == seq![all_profile()],
            opt_text(config.request.values()[0].user_agent) == Some(
                "mx-scraper/"@ + version@ + " ("@ + os@ + "; "@ + arch@ + ")"@,
            ),
            config.request.values()[0].header_list() == seq![("Accept"@, "*/*"@)],
            config.request.values()[0].cookies is None,
            config.request.values()[0].extra_config is None,
            config.plugins.location.deep_view() == seq!["./plugins"@],
            !config.plugins.meta_only,
            config.download_folder.download.deep_view() == seq!["./download/download"@],
            config.download_folder.temp.deep_view() == seq!["./download/temp"@],
            config.download_folder.metadata.deep_view() == seq!["./download/metadata"@],
            config.cache.enable,
            config.cache.folder.deep_view() == seq!["./query_cache"@],
            config.delay.fetch == 25,
            config.delay.download == 25,
            config.max_size_batch == 10,
            config.max_size_mini_batch == 5,
            config.max_size_init_crawl_batch == 10,
            config.max_parallel_fetch == 50,
            !config.verbose,
            !config.custom_downloader,
            config.__options.focused_plugin is None,
            config.__options.auth_kind is None,
            config.__known_fetch_context is None,
    {
        let mut user_agent = String::new();
        push_text(&mut user_agent, "mx-scraper/");
        push_text(&mut user_agent, version);
        push_text(&mut user_agent, " (");
        push_text(&mut user_agent, os);
        push_text(&mut user_agent, "; ");
        push_text(&mut user_agent, arch);
        push_text(&mut user_agent, ")");
        let mut headers: StringMap<String> = StringMap::new();
        let mut name = String::new();
        push_text(&mut name, "Accept");
        let mut value = String::new();
        push_text(&mut value, "*/*");
        let stored = headers.insert_if_absent(name, value);
        assert(header_pairs(headers) =~= seq![("Accept"@, "*/*"@)]);
        let shared = Request {
            user_agent: Some(user_agent),
            headers: Some(headers),
            cookies: None,
            extra_config: None,
        };
        let mut request: StringMap<Request> = StringMap::new();
        let mut all = String::new();
        push_text(&mut all, "_all");
        let stored = request.insert_if_absent(all, shared);
        assert(request.keys() =~= seq![all_profile()]);
        let mut own_version = String::new();
        push_text(&mut own_version, version);
        Config {
            version: own_version,
            plugins: PluginOptions { location: root_path("./plugins"), meta_only: false },
            download_folder: DownloadFolder {
                download: root_path("./download/download"),
                temp: root_path("./download/temp"),
                metadata: root_path("./download/metadata"),
            },
            cache: Cache { enable: true, folder: root_path("./query_cache") },
            delay: Delay { fetch: 25, download: 25 },
            max_size_batch: 10,
            max_size_mini_batch: 5,
            max_size_init_crawl_batch: 10,
            max_parallel_fetch: 50,
            verbose: false,
            custom_downloader: false,
            request,
            __options: AdditionalOptions { focused_plugin: None, auth_kind: None },
            __known_fetch_context: None,
        }
    }

    /// Takes the options of the command line up into the configuration.
    /// `cookies` is what was read from the cookie file where the options
    /// name one. Flags are taken up first; then the cookies, which fail
    /// the whole where they could not be read; then the batch sizes, the
    /// plugin and the credential, which fails the whole where it names
    /// neither a user nor a token.
    pub fn adapt_override(
        &mut self,
        fetch_option: SharedFetchOption,
        cookies: Option<Result<Vec<NetscapeCookie>, String>>,
    ) -> (r: Result<(), String>)
        requires
            old(self).wf(),
        ensures
            final(self).wf(),
            final(self).version == old(self).version,
            final(self).download_folder == old(self).download_folder,
            final(self).delay == old(self).delay,
            final(self).max_parallel_fetch == old(self).max_parallel_fetch,
            final(self).cache.folder == old(self).cache.folder,
            final(self).plugins.location == old(self).plugins.location,
            final(self).__known_fetch_context == old(self).__known_fetch_context,
            final(self).cache.enable == (old(self).cache.enable && !fetch_option.no_cache),
            final(self).plugins.meta_only == (old(self).plugins.meta_only
                || fetch_option.meta_only),
            final(self).verbose == fetch_option.verbose,
            final(self).custom_downloader == fetch_option.custom_downloader,
            match cookies {
                Some(Err(e)) => {
                    &&& r == Err::<(), String>(e)
                    &&& final(self).request == old(self).request
                    &&& final(self).max_size_batch == old(self).max_size_batch
                    &&& final(self).max_size_mini_batch == old(self).max_size_mini_batch
                    &&& final(self).max_size_init_crawl_batch == old(
                        self,
                    ).max_size_init_crawl_batch
                    &&& final(self).__options == old(self).__options
                },
                _ => {
                    &&& match cookies {
                        Some(Ok(list)) => with_shared_cookies(
                            old(self).request,
                            final(self).request,
                            crate::http::cookie_map(list.deep_view()),
                        ),
                        _ => final(self).request == old(self).request,
                    }
                    &&& final(self).max_size_batch == match fetch_option.batch_size {
                        Some(n) => n,
                        None => old(self).max_size_batch,
                    }
                    &&& final(self).max_size_mini_batch == match fetch_option.mini_batch_size {
                        Some(n) => n,
                        None => old(self).max_size_mini_batch,
                    }
                    &&& final(self).max_size_init_crawl_batch
                        == match fetch_option.max_size_init_crawl_batch {
                        Some(n) => n,
                        None => old(self).max_size_init_crawl_batch,
                    }
                    &&& match fetch_option.plugin {
                        Some(name) => opt_text(final(self).__options.focused_plugin) == Some(name@),
                        None => final(self).__options.focused_plugin == old(
                            self,
                        ).__options.focused_plugin,
                    }
                    &&& match fetch_option.auth {
                        None => r is Ok && final(self).__options.auth_kind == old(
                            self,
                        ).__options.auth_kind,
                        Some(auth) => match credential(
                            opt_text(auth.user),
                            opt_text(auth.password),
                            opt_text(auth.bearer),
                        ) {
                            Ok(kind) => r is Ok && opt_auth(final(self).__options.auth_kind)
                                == Some(kind),
                            Err(e) => r matches Err(m) && m@ == e && final(self).__options.auth_kind == old(self).__options.auth_kind,
                        },
                    }
                },
            },
    {
        self.cache.enable = self.cache.enable && !fetch_option.no_cache;
        self.plugins.meta_only = self.plugins.meta_only || fetch_option.meta_only;
        self.verbose = fetch_option.verbose;
        self.custom_downloader = fetch_option.custom_downloader;
        match cookies {
            Some(Err(e)) => {
                return Err(e);
            },
            Some(Ok(list)) => {
                set_shared_cookies(&mut self.request, list);
            },
            None => {},
        }
        self.max_size_batch = or_keep(fetch_option.batch_size, self.max_size_batch);
        self.max_size_mini_batch = or_keep(fetch_option.mini_batch_size, self.max_size_mini_batch);
        self.max_size_init_crawl_batch = or_keep(
            fetch_option.max_size_init_crawl_batch,
            self.max_size_init_crawl_batch,
        );
        if let Some(focused_plugin) = fetch_option.plugin {
            self.__options.focused_plugin = Some(focused_plugin);
        }
        if let Some(auth) = fetch_option.auth {
            match auth.gen_basic_auth() {
                Ok(kind) => {
                    self.__options.auth_kind = Some(kind);
                },
                Err(e) => {
                    return Err(e);
                },
            }
        }
        Ok(())
    }
}

fn or_keep(value: Option<usize>, current: usize) -> (out: usize)
    ensures
        out == match value {
            Some(n) => n,
            None => current,
        },
{
    match value {
        Some(n) => n,
        None => current,
    }
}

/// Whether every profile of `request` is well formed.
pub open spec fn profiles_wf(request: StringMap<Request>) -> bool {
    &&& request.wf()
    &&& forall|i: int| 0 <= i < request.values().len() ==> (#[trigger] request.values()[i]).wf()
}

/// Whether `after` is `before` once the shared profile has the cookies
/// `cookies`: every other profile is as it was, and so is everything else
/// in the shared profile. Without a shared profile nothing changes.
pub open spec fn with_shared_cookies(
    before: StringMap<Request>,
    after: StringMap<Request>,
    cookies: Seq<(Seq<char>, Seq<char>)>,
) -> bool {
    match position_of(before.keys(), all_profile()) {
        None => after == before,
        Some(at) => {
            let was = before.values()[at];
            let is = after.values()[at];
            &&& after.keys() == before.keys()
            &&& after.values() == before.values().update(at, is)
            &&& is.user_agent == was.user_agent
            &&& is.headers == was.headers
            &&& is.extra_config == was.extra_config
            &&& is.cookies matches Some(pairs) && pairs.deep_view() == cookies
        },
    }
}

fn set_shared_cookies(request: &mut StringMap<Request>, list: Vec<NetscapeCookie>)
    requires
        profiles_wf(*old(request)),
    ensures
        profiles_wf(*final(request)),
        with_shared_cookies(
            *old(request),
            *final(request),
            crate::http::cookie_map(list.deep_view()),
        ),
{
    let pairs = NetscapeCookie::to_map(&list);
    assert(pairs.deep_view() =~= crate::http::cookie_map(list.deep_view()));
    proof {
        request.lemma_wf();
    }
    match request.position("_all") {
        Some(at) => {
            let ghost before = *request;
            let mut shared = request.replace_at(at, Request::new());
            shared.cookies = Some(pairs);
            let placeholder = request.replace_at(at, shared);
            proof {
                assert(request.values() =~= before.values().update(at as int, shared));
                assert forall|i: int| 0 <= i < request.values().len() implies (
                #[trigger] request.values()[i]).wf() by {
                    if i != at {
                        assert(request.values()[i] == before.values()[i]);
                    } else {
                        assert(before.values()[at as int].wf());
                    }
                }
            }
        },
        None => {},
    }
}

} // verus!
