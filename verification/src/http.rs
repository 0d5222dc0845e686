//! Fetch contexts and the requests that the two resolvers make from them.

use crate::collections::{position_of, StringMap};
use crate::schemas::cookies::{cookie_header, CookieView, NetscapeCookie};
use crate::text::{opt_text, push_decimal, push_text};
use vstd::prelude::*;
use vstd::string::*;
use vstd::utf8::*;

verus! {

/// How many redirects a direct request follows.
pub const MAX_REDIRECTS: usize = 5;

/// A credential sent with a request.
#[derive(Debug, Clone)]
pub enum AuthKind {
    Basic { user: String, password: Option<String> },
    Bearer { token: String },
}

/// The view of an [`AuthKind`].
pub enum AuthView {
    Basic { user: Seq<char>, password: Option<Seq<char>> },
    Bearer { token: Seq<char> },
}

impl DeepView for AuthKind {
    type V = AuthView;

    open spec fn deep_view(&self) -> AuthView {
        match self {
            AuthKind::Basic { user, password } => AuthView::Basic {
                user: user@,
                password: opt_text(*password),
            },
            AuthKind::Bearer { token } => AuthView::Bearer { token: token@ },
        }
    }
}

impl View for AuthKind {
    type V = AuthView;

    open spec fn view(&self) -> AuthView {
        self.deep_view()
    }
}

/// The view of an optional credential.
pub open spec fn opt_auth(auth: Option<AuthKind>) -> Option<AuthView> {
    match auth {
        Some(a) => Some(a@),
        None => None,
    }
}

/// The character that stands for the six-bit value `v` in base 64.
pub open spec fn base64_char(v: int) -> char {
    if v < 26 {
        ('A' as int + v) as char
    } else if v < 52 {
        ('a' as int + v - 26) as char
    } else if v < 62 {
        ('0' as int + v - 52) as char
    } else if v == 62 {
        '+'
    } else {
        '/'
    }
}

/// `bytes` in base 64, with the standard alphabet and `=` padding.
pub open spec fn base64(bytes: Seq<u8>) -> Seq<char>
    decreases bytes.len(),
{
    if bytes.len() == 0 {
        Seq::empty()
    } else if bytes.len() == 1 {
        let n = bytes[0] as int * 65536;
        seq![base64_char(n / 262144), base64_char(n / 4096 % 64), '=', '=']
    } else if bytes.len() == 2 {
        let n = bytes[0] as int * 65536 + bytes[1] as int * 256;
        seq![base64_char(n / 262144), base64_char(n / 4096 % 64), base64_char(n / 64 % 64), '=']
    } else {
        let n = bytes[0] as int * 65536 + bytes[1] as int * 256 + bytes[2] as int;
        seq![
            base64_char(n / 262144),
            base64_char(n / 4096 % 64),
            base64_char(n / 64 % 64),
            base64_char(n % 64),
        ] + base64(bytes.skip(3))
    }
}

fn base64_digit(v: u32) -> (c: char)
    requires
        v < 64,
    ensures
        c == base64_char(v as int),
{
    if v < 26 {
        (65u8 + v as u8) as char
    } else if v < 52 {
        (97u8 + (v - 26) as u8) as char
    } else if v < 62 {
        (48u8 + (v - 52) as u8) as char
    } else if v == 62 {
        '+'
    } else {
        '/'
    }
}

/// Encodes `bytes` in base 64.
pub fn base64_encode(bytes: &[u8]) -> (out: String)
    ensures
        out@ == base64(bytes@),
{
    let mut out = String::new();
    let mut i: usize = 0;
    assert(bytes@.skip(0) == bytes@);
    assert(out@ + base64(bytes@) == base64(bytes@));
    while bytes.len() - i >= 3
        invariant
            i <= bytes.len(),
            out@ + base64(bytes@.skip(i as int)) == base64(bytes@),
        decreases bytes.len() - i,
    {
        let ghost rest = bytes@.skip(i as int);
        assert(rest.skip(3) == bytes@.skip(i + 3));
        let n: u32 = bytes[i] as u32 * 65536 + bytes[i + 1] as u32 * 256 + bytes[i + 2] as u32;
        let ghost before = out@;
        let ghost four = seq![
            base64_char(n as int / 262144),
            base64_char(n as int / 4096 % 64),
            base64_char(n as int / 64 % 64),
            base64_char(n as int % 64),
        ];
        out.push(base64_digit(n / 262144));
        out.push(base64_digit(n / 4096 % 64));
        out.push(base64_digit(n / 64 % 64));
        out.push(base64_digit(n % 64));
        assert(out@ == before + four);
        assert(base64(rest) == four + base64(rest.skip(3)));
        assert((before + four) + base64(rest.skip(3)) == before + (four + base64(rest.skip(3))));
        i += 3;
    }
    let ghost rest = bytes@.skip(i as int);
    let ghost before = out@;
    if bytes.len() - i == 1 {
        let n: u32 = bytes[i] as u32 * 65536;
        out.push(base64_digit(n / 262144));
        out.push(base64_digit(n / 4096 % 64));
        out.push('=');
        out.push('=');
        assert(out@ == before + base64(rest));
    } else if bytes.len() - i == 2 {
        let n: u32 = bytes[i] as u32 * 65536 + bytes[i + 1] as u32 * 256;
        out.push(base64_digit(n / 262144));
        out.push(base64_digit(n / 4096 % 64));
        out.push(base64_digit(n / 64 % 64));
        out.push('=');
        assert(out@ == before + base64(rest));
    } else {
        assert(out@ == before + base64(rest));
    }
    out
}

/// `user:password`, where an absent password counts as empty.
pub open spec fn basic_pair(user: Seq<char>, password: Option<Seq<char>>) -> Seq<char> {
    user + seq![':'] + match password {
        Some(p) => p,
        None => Seq::empty(),
    }
}

/// The value of the `Authorization` header for `auth`: `Basic` and the
/// base 64 of `user:password` (an absent password counts as empty), or
/// `Bearer` and the token.
pub open spec fn authorization(auth: AuthView) -> Seq<char> {
    match auth {
        AuthView::Basic { user, password } => "Basic "@ + base64(
            encode_utf8(basic_pair(user, password)),
        ),
        AuthView::Bearer { token } => "Bearer "@ + token,
    }
}

impl AuthKind {
    /// A copy of this credential.
    pub fn copy(&self) -> (auth: AuthKind)
        ensures
            auth@ == self@,
    {
        match self {
            AuthKind::Basic { user, password } => AuthKind::Basic {
                user: user.clone(),
                password: match password {
                    Some(p) => Some(p.clone()),
                    None => None,
                },
            },
            AuthKind::Bearer { token } => AuthKind::Bearer { token: token.clone() },
        }
    }

    /// The value of the `Authorization` header for this credential.
    pub fn stringify(&self) -> (header: String)
        ensures
            header@ == authorization(self@),
    {
        let mut header = String::new();
        match self {
            AuthKind::Basic { user, password } => {
                let plain = join_basic_pair(user, password);
                let encoded = base64_encode(plain.as_str().as_bytes());
                push_text(&mut header, "Basic ");
                push_text(&mut header, encoded.as_str());
            },
            AuthKind::Bearer { token } => {
                push_text(&mut header, "Bearer ");
                push_text(&mut header, token.as_str());
            },
        }
        header
    }
}

fn join_basic_pair(user: &String, password: &Option<String>) -> (plain: String)
    ensures
        plain@ == basic_pair(user@, opt_text(*password)),
{
    let mut plain = String::new();
    push_text(&mut plain, user.as_str());
    plain.push(':');
    match password {
        Some(p) => {
            push_text(&mut plain, p.as_str());
        },
        None => {
            assert(plain@ + Seq::<char>::empty() == plain@);
        },
    }
    plain
}

fn copy_auth(auth: &Option<AuthKind>) -> (out: Option<AuthKind>)
    ensures
        opt_auth(out) == opt_auth(*auth),
{
    match auth {
        Some(a) => Some(a.copy()),
        None => None,
    }
}

fn copy_text(text: &Option<String>) -> (out: Option<String>)
    ensures
        opt_text(out) == opt_text(*text),
{
    match text {
        Some(s) => Some(s.clone()),
        None => None,
    }
}

/// Header names and values, paired.
pub open spec fn header_pairs(headers: StringMap<String>) -> Seq<(Seq<char>, Seq<char>)> {
    Seq::new(headers.keys().len(), |i: int| (headers.keys()[i], headers.values()[i]@))
}

/// The names of a list of headers.
pub open spec fn names_of(pairs: Seq<(Seq<char>, Seq<char>)>) -> Seq<Seq<char>> {
    Seq::new(pairs.len(), |i: int| pairs[i].0)
}

/// The value that `pairs` gives to `name`, if any: that of the first pair
/// with this name.
pub open spec fn value_of(pairs: Seq<(Seq<char>, Seq<char>)>, name: Seq<char>) -> Option<
    Seq<char>,
> {
    match position_of(names_of(pairs), name) {
        Some(i) => Some(pairs[i].1),
        None => None,
    }
}

/// `base` extended by the headers of `overlay` whose names it lacks, in
/// the order of `overlay`. A name that both have keeps the value of
/// `base`: the first insertion wins.
pub open spec fn merged_headers(
    base: Seq<(Seq<char>, Seq<char>)>,
    overlay: Seq<(Seq<char>, Seq<char>)>,
) -> Seq<(Seq<char>, Seq<char>)>
    decreases overlay.len(),
{
    if overlay.len() == 0 {
        base
    } else {
        let so_far = merged_headers(base, overlay.drop_last());
        if names_of(so_far).contains(overlay.last().0) {
            so_far
        } else {
            so_far.push(overlay.last())
        }
    }
}

/// Merging keeps every header of the base where it was, and never makes
/// a name occur twice.
pub proof fn lemma_merged_extends_base(
    base: Seq<(Seq<char>, Seq<char>)>,
    overlay: Seq<(Seq<char>, Seq<char>)>,
)
    ensures
        base.len() <= merged_headers(base, overlay).len(),
        merged_headers(base, overlay).take(base.len() as int) == base,
        names_of(base).no_duplicates() ==> names_of(merged_headers(base, overlay)).no_duplicates(),
    decreases overlay.len(),
{
    if overlay.len() == 0 {
        assert(base.take(base.len() as int) == base);
    } else {
        lemma_merged_extends_base(base, overlay.drop_last());
        let so_far = merged_headers(base, overlay.drop_last());
        let all = merged_headers(base, overlay);
        assert(so_far.push(overlay.last()).take(base.len() as int) == so_far.take(
            base.len() as int,
        ));
        if names_of(base).no_duplicates() && !names_of(so_far).contains(overlay.last().0) {
            assert forall|a: int, b: int|
                0 <= a < all.len() && 0 <= b < all.len() && a != b implies names_of(all)[a]
                != names_of(all)[b] by {
                if a < so_far.len() {
                    assert(names_of(so_far)[a] == names_of(all)[a]);
                }
                if b < so_far.len() {
                    assert(names_of(so_far)[b] == names_of(all)[b]);
                }
            }
        }
    }
}

/// Composition is monotone: every header name of the base is a name of
/// the merge and keeps the value the base gave it, and every header name
/// of the overlay is a name of the merge.
pub proof fn lemma_merge_is_monotone(
    base: Seq<(Seq<char>, Seq<char>)>,
    overlay: Seq<(Seq<char>, Seq<char>)>,
    name: Seq<char>,
)
    requires
        names_of(base).no_duplicates(),
    ensures
        names_of(base).contains(name) ==> names_of(merged_headers(base, overlay)).contains(name)
            && value_of(merged_headers(base, overlay), name) == value_of(base, name),
        names_of(overlay).contains(name) ==> names_of(merged_headers(base, overlay)).contains(
            name,
        ),
    decreases overlay.len(),
{
    let all = merged_headers(base, overlay);
    lemma_merged_extends_base(base, overlay);
    if names_of(base).contains(name) {
        let i = names_of(base).index_of(name);
        assert(names_of(base)[i] == name);
        assert(all.take(base.len() as int)[i] == all[i]);
        assert(names_of(all)[i] == name);
        let j = names_of(all).index_of(name);
        assert(names_of(all)[j] == name);
        assert(i == j);
    }
    if names_of(overlay).contains(name) {
        let k = names_of(overlay).index_of(name);
        assert(names_of(overlay)[k] == name);
        let init = overlay.drop_last();
        let so_far = merged_headers(base, init);
        if k == overlay.len() - 1 {
            if !names_of(so_far).contains(name) {
                assert(names_of(all)[all.len() - 1] == name);
            }
        } else {
            assert(names_of(init)[k] == name);
            lemma_merge_is_monotone(base, init, name);
            let j = names_of(so_far).index_of(name);
            assert(names_of(so_far)[j] == name);
            if !names_of(so_far).contains(overlay.last().0) {
                assert(names_of(all)[j] == name);
            }
        }
    }
}

/// A copy of `headers`.
pub fn copy_headers(headers: &StringMap<String>) -> (out: StringMap<String>)
    requires
        headers.wf(),
    ensures
        out.wf(),
        header_pairs(out) == header_pairs(*headers),
{
    let mut out: StringMap<String> = StringMap::new();
    let mut i: usize = 0;
    proof {
        headers.lemma_wf();
    }
    while i < headers.len()
        invariant
            i <= headers.keys().len(),
            headers.wf(),
            headers.keys().no_duplicates(),
            out.wf(),
            out.keys() == headers.keys().take(i as int),
            header_pairs(out) == header_pairs(*headers).take(i as int),
        decreases headers.keys().len() - i,
    {
        let ghost before = out;
        proof {
            before.lemma_wf();
        }
        let key = headers.key_at(i).clone();
        let value = headers.value_at(i).clone();
        assert(!headers.keys().take(i as int).contains(key@)) by {
            if headers.keys().take(i as int).contains(key@) {
                let k = headers.keys().take(i as int).index_of(key@);
                assert(headers.keys()[k] == headers.keys()[i as int]);
            }
        }
        let stored = out.insert_if_absent(key, value);
        assert(out.keys() =~= headers.keys().take(i + 1));
        assert(header_pairs(out) =~= header_pairs(*headers).take(i + 1)) by {
            assert forall|k: int| 0 <= k < i + 1 implies header_pairs(out)[k] == header_pairs(
                *headers,
            )[k] by {
                if k < i {
                    assert(header_pairs(before)[k] == header_pairs(*headers).take(i as int)[k]);
                    assert(out.values()[k] == before.values()[k]);
                    assert(out.keys()[k] == before.keys()[k]);
                } else {
                    assert(out.values()[k] == value);
                }
            }
        }
        i += 1;
    }
    assert(header_pairs(*headers).take(headers.keys().len() as int) == header_pairs(*headers));
    out
}

/// Adds to `target` the headers of `overlay` whose names it lacks.
pub fn merge_headers(target: &mut StringMap<String>, overlay: &StringMap<String>)
    requires
        old(target).wf(),
        overlay.wf(),
    ensures
        final(target).wf(),
        header_pairs(*final(target)) == merged_headers(
            header_pairs(*old(target)),
            header_pairs(*overlay),
        ),
{
    let mut i: usize = 0;
    while i < overlay.len()
        invariant
            i <= overlay.keys().len(),
            overlay.wf(),
            target.wf(),
            header_pairs(*target) == merged_headers(
                header_pairs(*old(target)),
                header_pairs(*overlay).take(i as int),
            ),
        decreases overlay.keys().len() - i,
    {
        let ghost before = *target;
        let ghost upto = header_pairs(*overlay).take(i + 1);
        let key = overlay.key_at(i).clone();
        let value = overlay.value_at(i).clone();
        proof {
            assert(upto.drop_last() == header_pairs(*overlay).take(i as int));
            assert(upto.last() == (key@, value@));
            assert(names_of(header_pairs(before)) =~= before.keys());
            before.lemma_wf();
        }
        let stored = target.insert_if_absent(key, value);
        proof {
            target.lemma_wf();
            if stored {
                assert(header_pairs(*target) =~= header_pairs(before).push((key@, value@)));
            } else {
                assert(header_pairs(*target) =~= header_pairs(before));
            }
        }
        i += 1;
    }
    assert(header_pairs(*overlay).take(overlay.keys().len() as int) == header_pairs(*overlay));
}

/// What decorates one request: user agent, headers, cookies, credential.
#[derive(Debug, Clone)]
pub struct FetchContext {
    pub user_agent: Option<String>,
    pub headers: StringMap<String>,
    pub cookies: Vec<NetscapeCookie>,
    pub auth: Option<AuthKind>,
}

/// The view of a [`FetchContext`].
pub struct FetchContextView {
    pub user_agent: Option<Seq<char>>,
    pub headers: Seq<(Seq<char>, Seq<char>)>,
    pub cookies: Seq<CookieView>,
    pub auth: Option<AuthView>,
}

impl DeepView for FetchContext {
    type V = FetchContextView;

    open spec fn deep_view(&self) -> FetchContextView {
        FetchContextView {
            user_agent: opt_text(self.user_agent),
            headers: header_pairs(self.headers),
            cookies: self.cookies.deep_view(),
            auth: opt_auth(self.auth),
        }
    }
}

impl View for FetchContext {
    type V = FetchContextView;

    open spec fn view(&self) -> FetchContextView {
        self.deep_view()
    }
}

/// The context that decorates nothing.
pub open spec fn empty_context() -> FetchContextView {
    FetchContextView {
        user_agent: None,
        headers: Seq::empty(),
        cookies: Seq::empty(),
        auth: None,
    }
}

/// `me` after it has taken up `other`: the user agent of `other` where it
/// has one, the headers of `other` that `me` lacks, and the cookies of
/// both. The credential is the one `me` had: it is set for the whole
/// process and no other context replaces it.
pub open spec fn inherit(me: FetchContextView, other: FetchContextView) -> FetchContextView {
    FetchContextView {
        user_agent: if other.user_agent is Some {
            other.user_agent
        } else {
            me.user_agent
        },
        headers: merged_headers(me.headers, other.headers),
        cookies: me.cookies + other.cookies,
        auth: me.auth,
    }
}

/// The headers that a direct request sets, in the order in which they
/// are set: the user agent where there is one, the headers of the
/// context, and the `Cookie` header.
pub open spec fn header_entries(ctx: FetchContextView) -> Seq<(Seq<char>, Seq<char>)> {
    (match ctx.user_agent {
        Some(ua) => seq![("user-agent"@, ua)],
        None => Seq::empty(),
    }) + ctx.headers + seq![("cookie"@, cookie_header(ctx.cookies))]
}

/// A copy of `cookies`.
pub fn copy_cookies(cookies: &Vec<NetscapeCookie>) -> (out: Vec<NetscapeCookie>)
    ensures
        out.deep_view() == cookies.deep_view(),
{
    let mut out: Vec<NetscapeCookie> = Vec::new();
    extend_cookies(&mut out, cookies);
    assert(out.deep_view() =~= cookies.deep_view());
    out
}

/// Appends copies of `more` to `cookies`.
pub fn extend_cookies(cookies: &mut Vec<NetscapeCookie>, more: &Vec<NetscapeCookie>)
    ensures
        final(cookies).deep_view() == old(cookies).deep_view() + more.deep_view(),
{
    let mut i: usize = 0;
    assert(cookies.deep_view() =~= old(cookies).deep_view() + more.deep_view().take(0));
    while i < more.len()
        invariant
            i <= more.len(),
            cookies.deep_view() == old(cookies).deep_view() + more.deep_view().take(i as int),
        decreases more.len() - i,
    {
        let ghost before = cookies.deep_view();
        cookies.push(more[i].copy());
        assert(cookies.deep_view() =~= before.push(more@[i as int]@));
        assert(cookies.deep_view() =~= old(cookies).deep_view() + more.deep_view().take(i + 1));
        i += 1;
    }
    assert(more.deep_view().take(more.len() as int) == more.deep_view());
}

impl FetchContext {
    /// Whether the headers of this context form a proper map.
    pub open spec fn wf(&self) -> bool {
        self.headers.wf()
    }

    /// The context that decorates nothing.
    pub fn new() -> (ctx: FetchContext)
        ensures
            ctx.wf(),
            ctx@ == empty_context(),
    {
        let ctx = FetchContext {
            user_agent: None,
            headers: StringMap::new(),
            cookies: Vec::new(),
            auth: None,
        };
        assert(ctx@.headers =~= Seq::empty());
        assert(ctx@.cookies =~= Seq::empty());
        ctx
    }

    /// A copy of this context.
    pub fn copy(&self) -> (ctx: FetchContext)
        requires
            self.wf(),
        ensures
            ctx.wf(),
            ctx@ == self@,
    {
        FetchContext {
            user_agent: copy_text(&self.user_agent),
            headers: copy_headers(&self.headers),
            cookies: copy_cookies(&self.cookies),
            auth: copy_auth(&self.auth),
        }
    }

    /// Takes up `other`. What this context already says about a header
    /// stands; see [`inherit`].
    pub fn override_inherit_from(&mut self, other: &FetchContext)
        requires
            old(self).wf(),
            other.wf(),
        ensures
            final(self).wf(),
            final(self)@ == inherit(old(self)@, other@),
    {
        if other.user_agent.is_some() {
            self.user_agent = copy_text(&other.user_agent);
        }
        merge_headers(&mut self.headers, &other.headers);
        extend_cookies(&mut self.cookies, &other.cookies);
    }

    /// The headers that a direct request sets for this context, in the
    /// order in which they are set; a later entry replaces an earlier one
    /// of the same name.
    pub fn to_headermap(&self) -> (entries: Vec<(String, String)>)
        requires
            self.wf(),
        ensures
            entries.deep_view() == header_entries(self@),
    {
        let mut entries: Vec<(String, String)> = Vec::new();
        match &self.user_agent {
            Some(ua) => {
                let mut name = String::new();
                push_text(&mut name, "user-agent");
                entries.push((name, ua.clone()));
                assert(entries.deep_view() =~= seq![("user-agent"@, ua@)]);
            },
            None => {
                assert(entries.deep_view() =~= Seq::empty());
            },
        }
        let ghost head = entries.deep_view();
        let mut i: usize = 0;
        assert(header_pairs(self.headers).take(0) =~= Seq::empty());
        while i < self.headers.len()
            invariant
                i <= self.headers.keys().len(),
                entries.deep_view() == head + header_pairs(self.headers).take(i as int),
            decreases self.headers.keys().len() - i,
        {
            let ghost before = entries.deep_view();
            let key = self.headers.key_at(i).clone();
            let value = self.headers.value_at(i).clone();
            entries.push((key, value));
            assert(entries.deep_view() =~= before.push((key@, value@)));
            assert(entries.deep_view() =~= head + header_pairs(self.headers).take(i + 1));
            i += 1;
        }
        assert(header_pairs(self.headers).take(self.headers.keys().len() as int) == header_pairs(
            self.headers,
        ));
        let ghost before = entries.deep_view();
        let mut name = String::new();
        push_text(&mut name, "cookie");
        let raw = NetscapeCookie::to_raw_string(&self.cookies);
        entries.push((name, raw));
        assert(entries.deep_view() =~= before.push(("cookie"@, raw@)));
        entries
    }
}

/// Where a request takes its context from.
#[derive(Debug)]
pub enum ContextProvider {
    Concrete(FetchContext),
    Absent,
}

impl ContextProvider {
    /// Whether the context held, if any, is well formed.
    pub open spec fn wf(&self) -> bool {
        match self {
            ContextProvider::Concrete(ctx) => ctx.wf(),
            ContextProvider::Absent => true,
        }
    }

    /// The view of the context held, if any.
    pub open spec fn held(&self) -> Option<FetchContextView> {
        match self {
            ContextProvider::Concrete(ctx) => Some(ctx@),
            ContextProvider::Absent => None,
        }
    }

    /// The context to use: the one held, or the empty one.
    pub fn get(&self) -> (ctx: FetchContext)
        requires
            self.wf(),
        ensures
            ctx.wf(),
            ctx@ == match self.held() {
                Some(held) => held,
                None => empty_context(),
            },
    {
        match self {
            ContextProvider::Concrete(fetch_context) => fetch_context.copy(),
            ContextProvider::Absent => FetchContext::new(),
        }
    }
}

/// The direct resolver: one HTTP GET, decorated by the context.
#[derive(Debug, Clone)]
pub struct BasicRequestResolver;

/// What the direct resolver sends.
#[derive(Debug)]
pub struct DirectRequest {
    pub url: String,
    /// The headers to set, in this order; a later entry replaces an
    /// earlier one of the same name.
    pub headers: Vec<(String, String)>,
    pub auth: Option<AuthKind>,
    pub max_redirects: usize,
}

/// The view of a [`DirectRequest`].
pub struct DirectRequestView {
    pub url: Seq<char>,
    pub headers: Seq<(Seq<char>, Seq<char>)>,
    pub auth: Option<AuthView>,
    pub max_redirects: nat,
}

impl View for DirectRequest {
    type V = DirectRequestView;

    open spec fn view(&self) -> DirectRequestView {
        DirectRequestView {
            url: self.url@,
            headers: self.headers.deep_view(),
            auth: opt_auth(self.auth),
            max_redirects: self.max_redirects as nat,
        }
    }
}

/// The context that a request is made with: the one held, or the empty
/// one.
pub open spec fn context_of(held: Option<FetchContextView>) -> FetchContextView {
    match held {
        Some(ctx) => ctx,
        None => empty_context(),
    }
}

/// The GET that the direct resolver makes for `url`: the headers of the
/// context, its credential, and at most five redirects.
pub open spec fn direct_request(url: Seq<char>, held: Option<FetchContextView>) -> DirectRequestView {
    DirectRequestView {
        url,
        headers: header_entries(context_of(held)),
        auth: context_of(held).auth,
        max_redirects: 5,
    }
}

/// Whether an HTTP status tells success: 200 to 299.
pub open spec fn status_is_success(status: u16) -> bool {
    200 <= status <= 299
}

/// What a direct request comes to: the body on success, else
/// `"{status}: {url}"`.
pub open spec fn direct_result(
    status: u16,
    status_line: Seq<char>,
    url: Seq<char>,
    body: Seq<u8>,
) -> Result<Seq<u8>, Seq<char>> {
    if status_is_success(status) {
        Ok(body)
    } else {
        Err(status_line + ": "@ + url)
    }
}

/// The views of a result of bytes or an error message.
pub open spec fn bytes_result(r: Result<Vec<u8>, String>) -> Result<Seq<u8>, Seq<char>> {
    match r {
        Ok(bytes) => Ok(bytes@),
        Err(e) => Err(e@),
    }
}

fn status_error(status_line: &str, url: &str) -> (message: String)
    ensures
        message@ == status_line@ + ": "@ + url@,
{
    let mut message = String::new();
    push_text(&mut message, status_line);
    push_text(&mut message, ": ");
    push_text(&mut message, url);
    message
}

impl BasicRequestResolver {
    /// The request to make for `url`.
    pub fn get(&self, url: &str, context: &ContextProvider) -> (request: DirectRequest)
        requires
            context.wf(),
        ensures
            request@ == direct_request(url@, context.held()),
    {
        let ctx = context.get();
        let headers = ctx.to_headermap();
        let mut target = String::new();
        push_text(&mut target, url);
        DirectRequest { url: target, headers, auth: ctx.auth, max_redirects: MAX_REDIRECTS }
    }

    /// The request to make for `url` from asynchronous code: the same as
    /// [`BasicRequestResolver::get`].
    pub fn get_async(&self, url: &str, context: &ContextProvider) -> (request: DirectRequest)
        requires
            context.wf(),
        ensures
            request@ == direct_request(url@, context.held()),
    {
        self.get(url, context)
    }

    /// Judges the response to a direct request. `status_line` is the
    /// status as it is shown to the user, such as `404 Not Found`.
    pub fn accept(status: u16, status_line: &str, url: &str, body: Vec<u8>) -> (r: Result<
        Vec<u8>,
        String,
    >)
        ensures
            bytes_result(r) == direct_result(status, status_line@, url@, body@),
    {
        if 200 <= status && status <= 299 {
            Ok(body)
        } else {
            Err(status_error(status_line, url))
        }
    }
}

/// The anti-bot resolver: it asks a FlareSolverr endpoint to make the
/// request.
#[derive(Debug, Clone)]
pub struct FlareSolverrResolver {
    pub endpoint: String,
    pub max_timeout: Option<u16>,
    pub session_ttl_minutes: Option<u16>,
}

/// The envelope posted to the endpoint. A field that is `None` is left out
/// of the JSON document.
#[derive(Debug)]
pub struct FlarePayload {
    pub cmd: String,
    pub url: String,
    pub max_timeout: Option<u16>,
    pub session_ttl_minutes: Option<u16>,
    pub headers: Option<Vec<(String, String)>>,
    pub cookies: Option<Vec<(String, String)>>,
}

/// The view of a [`FlarePayload`].
pub struct FlarePayloadView {
    pub cmd: Seq<char>,
    pub url: Seq<char>,
    pub max_timeout: Option<u16>,
    pub session_ttl_minutes: Option<u16>,
    pub headers: Option<Seq<(Seq<char>, Seq<char>)>>,
    pub cookies: Option<Seq<(Seq<char>, Seq<char>)>>,
}

/// The view of an optional list of pairs.
pub open spec fn opt_pairs(pairs: Option<Vec<(String, String)>>) -> Option<
    Seq<(Seq<char>, Seq<char>)>,
> {
    match pairs {
        Some(list) => Some(list.deep_view()),
        None => None,
    }
}

impl View for FlarePayload {
    type V = FlarePayloadView;

    open spec fn view(&self) -> FlarePayloadView {
        FlarePayloadView {
            cmd: self.cmd@,
            url: self.url@,
            max_timeout: self.max_timeout,
            session_ttl_minutes: self.session_ttl_minutes,
            headers: opt_pairs(self.headers),
            cookies: opt_pairs(self.cookies),
        }
    }
}

/// `pairs` where `name` has the value `value`: in place where the name
/// occurs, at the end where it does not.
pub open spec fn set_header(
    pairs: Seq<(Seq<char>, Seq<char>)>,
    name: Seq<char>,
    value: Seq<char>,
) -> Seq<(Seq<char>, Seq<char>)> {
    match position_of(names_of(pairs), name) {
        Some(i) => pairs.update(i, (name, value)),
        None => pairs.push((name, value)),
    }
}

/// The headers of an envelope: those of the context, and the
/// `authorization` header where the context holds a credential.
pub open spec fn envelope_headers(ctx: FetchContextView) -> Seq<(Seq<char>, Seq<char>)> {
    match ctx.auth {
        Some(auth) => set_header(ctx.headers, "authorization"@, authorization(auth)),
        None => ctx.headers,
    }
}

/// The `(name, value)` pairs of a list of cookies.
pub open spec fn cookie_map(cookies: Seq<CookieView>) -> Seq<(Seq<char>, Seq<char>)> {
    Seq::new(cookies.len(), |i: int| (cookies[i].name, cookies[i].value))
}

/// The envelope for a GET of `url`. Without a context it carries neither
/// headers nor cookies; with one it carries the headers, and the cookies
/// where there are any.
pub open spec fn payload_for(
    max_timeout: Option<u16>,
    session_ttl_minutes: Option<u16>,
    url: Seq<char>,
    held: Option<FetchContextView>,
) -> FlarePayloadView {
    FlarePayloadView {
        cmd: "request.get"@,
        url,
        max_timeout,
        session_ttl_minutes,
        headers: match held {
            Some(ctx) => Some(envelope_headers(ctx)),
            None => None,
        },
        cookies: match held {
            Some(ctx) => if ctx.cookies.len() > 0 {
                Some(cookie_map(ctx.cookies))
            } else {
                None
            },
            None => None,
        },
    }
}

/// The `(name, value)` pairs of `headers`, in order.
pub fn pairs_of(headers: &StringMap<String>) -> (pairs: Vec<(String, String)>)
    ensures
        pairs.deep_view() == header_pairs(*headers),
{
    let mut pairs: Vec<(String, String)> = Vec::new();
    let mut i: usize = 0;
    assert(pairs.deep_view() =~= header_pairs(*headers).take(0));
    while i < headers.len()
        invariant
            i <= headers.keys().len(),
            pairs.deep_view() == header_pairs(*headers).take(i as int),
        decreases headers.keys().len() - i,
    {
        let ghost before = pairs.deep_view();
        let key = headers.key_at(i).clone();
        let value = headers.value_at(i).clone();
        pairs.push((key, value));
        assert(pairs.deep_view() =~= before.push((key@, value@)));
        assert(pairs.deep_view() =~= header_pairs(*headers).take(i + 1));
        i += 1;
    }
    assert(header_pairs(*headers).take(headers.keys().len() as int) == header_pairs(*headers));
    pairs
}

/// One solved request, as the endpoint reports it.
#[derive(Debug, Clone)]
pub struct FlareSolverrSolutionPartial {
    pub url: String,
    pub status: u16,
    pub headers: Vec<(String, String)>,
    pub response: String,
    pub user_agent: String,
}

/// The answer of the endpoint.
#[derive(Debug, Clone)]
pub struct FlareSolverrOutput {
    pub solution: FlareSolverrSolutionPartial,
    pub status: String,
    pub message: String,
    pub version: String,
}

/// What a request through the endpoint comes to. The endpoint itself
/// must answer with success, its answer must be readable, and the
/// solution must carry status 200; then the result is the solved
/// response as bytes.
pub open spec fn antibot_result(
    status: u16,
    status_line: Seq<char>,
    url: Seq<char>,
    output: Result<FlareSolverrOutput, String>,
) -> Result<Seq<u8>, Seq<char>> {
    if !status_is_success(status) {
        Err(status_line + ": "@ + url)
    } else {
        match output {
            Err(cause) => Err("Parsing Flaresolverr response: "@ + cause@),
            Ok(out) => if out.solution.status != 200 {
                Err(crate::text::decimal(out.solution.status as nat) + ": "@ + out.solution.url@)
            } else {
                Ok(encode_utf8(out.solution.response@))
            },
        }
    }
}

impl FlareSolverrResolver {
    /// The envelope to post for a GET of `url`.
    pub fn create_payload(&self, url: &str, context: &ContextProvider) -> (payload: FlarePayload)
        requires
            context.wf(),
        ensures
            payload@ == payload_for(
                self.max_timeout,
                self.session_ttl_minutes,
                url@,
                context.held(),
            ),
    {
        let mut cmd = String::new();
        push_text(&mut cmd, "request.get");
        let mut target = String::new();
        push_text(&mut target, url);
        let mut payload = FlarePayload {
            cmd,
            url: target,
            max_timeout: self.max_timeout,
            session_ttl_minutes: self.session_ttl_minutes,
            headers: None,
            cookies: None,
        };
        if let ContextProvider::Concrete(ctx) = context {
            let mut headers = copy_headers(&ctx.headers);
            if let Some(auth) = &ctx.auth {
                let ghost before = headers;
                let mut name = String::new();
                push_text(&mut name, "authorization");
                let value = auth.stringify();
                proof {
                    before.lemma_wf();
                    assert(names_of(header_pairs(before)) =~= before.keys());
                }
                headers.insert(name, value);
                proof {
                    headers.lemma_wf();
                    assert(header_pairs(headers) =~= set_header(
                        header_pairs(before),
                        "authorization"@,
                        value@,
                    ));
                }
            }
            payload.headers = Some(pairs_of(&headers));
            if ctx.cookies.len() > 0 {
                let pairs = NetscapeCookie::to_map(&ctx.cookies);
                assert(pairs.deep_view() =~= cookie_map(ctx.cookies.deep_view()));
                payload.cookies = Some(pairs);
            }
        }
        payload
    }

    /// Judges the answer of the endpoint. `output` is the answer as it
    /// was read, or the reason why it could not be read.
    pub fn accept(
        status: u16,
        status_line: &str,
        url: &str,
        output: Result<FlareSolverrOutput, String>,
    ) -> (r: Result<Vec<u8>, String>)
        ensures
            bytes_result(r) == antibot_result(status, status_line@, url@, output),
    {
        if !(200 <= status && status <= 299) {
            return Err(status_error(status_line, url));
        }
        match output {
            Err(cause) => {
                let mut message = String::new();
                push_text(&mut message, "Parsing Flaresolverr response: ");
                push_text(&mut message, cause.as_str());
                Err(message)
            },
            Ok(out) => {
                if out.solution.status != 200 {
                    let mut message = String::new();
                    push_decimal(&mut message, out.solution.status as usize);
                    push_text(&mut message, ": ");
                    push_text(&mut message, out.solution.url.as_str());
                    Err(message)
                } else {
                    Ok(out.solution.response.as_str().as_bytes_vec())
                }
            },
        }
    }
}

/// The strategy a client resolves requests with.
#[derive(Debug, Clone)]
pub enum Resolver {
    Basic(BasicRequestResolver),
    FlareSolverr(FlareSolverrResolver),
}

/// What is to be sent for one request.
#[derive(Debug)]
pub enum HttpRequest {
    /// A GET sent to the target itself.
    Direct(DirectRequest),
    /// An envelope posted to the anti-bot endpoint.
    AntiBot { endpoint: String, payload: FlarePayload },
}

/// A request and whether it has to wait for a permit of the semaphore
/// that bounds the number of requests in flight.
#[derive(Debug)]
pub struct PlannedRequest {
    pub request: HttpRequest,
    pub needs_permit: bool,
}

/// A client: exactly one resolver.
#[derive(Debug, Clone)]
pub struct MxScraperHttpClient {
    resolver: Resolver,
}

/// Whether `request` is what `resolver` sends for `url`.
pub open spec fn resolves(
    resolver: Resolver,
    url: Seq<char>,
    held: Option<FetchContextView>,
    request: HttpRequest,
) -> bool {
    match resolver {
        Resolver::Basic(_) => request matches HttpRequest::Direct(direct) && direct@
            == direct_request(url, held),
        Resolver::FlareSolverr(flare) => request matches HttpRequest::AntiBot { endpoint, payload }
            && endpoint@ == flare.endpoint@ && payload@ == payload_for(
            flare.max_timeout,
            flare.session_ttl_minutes,
            url,
            held,
        ),
    }
}

impl MxScraperHttpClient {
    /// The client that resolves with `resolver`.
    pub fn new(resolver: Resolver) -> (client: Self)
        ensures
            client.resolver() == resolver,
    {
        Self { resolver }
    }

    /// The resolver of this client.
    pub closed spec fn resolver(&self) -> Resolver {
        self.resolver
    }

    fn plan(&self, url: &str, context: &ContextProvider) -> (request: HttpRequest)
        requires
            context.wf(),
        ensures
            resolves(self.resolver(), url@, context.held(), request),
    {
        match &self.resolver {
            Resolver::Basic(basic) => HttpRequest::Direct(basic.get(url, context)),
            Resolver::FlareSolverr(flare) => HttpRequest::AntiBot {
                endpoint: flare.endpoint.clone(),
                payload: flare.create_payload(url, context),
            },
        }
    }

    /// The request for a blocking fetch of `url`. It goes through the
    /// client's resolver and does not wait for a permit.
    pub fn get(&self, url: &str, context: &ContextProvider) -> (planned: PlannedRequest)
        requires
            context.wf(),
        ensures
            !planned.needs_permit,
            resolves(self.resolver(), url@, context.held(), planned.request),
    {
        PlannedRequest { request: self.plan(url, context), needs_permit: false }
    }

    /// The request for a non-blocking fetch of `url`. It goes through the
    /// client's resolver and waits for a permit.
    pub fn get_async(&self, url: &str, context: &ContextProvider) -> (planned: PlannedRequest)
        requires
            context.wf(),
        ensures
            planned.needs_permit,
            resolves(self.resolver(), url@, context.held(), planned.request),
    {
        PlannedRequest { request: self.plan(url, context), needs_permit: true }
    }

    /// The request for a download of `url`. Whatever the client's
    /// resolver, a download is a direct request; it waits for a permit.
    pub fn download(&self, url: &str, context: &ContextProvider) -> (planned: PlannedRequest)
        requires
            context.wf(),
        ensures
            planned.needs_permit,
            planned.request matches HttpRequest::Direct(direct) && direct@ == direct_request(
                url@,
                context.held(),
            ),
    {
        PlannedRequest {
            request: HttpRequest::Direct(BasicRequestResolver.get(url, context)),
            needs_permit: true,
        }
    }
}

} // verus!
