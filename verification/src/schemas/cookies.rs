//! Cookie records and the `Cookie` header made from them.

use crate::text::{join, opt_text, push_text};
use vstd::prelude::*;

verus! {

/// One cookie. Only `name` and `value` go into a request header.
#[derive(Debug, Clone)]
pub struct NetscapeCookie {
    pub host_only: Option<bool>,
    pub http_only: Option<bool>,
    pub same_site: Option<String>,
    pub secure: Option<bool>,
    pub session: Option<bool>,
    pub store_id: Option<String>,
    pub path: Option<String>,
    pub domain: Option<String>,
    pub name: String,
    pub value: String,
}

/// The view of a [`NetscapeCookie`].
pub struct CookieView {
    pub host_only: Option<bool>,
    pub http_only: Option<bool>,
    pub same_site: Option<Seq<char>>,
    pub secure: Option<bool>,
    pub session: Option<bool>,
    pub store_id: Option<Seq<char>>,
    pub path: Option<Seq<char>>,
    pub domain: Option<Seq<char>>,
    pub name: Seq<char>,
    pub value: Seq<char>,
}

impl DeepView for NetscapeCookie {
    type V = CookieView;

    open spec fn deep_view(&self) -> CookieView {
        CookieView {
            host_only: self.host_only,
            http_only: self.http_only,
            same_site: opt_text(self.same_site),
            secure: self.secure,
            session: self.session,
            store_id: opt_text(self.store_id),
            path: opt_text(self.path),
            domain: opt_text(self.domain),
            name: self.name@,
            value: self.value@,
        }
    }
}

impl View for NetscapeCookie {
    type V = CookieView;

    open spec fn view(&self) -> CookieView {
        self.deep_view()
    }
}

/// The cookie that holds nothing but a name and a value.
pub open spec fn minimal_cookie(name: Seq<char>, value: Seq<char>) -> CookieView {
    CookieView {
        host_only: None,
        http_only: None,
        same_site: None,
        secure: None,
        session: None,
        store_id: None,
        path: None,
        domain: None,
        name,
        value,
    }
}

/// `name=value` for each cookie.
pub open spec fn cookie_pairs(cookies: Seq<CookieView>) -> Seq<Seq<char>> {
    Seq::new(cookies.len(), |i: int| cookies[i].name + seq!['='] + cookies[i].value)
}

/// The `Cookie` header for `cookies`: `name=value` pairs in the order of
/// the list, joined by `; `.
pub open spec fn cookie_header(cookies: Seq<CookieView>) -> Seq<char> {
    join(cookie_pairs(cookies), seq![';', ' '])
}

/// A copy of an optional string.
pub fn copy_opt(value: &Option<String>) -> (out: Option<String>)
    ensures
        opt_text(out) == opt_text(*value),
{
    match value {
        Some(s) => Some(s.clone()),
        None => None,
    }
}

impl NetscapeCookie {
    /// A cookie with a name and a value and nothing else.
    pub fn minimal(name: String, value: String) -> (cookie: NetscapeCookie)
        ensures
            cookie@ == minimal_cookie(name@, value@),
    {
        NetscapeCookie {
            host_only: None,
            http_only: None,
            same_site: None,
            secure: None,
            session: None,
            store_id: None,
            path: None,
            domain: None,
            name,
            value,
        }
    }

    /// A copy of this cookie.
    pub fn copy(&self) -> (cookie: NetscapeCookie)
        ensures
            cookie@ == self@,
    {
        NetscapeCookie {
            host_only: self.host_only,
            http_only: self.http_only,
            same_site: copy_opt(&self.same_site),
            secure: self.secure,
            session: self.session,
            store_id: copy_opt(&self.store_id),
            path: copy_opt(&self.path),
            domain: copy_opt(&self.domain),
            name: self.name.clone(),
            value: self.value.clone(),
        }
    }

    /// One minimal cookie per `(name, value)` pair, in the order of the
    /// pairs.
    pub fn from_hashmap(m: &Vec<(String, String)>) -> (cookies: Vec<NetscapeCookie>)
        ensures
            cookies.deep_view() == Seq::new(
                m@.len(),
                |i: int| minimal_cookie(m@[i].0@, m@[i].1@),
            ),
    {
        let mut res: Vec<NetscapeCookie> = Vec::new();
        let mut i: usize = 0;
        while i < m.len()
            invariant
                i <= m.len(),
                res.deep_view() == Seq::new(i as nat, |k: int| minimal_cookie(m@[k].0@, m@[k].1@)),
            decreases m.len() - i,
        {
            let ghost before = res.deep_view();
            res.push(NetscapeCookie::minimal(m[i].0.clone(), m[i].1.clone()));
            assert(res.deep_view() =~= before.push(minimal_cookie(m@[i as int].0@, m@[i as int].1@)));
            i += 1;
        }
        res
    }

    /// The `(name, value)` pairs of `cookies`, in the order of the list.
    /// A name that occurs twice is listed twice: the first pair is the one
    /// that a map built by inserting in order would lose.
    pub fn to_map(cookies: &Vec<NetscapeCookie>) -> (pairs: Vec<(String, String)>)
        ensures
            pairs.deep_view() == Seq::new(
                cookies@.len(),
                |i: int| (cookies@[i]@.name, cookies@[i]@.value),
            ),
    {
        let mut pairs: Vec<(String, String)> = Vec::new();
        let mut i: usize = 0;
        while i < cookies.len()
            invariant
                i <= cookies.len(),
                pairs.deep_view() == Seq::new(
                    i as nat,
                    |k: int| (cookies@[k]@.name, cookies@[k]@.value),
                ),
            decreases cookies.len() - i,
        {
            let ghost before = pairs.deep_view();
            pairs.push((cookies[i].name.clone(), cookies[i].value.clone()));
            assert(pairs.deep_view() =~= before.push(
                (cookies@[i as int]@.name, cookies@[i as int]@.value),
            ));
            i += 1;
        }
        pairs
    }

    /// Formats `k1=v1; k2=v2; ..`, in the order of the list.
    pub fn to_raw_string(cookies: &Vec<NetscapeCookie>) -> (header: String)
        ensures
            header@ == cookie_header(cookies.deep_view()),
    {
        let mut header = String::new();
        let mut i: usize = 0;
        while i < cookies.len()
            invariant
                i <= cookies.len(),
                header@ == join(cookie_pairs(cookies.deep_view()).take(i as int), seq![';', ' ']),
            decreases cookies.len() - i,
        {
            let ghost all = cookie_pairs(cookies.deep_view());
            assert(all.take(i + 1).drop_last() == all.take(i as int));
            assert(all.take(i + 1).last() == cookies@[i as int]@.name + seq!['=']
                + cookies@[i as int]@.value);
            if i > 0 {
                header.push(';');
                header.push(' ');
            }
            push_text(&mut header, cookies[i].name.as_str());
            header.push('=');
            push_text(&mut header, cookies[i].value.as_str());
            i += 1;
        }
        assert(cookie_pairs(cookies.deep_view()).take(cookies.len() as int) == cookie_pairs(
            cookies.deep_view(),
        ));
        header
    }

    /// Picks among the three readings of one cookie document, in the
    /// order in which the formats are tried: a flat object of name and
    /// value pairs, a list of full records, a single full record. The
    /// first reading that succeeded wins; where none did, the error of
    /// the last is returned.
    pub fn from_json(
        key_values: Option<Vec<NetscapeCookie>>,
        records: Option<Vec<NetscapeCookie>>,
        single: Result<NetscapeCookie, String>,
    ) -> (cookies: Result<Vec<NetscapeCookie>, String>)
        ensures
            match key_values {
                Some(list) => cookies == Ok::<Vec<NetscapeCookie>, String>(list),
                None => is_netscape_reading(records, single, cookies),
            },
    {
        match key_values {
            Some(cookies) => Ok(cookies),
            None => Self::from_netscape_json(records, single),
        }
    }

    /// Picks between the two readings of a document of full records: the
    /// list where it could be read, else the single record as a list of
    /// one, else the error of the single record.
    pub fn from_netscape_json(
        records: Option<Vec<NetscapeCookie>>,
        single: Result<NetscapeCookie, String>,
    ) -> (cookies: Result<Vec<NetscapeCookie>, String>)
        ensures
            is_netscape_reading(records, single, cookies),
    {
        match records {
            Some(cookies) => Ok(cookies),
            None => match single {
                Ok(cookie) => {
                    let mut one: Vec<NetscapeCookie> = Vec::new();
                    one.push(cookie);
                    Ok(one)
                },
                Err(e) => Err(e),
            },
        }
    }

    /// The cookies of a flat document of names and values.
    pub fn from_key_value_json(pairs: &Vec<(String, String)>) -> (cookies: Vec<NetscapeCookie>)
        ensures
            cookies.deep_view() == Seq::new(
                pairs@.len(),
                |i: int| minimal_cookie(pairs@[i].0@, pairs@[i].1@),
            ),
    {
        Self::from_hashmap(pairs)
    }
}

/// Whether `cookies` is what a document of full records stands for: the
/// list where there is one, else the single record alone, else its error.
pub open spec fn is_netscape_reading(
    records: Option<Vec<NetscapeCookie>>,
    single: Result<NetscapeCookie, String>,
    cookies: Result<Vec<NetscapeCookie>, String>,
) -> bool {
    match records {
        Some(list) => cookies == Ok::<Vec<NetscapeCookie>, String>(list),
        None => match single {
            Ok(cookie) => cookies matches Ok(list) && list@ == seq![cookie],
            Err(e) => cookies == Err::<Vec<NetscapeCookie>, String>(e),
        },
    }
}

} // verus!
