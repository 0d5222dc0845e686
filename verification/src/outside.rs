//! The calls this crate makes into other crates, and into the parts of
//! the standard library that come without a specification.
//!
//! Nothing in this file is proved: each contract restates what the called
//! code documents. Results that are too intricate to restate are given a
//! name, and the contract only says that the call returns the named value.

use crate::cli::fetch::{Resolution, ResolutionView};
use crate::collections::position_of;
use crate::text::opt_text;
use indexmap::IndexMap;
use indexmap::IndexSet;
use std::hash::RandomState;
use vstd::prelude::*;

verus! {

/// `String::push` appends exactly one character to the end of the string.
pub assume_specification[ String::push ](s: &mut String, c: char)
    ensures
        final(s)@ == old(s)@.push(c),
;

/// What `{:?}` prints for a string: the string between double quotes,
/// with the escapes that `str`'s `Debug` implementation puts in.
pub uninterp spec fn debug_form(s: Seq<char>) -> Seq<char>;

/// Formats `s` with `{:?}`, that is with `<str as Debug>::fmt`.
#[verifier::external_body]
pub(crate) fn debug_quoted(s: &str) -> (out: String)
    ensures
        out@ == debug_form(s@),
{
    format!("{:?}", s)
}

/// Calls `String::from_utf8`, which accepts exactly the byte strings that
/// are UTF-8 and gives the text they encode.
#[verifier::external_body]
pub(crate) fn text_of_bytes(bytes: Vec<u8>) -> (text: Option<String>)
    ensures
        text is Some == vstd::utf8::valid_utf8(bytes@),
        text matches Some(s) ==> s@ == vstd::utf8::decode_utf8(bytes@),
{
    match String::from_utf8(bytes) {
        Ok(text) => Some(text),
        Err(_) => None,
    }
}

/// The SHA-256 digest of `data`, as computed by `sha2::Sha256`.
pub uninterp spec fn sha256(data: Seq<u8>) -> Seq<u8>;

/// Calls `sha2::Sha256::digest`. The result is the digest named [`sha256`];
/// the type fixes its size at 32 bytes.
#[verifier::external_body]
pub(crate) fn sha256_digest(data: &[u8]) -> (digest: Vec<u8>)
    ensures
        digest@ == sha256(data@),
        digest@.len() == 32,
{
    <sha2::Sha256 as sha2::Digest>::digest(data).to_vec()
}

/// The lower-case hexadecimal digit for `v`.
pub open spec fn hex_digit(v: int) -> char {
    if v == 0 {
        '0'
    } else if v == 1 {
        '1'
    } else if v == 2 {
        '2'
    } else if v == 3 {
        '3'
    } else if v == 4 {
        '4'
    } else if v == 5 {
        '5'
    } else if v == 6 {
        '6'
    } else if v == 7 {
        '7'
    } else if v == 8 {
        '8'
    } else if v == 9 {
        '9'
    } else if v == 10 {
        'a'
    } else if v == 11 {
        'b'
    } else if v == 12 {
        'c'
    } else if v == 13 {
        'd'
    } else if v == 14 {
        'e'
    } else {
        'f'
    }
}

/// Two lower-case hexadecimal digits per byte, high digit first.
pub open spec fn hex_lower(bytes: Seq<u8>) -> Seq<char>
    decreases bytes.len(),
{
    if bytes.len() == 0 {
        Seq::empty()
    } else {
        hex_lower(bytes.drop_last()).push(hex_digit(bytes.last() as int / 16)).push(
            hex_digit(bytes.last() as int % 16),
        )
    }
}

/// Calls `hex::encode`, which writes each byte as two digits taken from
/// `0123456789abcdef`, the high four bits first.
#[verifier::external_body]
pub(crate) fn hex_encode(bytes: &[u8]) -> (text: String)
    ensures
        text@ == hex_lower(bytes@),
{
    hex::encode(bytes)
}

/// What `serde_json` reads from `text` when `text` is one JSON string
/// literal: the characters it stands for. `None` when `serde_json` rejects
/// `text` or reads a value that is not a string.
pub uninterp spec fn json_string_literal(text: Seq<char>) -> Option<Seq<char>>;

/// Calls `serde_json::from_str` for a `serde_json::Value` and keeps the
/// content of a `Value::String`.
#[verifier::external_body]
pub(crate) fn parse_json_string(text: &str) -> (value: Option<String>)
    ensures
        opt_text(value) == json_string_literal(text@),
{
    match serde_json::from_str::<serde_json::Value>(text) {
        Ok(serde_json::Value::String(s)) => Some(s),
        Ok(_) => None,
        Err(_) => None,
    }
}

/// The serialization that `url::Url` gives to `text` once parsed. `None`
/// when `url::Url::parse` rejects `text`.
pub uninterp spec fn url_normal_form(text: Seq<char>) -> Option<Seq<char>>;

/// Calls `url::Url::parse` and turns the parsed URL back into a string.
#[verifier::external_body]
pub(crate) fn normalize_url(text: &str) -> (url: Option<String>)
    ensures
        opt_text(url) == url_normal_form(text@),
{
    match url::Url::parse(text) {
        Ok(url) => Some(String::from(url)),
        Err(_) => None,
    }
}

/// The last of the path segments that `url::Url::path_segments` yields
/// for the URL parsed from `text`, still percent-encoded. `None` when the
/// text is no URL or the URL cannot be a base.
pub uninterp spec fn url_last_segment(text: Seq<char>) -> Option<Seq<char>>;

/// Calls `url::Url::parse`, then `Url::path_segments`, and keeps the last
/// segment.
#[verifier::external_body]
pub(crate) fn last_path_segment(text: &str) -> (segment: Option<String>)
    ensures
        opt_text(segment) == url_last_segment(text@),
{
    match url::Url::parse(text) {
        Ok(url) => match url.path_segments() {
            Some(segments) => segments.last().map(String::from),
            None => None,
        },
        Err(_) => None,
    }
}

/// `text` with its percent escapes resolved, as `urlencoding::decode`
/// returns it. `None` when the resolved bytes are not UTF-8.
pub uninterp spec fn percent_decoded(text: Seq<char>) -> Option<Seq<char>>;

/// Calls `urlencoding::decode`.
#[verifier::external_body]
pub(crate) fn percent_decode(text: &str) -> (decoded: Option<String>)
    ensures
        opt_text(decoded) == percent_decoded(text@),
{
    match urlencoding::decode(text) {
        Ok(decoded) => Some(decoded.into_owned()),
        Err(_) => None,
    }
}

/// The outcome of looking up one attribute of the first element that a
/// selector matches in a document.
pub enum Selection {
    /// The selector is not valid CSS.
    BadSelector,
    /// No element of the document matches.
    NoMatch,
    /// The first match lacks the attribute.
    NoAttribute,
    /// The value of the attribute on the first match.
    Found(String),
}

/// The view of a [`Selection`].
pub enum SelectionView {
    BadSelector,
    NoMatch,
    NoAttribute,
    Found(Seq<char>),
}

impl View for Selection {
    type V = SelectionView;

    open spec fn view(&self) -> SelectionView {
        match self {
            Selection::BadSelector => SelectionView::BadSelector,
            Selection::NoMatch => SelectionView::NoMatch,
            Selection::NoAttribute => SelectionView::NoAttribute,
            Selection::Found(s) => SelectionView::Found(s@),
        }
    }
}

/// What `scraper` finds when `html` is parsed as a document, `selector` is
/// parsed as a selector group, and `attribute` is read on the first
/// matching element that `scraper` comes to as it walks the nodes of the
/// document.
pub uninterp spec fn html_selection(
    html: Seq<char>,
    selector: Seq<char>,
    attribute: Seq<char>,
) -> SelectionView;

/// Calls `scraper::Selector::parse`, `scraper::Html::parse_document`,
/// `Html::select` and `ElementRef::attr`.
#[verifier::external_body]
pub(crate) fn select_attribute(html: &str, selector: &str, attribute: &str) -> (found: Selection)
    ensures
        found@ == html_selection(html@, selector@, attribute@),
{
    match scraper::Selector::parse(selector) {
        Err(_) => Selection::BadSelector,
        Ok(parsed) => match scraper::Html::parse_document(html).select(&parsed).next() {
            None => Selection::NoMatch,
            Some(element) => match element.attr(attribute) {
                None => Selection::NoAttribute,
                Some(value) => Selection::Found(String::from(value)),
            },
        },
    }
}

/// `indexmap::IndexSet`, a hash set that keeps its items in insertion
/// order.
#[verifier::external_type_specification]
#[verifier::external_body]
#[verifier::reject_recursive_types(T)]
#[verifier::reject_recursive_types(S)]
pub struct ExIndexSet<T, S>(IndexSet<T, S>);

/// The items of an `indexmap::IndexSet` of strings, in insertion order.
pub uninterp spec fn index_set_items(set: IndexSet<String, RandomState>) -> Seq<Seq<char>>;

/// Calls `IndexSet::new`, which makes an empty set.
#[verifier::external_body]
pub(crate) fn index_set_new() -> (set: IndexSet<String, RandomState>)
    ensures
        index_set_items(set) == Seq::<Seq<char>>::empty(),
{
    IndexSet::new()
}

/// Calls `IndexSet::insert`: an item that the set already holds leaves the
/// set and its order as they were and gives `false`; a new item goes to
/// the end and gives `true`.
#[verifier::external_body]
pub(crate) fn index_set_insert(set: &mut IndexSet<String, RandomState>, item: String) -> (fresh:
    bool)
    ensures
        fresh == !index_set_items(*old(set)).contains(item@),
        index_set_items(*final(set)) == if fresh {
            index_set_items(*old(set)).push(item@)
        } else {
            index_set_items(*old(set))
        },
{
    set.insert(item)
}

/// Walks an `IndexSet` with `into_iter`, which yields the items in
/// insertion order.
#[verifier::external_body]
pub(crate) fn index_set_into_vec(set: IndexSet<String, RandomState>) -> (items: Vec<String>)
    ensures
        items.deep_view() == index_set_items(set),
{
    set.into_iter().collect()
}

/// `indexmap::IndexMap`, a hash map that keeps its entries in insertion
/// order.
#[verifier::external_type_specification]
#[verifier::external_body]
#[verifier::reject_recursive_types(K)]
#[verifier::reject_recursive_types(V)]
#[verifier::reject_recursive_types(S)]
pub struct ExIndexMap<K, V, S>(IndexMap<K, V, S>);

/// The entries of an `indexmap::IndexMap` from terms to what became of
/// them, in insertion order.
pub uninterp spec fn index_map_entries(map: IndexMap<String, Resolution, RandomState>) -> Seq<
    (Seq<char>, ResolutionView),
>;

/// The keys of a list of entries.
pub open spec fn entry_keys(entries: Seq<(Seq<char>, ResolutionView)>) -> Seq<Seq<char>> {
    Seq::new(entries.len(), |i: int| entries[i].0)
}

/// Calls `IndexMap::new`, which makes an empty map.
#[verifier::external_body]
pub(crate) fn index_map_new() -> (map: IndexMap<String, Resolution, RandomState>)
    ensures
        index_map_entries(map) == Seq::<(Seq<char>, ResolutionView)>::empty(),
{
    IndexMap::new()
}

/// Calls `IndexMap::insert`: a key that the map already holds keeps its
/// place and gets the new value; a new key goes to the end with its
/// value.
#[verifier::external_body]
pub(crate) fn index_map_insert(
    map: &mut IndexMap<String, Resolution, RandomState>,
    key: String,
    value: Resolution,
)
    ensures
        index_map_entries(*final(map)) == match position_of(
            entry_keys(index_map_entries(*old(map))),
            key@,
        ) {
            Some(at) => index_map_entries(*old(map)).update(at, (key@, value@)),
            None => index_map_entries(*old(map)).push((key@, value@)),
        },
{
    map.insert(key, value);
}

/// Calls `IndexMap::len`, the number of entries.
#[verifier::external_body]
pub(crate) fn index_map_len(map: &IndexMap<String, Resolution, RandomState>) -> (n: usize)
    ensures
        n == index_map_entries(*map).len(),
{
    map.len()
}

/// Calls `IndexMap::get_index`, which gives the entry at a position
/// below the number of entries and nothing at any other.
#[verifier::external_body]
pub(crate) fn index_map_get_index(
    map: &IndexMap<String, Resolution, RandomState>,
    index: usize,
) -> (entry: Option<(&String, &Resolution)>)
    ensures
        entry is Some == (index < index_map_entries(*map).len()),
        entry matches Some(pair) ==> pair.0@ == index_map_entries(*map)[index as int].0 && pair.1@
            == index_map_entries(*map)[index as int].1,
{
    map.get_index(index)
}

/// Calls `rand::seq::SliceRandom::shuffle` with `rand::thread_rng()`. The
/// order that comes out is random; whatever it is, the shuffle only swaps
/// items, so the same items are there as often as before.
#[verifier::external_body]
pub(crate) fn shuffle_strings(items: &mut Vec<String>)
    ensures
        final(items).deep_view().to_multiset() == old(items).deep_view().to_multiset(),
{
    rand::seq::SliceRandom::shuffle(items.as_mut_slice(), &mut rand::thread_rng())
}

} // verus!
