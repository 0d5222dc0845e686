//! What `gallery-dl --dump-json` prints, as far as books are made of it.

use crate::cli::fetch::{dedup_first, dedupe_terms, split_words, words};
use crate::schemas::json::JsonValue;
use crate::text::{
    chars_of, has_prefix, opt_text, push_text, trim, trimmed,
};
use vstd::prelude::*;

verus! {

/// The description of a gallery: the second element of the first entry of
/// a dump.
#[derive(Debug)]
pub struct Gallery {
    pub title: Option<String>,
    pub title_aliases: Vec<String>,
    pub gallery_id: Option<String>,
    pub user: Option<JsonValue>,
    pub artists: Vec<JsonValue>,
    pub group: Vec<String>,
    pub category: String,
    pub characters: Vec<String>,
    pub language: String,
    pub parody: Vec<String>,
    pub subcategory: String,
    pub tags: Vec<String>,
    pub hashtags: Vec<String>,
    /// The fields that have no place above, as one JSON object.
    pub _remaining_fields: JsonValue,
}

/// The description of one file of a gallery.
#[derive(Debug, Clone)]
pub struct GalleryPage {
    pub title: String,
    pub filename: Option<String>,
    pub extension: Option<String>,
    pub tags: Vec<String>,
    pub hashtags: Vec<String>,
}

/// The entry that describes the gallery.
#[derive(Debug)]
pub struct FirstGalleryEntry(pub i32, pub Gallery);

/// The entry that describes one file: its URL and its metadata. The
/// metadata is kept as a value, as the text it was read from, and as the
/// page description that was read from it, or the reason why none could
/// be read.
#[derive(Debug)]
pub struct UrlGalleryEntry {
    pub kind: i32,
    pub url: String,
    pub meta: JsonValue,
    pub meta_text: String,
    pub page: Result<GalleryPage, String>,
}

/// One entry of a dump.
#[derive(Debug)]
pub enum GalleryItem {
    TwoElementTuple(FirstGalleryEntry),
    ThreeElementTuple(UrlGalleryEntry),
}

/// The position of the first member named `name` in a JSON object.
pub open spec fn member_at(object: Seq<(String, JsonValue)>, name: Seq<char>) -> Option<int>
    decreases object.len(),
{
    if object.len() == 0 {
        None
    } else {
        match member_at(object.drop_last(), name) {
            Some(i) => Some(i),
            None => if object.last().0@ == name {
                Some(object.len() - 1)
            } else {
                None
            },
        }
    }
}

/// What `member_at` finds is a member of that name, and the first one.
pub proof fn lemma_member_at(object: Seq<(String, JsonValue)>, name: Seq<char>)
    ensures
        match member_at(object, name) {
            Some(i) => 0 <= i < object.len() && object[i].0@ == name && forall|k: int|
                0 <= k < i ==> (#[trigger] object[k]).0@ != name,
            None => forall|k: int| 0 <= k < object.len() ==> (#[trigger] object[k]).0@ != name,
        },
    decreases object.len(),
{
    if object.len() > 0 {
        lemma_member_at(object.drop_last(), name);
        match member_at(object.drop_last(), name) {
            Some(i) => {
                assert(object.drop_last()[i] == object[i]);
                assert forall|k: int| 0 <= k < i implies (#[trigger] object[k]).0@ != name by {
                    assert(object.drop_last()[k] == object[k]);
                }
            },
            None => {
                assert forall|k: int| 0 <= k < object.len() - 1 implies (#[trigger] object[k]).0@
                    != name by {
                    assert(object.drop_last()[k] == object[k]);
                }
            },
        }
    }
}

/// The first member named `name` of a JSON object.
pub fn member<'a>(object: &'a Vec<(String, JsonValue)>, name: &str) -> (found: Option<
    &'a JsonValue,
>)
    ensures
        match found {
            Some(value) => member_at(object@, name@) matches Some(i) && *value == object@[i].1,
            None => member_at(object@, name@) is None,
        },
{
    let mut i: usize = 0;
    while i < object.len()
        invariant
            i <= object.len(),
            forall|k: int| 0 <= k < i ==> (#[trigger] object@[k]).0@ != name@,
        decreases object.len() - i,
    {
        if crate::text::same_text(object[i].0.as_str(), name) {
            proof {
                lemma_member_at(object@, name@);
                let at = member_at(object@, name@);
                if at is None {
                    assert(object@[i as int].0@ != name@);
                } else if at->0 < i {
                    assert(object@[at->0].0@ != name@);
                }
            }
            return Some(&object[i].1);
        }
        i += 1;
    }
    proof {
        lemma_member_at(object@, name@);
        let at = member_at(object@, name@);
        if at is Some {
            assert(object@[at->0].0@ != name@);
        }
    }
    None
}

/// The name that `value` stands for: `value` itself where it is a string,
/// and the name that its member `field` stands for where it is an object.
/// Anything else stands for no name.
pub open spec fn name_in(value: JsonValue, field: Seq<char>) -> Option<Seq<char>>
    decreases value,
{
    match value {
        JsonValue::Text(s) => Some(s@),
        JsonValue::Object(o) => match member_at(o@, field) {
            Some(i) => if 0 <= i < o@.len() {
                name_in(o@[i].1, field)
            } else {
                None
            },
            None => None,
        },
        _ => None,
    }
}

/// Finds the name that `value` stands for.
pub fn get_if_not_str_rec(field: &str, value: &JsonValue) -> (name: Option<String>)
    ensures
        opt_text(name) == name_in(*value, field@),
    decreases value,
{
    match value {
        JsonValue::Object(m) => {
            proof {
                lemma_member_at(m@, field@);
            }
            match member(m, field) {
                Some(v) => get_if_not_str_rec(field, v),
                None => None,
            }
        },
        JsonValue::Text(s) => Some(s.clone()),
        _ => None,
    }
}

/// The text of a JSON value that is a boolean, a number or a string.
pub open spec fn scalar_text(value: JsonValue) -> Option<Seq<char>> {
    match value {
        JsonValue::Bool(b) => Some(
            if b {
                "true"@
            } else {
                "false"@
            },
        ),
        JsonValue::Number(n) => Some(n@),
        JsonValue::Text(s) => Some(s@),
        _ => None,
    }
}

/// The text of a boolean, a number or a string.
pub fn get_as_string(value: &JsonValue) -> (text: Option<String>)
    ensures
        opt_text(text) == scalar_text(*value),
{
    match value {
        JsonValue::Bool(b) => {
            let mut text = String::new();
            if *b {
                push_text(&mut text, "true");
            } else {
                push_text(&mut text, "false");
            }
            Some(text)
        },
        JsonValue::Number(n) => Some(n.clone()),
        JsonValue::Text(s) => Some(s.clone()),
        _ => None,
    }
}

/// The texts of the items of a JSON array that are booleans, numbers or
/// strings.
pub open spec fn scalar_texts(items: Seq<JsonValue>) -> Seq<Seq<char>>
    decreases items.len(),
{
    if items.len() == 0 {
        Seq::empty()
    } else {
        let init = scalar_texts(items.drop_last());
        match scalar_text(items.last()) {
            Some(text) => init.push(text),
            None => init,
        }
    }
}

/// The tags that the value of a `tag_` field holds: the scalar items of
/// an array, or the words of a scalar.
pub open spec fn field_tags(value: JsonValue) -> Seq<Seq<char>> {
    match value {
        JsonValue::Array(items) => scalar_texts(items@),
        _ => match scalar_text(value) {
            Some(text) => words(text),
            None => Seq::empty(),
        },
    }
}

/// The tags held by the members of `object` whose name begins with
/// `tag_`, in the order of the members.
pub open spec fn extra_tags(object: Seq<(String, JsonValue)>) -> Seq<Seq<char>>
    decreases object.len(),
{
    if object.len() == 0 {
        Seq::empty()
    } else {
        extra_tags(object.drop_last()) + if "tag_"@.is_prefix_of(object.last().0@) {
            field_tags(object.last().1)
        } else {
            Seq::empty()
        }
    }
}

/// Appends copies of `more` to `list`.
pub fn append_all(list: &mut Vec<String>, more: &Vec<String>)
    ensures
        final(list).deep_view() == old(list).deep_view() + more.deep_view(),
{
    let mut i: usize = 0;
    assert(list.deep_view() =~= old(list).deep_view() + more.deep_view().take(0));
    while i < more.len()
        invariant
            i <= more.len(),
            list.deep_view() == old(list).deep_view() + more.deep_view().take(i as int),
        decreases more.len() - i,
    {
        let ghost before = list.deep_view();
        list.push(more[i].clone());
        assert(list.deep_view() =~= before.push(more@[i as int]@));
        assert(list.deep_view() =~= old(list).deep_view() + more.deep_view().take(i + 1));
        i += 1;
    }
    assert(more.deep_view().take(more.len() as int) == more.deep_view());
}

fn push_copy(list: &mut Vec<String>, item: &String)
    ensures
        final(list).deep_view() == old(list).deep_view().push(item@),
{
    let ghost before = list.deep_view();
    list.push(item.clone());
    assert(list.deep_view() =~= before.push(item@));
}

fn push_field_tags(tags: &mut Vec<String>, value: &JsonValue)
    ensures
        final(tags).deep_view() == old(tags).deep_view() + field_tags(*value),
{
    match value {
        JsonValue::Array(items) => {
            let mut i: usize = 0;
            assert(tags.deep_view() =~= old(tags).deep_view() + scalar_texts(items@.take(0)));
            while i < items.len()
                invariant
                    i <= items.len(),
                    tags.deep_view() == old(tags).deep_view() + scalar_texts(
                        items@.take(i as int),
                    ),
                decreases items.len() - i,
            {
                let ghost before = tags.deep_view();
                assert(items@.take(i + 1).drop_last() == items@.take(i as int));
                match get_as_string(&items[i]) {
                    Some(text) => {
                        tags.push(text);
                        assert(tags.deep_view() =~= before.push(text@));
                        assert(tags.deep_view() =~= old(tags).deep_view() + scalar_texts(
                            items@.take(i + 1),
                        ));
                    },
                    None => {},
                }
                i += 1;
            }
            assert(items@.take(items.len() as int) == items@);
        },
        _ => {
            match get_as_string(value) {
                Some(text) => {
                    let found = split_words(text.as_str());
                    append_all(tags, &found);
                },
                None => {
                    assert(tags.deep_view() + Seq::<Seq<char>>::empty() =~= tags.deep_view());
                },
            }
        },
    }
}

/// The names that `values` stand for, in order; `None` where one of them
/// stands for no name.
pub open spec fn names_in(values: Seq<JsonValue>) -> Option<Seq<Seq<char>>>
    decreases values.len(),
{
    if values.len() == 0 {
        Some(Seq::empty())
    } else {
        match names_in(values.drop_last()) {
            None => None,
            Some(names) => match name_in(values.last(), "name"@) {
                None => None,
                Some(name) => Some(names.push(name)),
            },
        }
    }
}

/// Once a value stands for no name, no longer list has names.
pub proof fn lemma_names_in_prefix(values: Seq<JsonValue>, n: int)
    requires
        0 <= n <= values.len(),
        names_in(values.take(n)) is None,
    ensures
        names_in(values) is None,
    decreases values.len(),
{
    if n < values.len() {
        assert(values.drop_last().take(n) == values.take(n));
        lemma_names_in_prefix(values.drop_last(), n);
    } else {
        assert(values.take(n) == values);
    }
}

/// The error for an author that has no name.
pub open spec fn nameless_author() -> Seq<char> {
    "Processing authors: could not get a name"@
}

impl Gallery {
    /// The member `field` of the fields that have no place of their own.
    pub open spec fn unprocessed(&self, field: Seq<char>) -> Option<JsonValue> {
        match self._remaining_fields {
            JsonValue::Object(o) => match member_at(o@, field) {
                Some(i) => Some(o@[i].1),
                None => None,
            },
            _ => None,
        }
    }

    /// Looks a field up among those that have no place of their own.
    pub fn inspect_unprocessed_field(&self, field: &str) -> (value: Option<&JsonValue>)
        ensures
            match value {
                Some(v) => self.unprocessed(field@) == Some(*v),
                None => self.unprocessed(field@) is None,
            },
    {
        match &self._remaining_fields {
            JsonValue::Object(m) => member(m, field),
            _ => None,
        }
    }

    /// The title: that of the gallery where it has one, else its search
    /// tags where they are a string, trimmed, else `default`.
    pub open spec fn title_or(&self, default: Seq<char>) -> Seq<char> {
        match self.title {
            Some(title) => title@,
            None => match self.unprocessed("search_tags"@) {
                Some(JsonValue::Text(s)) => trim(s@),
                _ => default,
            },
        }
    }

    /// The title of the gallery, or `default` where nothing names it.
    pub fn get_title_or_default(&self, default: String) -> (title: String)
        ensures
            title@ == self.title_or(default@),
    {
        match &self.title {
            Some(title) => title.clone(),
            None => match self.inspect_unprocessed_field("search_tags") {
                Some(JsonValue::Text(s)) => trimmed(s.as_str()),
                _ => default,
            },
        }
    }

    /// The identifier: that of the gallery where it has one, else
    /// `default`.
    pub open spec fn id_or(&self, default: Seq<char>) -> Seq<char> {
        match self.gallery_id {
            Some(id) => id@,
            None => default,
        }
    }

    /// The identifier of the gallery, or `default` where it has none.
    pub fn get_id_or_default(&self, default: String) -> (id: String)
        ensures
            id@ == self.id_or(default@),
    {
        match &self.gallery_id {
            Some(id) => id.clone(),
            None => default,
        }
    }

    /// The other titles of the gallery, each once.
    pub fn get_title_aliases(&self) -> (aliases: Vec<String>)
        ensures
            aliases.deep_view() == dedup_first(self.title_aliases.deep_view()),
    {
        let mut all: Vec<String> = Vec::new();
        assert(all.deep_view() =~= Seq::<Seq<char>>::empty());
        append_all(&mut all, &self.title_aliases);
        assert(Seq::<Seq<char>>::empty() + self.title_aliases.deep_view()
            =~= self.title_aliases.deep_view());
        dedupe_terms(all)
    }

    /// Everything that counts as a tag, in the order in which it is
    /// taken up: hashtags, tags, characters, parodies, the category, the
    /// subcategory, the language, and what the `tag_` fields hold.
    pub open spec fn all_tags(&self) -> Seq<Seq<char>> {
        self.hashtags.deep_view() + self.tags.deep_view() + self.characters.deep_view()
            + self.parody.deep_view() + seq![self.category@, self.subcategory@, self.language@]
            + match self._remaining_fields {
            JsonValue::Object(o) => extra_tags(o@),
            _ => Seq::empty(),
        }
    }

    /// The tags of the gallery, each once.
    pub fn get_tags(&self) -> (tags: Vec<String>)
        ensures
            tags.deep_view() == dedup_first(self.all_tags()),
    {
        let mut all: Vec<String> = Vec::new();
        assert(all.deep_view() =~= Seq::<Seq<char>>::empty());
        append_all(&mut all, &self.hashtags);
        append_all(&mut all, &self.tags);
        append_all(&mut all, &self.characters);
        append_all(&mut all, &self.parody);
        push_copy(&mut all, &self.category);
        push_copy(&mut all, &self.subcategory);
        push_copy(&mut all, &self.language);
        let ghost fixed = all.deep_view();
        assert(fixed =~= self.hashtags.deep_view() + self.tags.deep_view()
            + self.characters.deep_view() + self.parody.deep_view() + seq![
            self.category@,
            self.subcategory@,
            self.language@,
        ]);
        match &self._remaining_fields {
            JsonValue::Object(m) => {
                let prefix = chars_of("tag_");
                let mut i: usize = 0;
                assert(all.deep_view() =~= fixed + extra_tags(m@.take(0)));
                while i < m.len()
                    invariant
                        i <= m.len(),
                        prefix@ == "tag_"@,
                        all.deep_view() == fixed + extra_tags(m@.take(i as int)),
                    decreases m.len() - i,
                {
                    let ghost before = all.deep_view();
                    assert(m@.take(i + 1).drop_last() == m@.take(i as int));
                    let key = chars_of(m[i].0.as_str());
                    if has_prefix(&key, &prefix) {
                        push_field_tags(&mut all, &m[i].1);
                    }
                    assert(all.deep_view() =~= fixed + extra_tags(m@.take(i + 1)));
                    i += 1;
                }
                assert(m@.take(m.len() as int) == m@);
            },
            _ => {
                assert(fixed + Seq::<Seq<char>>::empty() =~= fixed);
            },
        }
        dedupe_terms(all)
    }

    /// The names of the authors, in the order in which they are taken up:
    /// the artists, the user, the groups. `None` where an artist or the
    /// user stands for no name.
    pub open spec fn all_authors(&self) -> Option<Seq<Seq<char>>> {
        match names_in(self.artists@) {
            None => None,
            Some(artists) => match self.user {
                None => Some(artists + self.group.deep_view()),
                Some(user) => match name_in(user, "name"@) {
                    None => None,
                    Some(name) => Some(artists.push(name) + self.group.deep_view()),
                },
            },
        }
    }

    /// The authors of the gallery, each once.
    pub fn get_authors(&self) -> (authors: Result<Vec<String>, String>)
        ensures
            match authors {
                Ok(names) => self.all_authors() matches Some(all) && names.deep_view()
                    == dedup_first(all),
                Err(e) => self.all_authors() is None && e@ == nameless_author(),
            },
    {
        let mut all: Vec<String> = Vec::new();
        let mut i: usize = 0;
        assert(self.artists@.take(0) =~= Seq::<JsonValue>::empty());
        assert(all.deep_view() =~= Seq::<Seq<char>>::empty());
        while i < self.artists.len()
            invariant
                i <= self.artists.len(),
                names_in(self.artists@.take(i as int)) == Some(all.deep_view()),
            decreases self.artists.len() - i,
        {
            let ghost before = all.deep_view();
            assert(self.artists@.take(i + 1).drop_last() == self.artists@.take(i as int));
            match get_if_not_str_rec("name", &self.artists[i]) {
                Some(name) => {
                    all.push(name);
                    assert(all.deep_view() =~= before.push(name@));
                },
                None => {
                    proof {
                        lemma_names_in_prefix(self.artists@, i + 1);
                    }
                    let mut message = String::new();
                    push_text(&mut message, "Processing authors: could not get a name");
                    return Err(message);
                },
            }
            i += 1;
        }
        assert(self.artists@.take(self.artists.len() as int) == self.artists@);
        if let Some(user) = &self.user {
            match get_if_not_str_rec("name", user) {
                Some(name) => {
                    let ghost before = all.deep_view();
                    all.push(name);
                    assert(all.deep_view() =~= before.push(name@));
                },
                None => {
                    let mut message = String::new();
                    push_text(&mut message, "Processing authors: could not get a name");
                    return Err(message);
                },
            }
        }
        append_all(&mut all, &self.group);
        Ok(dedupe_terms(all))
    }
}

impl GalleryPage {
    /// The file name of the page: its name, a dot, and its extension, or
    /// `jpg` where it has none. A page without a name has no file name.
    pub open spec fn filename_spec(&self) -> Option<Seq<char>> {
        match self.filename {
            Some(f) => Some(
                f@ + "."@ + match self.extension {
                    Some(ext) => ext@,
                    None => "jpg"@,
                },
            ),
            None => None,
        }
    }

    /// The file name of the page, if it has a name.
    pub fn get_filename(&self) -> (name: Option<String>)
        ensures
            opt_text(name) == self.filename_spec(),
    {
        match &self.filename {
            Some(f) => {
                let mut name = String::new();
                push_text(&mut name, f.as_str());
                push_text(&mut name, ".");
                match &self.extension {
                    Some(ext) => {
                        push_text(&mut name, ext.as_str());
                    },
                    None => {
                        push_text(&mut name, "jpg");
                    },
                }
                Some(name)
            },
            None => None,
        }
    }

    /// The tags and the hashtags of the page, each once.
    pub fn get_explicit_tags(&self) -> (tags: Vec<String>)
        ensures
            tags.deep_view() == dedup_first(self.tags.deep_view() + self.hashtags.deep_view()),
    {
        let mut all: Vec<String> = Vec::new();
        assert(all.deep_view() =~= Seq::<Seq<char>>::empty());
        append_all(&mut all, &self.tags);
        append_all(&mut all, &self.hashtags);
        assert(all.deep_view() =~= self.tags.deep_view() + self.hashtags.deep_view());
        dedupe_terms(all)
    }
}

} // verus!
