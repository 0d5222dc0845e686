//! Fingerprints, file-system safe names and small list helpers.

use crate::outside::{
    hex_encode, hex_lower, json_string_literal, last_path_segment, parse_json_string,
    percent_decode, percent_decoded, sha256, sha256_digest, url_last_segment,
};
use crate::text::{
    byte_len, char_is_whitespace, char_width, chars_of, collapse_runs, concat, is_whitespace,
    lemma_byte_len_concat, lemma_byte_len_prefix, lemma_collapse_runs_members,
    lemma_trim_is_subrange, opt_text, push_range, push_text, string_of, trim, trimmed, width_of,
};
use vstd::prelude::*;
use vstd::string::*;
use vstd::utf8::*;

verus! {

/// The characters that may not occur in a path component.
pub open spec fn is_forbidden(c: char) -> bool {
    ||| c == '\\'
    ||| c == '/'
    ||| c == ':'
    ||| c == '"'
    ||| c == '\''
    ||| c == '*'
    ||| c == '?'
    ||| c == '<'
    ||| c == '>'
    ||| c == '.'
    ||| c == '&'
    ||| c == '%'
    ||| c == '='
    ||| c == '{'
    ||| c == '}'
    ||| c == '|'
    ||| c == '~'
    ||| c == '+'
}

/// Tells whether `c` may not occur in a path component.
pub fn char_is_forbidden(c: char) -> (r: bool)
    ensures
        r == is_forbidden(c),
{
    c == '\\' || c == '/' || c == ':' || c == '"' || c == '\'' || c == '*' || c == '?' || c == '<'
        || c == '>' || c == '.' || c == '&' || c == '%' || c == '=' || c == '{' || c == '}' || c
        == '|' || c == '~' || c == '+'
}

/// The two classes of characters whose runs get collapsed.
pub open spec fn class_of(whitespace: bool) -> spec_fn(char) -> bool {
    if whitespace {
        |c: char| is_whitespace(c)
    } else {
        |c: char| is_forbidden(c)
    }
}

/// What a run of the class becomes: a space for white space, an underscore
/// for forbidden characters.
pub open spec fn mark_of(whitespace: bool) -> char {
    if whitespace {
        ' '
    } else {
        '_'
    }
}

/// `s` with every maximal run of white space turned into one space.
pub open spec fn collapse_whitespace(s: Seq<char>) -> Seq<char> {
    collapse_runs(s, class_of(true), ' ')
}

/// `s` with every maximal run of forbidden characters turned into one
/// underscore.
pub open spec fn collapse_forbidden(s: Seq<char>) -> Seq<char> {
    collapse_runs(s, class_of(false), '_')
}

fn collapse(chars: &Vec<char>, whitespace: bool) -> (out: Vec<char>)
    ensures
        out@ == collapse_runs(chars@, class_of(whitespace), mark_of(whitespace)),
{
    let mut out: Vec<char> = Vec::new();
    let mut in_run = false;
    let mut i: usize = 0;
    while i < chars.len()
        invariant
            i <= chars.len(),
            out@ == collapse_runs(chars@.take(i as int), class_of(whitespace), mark_of(whitespace)),
            in_run == (i > 0 && class_of(whitespace)(chars@[i - 1])),
        decreases chars.len() - i,
    {
        let c = chars[i];
        let member = if whitespace {
            char_is_whitespace(c)
        } else {
            char_is_forbidden(c)
        };
        proof {
            let next = chars@.take(i + 1);
            assert(next.drop_last() == chars@.take(i as int));
            assert(next.last() == c);
            if i > 0 {
                assert(next[next.len() - 2] == chars@[i - 1]);
            }
        }
        if !member {
            out.push(c);
        } else if !in_run {
            out.push(if whitespace {
                ' '
            } else {
                '_'
            });
        }
        in_run = member;
        i += 1;
    }
    assert(chars@.take(chars.len() as int) == chars@);
    out
}

/// `s` with a backslash put before every double quote.
pub open spec fn escape_quotes(s: Seq<char>) -> Seq<char>
    decreases s.len(),
{
    if s.len() == 0 {
        s
    } else if s.last() == '"' {
        escape_quotes(s.drop_last()).push('\\').push('"')
    } else {
        escape_quotes(s.drop_last()).push(s.last())
    }
}

fn escape_quote_chars(chars: &Vec<char>) -> (out: Vec<char>)
    ensures
        out@ == escape_quotes(chars@),
{
    let mut out: Vec<char> = Vec::new();
    let mut i: usize = 0;
    while i < chars.len()
        invariant
            i <= chars.len(),
            out@ == escape_quotes(chars@.take(i as int)),
        decreases chars.len() - i,
    {
        assert(chars@.take(i + 1).drop_last() == chars@.take(i as int));
        if chars[i] == '"' {
            out.push('\\');
        }
        out.push(chars[i]);
        i += 1;
    }
    assert(chars@.take(chars.len() as int) == chars@);
    out
}

/// `s` made into the text of one JSON string literal: quotes escaped,
/// white space collapsed, the whole put between double quotes.
pub open spec fn as_json_literal(s: Seq<char>) -> Seq<char> {
    seq!['"'] + collapse_whitespace(escape_quotes(s)) + seq!['"']
}

/// Whether the escapes in `s` can be decoded: `s`, read as the inside of a
/// JSON string literal, is accepted.
pub open spec fn decodable(s: Seq<char>) -> bool {
    json_string_literal(as_json_literal(s)) is Some
}

/// `s` with its JSON-style escapes (such as `\u30d1`) replaced by the
/// characters they stand for. A text whose escapes cannot be decoded
/// keeps what is written in it; only its white space is collapsed.
pub open spec fn decoded(s: Seq<char>) -> Seq<char> {
    match json_string_literal(as_json_literal(s)) {
        Some(text) => text,
        None => collapse_whitespace(s),
    }
}

fn json_literal_of(input: &str) -> (literal: String)
    ensures
        literal@ == as_json_literal(input@),
{
    let chars = chars_of(input);
    let escaped = escape_quote_chars(&chars);
    let spaced = collapse(&escaped, true);
    let mut literal = String::new();
    literal.push('"');
    push_range(&mut literal, &spaced, 0, spaced.len());
    literal.push('"');
    assert(spaced@.subrange(0, spaced.len() as int) == spaced@);
    literal
}

/// Decodes the escapes in `input`, or gives `None` where they cannot be
/// decoded.
pub fn try_decode_escaped_unicode_characters(input: &str) -> (out: Option<String>)
    ensures
        out is Some == decodable(input@),
        out matches Some(text) ==> text@ == decoded(input@),
{
    let literal = json_literal_of(input);
    parse_json_string(literal.as_str())
}

/// Decodes escaped unicode characters: a title written as
/// `\u30d1\u30f3` comes out as the two characters it spells. A text
/// whose escapes cannot be decoded comes out as it is written, with its
/// white space collapsed.
pub fn decode_escaped_unicode_characters(input: &str) -> (out: String)
    ensures
        out@ == decoded(input@),
{
    match try_decode_escaped_unicode_characters(input) {
        Some(text) => text,
        None => {
            let chars = chars_of(input);
            let spaced = collapse(&chars, true);
            string_of(&spaced)
        },
    }
}

/// `s` decoded, then every run of forbidden characters made one underscore.
pub open spec fn sanitized(s: Seq<char>) -> Seq<char> {
    collapse_forbidden(decoded(s))
}

/// Makes `s` safe to use inside a file name.
pub fn sanitize_string(s: &str) -> (out: String)
    ensures
        out@ == sanitized(s@),
{
    let text = decode_escaped_unicode_characters(s);
    let chars = chars_of(text.as_str());
    let clean = collapse(&chars, false);
    string_of(&clean)
}

/// No forbidden character survives sanitization, and the result is never
/// longer than the decoded text.
pub proof fn lemma_sanitized_is_clean(s: Seq<char>)
    ensures
        forall|i: int| 0 <= i < sanitized(s).len() ==> !is_forbidden(#[trigger] sanitized(s)[i]),
        sanitized(s).len() <= decoded(s).len(),
{
    lemma_collapse_runs_members(decoded(s), class_of(false), '_');
    assert forall|i: int| 0 <= i < sanitized(s).len() implies !is_forbidden(
        #[trigger] sanitized(s)[i],
    ) by {
        let c = collapse_runs(decoded(s), class_of(false), '_')[i];
        assert(c == '_' || !class_of(false)(c));
    }
}

/// The number of leading characters of `s` that fit in `max` bytes.
pub open spec fn kept_chars(s: Seq<char>, max: nat) -> nat
    decreases s.len(),
{
    if s.len() == 0 {
        0
    } else if byte_len(s) <= max {
        s.len()
    } else {
        kept_chars(s.drop_last(), max)
    }
}

/// The longest prefix of `s` that fits in `max` bytes, followed by two
/// dots where something was cut off.
pub open spec fn shortened(s: Seq<char>, max: nat) -> Seq<char> {
    let n = kept_chars(s, max) as int;
    if n < s.len() {
        s.take(n) + seq!['.', '.']
    } else {
        s
    }
}

/// `kept_chars` is the one prefix length that fits and cannot be extended.
pub proof fn lemma_kept_chars(s: Seq<char>, max: nat, n: int)
    requires
        0 <= n <= s.len(),
        byte_len(s.take(n)) <= max,
        n < s.len() ==> byte_len(s.take(n + 1)) > max,
    ensures
        kept_chars(s, max) == n,
    decreases s.len(),
{
    if s.len() == 0 {
    } else if n == s.len() {
        assert(s.take(n) == s);
    } else {
        lemma_byte_len_prefix(s, n + 1);
        let init = s.drop_last();
        assert(init.take(n) == s.take(n));
        if n < init.len() {
            assert(init.take(n + 1) == s.take(n + 1));
        }
        lemma_kept_chars(init, max, n);
    }
}

/// What is kept fits in `max` bytes.
pub proof fn lemma_kept_chars_fit(s: Seq<char>, max: nat)
    ensures
        kept_chars(s, max) <= s.len(),
        byte_len(s.take(kept_chars(s, max) as int)) <= max,
    decreases s.len(),
{
    if s.len() == 0 {
        assert(s.take(0) == s);
    } else if byte_len(s) <= max {
        assert(s.take(s.len() as int) == s);
    } else {
        let init = s.drop_last();
        lemma_kept_chars_fit(init, max);
        assert(init.take(kept_chars(init, max) as int) == s.take(kept_chars(init, max) as int));
    }
}

/// Cuts `text` down to at most `max_length` bytes without splitting a
/// character, and marks a cut with `..`.
pub fn unicode_safe_shorten(text: &str, max_length: usize) -> (out: String)
    ensures
        out@ == shortened(text@, max_length as nat),
{
    let chars = chars_of(text);
    let mut length: usize = 0;
    let mut kept: usize = 0;
    while kept < chars.len()
        invariant
            kept <= chars.len(),
            length <= max_length,
            length == byte_len(chars@.take(kept as int)),
        ensures
            kept <= chars.len(),
            length == byte_len(chars@.take(kept as int)),
            length <= max_length,
            kept < chars.len() ==> byte_len(chars@.take(kept + 1)) > max_length,
        decreases chars.len() - kept,
    {
        let char_length = width_of(chars[kept]);
        assert(chars@.take(kept + 1).drop_last() == chars@.take(kept as int));
        if char_length > max_length - length {
            break ;
        }
        length += char_length;
        kept += 1;
    }
    proof {
        lemma_kept_chars(chars@, max_length as nat, kept as int);
    }
    let mut out = String::new();
    push_range(&mut out, &chars, 0, kept);
    if kept < chars.len() {
        out.push('.');
        out.push('.');
    } else {
        assert(chars@.subrange(0, kept as int) == chars@);
    }
    out
}

/// Whether `chars` takes more than `limit` bytes in UTF-8.
pub fn byte_len_exceeds(chars: &Vec<char>, limit: usize) -> (r: bool)
    ensures
        r == (byte_len(chars@) > limit),
{
    let mut length: usize = 0;
    let mut i: usize = 0;
    while i < chars.len()
        invariant
            i <= chars.len(),
            length <= limit,
            length == byte_len(chars@.take(i as int)),
        decreases chars.len() - i,
    {
        let w = width_of(chars[i]);
        assert(chars@.take(i + 1).drop_last() == chars@.take(i as int));
        if w > limit - length {
            proof {
                lemma_byte_len_prefix(chars@, i + 1);
            }
            return true;
        }
        length += w;
        i += 1;
    }
    assert(chars@.take(chars.len() as int) == chars@);
    false
}

/// The fingerprint of a query: `mx_` and the SHA-256 digest, in lower-case
/// hexadecimal, of the UTF-8 bytes of `term` followed by `plugin_name`.
pub open spec fn fingerprint(term: Seq<char>, plugin_name: Seq<char>) -> Seq<char> {
    seq!['m', 'x', '_'] + hex_lower(sha256(encode_utf8(term + plugin_name)))
}

/// `hex_lower` gives two characters per byte.
pub proof fn lemma_hex_lower_len(bytes: Seq<u8>)
    ensures
        hex_lower(bytes).len() == 2 * bytes.len(),
    decreases bytes.len(),
{
    if bytes.len() > 0 {
        lemma_hex_lower_len(bytes.drop_last());
    }
}

/// Computes the fingerprint of `(term, plugin_name)`.
pub fn compute_query_signature(term: &str, plugin_name: &str) -> (signature: String)
    ensures
        signature@ == fingerprint(term@, plugin_name@),
        signature@.len() == 67,
{
    let data = concat(term, plugin_name);
    let digest = sha256_digest(data.as_str().as_bytes());
    let hex = hex_encode(digest.as_slice());
    let mut signature = String::new();
    signature.push('m');
    signature.push('x');
    signature.push('_');
    push_text(&mut signature, hex.as_str());
    proof {
        lemma_hex_lower_len(digest@);
    }
    signature
}

/// The first `n` characters of `text`, or all of it where it is shorter.
pub fn leading_chars(text: &str, n: usize) -> (out: String)
    ensures
        out@ == if n <= text@.len() {
            text@.take(n as int)
        } else {
            text@
        },
{
    let chars = chars_of(text);
    let mut out = String::new();
    if n <= chars.len() {
        push_range(&mut out, &chars, 0, n);
    } else {
        push_range(&mut out, &chars, 0, chars.len());
        assert(chars@.subrange(0, chars.len() as int) == chars@);
    }
    out
}

/// `"{name} ({id})"`, where `name` is the trimmed, sanitized `s` cut down
/// to 70 bytes.
pub open spec fn labelled(s: Seq<char>, id: Seq<char>) -> Seq<char> {
    shortened(trim(sanitized(s)), 70) + seq![' ', '('] + id + seq![')']
}

/// The label given to a name that is too long for the platform: `long_`
/// and the first five digits of the digest of the sanitized name.
pub open spec fn long_label(s: Seq<char>) -> Seq<char> {
    seq!['l', 'o', 'n', 'g', '_'] + hex_lower(sha256(encode_utf8(trim(sanitized(s))))).take(5)
}

/// The path component made from `s`: labelled with `id` where one is
/// given, labelled with a digest where the trimmed, sanitized `s` takes
/// more than `limit` bytes, and otherwise the trimmed, sanitized `s`
/// itself.
pub open spec fn as_path(s: Seq<char>, id: Option<Seq<char>>, limit: nat) -> Seq<char> {
    match id {
        Some(id) => labelled(s, id),
        None => if byte_len(trim(sanitized(s))) > limit {
            labelled(s, long_label(s))
        } else {
            trim(sanitized(s))
        },
    }
}

/// A shortened text takes at most two bytes more than it was allowed.
pub proof fn lemma_shortened_len(s: Seq<char>, max: nat)
    ensures
        byte_len(shortened(s, max)) <= max + 2,
{
    lemma_kept_chars_fit(s, max);
    let n = kept_chars(s, max) as int;
    if n < s.len() {
        lemma_byte_len_concat(s.take(n), seq!['.', '.']);
        assert(seq!['.', '.'].drop_last() =~= seq!['.']);
        assert(seq!['.'].drop_last() =~= Seq::<char>::empty());
        assert(byte_len(seq!['.', '.']) == 2) by {
            reveal_with_fuel(byte_len, 3);
        }
    } else {
        assert(s.take(n) == s);
    }
}

/// A text made of one-byte characters takes as many bytes as it has
/// characters.
pub proof fn lemma_one_byte_chars(s: Seq<char>)
    requires
        forall|i: int| 0 <= i < s.len() ==> char_width(#[trigger] s[i]) == 1,
    ensures
        byte_len(s) == s.len(),
    decreases s.len(),
{
    if s.len() > 0 {
        assert forall|i: int| 0 <= i < s.drop_last().len() implies char_width(
            #[trigger] s.drop_last()[i],
        ) == 1 by {
            assert(s.drop_last()[i] == s[i]);
        }
        lemma_one_byte_chars(s.drop_last());
    }
}

/// Hexadecimal digits take one byte each and none of them is forbidden.
pub proof fn lemma_hex_is_plain(bytes: Seq<u8>)
    ensures
        hex_lower(bytes).len() == 2 * bytes.len(),
        forall|i: int|
            0 <= i < 2 * bytes.len() ==> !is_forbidden(#[trigger] hex_lower(bytes)[i])
                && char_width(hex_lower(bytes)[i]) == 1,
    decreases bytes.len(),
{
    lemma_hex_lower_len(bytes);
    if bytes.len() > 0 {
        let init = bytes.drop_last();
        let h = hex_lower(bytes);
        lemma_hex_is_plain(init);
        lemma_hex_lower_len(init);
        assert forall|i: int| 0 <= i < 2 * bytes.len() implies !is_forbidden(#[trigger] h[i])
            && char_width(h[i]) == 1 by {
            if i < 2 * init.len() {
                assert(h[i] == hex_lower(init)[i]);
            }
        }
    }
}

/// A label takes at most 75 bytes besides its identifier.
pub proof fn lemma_label_len(clean: Seq<char>, id: Seq<char>)
    ensures
        byte_len(shortened(clean, 70) + seq![' ', '('] + id + seq![')']) <= 75 + byte_len(id),
{
    lemma_shortened_len(clean, 70);
    let a = shortened(clean, 70);
    let b = seq![' ', '('];
    let c = seq![')'];
    lemma_byte_len_concat(a, b);
    lemma_byte_len_concat(a + b, id);
    lemma_byte_len_concat(a + b + id, c);
    assert(b.drop_last() =~= seq![' ']);
    assert(seq![' '].drop_last() =~= Seq::<char>::empty());
    assert(c.drop_last() =~= Seq::<char>::empty());
    assert(byte_len(b) == 2) by {
        reveal_with_fuel(byte_len, 3);
    }
    assert(byte_len(c) == 1) by {
        reveal_with_fuel(byte_len, 2);
    }
}

/// Where the sanitized text is within the limit and no identifier is
/// given, the path component holds no forbidden character.
pub proof fn lemma_plain_path_is_clean(s: Seq<char>, limit: nat)
    requires
        byte_len(trim(sanitized(s))) <= limit,
    ensures
        forall|i: int|
            0 <= i < as_path(s, None, limit).len() ==> !is_forbidden(
                #[trigger] as_path(s, None, limit)[i],
            ),
{
    lemma_sanitized_is_clean(s);
    lemma_trim_is_subrange(sanitized(s));
    let (a, b) = choose|a: int, b: int|
        0 <= a <= b <= sanitized(s).len() && trim(sanitized(s)) == #[trigger] sanitized(
            s,
        ).subrange(a, b);
    assert forall|i: int| 0 <= i < as_path(s, None, limit).len() implies !is_forbidden(
        #[trigger] as_path(s, None, limit)[i],
    ) by {
        assert(as_path(s, None, limit)[i] == sanitized(s)[a + i]);
    }
}

fn label(clean: &str, id: &str) -> (out: String)
    ensures
        out@ == shortened(clean@, 70) + seq![' ', '('] + id@ + seq![')'],
{
    let mut out = unicode_safe_shorten(clean, 70);
    out.push(' ');
    out.push('(');
    push_text(&mut out, id);
    out.push(')');
    out
}

/// Makes a single path component from `s` on a platform whose components
/// may take at most `limit` bytes. A name that is too long for the
/// platform is cut down and labelled with a digest; the component then
/// takes 85 bytes at most.
pub fn sanitize_string_as_path_within(s: &str, id: Option<String>, limit: usize) -> (out: String)
    ensures
        out@ == as_path(s@, opt_text(id), limit as nat),
        id is None && limit >= 85 ==> byte_len(out@) <= limit,
{
    let sanitized = sanitize_string(s);
    let clean = trimmed(sanitized.as_str());
    match id {
        Some(id) => label(clean.as_str(), id.as_str()),
        None => {
            let chars = chars_of(clean.as_str());
            if byte_len_exceeds(&chars, limit) {
                let digest = sha256_digest(clean.as_str().as_bytes());
                let hex = hex_encode(digest.as_slice());
                proof {
                    lemma_hex_lower_len(digest@);
                }
                let mut id = String::new();
                id.push('l');
                id.push('o');
                id.push('n');
                id.push('g');
                id.push('_');
                let head = leading_chars(hex.as_str(), 5);
                push_text(&mut id, head.as_str());
                proof {
                    let word = seq!['l', 'o', 'n', 'g', '_'];
                    lemma_hex_is_plain(digest@);
                    assert forall|i: int| 0 <= i < head@.len() implies char_width(
                        #[trigger] head@[i],
                    ) == 1 by {
                        assert(head@[i] == hex@[i]);
                    }
                    lemma_one_byte_chars(head@);
                    assert(head@.len() == 5);
                    assert(id@ =~= word + head@);
                    lemma_byte_len_concat(word, head@);
                    assert(word.drop_last() =~= seq!['l', 'o', 'n', 'g']);
                    assert(seq!['l', 'o', 'n', 'g'].drop_last() =~= seq!['l', 'o', 'n']);
                    assert(seq!['l', 'o', 'n'].drop_last() =~= seq!['l', 'o']);
                    assert(seq!['l', 'o'].drop_last() =~= seq!['l']);
                    assert(seq!['l'].drop_last() =~= Seq::<char>::empty());
                    assert(byte_len(word) == 5) by {
                        reveal_with_fuel(byte_len, 6);
                    }
                    assert(byte_len(id@) == 10);
                    lemma_label_len(clean@, id@);
                }
                label(clean.as_str(), id.as_str())
            } else {
                clean
            }
        },
    }
}

/// Makes a single path component from `s` on a platform that puts no
/// limit on the length of a component.
pub fn sanitize_string_as_path(s: &str, id: Option<String>) -> (out: String)
    ensures
        out@ == as_path(s@, opt_text(id), usize::MAX as nat),
{
    sanitize_string_as_path_within(s, id, usize::MAX)
}

/// The file name that a URL ends in: its last path segment with the
/// percent escapes resolved; `None` where they do not resolve to text.
pub open spec fn filename_of(url: Seq<char>) -> Option<Seq<char>> {
    percent_decoded(url_last_segment(url)->0)
}

/// Whether `url` is a URL with path segments.
pub fn has_path_segments(url: &str) -> (r: bool)
    ensures
        r == (url_last_segment(url@) is Some),
{
    last_path_segment(url).is_some()
}

/// Extracts the file name from a URL that has path segments.
pub fn extract_filename(url: &str) -> (name: Option<String>)
    requires
        url_last_segment(url@) is Some,
    ensures
        opt_text(name) == filename_of(url@),
{
    match last_path_segment(url) {
        Some(segment) => percent_decode(segment.as_str()),
        None => None,
    }
}

/// Extracts the file name from `url` where `url` has path segments; the
/// outer `None` tells that it has none.
pub fn try_extract_filename(url: &str) -> (name: Option<Option<String>>)
    ensures
        name is Some == (url_last_segment(url@) is Some),
        name matches Some(inner) ==> opt_text(inner) == filename_of(url@),
{
    if has_path_segments(url) {
        Some(extract_filename(url))
    } else {
        None
    }
}

/// Whether `batches` cuts `list` into consecutive runs of `batch_size`
/// items, each item a clone of the one it stands for: every batch but the
/// last holds `batch_size` items, the last holds at least one, and
/// together they hold as many items as `list`.
pub open spec fn is_batching<T: Clone>(list: Seq<T>, batch_size: nat, batches: Seq<Vec<T>>) -> bool {
    &&& batches.len() == 0 <==> list.len() == 0
    &&& forall|j: int| 0 <= j < batches.len() - 1 ==> (#[trigger] batches[j])@.len() == batch_size
    &&& batches.len() > 0 ==> {
        &&& 1 <= batches.last()@.len() <= batch_size
        &&& (batches.len() - 1) * batch_size + batches.last()@.len() == list.len()
    }
    &&& forall|j: int, k: int|
        0 <= j < batches.len() && 0 <= k < batches[j]@.len() ==> cloned::<T>(
            list[j * batch_size + k],
            #[trigger] batches[j]@[k],
        )
}

/// The number of items in `batches`.
pub open spec fn total_items<T>(batches: Seq<Vec<T>>) -> nat
    decreases batches.len(),
{
    if batches.len() == 0 {
        0
    } else {
        total_items(batches.drop_last()) + batches.last()@.len()
    }
}

proof fn lemma_full_batches<T>(batches: Seq<Vec<T>>, size: nat)
    requires
        forall|j: int| 0 <= j < batches.len() ==> (#[trigger] batches[j])@.len() == size,
    ensures
        total_items(batches) == batches.len() * size,
    decreases batches.len(),
{
    if batches.len() > 0 {
        let init = batches.drop_last();
        assert forall|j: int| 0 <= j < init.len() implies (#[trigger] init[j])@.len() == size by {
            assert(init[j] == batches[j]);
        }
        lemma_full_batches(init, size);
        assert(init.len() * size + size == batches.len() * size) by (nonlinear_arith)
            requires
                init.len() + 1 == batches.len(),
        ;
    } else {
        assert(batches.len() * size == 0) by (nonlinear_arith)
            requires
                batches.len() == 0,
        ;
    }
}

/// In a batching no batch is empty or holds more than `batch_size` items,
/// and the batches hold as many items as the list.
pub proof fn lemma_batching_sizes<T: Clone>(list: Seq<T>, batch_size: nat, batches: Seq<Vec<T>>)
    requires
        batch_size > 0,
        is_batching(list, batch_size, batches),
    ensures
        forall|j: int| 0 <= j < batches.len() ==> 1 <= (#[trigger] batches[j])@.len() <= batch_size,
        total_items(batches) == list.len(),
{
    if batches.len() > 0 {
        let init = batches.drop_last();
        assert forall|j: int| 0 <= j < init.len() implies (#[trigger] init[j])@.len()
            == batch_size by {
            assert(init[j] == batches[j]);
        }
        lemma_full_batches(init, batch_size);
        assert forall|j: int| 0 <= j < batches.len() implies 1 <= (#[trigger] batches[j])@.len()
            <= batch_size by {
            if j < batches.len() - 1 {
                assert(batches[j]@.len() == batch_size);
            }
        }
    }
}

proof fn lemma_batch_index(j: int, k: int, size: int, full: int)
    requires
        0 <= j < full,
        0 <= k < size,
    ensures
        0 <= j * size + k < full * size,
        (full - 1) * size + size == full * size,
{
    assert(0 <= j * size && j * size + size <= full * size) by (nonlinear_arith)
        requires
            0 <= j < full,
            0 < size,
    ;
    assert((full - 1) * size + size == full * size) by (nonlinear_arith);
}

/// Cuts `list` into batches of `batch_size` items; the last batch holds
/// what is left.
pub fn batch_a_list_of<T: Clone>(list: &[T], batch_size: usize) -> (batches: Vec<Vec<T>>)
    requires
        batch_size > 0,
    ensures
        is_batching(list@, batch_size as nat, batches@),
{
    let mut batches: Vec<Vec<T>> = Vec::new();
    let mut current_batch: Vec<T> = Vec::new();
    let mut cursor: usize = 0;
    let ghost size = batch_size as int;
    assert(0 * size == 0);
    while cursor < list.len()
        invariant
            size == batch_size as int,
            size > 0,
            cursor <= list.len(),
            cursor == batches@.len() * size + current_batch@.len(),
            current_batch@.len() < size,
            forall|j: int| 0 <= j < batches@.len() ==> (#[trigger] batches@[j])@.len() == size,
            forall|j: int, k: int|
                0 <= j < batches@.len() && 0 <= k < size ==> cloned::<T>(
                    list@[j * size + k],
                    #[trigger] batches@[j]@[k],
                ),
            forall|k: int|
                0 <= k < current_batch@.len() ==> cloned::<T>(
                    list@[batches@.len() * size + k],
                    #[trigger] current_batch@[k],
                ),
        decreases list.len() - cursor,
    {
        let ghost full = batches@.len() as int;
        let ghost earlier = batches@;
        let ghost before = current_batch@;
        current_batch.push(list[cursor].clone());
        assert forall|k: int| 0 <= k < current_batch@.len() implies cloned::<T>(
            list@[full * size + k],
            #[trigger] current_batch@[k],
        ) by {
            if k < before.len() {
                assert(current_batch@[k] == before[k]);
            }
        }
        cursor += 1;
        if current_batch.len() == batch_size {
            let ghost done = current_batch@;
            batches.push(current_batch);
            current_batch = Vec::new();
            assert((full + 1) * size == full * size + size) by (nonlinear_arith);
            assert forall|j: int, k: int|
                0 <= j < batches@.len() && 0 <= k < size implies cloned::<T>(
                list@[j * size + k],
                #[trigger] batches@[j]@[k],
            ) by {
                if j == full {
                    assert(batches@[j]@ == done);
                } else {
                    assert(batches@[j]@[k] == earlier[j]@[k]);
                }
            }
        }
    }
    let ghost full = batches@.len() as int;
    let ghost earlier = batches@;
    let ghost rest = current_batch@;
    if !current_batch.is_empty() {
        batches.push(current_batch);
    }
    proof {
        let n = batches@.len() as int;
        assert(0 <= full * size) by (nonlinear_arith)
            requires
                0 <= full,
                0 < size,
        ;
        if full > 0 {
            lemma_batch_index(0, 0, size, full);
            assert(0 * size == 0);
        }
        assert forall|j: int, k: int|
            0 <= j < n && 0 <= k < batches@[j]@.len() implies cloned::<T>(
            list@[j * size + k],
            #[trigger] batches@[j]@[k],
        ) by {
            if j == full {
                assert(batches@[j]@ == rest);
            } else {
                assert(batches@[j]@[k] == earlier[j]@[k]);
            }
        }
        assert(n > 0 ==> (n - 1) * size + batches@.last()@.len() == list@.len()) by {
            if n > 0 && rest.len() == 0 {
                lemma_batch_index(0, 0, size, full);
            }
        }
    }
    batches
}

/// The number of characters that [`resume_text`] keeps at most, not
/// counting the mark it puts in the middle: `max`, but at least 1, and 50
/// where no `max` is given.
pub open spec fn resume_limit(max: Option<usize>) -> nat {
    match max {
        Some(v) => if v < 1 {
            1
        } else {
            v as nat
        },
        None => 50,
    }
}

/// `s` where it has at most `max` characters. A longer `s` loses
/// `s.len() - max` characters around its middle, and ` .. ` stands in
/// their place.
pub open spec fn resumed(s: Seq<char>, max: nat) -> Seq<char> {
    if s.len() <= max {
        s
    } else {
        let delta = s.len() - max;
        let chunk_end = s.len() / 2 - delta / 2;
        s.take(chunk_end) + seq![' ', '.', '.', ' '] + s.skip(chunk_end + delta)
    }
}

/// Shortens `s` to about `max` characters by cutting out its middle.
pub fn resume_text(s: &str, max: Option<usize>) -> (out: String)
    ensures
        out@ == resumed(s@, resume_limit(max)),
{
    let max: usize = match max {
        Some(v) => if v < 1 {
            1
        } else {
            v
        },
        None => 50,
    };
    let chars = chars_of(s);
    let char_count: usize = chars.len();
    let mut out = String::new();
    if char_count <= max {
        push_range(&mut out, &chars, 0, char_count);
        assert(chars@.subrange(0, char_count as int) == chars@);
        return out;
    }
    let delta: usize = char_count - max;
    let chunk_end: usize = char_count / 2 - delta / 2;
    push_range(&mut out, &chars, 0, chunk_end);
    out.push(' ');
    out.push('.');
    out.push('.');
    out.push(' ');
    push_range(&mut out, &chars, chunk_end + delta, char_count);
    assert(chars@.subrange(0, chunk_end as int) == chars@.take(chunk_end as int));
    assert(chars@.subrange(chunk_end + delta, char_count as int) == chars@.skip(chunk_end + delta));
    out
}

/// Values that can be empty.
pub trait IsEmpty {
    spec fn is_empty_spec(&self) -> bool;

    fn is_empty(&self) -> (r: bool)
        ensures
            r == self.is_empty_spec(),
    ;
}

impl IsEmpty for String {
    open spec fn is_empty_spec(&self) -> bool {
        self@.len() == 0
    }

    fn is_empty(&self) -> (r: bool) {
        self.as_str().is_empty()
    }
}

/// `value`, or `placeholder` where `value` is empty.
pub fn set_if_empty<T: IsEmpty>(value: T, placeholder: T) -> (out: T)
    ensures
        out == if value.is_empty_spec() {
            placeholder
        } else {
            value
        },
{
    if value.is_empty() {
        placeholder
    } else {
        value
    }
}

} // verus!
