//! What may be shown of a request: its shape, not its contents.

use vstd::prelude::*;

use crate::json::{quote_json, quoted};
use crate::media_request::InferenceInputSource;
use crate::text::{
    char_is_ascii_alnum, chars_of, decimal, holds, i64_text, is_ascii_alnum, is_ascii_letter, join3,
    join_strings, joined, lowered, occurs_at, opt_str_view, signed_decimal, split, split_at_last,
    str_contains, str_eq, str_lower, str_rsplit_once, str_split, str_starts_with, str_words,
    string_between, string_of, usize_text, views, words,
};

verus! {

// ---------------------------------------------------------------------------
// Names of private things
// ---------------------------------------------------------------------------

/// A word in the name of something private.
pub open spec fn is_private_token(word: Seq<char>) -> bool {
    word == "prompt"@
        || word == "lyrics"@
        || word == "text"@
        || word == "hotword"@
        || word == "path"@
        || word == "file"@
        || word == "url"@
        || word == "token"@
        || word == "reference"@
        || word == "model"@
        || word == "checkpoint"@
        || word == "vae"@
        || word == "refiner"@
        || word == "image"@
        || word == "video"@
        || word == "audio"@
        || word == "lora"@
        || word == "adapter"@
}

fn token_is_private(word: &str) -> (r: bool)
    ensures
        r == is_private_token(word@),
{
    str_eq(word, "prompt")
        || str_eq(word, "lyrics")
        || str_eq(word, "text")
        || str_eq(word, "hotword")
        || str_eq(word, "path")
        || str_eq(word, "file")
        || str_eq(word, "url")
        || str_eq(word, "token")
        || str_eq(word, "reference")
        || str_eq(word, "model")
        || str_eq(word, "checkpoint")
        || str_eq(word, "vae")
        || str_eq(word, "refiner")
        || str_eq(word, "image")
        || str_eq(word, "video")
        || str_eq(word, "audio")
        || str_eq(word, "lora")
        || str_eq(word, "adapter")
}

/// A whole name of something private.
pub open spec fn is_private_leaf(word: Seq<char>) -> bool {
    word == "api_key"@
        || word == "apikey"@
        || word == "filename"@
        || word == "filepath"@
        || word == "uri"@
        || word == "base64"@
}

fn leaf_is_private(word: &str) -> (r: bool)
    ensures
        r == is_private_leaf(word@),
{
    str_eq(word, "api_key")
        || str_eq(word, "apikey")
        || str_eq(word, "filename")
        || str_eq(word, "filepath")
        || str_eq(word, "uri")
        || str_eq(word, "base64")
}

/// The words of a name, by what is no letter or digit.
pub open spec fn name_tokens(name: Seq<char>) -> Seq<Seq<char>> {
    split(name.map_values(|c: char| if is_ascii_alnum(c) { c } else { ' ' }), ' ')
}

/// The last part of a dotted name, in lower case.
pub open spec fn name_leaf(path: Seq<char>) -> Seq<char> {
    lowered(
        match split_at_last(path, '.') {
            Some((_, last)) => last,
            None => path,
        },
    )
}

/// A parameter whose value is private, by its name.
pub open spec fn is_sensitive(path: Seq<char>) -> bool {
    let leaf = name_leaf(path);
    is_private_leaf(leaf) || exists|i: int|
        0 <= i < name_tokens(leaf).len() && is_private_token(#[trigger] name_tokens(leaf)[i])
}

fn tokens_of_name(name: &str) -> (r: Vec<String>)
    ensures
        views(r@) == name_tokens(name@),
{
    let chars = chars_of(name);
    let mut masked: Vec<char> = Vec::new();
    let mut i: usize = 0;
    let ghost all = name@.map_values(|c: char| if is_ascii_alnum(c) { c } else { ' ' });
    while i < chars.len()
        invariant
            i <= chars@.len(),
            chars@ == name@,
            all == name@.map_values(|c: char| if is_ascii_alnum(c) { c } else { ' ' }),
            masked@ == all.take(i as int),
        decreases chars@.len() - i,
    {
        let c = chars[i];
        masked.push(if char_is_ascii_alnum(c) { c } else { ' ' });
        i = i + 1;
        assert(masked@ =~= all.take(i as int));
    }
    assert(masked@ =~= all);
    let text = string_of(&masked);
    str_split(text.as_str(), ' ')
}

pub fn media_parameter_is_sensitive(path: &str) -> (r: bool)
    ensures
        r == is_sensitive(path@),
{
    let leaf = match str_rsplit_once(path, '.') {
        Some((_, last)) => str_lower(last.as_str()),
        None => str_lower(path),
    };
    assert(leaf@ == name_leaf(path@));
    if leaf_is_private(leaf.as_str()) {
        return true;
    }
    let tokens = tokens_of_name(leaf.as_str());
    let ghost all = name_tokens(leaf@);
    let mut i: usize = 0;
    while i < tokens.len()
        invariant
            i <= tokens@.len(),
            all == views(tokens@),
            all == name_tokens(name_leaf(path@)),
            !is_private_leaf(name_leaf(path@)),
            forall|j: int| 0 <= j < i ==> !is_private_token(#[trigger] all[j]),
        decreases tokens@.len() - i,
    {
        assert(all[i as int] == tokens@[i as int]@);
        if token_is_private(tokens[i].as_str()) {
            assert(is_private_token(name_tokens(name_leaf(path@))[i as int]));
            return true;
        }
        i = i + 1;
    }
    false
}

// ---------------------------------------------------------------------------
// Paths and addresses
// ---------------------------------------------------------------------------

/// A character that a path may stand behind.
pub open spec fn opens_path(c: char) -> bool {
    c == '=' || c == ':' || c == '\'' || c == '"' || c == '(' || c == '[' || c == '{'
}

fn char_opens_path(c: char) -> (r: bool)
    ensures
        r == opens_path(c),
{
    c == '=' || c == ':' || c == '\'' || c == '"' || c == '(' || c == '[' || c == '{'
}

pub open spec fn is_separator(c: char) -> bool {
    c == '/' || c == '\\'
}

/// An absolute path starts here: a separator at the start or behind a character
/// that opens one, or a drive.
pub open spec fn path_starts_at(s: Seq<char>, i: int) -> bool {
    ||| is_separator(s[i]) && (i == 0 || opens_path(s[i - 1]))
    ||| is_ascii_letter(s[i]) && i + 2 < s.len() && s[i + 1] == ':' && is_separator(s[i + 2])
}

pub open spec fn has_absolute_path(s: Seq<char>) -> bool {
    exists|i: int| 0 <= i < s.len() && #[trigger] path_starts_at(s, i)
}

fn letter(c: char) -> (r: bool)
    ensures
        r == is_ascii_letter(c),
{
    ('a' <= c && c <= 'z') || ('A' <= c && c <= 'Z')
}

pub fn contains_absolute_path(value: &str) -> (r: bool)
    ensures
        r == has_absolute_path(value@),
{
    let s = chars_of(value);
    let mut i: usize = 0;
    while i < s.len()
        invariant
            i <= s@.len(),
            s@ == value@,
            forall|j: int| 0 <= j < i ==> !#[trigger] path_starts_at(value@, j),
        decreases s@.len() - i,
    {
        let c = s[i];
        let rooted = (c == '/' || c == '\\') && (i == 0 || char_opens_path(s[i - 1]));
        let n: usize = s.len();
        let drive = letter(c) && n - i > 2 && s[i + 1] == ':' && (s[i + 2] == '/' || s[i + 2]
            == '\\');
        assert((rooted || drive) == path_starts_at(value@, i as int));
        if rooted || drive {
            return true;
        }
        i = i + 1;
    }
    false
}

pub open spec fn has_web_address(s: Seq<char>) -> bool {
    holds(s, "http://"@) || holds(s, "https://"@)
}

fn contains_web_address(s: &str) -> (r: bool)
    ensures
        r == has_web_address(s@),
{
    str_contains(s, "http://") || str_contains(s, "https://")
}

// ---------------------------------------------------------------------------
// Running text
// ---------------------------------------------------------------------------

/// A mark that stands around a word.
pub open spec fn is_mark(c: char) -> bool {
    c == '\'' || c == '"' || c == '(' || c == ')' || c == '[' || c == ']' || c == '{' || c == '}'
        || c == ',' || c == ';'
}

fn char_is_mark(c: char) -> (r: bool)
    ensures
        r == is_mark(c),
{
    c == '\'' || c == '"' || c == '(' || c == ')' || c == '[' || c == ']' || c == '{' || c == '}'
        || c == ',' || c == ';'
}

pub open spec fn without_first_marks(s: Seq<char>) -> Seq<char>
    decreases s.len(),
{
    if s.len() > 0 && is_mark(s[0]) {
        without_first_marks(s.drop_first())
    } else {
        s
    }
}

pub open spec fn without_last_marks(s: Seq<char>) -> Seq<char>
    decreases s.len(),
{
    if s.len() > 0 && is_mark(s.last()) {
        without_last_marks(s.drop_last())
    } else {
        s
    }
}

/// A word without the marks around it.
pub open spec fn bare(word: Seq<char>) -> Seq<char> {
    without_last_marks(without_first_marks(word))
}

fn strip_marks(word: &str) -> (r: String)
    ensures
        r@ == bare(word@),
{
    let v = chars_of(word);
    let mut from: usize = 0;
    assert(v@.skip(0) =~= v@);
    while from < v.len() && char_is_mark(v[from])
        invariant
            from <= v@.len(),
            without_first_marks(v@) == without_first_marks(v@.skip(from as int)),
        decreases v@.len() - from,
    {
        assert(v@.skip(from as int).drop_first() =~= v@.skip(from + 1));
        from = from + 1;
    }
    let mut to: usize = v.len();
    assert(v@.subrange(from as int, to as int) =~= v@.skip(from as int));
    while to > from && char_is_mark(v[to - 1])
        invariant
            from <= to <= v@.len(),
            bare(v@) == without_last_marks(v@.subrange(from as int, to as int)),
        decreases to,
    {
        assert(v@.subrange(from as int, to as int).drop_last() =~= v@.subrange(
            from as int,
            to - 1,
        ));
        to = to - 1;
    }
    string_between(&v, from, to)
}

/// A word, or what stands for an address or a path.
pub open spec fn shown_word(word: Seq<char>) -> Seq<char> {
    if has_web_address(bare(word)) {
        "<url>"@
    } else if has_absolute_path(bare(word)) {
        "<path>"@
    } else {
        word
    }
}

pub open spec fn shown_words(parts: Seq<Seq<char>>) -> Seq<Seq<char>> {
    parts.map_values(|w: Seq<char>| shown_word(w))
}

/// A text with one space between its words, and without addresses and paths.
pub open spec fn sanitized(text: Seq<char>) -> Seq<char> {
    joined(shown_words(words(text)), " "@)
}

pub fn media_sanitize_debug_text(text: &str) -> (r: String)
    ensures
        r@ == sanitized(text@),
{
    let parts = str_words(text);
    let ghost all = words(text@);
    let mut shown: Vec<String> = Vec::new();
    let mut i: usize = 0;
    while i < parts.len()
        invariant
            i <= parts@.len(),
            all == words(text@),
            all == views(parts@),
            shown@.len() == i,
            forall|j: int| 0 <= j < i ==> (#[trigger] shown@[j])@ == shown_word(all[j]),
        decreases parts@.len() - i,
    {
        assert(all[i as int] == parts@[i as int]@);
        let candidate = strip_marks(parts[i].as_str());
        if contains_web_address(candidate.as_str()) {
            shown.push("<url>".to_owned());
        } else if contains_absolute_path(candidate.as_str()) {
            shown.push("<path>".to_owned());
        } else {
            shown.push(parts[i].clone());
        }
        i = i + 1;
    }
    assert(views(shown@) =~= shown_words(all));
    join_strings(&shown, " ")
}

proof fn lemma_bare_is_inside(word: Seq<char>) -> (from: int)
    ensures
        0 <= from,
        from + bare(word).len() <= word.len(),
        bare(word) == word.subrange(from, from + bare(word).len()),
        forall|i: int| 0 <= i < from ==> is_mark(#[trigger] word[i]),
        forall|i: int| from + bare(word).len() <= i < word.len() ==> is_mark(#[trigger] word[i]),
{
    let middle = without_first_marks(word);
    let from = lemma_first_marks(word);
    lemma_last_marks(middle);
    let n = bare(word).len() as int;
    assert(middle.take(n) =~= word.subrange(from, from + n));
    assert forall|i: int| from + n <= i < word.len() implies is_mark(#[trigger] word[i]) by {
        assert(word[i] == middle[i - from]);
    }
    from
}

proof fn lemma_first_marks(word: Seq<char>) -> (from: int)
    ensures
        0 <= from <= word.len(),
        without_first_marks(word) == word.skip(from),
        forall|i: int| 0 <= i < from ==> is_mark(#[trigger] word[i]),
    decreases word.len(),
{
    if word.len() > 0 && is_mark(word[0]) {
        let rest = word.drop_first();
        let from = lemma_first_marks(rest);
        assert(rest.skip(from) =~= word.skip(from + 1));
        assert forall|i: int| 0 <= i < from + 1 implies is_mark(#[trigger] word[i]) by {
            if i > 0 {
                assert(word[i] == rest[i - 1]);
            }
        }
        from + 1
    } else {
        assert(word.skip(0) =~= word);
        0
    }
}

proof fn lemma_last_marks(word: Seq<char>)
    ensures
        without_last_marks(word).len() <= word.len(),
        without_last_marks(word) == word.take(without_last_marks(word).len() as int),
        forall|i: int|
            without_last_marks(word).len() <= i < word.len() ==> is_mark(#[trigger] word[i]),
    decreases word.len(),
{
    if word.len() > 0 && is_mark(word.last()) {
        let rest = word.drop_last();
        lemma_last_marks(rest);
        let n = without_last_marks(rest).len() as int;
        assert(rest.take(n) =~= word.take(n));
        assert forall|i: int| n <= i < word.len() implies is_mark(#[trigger] word[i]) by {
            if i < rest.len() {
                assert(word[i] == rest[i]);
            }
        }
    } else {
        assert(word.take(word.len() as int) =~= word);
    }
}

/// A word that is shown holds no absolute path.
pub proof fn shown_words_hold_no_path(word: Seq<char>)
    ensures
        !has_absolute_path(shown_word(word)),
{
    reveal_strlit("<url>");
    reveal_strlit("<path>");
    let shown = shown_word(word);
    if shown == word && !has_absolute_path(bare(word)) {
        let from = lemma_bare_is_inside(word);
        let inner = bare(word);
        let n = inner.len() as int;
        assert forall|i: int| 0 <= i < word.len() implies !#[trigger] path_starts_at(word, i) by {
            if path_starts_at(word, i) {
                assert(!is_mark(word[i]));
                assert(from <= i < from + n);
                assert(inner[i - from] == word[i]);
                if is_separator(word[i]) {
                    if i > from {
                        assert(inner[i - from - 1] == word[i - 1]);
                    }
                    assert(path_starts_at(inner, i - from));
                } else {
                    assert(!is_mark(word[i + 2]) && !is_mark(word[i + 1]));
                    assert(from <= i + 2 < from + n);
                    assert(inner[i - from + 1] == word[i + 1]);
                    assert(inner[i - from + 2] == word[i + 2]);
                    assert(path_starts_at(inner, i - from));
                }
            }
        }
    } else {
        assert forall|i: int| 0 <= i < shown.len() implies !#[trigger] path_starts_at(shown, i) by {
        }
    }
}

/// A word that is shown holds no web address.
pub proof fn shown_words_hold_no_address(word: Seq<char>)
    ensures
        !has_web_address(shown_word(word)),
{
    reveal_strlit("<url>");
    reveal_strlit("<path>");
    reveal_strlit("http://");
    reveal_strlit("https://");
    let shown = shown_word(word);
    if shown == word && !has_web_address(bare(word)) {
        lemma_bare_holds(word, "http://"@);
        lemma_bare_holds(word, "https://"@);
    }
}

/// What holds no mark stands in a word only where it stands in the bare word.
proof fn lemma_bare_holds(word: Seq<char>, part: Seq<char>)
    requires
        part.len() > 0,
        forall|i: int| 0 <= i < part.len() ==> !is_mark(#[trigger] part[i]),
        !holds(bare(word), part),
    ensures
        !holds(word, part),
{
    let from = lemma_bare_is_inside(word);
    let inner = bare(word);
    assert forall|k: int| !occurs_at(word, part, k) by {
        if occurs_at(word, part, k) {
            let found = word.subrange(k, k + part.len());
            assert(found[0] == word[k] && found.last() == word[k + part.len() - 1]);
            assert(!is_mark(part[0]) && !is_mark(part[part.len() - 1]));
            assert(from <= k && k + part.len() <= from + inner.len());
            assert(inner.subrange(k - from, k - from + part.len()) =~= found);
            assert(occurs_at(inner, part, k - from));
        }
    }
}

/// What holds no space stands in two texts with a space between them only where it
/// stands in one of them.
proof fn lemma_spaced_holds(a: Seq<char>, b: Seq<char>, part: Seq<char>)
    requires
        part.len() > 0,
        !part.contains(' '),
        !holds(a, part),
        !holds(b, part),
    ensures
        !holds(a + " "@ + b, part),
{
    reveal_strlit(" ");
    let whole = a + " "@ + b;
    let n = part.len() as int;
    assert forall|k: int| !occurs_at(whole, part, k) by {
        if occurs_at(whole, part, k) {
            let found = whole.subrange(k, k + n);
            if k + n <= a.len() {
                assert(a.subrange(k, k + n) =~= found);
                assert(occurs_at(a, part, k));
            } else if k > a.len() {
                let at = k - a.len() - 1;
                assert(b.subrange(at, at + n) =~= found);
                assert(occurs_at(b, part, at));
            } else {
                assert(found[a.len() - k] == ' ');
                assert(part[a.len() - k] == ' ');
            }
        }
    }
}

proof fn lemma_spaced_paths(a: Seq<char>, b: Seq<char>)
    requires
        !has_absolute_path(a),
        !has_absolute_path(b),
    ensures
        !has_absolute_path(a + " "@ + b),
{
    reveal_strlit(" ");
    let whole = a + " "@ + b;
    let n = a.len() as int;
    assert(whole[n] == ' ');
    assert forall|i: int| 0 <= i < whole.len() implies !#[trigger] path_starts_at(whole, i) by {
        if path_starts_at(whole, i) {
            if i < n {
                assert(a[i] == whole[i]);
                if i > 0 {
                    assert(a[i - 1] == whole[i - 1]);
                }
                if i + 2 < n {
                    assert(a[i + 1] == whole[i + 1]);
                    assert(a[i + 2] == whole[i + 2]);
                }
                assert(path_starts_at(a, i));
            } else if i > n {
                let j = i - n - 1;
                assert(b[j] == whole[i]);
                if j > 0 {
                    assert(b[j - 1] == whole[i - 1]);
                }
                if j + 2 < b.len() {
                    assert(b[j + 1] == whole[i + 1]);
                    assert(b[j + 2] == whole[i + 2]);
                }
                assert(path_starts_at(b, j));
            }
        }
    }
}

proof fn lemma_shown_words(parts: Seq<Seq<char>>)
    ensures
        !has_absolute_path(joined(shown_words(parts), " "@)),
        !has_web_address(joined(shown_words(parts), " "@)),
    decreases parts.len(),
{
    reveal_strlit("http://");
    reveal_strlit("https://");
    let shown = shown_words(parts);
    if parts.len() == 0 {
        assert(joined(shown, " "@).len() == 0);
    } else {
        let last = parts.last();
        shown_words_hold_no_path(last);
        shown_words_hold_no_address(last);
        assert(shown.last() == shown_word(last));
        if parts.len() > 1 {
            lemma_shown_words(parts.drop_last());
            assert(shown.drop_last() =~= shown_words(parts.drop_last()));
            let before = joined(shown.drop_last(), " "@);
            lemma_spaced_paths(before, shown.last());
            lemma_spaced_holds(before, shown.last(), "http://"@);
            lemma_spaced_holds(before, shown.last(), "https://"@);
        }
    }
}

/// A text that was cleaned for a report holds no absolute path and no web address.
pub proof fn sanitized_texts_hold_no_path_or_address(text: Seq<char>)
    ensures
        !has_absolute_path(sanitized(text)),
        !has_web_address(sanitized(text)),
{
    lemma_shown_words(words(text));
}

// ---------------------------------------------------------------------------
// Values
// ---------------------------------------------------------------------------

/// The value of a parameter, as far as it may be shown. A number is written with
/// eight decimals; of a list and an object there is the length.
#[derive(Debug)]
pub enum ParameterValue {
    Null,
    Boolean(bool),
    Integer(i64),
    Number(String),
    Text(String),
    List(usize),
    Object(usize),
}

/// A number without the zeros at its end, and without a point that nothing
/// follows.
pub open spec fn without_zeros(s: Seq<char>) -> Seq<char>
    decreases s.len(),
{
    if s.len() > 0 && s.contains('.') && s.last() == '0' {
        without_zeros(s.drop_last())
    } else {
        s
    }
}

pub open spec fn trimmed_number(s: Seq<char>) -> Seq<char> {
    let short = without_zeros(s);
    if short.len() > 0 && short.last() == '.' {
        short.drop_last()
    } else {
        short
    }
}

pub fn trim_float(value: &str) -> (r: String)
    ensures
        r@ == trimmed_number(value@),
{
    let chars = chars_of(value);
    let mut n: usize = chars.len();
    assert(value@.take(n as int) =~= value@);
    while n > 0 && chars[n - 1] == '0' && has_point(&chars, n)
        invariant
            n <= chars@.len(),
            chars@ == value@,
            without_zeros(value@) == without_zeros(value@.take(n as int)),
        decreases n,
    {
        assert(value@.take(n as int).drop_last() =~= value@.take(n - 1));
        n = n - 1;
    }
    if n > 0 && chars[n - 1] == '.' {
        assert(value@.take(n as int).drop_last() =~= value@.take(n - 1));
        n = n - 1;
    }
    let r = string_between(&chars, 0, n);
    assert(r@ =~= value@.take(n as int));
    r
}

fn has_point(chars: &Vec<char>, n: usize) -> (r: bool)
    requires
        n <= chars@.len(),
    ensures
        r == chars@.take(n as int).contains('.'),
{
    let mut i: usize = 0;
    while i < n
        invariant
            i <= n <= chars@.len(),
            forall|j: int| 0 <= j < i ==> chars@[j] != '.',
        decreases n - i,
    {
        if chars[i] == '.' {
            assert(chars@.take(n as int)[i as int] == '.');
            return true;
        }
        i = i + 1;
    }
    false
}

/// A text that must not be shown, by its parameter or by itself.
pub open spec fn is_private_text(path: Seq<char>, value: Seq<char>) -> bool {
    is_sensitive(path) || has_absolute_path(value) || has_web_address(value)
        || "data:"@.is_prefix_of(value)
}

pub open spec fn shown_value(path: Seq<char>, value: ParameterValue) -> Seq<char> {
    match value {
        ParameterValue::Null => "null"@,
        ParameterValue::Boolean(b) => if b {
            "true"@
        } else {
            "false"@
        },
        ParameterValue::Integer(n) => signed_decimal(n as int),
        ParameterValue::Number(text) => trimmed_number(text@),
        ParameterValue::Text(text) => if is_private_text(path, text@) {
            "<redacted>"@
        } else {
            quoted(text@)
        },
        ParameterValue::List(n) => "["@ + decimal(n as nat) + " item(s)]"@,
        ParameterValue::Object(n) => "{"@ + decimal(n as nat) + " field(s)}"@,
    }
}

/// What is shown of the value of a parameter.
pub fn media_debug_parameter_value(path: &str, value: &ParameterValue) -> (r: String)
    ensures
        r@ == shown_value(path@, *value),
{
    match value {
        ParameterValue::Null => "null".to_owned(),
        ParameterValue::Boolean(b) => if *b {
            "true".to_owned()
        } else {
            "false".to_owned()
        },
        ParameterValue::Integer(n) => i64_text(*n),
        ParameterValue::Number(text) => trim_float(text.as_str()),
        ParameterValue::Text(text) => {
            if media_parameter_is_sensitive(path) || contains_absolute_path(text.as_str())
                || contains_web_address(text.as_str()) || str_starts_with(text.as_str(), "data:") {
                "<redacted>".to_owned()
            } else {
                quote_json(text.as_str())
            }
        },
        ParameterValue::List(n) => {
            let count = usize_text(*n);
            join3("[", count.as_str(), " item(s)]")
        },
        ParameterValue::Object(n) => {
            let count = usize_text(*n);
            join3("{", count.as_str(), " field(s)}")
        },
    }
}

/// Of a private text nothing is shown: any other private text under the same
/// name looks the same.
pub proof fn private_texts_look_alike(path: Seq<char>, a: String, b: String)
    requires
        is_private_text(path, a@),
        is_private_text(path, b@),
    ensures
        shown_value(path, ParameterValue::Text(a)) == shown_value(path, ParameterValue::Text(b)),
{
}

/// Whether there is a text, and how long it is.
pub open spec fn presence(text: Option<Seq<char>>) -> Seq<char> {
    match text {
        Some(text) => "present ("@ + decimal(text.len()) + " character(s), redacted)"@,
        None => "none"@,
    }
}

pub fn media_text_presence(text: Option<&str>) -> (r: String)
    ensures
        r@ == presence(opt_str_view(text)),
{
    match text {
        Some(text) => {
            let count = usize_text(text.unicode_len());
            join3("present (", count.as_str(), " character(s), redacted)")
        },
        None => "none".to_owned(),
    }
}

/// What kind of source an input has.
pub open spec fn source_kind(source: InferenceInputSource) -> Seq<char> {
    match source {
        InferenceInputSource::Path { .. } => "path (redacted)"@,
        InferenceInputSource::Url { .. } => "url (redacted)"@,
        InferenceInputSource::Base64 { .. } => "base64 (redacted)"@,
        InferenceInputSource::Text { .. } => "text (redacted)"@,
    }
}

pub fn media_input_source_kind(source: &InferenceInputSource) -> (r: &'static str)
    ensures
        r@ == source_kind(*source),
{
    match source {
        InferenceInputSource::Path { .. } => "path (redacted)",
        InferenceInputSource::Url { .. } => "url (redacted)",
        InferenceInputSource::Base64 { .. } => "base64 (redacted)",
        InferenceInputSource::Text { .. } => "text (redacted)",
    }
}

// ---------------------------------------------------------------------------
// What is kept private
// ---------------------------------------------------------------------------

/// A parameter is private where its own name has a private word in it, whatever stands
/// before the name.
pub proof fn private_names_are_private(prefix: Seq<char>, leaf: Seq<char>, i: int)
    requires
        !leaf.contains('.'),
    ensures
        is_sensitive(prefix + seq!['.'] + leaf) == is_sensitive(leaf),
        0 <= i < name_tokens(lowered(leaf)).len() && is_private_token(
            name_tokens(lowered(leaf))[i],
        ) ==> is_sensitive(leaf),
        is_private_leaf(lowered(leaf)) ==> is_sensitive(leaf),
        is_private_token("prompt"@),
        is_private_token("lyrics"@),
        is_private_token("text"@),
        is_private_token("hotword"@),
        is_private_token("path"@),
        is_private_token("file"@),
        is_private_token("url"@),
        is_private_token("token"@),
        is_private_token("reference"@),
        is_private_token("model"@),
        is_private_token("checkpoint"@),
        is_private_token("vae"@),
        is_private_token("refiner"@),
        is_private_token("image"@),
        is_private_token("video"@),
        is_private_token("audio"@),
        is_private_token("lora"@),
        is_private_token("adapter"@),
        is_private_leaf("api_key"@),
        is_private_leaf("apikey"@),
        is_private_leaf("filename"@),
        is_private_leaf("filepath"@),
        is_private_leaf("uri"@),
        is_private_leaf("base64"@),
        !is_private_token("seed"@) && !is_private_token("width"@) && !is_private_token("steps"@),
{
    let full = prefix + seq!['.'] + leaf;
    assert forall|j: int| 0 <= j < leaf.len() implies leaf[j] != '.' by {
        assert(leaf.contains(leaf[j]));
    }
    assert forall|j: int| prefix.len() < j < full.len() implies full[j] != '.' by {
        assert(full[j] == leaf[j - prefix.len() - 1]);
    }
    crate::text::lemma_split_at_last(full, '.', prefix.len() as int);
    assert(full.skip(prefix.len() as int + 1) =~= leaf);
    crate::text::lemma_split_at_last_none(leaf, '.');
    reveal_strlit("seed");
    reveal_strlit("width");
    reveal_strlit("steps");
    reveal_strlit("prompt");
    reveal_strlit("lyrics");
    reveal_strlit("text");
    reveal_strlit("hotword");
    reveal_strlit("path");
    reveal_strlit("file");
    reveal_strlit("url");
    reveal_strlit("token");
    reveal_strlit("reference");
    reveal_strlit("model");
    reveal_strlit("checkpoint");
    reveal_strlit("vae");
    reveal_strlit("refiner");
    reveal_strlit("image");
    reveal_strlit("video");
    reveal_strlit("audio");
    reveal_strlit("lora");
    reveal_strlit("adapter");
    assert("seed"@[0] == 's' && "width"@[0] == 'w' && "steps"@[0] == 's');
    assert("prompt"@[0] == 'p');
    assert("lyrics"@[0] == 'l');
    assert("text"@[0] == 't');
    assert("hotword"@[0] == 'h');
    assert("path"@[0] == 'p');
    assert("file"@[0] == 'f');
    assert("url"@[0] == 'u');
    assert("token"@[0] == 't');
    assert("reference"@[0] == 'r');
    assert("model"@[0] == 'm');
    assert("checkpoint"@[0] == 'c');
    assert("vae"@[0] == 'v');
    assert("refiner"@[0] == 'r');
    assert("image"@[0] == 'i');
    assert("video"@[0] == 'v');
    assert("audio"@[0] == 'a');
    assert("lora"@[0] == 'l');
    assert("adapter"@[0] == 'a');
}

/// A path that begins at a root is one, at the beginning of a text and behind what opens
/// it, and so is one that begins at a drive.
pub proof fn paths_begin_at_roots(before: Seq<char>, rest: Seq<char>, c: char)
    ensures
        has_absolute_path(seq!['/'] + rest),
        has_absolute_path(seq!['\\'] + rest),
        c == '=' || c == ':' || c == '\'' || c == '"' || c == '(' || c == '[' || c == '{'
            ==> has_absolute_path(before + seq![c, '/'] + rest) && has_absolute_path(
            before + seq![c, '\\'] + rest,
        ),
        is_ascii_letter(c) ==> has_absolute_path(before + seq![c, ':', '/'] + rest)
            && has_absolute_path(before + seq![c, ':', '\\'] + rest),
        has_web_address(before + "http://"@ + rest),
        has_web_address(before + "https://"@ + rest),
{
    let n = before.len() as int;
    assert(path_starts_at(seq!['/'] + rest, 0));
    assert(path_starts_at(seq!['\\'] + rest, 0));
    if opens_path(c) {
        assert(path_starts_at(before + seq![c, '/'] + rest, n + 1));
        assert(path_starts_at(before + seq![c, '\\'] + rest, n + 1));
    }
    if is_ascii_letter(c) {
        assert(path_starts_at(before + seq![c, ':', '/'] + rest, n));
        assert(path_starts_at(before + seq![c, ':', '\\'] + rest, n));
    }
    let a = before + "http://"@ + rest;
    assert(a.subrange(n, n + "http://"@.len()) =~= "http://"@);
    assert(occurs_at(a, "http://"@, n));
    let b = before + "https://"@ + rest;
    assert(b.subrange(n, n + "https://"@.len()) =~= "https://"@);
    assert(occurs_at(b, "https://"@, n));
}

/// Words that hold neither a path nor an address are shown as they stand.
pub proof fn harmless_words_are_shown(word: Seq<char>)
    ensures
        !has_web_address(bare(word)) && !has_absolute_path(bare(word)) ==> shown_word(word) == word,
        has_web_address(bare(word)) ==> shown_word(word) == "<url>"@,
        !has_web_address(bare(word)) && has_absolute_path(bare(word)) ==> shown_word(word)
            == "<path>"@,
        shown_words(seq![word]) == seq![shown_word(word)],
{
    assert(shown_words(seq![word]) =~= seq![shown_word(word)]);
}

/// Numbers lose the zeros at their end and nothing else; truth values, numbers and sizes
/// are shown, and texts where they are not private.
pub proof fn values_are_shown(path: Seq<char>, text: String, s: Seq<char>, n: i64, size: usize)
    ensures
        shown_value(path, ParameterValue::Boolean(true)) == "true"@,
        shown_value(path, ParameterValue::Boolean(false)) == "false"@,
        shown_value(path, ParameterValue::Null) == "null"@,
        shown_value(path, ParameterValue::Integer(n)) == signed_decimal(n as int),
        is_sensitive(path) || has_absolute_path(text@) || has_web_address(text@)
            || "data:"@.is_prefix_of(text@) ==> shown_value(path, ParameterValue::Text(text))
            == "<redacted>"@,
        !is_sensitive(path) && !has_absolute_path(text@) && !has_web_address(text@)
            && !"data:"@.is_prefix_of(text@) ==> shown_value(path, ParameterValue::Text(text))
            == quoted(text@),
        s.contains('.') ==> trimmed_number(s.push('0')) == trimmed_number(s),
        !s.contains('.') ==> trimmed_number(s) == s,
        s.contains('.') && s.last() != '0' && s.last() != '.' ==> trimmed_number(s) == s,
        !s.contains('.') ==> trimmed_number(s.push('.')) == s,
        presence(None) == "none"@,
{
    assert(s.push('0').drop_last() =~= s);
    if s.contains('.') {
        let k = choose|k: int| 0 <= k < s.len() && s[k] == '.';
        assert(s.push('0')[k] == '.');
    } else {
        if s.len() > 0 {
            assert(s[s.len() - 1] == s.last());
        }
        assert(s.push('.').drop_last() =~= s);
    }
}

/// The tokens of a name are the words between what is neither letter nor digit.
pub proof fn names_are_made_of_tokens(name: Seq<char>, i: int, token: String)
    ensures
        0 <= i < name_tokens(name).len() ==> !name_tokens(name)[i].contains(' '),
        (forall|j: int| 0 <= j < name.len() ==> is_ascii_alnum(#[trigger] name[j]))
            ==> name_tokens(name) == seq![name],
        source_kind(InferenceInputSource::Path { path: token }) == "path (redacted)"@,
        source_kind(InferenceInputSource::Url { url: token }) == "url (redacted)"@,
        source_kind(InferenceInputSource::Base64 { data: token }) == "base64 (redacted)"@,
        source_kind(InferenceInputSource::Text { text: token }) == "text (redacted)"@,
{
    let spaced = name.map_values(
        |c: char|
            if is_ascii_alnum(c) {
                c
            } else {
                ' '
            },
    );
    crate::text::parts_are_joined_again(spaced, ' ', i);
    if forall|j: int| 0 <= j < name.len() ==> is_ascii_alnum(#[trigger] name[j]) {
        assert forall|j: int| 0 <= j < name.len() implies spaced[j] == name[j] && spaced[j]
            != ' ' by {
            assert(is_ascii_alnum(name[j]));
        }
        assert(spaced =~= name);
        crate::text::lemma_position_unique(spaced, ' ', spaced.len() as int);
        assert(name_tokens(name) =~= seq![name]);
    }
}

} // verus!
