//! Where the results of media requests go: file names, what may be written, and
//! what is undone when writing fails.

use vstd::prelude::*;

use crate::binary64::{bytes_text, format_bytes};
use crate::json::Json;
use crate::paths::{
    child, directory, directory_is_shorter, extension, file_name, path_child, path_directory,
    path_extension, path_file_name,
};
use crate::text::{
    char_is_ascii_alnum, char_lower, chars_of, decimal, digits_value, is_ascii_alnum, is_digit,
    join2, join3, join5, join_strings, joined, lower, lowered, opt_view, str_eq, str_lower,
    str_starts_with, str_strip_prefix, string_between, u64_text, usize_text, views, without_prefix,
};

verus! {

// ---------------------------------------------------------------------------
// File names
// ---------------------------------------------------------------------------

/// A slug with one more character: a letter or digit in lower case, a hyphen for
/// anything between such, and nothing beyond the limit.
pub open spec fn slug_step(slug: Seq<char>, c: char, max_len: nat) -> Seq<char> {
    if slug.len() >= max_len {
        slug
    } else if is_ascii_alnum(c) {
        slug.push(lower(c))
    } else if slug.len() > 0 && slug.last() != '-' {
        slug.push('-')
    } else {
        slug
    }
}

pub open spec fn slug_of(value: Seq<char>, max_len: nat) -> Seq<char>
    decreases value.len(),
{
    if value.len() == 0 {
        Seq::empty()
    } else {
        slug_step(slug_of(value.drop_last(), max_len), value.last(), max_len)
    }
}

pub open spec fn without_last_hyphens(s: Seq<char>) -> Seq<char>
    decreases s.len(),
{
    if s.len() > 0 && s.last() == '-' {
        without_last_hyphens(s.drop_last())
    } else {
        s
    }
}

/// A name that any file system takes.
pub open spec fn output_slug(value: Seq<char>, max_len: nat) -> Seq<char> {
    let slug = without_last_hyphens(slug_of(value, max_len));
    if slug.len() == 0 {
        "model"@
    } else {
        slug
    }
}

pub fn cli_output_slug(value: &str, max_len: usize) -> (r: String)
    ensures
        r@ == output_slug(value@, max_len as nat),
{
    let chars = chars_of(value);
    let mut slug: Vec<char> = Vec::new();
    let mut i: usize = 0;
    assert(value@.take(0) =~= Seq::empty());
    while i < chars.len()
        invariant
            i <= chars@.len(),
            chars@ == value@,
            slug@ == slug_of(value@.take(i as int), max_len as nat),
        decreases chars@.len() - i,
    {
        assert(value@.take(i + 1).drop_last() =~= value@.take(i as int));
        let c = chars[i];
        if slug.len() < max_len {
            if char_is_ascii_alnum(c) {
                slug.push(char_lower(c));
            } else if slug.len() > 0 && slug[slug.len() - 1] != '-' {
                slug.push('-');
            }
        }
        i = i + 1;
    }
    assert(value@.take(i as int) =~= value@);
    let ghost whole = slug@;
    while slug.len() > 0 && slug[slug.len() - 1] == '-'
        invariant
            without_last_hyphens(whole) == without_last_hyphens(slug@),
        decreases slug@.len(),
    {
        let ghost before = slug@;
        slug.pop();
        assert(slug@ =~= before.drop_last());
    }
    if slug.len() == 0 {
        return "model".to_owned();
    }
    let n: usize = slug.len();
    let r = string_between(&slug, 0, n);
    assert(r@ =~= slug@);
    r
}

pub open spec fn is_slug_char(c: char) -> bool {
    c == '-' || is_digit(c) || ('a' <= c && c <= 'z')
}

proof fn lemma_slug_of(value: Seq<char>, max_len: nat)
    ensures
        slug_of(value, max_len).len() <= max_len,
        forall|i: int|
            0 <= i < slug_of(value, max_len).len() ==> is_slug_char(
                #[trigger] slug_of(value, max_len)[i],
            ),
        slug_of(value, max_len).len() > 0 ==> slug_of(value, max_len)[0] != '-',
        forall|i: int|
            0 <= i < slug_of(value, max_len).len() - 1 && slug_of(value, max_len)[i] == '-'
                ==> #[trigger] slug_of(value, max_len)[i + 1] != '-',
    decreases value.len(),
{
    if value.len() > 0 {
        let before = slug_of(value.drop_last(), max_len);
        lemma_slug_of(value.drop_last(), max_len);
        let c = value.last();
        let after = slug_step(before, c, max_len);
        if is_ascii_alnum(c) {
            assert(is_slug_char(lower(c)));
            assert(lower(c) != '-');
        }
        assert forall|i: int| 0 <= i < after.len() implies is_slug_char(#[trigger] after[i]) by {
            if i < before.len() {
                assert(after[i] == before[i]);
            }
        }
        assert forall|i: int| 0 <= i < after.len() - 1 && after[i] == '-' implies #[trigger] after[i
            + 1] != '-' by {
            assert(after[i] == before[i]);
            if i + 1 < before.len() {
                assert(after[i + 1] == before[i + 1]);
            } else {
                assert(before.last() == '-');
            }
        }
    }
}

proof fn lemma_without_last_hyphens(s: Seq<char>)
    ensures
        without_last_hyphens(s).len() <= s.len(),
        without_last_hyphens(s) == s.take(without_last_hyphens(s).len() as int),
        without_last_hyphens(s).len() > 0 ==> without_last_hyphens(s).last() != '-',
    decreases s.len(),
{
    if s.len() > 0 && s.last() == '-' {
        lemma_without_last_hyphens(s.drop_last());
        let r = without_last_hyphens(s.drop_last());
        assert(s.drop_last().take(r.len() as int) =~= s.take(r.len() as int));
    } else {
        assert(s.take(s.len() as int) =~= s);
    }
}

/// No hyphen stands beside another.
pub open spec fn single_hyphens(s: Seq<char>) -> bool {
    forall|i: int| 0 <= i < s.len() - 1 && s[i] == '-' ==> #[trigger] s[i + 1] != '-'
}

/// Slugs are portable, bounded and never empty: lower-case letters, digits and
/// single hyphens between them.
pub proof fn slugs_are_portable(value: Seq<char>, max_len: nat)
    ensures
        output_slug(value, max_len).len() > 0,
        output_slug(value, max_len).len() <= max_len || output_slug(value, max_len) == "model"@,
        forall|i: int|
            0 <= i < output_slug(value, max_len).len() ==> is_slug_char(
                #[trigger] output_slug(value, max_len)[i],
            ),
        output_slug(value, max_len)[0] != '-',
        output_slug(value, max_len).last() != '-',
        single_hyphens(output_slug(value, max_len)),
{
    reveal_strlit("model");
    let whole = slug_of(value, max_len);
    let slug = without_last_hyphens(whole);
    lemma_slug_of(value, max_len);
    lemma_without_last_hyphens(whole);
    assert forall|i: int| 0 <= i < slug.len() implies is_slug_char(#[trigger] slug[i]) by {
        assert(slug[i] == whole[i]);
    }
    if slug.len() > 0 {
        assert(slug[0] == whole[0]);
    }
    assert forall|i: int| 0 <= i < slug.len() - 1 && slug[i] == '-' implies #[trigger] slug[i + 1]
        != '-' by {
        assert(slug[i] == whole[i]);
        assert(slug[i + 1] == whole[i + 1]);
    }
}

proof fn lemma_slugs_stay(slug: Seq<char>, max_len: nat, n: int)
    requires
        0 <= n <= slug.len() <= max_len,
        forall|i: int| 0 <= i < slug.len() ==> is_slug_char(#[trigger] slug[i]),
        slug.len() > 0 ==> slug[0] != '-',
        single_hyphens(slug),
    ensures
        slug_of(slug.take(n), max_len) == slug.take(n),
    decreases n,
{
    if n == 0 {
        assert(slug.take(0) =~= Seq::empty());
    } else {
        let before = slug.take(n - 1);
        let c = slug[n - 1];
        lemma_slugs_stay(slug, max_len, n - 1);
        assert(slug.take(n).drop_last() =~= before);
        assert(slug.take(n) =~= before.push(c));
        assert(is_slug_char(c));
        if c == '-' {
            assert(n >= 2);
            assert(before.last() == slug[n - 2]);
            if slug[n - 2] == '-' {
                assert(slug[n - 2 + 1] != '-');
            }
        } else {
            assert(is_ascii_alnum(c));
            assert(lower(c) == c);
        }
    }
}

/// A slug is its own slug. The name that stands in for an empty slug is left out
/// where it is longer than a slug may be.
pub proof fn slugs_are_their_own_slugs(value: Seq<char>, max_len: nat)
    requires
        output_slug(value, max_len).len() <= max_len || max_len == 0,
    ensures
        output_slug(output_slug(value, max_len), max_len) == output_slug(value, max_len),
{
    let slug = output_slug(value, max_len);
    slugs_are_portable(value, max_len);
    if max_len == 0 {
        lemma_slug_of(value, 0);
        lemma_slug_of(slug, 0);
        lemma_without_last_hyphens(slug_of(value, 0));
        lemma_without_last_hyphens(slug_of(slug, 0));
    } else {
        lemma_slugs_stay(slug, max_len, slug.len() as int);
        assert(slug.take(slug.len() as int) =~= slug);
    }
}

pub open spec fn all_alnum(s: Seq<char>) -> bool {
    forall|i: int| 0 <= i < s.len() ==> is_ascii_alnum(#[trigger] s[i])
}

pub open spec fn mime_extension(mime_type: Seq<char>) -> Seq<char> {
    if mime_type == "image/png"@ {
        "png"@
    } else if mime_type == "image/jpeg"@ {
        "jpg"@
    } else if mime_type == "image/webp"@ {
        "webp"@
    } else if mime_type == "video/mp4"@ {
        "mp4"@
    } else if mime_type == "video/webm"@ {
        "webm"@
    } else if mime_type == "video/quicktime"@ {
        "mov"@
    } else if mime_type == "audio/wav"@ {
        "wav"@
    } else if mime_type == "audio/flac"@ {
        "flac"@
    } else if mime_type == "audio/mpeg"@ {
        "mp3"@
    } else if mime_type == "audio/ogg"@ {
        "ogg"@
    } else if mime_type == "application/json"@ {
        "json"@
    } else if mime_type == "text/plain"@ {
        "txt"@
    } else {
        "bin"@
    }
}

/// The extension of an output: that of its source where it is a short word, or
/// else the one of its kind.
pub open spec fn output_extension(source: Seq<char>, mime_type: Seq<char>) -> Seq<char> {
    match extension(source) {
        Some(ext) => if 0 < ext.len() <= 16 && all_alnum(ext) {
            lowered(ext)
        } else {
            mime_extension(mime_type)
        },
        None => mime_extension(mime_type),
    }
}

fn is_short_word(s: &str) -> (r: bool)
    ensures
        r == (0 < s@.len() <= 16 && all_alnum(s@)),
{
    let chars = chars_of(s);
    if chars.len() == 0 || chars.len() > 16 {
        return false;
    }
    let mut i: usize = 0;
    while i < chars.len()
        invariant
            i <= chars@.len(),
            chars@ == s@,
            forall|j: int| 0 <= j < i ==> is_ascii_alnum(#[trigger] s@[j]),
        decreases chars@.len() - i,
    {
        if !char_is_ascii_alnum(chars[i]) {
            assert(!is_ascii_alnum(s@[i as int]));
            return false;
        }
        i = i + 1;
    }
    true
}

fn extension_of_mime(mime_type: &str) -> (r: &'static str)
    ensures
        r@ == mime_extension(mime_type@),
{
    if str_eq(mime_type, "image/png") {
        "png"
    } else if str_eq(mime_type, "image/jpeg") {
        "jpg"
    } else if str_eq(mime_type, "image/webp") {
        "webp"
    } else if str_eq(mime_type, "video/mp4") {
        "mp4"
    } else if str_eq(mime_type, "video/webm") {
        "webm"
    } else if str_eq(mime_type, "video/quicktime") {
        "mov"
    } else if str_eq(mime_type, "audio/wav") {
        "wav"
    } else if str_eq(mime_type, "audio/flac") {
        "flac"
    } else if str_eq(mime_type, "audio/mpeg") {
        "mp3"
    } else if str_eq(mime_type, "audio/ogg") {
        "ogg"
    } else if str_eq(mime_type, "application/json") {
        "json"
    } else if str_eq(mime_type, "text/plain") {
        "txt"
    } else {
        "bin"
    }
}

pub fn cli_output_extension(source: &str, mime_type: &str) -> (r: String)
    ensures
        r@ == output_extension(source@, mime_type@),
{
    if let Some(ext) = path_extension(source) {
        if is_short_word(ext.as_str()) {
            return str_lower(ext.as_str());
        }
    }
    extension_of_mime(mime_type).to_owned()
}

/// A number with at least two digits.
pub open spec fn two_digits(n: nat) -> Seq<char> {
    if n < 10 {
        "0"@ + decimal(n)
    } else {
        decimal(n)
    }
}

/// The file name of an output: the model, the task and the result, and its
/// number where there are several.
pub open spec fn output_name(
    model: Seq<char>,
    task: Seq<char>,
    id: Seq<char>,
    count: nat,
    index: nat,
    extension: Seq<char>,
) -> Seq<char> {
    let short = match without_prefix(id, "out-"@) {
        Some(short) => short,
        None => id,
    };
    let base = output_slug(model, 48) + "-"@ + task + "-"@ + output_slug(short, 48);
    if count > 1 {
        base + "-"@ + two_digits(index + 1) + "."@ + extension
    } else {
        base + "."@ + extension
    }
}

/// One file of a result.
#[derive(Debug)]
pub struct OutputFile {
    pub id: String,
    pub path: String,
    pub mime_type: String,
    pub size_bytes: u64,
    pub width: Option<u32>,
    pub height: Option<u32>,
    /// The length in seconds, written with two decimals.
    pub duration: Option<String>,
    pub seed: Option<u64>,
    /// What the backend says of the file.
    pub metadata: Json,
}

/// What a media request came to.
#[derive(Debug)]
pub struct InferenceResult {
    pub id: String,
    pub task: String,
    pub model: String,
    pub runtime: String,
    pub outputs: Vec<OutputFile>,
    pub warnings: Vec<String>,
}

/// The file name of the output with this index.
pub fn default_cli_output_file_name(result: &InferenceResult, index: usize, source: &str) -> (r:
    String)
    requires
        index < result.outputs@.len(),
    ensures
        r@ == output_name(
            result.model@,
            result.task@,
            result.id@,
            result.outputs@.len(),
            index as nat,
            output_extension(source@, result.outputs@[index as int].mime_type@),
        ),
{
    let model = cli_output_slug(result.model.as_str(), 48);
    let identifier = match str_strip_prefix(result.id.as_str(), "out-") {
        Some(short) => cli_output_slug(short.as_str(), 48),
        None => cli_output_slug(result.id.as_str(), 48),
    };
    let extension = cli_output_extension(source, result.outputs[index].mime_type.as_str());
    let mut name = join5(
        model.as_str(),
        "-",
        result.task.as_str(),
        "-",
        identifier.as_str(),
    );
    let count: usize = result.outputs.len();
    if count > 1 {
        name.push_str("-");
        let number: usize = index + 1;
        let digits = usize_text(number);
        if number < 10 {
            let padded = join2("0", digits.as_str());
            name.push_str(padded.as_str());
        } else {
            name.push_str(digits.as_str());
        }
    }
    name.push_str(".");
    name.push_str(extension.as_str());
    name
}

proof fn lemma_digits_of_decimal(n: nat)
    ensures
        digits_value(decimal(n)) == Some(n),
        decimal(n).len() > 0,
        forall|i: int| 0 <= i < decimal(n).len() ==> is_digit(#[trigger] decimal(n)[i]),
    decreases n,
{
    let s = decimal(n);
    if n < 10 {
        assert(s.drop_last() =~= Seq::empty());
        assert(digits_value(s.drop_last()) == Some(0nat));
    } else {
        lemma_digits_of_decimal(n / 10);
        assert(s.drop_last() =~= decimal(n / 10));
        assert forall|i: int| 0 <= i < s.len() implies is_digit(#[trigger] s[i]) by {
            if i < s.len() - 1 {
                assert(s[i] == decimal(n / 10)[i]);
            }
        }
    }
}

proof fn lemma_two_digits(n: nat)
    ensures
        digits_value(two_digits(n)) == Some(n),
        forall|i: int| 0 <= i < two_digits(n).len() ==> is_digit(#[trigger] two_digits(n)[i]),
{
    lemma_digits_of_decimal(n);
    reveal_strlit("0");
    if n < 10 {
        let s = two_digits(n);
        assert(s =~= seq!['0', digit_of(n)]);
        assert(s.drop_last() =~= seq!['0']);
        assert(s.drop_last().drop_last() =~= Seq::empty());
        assert(digits_value(s.drop_last().drop_last()) == Some(0nat));
        assert(digits_value(s.drop_last()) == Some(0nat));
        assert(decimal(n).drop_last() =~= Seq::empty());
        assert(s.last() == decimal(n).last());
    }
}

spec fn digit_of(n: nat) -> char {
    crate::text::digit_char(n as int)
}

/// The outputs of one result have different file names.
pub proof fn output_names_are_unique(
    model: Seq<char>,
    task: Seq<char>,
    id: Seq<char>,
    count: nat,
    i: nat,
    j: nat,
    first: Seq<char>,
    second: Seq<char>,
)
    requires
        i < count,
        j < count,
        i != j,
    ensures
        output_name(model, task, id, count, i, first) != output_name(
            model,
            task,
            id,
            count,
            j,
            second,
        ),
{
    let short = match without_prefix(id, "out-"@) {
        Some(short) => short,
        None => id,
    };
    let base = output_slug(model, 48) + "-"@ + task + "-"@ + output_slug(short, 48) + "-"@;
    let a = two_digits(i + 1);
    let b = two_digits(j + 1);
    lemma_two_digits(i + 1);
    lemma_two_digits(j + 1);
    reveal_strlit(".");
    let x = base + a + "."@ + first;
    let y = base + b + "."@ + second;
    if x == y {
        let n = base.len() as int;
        assert(x[n + a.len()] == '.');
        assert(y[n + b.len()] == '.');
        if a.len() < b.len() {
            assert(y[n + a.len()] == b[a.len() as int]);
        } else if b.len() < a.len() {
            assert(x[n + b.len()] == a[b.len() as int]);
        }
        assert(a.len() == b.len());
        assert forall|k: int| 0 <= k < a.len() implies a[k] == b[k] by {
            assert(x[n + k] == a[k]);
            assert(y[n + k] == b[k]);
        }
        assert(a =~= b);
    }
}

// ---------------------------------------------------------------------------
// What may be written
// ---------------------------------------------------------------------------

/// What stands at a path.
#[derive(Clone, Copy, Debug, PartialEq, Eq, Structural)]
pub enum SourceKind {
    Missing,
    RegularFile,
    /// A directory, a link, or anything else.
    Other,
}

/// A file that is to be moved, and what is known of both ends.
#[derive(Debug)]
pub struct MoveTarget {
    pub source: String,
    pub target: String,
    pub source_kind: SourceKind,
    pub target_exists: bool,
}

pub open spec fn target_of(targets: Seq<MoveTarget>, i: int) -> Seq<char> {
    targets[i].target@
}

/// What is wrong with the move at this index.
pub open spec fn move_error(targets: Seq<MoveTarget>, i: int) -> Option<Seq<char>> {
    let t = targets[i];
    if t.source_kind is Missing {
        Some("managed output does not exist: "@ + t.source@)
    } else if t.source_kind is Other {
        Some("managed output is not a regular file: "@ + t.source@)
    } else if exists|j: int| 0 <= j < i && #[trigger] target_of(targets, j) == t.target@ {
        Some("multiple outputs resolve to the same destination "@ + t.target@)
    } else if t.target_exists {
        Some(
            "refusing to overwrite existing default output "@ + t.target@
                + "; remove it or use --output"@,
        )
    } else {
        None
    }
}

pub open spec fn first_move_error(targets: Seq<MoveTarget>, i: int) -> Option<Seq<char>>
    decreases targets.len() - i,
{
    if i < 0 || i >= targets.len() {
        None
    } else if move_error(targets, i) is Some {
        move_error(targets, i)
    } else {
        first_move_error(targets, i + 1)
    }
}

fn target_repeats(targets: &Vec<MoveTarget>, i: usize) -> (r: bool)
    requires
        i < targets@.len(),
    ensures
        r == exists|j: int|
            0 <= j < i && #[trigger] target_of(targets@, j) == targets@[i as int].target@,
{
    let mut j: usize = 0;
    while j < i
        invariant
            j <= i < targets@.len(),
            forall|k: int|
                0 <= k < j ==> #[trigger] target_of(targets@, k) != targets@[i as int].target@,
        decreases i - j,
    {
        if str_eq(targets[j].target.as_str(), targets[i].target.as_str()) {
            assert(target_of(targets@, j as int) == targets@[i as int].target@);
            return true;
        }
        j = j + 1;
    }
    false
}

/// Whether all files can be moved: there are some, each is there, no two go to
/// one place, and nothing is in the way.
pub fn check_moves(targets: &Vec<MoveTarget>) -> (r: Result<(), String>)
    ensures
        match r {
            Ok(_) => targets@.len() > 0 && first_move_error(targets@, 0) is None,
            Err(message) => if targets@.len() == 0 {
                message@ == "inference completed without producing an output file"@
            } else {
                first_move_error(targets@, 0) == Some(message@)
            },
        },
{
    if targets.len() == 0 {
        return Err("inference completed without producing an output file".to_owned());
    }
    let mut i: usize = 0;
    while i < targets.len()
        invariant
            i <= targets@.len(),
            targets@.len() > 0,
            first_move_error(targets@, 0) == first_move_error(targets@, i as int),
        decreases targets@.len() - i,
    {
        let t = &targets[i];
        if t.source_kind == SourceKind::Missing {
            return Err(join2("managed output does not exist: ", t.source.as_str()));
        }
        if t.source_kind == SourceKind::Other {
            return Err(join2("managed output is not a regular file: ", t.source.as_str()));
        }
        if target_repeats(targets, i) {
            return Err(
                join2("multiple outputs resolve to the same destination ", t.target.as_str()),
            );
        }
        if t.target_exists {
            return Err(
                join3(
                    "refusing to overwrite existing default output ",
                    t.target.as_str(),
                    "; remove it or use --output",
                ),
            );
        }
        i = i + 1;
    }
    Ok(())
}

proof fn lemma_no_move_error(targets: Seq<MoveTarget>, from: int)
    requires
        0 <= from <= targets.len(),
        first_move_error(targets, from) is None,
    ensures
        forall|i: int| from <= i < targets.len() ==> #[trigger] move_error(targets, i) is None,
    decreases targets.len() - from,
{
    if from < targets.len() {
        lemma_no_move_error(targets, from + 1);
    }
}

/// A move that is allowed overwrites nothing, and no two files go to one place.
pub proof fn allowed_moves_overwrite_nothing(targets: Seq<MoveTarget>, i: int, j: int)
    requires
        first_move_error(targets, 0) is None,
        0 <= i < targets.len(),
        0 <= j < targets.len(),
    ensures
        !targets[i].target_exists,
        targets[i].source_kind is RegularFile,
        i != j ==> targets[i].target@ != targets[j].target@,
{
    lemma_no_move_error(targets, 0);
    assert(move_error(targets, i) is None);
    assert(move_error(targets, j) is None);
    assert(target_of(targets, i) == targets[i].target@);
    assert(target_of(targets, j) == targets[j].target@);
}

pub open spec fn pair_views(pairs: Seq<(String, String)>) -> Seq<(Seq<char>, Seq<char>)> {
    pairs.map_values(|p: (String, String)| (p.0@, p.1@))
}

/// The moves that undo the first `done`, in the order in which they are made.
pub open spec fn undo_moves(targets: Seq<MoveTarget>, done: int) -> Seq<(Seq<char>, Seq<char>)>
    decreases done,
{
    if done <= 0 {
        Seq::empty()
    } else {
        seq![(targets[done - 1].target@, targets[done - 1].source@)] + undo_moves(
            targets,
            done - 1,
        )
    }
}

/// What has to be moved back, from where to where, after the move with this
/// index failed: all before it, the last one first.
pub fn rollback_moves(targets: &Vec<MoveTarget>, failed: usize) -> (r: Vec<(String, String)>)
    requires
        failed <= targets@.len(),
    ensures
        pair_views(r@) == undo_moves(targets@, failed as int),
{
    let mut r: Vec<(String, String)> = Vec::new();
    let mut left: usize = failed;
    while left > 0
        invariant
            left <= failed <= targets@.len(),
            undo_moves(targets@, failed as int) == pair_views(r@) + undo_moves(
                targets@,
                left as int,
            ),
        decreases left,
    {
        let t = &targets[left - 1];
        let ghost before = r@;
        r.push((t.target.clone(), t.source.clone()));
        left = left - 1;
        proof {
            assert(pair_views(r@) =~= pair_views(before).push((t.target@, t.source@)));
            assert(pair_views(before) + (seq![(t.target@, t.source@)] + undo_moves(
                targets@,
                left as int,
            )) =~= pair_views(r@) + undo_moves(targets@, left as int));
        }
    }
    assert(pair_views(r@) + undo_moves(targets@, 0) =~= pair_views(r@));
    r
}

/// Where each file is, by path. A move takes a file from one path to another.
pub open spec fn moved<F>(files: Map<Seq<char>, F>, from: Seq<char>, to: Seq<char>) -> Map<
    Seq<char>,
    F,
> {
    files.remove(from).insert(to, files[from])
}

pub open spec fn all_moved<F>(files: Map<Seq<char>, F>, moves: Seq<(Seq<char>, Seq<char>)>) -> Map<
    Seq<char>,
    F,
>
    decreases moves.len(),
{
    if moves.len() == 0 {
        files
    } else {
        all_moved(moved(files, moves[0].0, moves[0].1), moves.drop_first())
    }
}

/// The first `done` moves.
pub open spec fn made_moves<F>(files: Map<Seq<char>, F>, targets: Seq<MoveTarget>, done: int) -> Map<
    Seq<char>,
    F,
>
    decreases done,
{
    if done <= 0 {
        files
    } else {
        moved(
            made_moves(files, targets, done - 1),
            targets[done - 1].source@,
            targets[done - 1].target@,
        )
    }
}

/// The sources are files that are there and differ, the targets are free and
/// differ.
pub open spec fn can_move<F>(files: Map<Seq<char>, F>, targets: Seq<MoveTarget>) -> bool {
    &&& forall|i: int|
        0 <= i < targets.len() ==> files.dom().contains((#[trigger] targets[i]).source@)
            && !files.dom().contains(targets[i].target@)
    &&& forall|i: int, j: int|
        0 <= i < j < targets.len() ==> (#[trigger] targets[i]).source@ != (
        #[trigger] targets[j]).source@ && targets[i].target@ != targets[j].target@
}

proof fn lemma_made_moves<F>(files: Map<Seq<char>, F>, targets: Seq<MoveTarget>, done: int)
    requires
        can_move(files, targets),
        0 <= done <= targets.len(),
    ensures
        forall|i: int|
            done <= i < targets.len() ==> made_moves(files, targets, done).dom().contains(
                (#[trigger] targets[i]).source@,
            ) && !made_moves(files, targets, done).dom().contains(targets[i].target@),
    decreases done,
{
    if done > 0 {
        lemma_made_moves(files, targets, done - 1);
        let before = made_moves(files, targets, done - 1);
        let t = targets[done - 1];
        assert forall|i: int| done <= i < targets.len() implies made_moves(
            files,
            targets,
            done,
        ).dom().contains((#[trigger] targets[i]).source@) && !made_moves(
            files,
            targets,
            done,
        ).dom().contains(targets[i].target@) by {
            assert(t.source@ != targets[i].source@ && t.target@ != targets[i].target@);
        }
    }
}

/// Moving back what was moved before a failure puts every file where it was.
pub proof fn rollback_restores<F>(files: Map<Seq<char>, F>, targets: Seq<MoveTarget>, done: int)
    requires
        can_move(files, targets),
        0 <= done <= targets.len(),
    ensures
        all_moved(made_moves(files, targets, done), undo_moves(targets, done)) == files,
    decreases done,
{
    if done > 0 {
        let before = made_moves(files, targets, done - 1);
        let t = targets[done - 1];
        lemma_made_moves(files, targets, done - 1);
        assert(before.dom().contains(t.source@) && !before.dom().contains(t.target@));
        let after = made_moves(files, targets, done);
        assert(moved(after, t.target@, t.source@) =~= before);
        let undo = undo_moves(targets, done);
        assert(undo[0] == (t.target@, t.source@));
        assert(undo.drop_first() =~= undo_moves(targets, done - 1));
        rollback_restores(files, targets, done - 1);
    }
}

/// What is said when a move failed, with what could not be moved back.
pub fn move_failure_message(source: &str, target: &str, unrestored: &Vec<String>) -> (r: String)
    ensures
        r@ == "failed to move managed output "@ + source@ + " to "@ + target@ + "; "@ + if unrestored@.len()
            == 0 {
            "previous outputs were restored to the managed result"@
        } else {
            "rollback also failed: "@ + joined(views(unrestored@), "; "@)
        },
{
    let mut r = join5("failed to move managed output ", source, " to ", target, "; ");
    if unrestored.len() == 0 {
        r.push_str("previous outputs were restored to the managed result");
    } else {
        let list = join_strings(unrestored, "; ");
        let text = join2("rollback also failed: ", list.as_str());
        r.push_str(text.as_str());
    }
    r
}

// ---------------------------------------------------------------------------
// Publishing to a place of the user's choice
// ---------------------------------------------------------------------------

/// What stands at the destination.
#[derive(Clone, Copy, Debug, PartialEq, Eq, Structural)]
pub struct DestinationFacts {
    pub exists: bool,
    pub is_directory: bool,
}

/// A file that is to be published, and what is known of it. Whether its target
/// exists is asked of the path that `publish_target` gives.
#[derive(Debug)]
pub struct PublishSource {
    pub path: String,
    pub is_file: bool,
    pub target_exists: bool,
}

/// Several files go into a directory, as does one to a directory or to a new
/// name without an extension.
pub open spec fn to_directory(count: nat, destination: Seq<char>, facts: DestinationFacts) -> bool {
    facts.is_directory || count > 1 || (!facts.exists && extension(destination) is None)
}

pub fn destination_is_directory(count: usize, destination: &str, facts: DestinationFacts) -> (r:
    bool)
    ensures
        r == to_directory(count as nat, destination@, facts),
{
    facts.is_directory || count > 1 || (!facts.exists && path_extension(destination).is_none())
}

/// Where a file goes: into the directory under its own name, or to the
/// destination itself. A path without a file name goes nowhere.
pub open spec fn target_path(source: Seq<char>, destination: Seq<char>, in_directory: bool) -> Option<
    Seq<char>,
> {
    if in_directory {
        match file_name(source) {
            Some(name) => Some(child(destination, name)),
            None => None,
        }
    } else {
        Some(destination)
    }
}

pub fn publish_target(source: &str, destination: &str, in_directory: bool) -> (r: Option<String>)
    ensures
        opt_view(r) == target_path(source@, destination@, in_directory),
{
    if in_directory {
        match path_file_name(source) {
            Some(name) => Some(path_child(destination, name.as_str())),
            None => None,
        }
    } else {
        Some(destination.to_owned())
    }
}

/// What is wrong with publishing the file at this index.
pub open spec fn publish_error(
    sources: Seq<PublishSource>,
    destination: Seq<char>,
    in_directory: bool,
    i: int,
) -> Option<Seq<char>> {
    let s = sources[i];
    match target_path(s.path@, destination, in_directory) {
        None => Some("output has no filename: "@ + s.path@),
        Some(target) => if !s.is_file {
            Some("managed output does not exist: "@ + s.path@)
        } else if exists|j: int|
            0 <= j < i && target_path(
                (#[trigger] sources[j]).path@,
                destination,
                in_directory,
            ) == Some(target) {
            Some("multiple outputs resolve to the same destination "@ + target)
        } else if s.target_exists {
            Some(
                "refusing to overwrite existing output "@ + target
                    + "; choose another --output path"@,
            )
        } else {
            None
        },
    }
}

pub open spec fn first_publish_error(
    sources: Seq<PublishSource>,
    destination: Seq<char>,
    in_directory: bool,
    i: int,
) -> Option<Seq<char>>
    decreases sources.len() - i,
{
    if i < 0 || i >= sources.len() {
        None
    } else if publish_error(sources, destination, in_directory, i) is Some {
        publish_error(sources, destination, in_directory, i)
    } else {
        first_publish_error(sources, destination, in_directory, i + 1)
    }
}

/// The copies that publish the files.
pub open spec fn publish_copies(
    sources: Seq<PublishSource>,
    destination: Seq<char>,
    in_directory: bool,
) -> Seq<(Seq<char>, Seq<char>)> {
    sources.map_values(
        |s: PublishSource| (s.path@, target_path(s.path@, destination, in_directory)->0),
    )
}

pub open spec fn publish_plan(
    sources: Seq<PublishSource>,
    destination: Seq<char>,
    facts: DestinationFacts,
) -> Result<Seq<(Seq<char>, Seq<char>)>, Seq<char>> {
    let in_directory = to_directory(sources.len(), destination, facts);
    if sources.len() == 0 {
        Err("inference completed without outputs to publish"@)
    } else if sources.len() > 1 && facts.exists && !facts.is_directory {
        Err(
            "multiple outputs require a destination directory, but "@ + destination
                + " is a file"@,
        )
    } else {
        match first_publish_error(sources, destination, in_directory, 0) {
            Some(message) => Err(message),
            None => Ok(publish_copies(sources, destination, in_directory)),
        }
    }
}

fn published_before(
    targets: &Vec<(String, String)>,
    target: &str,
    Ghost(sources): Ghost<Seq<PublishSource>>,
    Ghost(destination): Ghost<Seq<char>>,
    Ghost(in_directory): Ghost<bool>,
) -> (r: bool)
    requires
        targets@.len() <= sources.len(),
        forall|j: int|
            0 <= j < targets@.len() ==> target_path(
                (#[trigger] sources[j]).path@,
                destination,
                in_directory,
            ) == Some(targets@[j].1@),
    ensures
        r == exists|j: int|
            0 <= j < targets@.len() && target_path(
                (#[trigger] sources[j]).path@,
                destination,
                in_directory,
            ) == Some(target@),
{
    let mut j: usize = 0;
    while j < targets.len()
        invariant
            j <= targets@.len() <= sources.len(),
            forall|k: int|
                0 <= k < targets@.len() ==> target_path(
                    (#[trigger] sources[k]).path@,
                    destination,
                    in_directory,
                ) == Some(targets@[k].1@),
            forall|k: int|
                0 <= k < j ==> target_path(
                    (#[trigger] sources[k]).path@,
                    destination,
                    in_directory,
                ) != Some(target@),
        decreases targets@.len() - j,
    {
        assert(target_path(sources[j as int].path@, destination, in_directory) == Some(
            targets@[j as int].1@,
        ));
        if str_eq(targets[j].1.as_str(), target) {
            return true;
        }
        j = j + 1;
    }
    false
}

/// What has to be copied where, or why nothing is.
pub fn publish_cli_outputs(
    sources: &Vec<PublishSource>,
    destination: &str,
    facts: DestinationFacts,
) -> (r: Result<Vec<(String, String)>, String>)
    ensures
        match r {
            Ok(copies) => publish_plan(sources@, destination@, facts) == Ok::<
                Seq<(Seq<char>, Seq<char>)>,
                Seq<char>,
            >(pair_views(copies@)),
            Err(message) => publish_plan(sources@, destination@, facts) == Err::<
                Seq<(Seq<char>, Seq<char>)>,
                Seq<char>,
            >(message@),
        },
{
    if sources.len() == 0 {
        return Err("inference completed without outputs to publish".to_owned());
    }
    let in_directory = destination_is_directory(sources.len(), destination, facts);
    if sources.len() > 1 && facts.exists && !facts.is_directory {
        return Err(
            join3(
                "multiple outputs require a destination directory, but ",
                destination,
                " is a file",
            ),
        );
    }
    let mut copies: Vec<(String, String)> = Vec::new();
    let mut i: usize = 0;
    while i < sources.len()
        invariant
            i <= sources@.len(),
            sources@.len() > 0,
            in_directory == to_directory(sources@.len(), destination@, facts),
            !(sources@.len() > 1 && facts.exists && !facts.is_directory),
            copies@.len() == i,
            forall|j: int|
                0 <= j < i ==> target_path(
                    (#[trigger] sources@[j]).path@,
                    destination@,
                    in_directory,
                ) == Some(copies@[j].1@) && copies@[j].0@ == sources@[j].path@,
            first_publish_error(sources@, destination@, in_directory, 0) == first_publish_error(
                sources@,
                destination@,
                in_directory,
                i as int,
            ),
        decreases sources@.len() - i,
    {
        let s = &sources[i];
        let target = match publish_target(s.path.as_str(), destination, in_directory) {
            Some(target) => target,
            None => {
                return Err(join2("output has no filename: ", s.path.as_str()));
            },
        };
        if !s.is_file {
            return Err(join2("managed output does not exist: ", s.path.as_str()));
        }
        if published_before(
            &copies,
            target.as_str(),
            Ghost(sources@),
            Ghost(destination@),
            Ghost(in_directory),
        ) {
            return Err(
                join2("multiple outputs resolve to the same destination ", target.as_str()),
            );
        }
        if s.target_exists {
            return Err(
                join3(
                    "refusing to overwrite existing output ",
                    target.as_str(),
                    "; choose another --output path",
                ),
            );
        }
        copies.push((s.path.clone(), target));
        i = i + 1;
    }
    assert(pair_views(copies@) =~= publish_copies(sources@, destination@, in_directory));
    Ok(copies)
}

/// The directory that has to be there before a file is copied.
pub fn publish_directory(destination: &str, in_directory: bool) -> (r: Option<String>)
    ensures
        opt_view(r) == if in_directory {
            Some(destination@)
        } else if directory(destination@).len() > 0 {
            Some(directory(destination@))
        } else {
            None
        },
{
    if in_directory {
        return Some(destination.to_owned());
    }
    let parent = path_directory(destination);
    if parent.as_str().unicode_len() > 0 {
        Some(parent)
    } else {
        None
    }
}

proof fn lemma_no_publish_error(
    sources: Seq<PublishSource>,
    destination: Seq<char>,
    in_directory: bool,
    from: int,
)
    requires
        0 <= from <= sources.len(),
        first_publish_error(sources, destination, in_directory, from) is None,
    ensures
        forall|i: int|
            from <= i < sources.len() ==> #[trigger] publish_error(
                sources,
                destination,
                in_directory,
                i,
            ) is None,
    decreases sources.len() - from,
{
    if from < sources.len() {
        lemma_no_publish_error(sources, destination, in_directory, from + 1);
    }
}

/// Publishing overwrites nothing: every target is free, and no two files go to
/// one place.
pub proof fn publishing_overwrites_nothing(
    sources: Seq<PublishSource>,
    destination: Seq<char>,
    facts: DestinationFacts,
    i: int,
    j: int,
)
    requires
        publish_plan(sources, destination, facts) is Ok,
        0 <= i < sources.len(),
        0 <= j < sources.len(),
    ensures
        sources[i].is_file,
        !sources[i].target_exists,
        i != j ==> publish_plan(sources, destination, facts)->Ok_0[i].1 != publish_plan(
            sources,
            destination,
            facts,
        )->Ok_0[j].1,
{
    let in_directory = to_directory(sources.len(), destination, facts);
    lemma_no_publish_error(sources, destination, in_directory, 0);
    assert(publish_error(sources, destination, in_directory, i) is None);
    assert(publish_error(sources, destination, in_directory, j) is None);
}

/// Where copies go.
pub open spec fn targets_of(copies: Seq<(Seq<char>, Seq<char>)>) -> Seq<Seq<char>> {
    Seq::new(copies.len(), |i: int| copies[i].1)
}

/// What has to be removed after the copy with this index failed: what it left of its
/// target, then what was published before it.
pub open spec fn withdrawn(copies: Seq<(Seq<char>, Seq<char>)>, failed: int) -> Seq<Seq<char>> {
    seq![copies[failed].1] + targets_of(copies.take(failed))
}

/// The files that a failed copy and those before it have to give up.
pub fn withdrawn_copies(copies: &Vec<(String, String)>, failed: usize) -> (r: Vec<String>)
    requires
        failed < copies@.len(),
    ensures
        views(r@) == withdrawn(pair_views(copies@), failed as int),
{
    let mut r: Vec<String> = Vec::new();
    r.push(copies[failed].1.as_str().to_owned());
    let ghost all = pair_views(copies@);
    let ghost before = targets_of(all.take(failed as int));
    assert(views(r@) =~= seq![all[failed as int].1] + before.take(0));
    let mut i: usize = 0;
    while i < failed
        invariant
            i <= failed < copies@.len(),
            all == pair_views(copies@),
            before == targets_of(all.take(failed as int)),
            views(r@) == seq![all[failed as int].1] + before.take(i as int),
        decreases failed - i,
    {
        let ghost sofar = r@;
        r.push(copies[i].1.as_str().to_owned());
        proof {
            assert(before[i as int] == copies@[i as int].1@);
            assert(views(r@) =~= views(sofar).push(before[i as int]));
            assert(before.take(i + 1) =~= before.take(i as int).push(before[i as int]));
            assert(views(r@) =~= seq![all[failed as int].1] + before.take(i + 1));
        }
        i = i + 1;
    }
    assert(before.take(i as int) =~= before);
    r
}

/// What is said when a copy failed.
pub fn copy_failure_message(source: &str, target: &str) -> (r: String)
    ensures
        r@ == "failed to copy managed output "@ + source@ + " to "@ + target@,
{
    let mut r = join3("failed to copy managed output ", source, " to ");
    r.push_str(target);
    r
}

/// The files after the first copies. A copy leaves its source as it is.
pub open spec fn made_copies<F>(
    files: Map<Seq<char>, F>,
    copies: Seq<(Seq<char>, Seq<char>)>,
    done: int,
) -> Map<Seq<char>, F>
    decreases done,
{
    if done <= 0 {
        files
    } else {
        let before = made_copies(files, copies, done - 1);
        before.insert(copies[done - 1].1, before[copies[done - 1].0])
    }
}

/// The files after a copy failed, which left nothing at its target, or a part.
pub open spec fn failed_copy<F>(
    files: Map<Seq<char>, F>,
    target: Seq<char>,
    part: Option<F>,
) -> Map<Seq<char>, F> {
    match part {
        Some(part) => files.insert(target, part),
        None => files,
    }
}

pub open spec fn all_removed<F>(files: Map<Seq<char>, F>, paths: Seq<Seq<char>>) -> Map<
    Seq<char>,
    F,
>
    decreases paths.len(),
{
    if paths.len() == 0 {
        files
    } else {
        all_removed(files.remove(paths[0]), paths.drop_first())
    }
}

proof fn lemma_all_removed<F>(files: Map<Seq<char>, F>, paths: Seq<Seq<char>>, path: Seq<char>)
    ensures
        all_removed(files, paths).dom().contains(path) <==> files.dom().contains(path)
            && !paths.contains(path),
        files.dom().contains(path) && !paths.contains(path) ==> all_removed(files, paths)[path]
            == files[path],
    decreases paths.len(),
{
    if paths.len() > 0 {
        let rest = paths.drop_first();
        lemma_all_removed(files.remove(paths[0]), rest, path);
        if paths.contains(path) && path != paths[0] {
            let i = choose|i: int| 0 <= i < paths.len() && paths[i] == path;
            assert(rest[i - 1] == path);
        }
        if rest.contains(path) {
            let i = choose|i: int| 0 <= i < rest.len() && rest[i] == path;
            assert(paths[i + 1] == path);
        }
    }
}

proof fn lemma_made_copies<F>(
    files: Map<Seq<char>, F>,
    copies: Seq<(Seq<char>, Seq<char>)>,
    done: int,
    path: Seq<char>,
)
    requires
        0 <= done <= copies.len(),
    ensures
        made_copies(files, copies, done).dom().contains(path) <==> files.dom().contains(path)
            || targets_of(copies.take(done)).contains(path),
        !targets_of(copies.take(done)).contains(path) && files.dom().contains(path)
            ==> made_copies(files, copies, done)[path] == files[path],
    decreases done,
{
    if done > 0 {
        lemma_made_copies(files, copies, done - 1, path);
        let targets = targets_of(copies.take(done));
        let fewer = targets_of(copies.take(done - 1));
        assert(targets[done - 1] == copies[done - 1].1);
        if fewer.contains(path) {
            let i = choose|i: int| 0 <= i < fewer.len() && fewer[i] == path;
            assert(targets[i] == path);
        }
        if targets.contains(path) && path != copies[done - 1].1 {
            let i = choose|i: int| 0 <= i < targets.len() && targets[i] == path;
            assert(fewer[i] == path);
        }
    }
}

/// A failed publication leaves no new file and changes none: once what was copied is
/// withdrawn, every file is what it was.
pub proof fn failed_publications_leave_nothing<F>(
    files: Map<Seq<char>, F>,
    sources: Seq<PublishSource>,
    destination: Seq<char>,
    facts: DestinationFacts,
    failed: int,
    part: Option<F>,
)
    requires
        publish_plan(sources, destination, facts) is Ok,
        forall|i: int|
            0 <= i < sources.len() ==> (#[trigger] sources[i]).target_exists
                == files.dom().contains(
                publish_plan(sources, destination, facts)->Ok_0[i].1,
            ),
        0 <= failed < sources.len(),
    ensures
        ({
            let copies = publish_plan(sources, destination, facts)->Ok_0;
            all_removed(
                failed_copy(made_copies(files, copies, failed), copies[failed].1, part),
                withdrawn(copies, failed),
            ) == files
        }),
{
    let copies = publish_plan(sources, destination, facts)->Ok_0;
    let target = copies[failed].1;
    let before = targets_of(copies.take(failed));
    let removed = withdrawn(copies, failed);
    let left = failed_copy(made_copies(files, copies, failed), target, part);
    let after = all_removed(left, removed);
    assert forall|path: Seq<char>|
        (after.dom().contains(path) <==> files.dom().contains(path)) && (files.dom().contains(path)
            ==> #[trigger] after[path] == files[path]) by {
        lemma_made_copies(files, copies, failed, path);
        lemma_all_removed(left, removed, path);
        assert(removed[0] == target);
        if before.contains(path) {
            let i = choose|i: int| 0 <= i < before.len() && before[i] == path;
            assert(removed[i + 1] == path);
        }
        if removed.contains(path) {
            let i = choose|i: int| 0 <= i < removed.len() && removed[i] == path;
            let k = if i == 0 {
                failed
            } else {
                i - 1
            };
            assert(copies[k].1 == path);
            publishing_overwrites_nothing(sources, destination, facts, k, k);
            assert(!sources[k].target_exists);
        }
    }
    assert forall|path: Seq<char>| #[trigger] after.dom().contains(path) <==> files.dom().contains(
        path,
    ) by {
        let same = after[path];
    }
    assert(after =~= files);
}

// ---------------------------------------------------------------------------
// Inside and outside the store
// ---------------------------------------------------------------------------

/// A resolved path is a directory or stands below it.
pub open spec fn is_within(path: Seq<char>, root: Seq<char>) -> bool {
    path == root || (root + "/"@).is_prefix_of(path) || ("/"@.is_suffix_of(root)
        && root.is_prefix_of(path))
}

pub fn path_is_within(path: &str, root: &str) -> (r: bool)
    ensures
        r == is_within(path@, root@),
{
    let below = join2(root, "/");
    str_eq(path, root) || str_starts_with(path, below.as_str()) || (crate::text::str_ends_with(
        root,
        "/",
    ) && str_starts_with(path, root))
}

/// The path so many directories up.
pub open spec fn up(path: Seq<char>, n: nat) -> Seq<char>
    decreases n,
{
    if n == 0 {
        path
    } else {
        directory(up(path, (n - 1) as nat))
    }
}

/// A path below a directory, by the names that lead to it, the last one first.
pub open spec fn below(dir: Seq<char>, names: Seq<Seq<char>>) -> Seq<char>
    decreases names.len(),
{
    if names.len() == 0 {
        dir
    } else {
        child(below(dir, names.drop_first()), names[0])
    }
}

/// The search for the nearest directory of a path that exists, so that the path can
/// be resolved though its end does not exist yet.
pub struct AncestorSearch {
    pub path: String,
    pub cursor: String,
    /// The names that were passed, the last one of the path first.
    pub missing: Vec<String>,
}

impl AncestorSearch {
    /// The cursor stands as many directories up as names were passed.
    pub open spec fn wf(&self) -> bool {
        &&& self.cursor@ == up(self.path@, self.missing@.len())
        &&& forall|i: int|
            0 <= i < self.missing@.len() ==> file_name(up(self.path@, i as nat)) == Some(
                (#[trigger] self.missing@[i])@,
            )
    }

    pub fn new(path: &str) -> (r: Self)
        ensures
            r.wf(),
            r.path@ == path@,
            r.cursor@ == path@,
            r.missing@.len() == 0,
    {
        AncestorSearch { path: path.to_owned(), cursor: path.to_owned(), missing: Vec::new() }
    }

    /// Goes on, by whether the cursor exists, and says whether the search is over. A
    /// path without an end that could be left out is refused under the name `shown`.
    /// Every step shortens the cursor.
    pub fn step(&mut self, exists_here: bool, shown: &str) -> (r: Result<bool, String>)
        requires
            old(self).wf(),
        ensures
            final(self).wf(),
            final(self).path@ == old(self).path@,
            if exists_here {
                r is Ok && r->Ok_0 && *final(self) == *old(self)
            } else {
                match file_name(old(self).cursor@) {
                    Some(name) => {
                        &&& r is Ok && !r->Ok_0
                        &&& final(self).cursor@ == directory(old(self).cursor@)
                        &&& final(self).cursor@.len() < old(self).cursor@.len()
                        &&& views(final(self).missing@) == views(old(self).missing@).push(name)
                    },
                    None => r is Err && r->Err_0@ == "cannot resolve output path "@ + shown@
                        && *final(self) == *old(self),
                }
            },
    {
        if exists_here {
            return Ok(true);
        }
        let name = match path_file_name(self.cursor.as_str()) {
            Some(name) => name,
            None => {
                return Err(join2("cannot resolve output path ", shown));
            },
        };
        let ghost before = self.missing@;
        proof {
            directory_is_shorter(self.cursor@);
        }
        let parent = path_directory(self.cursor.as_str());
        self.cursor = parent;
        self.missing.push(name);
        proof {
            assert(views(self.missing@) =~= views(before).push(name@));
            assert forall|i: int| 0 <= i < self.missing@.len() implies file_name(
                up(self.path@, i as nat),
            ) == Some((#[trigger] self.missing@[i])@) by {
                if i < before.len() {
                    assert(self.missing@[i] == before[i]);
                }
            }
        }
        Ok(false)
    }

    /// The whole path, where the cursor was resolved to `canonical`.
    pub fn resolved(&self, canonical: &str) -> (r: String)
        ensures
            r@ == below(canonical@, views(self.missing@)),
    {
        let ghost names = views(self.missing@);
        let mut r = canonical.to_owned();
        let mut left: usize = self.missing.len();
        assert(names.skip(left as int) =~= Seq::empty());
        while left > 0
            invariant
                left <= self.missing@.len(),
                names == views(self.missing@),
                r@ == below(canonical@, names.skip(left as int)),
            decreases left,
        {
            left = left - 1;
            proof {
                assert(names.skip(left as int)[0] == self.missing@[left as int]@);
                assert(names.skip(left as int).drop_first() =~= names.skip(left + 1));
            }
            r = path_child(r.as_str(), self.missing[left].as_str());
        }
        assert(names.skip(0) =~= names);
        r
    }
}

/// All files of a result stand below its directory.
pub fn ensure_managed_cli_sources(id: &str, result_root: &str, sources: &Vec<String>) -> (r: Result<
    (),
    String,
>)
    ensures
        match r {
            Ok(_) => forall|i: int|
                0 <= i < sources@.len() ==> is_within((#[trigger] sources@[i])@, result_root@),
            Err(message) => exists|i: int|
                0 <= i < sources@.len() && !is_within((#[trigger] sources@[i])@, result_root@) && (
                forall|j: int|
                    0 <= j < i ==> is_within((#[trigger] sources@[j])@, result_root@)) && message@
                    == "managed output escaped result '"@ + id@ + "': "@ + sources@[i]@,
        },
{
    let mut i: usize = 0;
    while i < sources.len()
        invariant
            i <= sources@.len(),
            forall|j: int|
                0 <= j < i ==> is_within((#[trigger] sources@[j])@, result_root@),
        decreases sources@.len() - i,
    {
        if !path_is_within(sources[i].as_str(), result_root) {
            let mut message = join3("managed output escaped result '", id, "': ");
            message.push_str(sources[i].as_str());
            assert(!is_within(sources@[i as int]@, result_root@));
            return Err(message);
        }
        i = i + 1;
    }
    Ok(())
}

/// A destination outside the store.
pub fn ensure_cli_publication_path(output_root: &str, destination: &str) -> (r: Result<(), String>)
    ensures
        match r {
            Ok(_) => !is_within(destination@, output_root@),
            Err(message) => is_within(destination@, output_root@) && message@
                == "--output must be outside the managed output store: "@ + output_root@,
        },
{
    if path_is_within(destination, output_root) {
        return Err(
            join2("--output must be outside the managed output store: ", output_root),
        );
    }
    Ok(())
}

// ---------------------------------------------------------------------------
// Telling
// ---------------------------------------------------------------------------

pub open spec fn opt_part(label: Seq<char>, value: Option<Seq<char>>, unit: Seq<char>) -> Seq<char> {
    match value {
        Some(value) => label + value + unit,
        None => Seq::empty(),
    }
}

pub open spec fn opt_number(n: Option<u32>) -> Option<Seq<char>> {
    match n {
        Some(n) => Some(decimal(n as nat)),
        None => None,
    }
}

pub open spec fn output_lines(o: OutputFile, managed: bool) -> Seq<char> {
    let details = "mime="@ + o.mime_type@ + " size="@ + bytes_text(o.size_bytes as nat) + opt_part(
        " width="@,
        opt_number(o.width),
        ""@,
    ) + opt_part(" height="@, opt_number(o.height), ""@) + opt_part(
        " duration="@,
        opt_view(o.duration),
        "s"@,
    );
    "output> "@ + o.path@ + "\n"@ + if managed {
        "  id="@ + o.id@ + " "@ + details + "\n"@
    } else {
        "  "@ + details + "\n"@
    }
}

pub open spec fn outputs_text(outputs: Seq<OutputFile>, managed: bool) -> Seq<char>
    decreases outputs.len(),
{
    if outputs.len() == 0 {
        Seq::empty()
    } else {
        outputs_text(outputs.drop_last(), managed) + output_lines(outputs.last(), managed)
    }
}

pub open spec fn result_text(r: InferenceResult, managed: bool) -> Seq<char> {
    let head = r.task@ + " "@ + r.model@ + " via "@ + r.runtime@;
    (if managed {
        head + " ("@ + r.id@ + ")\n"@
    } else {
        head + "\n"@
    }) + outputs_text(r.outputs@, managed)
}

fn add_part(text: &mut String, label: &str, value: Option<&str>, unit: &str)
    ensures
        final(text)@ == old(text)@ + opt_part(label@, crate::text::opt_str_view(value), unit@),
{
    let ghost before = text@;
    if let Some(value) = value {
        let part = join3(label, value, unit);
        text.push_str(part.as_str());
    } else {
        assert(before + Seq::<char>::empty() =~= before);
    }
}

fn number_text(n: Option<u32>) -> (r: Option<String>)
    ensures
        opt_view(r) == opt_number(n),
{
    match n {
        Some(n) => Some(u64_text(n as u64)),
        None => None,
    }
}

fn describe_output(o: &OutputFile, managed: bool) -> (r: String)
    ensures
        r@ == output_lines(*o, managed),
{
    let size = format_bytes(o.size_bytes);
    let mut details = join2("mime=", o.mime_type.as_str());
    details.push_str(" size=");
    details.push_str(size.as_str());
    let width = number_text(o.width);
    let height = number_text(o.height);
    add_part(&mut details, " width=", crate::text::opt_str(&width), "");
    add_part(&mut details, " height=", crate::text::opt_str(&height), "");
    add_part(&mut details, " duration=", crate::text::opt_str(&o.duration), "s");
    let second = if managed {
        join5("  id=", o.id.as_str(), " ", details.as_str(), "\n")
    } else {
        join3("  ", details.as_str(), "\n")
    };
    let mut r = join3("output> ", o.path.as_str(), "\n");
    r.push_str(second.as_str());
    r
}

/// What is shown of a result: what made it, and each file.
pub fn print_inference_result(result: &InferenceResult, managed: bool) -> (r: String)
    ensures
        r@ == result_text(*result, managed),
{
    let head = join5(
        result.task.as_str(),
        " ",
        result.model.as_str(),
        " via ",
        result.runtime.as_str(),
    );
    let mut r = if managed {
        let mut r = join3(head.as_str(), " (", result.id.as_str());
        r.push_str(")\n");
        r
    } else {
        join2(head.as_str(), "\n")
    };
    let ghost first = r@;
    let mut i: usize = 0;
    assert(result.outputs@.take(0) =~= Seq::empty());
    assert(first + outputs_text(result.outputs@.take(0), managed) =~= first);
    while i < result.outputs.len()
        invariant
            i <= result.outputs@.len(),
            r@ == first + outputs_text(result.outputs@.take(i as int), managed),
        decreases result.outputs@.len() - i,
    {
        let ghost all = result.outputs@;
        assert(all.take(i + 1).drop_last() =~= all.take(i as int));
        let text = describe_output(&result.outputs[i], managed);
        let ghost before = outputs_text(all.take(i as int), managed);
        r.push_str(text.as_str());
        assert(first + before + text@ =~= first + (before + text@));
        i = i + 1;
    }
    assert(result.outputs@.take(i as int) =~= result.outputs@);
    r
}

// ---------------------------------------------------------------------------
// What outputs are called
// ---------------------------------------------------------------------------

/// Letters and digits stay in a name, and what stands between two words becomes one
/// hyphen.
pub proof fn words_are_joined_by_hyphens(a: Seq<char>, c: char, b: Seq<char>, max_len: nat)
    requires
        a.len() > 0,
        b.len() > 0,
        all_alnum(a),
        all_alnum(b),
        !is_ascii_alnum(c),
        a.len() + 1 + b.len() <= max_len,
    ensures
        output_slug(a, max_len) == lowered(a),
        output_slug(a + seq![c] + b, max_len) == lowered(a) + seq!['-'] + lowered(b),
        output_slug(a + seq![c, c] + b, max_len) == lowered(a) + seq!['-'] + lowered(b),
        output_slug(seq![c] + a, max_len) == lowered(a),
        output_slug(a + seq![c], max_len) == lowered(a),
        output_slug(seq![c], max_len) == "model"@,
{
    let none = Seq::<char>::empty();
    lemma_slug_of_alnum(none, a, max_len);
    assert(none + a =~= a);
    assert(none + lowered(a) =~= lowered(a));
    let one = a + seq![c];
    let two = a + seq![c, c];
    assert(one.drop_last() =~= a);
    assert(two.drop_last() =~= one);
    assert(lowered(a).last() == crate::text::lower(a.last()));
    assert(is_ascii_alnum(a[a.len() - 1]));
    assert(lowered(a).last() != '-');
    let dashed = lowered(a) + seq!['-'];
    assert(slug_of(one, max_len) =~= dashed);
    assert(slug_of(two, max_len) =~= dashed);
    lemma_slug_of_alnum(one, b, max_len);
    lemma_slug_of_alnum(two, b, max_len);
    assert(dashed + lowered(b) =~= lowered(a) + seq!['-'] + lowered(b));
    assert(is_ascii_alnum(b[b.len() - 1]));
    assert((dashed + lowered(b)).last() == crate::text::lower(b.last()));
    assert(seq![c].drop_last() =~= none);
    assert(slug_of(seq![c], max_len) =~= none);
    lemma_slug_of_alnum(seq![c], a, max_len);
    assert(dashed.drop_last() =~= lowered(a));
    assert(without_last_hyphens(dashed) == without_last_hyphens(lowered(a)));
}

proof fn lemma_slug_of_alnum(before: Seq<char>, word: Seq<char>, max_len: nat)
    requires
        all_alnum(word),
        slug_of(before, max_len).len() + word.len() <= max_len,
    ensures
        slug_of(before + word, max_len) == slug_of(before, max_len) + lowered(word),
    decreases word.len(),
{
    if word.len() == 0 {
        assert(before + word =~= before);
        assert(slug_of(before, max_len) + lowered(word) =~= slug_of(before, max_len));
    } else {
        let less = word.drop_last();
        assert forall|i: int| 0 <= i < less.len() implies is_ascii_alnum(#[trigger] less[i]) by {
            assert(less[i] == word[i]);
        }
        lemma_slug_of_alnum(before, less, max_len);
        assert((before + word).drop_last() =~= before + less);
        assert((before + word).last() == word.last());
        assert(is_ascii_alnum(word[word.len() - 1]));
        assert((slug_of(before, max_len) + lowered(less)).push(crate::text::lower(word.last()))
            =~= slug_of(before, max_len) + lowered(word));
    }
}

/// A file ends as its source does where that is short and plain, and as its kind does
/// otherwise.
pub proof fn files_end_as_their_kind(source: Seq<char>, mime: Seq<char>)
    ensures
        mime_extension("image/png"@) == "png"@,
        mime_extension("image/jpeg"@) == "jpg"@,
        mime_extension("image/webp"@) == "webp"@,
        mime_extension("video/mp4"@) == "mp4"@,
        mime_extension("video/webm"@) == "webm"@,
        mime_extension("video/quicktime"@) == "mov"@,
        mime_extension("audio/wav"@) == "wav"@,
        mime_extension("audio/flac"@) == "flac"@,
        mime_extension("audio/mpeg"@) == "mp3"@,
        mime_extension("audio/ogg"@) == "ogg"@,
        mime_extension("application/json"@) == "json"@,
        mime_extension("text/plain"@) == "txt"@,
        (extension(source) matches Some(ext) && 0 < ext.len() <= 16 && all_alnum(ext))
            ==> output_extension(source, mime) == lowered(extension(source)->0),
        extension(source) is None ==> output_extension(source, mime) == mime_extension(mime),
        (extension(source) matches Some(ext) && (ext.len() == 0 || ext.len() > 16 || !all_alnum(
            ext,
        ))) ==> output_extension(source, mime) == mime_extension(mime),
        mime != "image/png"@
            && mime != "image/jpeg"@
            && mime != "image/webp"@
            && mime != "video/mp4"@
            && mime != "video/webm"@
            && mime != "video/quicktime"@
            && mime != "audio/wav"@
            && mime != "audio/flac"@
            && mime != "audio/mpeg"@
            && mime != "audio/ogg"@
            && mime != "application/json"@
            && mime != "text/plain"@ ==> mime_extension(mime) == "bin"@,
{
    reveal_strlit("image/png");
    reveal_strlit("image/jpeg");
    reveal_strlit("image/webp");
    reveal_strlit("video/mp4");
    reveal_strlit("video/webm");
    reveal_strlit("video/quicktime");
    reveal_strlit("audio/wav");
    reveal_strlit("audio/flac");
    reveal_strlit("audio/mpeg");
    reveal_strlit("audio/ogg");
    reveal_strlit("application/json");
    reveal_strlit("text/plain");
    assert("image/jpeg"@.len() != "image/png"@.len());
    assert("image/webp"@.len() != "image/png"@.len());
    assert("image/webp"@[6] != "image/jpeg"@[6]);
    assert("video/mp4"@[0] != "image/png"@[0]);
    assert("video/mp4"@.len() != "image/jpeg"@.len());
    assert("video/mp4"@.len() != "image/webp"@.len());
    assert("video/webm"@.len() != "image/png"@.len());
    assert("video/webm"@[0] != "image/jpeg"@[0]);
    assert("video/webm"@[0] != "image/webp"@[0]);
    assert("video/webm"@.len() != "video/mp4"@.len());
    assert("video/quicktime"@.len() != "image/png"@.len());
    assert("video/quicktime"@.len() != "image/jpeg"@.len());
    assert("video/quicktime"@.len() != "image/webp"@.len());
    assert("video/quicktime"@.len() != "video/mp4"@.len());
    assert("video/quicktime"@.len() != "video/webm"@.len());
    assert("audio/wav"@[0] != "image/png"@[0]);
    assert("audio/wav"@.len() != "image/jpeg"@.len());
    assert("audio/wav"@.len() != "image/webp"@.len());
    assert("audio/wav"@[0] != "video/mp4"@[0]);
    assert("audio/wav"@.len() != "video/webm"@.len());
    assert("audio/wav"@.len() != "video/quicktime"@.len());
    assert("audio/flac"@.len() != "image/png"@.len());
    assert("audio/flac"@[0] != "image/jpeg"@[0]);
    assert("audio/flac"@[0] != "image/webp"@[0]);
    assert("audio/flac"@.len() != "video/mp4"@.len());
    assert("audio/flac"@[0] != "video/webm"@[0]);
    assert("audio/flac"@.len() != "video/quicktime"@.len());
    assert("audio/flac"@.len() != "audio/wav"@.len());
    assert("audio/mpeg"@.len() != "image/png"@.len());
    assert("audio/mpeg"@[0] != "image/jpeg"@[0]);
    assert("audio/mpeg"@[0] != "image/webp"@[0]);
    assert("audio/mpeg"@.len() != "video/mp4"@.len());
    assert("audio/mpeg"@[0] != "video/webm"@[0]);
    assert("audio/mpeg"@.len() != "video/quicktime"@.len());
    assert("audio/mpeg"@.len() != "audio/wav"@.len());
    assert("audio/mpeg"@[6] != "audio/flac"@[6]);
    assert("audio/ogg"@[0] != "image/png"@[0]);
    assert("audio/ogg"@.len() != "image/jpeg"@.len());
    assert("audio/ogg"@.len() != "image/webp"@.len());
    assert("audio/ogg"@[0] != "video/mp4"@[0]);
    assert("audio/ogg"@.len() != "video/webm"@.len());
    assert("audio/ogg"@.len() != "video/quicktime"@.len());
    assert("audio/ogg"@[6] != "audio/wav"@[6]);
    assert("audio/ogg"@.len() != "audio/flac"@.len());
    assert("audio/ogg"@.len() != "audio/mpeg"@.len());
    assert("application/json"@.len() != "image/png"@.len());
    assert("application/json"@.len() != "image/jpeg"@.len());
    assert("application/json"@.len() != "image/webp"@.len());
    assert("application/json"@.len() != "video/mp4"@.len());
    assert("application/json"@.len() != "video/webm"@.len());
    assert("application/json"@.len() != "video/quicktime"@.len());
    assert("application/json"@.len() != "audio/wav"@.len());
    assert("application/json"@.len() != "audio/flac"@.len());
    assert("application/json"@.len() != "audio/mpeg"@.len());
    assert("application/json"@.len() != "audio/ogg"@.len());
    assert("text/plain"@.len() != "image/png"@.len());
    assert("text/plain"@[0] != "image/jpeg"@[0]);
    assert("text/plain"@[0] != "image/webp"@[0]);
    assert("text/plain"@.len() != "video/mp4"@.len());
    assert("text/plain"@[0] != "video/webm"@[0]);
    assert("text/plain"@.len() != "video/quicktime"@.len());
    assert("text/plain"@.len() != "audio/wav"@.len());
    assert("text/plain"@[0] != "audio/flac"@[0]);
    assert("text/plain"@[0] != "audio/mpeg"@[0]);
    assert("text/plain"@.len() != "audio/ogg"@.len());
    assert("text/plain"@.len() != "application/json"@.len());
}

/// A file is called by its model, its task and its identifier; only where there are more
/// of them does a number tell them apart, the first of them being one.
pub proof fn files_are_called_by_what_made_them(
    model: Seq<char>,
    task: Seq<char>,
    id: Seq<char>,
    count: nat,
    index: nat,
    other: nat,
    ext: Seq<char>,
)
    ensures
        (output_slug(model, 48) + "-"@ + task + "-"@).is_prefix_of(
            output_name(model, task, id, count, index, ext),
        ),
        ("."@ + ext).is_suffix_of(output_name(model, task, id, count, index, ext)),
        count <= 1 ==> output_name(model, task, id, count, index, ext) == output_name(
            model,
            task,
            id,
            count,
            other,
            ext,
        ),
        count > 1 ==> ("-"@ + two_digits(index + 1) + "."@ + ext).is_suffix_of(
            output_name(model, task, id, count, index, ext),
        ),
        !"out-"@.is_prefix_of(id) ==> output_name(model, task, "out-"@ + id, count, index, ext)
            == output_name(model, task, id, count, index, ext),
        index < 10 ==> two_digits(index) == "0"@ + decimal(index),
        index >= 10 ==> two_digits(index) == decimal(index),
{
    let name = output_name(model, task, id, count, index, ext);
    let head = output_slug(model, 48) + "-"@ + task + "-"@;
    assert(head =~= name.take(head.len() as int));
    let tail = "."@ + ext;
    assert(tail =~= name.skip(name.len() - tail.len()));
    if count > 1 {
        let number = "-"@ + two_digits(index + 1) + "."@ + ext;
        assert(number =~= name.skip(name.len() - number.len()));
    }
    assert("out-"@.is_prefix_of("out-"@ + id));
    assert(("out-"@ + id).skip("out-"@.len() as int) =~= id);
}

/// Files are moved exactly where each is there, each has a place of its own and each
/// place is free.
pub proof fn free_places_are_moved_to(targets: Seq<MoveTarget>)
    requires
        forall|i: int|
            0 <= i < targets.len() ==> (#[trigger] targets[i]).source_kind is RegularFile
                && !targets[i].target_exists,
        forall|i: int, j: int|
            0 <= i < j < targets.len() ==> (#[trigger] targets[i]).target@ != (
            #[trigger] targets[j]).target@,
    ensures
        first_move_error(targets, 0) is None,
{
    lemma_free_places(targets, 0);
}

proof fn lemma_free_places(targets: Seq<MoveTarget>, from: int)
    requires
        0 <= from <= targets.len(),
        forall|i: int|
            0 <= i < targets.len() ==> (#[trigger] targets[i]).source_kind is RegularFile
                && !targets[i].target_exists,
        forall|i: int, j: int|
            0 <= i < j < targets.len() ==> (#[trigger] targets[i]).target@ != (
            #[trigger] targets[j]).target@,
    ensures
        first_move_error(targets, from) is None,
    decreases targets.len() - from,
{
    if from < targets.len() {
        if exists|j: int| 0 <= j < from && #[trigger] target_of(targets, j)
            == targets[from].target@ {
            let j = choose|j: int| 0 <= j < from && #[trigger] target_of(targets, j)
                == targets[from].target@;
            assert(targets[j].target@ == targets[from].target@);
        }
        lemma_free_places(targets, from + 1);
    }
}

/// Outputs are published where they were sent: into a directory under their own names,
/// or one of them under the name that was given.
pub proof fn outputs_go_where_they_are_sent(
    sources: Seq<PublishSource>,
    destination: Seq<char>,
    facts: DestinationFacts,
    i: int,
)
    ensures
        sources.len() == 0 ==> publish_plan(sources, destination, facts) is Err,
        sources.len() > 1 && facts.exists && !facts.is_directory ==> publish_plan(
            sources,
            destination,
            facts,
        ) is Err,
        publish_plan(sources, destination, facts) matches Ok(copies) ==> {
            &&& copies.len() == sources.len()
            &&& 0 <= i < sources.len() ==> copies[i].0 == sources[i].path@
            &&& 0 <= i < sources.len() && (facts.is_directory || sources.len() > 1 || (
            !facts.exists && extension(destination) is None)) ==> file_name(sources[i].path@)
                is Some && copies[i].1 == child(destination, file_name(sources[i].path@)->0)
            &&& sources.len() == 1 && !facts.is_directory && (facts.exists || extension(destination)
                is Some) ==> copies[0].1 == destination
        },
        sources.len() == 1 && !facts.is_directory && extension(destination) is Some
            && sources[0].is_file && !sources[0].target_exists ==> publish_plan(
            sources,
            destination,
            facts,
        ) is Ok,
{
    let in_directory = to_directory(sources.len(), destination, facts);
    if publish_plan(sources, destination, facts) is Ok && 0 <= i < sources.len() {
        lemma_no_publish_error(sources, destination, in_directory, 0);
        assert(publish_error(sources, destination, in_directory, i) is None);
        assert(publish_error(sources, destination, in_directory, 0) is None);
    }
    if sources.len() == 1 {
        reveal_with_fuel(first_publish_error, 2);
    }
}

/// A path lies within a directory where it is that directory or goes on below it; a
/// longer name is another directory.
pub proof fn directories_hold_what_is_below(root: Seq<char>, rest: Seq<char>, c: char)
    requires
        root.len() > 0,
        root.last() != '/',
    ensures
        is_within(root, root),
        is_within(root + "/"@ + rest, root),
        c != '/' ==> !is_within(root + seq![c] + rest, root),
{
    reveal_strlit("/");
    assert((root + "/"@).is_prefix_of(root + "/"@ + rest));
    if "/"@.is_suffix_of(root) {
        assert(root.skip(root.len() - 1)[0] == "/"@[0]);
    }
    if c != '/' {
        let path = root + seq![c] + rest;
        assert(path.len() != root.len());
        if (root + "/"@).is_prefix_of(path) {
            assert(path[root.len() as int] == (root + "/"@)[root.len() as int]);
        }
    }
}

/// Of each output its path is shown, in order; identifiers are shown of those that stay
/// in the store.
pub proof fn outputs_are_shown(outputs: Seq<OutputFile>, o: OutputFile, managed: bool)
    ensures
        outputs_text(Seq::empty(), managed).len() == 0,
        outputs_text(outputs.push(o), managed) == outputs_text(outputs, managed) + output_lines(
            o,
            managed,
        ),
        ("output> "@ + o.path@ + "\n"@).is_prefix_of(output_lines(o, managed)),
        ("output> "@ + o.path@ + "\n"@ + "  id="@ + o.id@ + " "@).is_prefix_of(
            output_lines(o, true),
        ),
        ("output> "@ + o.path@ + "\n"@ + "  mime="@ + o.mime_type@).is_prefix_of(
            output_lines(o, false),
        ),
{
    assert(outputs.push(o).drop_last() =~= outputs);
    let head = "output> "@ + o.path@ + "\n"@;
    assert(head =~= output_lines(o, managed).take(head.len() as int));
    let kept = head + "  id="@ + o.id@ + " "@;
    assert(kept =~= output_lines(o, true).take(kept.len() as int));
    reveal_strlit("  ");
    reveal_strlit("mime=");
    reveal_strlit("  mime=");
    assert("  "@ + "mime="@ =~= "  mime="@);
    let plain = head + "  mime="@ + o.mime_type@;
    assert(plain =~= output_lines(o, false).take(plain.len() as int));
}

} // verus!
