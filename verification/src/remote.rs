//! Models that are only listed on Hugging Face: addresses, listings, the
//! manifest that a listing amounts to, and the estimate made from it.

use vstd::prelude::*;
use vstd::utf8::encode_utf8;

use crate::estimate::{
    accounting_by_index, accounting_by_manifest, estimate_weight_accounting_without_store,
    is_tensor_format, safetensors_index_weight_accounting_from_value, single_accounting,
    single_selected_weight_accounting, total_size, AccountingView, EstimateConfidence,
    WeightAccounting,
};
use crate::estimate_report::{
    estimate_from_accounting, estimate_of, EstimateReport, ReportView, SystemMemory,
};
use crate::json::{
    field, get_opt, items_of, json_document, opt_field, opt_json, parse_json, str_opt, text_of,
    Json, JsonView,
};
use crate::kv_cache::{config_of, model_type_of, parse_estimate_config, read_model_type, ConfigView};
use crate::manifest::{
    file_at, find_file, ModelFile, ModelFormat, ModelManifest, ModelMetadata, ModelSource,
    ModelStorage,
};
use crate::order::{precedes, str_precedes};
use crate::paths::{extension_eq_str, has_extension};
use crate::text::{
    chars_of, decimal, holds, is_blank, join2, join3, join5, lowered, opt_nat, opt_str,
    opt_str_view, opt_view, parse_u16, parse_u64, parsed_unsigned, replaced, split, split_at_last,
    str_contains, str_ends_with, str_eq, str_is_blank, str_lower, str_replace_char, str_rsplit_once,
    str_split, str_strip_prefix, str_trim, string_between, trimmed, u64_text, views, without_prefix,
};

verus! {

/// A file in a listing.
#[derive(Clone, Debug)]
pub struct RemoteHfFile {
    pub path: String,
    pub size: u64,
}

/// A model as Hugging Face lists it.
pub struct RemoteHfModel {
    pub repo: String,
    pub config: Option<Json>,
    pub files: Vec<RemoteHfFile>,
    pub gated: bool,
}

pub open spec fn result_text(r: Result<String, String>) -> Result<Seq<char>, Seq<char>> {
    match r {
        Ok(s) => Ok(s@),
        Err(message) => Err(message@),
    }
}

// ---------------------------------------------------------------------------
// Names and addresses
// ---------------------------------------------------------------------------

pub open spec fn is_valid_repo(repo: Seq<char>) -> bool {
    !is_blank(repo) && repo[0] != '-' && !holds(repo, ".."@)
}

/// Refuses names that cannot be a repository.
pub fn validate_huggingface_repo_for_estimate(repo: &str) -> (r: Result<(), String>)
    ensures
        r is Ok <==> is_valid_repo(repo@),
        r matches Err(message) ==> message@ == "invalid Hugging Face repo id: "@ + repo@,
{
    let blank = str_is_blank(repo);
    let first = crate::text::first_char(repo);
    proof {
        if repo@.len() == 0 {
            assert(crate::text::trimmed(repo@).len() == 0);
        }
    }
    let dashed = match first {
        Some(c) => c == '-',
        None => false,
    };
    if blank || dashed || str_contains(repo, "..") {
        return Err(join2("invalid Hugging Face repo id: ", repo));
    }
    Ok(())
}

pub open spec fn is_plain_byte(b: u8) -> bool {
    (65 <= b <= 90) || (97 <= b <= 122) || (48 <= b <= 57) || b == 45 || b == 95 || b == 46 || b
        == 126 || b == 47
}

pub open spec fn upper_hex(n: int) -> char {
    if n < 10 {
        (n + 48) as char
    } else {
        (n + 55) as char
    }
}

/// A byte of an address: letters, digits and `-_.~/` as they are, all others as
/// `%` and two hexadecimal digits.
pub open spec fn encoded_byte(b: u8) -> Seq<char> {
    if is_plain_byte(b) {
        seq![b as char]
    } else {
        seq!['%', upper_hex(b as int / 16), upper_hex(b as int % 16)]
    }
}

pub open spec fn percent_encoded(bytes: Seq<u8>) -> Seq<char>
    decreases bytes.len(),
{
    if bytes.len() == 0 {
        Seq::empty()
    } else {
        percent_encoded(bytes.drop_last()) + encoded_byte(bytes.last())
    }
}

fn hex_char(n: u8) -> (c: char)
    requires
        n < 16,
    ensures
        c == upper_hex(n as int),
{
    if n < 10 {
        (n + 48u8) as char
    } else {
        (n + 55u8) as char
    }
}

/// Writes a path for use in an address.
pub fn percent_encode_hf_path(path: &str) -> (r: String)
    ensures
        r@ == percent_encoded(encode_utf8(path@)),
{
    let bytes = path.as_bytes();
    let mut r = String::new();
    let mut i: usize = 0;
    while i < bytes.len()
        invariant
            i <= bytes@.len(),
            bytes@ == encode_utf8(path@),
            r@ == percent_encoded(bytes@.take(i as int)),
        decreases bytes@.len() - i,
    {
        let b: u8 = bytes[i];
        let ghost before = r@;
        assert(bytes@.take(i + 1).drop_last() =~= bytes@.take(i as int));
        if (65 <= b && b <= 90) || (97 <= b && b <= 122) || (48 <= b && b <= 57) || b == 45 || b
            == 95 || b == 46 || b == 126 || b == 47 {
            r.push(b as char);
            assert(r@ =~= before + encoded_byte(b));
        } else {
            r.push('%');
            r.push(hex_char(b / 16));
            r.push(hex_char(b % 16));
            assert(r@ =~= before + encoded_byte(b));
        }
        i = i + 1;
    }
    assert(bytes@.take(bytes@.len() as int) =~= bytes@);
    r
}

/// Every character of an encoded path is a letter, a digit or one of `-_.~/%`.
pub proof fn encoded_paths_are_plain(bytes: Seq<u8>, i: int)
    requires
        0 <= i < percent_encoded(bytes).len(),
    ensures
        percent_encoded(bytes)[i] == '%' || is_plain_byte(percent_encoded(bytes)[i] as u8),
    decreases bytes.len(),
{
    let rest = percent_encoded(bytes.drop_last());
    if i < rest.len() {
        encoded_paths_are_plain(bytes.drop_last(), i);
    } else {
        let b = bytes.last();
        let k = i - rest.len();
        assert(percent_encoded(bytes)[i] == encoded_byte(b)[k]);
        assert(0 <= b as int / 16 < 16);
        assert(0 <= b as int % 16 < 16);
    }
}

/// The address of a repository's listing.
pub fn remote_model_url(repo: &str) -> (r: String)
    ensures
        r@ == "https://huggingface.co/api/models/"@ + percent_encoded(encode_utf8(repo@))
            + "?blobs=true"@,
{
    let encoded = percent_encode_hf_path(repo);
    join3("https://huggingface.co/api/models/", encoded.as_str(), "?blobs=true")
}

/// The path without the `./` it starts with, as often as it does.
pub open spec fn without_dot_slash(s: Seq<char>) -> Seq<char>
    decreases s.len(),
{
    if s.len() >= 2 && "./"@.is_prefix_of(s) {
        without_dot_slash(s.skip(2))
    } else {
        s
    }
}

pub open spec fn is_proper_part(part: Seq<char>) -> bool {
    part.len() > 0 && part != "."@ && part != ".."@
}

pub open spec fn all_proper(parts: Seq<Seq<char>>) -> bool {
    forall|i: int| 0 <= i < parts.len() ==> is_proper_part(#[trigger] parts[i])
}

pub open spec fn relative_form(file: Seq<char>) -> Seq<char> {
    let path = without_dot_slash(replaced(trimmed(file), '\\', '/'));
    match without_prefix(path, "files/"@) {
        Some(rest) => rest,
        None => path,
    }
}

/// The path of a file inside a repository; refused where it does not stay
/// inside.
pub open spec fn normalized_path(file: Seq<char>) -> Result<Seq<char>, Seq<char>> {
    let path = relative_form(file);
    if all_proper(split(path, '/')) {
        Ok(path)
    } else {
        Err("Hugging Face file must be a relative path inside the repository"@)
    }
}

fn strip_dot_slash(s: &str) -> (r: String)
    ensures
        r@ == without_dot_slash(s@),
{
    let v = chars_of(s);
    let mut from: usize = 0;
    proof {
        reveal_strlit("./");
    }
    assert(v@.skip(0) =~= v@);
    while v.len() - from >= 2 && v[from] == '.' && v[from + 1] == '/'
        invariant
            from <= v@.len(),
            v@ == s@,
            without_dot_slash(s@) == without_dot_slash(v@.skip(from as int)),
        decreases v@.len() - from,
    {
        proof {
            reveal_strlit("./");
            let t = v@.skip(from as int);
            assert(t.subrange(0, 2) =~= "./"@);
            assert(t.skip(2) =~= v@.skip(from + 2));
        }
        from = from + 2;
    }
    proof {
        reveal_strlit("./");
        let t = v@.skip(from as int);
        if t.len() >= 2 && "./"@.is_prefix_of(t) {
            assert("./"@[0] == t[0] && "./"@[1] == t[1]);
        }
    }
    let r = string_between(&v, from, v.len());
    assert(r@ =~= v@.skip(from as int));
    r
}

fn proper_part(part: &str) -> (r: bool)
    ensures
        r == is_proper_part(part@),
{
    !part.is_empty() && !str_eq(part, ".") && !str_eq(part, "..")
}

/// Brings the path of a file inside a repository into the form in which
/// listings write it.
pub fn normalize_remote_hf_file_path(file: &str) -> (r: Result<String, String>)
    ensures
        result_text(r) == normalized_path(file@),
{
    let slashed = str_replace_char(str_trim(file).as_str(), '\\', '/');
    let mut path = strip_dot_slash(slashed.as_str());
    if let Some(rest) = str_strip_prefix(path.as_str(), "files/") {
        path = rest;
    }
    let parts = str_split(path.as_str(), '/');
    let ghost all = split(path@, '/');
    let mut i: usize = 0;
    while i < parts.len()
        invariant
            i <= parts@.len(),
            all == views(parts@),
            path@ == relative_form(file@),
            all == split(path@, '/'),
            forall|j: int| 0 <= j < i ==> is_proper_part(#[trigger] all[j]),
        decreases parts@.len() - i,
    {
        assert(all[i as int] == parts@[i as int]@);
        if !proper_part(parts[i].as_str()) {
            return Err(
                "Hugging Face file must be a relative path inside the repository".to_owned(),
            );
        }
        i = i + 1;
    }
    Ok(path)
}

/// The address of a file of a repository.
pub fn remote_file_url(repo: &str, path: &str) -> (r: Result<String, String>)
    ensures
        match r {
            Ok(url) => normalized_path(path@) is Ok && url@ == "https://huggingface.co/"@
                + percent_encoded(encode_utf8(repo@)) + "/resolve/main/"@ + percent_encoded(
                encode_utf8(normalized_path(path@)->Ok_0),
            ),
            Err(message) => normalized_path(path@) == Err::<Seq<char>, Seq<char>>(message@),
        },
{
    match normalize_remote_hf_file_path(path) {
        Ok(path) => {
            let encoded_repo = percent_encode_hf_path(repo);
            let p = path.as_str();
            let encoded_path = percent_encode_hf_path(p);
            let mut url = join3(
                "https://huggingface.co/",
                encoded_repo.as_str(),
                "/resolve/main/",
            );
            url.push_str(encoded_path.as_str());
            Ok(url)
        },
        Err(message) => Err(message),
    }
}

/// What a download printed: the body, then the HTTP status on a line of its own.
pub open spec fn response_body(stdout: Seq<char>) -> Result<Seq<char>, Seq<char>> {
    match split_at_last(stdout, '\n') {
        None => Err("Hugging Face response did not include an HTTP status"@),
        Some((body, status_text)) => {
            let status = match parsed_unsigned(trimmed(status_text), u16::MAX as nat) {
                Some(n) => n,
                None => 0,
            };
            if 200 <= status < 300 {
                Ok(body)
            } else if trimmed(body).len() == 0 {
                Err("Hugging Face returned HTTP "@ + decimal(status))
            } else {
                Err("Hugging Face returned HTTP "@ + decimal(status) + ": "@ + trimmed(body))
            }
        },
    }
}

/// Takes the body out of what a download printed, if its status is a success.
pub fn huggingface_response_body(stdout: &str) -> (r: Result<String, String>)
    ensures
        result_text(r) == response_body(stdout@),
{
    match str_rsplit_once(stdout, '\n') {
        None => Err("Hugging Face response did not include an HTTP status".to_owned()),
        Some((body, status_text)) => {
            let status: u16 = match parse_u16(str_trim(status_text.as_str()).as_str()) {
                Some(n) => n,
                None => 0,
            };
            if 200 <= status && status < 300 {
                return Ok(body);
            }
            let detail = str_trim(body.as_str());
            let code = u64_text(status as u64);
            if detail.as_str().is_empty() {
                Err(join2("Hugging Face returned HTTP ", code.as_str()))
            } else {
                let mut message = join3("Hugging Face returned HTTP ", code.as_str(), ": ");
                message.push_str(detail.as_str());
                Err(message)
            }
        },
    }
}

// ---------------------------------------------------------------------------
// Listings
// ---------------------------------------------------------------------------

/// An unsigned number, or a text that spells one.
pub open spec fn lenient_unsigned(v: Option<JsonView>) -> Option<nat> {
    match v {
        Some(JsonView::Number(n)) => opt_nat(n.unsigned),
        Some(JsonView::Text(s)) => parsed_unsigned(s, u64::MAX as nat),
        _ => None,
    }
}

pub fn json_u64(value: Option<&Json>) -> (r: Option<u64>)
    ensures
        opt_nat(r) == lenient_unsigned(opt_json(value)),
{
    match value {
        Some(Json::Number(n)) => n.unsigned,
        Some(Json::Text(s)) => parse_u64(s.as_str()),
        _ => None,
    }
}

pub open spec fn first_some(a: Option<nat>, b: Option<nat>) -> Option<nat> {
    match a {
        Some(n) => Some(n),
        None => b,
    }
}

/// The size that a listing gives for a file, in one of four places.
pub open spec fn listed_size(file: JsonView) -> Option<nat> {
    let lfs = field(file, "lfs"@);
    first_some(
        lenient_unsigned(field(file, "size"@)),
        first_some(
            lenient_unsigned(field(file, "blob_size"@)),
            first_some(
                lenient_unsigned(opt_field(lfs, "size"@)),
                lenient_unsigned(opt_field(lfs, "blob_size"@)),
            ),
        ),
    )
}

pub fn parse_remote_hf_file_size(file: &Json) -> (r: Option<u64>)
    ensures
        opt_nat(r) == listed_size(file@),
{
    if let Some(n) = json_u64(file.get("size")) {
        return Some(n);
    }
    if let Some(n) = json_u64(file.get("blob_size")) {
        return Some(n);
    }
    let lfs = file.get("lfs");
    if let Some(n) = json_u64(get_opt(lfs, "size")) {
        return Some(n);
    }
    json_u64(get_opt(lfs, "blob_size"))
}

/// Access that needs an agreement: `true`, or a text that is no way to say no.
pub open spec fn is_gated(v: Option<JsonView>) -> bool {
    match v {
        Some(JsonView::Bool(b)) => b,
        Some(JsonView::Text(s)) => !(s == ""@ || s == "false"@ || s == "False"@ || s == "none"@),
        _ => false,
    }
}

pub fn value_is_remote_hf_gated(value: Option<&Json>) -> (r: bool)
    ensures
        r == is_gated(opt_json(value)),
{
    match value {
        Some(Json::Bool(b)) => *b,
        Some(Json::Text(s)) => !(str_eq(s.as_str(), "") || str_eq(s.as_str(), "false") || str_eq(
            s.as_str(),
            "False",
        ) || str_eq(s.as_str(), "none")),
        _ => false,
    }
}

pub ghost struct ListedFile {
    pub path: Seq<char>,
    pub size: nat,
}

pub open spec fn listed(file: RemoteHfFile) -> ListedFile {
    ListedFile { path: file.path@, size: file.size as nat }
}

pub open spec fn listed_files(files: Seq<RemoteHfFile>) -> Seq<ListedFile> {
    files.map_values(|f: RemoteHfFile| listed(f))
}

/// What an item of a listing says: its name under `rfilename`, else under
/// `path`, and its size, zero where there is none.
pub open spec fn listed_item(item: JsonView) -> Option<ListedFile> {
    let name = match field(item, "rfilename"@) {
        Some(v) => Some(v),
        None => field(item, "path"@),
    };
    match text_of(name) {
        Some(path) => Some(
            ListedFile {
                path: replaced(path, '\\', '/'),
                size: match listed_size(item) {
                    Some(n) => n,
                    None => 0,
                },
            },
        ),
        None => None,
    }
}

pub open spec fn listed_items(items: Seq<JsonView>) -> Seq<ListedFile>
    decreases items.len(),
{
    if items.len() == 0 {
        Seq::empty()
    } else {
        let rest = listed_items(items.drop_last());
        match listed_item(items.last()) {
            Some(file) => rest.push(file),
            None => rest,
        }
    }
}

/// `file` is the first of `all` with its path.
pub open spec fn is_first_of_path(all: Seq<ListedFile>, file: ListedFile) -> bool {
    exists|i: int|
        0 <= i < all.len() && #[trigger] all[i] == file && forall|j: int|
            0 <= j < i ==> (#[trigger] all[j]).path != file.path
}

/// `files` is `all` in ascending order of the paths, of each path the first.
pub open spec fn is_listing_of(files: Seq<ListedFile>, all: Seq<ListedFile>) -> bool {
    &&& forall|i: int, j: int|
        0 <= i < j < files.len() ==> precedes((#[trigger] files[i]).path, (#[trigger] files[j]).path)
    &&& forall|f: ListedFile| #[trigger] files.contains(f) <==> is_first_of_path(all, f)
}

pub proof fn lemma_first_of_path_push(all: Seq<ListedFile>, next: ListedFile, f: ListedFile)
    ensures
        is_first_of_path(all.push(next), f) <==> is_first_of_path(all, f) || (f == next && forall|
            j: int,
        |
            0 <= j < all.len() ==> (#[trigger] all[j]).path != next.path),
{
    let more = all.push(next);
    if is_first_of_path(more, f) {
        let i = choose|i: int|
            0 <= i < more.len() && #[trigger] more[i] == f && forall|j: int|
                0 <= j < i ==> (#[trigger] more[j]).path != f.path;
        if i < all.len() {
            assert(all[i] == f);
            assert forall|j: int| 0 <= j < i implies (#[trigger] all[j]).path != f.path by {
                assert(more[j] == all[j]);
            }
        } else {
            assert forall|j: int| 0 <= j < all.len() implies (#[trigger] all[j]).path != next.path by {
                assert(more[j] == all[j]);
            }
        }
    }
    if is_first_of_path(all, f) {
        let i = choose|i: int|
            0 <= i < all.len() && #[trigger] all[i] == f && forall|j: int|
                0 <= j < i ==> (#[trigger] all[j]).path != f.path;
        assert(more[i] == f);
        assert forall|j: int| 0 <= j < i implies (#[trigger] more[j]).path != f.path by {
            assert(more[j] == all[j]);
        }
    }
    if f == next && (forall|j: int| 0 <= j < all.len() ==> (#[trigger] all[j]).path != next.path) {
        assert(more[all.len() as int] == f);
        assert forall|j: int| 0 <= j < all.len() implies (#[trigger] more[j]).path != f.path by {
            assert(more[j] == all[j]);
        }
    }
}

/// A path that stands anywhere in `all` has a first file.
proof fn lemma_path_has_first(all: Seq<ListedFile>, i: int)
    requires
        0 <= i < all.len(),
    ensures
        exists|f: ListedFile| #[trigger] is_first_of_path(all, f) && f.path == all[i].path,
    decreases i,
{
    if exists|j: int| 0 <= j < i && (#[trigger] all[j]).path == all[i].path {
        let j = choose|j: int| 0 <= j < i && (#[trigger] all[j]).path == all[i].path;
        lemma_path_has_first(all, j);
    } else {
        assert(is_first_of_path(all, all[i]));
    }
}

fn insert_file(list: &mut Vec<RemoteHfFile>, file: RemoteHfFile, Ghost(all): Ghost<Seq<ListedFile>>)
    requires
        is_listing_of(listed_files(old(list)@), all),
    ensures
        is_listing_of(listed_files(final(list)@), all.push(listed(file))),
{
    let ghost before = listed_files(list@);
    let ghost next = listed(file);
    let mut i: usize = 0;
    while i < list.len() && str_precedes(list[i].path.as_str(), file.path.as_str())
        invariant
            i <= list@.len(),
            listed_files(list@) == before,
            forall|j: int| 0 <= j < i ==> precedes((#[trigger] before[j]).path, file.path@),
        decreases list@.len() - i,
    {
        assert(before[i as int].path == list@[i as int].path@);
        i = i + 1;
    }
    if i < list.len() && str_eq(list[i].path.as_str(), file.path.as_str()) {
        proof {
            assert(before[i as int].path == next.path);
            assert(before.contains(before[i as int]));
            let w = choose|k: int|
                0 <= k < all.len() && #[trigger] all[k] == before[i as int] && forall|j: int|
                    0 <= j < k ==> (#[trigger] all[j]).path != before[i as int].path;
            assert(all[w].path == next.path);
            assert forall|f: ListedFile| #[trigger]
                before.contains(f) <==> is_first_of_path(all.push(next), f) by {
                lemma_first_of_path_push(all, next, f);
            }
        }
        return ;
    }
    proof {
        if i < before.len() {
            assert(before[i as int].path == list@[i as int].path@);
            crate::order::lemma_precedes_total(before[i as int].path, next.path);
        }
        assert forall|j: int| 0 <= j < all.len() implies (#[trigger] all[j]).path != next.path by {
            if all[j].path == next.path {
                lemma_path_has_first(all, j);
                let f = choose|f: ListedFile| #[trigger]
                    is_first_of_path(all, f) && f.path == all[j].path;
                assert(before.contains(f));
                let k = choose|k: int| 0 <= k < before.len() && before[k] == f;
                if k < i {
                    crate::order::lemma_precedes_irreflexive(next.path);
                } else if k > i {
                    assert(precedes(before[i as int].path, before[k].path));
                    crate::order::lemma_precedes_transitive(
                        next.path,
                        before[i as int].path,
                        next.path,
                    );
                    crate::order::lemma_precedes_irreflexive(next.path);
                }
            }
        }
    }
    list.insert(i, file);
    proof {
        let after = listed_files(list@);
        assert(after =~= before.insert(i as int, next));
        assert forall|a: int, b: int| 0 <= a < b < after.len() implies precedes(
            (#[trigger] after[a]).path,
            (#[trigger] after[b]).path,
        ) by {
            if b == i {
                assert(after[a] == before[a]);
            } else if a == i {
                assert(after[b] == before[b - 1]);
                if b - 1 > i {
                    assert(precedes(before[i as int].path, before[b - 1].path));
                    crate::order::lemma_precedes_transitive(
                        next.path,
                        before[i as int].path,
                        before[b - 1].path,
                    );
                }
            } else {
                let a0 = if a < i {
                    a
                } else {
                    a - 1
                };
                let b0 = if b < i {
                    b
                } else {
                    b - 1
                };
                assert(after[a] == before[a0]);
                assert(after[b] == before[b0]);
            }
        }
        assert forall|f: ListedFile| #[trigger]
            after.contains(f) <==> is_first_of_path(all.push(next), f) by {
            lemma_first_of_path_push(all, next, f);
            if after.contains(f) {
                let k = choose|k: int| 0 <= k < after.len() && after[k] == f;
                if k < i {
                    assert(before[k] == f);
                    assert(before.contains(f));
                } else if k > i {
                    assert(before[k - 1] == f);
                    assert(before.contains(f));
                }
            }
            if before.contains(f) {
                let k = choose|k: int| 0 <= k < before.len() && before[k] == f;
                if k < i {
                    assert(after[k] == f);
                } else {
                    assert(after[k + 1] == f);
                }
            }
            if f == next {
                assert(after[i as int] == f);
            }
        }
    }
}

fn read_item(item: &Json) -> (r: Option<RemoteHfFile>)
    ensures
        match r {
            Some(file) => listed_item(item@) == Some(listed(file)),
            None => listed_item(item@) is None,
        },
{
    let name = match item.get("rfilename") {
        Some(v) => Some(v),
        None => item.get("path"),
    };
    match str_opt(name) {
        Some(path) => {
            let size: u64 = match parse_remote_hf_file_size(item) {
                Some(n) => n,
                None => 0,
            };
            Some(RemoteHfFile { path: str_replace_char(path, '\\', '/'), size })
        },
        None => None,
    }
}

/// Reads the files of a listing.
pub fn parse_remote_hf_files(metadata: &Json) -> (r: Vec<RemoteHfFile>)
    ensures
        is_listing_of(
            listed_files(r@),
            listed_items(items_of(field(metadata@, "siblings"@))),
        ),
{
    let mut r: Vec<RemoteHfFile> = Vec::new();
    assert(listed_files(r@) =~= Seq::<ListedFile>::empty());
    if let Some(list) = metadata.get("siblings") {
        if let Some(items) = list.as_list() {
            let ghost model = list@->List_0;
            let mut i: usize = 0;
            while i < items.len()
                invariant
                    i <= items@.len(),
                    model.len() == items@.len(),
                    forall|j: int| 0 <= j < items@.len() ==> (#[trigger] items@[j])@ == model[j],
                    is_listing_of(listed_files(r@), listed_items(model.take(i as int))),
                decreases items@.len() - i,
            {
                assert(model.take(i + 1).drop_last() =~= model.take(i as int));
                assert(items@[i as int]@ == model[i as int]);
                if let Some(file) = read_item(&items[i]) {
                    insert_file(&mut r, file, Ghost(listed_items(model.take(i as int))));
                }
                i = i + 1;
            }
            assert(model.take(model.len() as int) =~= model);
        }
    }
    r
}

/// Puts a listing and a configuration together.
pub fn parse_remote_huggingface_model(repo: &str, metadata: &Json, config: Option<Json>) -> (r:
    RemoteHfModel)
    ensures
        r.repo@ == repo@,
        r.config == config,
        is_listing_of(
            listed_files(r.files@),
            listed_items(items_of(field(metadata@, "siblings"@))),
        ),
        r.gated == is_gated(field(metadata@, "gated"@)),
{
    RemoteHfModel {
        repo: repo.to_owned(),
        config,
        files: parse_remote_hf_files(metadata),
        gated: value_is_remote_hf_gated(metadata.get("gated")),
    }
}

// ---------------------------------------------------------------------------
// The format and the model file
// ---------------------------------------------------------------------------

/// The first file that meets a condition on its path.
pub open spec fn first_file(files: Seq<RemoteHfFile>, p: spec_fn(Seq<char>) -> bool) -> Option<
    Seq<char>,
>
    decreases files.len(),
{
    if files.len() == 0 {
        None
    } else if p(files[0].path@) {
        Some(files[0].path@)
    } else {
        first_file(files.drop_first(), p)
    }
}

pub open spec fn first_with_extension(files: Seq<RemoteHfFile>, ext: Seq<char>) -> Option<Seq<char>> {
    first_file(files, |path: Seq<char>| has_extension(path, ext))
}

pub open spec fn first_with_suffix(files: Seq<RemoteHfFile>, suffix: Seq<char>) -> Option<Seq<char>> {
    first_file(files, |path: Seq<char>| suffix.is_suffix_of(path))
}

pub open spec fn first_that_holds(files: Seq<RemoteHfFile>, part: Seq<char>) -> Option<Seq<char>> {
    first_file(files, |path: Seq<char>| holds(lowered(path), part))
}

pub open spec fn is_config_path(path: Seq<char>) -> bool {
    path == "config.json"@ || "/config.json"@.is_suffix_of(path)
}

fn find_with_extension(files: &Vec<RemoteHfFile>, ext: &str) -> (r: Option<String>)
    ensures
        opt_view(r) == first_with_extension(files@, ext@),
        r is Some <==> first_with_extension(files@, ext@) is Some,
{
    let ghost p = |path: Seq<char>| has_extension(path, ext@);
    let mut i: usize = 0;
    assert(files@.skip(0) =~= files@);
    while i < files.len()
        invariant
            i <= files@.len(),
            p == |path: Seq<char>| has_extension(path, ext@),
            first_file(files@, p) == first_file(files@.skip(i as int), p),
        decreases files@.len() - i,
    {
        assert(files@.skip(i as int).drop_first() =~= files@.skip(i + 1));
        if extension_eq_str(files[i].path.as_str(), ext) {
            return Some(files[i].path.clone());
        }
        i = i + 1;
    }
    None
}

fn find_with_suffix(files: &Vec<RemoteHfFile>, suffix: &str) -> (r: Option<String>)
    ensures
        opt_view(r) == first_with_suffix(files@, suffix@),
        r is Some <==> first_with_suffix(files@, suffix@) is Some,
{
    let ghost p = |path: Seq<char>| suffix@.is_suffix_of(path);
    let mut i: usize = 0;
    assert(files@.skip(0) =~= files@);
    while i < files.len()
        invariant
            i <= files@.len(),
            p == |path: Seq<char>| suffix@.is_suffix_of(path),
            first_file(files@, p) == first_file(files@.skip(i as int), p),
        decreases files@.len() - i,
    {
        assert(files@.skip(i as int).drop_first() =~= files@.skip(i + 1));
        if str_ends_with(files[i].path.as_str(), suffix) {
            return Some(files[i].path.clone());
        }
        i = i + 1;
    }
    None
}

fn find_that_holds(files: &Vec<RemoteHfFile>, part: &str) -> (r: Option<String>)
    ensures
        opt_view(r) == first_that_holds(files@, part@),
        r is Some <==> first_that_holds(files@, part@) is Some,
{
    let ghost p = |path: Seq<char>| holds(lowered(path), part@);
    let mut i: usize = 0;
    assert(files@.skip(0) =~= files@);
    while i < files.len()
        invariant
            i <= files@.len(),
            p == |path: Seq<char>| holds(lowered(path), part@),
            first_file(files@, p) == first_file(files@.skip(i as int), p),
        decreases files@.len() - i,
    {
        assert(files@.skip(i as int).drop_first() =~= files@.skip(i + 1));
        if str_contains(str_lower(files[i].path.as_str()).as_str(), part) {
            return Some(files[i].path.clone());
        }
        i = i + 1;
    }
    None
}

fn find_config(files: &Vec<RemoteHfFile>) -> (r: Option<String>)
    ensures
        opt_view(r) == first_file(files@, |path: Seq<char>| is_config_path(path)),
{
    let ghost p = |path: Seq<char>| is_config_path(path);
    let mut i: usize = 0;
    assert(files@.skip(0) =~= files@);
    while i < files.len()
        invariant
            i <= files@.len(),
            p == |path: Seq<char>| is_config_path(path),
            first_file(files@, p) == first_file(files@.skip(i as int), p),
        decreases files@.len() - i,
    {
        assert(files@.skip(i as int).drop_first() =~= files@.skip(i + 1));
        let path = files[i].path.as_str();
        if str_eq(path, "config.json") || str_ends_with(path, "/config.json") {
            return Some(files[i].path.clone());
        }
        i = i + 1;
    }
    None
}

/// The format of a repository, by its files and its name.
pub open spec fn detected_format(repo: Seq<char>, files: Seq<RemoteHfFile>) -> ModelFormat {
    if first_with_extension(files, "gguf"@) is Some {
        ModelFormat::Gguf
    } else if first_with_extension(files, "npz"@) is Some || holds(lowered(repo), "mlx"@)
        || first_that_holds(files, "mlx"@) is Some {
        ModelFormat::Mlx
    } else if first_with_extension(files, "safetensors"@) is Some {
        ModelFormat::SafeTensors
    } else if first_with_extension(files, "onnx"@) is Some {
        ModelFormat::Onnx
    } else if first_with_extension(files, "pt"@) is Some || first_with_extension(
        files,
        "pth"@,
    ) is Some || first_with_suffix(files, "pytorch_model.bin"@) is Some {
        ModelFormat::PyTorch
    } else {
        ModelFormat::Unknown
    }
}

pub fn remote_detect_format(remote: &RemoteHfModel) -> (r: ModelFormat)
    ensures
        r == detected_format(remote.repo@, remote.files@),
{
    let files = &remote.files;
    if find_with_extension(files, "gguf").is_some() {
        ModelFormat::Gguf
    } else if find_with_extension(files, "npz").is_some() || str_contains(
        str_lower(remote.repo.as_str()).as_str(),
        "mlx",
    ) || find_that_holds(files, "mlx").is_some() {
        ModelFormat::Mlx
    } else if find_with_extension(files, "safetensors").is_some() {
        ModelFormat::SafeTensors
    } else if find_with_extension(files, "onnx").is_some() {
        ModelFormat::Onnx
    } else if find_with_extension(files, "pt").is_some() || find_with_extension(
        files,
        "pth",
    ).is_some() || find_with_suffix(files, "pytorch_model.bin").is_some() {
        ModelFormat::PyTorch
    } else {
        ModelFormat::Unknown
    }
}

/// The format of one file, by its path.
pub open spec fn format_of_path(path: Seq<char>) -> ModelFormat {
    if has_extension(path, "gguf"@) {
        ModelFormat::Gguf
    } else if has_extension(path, "safetensors"@) {
        ModelFormat::SafeTensors
    } else if has_extension(path, "npz"@) {
        ModelFormat::Mlx
    } else if has_extension(path, "onnx"@) {
        ModelFormat::Onnx
    } else if has_extension(path, "pt"@) || has_extension(path, "pth"@)
        || "pytorch_model.bin"@.is_suffix_of(path) {
        ModelFormat::PyTorch
    } else {
        ModelFormat::Unknown
    }
}

pub fn remote_detect_format_for_file_path(path: &str) -> (r: ModelFormat)
    ensures
        r == format_of_path(path@),
{
    if extension_eq_str(path, "gguf") {
        ModelFormat::Gguf
    } else if extension_eq_str(path, "safetensors") {
        ModelFormat::SafeTensors
    } else if extension_eq_str(path, "npz") {
        ModelFormat::Mlx
    } else if extension_eq_str(path, "onnx") {
        ModelFormat::Onnx
    } else if extension_eq_str(path, "pt") || extension_eq_str(path, "pth") || str_ends_with(
        path,
        "pytorch_model.bin",
    ) {
        ModelFormat::PyTorch
    } else {
        ModelFormat::Unknown
    }
}

/// The place of a GGUF file in the order of preference, by the first
/// quantization of this list that its path holds.
pub open spec fn gguf_priority(path: Seq<char>) -> usize {
    let low = lowered(path);
    if holds(low, "q4_k_m"@) {
        0
    } else if holds(low, "q5_k_m"@) {
        1
    } else if holds(low, "q4_k_s"@) {
        2
    } else if holds(low, "q5_k_s"@) {
        3
    } else if holds(low, "q6_k"@) {
        4
    } else if holds(low, "q8_0"@) {
        5
    } else if holds(low, "q3_k_m"@) {
        6
    } else if holds(low, "q3_k_l"@) {
        7
    } else if holds(low, "q3_k_s"@) {
        8
    } else if holds(low, "q4_0"@) {
        9
    } else if holds(low, "q5_0"@) {
        10
    } else if holds(low, "q2_k"@) {
        11
    } else {
        usize::MAX
    }
}

pub fn remote_gguf_priority(path: &str) -> (r: usize)
    ensures
        r == gguf_priority(path@),
{
    let lower = str_lower(path);
    let low = lower.as_str();
    if str_contains(low, "q4_k_m") {
        0
    } else if str_contains(low, "q5_k_m") {
        1
    } else if str_contains(low, "q4_k_s") {
        2
    } else if str_contains(low, "q5_k_s") {
        3
    } else if str_contains(low, "q6_k") {
        4
    } else if str_contains(low, "q8_0") {
        5
    } else if str_contains(low, "q3_k_m") {
        6
    } else if str_contains(low, "q3_k_l") {
        7
    } else if str_contains(low, "q3_k_s") {
        8
    } else if str_contains(low, "q4_0") {
        9
    } else if str_contains(low, "q5_0") {
        10
    } else if str_contains(low, "q2_k") {
        11
    } else {
        usize::MAX
    }
}

/// `a` is preferred to `b`: by the quantization, else by the path.
pub open spec fn is_preferred(a: Seq<char>, b: Seq<char>) -> bool {
    gguf_priority(a) < gguf_priority(b) || (gguf_priority(a) == gguf_priority(b) && precedes(a, b))
}

/// The most preferred GGUF file.
pub open spec fn best_gguf(files: Seq<RemoteHfFile>) -> Option<Seq<char>>
    decreases files.len(),
{
    if files.len() == 0 {
        None
    } else {
        let rest = best_gguf(files.drop_last());
        let path = files.last().path@;
        if has_extension(path, "gguf"@) && (rest is None || is_preferred(path, rest->0)) {
            Some(path)
        } else {
            rest
        }
    }
}

/// No GGUF file is preferred to the best one, and that one is there.
pub proof fn best_gguf_is_best(files: Seq<RemoteHfFile>)
    ensures
        best_gguf(files) matches Some(best) ==> exists|i: int|
            0 <= i < files.len() && (#[trigger] files[i]).path@ == best && has_extension(
                best,
                "gguf"@,
            ),
        forall|i: int|
            0 <= i < files.len() && has_extension((#[trigger] files[i]).path@, "gguf"@) ==> best_gguf(
                files,
            ) is Some && !is_preferred(files[i].path@, best_gguf(files)->0),
    decreases files.len(),
{
    if files.len() > 0 {
        let before = files.drop_last();
        let path = files.last().path@;
        best_gguf_is_best(before);
        if best_gguf(before) is Some {
            let j = choose|j: int|
                0 <= j < before.len() && (#[trigger] before[j]).path@ == best_gguf(before)->0
                    && has_extension(best_gguf(before)->0, "gguf"@);
            assert(files[j] == before[j]);
        }
        assert(files[files.len() - 1].path@ == path);
        crate::order::lemma_precedes_irreflexive(path);
        assert forall|i: int|
            0 <= i < files.len() && has_extension(
                (#[trigger] files[i]).path@,
                "gguf"@,
            ) implies best_gguf(files) is Some && !is_preferred(
            files[i].path@,
            best_gguf(files)->0,
        ) by {
            if i < before.len() {
                assert(before[i] == files[i]);
                let old_best = best_gguf(before)->0;
                if best_gguf(files) != best_gguf(before) && is_preferred(files[i].path@, path) {
                    if gguf_priority(files[i].path@) == gguf_priority(old_best) {
                        crate::order::lemma_precedes_transitive(files[i].path@, path, old_best);
                    }
                }
            }
        }
    }
}

fn find_best_gguf(files: &Vec<RemoteHfFile>) -> (r: Option<String>)
    ensures
        opt_view(r) == best_gguf(files@),
{
    let mut best: Option<String> = None;
    let mut i: usize = 0;
    while i < files.len()
        invariant
            i <= files@.len(),
            opt_view(best) == best_gguf(files@.take(i as int)),
        decreases files@.len() - i,
    {
        assert(files@.take(i + 1).drop_last() =~= files@.take(i as int));
        let path = files[i].path.as_str();
        if extension_eq_str(path, "gguf") {
            let better = match &best {
                None => true,
                Some(current) => {
                    let a: usize = remote_gguf_priority(path);
                    let b: usize = remote_gguf_priority(current.as_str());
                    a < b || (a == b && str_precedes(path, current.as_str()))
                },
            };
            if better {
                best = Some(files[i].path.clone());
            }
        }
        i = i + 1;
    }
    assert(files@.take(files@.len() as int) =~= files@);
    best
}

pub open spec fn or_else(a: Option<Seq<char>>, b: Option<Seq<char>>) -> Option<Seq<char>> {
    match a {
        Some(s) => Some(s),
        None => b,
    }
}

/// The file that would be loaded.
pub open spec fn selected_file(files: Seq<RemoteHfFile>, format: ModelFormat) -> Option<Seq<char>> {
    match format {
        ModelFormat::Gguf => best_gguf(files),
        ModelFormat::SafeTensors => first_with_extension(files, "safetensors"@),
        ModelFormat::Mlx => or_else(
            first_with_extension(files, "npz"@),
            first_with_extension(files, "safetensors"@),
        ),
        ModelFormat::PyTorch => or_else(
            first_with_extension(files, "pt"@),
            or_else(
                first_with_extension(files, "pth"@),
                first_with_suffix(files, "pytorch_model.bin"@),
            ),
        ),
        ModelFormat::Onnx => first_with_extension(files, "onnx"@),
        _ => None,
    }
}

/// The path of a listed file in a manifest.
pub open spec fn in_files(path: Option<Seq<char>>) -> Option<Seq<char>> {
    match path {
        Some(path) => Some("files/"@ + path),
        None => None,
    }
}

fn below_files(path: Option<String>) -> (r: Option<String>)
    ensures
        opt_view(r) == in_files(opt_view(path)),
{
    match path {
        Some(path) => Some(join2("files/", path.as_str())),
        None => None,
    }
}

pub fn remote_selected_model_path(files: &Vec<RemoteHfFile>, format: ModelFormat) -> (r: Option<
    String,
>)
    ensures
        opt_view(r) == in_files(selected_file(files@, format)),
{
    let path = match format {
        ModelFormat::Gguf => find_best_gguf(files),
        ModelFormat::SafeTensors => find_with_extension(files, "safetensors"),
        ModelFormat::Mlx => match find_with_extension(files, "npz") {
            Some(path) => Some(path),
            None => find_with_extension(files, "safetensors"),
        },
        ModelFormat::PyTorch => match find_with_extension(files, "pt") {
            Some(path) => Some(path),
            None => match find_with_extension(files, "pth") {
                Some(path) => Some(path),
                None => find_with_suffix(files, "pytorch_model.bin"),
            },
        },
        ModelFormat::Onnx => find_with_extension(files, "onnx"),
        _ => None,
    };
    below_files(path)
}

/// The architecture that a configuration names: a model type, else the first of
/// its architectures.
pub open spec fn architecture_of(config: Option<JsonView>) -> Option<Seq<char>> {
    match config {
        None => None,
        Some(v) => or_else(
            model_type_of(v),
            match field(v, "architectures"@) {
                Some(JsonView::List(items)) => if items.len() > 0 {
                    text_of(Some(items[0]))
                } else {
                    None
                },
                _ => None,
            },
        ),
    }
}

pub open spec fn opt_doc(config: Option<Json>) -> Option<JsonView> {
    match config {
        Some(j) => Some(j@),
        None => None,
    }
}

pub fn remote_architecture_from_config(config: &Option<Json>) -> (r: Option<String>)
    ensures
        opt_view(r) == architecture_of(opt_doc(*config)),
{
    let value = match config {
        Some(value) => value,
        None => {
            return None;
        },
    };
    if let Some(name) = read_model_type(value) {
        return Some(name);
    }
    match value.get("architectures") {
        Some(list) => match list.as_list() {
            Some(items) => if items.len() > 0 {
                assert(items@[0]@ == list@->List_0[0]);
                match items[0].as_str() {
                    Some(s) => Some(s.to_owned()),
                    None => None,
                }
            } else {
                None
            },
            None => None,
        },
        None => None,
    }
}

// ---------------------------------------------------------------------------
// The manifest of a listing
// ---------------------------------------------------------------------------

/// The files of a manifest are those of the listing, below `files/`.
pub open spec fn are_listed_files(files: Seq<ModelFile>, remote: Seq<RemoteHfFile>) -> bool {
    &&& files.len() == remote.len()
    &&& forall|i: int|
        0 <= i < files.len() ==> (#[trigger] files[i]).path@ == "files/"@ + remote[i].path@
            && files[i].size == remote[i].size && files[i].checksum@ == "remote-metadata"@
}

pub open spec fn is_listed(remote: Seq<RemoteHfFile>, path: Seq<char>) -> bool {
    exists|i: int| 0 <= i < remote.len() && (#[trigger] remote[i]).path@ == path
}

/// Nothing is known of a model. Its layout goes by the name of what is not known.
pub open spec fn is_unknown_metadata(m: ModelMetadata) -> bool {
    &&& m.repository_layout@ == "unknown"@
    &&& m.family is None
    &&& m.tasks@.len() == 0
    &&& m.input_modalities@.len() == 0
    &&& m.output_modalities@.len() == 0
    &&& m.components == 0
    &&& m.precision is None
    &&& m.quantization is None
    &&& m.compatible_runtimes@.len() == 0
}

/// The format of a listing, or of the file of it that was asked for.
pub open spec fn listed_format(
    remote: RemoteHfModel,
    include_path: Option<Seq<char>>,
) -> ModelFormat {
    match include_path {
        Some(path) => format_of_path(path),
        None => detected_format(remote.repo@, remote.files@),
    }
}

/// The manifest that a listing amounts to, where `include_path` is the
/// normalized path of the file that was asked for and `backend_hint` the backend
/// that models of its format are recorded for.
pub open spec fn is_remote_manifest(
    m: ModelManifest,
    remote: RemoteHfModel,
    include_path: Option<Seq<char>>,
    backend_hint: Seq<char>,
) -> bool {
    &&& m.id@ == remote.repo@
    &&& m.source matches ModelSource::HuggingFace { repo } && repo@ == remote.repo@
    &&& m.storage is Managed
    &&& m.format == listed_format(remote, include_path)
    &&& opt_view(m.architecture) == architecture_of(opt_doc(remote.config))
    &&& opt_view(m.tokenizer_path) == in_files(first_with_suffix(remote.files@, "tokenizer.json"@))
    &&& opt_view(m.config_path) == in_files(
        first_file(remote.files@, |path: Seq<char>| is_config_path(path)),
    )
    &&& opt_view(m.model_path) == match include_path {
        Some(path) => in_files(Some(path)),
        None => in_files(selected_file(remote.files@, m.format)),
    }
    &&& m.backend@ == backend_hint
    &&& m.created_unix == 0
    &&& are_listed_files(m.files@, remote.files@)
    &&& m.artifacts@.len() == 0
    &&& is_unknown_metadata(m.metadata)
}

pub open spec fn file_not_found(file: Seq<char>, repo: Seq<char>) -> Seq<char> {
    "file '"@ + file + "' was not found in Hugging Face repo '"@ + repo + "'"@
}

/// The normalized path of the file that was asked for, which the repository has
/// to hold.
pub open spec fn requested_file(remote: RemoteHfModel, include_file: Option<Seq<char>>) -> Result<
    Option<Seq<char>>,
    Seq<char>,
> {
    match include_file {
        None => Ok(None),
        Some(file) => match normalized_path(file) {
            Err(message) => Err(message),
            Ok(path) => if is_listed(remote.files@, path) {
                Ok(Some(path))
            } else {
                Err(file_not_found(path, remote.repo@))
            },
        },
    }
}

fn no_metadata() -> (r: ModelMetadata)
    ensures
        is_unknown_metadata(r),
{
    ModelMetadata {
        repository_layout: "unknown".to_owned(),
        family: None,
        tasks: Vec::new(),
        input_modalities: Vec::new(),
        output_modalities: Vec::new(),
        components: 0,
        precision: None,
        quantization: None,
        compatible_runtimes: Vec::new(),
    }
}

fn listed_model_files(remote: &Vec<RemoteHfFile>) -> (r: Vec<ModelFile>)
    ensures
        are_listed_files(r@, remote@),
{
    let mut r: Vec<ModelFile> = Vec::new();
    let mut i: usize = 0;
    while i < remote.len()
        invariant
            i <= remote@.len(),
            r@.len() == i,
            forall|j: int|
                0 <= j < i ==> (#[trigger] r@[j]).path@ == "files/"@ + remote@[j].path@
                    && r@[j].size == remote@[j].size && r@[j].checksum@ == "remote-metadata"@,
        decreases remote@.len() - i,
    {
        r.push(
            ModelFile {
                path: join2("files/", remote[i].path.as_str()),
                size: remote[i].size,
                checksum: "remote-metadata".to_owned(),
            },
        );
        i = i + 1;
    }
    r
}

fn has_listed(remote: &Vec<RemoteHfFile>, path: &str) -> (r: bool)
    ensures
        r == is_listed(remote@, path@),
{
    let mut i: usize = 0;
    while i < remote.len()
        invariant
            i <= remote@.len(),
            forall|j: int| 0 <= j < i ==> (#[trigger] remote@[j]).path@ != path@,
        decreases remote@.len() - i,
    {
        if str_eq(remote[i].path.as_str(), path) {
            return true;
        }
        i = i + 1;
    }
    false
}

/// The format by which a caller finds the backend hint for `remote_hf_manifest`.
pub fn remote_model_format(remote: &RemoteHfModel, include_file: Option<&str>) -> (r: Result<
    ModelFormat,
    String,
>)
    ensures
        match include_file {
            None => r is Ok && r->Ok_0 == listed_format(*remote, None),
            Some(file) => match normalized_path(file@) {
                Ok(path) => r is Ok && r->Ok_0 == listed_format(*remote, Some(path)),
                Err(message) => r is Err && r->Err_0@ == message,
            },
        },
{
    match include_file {
        None => Ok(remote_detect_format(remote)),
        Some(file) => match normalize_remote_hf_file_path(file) {
            Ok(path) => Ok(remote_detect_format_for_file_path(path.as_str())),
            Err(message) => Err(message),
        },
    }
}

/// Makes a manifest out of a listing. A file that is asked for has to be in it.
/// `backend_hint` names the backend that models of this format are recorded for.
pub fn remote_hf_manifest(
    remote: &RemoteHfModel,
    include_file: Option<&str>,
    backend_hint: &str,
) -> (r: Result<ModelManifest, String>)
    ensures
        match requested_file(*remote, opt_str_view(include_file)) {
            Ok(path) => r is Ok && is_remote_manifest(r->Ok_0, *remote, path, backend_hint@),
            Err(message) => r is Err && r->Err_0@ == message,
        },
{
    let normalized: Option<String> = match include_file {
        None => None,
        Some(file) => match normalize_remote_hf_file_path(file) {
            Ok(path) => Some(path),
            Err(message) => {
                return Err(message);
            },
        },
    };
    let format = match &normalized {
        Some(path) => remote_detect_format_for_file_path(path.as_str()),
        None => remote_detect_format(remote),
    };
    let model_path: Option<String> = match &normalized {
        Some(path) => {
            if !has_listed(&remote.files, path.as_str()) {
                return Err(
                    join5(
                        "file '",
                        path.as_str(),
                        "' was not found in Hugging Face repo '",
                        remote.repo.as_str(),
                        "'",
                    ),
                );
            }
            Some(join2("files/", path.as_str()))
        },
        None => remote_selected_model_path(&remote.files, format),
    };
    Ok(
        ModelManifest {
            id: remote.repo.clone(),
            source: ModelSource::HuggingFace { repo: remote.repo.clone() },
            storage: ModelStorage::Managed,
            format,
            architecture: remote_architecture_from_config(&remote.config),
            tokenizer_path: below_files(find_with_suffix(&remote.files, "tokenizer.json")),
            config_path: below_files(find_config(&remote.files)),
            model_path,
            backend: backend_hint.to_owned(),
            created_unix: 0,
            files: listed_model_files(&remote.files),
            artifacts: Vec::new(),
            metadata: no_metadata(),
        },
    )
}

// ---------------------------------------------------------------------------
// The estimate
// ---------------------------------------------------------------------------

pub open spec fn gated_message(repo: Seq<char>) -> Seq<char> {
    "Hugging Face gated model requires browser agreement: "@ + repo + " (https://huggingface.co/"@
        + repo
        + "). Open the model page, accept the conditions, then run `werk auth huggingface login` or set HF_TOKEN and retry."@
}

/// A gated model is refused without a token.
pub fn refuse_gated_model(remote: &RemoteHfModel, has_token: bool) -> (r: Result<(), String>)
    ensures
        r is Err <==> remote.gated && !has_token,
        r matches Err(message) ==> message@ == gated_message(remote.repo@),
{
    if remote.gated && !has_token {
        Err(
            join5(
                "Hugging Face gated model requires browser agreement: ",
                remote.repo.as_str(),
                " (https://huggingface.co/",
                remote.repo.as_str(),
                "). Open the model page, accept the conditions, then run `werk auth huggingface login` or set HF_TOKEN and retry.",
            ),
        )
    } else {
        Ok(())
    }
}

/// The accounting of a listing: the file that was asked for, else what the
/// index says, else what the names say.
pub open spec fn remote_accounting(
    m: ModelManifest,
    remote: RemoteHfModel,
    include_path: Option<Seq<char>>,
    index_text: Option<Seq<char>>,
) -> AccountingView {
    match include_path {
        Some(path) => single_accounting(
            m.files@,
            m.files@[file_at(m.files@, "files/"@ + path)->0],
            "explicit --file selected for remote estimate"@,
        ),
        None => {
            let by_index = match (
                first_with_suffix(remote.files@, ".safetensors.index.json"@),
                index_text,
            ) {
                (Some(path), Some(text)) => match json_document(text) {
                    Ok(index) => accounting_by_index(m, "files/"@ + path, index),
                    Err(_) => None,
                },
                _ => None,
            };
            if is_tensor_format(m.format) && by_index is Some {
                by_index->0
            } else {
                accounting_by_manifest(m)
            }
        },
    }
}

/// Accounts for the files of a listing. `index_text` is the index that stands
/// at `remote_index_path`, if it could be read.
pub fn remote_weight_accounting(
    manifest: &ModelManifest,
    remote: &RemoteHfModel,
    include_path: Option<&str>,
    index_text: Option<&str>,
) -> (r: WeightAccounting)
    requires
        include_path matches Some(path) ==> file_at(manifest.files@, "files/"@ + path@) is Some,
    ensures
        r@ == remote_accounting(
            *manifest,
            *remote,
            opt_str_view(include_path),
            opt_str_view(index_text),
        ),
{
    if let Some(path) = include_path {
        let selected = join2("files/", path);
        match find_file(&manifest.files, selected.as_str()) {
            Some(i) => {
                return single_selected_weight_accounting(
                    manifest,
                    &manifest.files[i],
                    "explicit --file selected for remote estimate",
                );
            },
            None => {
                assert(false);
            },
        }
    }
    if manifest.format == ModelFormat::SafeTensors || manifest.format == ModelFormat::Mlx
        || manifest.format == ModelFormat::PyTorch {
        if let Some(path) = find_with_suffix(&remote.files, ".safetensors.index.json") {
            if let Some(text) = index_text {
                if let Ok(value) = parse_json(text) {
                    let below = join2("files/", path.as_str());
                    if let Some(accounting) = safetensors_index_weight_accounting_from_value(
                        manifest,
                        below.as_str(),
                        &value,
                    ) {
                        return accounting;
                    }
                }
            }
        }
    }
    estimate_weight_accounting_without_store(manifest)
}

pub open spec fn remote_notes(m: ModelManifest, weights: nat, on_macos: bool) -> Seq<Seq<char>> {
    let first = seq![
        "Remote estimate uses Hugging Face metadata and small config/index files only; it does not download model weights."@,
    ];
    let second = if weights == 0 {
        seq![
            "Hugging Face metadata did not include file sizes, so the memory estimate is incomplete."@,
        ]
    } else {
        Seq::empty()
    };
    let third = if opt_view(m.architecture) == Some("chatglm"@) && on_macos && m.format
        is SafeTensors {
        seq![
            "Raw ChatGLM/GLM Hugging Face repositories may need MLX conversion before mlx-lm can load them."@,
        ]
    } else {
        Seq::empty()
    };
    first + second + third
}

fn build_remote_notes(manifest: &ModelManifest, weights: u64, on_macos: bool) -> (r: Vec<String>)
    ensures
        views(r@) == remote_notes(*manifest, weights as nat, on_macos),
{
    let mut r: Vec<String> = Vec::new();
    r.push(
        "Remote estimate uses Hugging Face metadata and small config/index files only; it does not download model weights.".to_owned(),
    );
    if weights == 0 {
        r.push(
            "Hugging Face metadata did not include file sizes, so the memory estimate is incomplete.".to_owned(),
        );
    }
    let chatglm = match &manifest.architecture {
        Some(name) => str_eq(name.as_str(), "chatglm"),
        None => false,
    };
    if chatglm && on_macos && manifest.format == ModelFormat::SafeTensors {
        r.push(
            "Raw ChatGLM/GLM Hugging Face repositories may need MLX conversion before mlx-lm can load them.".to_owned(),
        );
    }
    assert(views(r@) =~= remote_notes(*manifest, weights as nat, on_macos));
    r
}

pub open spec fn remote_config(remote: RemoteHfModel) -> Option<ConfigView> {
    match opt_doc(remote.config) {
        Some(v) => Some(config_of(v)),
        None => None,
    }
}

/// The report on a listed model.
pub open spec fn remote_estimate(
    m: ModelManifest,
    remote: RemoteHfModel,
    a: AccountingView,
    on_macos: bool,
    system: SystemMemory,
) -> ReportView {
    ReportView {
        notes: remote_notes(m, total_size(a.counted), on_macos),
        ..estimate_of(m, a, remote_config(remote), on_macos, system, EstimateConfidence::Medium)
    }
}

/// What estimating a listed model came to.
pub enum RemoteEstimate {
    Report(EstimateReport),
    /// The sizes of the counted files add up to more than a `u64` holds.
    TooLarge,
    Refused(String),
}

proof fn lemma_listed_file_is_found(files: Seq<ModelFile>, remote: Seq<RemoteHfFile>, path: Seq<char>)
    requires
        are_listed_files(files, remote),
        is_listed(remote, path),
    ensures
        file_at(files, "files/"@ + path) is Some,
{
    let i = choose|i: int| 0 <= i < remote.len() && (#[trigger] remote[i]).path@ == path;
    assert(files[i].path@ == "files/"@ + path);
    lemma_some_file_is_found(files, "files/"@ + path, i);
}

proof fn lemma_some_file_is_found(files: Seq<ModelFile>, path: Seq<char>, i: int)
    requires
        0 <= i < files.len(),
        files[i].path@ == path,
    ensures
        file_at(files, path) is Some,
    decreases files.len(),
{
    if i < files.len() - 1 {
        lemma_some_file_is_found(files.drop_last(), path, i);
    }
}

/// The index that has to be read before a model is estimated: that of a listing
/// which is not refused, where its format may have one.
pub open spec fn wanted_index(
    remote: RemoteHfModel,
    include_file: Option<Seq<char>>,
    has_token: bool,
) -> Option<Seq<char>> {
    if !is_valid_repo(remote.repo@) || (remote.gated && !has_token) {
        None
    } else {
        match requested_file(remote, include_file) {
            Ok(path) => if is_tensor_format(listed_format(remote, path)) {
                first_with_suffix(remote.files@, ".safetensors.index.json"@)
            } else {
                None
            },
            Err(_) => None,
        }
    }
}

pub fn remote_index_path(
    remote: &RemoteHfModel,
    include_file: Option<&str>,
    has_token: bool,
) -> (r: Option<String>)
    ensures
        opt_view(r) == wanted_index(*remote, opt_str_view(include_file), has_token),
{
    if validate_huggingface_repo_for_estimate(remote.repo.as_str()).is_err() {
        return None;
    }
    if refuse_gated_model(remote, has_token).is_err() {
        return None;
    }
    match remote_hf_manifest(remote, include_file, "") {
        Ok(manifest) => match manifest.format {
            ModelFormat::SafeTensors | ModelFormat::Mlx | ModelFormat::PyTorch => {
                find_with_suffix(&remote.files, ".safetensors.index.json")
            },
            _ => None,
        },
        Err(_) => None,
    }
}

/// What estimating a listed model comes to, step by step: the name has to be
/// valid, a gated model needs a token, a file that is asked for has to be
/// listed, and the sizes have to add up.
pub open spec fn is_remote_outcome(
    outcome: RemoteEstimate,
    remote: RemoteHfModel,
    include_file: Option<Seq<char>>,
    index_text: Option<Seq<char>>,
    backend_hint: Seq<char>,
    has_token: bool,
    on_macos: bool,
    system: SystemMemory,
) -> bool {
    if !is_valid_repo(remote.repo@) {
        outcome matches RemoteEstimate::Refused(message) && message@
            == "invalid Hugging Face repo id: "@ + remote.repo@
    } else if remote.gated && !has_token {
        outcome matches RemoteEstimate::Refused(message) && message@ == gated_message(remote.repo@)
    } else {
        match requested_file(remote, include_file) {
            Err(reason) => outcome matches RemoteEstimate::Refused(message) && message@ == reason,
            Ok(path) => exists|m: ModelManifest|
                {
                    let a = remote_accounting(m, remote, path, index_text);
                    &&& #[trigger] is_remote_manifest(m, remote, path, backend_hint)
                    &&& match outcome {
                        RemoteEstimate::Report(report) => total_size(a.counted) <= u64::MAX
                            && report@ == remote_estimate(m, remote, a, on_macos, system),
                        RemoteEstimate::TooLarge => total_size(a.counted) > u64::MAX,
                        RemoteEstimate::Refused(_) => false,
                    }
                },
        }
    }
}

/// Estimates a model from its listing. `index_text` is the index that stands at
/// `remote_index_path`, if it could be read, and `backend_hint` names the backend
/// for the format that `remote_model_format` gives.
pub fn estimate_huggingface_model(
    remote: &RemoteHfModel,
    include_file: Option<&str>,
    index_text: Option<&str>,
    backend_hint: &str,
    has_token: bool,
    on_macos: bool,
    system: SystemMemory,
) -> (r: RemoteEstimate)
    ensures
        is_remote_outcome(
            r,
            *remote,
            opt_str_view(include_file),
            opt_str_view(index_text),
            backend_hint@,
            has_token,
            on_macos,
            system,
        ),
{
    if let Err(message) = validate_huggingface_repo_for_estimate(remote.repo.as_str()) {
        return RemoteEstimate::Refused(message);
    }
    if let Err(message) = refuse_gated_model(remote, has_token) {
        return RemoteEstimate::Refused(message);
    }
    let manifest = match remote_hf_manifest(remote, include_file, backend_hint) {
        Ok(manifest) => manifest,
        Err(message) => {
            return RemoteEstimate::Refused(message);
        },
    };
    let normalized: Option<String> = match include_file {
        None => None,
        Some(file) => match normalize_remote_hf_file_path(file) {
            Ok(path) => Some(path),
            Err(message) => {
                return RemoteEstimate::Refused(message);
            },
        },
    };
    proof {
        if normalized is Some {
            lemma_listed_file_is_found(manifest.files@, remote.files@, normalized->0@);
        }
    }
    let accounting = remote_weight_accounting(
        &manifest,
        remote,
        opt_str(&normalized),
        index_text,
    );
    let ghost a = accounting@;
    assert(is_remote_manifest(manifest, *remote, opt_view(normalized), backend_hint@));
    let weights: u64 = match accounting.checked_total() {
        Some(n) => n,
        None => {
            return RemoteEstimate::TooLarge;
        },
    };
    let config = match &remote.config {
        Some(value) => Some(parse_estimate_config(value)),
        None => None,
    };
    let mut report = estimate_from_accounting(
        &manifest,
        accounting,
        &config,
        on_macos,
        system,
        EstimateConfidence::Medium,
    );
    report.notes = build_remote_notes(&manifest, weights, on_macos);
    RemoteEstimate::Report(report)
}

/// Where no index is wanted, none that is read all the same makes a difference.
pub proof fn unwanted_indexes_change_nothing(
    outcome: RemoteEstimate,
    remote: RemoteHfModel,
    include_file: Option<Seq<char>>,
    index_text: Option<Seq<char>>,
    backend_hint: Seq<char>,
    has_token: bool,
    on_macos: bool,
    system: SystemMemory,
)
    requires
        wanted_index(remote, include_file, has_token) is None,
    ensures
        is_remote_outcome(
            outcome,
            remote,
            include_file,
            index_text,
            backend_hint,
            has_token,
            on_macos,
            system,
        ) <==> is_remote_outcome(
            outcome,
            remote,
            include_file,
            None,
            backend_hint,
            has_token,
            on_macos,
            system,
        ),
{
    if let Ok(path) = requested_file(remote, include_file) {
        assert forall|m: ModelManifest| #[trigger]
            is_remote_manifest(m, remote, path, backend_hint) && is_valid_repo(remote.repo@) && !(
            remote.gated && !has_token) implies remote_accounting(m, remote, path, index_text)
            == remote_accounting(m, remote, path, None) by {}
    }
}

// ---------------------------------------------------------------------------
// What a remote listing is for
// ---------------------------------------------------------------------------

/// The quantizations, the one that is preferred first.
pub open spec fn quantizations() -> Seq<Seq<char>> {
    seq![
        "q4_k_m"@, "q5_k_m"@, "q4_k_s"@, "q5_k_s"@, "q6_k"@, "q8_0"@, "q3_k_m"@, "q3_k_l"@, "q3_k_s"@, "q4_0"@, "q5_0"@, "q2_k"@,
    ]
}

/// A file is as good as the best quantization that its name tells, whatever the case, and
/// the last of all where it tells none.
pub proof fn balanced_quantizations_come_first(path: Seq<char>, k: int)
    requires
        0 <= k < quantizations().len(),
        forall|j: int| 0 <= j < k ==> !holds(lowered(path), #[trigger] quantizations()[j]),
        holds(lowered(path), quantizations()[k]),
    ensures
        gguf_priority(path) == k,
{
    let all = quantizations();
    assert(all[0] == "q4_k_m"@);
    assert(all[1] == "q5_k_m"@);
    assert(all[2] == "q4_k_s"@);
    assert(all[3] == "q5_k_s"@);
    assert(all[4] == "q6_k"@);
    assert(all[5] == "q8_0"@);
    assert(all[6] == "q3_k_m"@);
    assert(all[7] == "q3_k_l"@);
    assert(all[8] == "q3_k_s"@);
    assert(all[9] == "q4_0"@);
    assert(all[10] == "q5_0"@);
    assert(all[11] == "q2_k"@);
}

/// A file whose name tells no quantization comes after any that does.
pub proof fn unknown_quantizations_come_last(path: Seq<char>, other: Seq<char>)
    requires
        forall|j: int|
            0 <= j < quantizations().len() ==> !holds(lowered(path), #[trigger] quantizations()[j]),
    ensures
        gguf_priority(other) <= gguf_priority(path),
        gguf_priority(path) == usize::MAX,
{
    let all = quantizations();
    assert(all[0] == "q4_k_m"@);
    assert(all[1] == "q5_k_m"@);
    assert(all[2] == "q4_k_s"@);
    assert(all[3] == "q5_k_s"@);
    assert(all[4] == "q6_k"@);
    assert(all[5] == "q8_0"@);
    assert(all[6] == "q3_k_m"@);
    assert(all[7] == "q3_k_l"@);
    assert(all[8] == "q3_k_s"@);
    assert(all[9] == "q4_0"@);
    assert(all[10] == "q5_0"@);
    assert(all[11] == "q2_k"@);
}

proof fn lemma_first_file(files: Seq<RemoteHfFile>, p: spec_fn(Seq<char>) -> bool)
    ensures
        match first_file(files, p) {
            Some(path) => exists|i: int|
                0 <= i < files.len() && (#[trigger] files[i]).path@ == path && p(path)
                    && forall|j: int| 0 <= j < i ==> !p((#[trigger] files[j]).path@),
            None => forall|i: int| 0 <= i < files.len() ==> !p((#[trigger] files[i]).path@),
        },
    decreases files.len(),
{
    if files.len() > 0 {
        if p(files[0].path@) {
            assert(files[0].path@ == first_file(files, p)->0);
        } else {
            let rest = files.drop_first();
            lemma_first_file(rest, p);
            if let Some(path) = first_file(rest, p) {
                let i = choose|i: int|
                    0 <= i < rest.len() && (#[trigger] rest[i]).path@ == path && p(path)
                        && forall|j: int| 0 <= j < i ==> !p((#[trigger] rest[j]).path@);
                assert(files[i + 1] == rest[i]);
                assert forall|j: int| 0 <= j < i + 1 implies !p((#[trigger] files[j]).path@) by {
                    if j > 0 {
                        assert(files[j] == rest[j - 1]);
                    }
                }
            } else {
                assert forall|j: int| 0 <= j < files.len() implies !p(
                    (#[trigger] files[j]).path@,
                ) by {
                    if j > 0 {
                        assert(files[j] == rest[j - 1]);
                    }
                }
            }
        }
    }
}

/// A file of the listing ends like this, up to case.
pub open spec fn some_ends(files: Seq<RemoteHfFile>, ext: Seq<char>) -> bool {
    exists|i: int| 0 <= i < files.len() && has_extension((#[trigger] files[i]).path@, ext)
}

proof fn lemma_some_ends(files: Seq<RemoteHfFile>, ext: Seq<char>)
    ensures
        first_with_extension(files, ext) is Some <==> some_ends(files, ext),
{
    lemma_first_file(files, |path: Seq<char>| has_extension(path, ext));
}

/// A listing with a GGUF file is a GGUF model; else one of MLX, by a file or by a name;
/// else the weights tell: safetensors before ONNX before PyTorch.
pub proof fn formats_are_told_by_the_files(repo: Seq<char>, files: Seq<RemoteHfFile>)
    ensures
        ({
            let format = detected_format(repo, files);
            let named = holds(lowered(repo), "mlx"@) || exists|i: int|
                0 <= i < files.len() && holds(lowered((#[trigger] files[i]).path@), "mlx"@);
            &&& format is Gguf <==> some_ends(files, "gguf"@)
            &&& !some_ends(files, "gguf"@) ==> (format is Mlx <==> some_ends(files, "npz"@) || named)
            &&& !(format is Gguf) && !(format is Mlx) ==> (format is SafeTensors <==> some_ends(
                files,
                "safetensors"@,
            ))
            &&& !(format is Gguf) && !(format is Mlx) && !(format is SafeTensors) ==> (format is Onnx
                <==> some_ends(files, "onnx"@))
            &&& format is PyTorch ==> !some_ends(files, "onnx"@) && !some_ends(
                files,
                "safetensors"@,
            )
            &&& some_ends(files, "pt"@) || some_ends(files, "pth"@) ==> !(format is Unknown)
            &&& !(format is TensorRt) && !(format is OpenVino) && !(format is TensorFlow) && !(format
                is CoreMl)
        }),
{
    lemma_some_ends(files, "gguf"@);
    lemma_some_ends(files, "npz"@);
    lemma_some_ends(files, "safetensors"@);
    lemma_some_ends(files, "onnx"@);
    lemma_some_ends(files, "pt"@);
    lemma_some_ends(files, "pth"@);
    lemma_first_file(files, |path: Seq<char>| holds(lowered(path), "mlx"@));
}

/// The format of one file is that of its ending.
pub proof fn endings_tell_the_format(path: Seq<char>)
    ensures
        crate::paths::extension(path) == Some("gguf"@) ==> format_of_path(path) is Gguf,
        crate::paths::extension(path) == Some("safetensors"@) ==> format_of_path(path) is SafeTensors,
        crate::paths::extension(path) == Some("npz"@) ==> format_of_path(path) is Mlx,
        crate::paths::extension(path) == Some("onnx"@) ==> format_of_path(path) is Onnx,
        crate::paths::extension(path) == Some("pt"@) ==> format_of_path(path) is PyTorch,
        crate::paths::extension(path) == Some("pth"@) ==> format_of_path(path) is PyTorch,
        has_extension(path, "gguf"@) <==> format_of_path(path) is Gguf,
        format_of_path(path) is SafeTensors ==> has_extension(path, "safetensors"@),
        format_of_path(path) is Mlx ==> has_extension(path, "npz"@),
        format_of_path(path) is Onnx ==> has_extension(path, "onnx"@),
        crate::paths::extension(path) is None ==> (format_of_path(path) is PyTorch
            <==> "pytorch_model.bin"@.is_suffix_of(path)),
        crate::paths::extension(path) is None ==> format_of_path(path) is PyTorch || format_of_path(
            path,
        ) is Unknown,
{
    reveal_strlit("gguf");
    assert(lowered("gguf"@) =~= "gguf"@);
    reveal_strlit("safetensors");
    assert(lowered("safetensors"@) =~= "safetensors"@);
    reveal_strlit("npz");
    assert(lowered("npz"@) =~= "npz"@);
    reveal_strlit("onnx");
    assert(lowered("onnx"@) =~= "onnx"@);
    reveal_strlit("pt");
    assert(lowered("pt"@) =~= "pt"@);
    reveal_strlit("pth");
    assert(lowered("pth"@) =~= "pth"@);
    assert("safetensors"@.len() != "gguf"@.len());
    assert("npz"@.len() != "gguf"@.len());
    assert("npz"@.len() != "safetensors"@.len());
    assert("onnx"@[0] != "gguf"@[0]);
    assert("onnx"@.len() != "safetensors"@.len());
    assert("onnx"@.len() != "npz"@.len());
    assert("pt"@.len() != "gguf"@.len());
    assert("pt"@.len() != "safetensors"@.len());
    assert("pt"@.len() != "npz"@.len());
    assert("pt"@.len() != "onnx"@.len());
    assert("pth"@.len() != "gguf"@.len());
    assert("pth"@.len() != "safetensors"@.len());
    assert("pth"@[0] != "npz"@[0]);
    assert("pth"@.len() != "onnx"@.len());
    assert("pth"@.len() != "pt"@.len());
}

/// What is selected is a file of the listing that has the format.
pub proof fn selected_files_are_listed(files: Seq<RemoteHfFile>, format: ModelFormat)
    ensures
        selected_file(files, format) matches Some(path) ==> is_listed(files, path),
        format is SafeTensors ==> (selected_file(files, format) is Some <==> some_ends(
            files,
            "safetensors"@,
        )),
        format is Onnx ==> (selected_file(files, format) is Some <==> some_ends(files, "onnx"@)),
        format is Gguf ==> (selected_file(files, format) is Some <==> some_ends(files, "gguf"@)),
        format is SafeTensors ==> (selected_file(files, format) matches Some(path) ==> has_extension(
            path,
            "safetensors"@,
        )),
        format is Onnx ==> (selected_file(files, format) matches Some(path) ==> has_extension(
            path,
            "onnx"@,
        )),
        format is Gguf ==> (selected_file(files, format) matches Some(path) ==> has_extension(
            path,
            "gguf"@,
        )),
        format is Mlx && some_ends(files, "npz"@) ==> (selected_file(files, format) matches Some(
            path,
        ) && has_extension(path, "npz"@)),
{
    lemma_first_file(files, |path: Seq<char>| has_extension(path, "safetensors"@));
    lemma_first_file(files, |path: Seq<char>| has_extension(path, "onnx"@));
    lemma_first_file(files, |path: Seq<char>| has_extension(path, "npz"@));
    lemma_first_file(files, |path: Seq<char>| has_extension(path, "pt"@));
    lemma_first_file(files, |path: Seq<char>| has_extension(path, "pth"@));
    lemma_first_file(files, |path: Seq<char>| "pytorch_model.bin"@.is_suffix_of(path));
    lemma_best_gguf(files);
}

proof fn lemma_best_gguf(files: Seq<RemoteHfFile>)
    ensures
        match best_gguf(files) {
            Some(path) => is_listed(files, path) && has_extension(path, "gguf"@),
            None => !some_ends(files, "gguf"@),
        },
    decreases files.len(),
{
    if files.len() > 0 {
        let rest = files.drop_last();
        lemma_best_gguf(rest);
        if let Some(path) = best_gguf(rest) {
            let i = choose|i: int| 0 <= i < rest.len() && (#[trigger] rest[i]).path@ == path;
            assert(files[i] == rest[i]);
        } else {
            assert forall|i: int| 0 <= i < rest.len() implies rest[i] == #[trigger] files[i] by {}
        }
        assert(files.last() == files[files.len() - 1]);
        if best_gguf(files) is None {
            assert forall|i: int| 0 <= i < files.len() implies !has_extension(
                (#[trigger] files[i]).path@,
                "gguf"@,
            ) by {
                if i < rest.len() {
                    assert(rest[i] == files[i]);
                }
            }
        }
    }
}

/// An answer of the server counts where its status says so; any other is an error that
/// names the status.
pub proof fn good_statuses_have_bodies(body: Seq<char>, status: Seq<char>)
    requires
        !status.contains('\n'),
    ensures
        parsed_unsigned(trimmed(status), u16::MAX as nat) matches Some(n) ==> (response_body(
            body + seq!['\n'] + status,
        ) is Ok <==> 200 <= n <= 299),
        parsed_unsigned(trimmed(status), u16::MAX as nat) is None ==> response_body(
            body + seq!['\n'] + status,
        ) is Err,
        response_body(body + seq!['\n'] + status) matches Ok(text) ==> text == body,
{
    let whole = body + seq!['\n'] + status;
    let at = body.len() as int;
    assert(whole[at] == '\n');
    assert forall|j: int| at < j < whole.len() implies whole[j] != '\n' by {
        assert(whole[j] == status[j - at - 1]);
    }
    crate::text::lemma_split_at_last(whole, '\n', at);
    assert(whole.take(at) =~= body);
    assert(whole.skip(at + 1) =~= status);
}

/// Without a line of its own for the status there is no answer.
pub proof fn answers_without_status_are_errors(stdout: Seq<char>)
    requires
        !stdout.contains('\n'),
    ensures
        response_body(stdout) is Err,
{
    crate::text::lemma_split_at_last_none(stdout, '\n');
}

/// A file's size is what the listing says of it, before what it says of its large file.
pub proof fn sizes_are_what_is_listed(file: JsonView, n: nat)
    ensures
        lenient_unsigned(field(file, "size"@)) == Some(n) ==> listed_size(file) == Some(n),
        lenient_unsigned(field(file, "size"@)) is None && lenient_unsigned(
            field(file, "blob_size"@),
        ) == Some(n) ==> listed_size(file) == Some(n),
        lenient_unsigned(field(file, "size"@)) is None && lenient_unsigned(
            field(file, "blob_size"@),
        ) is None && (field(file, "lfs"@) matches Some(lfs) && lenient_unsigned(
            field(lfs, "size"@),
        ) == Some(n)) ==> listed_size(file) == Some(n),
        field(file, "size"@) is None && field(file, "blob_size"@) is None && field(file, "lfs"@)
            is None ==> listed_size(file) is None,
{
}

/// A model is gated where the listing says so, in a word or by a switch.
pub proof fn gated_models_are_gated(word: Seq<char>)
    ensures
        is_gated(Some(JsonView::Bool(true))),
        !is_gated(Some(JsonView::Bool(false))),
        !is_gated(None),
        !is_gated(Some(JsonView::Null)),
        is_gated(Some(JsonView::Text(word))) <==> word.len() > 0 && word != "false"@ && word
            != "False"@ && word != "none"@,
{
    reveal_strlit("");
    assert(word.len() == 0 ==> word =~= ""@);
}

/// The architecture is the type of the model, else the first architecture that is named.
pub proof fn architectures_are_named(v: JsonView, name: Seq<char>)
    ensures
        field(v, "text_config"@) is None && field(v, "model_type"@) == Some(JsonView::Text(name))
            ==> architecture_of(Some(v)) == Some(name),
        (field(v, "text_config"@) matches Some(section) && field(section, "model_type"@) == Some(
            JsonView::Text(name),
        )) ==> architecture_of(Some(v)) == Some(name),
        field(v, "text_config"@) is None && field(v, "model_type"@) is None && (
        field(v, "architectures"@) matches Some(JsonView::List(items)) && items.len() > 0 && items[0]
            == JsonView::Text(name)) ==> architecture_of(Some(v)) == Some(name),
        architecture_of(None) is None,
{
}

/// A repository may be named that is not blank, does not look like an option and does not
/// lead out of itself.
pub proof fn repositories_are_plain_names(repo: Seq<char>)
    requires
        repo.len() > 0,
    ensures
        is_valid_repo(repo) <==> !is_blank(repo) && repo[0] != '-' && forall|i: int|
            0 <= i < repo.len() - 1 ==> !(#[trigger] repo[i] == '.' && repo[i + 1] == '.'),
{
    reveal_strlit("..");
    if holds(repo, ".."@) {
        let i = choose|i: int| crate::text::occurs_at(repo, ".."@, i);
        assert(repo.subrange(i, i + 2)[0] == repo[i] && repo.subrange(i, i + 2)[1] == repo[i + 1]);
        assert(repo[i] == '.' && repo[i + 1] == '.');
    } else {
        assert forall|i: int| 0 <= i < repo.len() - 1 implies !(#[trigger] repo[i] == '.' && repo[i
            + 1] == '.') by {
            if repo[i] == '.' && repo[i + 1] == '.' {
                assert(repo.subrange(i, i + 2) =~= ".."@);
                assert(crate::text::occurs_at(repo, ".."@, i));
            }
        }
    }
}

/// A path is used as it stands where it is already a plain one inside the repository, and
/// no path is used that is empty somewhere or leads up.
pub proof fn plain_paths_stay(file: Seq<char>)
    ensures
        trimmed(file) == file && !file.contains('\\') && !"./"@.is_prefix_of(file)
            && !"files/"@.is_prefix_of(file) && all_proper(split(file, '/')) ==> normalized_path(
            file,
        ) == Ok::<Seq<char>, Seq<char>>(file),
        normalized_path(file) matches Ok(path) ==> forall|i: int|
            0 <= i < split(path, '/').len() ==> (#[trigger] split(path, '/')[i]).len() > 0 && split(
                path,
                '/',
            )[i] != ".."@ && split(path, '/')[i] != "."@,
{
    if trimmed(file) == file && !file.contains('\\') {
        assert(replaced(file, '\\', '/') =~= file) by {
            assert forall|i: int| 0 <= i < file.len() implies file[i] != '\\' by {
                assert(file.contains(file[i]));
            }
        }
    }
}

/// A byte that a path may not hold is written as a percent sign and two digits that tell
/// its value; any other stands for itself.
pub proof fn bytes_are_told_by_two_digits(b: u8)
    ensures
        (65 <= b <= 90) || (97 <= b <= 122) || (48 <= b <= 57) || b == 45 || b == 95 || b == 46 || b
            == 126 || b == 47 <==> encoded_byte(b) == seq![b as char],
        !is_plain_byte(b) ==> encoded_byte(b).len() == 3 && encoded_byte(b)[0] == '%'
            && hex_value(encoded_byte(b)[1]) * 16 + hex_value(encoded_byte(b)[2]) == b,
{
    if !is_plain_byte(b) {
        assert(encoded_byte(b).len() == 3);
        assert(seq![b as char].len() == 1);
    }
}

/// The value of an upper-case hexadecimal digit.
pub open spec fn hex_value(c: char) -> int {
    if '0' <= c && c <= '9' {
        c as int - 48
    } else {
        c as int - 55
    }
}

/// A model that may not be read is refused, as is a file that is not there; anything else
/// is estimated.
pub proof fn readable_models_are_estimated(
    outcome: RemoteEstimate,
    remote: RemoteHfModel,
    include_file: Option<Seq<char>>,
    index_text: Option<Seq<char>>,
    backend_hint: Seq<char>,
    has_token: bool,
    on_macos: bool,
    system: SystemMemory,
)
    requires
        is_remote_outcome(
            outcome,
            remote,
            include_file,
            index_text,
            backend_hint,
            has_token,
            on_macos,
            system,
        ),
    ensures
        remote.gated && !has_token ==> outcome is Refused,
        (include_file matches Some(file) && normalized_path(file) is Err) ==> outcome is Refused,
        (include_file matches Some(file) && normalized_path(file) matches Ok(path) && forall|i: int|
            0 <= i < remote.files@.len() ==> (#[trigger] remote.files@[i]).path@ != path)
            ==> outcome is Refused,
        is_valid_repo(remote.repo@) && (!remote.gated || has_token) && include_file is None ==> !(
        outcome is Refused),
        outcome matches RemoteEstimate::Report(report) ==> report@.model == remote.repo@,
{
}

} // verus!
