//! The parameters of a media request: from what was given on the command line to
//! values by canonical name.

use vstd::prelude::*;

use crate::fields::{
    ascending, field_views, get_field, has_field, object_of, place_value, put, put_field,
    put_values_are_found, removed_names_are_gone, take_field, without,
};
use crate::json::{json_document, lookup, parse_json, text_of, Json, JsonView};
use crate::manifest::InferenceTask;
use crate::text::{
    chars_of, join2, join3, replaced, split, split_at_first, split_at_last, str_contains_char,
    str_ends_with, str_eq, str_replace_char, str_rsplit_once, str_split, str_split_once,
    str_starts_with, str_strip_prefix, str_trim, string_between, trimmed,
};

verus! {

pub open spec fn names_of(names: Seq<&'static str>) -> Seq<Seq<char>> {
    names.map_values(|n: &'static str| n@)
}

/// The arguments that a request carries in a place of its own.
pub open spec fn transport_names() -> Seq<Seq<char>> {
    seq![
        "model"@,
        "prompt"@,
        "prompt_file"@,
        "negative_prompt"@,
        "negative_prompt_file"@,
        "text"@,
        "text_file"@,
        "lyrics_file"@,
        "image"@,
        "init_image"@,
        "mask"@,
        "video"@,
        "input_audio"@,
        "source_audio"@,
        "reference_audio"@,
        "instrumental_audio"@,
        "vocal_audio"@,
        "melody_audio"@,
        "rhythm_audio"@,
        "chord_audio"@,
        "initial_image"@,
        "output"@,
        "output_path"@,
    ]
}

/// What a request carries in a place of its own.
pub fn media_transport_fields() -> (r: Vec<&'static str>)
    ensures
        names_of(r@) == transport_names(),
{
    let r: Vec<&'static str> = vec![
        "model",
        "prompt",
        "prompt_file",
        "negative_prompt",
        "negative_prompt_file",
        "text",
        "text_file",
        "lyrics_file",
        "image",
        "init_image",
        "mask",
        "video",
        "input_audio",
        "source_audio",
        "reference_audio",
        "instrumental_audio",
        "vocal_audio",
        "melody_audio",
        "rhythm_audio",
        "chord_audio",
        "initial_image",
        "output",
        "output_path",
    ];
    assert(names_of(r@) =~= transport_names());
    r
}

/// The arguments that decide where a request is run.
pub open spec fn routing_names() -> Seq<Seq<char>> {
    seq![
        "accelerator"@,
        "precision"@,
        "quantization"@,
        "profile"@,
        "quality"@,
        "performance_preference"@,
        "fallback_policy"@,
        "parameter_policy"@,
        "allow_cpu_offload"@,
        "no_allow_cpu_offload"@,
        "allow_sequential_offload"@,
        "no_allow_sequential_offload"@,
        "allow_component_offload"@,
        "no_allow_component_offload"@,
        "allow_disk_offload"@,
        "no_allow_disk_offload"@,
        "attention_backend"@,
        "compile"@,
        "no_compile"@,
        "timeout"@,
        "set"@,
    ]
}

/// What decides where a request is run.
pub fn media_routing_fields() -> (r: Vec<&'static str>)
    ensures
        names_of(r@) == routing_names(),
{
    let r: Vec<&'static str> = vec![
        "accelerator",
        "precision",
        "quantization",
        "profile",
        "quality",
        "performance_preference",
        "fallback_policy",
        "parameter_policy",
        "allow_cpu_offload",
        "no_allow_cpu_offload",
        "allow_sequential_offload",
        "no_allow_sequential_offload",
        "allow_component_offload",
        "no_allow_component_offload",
        "allow_disk_offload",
        "no_allow_disk_offload",
        "attention_backend",
        "compile",
        "no_compile",
        "timeout",
        "set",
    ];
    assert(names_of(r@) =~= routing_names());
    r
}

/// The arguments whose items may be written as fields, in the order in which they are looked at.
pub open spec fn structured_names() -> Seq<Seq<char>> {
    seq![
        "controls"@,
        "loras"@,
        "adapters"@,
        "camera_keyframes"@,
        "prompt_keyframes"@,
        "guidance_schedule"@,
        "denoise_schedule"@,
        "adapter_schedule"@,
        "instruments"@,
        "mix_controls"@,
        "mastering_controls"@,
    ]
}

/// The arguments whose items may be written as fields.
pub fn structured_media_fields() -> (r: Vec<&'static str>)
    ensures
        names_of(r@) == structured_names(),
{
    let r: Vec<&'static str> = vec![
        "controls",
        "loras",
        "adapters",
        "camera_keyframes",
        "prompt_keyframes",
        "guidance_schedule",
        "denoise_schedule",
        "adapter_schedule",
        "instruments",
        "mix_controls",
        "mastering_controls",
    ];
    assert(names_of(r@) =~= structured_names());
    r
}

// ---------------------------------------------------------------------------
// Fields written as text
// ---------------------------------------------------------------------------

/// The value of a text: what it says as JSON, or else the text itself.
pub open spec fn loose_value(text: Seq<char>) -> JsonView {
    match json_document(text) {
        Ok(value) => value,
        Err(_) => JsonView::Text(text),
    }
}

/// One more field of a structured value.
pub open spec fn with_written_field(fields: Seq<(Seq<char>, JsonView)>, part: Seq<char>) -> Result<
    Seq<(Seq<char>, JsonView)>,
    Seq<char>,
> {
    match split_at_first(part, '=') {
        None => Err("expected comma-separated key=value fields"@),
        Some((name, value)) => {
            let name = replaced(trimmed(name), '-', '_');
            let value = trimmed(value);
            if name.len() == 0 {
                Err("structured field name must not be empty"@)
            } else if place_value(fields, name) is Some {
                Err("structured field '"@ + name + "' is repeated"@)
            } else if value.len() == 0 {
                Err("structured field '"@ + name + "' has an empty value"@)
            } else {
                Ok(put(fields, name, loose_value(value)))
            }
        },
    }
}

pub open spec fn written_fields(parts: Seq<Seq<char>>) -> Result<
    Seq<(Seq<char>, JsonView)>,
    Seq<char>,
>
    decreases parts.len(),
{
    if parts.len() == 0 {
        Ok(Seq::empty())
    } else {
        match written_fields(parts.drop_last()) {
            Ok(fields) => with_written_field(fields, parts.last()),
            Err(message) => Err(message),
        }
    }
}

/// The object that fields such as `type=depth,weight=0.8` describe.
pub open spec fn written_object(spec: Seq<char>) -> Result<JsonView, Seq<char>> {
    match written_fields(split(spec, ',')) {
        Ok(fields) => Ok(JsonView::Object(fields)),
        Err(message) => Err(message),
    }
}

pub open spec fn json_result(r: Result<Json, String>) -> Result<JsonView, Seq<char>> {
    match r {
        Ok(value) => Ok(value@),
        Err(message) => Err(message@),
    }
}

fn value_of_text(text: String) -> (r: Json)
    ensures
        r@ == loose_value(text@),
{
    match parse_json(text.as_str()) {
        Ok(value) => value,
        Err(_) => Json::Text(text),
    }
}

fn add_written_field(fields: &mut Vec<(String, Json)>, part: &str) -> (r: Result<(), String>)
    ensures
        match r {
            Ok(_) => with_written_field(field_views(old(fields)@), part@) == Ok::<
                Seq<(Seq<char>, JsonView)>,
                Seq<char>,
            >(field_views(final(fields)@)),
            Err(message) => with_written_field(field_views(old(fields)@), part@) == Err::<
                Seq<(Seq<char>, JsonView)>,
                Seq<char>,
            >(message@),
        },
{
    let (name, value) = match str_split_once(part, '=') {
        Some(pair) => pair,
        None => {
            return Err("expected comma-separated key=value fields".to_owned());
        },
    };
    let name = str_trim(name.as_str());
    let name = str_replace_char(name.as_str(), '-', '_');
    if name.as_str().unicode_len() == 0 {
        return Err("structured field name must not be empty".to_owned());
    }
    if has_field(fields, name.as_str()) {
        return Err(join3("structured field '", name.as_str(), "' is repeated"));
    }
    let value = str_trim(value.as_str());
    if value.as_str().unicode_len() == 0 {
        return Err(join3("structured field '", name.as_str(), "' has an empty value"));
    }
    put_field(fields, name, value_of_text(value));
    Ok(())
}

proof fn lemma_written_fields_fail(parts: Seq<Seq<char>>, n: int)
    requires
        0 <= n <= parts.len(),
        written_fields(parts.take(n)) is Err,
    ensures
        written_fields(parts) == written_fields(parts.take(n)),
    decreases parts.len() - n,
{
    if n < parts.len() {
        assert(parts.take(n + 1).drop_last() =~= parts.take(n));
        lemma_written_fields_fail(parts, n + 1);
    } else {
        assert(parts.take(n) =~= parts);
    }
}

/// Reads an object that is written as fields.
pub fn parse_structured_spec(spec: &str) -> (r: Result<Json, String>)
    ensures
        json_result(r) == written_object(spec@),
{
    let parts = str_split(spec, ',');
    let ghost all = split(spec@, ',');
    let mut fields: Vec<(String, Json)> = Vec::new();
    let mut i: usize = 0;
    assert(field_views(fields@) =~= Seq::empty());
    while i < parts.len()
        invariant
            i <= parts@.len(),
            all == split(spec@, ','),
            all.len() == parts@.len(),
            forall|j: int| 0 <= j < parts@.len() ==> (#[trigger] parts@[j])@ == all[j],
            written_fields(all.take(i as int)) == Ok::<Seq<(Seq<char>, JsonView)>, Seq<char>>(
                field_views(fields@),
            ),
        decreases parts@.len() - i,
    {
        assert(all.take(i + 1).drop_last() =~= all.take(i as int));
        assert(parts@[i as int]@ == all[i as int]);
        match add_written_field(&mut fields, parts[i].as_str()) {
            Ok(()) => {},
            Err(message) => {
                proof {
                    lemma_written_fields_fail(all, i + 1);
                }
                return Err(message);
            },
        }
        i = i + 1;
    }
    assert(all.take(all.len() as int) =~= all);
    Ok(object_of(fields))
}

/// An item of a structured argument: fields become an object, anything else
/// stays as it is.
pub open spec fn expanded_item(item: JsonView) -> Result<JsonView, Seq<char>> {
    match item {
        JsonView::Text(spec) => if spec.contains('=') {
            written_object(spec)
        } else {
            Ok(item)
        },
        _ => Ok(item),
    }
}

pub open spec fn expanded_items(items: Seq<JsonView>) -> Result<Seq<JsonView>, Seq<char>>
    decreases items.len(),
{
    if items.len() == 0 {
        Ok(Seq::empty())
    } else {
        match expanded_items(items.drop_last()) {
            Ok(done) => match expanded_item(items.last()) {
                Ok(item) => Ok(done.push(item)),
                Err(message) => Err(message),
            },
            Err(message) => Err(message),
        }
    }
}

pub open spec fn item_views(items: Seq<Json>) -> Seq<JsonView> {
    items.map_values(|j: Json| j@)
}

proof fn lemma_expanded_items_fail(items: Seq<JsonView>, n: int)
    requires
        0 <= n <= items.len(),
        expanded_items(items.take(n)) is Err,
    ensures
        expanded_items(items) == expanded_items(items.take(n)),
    decreases items.len() - n,
{
    if n < items.len() {
        assert(items.take(n + 1).drop_last() =~= items.take(n));
        lemma_expanded_items_fail(items, n + 1);
    } else {
        assert(items.take(n) =~= items);
    }
}

fn expand_items(items: Vec<Json>) -> (r: Result<Vec<Json>, String>)
    ensures
        match r {
            Ok(done) => expanded_items(item_views(items@)) == Ok::<Seq<JsonView>, Seq<char>>(
                item_views(done@),
            ),
            Err(message) => expanded_items(item_views(items@)) == Err::<Seq<JsonView>, Seq<char>>(
                message@,
            ),
        },
{
    let ghost all = item_views(items@);
    let mut rest = items;
    let mut done: Vec<Json> = Vec::new();
    let ghost mut n: int = 0;
    assert(item_views(done@) =~= Seq::<JsonView>::empty());
    assert(all.skip(0) =~= all);
    while rest.len() > 0
        invariant
            0 <= n <= all.len(),
            all == item_views(items@),
            item_views(rest@) == all.skip(n),
            expanded_items(all.take(n)) == Ok::<Seq<JsonView>, Seq<char>>(item_views(done@)),
        decreases rest@.len(),
    {
        let ghost left = rest@;
        assert(item_views(left).len() == left.len());
        let item = rest.remove(0);
        proof {
            assert(item@ == item_views(left)[0]);
            assert(item@ == all[n]);
            assert forall|i: int| 0 <= i < rest@.len() implies item_views(rest@)[i] == all.skip(
                n + 1,
            )[i] by {
                assert(item_views(left)[i + 1] == all.skip(n)[i + 1]);
            }
            assert(item_views(rest@) =~= all.skip(n + 1));
            assert(all.take(n + 1).drop_last() =~= all.take(n));
        }
        let expanded = match item {
            Json::Text(spec) => {
                if str_contains_char(spec.as_str(), '=') {
                    match parse_structured_spec(spec.as_str()) {
                        Ok(value) => value,
                        Err(message) => {
                            proof {
                                lemma_expanded_items_fail(all, n + 1);
                            }
                            return Err(message);
                        },
                    }
                } else {
                    Json::Text(spec)
                }
            },
            other => other,
        };
        let ghost before = done@;
        done.push(expanded);
        proof {
            assert(item_views(done@) =~= item_views(before).push(expanded@));
            n = n + 1;
        }
    }
    proof {
        assert(all.skip(n).len() == 0);
        assert(all.take(n) =~= all);
    }
    Ok(done)
}

/// The arguments after the items of one of them were expanded.
pub open spec fn with_items_expanded(raw: Seq<(Seq<char>, JsonView)>, name: Seq<char>) -> Result<
    Seq<(Seq<char>, JsonView)>,
    Seq<char>,
> {
    match place_value(raw, name) {
        Some(JsonView::List(items)) => match expanded_items(items) {
            Ok(done) => Ok(put(without(raw, name), name, JsonView::List(done))),
            Err(message) => Err(
                "invalid structured value for "@ + name + ": "@ + message,
            ),
        },
        _ => Ok(raw),
    }
}

pub open spec fn with_all_items_expanded(
    raw: Seq<(Seq<char>, JsonView)>,
    names: Seq<Seq<char>>,
) -> Result<Seq<(Seq<char>, JsonView)>, Seq<char>>
    decreases names.len(),
{
    if names.len() == 0 {
        Ok(raw)
    } else {
        match with_items_expanded(raw, names[0]) {
            Ok(next) => with_all_items_expanded(next, names.drop_first()),
            Err(message) => Err(message),
        }
    }
}

fn expand_items_of(raw: &mut Vec<(String, Json)>, name: &str) -> (r: Result<(), String>)
    ensures
        match r {
            Ok(_) => with_items_expanded(field_views(old(raw)@), name@) == Ok::<
                Seq<(Seq<char>, JsonView)>,
                Seq<char>,
            >(field_views(final(raw)@)),
            Err(message) => with_items_expanded(field_views(old(raw)@), name@) == Err::<
                Seq<(Seq<char>, JsonView)>,
                Seq<char>,
            >(message@),
        },
{
    let is_list = match get_field(raw, name) {
        Some(Json::List(_)) => true,
        _ => false,
    };
    if !is_list {
        return Ok(());
    }
    let value = take_field(raw, name);
    if let Some(Json::List(items)) = value {
        assert(value->0@->List_0 =~= item_views(items@));
        match expand_items(items) {
            Ok(done) => {
                let list = Json::List(done);
                assert(list@->List_0 =~= item_views(done@));
                put_field(raw, name.to_owned(), list);
            },
            Err(message) => {
                let mut text = join3("invalid structured value for ", name, ": ");
                text.push_str(message.as_str());
                return Err(text);
            },
        }
    }
    Ok(())
}

// ---------------------------------------------------------------------------
// Values given as JSON or in files
// ---------------------------------------------------------------------------

/// The arguments that hold a document, or name the file that does.
pub open spec fn is_document_name(name: Seq<char>) -> bool {
    "_json"@.is_suffix_of(name) || "_file"@.is_suffix_of(name)
}

/// A name without the ending, as often as it has it.
pub open spec fn without_endings(name: Seq<char>, ending: Seq<char>) -> Seq<char>
    decreases name.len(),
{
    if ending.len() > 0 && ending.is_suffix_of(name) {
        without_endings(name.take(name.len() - ending.len()), ending)
    } else {
        name
    }
}

/// The value under a name joined by another: lists are joined, anything else is
/// replaced.
pub open spec fn merged(raw: Seq<(Seq<char>, JsonView)>, name: Seq<char>, value: JsonView) -> Seq<
    (Seq<char>, JsonView),
> {
    let rest = without(raw, name);
    match (place_value(raw, name), value) {
        (Some(JsonView::List(current)), JsonView::List(more)) => put(
            rest,
            name,
            JsonView::List(current + more),
        ),
        _ => put(rest, name, value),
    }
}

pub fn merge_media_value(raw: &mut Vec<(String, Json)>, path: String, value: Json)
    ensures
        field_views(final(raw)@) == merged(field_views(old(raw)@), path@, value@),
{
    let current = take_field(raw, path.as_str());
    match (current, value) {
        (Some(Json::List(items)), Json::List(more)) => {
            assert(current->0@->List_0 =~= item_views(items@));
            assert(value@->List_0 =~= item_views(more@));
            let mut all = items;
            let mut more = more;
            let ghost a = all@;
            let ghost b = more@;
            all.append(&mut more);
            let list = Json::List(all);
            assert(list@->List_0 =~= item_views(a) + item_views(b));
            put_field(raw, path, list);
        },
        (_, value) => {
            put_field(raw, path, value);
        },
    }
}

/// What was read of the files: their text, or why it could not be read.
pub open spec fn read_views(files: Seq<Result<String, String>>) -> Seq<
    Result<Seq<char>, Seq<char>>,
> {
    files.map_values(
        |f: Result<String, String>|
            match f {
                Ok(text) => Ok(text@),
                Err(message) => Err(message@),
            },
    )
}

/// The arguments after one document was read in, by the text of the file where
/// it stands in one.
pub open spec fn with_document(
    raw: Seq<(Seq<char>, JsonView)>,
    name: Seq<char>,
    file: Result<Seq<char>, Seq<char>>,
) -> Result<Seq<(Seq<char>, JsonView)>, Seq<char>> {
    match place_value(raw, name) {
        None => Ok(raw),
        Some(source) => {
            let rest = without(raw, name);
            if "_json"@.is_suffix_of(name) {
                match text_of(Some(source)) {
                    None => Err(name + " must contain JSON text"@),
                    Some(text) => match json_document(text) {
                        Ok(value) => Ok(
                            merged(rest, name.take(name.len() - "_json"@.len()), value),
                        ),
                        Err(message) => Err(
                            "invalid JSON supplied for "@ + name + ": "@ + message,
                        ),
                    },
                }
            } else {
                match text_of(Some(source)) {
                    None => Err(name + " must contain a file path"@),
                    Some(path) => match file {
                        Err(message) => Err(
                            "failed to read structured override file "@ + path + ": "@ + message,
                        ),
                        Ok(text) => match json_document(text) {
                            Ok(value) => Ok(merged(rest, without_endings(name, "_file"@), value)),
                            Err(message) => Err(
                                "invalid JSON in structured override file "@ + path + ": "@
                                    + message,
                            ),
                        },
                    },
                }
            }
        },
    }
}

pub open spec fn next_file(files: Seq<Result<Seq<char>, Seq<char>>>) -> Result<Seq<char>, Seq<char>> {
    if files.len() == 0 {
        Err("not read"@)
    } else {
        files[0]
    }
}

/// The arguments after the documents were read in. Each name of a file has its
/// text among the files, in order.
pub open spec fn with_documents(
    raw: Seq<(Seq<char>, JsonView)>,
    names: Seq<Seq<char>>,
    files: Seq<Result<Seq<char>, Seq<char>>>,
) -> Result<Seq<(Seq<char>, JsonView)>, Seq<char>>
    decreases names.len(),
{
    if names.len() == 0 {
        Ok(raw)
    } else {
        let is_file = !"_json"@.is_suffix_of(names[0]);
        match with_document(raw, names[0], next_file(files)) {
            Ok(next) => with_documents(
                next,
                names.drop_first(),
                if is_file && files.len() > 0 {
                    files.drop_first()
                } else {
                    files
                },
            ),
            Err(message) => Err(message),
        }
    }
}

/// The names of the arguments that hold or name documents, in order.
pub open spec fn document_names(raw: Seq<(Seq<char>, JsonView)>) -> Seq<Seq<char>>
    decreases raw.len(),
{
    if raw.len() == 0 {
        Seq::empty()
    } else {
        let rest = document_names(raw.drop_last());
        if is_document_name(raw.last().0) {
            rest.push(raw.last().0)
        } else {
            rest
        }
    }
}

fn find_document_names(raw: &Vec<(String, Json)>) -> (r: Vec<String>)
    ensures
        crate::text::views(r@) == document_names(field_views(raw@)),
{
    let ghost all = field_views(raw@);
    let mut r: Vec<String> = Vec::new();
    let mut i: usize = 0;
    assert(crate::text::views(r@) =~= Seq::<Seq<char>>::empty());
    while i < raw.len()
        invariant
            i <= raw@.len(),
            all == field_views(raw@),
            crate::text::views(r@) == document_names(all.take(i as int)),
        decreases raw@.len() - i,
    {
        assert(all.take(i + 1).drop_last() =~= all.take(i as int));
        assert(all[i as int].0 == raw@[i as int].0@);
        let name = raw[i].0.as_str();
        if str_ends_with(name, "_json") || str_ends_with(name, "_file") {
            let ghost before = r@;
            r.push(name.to_owned());
            assert(crate::text::views(r@) =~= crate::text::views(before).push(name@));
        }
        i = i + 1;
    }
    assert(all.take(all.len() as int) =~= all);
    r
}

/// The files that hold documents, in the order in which their texts are wanted.
/// A name whose value is no path has an empty one.
pub open spec fn document_files(raw: Seq<(Seq<char>, JsonView)>) -> Seq<Seq<char>>
    decreases raw.len(),
{
    if raw.len() == 0 {
        Seq::empty()
    } else {
        let rest = document_files(raw.drop_last());
        let name = raw.last().0;
        if "_file"@.is_suffix_of(name) && !"_json"@.is_suffix_of(name) {
            rest.push(
                match text_of(Some(raw.last().1)) {
                    Some(path) => path,
                    None => Seq::empty(),
                },
            )
        } else {
            rest
        }
    }
}

pub fn structured_media_files(raw: &Vec<(String, Json)>) -> (r: Vec<String>)
    ensures
        crate::text::views(r@) == document_files(field_views(raw@)),
{
    let ghost all = field_views(raw@);
    let mut r: Vec<String> = Vec::new();
    let mut i: usize = 0;
    assert(crate::text::views(r@) =~= Seq::<Seq<char>>::empty());
    while i < raw.len()
        invariant
            i <= raw@.len(),
            all == field_views(raw@),
            crate::text::views(r@) == document_files(all.take(i as int)),
        decreases raw@.len() - i,
    {
        assert(all.take(i + 1).drop_last() =~= all.take(i as int));
        assert(all[i as int] == (raw@[i as int].0@, raw@[i as int].1@));
        let name = raw[i].0.as_str();
        if str_ends_with(name, "_file") && !str_ends_with(name, "_json") {
            let path = match raw[i].1.as_str() {
                Some(path) => path.to_owned(),
                None => String::new(),
            };
            let ghost before = r@;
            r.push(path);
            assert(crate::text::views(r@) =~= crate::text::views(before).push(path@));
        }
        i = i + 1;
    }
    assert(all.take(all.len() as int) =~= all);
    r
}

fn strip_endings(name: &str, ending: &str) -> (r: String)
    requires
        ending@.len() > 0,
    ensures
        r@ == without_endings(name@, ending@),
    decreases name@.len(),
{
    if str_ends_with(name, ending) {
        let cut = strip_ending(name, ending);
        strip_endings(cut.as_str(), ending)
    } else {
        name.to_owned()
    }
}

fn strip_ending(name: &str, ending: &str) -> (r: String)
    requires
        ending@.is_suffix_of(name@),
    ensures
        r@ == name@.take(name@.len() - ending@.len()),
{
    let chars = chars_of(name);
    let n: usize = chars.len();
    let k: usize = ending.unicode_len();
    let r = string_between(&chars, 0, n - k);
    assert(r@ =~= name@.take(name@.len() - ending@.len()));
    r
}

fn read_document(
    raw: &mut Vec<(String, Json)>,
    name: &str,
    file: &Result<String, String>,
) -> (r: Result<(), String>)
    ensures
        match r {
            Ok(_) => with_document(
                field_views(old(raw)@),
                name@,
                match *file {
                    Ok(text) => Ok(text@),
                    Err(message) => Err(message@),
                },
            ) == Ok::<Seq<(Seq<char>, JsonView)>, Seq<char>>(field_views(final(raw)@)),
            Err(message) => with_document(
                field_views(old(raw)@),
                name@,
                match *file {
                    Ok(text) => Ok(text@),
                    Err(message) => Err(message@),
                },
            ) == Err::<Seq<(Seq<char>, JsonView)>, Seq<char>>(message@),
        },
{
    proof {
        reveal_strlit("_json");
        reveal_strlit("_file");
    }
    let source = match take_field(raw, name) {
        Some(source) => source,
        None => {
            proof {
                let fields = field_views(old(raw)@);
                assert(without(fields, name@) == fields);
            }
            return Ok(());
        },
    };
    if str_ends_with(name, "_json") {
        let text = match source.as_str() {
            Some(text) => text,
            None => {
                return Err(join2(name, " must contain JSON text"));
            },
        };
        match parse_json(text) {
            Ok(value) => {
                let target = strip_ending(name, "_json");
                merge_media_value(raw, target, value);
                Ok(())
            },
            Err(message) => {
                let mut error = join3("invalid JSON supplied for ", name, ": ");
                error.push_str(message.as_str());
                Err(error)
            },
        }
    } else {
        let path = match source.as_str() {
            Some(path) => path,
            None => {
                return Err(join2(name, " must contain a file path"));
            },
        };
        match file {
            Err(message) => {
                let mut error = join3("failed to read structured override file ", path, ": ");
                error.push_str(message.as_str());
                Err(error)
            },
            Ok(text) => match parse_json(text.as_str()) {
                Ok(value) => {
                    let target = strip_endings(name, "_file");
                    merge_media_value(raw, target, value);
                    Ok(())
                },
                Err(message) => {
                    let mut error = join3("invalid JSON in structured override file ", path, ": ");
                    error.push_str(message.as_str());
                    Err(error)
                },
            },
        }
    }
}

/// The arguments with everything that was written as fields, as JSON or in a
/// file in its place.
pub open spec fn expanded(
    raw: Seq<(Seq<char>, JsonView)>,
    files: Seq<Result<Seq<char>, Seq<char>>>,
) -> Result<Seq<(Seq<char>, JsonView)>, Seq<char>> {
    match with_all_items_expanded(raw, structured_names()) {
        Ok(listed) => with_documents(listed, document_names(listed), files),
        Err(message) => Err(message),
    }
}

/// Puts what was written as fields, as JSON or in a file in its place. `files`
/// are the texts of the files that `structured_media_files` names.
pub fn expand_structured_media_values(
    raw: Vec<(String, Json)>,
    files: &Vec<Result<String, String>>,
) -> (r: Result<Vec<(String, Json)>, String>)
    ensures
        match r {
            Ok(done) => expanded(field_views(raw@), read_views(files@)) == Ok::<
                Seq<(Seq<char>, JsonView)>,
                Seq<char>,
            >(field_views(done@)),
            Err(message) => expanded(field_views(raw@), read_views(files@)) == Err::<
                Seq<(Seq<char>, JsonView)>,
                Seq<char>,
            >(message@),
        },
{
    let mut values = raw;
    let ghost first = field_views(values@);
    let ghost given = read_views(files@);
    let lists = structured_media_fields();
    let ghost names = structured_names();
    let mut i: usize = 0;
    assert(names.skip(0) =~= names);
    while i < lists.len()
        invariant
            i <= lists@.len(),
            first == field_views(raw@),
            given == read_views(files@),
            names == structured_names(),
            names == names_of(lists@),
            with_all_items_expanded(first, names) == with_all_items_expanded(
                field_views(values@),
                names.skip(i as int),
            ),
        decreases lists@.len() - i,
    {
        assert(names[i as int] == lists@[i as int]@);
        assert(names.skip(i as int)[0] == names[i as int]);
        assert(names.skip(i as int).drop_first() =~= names.skip(i + 1));
        match expand_items_of(&mut values, lists[i]) {
            Ok(()) => {},
            Err(message) => {
                return Err(message);
            },
        }
        i = i + 1;
    }
    let ghost listed = field_views(values@);
    assert(names.skip(i as int).len() == 0);
    assert(with_all_items_expanded(first, names) == Ok::<Seq<(Seq<char>, JsonView)>, Seq<char>>(
        listed,
    ));
    let documents = find_document_names(&values);
    let ghost wanted = document_names(listed);
    let unread: Result<String, String> = Err("not read".to_owned());
    let mut k: usize = 0;
    let mut used: usize = 0;
    assert(wanted.skip(0) =~= wanted);
    assert(given.skip(0) =~= given);
    while k < documents.len()
        invariant
            k <= documents@.len(),
            used <= files@.len(),
            unread matches Err(message) && message@ == "not read"@,
            first == field_views(raw@),
            given == read_views(files@),
            names == structured_names(),
            with_all_items_expanded(first, names) == Ok::<Seq<(Seq<char>, JsonView)>, Seq<char>>(
                listed,
            ),
            wanted == document_names(listed),
            wanted == crate::text::views(documents@),
            with_documents(listed, wanted, given) == with_documents(
                field_views(values@),
                wanted.skip(k as int),
                given.skip(used as int),
            ),
        decreases documents@.len() - k,
    {
        let name = documents[k].as_str();
        assert(wanted[k as int] == name@);
        assert(wanted.skip(k as int)[0] == wanted[k as int]);
        assert(wanted.skip(k as int).drop_first() =~= wanted.skip(k + 1));
        let file = if used < files.len() {
            assert(given.skip(used as int)[0] == given[used as int]);
            &files[used]
        } else {
            &unread
        };
        assert(next_file(given.skip(used as int)) == match *file {
            Ok(text) => Ok::<Seq<char>, Seq<char>>(text@),
            Err(message) => Err::<Seq<char>, Seq<char>>(message@),
        });
        match read_document(&mut values, name, file) {
            Ok(()) => {},
            Err(message) => {
                return Err(message);
            },
        }
        if !str_ends_with(name, "_json") && used < files.len() {
            assert(given.skip(used as int).drop_first() =~= given.skip(used + 1));
            used = used + 1;
        }
        k = k + 1;
    }
    assert(wanted.skip(k as int).len() == 0);
    Ok(values)
}

// ---------------------------------------------------------------------------
// Switches that are turned off
// ---------------------------------------------------------------------------

/// The last part of a dotted name.
pub open spec fn last_part(name: Seq<char>) -> Seq<char> {
    match split_at_last(name, '.') {
        Some((_, last)) => last,
        None => name,
    }
}

/// The name of a switch that is on when something is off.
pub open spec fn is_negative(name: Seq<char>) -> bool {
    "no_"@.is_prefix_of(last_part(name))
}

pub open spec fn without_beginnings(name: Seq<char>, beginning: Seq<char>) -> Seq<char>
    decreases name.len(),
{
    if beginning.len() > 0 && beginning.is_prefix_of(name) {
        without_beginnings(name.skip(beginning.len() as int), beginning)
    } else {
        name
    }
}

/// The name of what is off.
pub open spec fn positive_name(name: Seq<char>) -> Seq<char> {
    match split_at_last(name, '.') {
        Some((prefix, last)) => prefix + "."@ + without_beginnings(last, "no_"@),
        None => without_beginnings(name, "no_"@),
    }
}

pub open spec fn without_audio_switch(raw: Seq<(Seq<char>, JsonView)>) -> Seq<
    (Seq<char>, JsonView),
> {
    let rest = without(raw, "exclude_audio"@);
    if place_value(raw, "exclude_audio"@) == Some(JsonView::Bool(true)) {
        put(rest, "include_audio"@, JsonView::Bool(false))
    } else {
        rest
    }
}

/// The negative switches that are on, in order.
pub open spec fn negatives(raw: Seq<(Seq<char>, JsonView)>) -> Seq<Seq<char>>
    decreases raw.len(),
{
    if raw.len() == 0 {
        Seq::empty()
    } else {
        let rest = negatives(raw.drop_last());
        if raw.last().1 == JsonView::Bool(true) && is_negative(raw.last().0) {
            rest.push(raw.last().0)
        } else {
            rest
        }
    }
}

/// The arguments with each of these switches turned into what it turns off.
pub open spec fn turned_off(raw: Seq<(Seq<char>, JsonView)>, names: Seq<Seq<char>>) -> Seq<
    (Seq<char>, JsonView),
>
    decreases names.len(),
{
    if names.len() == 0 {
        raw
    } else {
        turned_off(
            put(without(raw, names[0]), positive_name(names[0]), JsonView::Bool(false)),
            names.drop_first(),
        )
    }
}

pub open spec fn without_negatives(raw: Seq<(Seq<char>, JsonView)>) -> Seq<(Seq<char>, JsonView)> {
    let rest = without_audio_switch(raw);
    turned_off(rest, negatives(rest))
}

fn strip_beginnings(name: &str, beginning: &str) -> (r: String)
    requires
        beginning@.len() > 0,
    ensures
        r@ == without_beginnings(name@, beginning@),
    decreases name@.len(),
{
    match str_strip_prefix(name, beginning) {
        Some(rest) => {
            assert(rest@ =~= name@.skip(beginning@.len() as int));
            strip_beginnings(rest.as_str(), beginning)
        },
        None => name.to_owned(),
    }
}

fn name_is_negative(name: &str) -> (r: bool)
    ensures
        r == is_negative(name@),
{
    match str_rsplit_once(name, '.') {
        Some((_, last)) => str_starts_with(last.as_str(), "no_"),
        None => str_starts_with(name, "no_"),
    }
}

fn positive_path(name: &str) -> (r: String)
    ensures
        r@ == positive_name(name@),
{
    proof {
        reveal_strlit("no_");
    }
    match str_rsplit_once(name, '.') {
        Some((prefix, last)) => {
            let last = strip_beginnings(last.as_str(), "no_");
            join3(prefix.as_str(), ".", last.as_str())
        },
        None => strip_beginnings(name, "no_"),
    }
}

fn find_negatives(raw: &Vec<(String, Json)>) -> (r: Vec<String>)
    ensures
        crate::text::views(r@) == negatives(field_views(raw@)),
{
    let ghost all = field_views(raw@);
    let mut r: Vec<String> = Vec::new();
    let mut i: usize = 0;
    assert(crate::text::views(r@) =~= Seq::<Seq<char>>::empty());
    while i < raw.len()
        invariant
            i <= raw@.len(),
            all == field_views(raw@),
            crate::text::views(r@) == negatives(all.take(i as int)),
        decreases raw@.len() - i,
    {
        assert(all.take(i + 1).drop_last() =~= all.take(i as int));
        assert(all[i as int] == (raw@[i as int].0@, raw@[i as int].1@));
        let on = match raw[i].1 {
            Json::Bool(on) => on,
            _ => false,
        };
        let name = raw[i].0.as_str();
        if on && name_is_negative(name) {
            let ghost before = r@;
            r.push(name.to_owned());
            assert(crate::text::views(r@) =~= crate::text::views(before).push(name@));
        }
        i = i + 1;
    }
    assert(all.take(all.len() as int) =~= all);
    r
}

/// Turns each negative switch that is on into what it turns off.
pub fn normalize_negative_bool_pairs(raw: &mut Vec<(String, Json)>)
    ensures
        field_views(final(raw)@) == without_negatives(field_views(old(raw)@)),
{
    let excluded = match take_field(raw, "exclude_audio") {
        Some(Json::Bool(on)) => on,
        _ => false,
    };
    if excluded {
        put_field(raw, "include_audio".to_owned(), Json::Bool(false));
    }
    let ghost rest = field_views(raw@);
    assert(rest == without_audio_switch(field_views(old(raw)@)));
    let names = find_negatives(raw);
    let ghost all = negatives(rest);
    let mut i: usize = 0;
    assert(all.skip(0) =~= all);
    while i < names.len()
        invariant
            i <= names@.len(),
            rest == without_audio_switch(field_views(old(raw)@)),
            all == negatives(rest),
            all == crate::text::views(names@),
            turned_off(rest, all) == turned_off(field_views(raw@), all.skip(i as int)),
        decreases names@.len() - i,
    {
        let name = names[i].as_str();
        assert(all[i as int] == name@);
        assert(all.skip(i as int)[0] == all[i as int]);
        assert(all.skip(i as int).drop_first() =~= all.skip(i + 1));
        let _ = take_field(raw, name);
        put_field(raw, positive_path(name), Json::Bool(false));
        i = i + 1;
    }
    assert(all.skip(i as int).len() == 0);
}

// ---------------------------------------------------------------------------
// Canonical names
// ---------------------------------------------------------------------------

pub open spec fn makes_images(task: InferenceTask) -> bool {
    task is ImageGeneration || task is ImageEditing || task is ImageVariation || task
        is ImageInpainting || task is ImageOutpainting || task is ImageUpscaling
}

pub open spec fn makes_videos(task: InferenceTask) -> bool {
    task is VideoGeneration || task is ImageToVideo || task is VideoToVideo || task
        is VideoInpainting || task is VideoExtension || task is VideoUpscaling || task
        is FrameInterpolation
}

pub open spec fn makes_songs(task: InferenceTask) -> bool {
    task is AudioGeneration || task is MusicGeneration || task is SongContinuation || task
        is SongVariation
}

fn task_makes_images(task: InferenceTask) -> (r: bool)
    ensures
        r == makes_images(task),
{
    match task {
        InferenceTask::ImageGeneration => true,
        InferenceTask::ImageEditing => true,
        InferenceTask::ImageVariation => true,
        InferenceTask::ImageInpainting => true,
        InferenceTask::ImageOutpainting => true,
        InferenceTask::ImageUpscaling => true,
        _ => false,
    }
}

fn task_makes_videos(task: InferenceTask) -> (r: bool)
    ensures
        r == makes_videos(task),
{
    match task {
        InferenceTask::VideoGeneration => true,
        InferenceTask::ImageToVideo => true,
        InferenceTask::VideoToVideo => true,
        InferenceTask::VideoInpainting => true,
        InferenceTask::VideoExtension => true,
        InferenceTask::VideoUpscaling => true,
        InferenceTask::FrameInterpolation => true,
        _ => false,
    }
}

fn task_makes_songs(task: InferenceTask) -> (r: bool)
    ensures
        r == makes_songs(task),
{
    match task {
        InferenceTask::AudioGeneration => true,
        InferenceTask::MusicGeneration => true,
        InferenceTask::SongContinuation => true,
        InferenceTask::SongVariation => true,
        _ => false,
    }
}

/// The canonical name of an argument for images.
pub open spec fn image_name(name: Seq<char>) -> Seq<char> {
    if name == "image_vae_tiling"@ {
        "vae_tiling"@
    } else if name == "image_vae_slicing"@ {
        "vae_slicing"@
    } else if name == "post_upscale"@ {
        "post_upscaling"@
    } else {
        name
    }
}

fn canonical_image_name(name: &str) -> (r: String)
    ensures
        r@ == image_name(name@),
{
    if str_eq(name, "image_vae_tiling") {
        "vae_tiling".to_owned()
    } else if str_eq(name, "image_vae_slicing") {
        "vae_slicing".to_owned()
    } else if str_eq(name, "post_upscale") {
        "post_upscaling".to_owned()
    } else {
        name.to_owned()
    }
}

/// The canonical name of an argument for songs and sounds.
pub open spec fn song_name(name: Seq<char>) -> Seq<char> {
    if name == "num_variations"@ {
        "variations"@
    } else if name == "bpm_min"@ {
        "tempo_min"@
    } else if name == "bpm_max"@ {
        "tempo_max"@
    } else if name == "vocal_register"@ {
        "register"@
    } else if name == "vocal_range"@ {
        "range"@
    } else if name == "vocal_language"@ {
        "language"@
    } else if name == "vocal_accent"@ {
        "accent"@
    } else if name == "vocal_delivery"@ {
        "delivery"@
    } else if name == "vocal_emotion"@ {
        "emotion"@
    } else if name == "vocal_power"@ {
        "power"@
    } else if name == "format"@ {
        "output_format"@
    } else {
        name
    }
}

fn canonical_song_name(name: &str) -> (r: String)
    ensures
        r@ == song_name(name@),
{
    if str_eq(name, "num_variations") {
        "variations".to_owned()
    } else if str_eq(name, "bpm_min") {
        "tempo_min".to_owned()
    } else if str_eq(name, "bpm_max") {
        "tempo_max".to_owned()
    } else if str_eq(name, "vocal_register") {
        "register".to_owned()
    } else if str_eq(name, "vocal_range") {
        "range".to_owned()
    } else if str_eq(name, "vocal_language") {
        "language".to_owned()
    } else if str_eq(name, "vocal_accent") {
        "accent".to_owned()
    } else if str_eq(name, "vocal_delivery") {
        "delivery".to_owned()
    } else if str_eq(name, "vocal_emotion") {
        "emotion".to_owned()
    } else if str_eq(name, "vocal_power") {
        "power".to_owned()
    } else if str_eq(name, "format") {
        "output_format".to_owned()
    } else {
        name.to_owned()
    }
}

/// The canonical name of an argument of a task.
pub open spec fn task_name(task: InferenceTask, name: Seq<char>) -> Seq<char> {
    if makes_images(task) {
        image_name(name)
    } else if makes_videos(task) {
        if name == "loop"@ {
            "looping"@
        } else {
            name
        }
    } else if makes_songs(task) {
        song_name(name)
    } else if (task is SpeechToText || task is SpeechTranslation) && name == "task"@ {
        "operation"@
    } else if task is TextToSpeech && name == "loudness_lufs"@ {
        "loudness"@
    } else if (task is TextToSpeech || task is StemSeparation) && name == "format"@ {
        "output_format"@
    } else {
        name
    }
}

/// The full name of an argument: a dotted one stands for itself, any other gets
/// its canonical name in the namespace of the task.
pub open spec fn canonical_path(task: InferenceTask, namespace: Seq<char>, path: Seq<char>) -> Seq<
    char,
> {
    let name = replaced(path, '-', '_');
    if name.contains('.') {
        name
    } else {
        namespace + "."@ + task_name(task, name)
    }
}

/// The full name of an argument of a task with this namespace.
pub fn normalize_media_parameter_path(task: InferenceTask, namespace: &str, path: &str) -> (r:
    String)
    ensures
        r@ == canonical_path(task, namespace@, path@),
{
    let name = str_replace_char(path, '-', '_');
    if str_contains_char(name.as_str(), '.') {
        return name;
    }
    let canonical = if task_makes_images(task) {
        canonical_image_name(name.as_str())
    } else if task_makes_videos(task) {
        if str_eq(name.as_str(), "loop") {
            "looping".to_owned()
        } else {
            name
        }
    } else if task_makes_songs(task) {
        canonical_song_name(name.as_str())
    } else if (task == InferenceTask::SpeechToText || task == InferenceTask::SpeechTranslation)
        && str_eq(name.as_str(), "task") {
        "operation".to_owned()
    } else if task == InferenceTask::TextToSpeech && str_eq(name.as_str(), "loudness_lufs") {
        "loudness".to_owned()
    } else if (task == InferenceTask::TextToSpeech || task == InferenceTask::StemSeparation)
        && str_eq(name.as_str(), "format") {
        "output_format".to_owned()
    } else {
        name
    };
    join3(namespace, ".", canonical.as_str())
}

// ---------------------------------------------------------------------------
// The whole
// ---------------------------------------------------------------------------

/// The arguments without these.
pub open spec fn without_all(raw: Seq<(Seq<char>, JsonView)>, names: Seq<Seq<char>>) -> Seq<
    (Seq<char>, JsonView),
>
    decreases names.len(),
{
    if names.len() == 0 {
        raw
    } else {
        without_all(without(raw, names[0]), names.drop_first())
    }
}

/// The arguments with these in their place, in order.
pub open spec fn with_all(
    raw: Seq<(Seq<char>, JsonView)>,
    more: Seq<(Seq<char>, JsonView)>,
) -> Seq<(Seq<char>, JsonView)>
    decreases more.len(),
{
    if more.len() == 0 {
        raw
    } else {
        with_all(put(raw, more[0].0, more[0].1), more.drop_first())
    }
}

/// The same values under their canonical names; of two that come to the same
/// name the later one stays.
pub open spec fn renamed(
    done: Seq<(Seq<char>, JsonView)>,
    raw: Seq<(Seq<char>, JsonView)>,
    task: InferenceTask,
    namespace: Seq<char>,
) -> Seq<(Seq<char>, JsonView)>
    decreases raw.len(),
{
    if raw.len() == 0 {
        done
    } else {
        renamed(
            put(done, canonical_path(task, namespace, raw[0].0), raw[0].1),
            raw.drop_first(),
            task,
            namespace,
        )
    }
}

/// The parameters of a request.
pub open spec fn parameters_of(
    raw: Seq<(Seq<char>, JsonView)>,
    set: Seq<(Seq<char>, JsonView)>,
    files: Seq<Result<Seq<char>, Seq<char>>>,
    task: InferenceTask,
    namespace: Seq<char>,
) -> Result<Seq<(Seq<char>, JsonView)>, Seq<char>> {
    let own = without_all(raw, transport_names() + routing_names());
    match expanded(own, files) {
        Ok(values) => Ok(
            renamed(Seq::empty(), without_negatives(with_all(values, set)), task, namespace),
        ),
        Err(message) => Err(message),
    }
}

fn drop_names(raw: &mut Vec<(String, Json)>, names: &Vec<&'static str>)
    ensures
        field_views(final(raw)@) == without_all(field_views(old(raw)@), names_of(names@)),
{
    let ghost first = field_views(raw@);
    let ghost all = names_of(names@);
    let mut i: usize = 0;
    assert(all.skip(0) =~= all);
    while i < names.len()
        invariant
            i <= names@.len(),
            first == field_views(old(raw)@),
            all == names_of(names@),
            without_all(first, all) == without_all(field_views(raw@), all.skip(i as int)),
        decreases names@.len() - i,
    {
        assert(all[i as int] == names@[i as int]@);
        assert(all.skip(i as int)[0] == all[i as int]);
        assert(all.skip(i as int).drop_first() =~= all.skip(i + 1));
        let _ = take_field(raw, names[i]);
        i = i + 1;
    }
    assert(all.skip(i as int).len() == 0);
}

proof fn lemma_without_all_joins(
    raw: Seq<(Seq<char>, JsonView)>,
    a: Seq<Seq<char>>,
    b: Seq<Seq<char>>,
)
    ensures
        without_all(raw, a + b) == without_all(without_all(raw, a), b),
    decreases a.len(),
{
    if a.len() == 0 {
        assert(a + b =~= b);
    } else {
        assert((a + b).drop_first() =~= a.drop_first() + b);
        lemma_without_all_joins(without(raw, a[0]), a.drop_first(), b);
    }
}

/// The arguments that are parameters: those that a request carries in a place of
/// its own, and those that decide where it is run, are none.
pub fn own_parameters(raw: &mut Vec<(String, Json)>)
    ensures
        field_views(final(raw)@) == without_all(
            field_views(old(raw)@),
            transport_names() + routing_names(),
        ),
{
    let ghost first = field_views(raw@);
    drop_names(raw, &media_transport_fields());
    drop_names(raw, &media_routing_fields());
    proof {
        lemma_without_all_joins(first, transport_names(), routing_names());
    }
}

/// The parameters of a request, by canonical name: what was given by name, what
/// was written out or stands in files, and what was set outright, which wins over the
/// same name.
/// `files` are the texts of the files that `structured_media_files` names of the
/// arguments that `own_parameters` leaves.
pub fn media_parameters(
    raw: Vec<(String, Json)>,
    set: Vec<(String, Json)>,
    files: &Vec<Result<String, String>>,
    task: InferenceTask,
    namespace: &str,
) -> (r: Result<Vec<(String, Json)>, String>)
    ensures
        match r {
            Ok(parameters) => parameters_of(
                field_views(raw@),
                field_views(set@),
                read_views(files@),
                task,
                namespace@,
            ) == Ok::<Seq<(Seq<char>, JsonView)>, Seq<char>>(field_views(parameters@)),
            Err(message) => parameters_of(
                field_views(raw@),
                field_views(set@),
                read_views(files@),
                task,
                namespace@,
            ) == Err::<Seq<(Seq<char>, JsonView)>, Seq<char>>(message@),
        },
{
    let mut values = raw;
    own_parameters(&mut values);
    let mut values = match expand_structured_media_values(values, files) {
        Ok(values) => values,
        Err(message) => {
            return Err(message);
        },
    };
    let ghost base = field_views(values@);
    let ghost more = field_views(set@);
    let mut rest = set;
    let ghost mut n: int = 0;
    assert(more.skip(0) =~= more);
    while rest.len() > 0
        invariant
            0 <= n <= more.len(),
            field_views(rest@) == more.skip(n),
            with_all(base, more) == with_all(field_views(values@), more.skip(n)),
        decreases rest@.len(),
    {
        let ghost left = rest@;
        assert(field_views(left).len() == left.len());
        let (name, value) = rest.remove(0);
        proof {
            assert(field_views(left)[0] == (name@, value@));
            assert(more.skip(n)[0] == (name@, value@));
            assert(field_views(rest@) =~= more.skip(n).drop_first());
            assert(more.skip(n).drop_first() =~= more.skip(n + 1));
        }
        put_field(&mut values, name, value);
        proof {
            n = n + 1;
        }
    }
    assert(more.skip(n).len() == 0);
    normalize_negative_bool_pairs(&mut values);
    let ghost plain = field_views(values@);
    let mut parameters: Vec<(String, Json)> = Vec::new();
    let mut rest = values;
    let ghost mut k: int = 0;
    assert(plain.skip(0) =~= plain);
    assert(field_views(parameters@) =~= Seq::empty());
    while rest.len() > 0
        invariant
            0 <= k <= plain.len(),
            field_views(rest@) == plain.skip(k),
            renamed(Seq::empty(), plain, task, namespace@) == renamed(
                field_views(parameters@),
                plain.skip(k),
                task,
                namespace@,
            ),
        decreases rest@.len(),
    {
        let ghost left = rest@;
        assert(field_views(left).len() == left.len());
        let (name, value) = rest.remove(0);
        proof {
            assert(field_views(left)[0] == (name@, value@));
            assert(plain.skip(k)[0] == (name@, value@));
            assert(field_views(rest@) =~= plain.skip(k).drop_first());
            assert(plain.skip(k).drop_first() =~= plain.skip(k + 1));
        }
        let path = normalize_media_parameter_path(task, namespace, name.as_str());
        put_field(&mut parameters, path, value);
        proof {
            k = k + 1;
        }
    }
    assert(plain.skip(k).len() == 0);
    Ok(parameters)
}

// ---------------------------------------------------------------------------
// What holds of all parameters
// ---------------------------------------------------------------------------

/// Every canonical name is dotted.
pub proof fn canonical_names_are_dotted(task: InferenceTask, namespace: Seq<char>, path: Seq<char>)
    ensures
        canonical_path(task, namespace, path).contains('.'),
{
    let name = replaced(path, '-', '_');
    if !name.contains('.') {
        reveal_strlit(".");
        let full = namespace + "."@ + task_name(task, name);
        assert(full[namespace.len() as int] == '.');
    }
}

/// A canonical name stands for itself.
pub proof fn canonical_names_are_settled(task: InferenceTask, namespace: Seq<char>, path: Seq<char>)
    requires
        !namespace.contains('-'),
    ensures
        canonical_path(task, namespace, canonical_path(task, namespace, path)) == canonical_path(
            task,
            namespace,
            path,
        ),
{
    canonical_names_are_dotted(task, namespace, path);
    let full = canonical_path(task, namespace, path);
    let name = replaced(path, '-', '_');
    lemma_replaced_has_none(path);
    assert forall|i: int| 0 <= i < full.len() implies full[i] != '-' by {
        if !name.contains('.') {
            lemma_task_name_has_no_hyphen(task, name);
            reveal_strlit(".");
            let n = namespace.len() as int;
            if i < n {
                assert(namespace[i] == full[i]);
            } else if i > n {
                assert(full[i] == task_name(task, name)[i - n - 1]);
            }
        }
    }
    lemma_replaced_unchanged(full);
}

proof fn lemma_replaced_has_none(s: Seq<char>)
    ensures
        !replaced(s, '-', '_').contains('-'),
        forall|i: int| 0 <= i < replaced(s, '-', '_').len() ==> replaced(s, '-', '_')[i] != '-',
{
}

proof fn lemma_replaced_unchanged(s: Seq<char>)
    requires
        forall|i: int| 0 <= i < s.len() ==> s[i] != '-',
    ensures
        replaced(s, '-', '_') == s,
{
    assert(replaced(s, '-', '_') =~= s);
}

proof fn lemma_task_name_has_no_hyphen(task: InferenceTask, name: Seq<char>)
    requires
        forall|i: int| 0 <= i < name.len() ==> name[i] != '-',
    ensures
        forall|i: int| 0 <= i < task_name(task, name).len() ==> task_name(task, name)[i] != '-',
{
    reveal_strlit("vae_tiling");
    reveal_strlit("vae_slicing");
    reveal_strlit("post_upscaling");
    reveal_strlit("variations");
    reveal_strlit("tempo_min");
    reveal_strlit("tempo_max");
    reveal_strlit("register");
    reveal_strlit("range");
    reveal_strlit("language");
    reveal_strlit("accent");
    reveal_strlit("delivery");
    reveal_strlit("emotion");
    reveal_strlit("power");
    reveal_strlit("output_format");
    reveal_strlit("looping");
    reveal_strlit("operation");
    reveal_strlit("loudness");
}

pub open spec fn is_on(raw: Seq<(Seq<char>, JsonView)>, name: Seq<char>) -> bool {
    lookup(raw, name) == Some(JsonView::Bool(true))
}

/// No negative switch is left on.
pub proof fn no_negative_switch_stays_on(raw: Seq<(Seq<char>, JsonView)>, name: Seq<char>)
    requires
        ascending(raw),
        is_negative(name),
    ensures
        !is_on(without_negatives(raw), name),
        ascending(without_negatives(raw)),
{
    removed_names_are_gone(raw, "exclude_audio"@);
    put_values_are_found(
        without(raw, "exclude_audio"@),
        "include_audio"@,
        JsonView::Bool(false),
    );
    let rest = without_audio_switch(raw);
    assert forall|n: Seq<char>| #[trigger] is_on(rest, n) && is_negative(n) implies negatives(
        rest,
    ).contains(n) by {
        lemma_negatives_hold(rest, n);
    }
    lemma_turned_off(rest, negatives(rest), name);
}

proof fn lemma_negatives_hold(raw: Seq<(Seq<char>, JsonView)>, name: Seq<char>)
    requires
        is_on(raw, name),
        is_negative(name),
    ensures
        negatives(raw).contains(name),
{
    lemma_lookup_index(raw, name);
    let i = choose|i: int|
        0 <= i < raw.len() && raw[i].0 == name && raw[i].1 == JsonView::Bool(true);
    lemma_negatives_hold_at(raw, i);
}

proof fn lemma_lookup_index(raw: Seq<(Seq<char>, JsonView)>, name: Seq<char>)
    requires
        is_on(raw, name),
    ensures
        exists|i: int|
            0 <= i < raw.len() && #[trigger] raw[i].0 == name && raw[i].1 == JsonView::Bool(true),
    decreases raw.len(),
{
    if raw.len() > 0 {
        if raw[0].0 == name {
            assert(raw[0].0 == name);
        } else {
            let rest = raw.drop_first();
            lemma_lookup_index(rest, name);
            let i = choose|i: int|
                0 <= i < rest.len() && #[trigger] rest[i].0 == name && rest[i].1 == JsonView::Bool(
                    true,
                );
            assert(raw[i + 1].0 == name);
        }
    }
}

proof fn lemma_negatives_hold_at(raw: Seq<(Seq<char>, JsonView)>, i: int)
    requires
        0 <= i < raw.len(),
        raw[i].1 == JsonView::Bool(true),
        is_negative(raw[i].0),
    ensures
        negatives(raw).contains(raw[i].0),
    decreases raw.len(),
{
    let rest = negatives(raw.drop_last());
    if i == raw.len() - 1 {
        assert(negatives(raw).last() == raw[i].0);
    } else {
        lemma_negatives_hold_at(raw.drop_last(), i);
        let k = choose|k: int| 0 <= k < rest.len() && rest[k] == raw[i].0;
        assert(negatives(raw)[k] == raw[i].0);
    }
}

proof fn lemma_turned_off(
    raw: Seq<(Seq<char>, JsonView)>,
    names: Seq<Seq<char>>,
    name: Seq<char>,
)
    requires
        ascending(raw),
        is_negative(name),
        forall|n: Seq<char>| #[trigger] is_on(raw, n) && is_negative(n) ==> names.contains(n),
    ensures
        !is_on(turned_off(raw, names), name),
        ascending(turned_off(raw, names)),
    decreases names.len(),
{
    if names.len() > 0 {
        let rest = without(raw, names[0]);
        let positive = positive_name(names[0]);
        let next = put(rest, positive, JsonView::Bool(false));
        removed_names_are_gone(raw, names[0]);
        put_values_are_found(rest, positive, JsonView::Bool(false));
        let left = names.drop_first();
        assert forall|n: Seq<char>| #[trigger] is_on(next, n) && is_negative(n) implies left.contains(
            n,
        ) by {
            assert(n != positive);
            assert(lookup(next, n) == lookup(rest, n));
            assert(n != names[0]);
            assert(is_on(raw, n));
            let k = choose|k: int| 0 <= k < names.len() && names[k] == n;
            assert(names.contains(n));
            assert(left[k - 1] == n);
        }
        lemma_turned_off(next, left, name);
    } else {
        assert(!names.contains(name));
    }
}

/// What a request carries elsewhere is no parameter.
pub proof fn dropped_names_are_gone(
    raw: Seq<(Seq<char>, JsonView)>,
    names: Seq<Seq<char>>,
    name: Seq<char>,
)
    requires
        ascending(raw),
    ensures
        ascending(without_all(raw, names)),
        lookup(without_all(raw, names), name) == if names.contains(name) {
            None
        } else {
            lookup(raw, name)
        },
    decreases names.len(),
{
    if names.len() > 0 {
        let rest = without(raw, names[0]);
        let left = names.drop_first();
        removed_names_are_gone(raw, names[0]);
        dropped_names_are_gone(rest, left, name);
        if left.contains(name) {
            let k = choose|k: int| 0 <= k < left.len() && left[k] == name;
            assert(names[k + 1] == name);
        } else if names.contains(name) {
            let k = choose|k: int| 0 <= k < names.len() && names[k] == name;
            if k > 0 {
                assert(left[k - 1] == name);
            }
            assert(names[0] == name);
        } else {
            assert(names[0] != name) by {
                if names[0] == name {
                    assert(names.contains(name));
                }
            }
        }
    }
}

/// What is set outright wins over what was given, and the last setting of a name
/// over the others.
pub proof fn settings_win(
    raw: Seq<(Seq<char>, JsonView)>,
    set: Seq<(Seq<char>, JsonView)>,
    i: int,
)
    requires
        ascending(raw),
        0 <= i < set.len(),
        forall|j: int| i < j < set.len() ==> (#[trigger] set[j]).0 != set[i].0,
    ensures
        lookup(with_all(raw, set), set[i].0) == Some(set[i].1),
        ascending(with_all(raw, set)),
    decreases set.len(),
{
    let next = put(raw, set[0].0, set[0].1);
    let rest = set.drop_first();
    put_values_are_found(raw, set[0].0, set[0].1);
    if i > 0 {
        assert forall|j: int| i - 1 < j < rest.len() implies (#[trigger] rest[j]).0 != rest[i
            - 1].0 by {
            assert(rest[j] == set[j + 1]);
        }
        settings_win(next, rest, i - 1);
    } else {
        assert forall|j: int| 0 <= j < rest.len() implies (#[trigger] rest[j]).0 != set[0].0 by {
            assert(rest[j] == set[j + 1]);
        }
        lemma_others_stay(next, rest, set[0].0);
    }
}

proof fn lemma_others_stay(
    raw: Seq<(Seq<char>, JsonView)>,
    set: Seq<(Seq<char>, JsonView)>,
    name: Seq<char>,
)
    requires
        ascending(raw),
        forall|j: int| 0 <= j < set.len() ==> (#[trigger] set[j]).0 != name,
    ensures
        lookup(with_all(raw, set), name) == lookup(raw, name),
        ascending(with_all(raw, set)),
    decreases set.len(),
{
    if set.len() > 0 {
        put_values_are_found(raw, set[0].0, set[0].1);
        let rest = set.drop_first();
        assert forall|j: int| 0 <= j < rest.len() implies (#[trigger] rest[j]).0 != name by {
            assert(rest[j] == set[j + 1]);
        }
        lemma_others_stay(put(raw, set[0].0, set[0].1), rest, name);
    }
}

// ---------------------------------------------------------------------------
// What parameters are for
// ---------------------------------------------------------------------------

/// What names a model, a text, a file or a place to run is no parameter of the model.
pub proof fn words_of_the_command_line_are_no_parameters(raw: Seq<(Seq<char>, JsonView)>)
    requires
        ascending(raw),
    ensures
        lookup(without_all(raw, transport_names() + routing_names()), "model"@) is None,
        lookup(without_all(raw, transport_names() + routing_names()), "prompt"@) is None,
        lookup(without_all(raw, transport_names() + routing_names()), "prompt_file"@) is None,
        lookup(without_all(raw, transport_names() + routing_names()), "negative_prompt"@) is None,
        lookup(without_all(raw, transport_names() + routing_names()), "negative_prompt_file"@) is None,
        lookup(without_all(raw, transport_names() + routing_names()), "text"@) is None,
        lookup(without_all(raw, transport_names() + routing_names()), "text_file"@) is None,
        lookup(without_all(raw, transport_names() + routing_names()), "lyrics_file"@) is None,
        lookup(without_all(raw, transport_names() + routing_names()), "image"@) is None,
        lookup(without_all(raw, transport_names() + routing_names()), "init_image"@) is None,
        lookup(without_all(raw, transport_names() + routing_names()), "mask"@) is None,
        lookup(without_all(raw, transport_names() + routing_names()), "video"@) is None,
        lookup(without_all(raw, transport_names() + routing_names()), "input_audio"@) is None,
        lookup(without_all(raw, transport_names() + routing_names()), "source_audio"@) is None,
        lookup(without_all(raw, transport_names() + routing_names()), "reference_audio"@) is None,
        lookup(without_all(raw, transport_names() + routing_names()), "instrumental_audio"@) is None,
        lookup(without_all(raw, transport_names() + routing_names()), "vocal_audio"@) is None,
        lookup(without_all(raw, transport_names() + routing_names()), "melody_audio"@) is None,
        lookup(without_all(raw, transport_names() + routing_names()), "rhythm_audio"@) is None,
        lookup(without_all(raw, transport_names() + routing_names()), "chord_audio"@) is None,
        lookup(without_all(raw, transport_names() + routing_names()), "initial_image"@) is None,
        lookup(without_all(raw, transport_names() + routing_names()), "output"@) is None,
        lookup(without_all(raw, transport_names() + routing_names()), "output_path"@) is None,
        lookup(without_all(raw, transport_names() + routing_names()), "accelerator"@) is None,
        lookup(without_all(raw, transport_names() + routing_names()), "precision"@) is None,
        lookup(without_all(raw, transport_names() + routing_names()), "quantization"@) is None,
        lookup(without_all(raw, transport_names() + routing_names()), "profile"@) is None,
        lookup(without_all(raw, transport_names() + routing_names()), "quality"@) is None,
        lookup(without_all(raw, transport_names() + routing_names()), "performance_preference"@) is None,
        lookup(without_all(raw, transport_names() + routing_names()), "fallback_policy"@) is None,
        lookup(without_all(raw, transport_names() + routing_names()), "parameter_policy"@) is None,
        lookup(without_all(raw, transport_names() + routing_names()), "allow_cpu_offload"@) is None,
        lookup(without_all(raw, transport_names() + routing_names()), "no_allow_cpu_offload"@) is None,
        lookup(without_all(raw, transport_names() + routing_names()), "allow_sequential_offload"@) is None,
        lookup(without_all(raw, transport_names() + routing_names()), "no_allow_sequential_offload"@) is None,
        lookup(without_all(raw, transport_names() + routing_names()), "allow_component_offload"@) is None,
        lookup(without_all(raw, transport_names() + routing_names()), "no_allow_component_offload"@) is None,
        lookup(without_all(raw, transport_names() + routing_names()), "allow_disk_offload"@) is None,
        lookup(without_all(raw, transport_names() + routing_names()), "no_allow_disk_offload"@) is None,
        lookup(without_all(raw, transport_names() + routing_names()), "attention_backend"@) is None,
        lookup(without_all(raw, transport_names() + routing_names()), "compile"@) is None,
        lookup(without_all(raw, transport_names() + routing_names()), "no_compile"@) is None,
        lookup(without_all(raw, transport_names() + routing_names()), "timeout"@) is None,
        lookup(without_all(raw, transport_names() + routing_names()), "set"@) is None,
{
    let names = transport_names() + routing_names();
    assert(names[0] == "model"@);
    dropped_names_are_gone(raw, names, "model"@);
    assert(names[1] == "prompt"@);
    dropped_names_are_gone(raw, names, "prompt"@);
    assert(names[2] == "prompt_file"@);
    dropped_names_are_gone(raw, names, "prompt_file"@);
    assert(names[3] == "negative_prompt"@);
    dropped_names_are_gone(raw, names, "negative_prompt"@);
    assert(names[4] == "negative_prompt_file"@);
    dropped_names_are_gone(raw, names, "negative_prompt_file"@);
    assert(names[5] == "text"@);
    dropped_names_are_gone(raw, names, "text"@);
    assert(names[6] == "text_file"@);
    dropped_names_are_gone(raw, names, "text_file"@);
    assert(names[7] == "lyrics_file"@);
    dropped_names_are_gone(raw, names, "lyrics_file"@);
    assert(names[8] == "image"@);
    dropped_names_are_gone(raw, names, "image"@);
    assert(names[9] == "init_image"@);
    dropped_names_are_gone(raw, names, "init_image"@);
    assert(names[10] == "mask"@);
    dropped_names_are_gone(raw, names, "mask"@);
    assert(names[11] == "video"@);
    dropped_names_are_gone(raw, names, "video"@);
    assert(names[12] == "input_audio"@);
    dropped_names_are_gone(raw, names, "input_audio"@);
    assert(names[13] == "source_audio"@);
    dropped_names_are_gone(raw, names, "source_audio"@);
    assert(names[14] == "reference_audio"@);
    dropped_names_are_gone(raw, names, "reference_audio"@);
    assert(names[15] == "instrumental_audio"@);
    dropped_names_are_gone(raw, names, "instrumental_audio"@);
    assert(names[16] == "vocal_audio"@);
    dropped_names_are_gone(raw, names, "vocal_audio"@);
    assert(names[17] == "melody_audio"@);
    dropped_names_are_gone(raw, names, "melody_audio"@);
    assert(names[18] == "rhythm_audio"@);
    dropped_names_are_gone(raw, names, "rhythm_audio"@);
    assert(names[19] == "chord_audio"@);
    dropped_names_are_gone(raw, names, "chord_audio"@);
    assert(names[20] == "initial_image"@);
    dropped_names_are_gone(raw, names, "initial_image"@);
    assert(names[21] == "output"@);
    dropped_names_are_gone(raw, names, "output"@);
    assert(names[22] == "output_path"@);
    dropped_names_are_gone(raw, names, "output_path"@);
    assert(names[23] == "accelerator"@);
    dropped_names_are_gone(raw, names, "accelerator"@);
    assert(names[24] == "precision"@);
    dropped_names_are_gone(raw, names, "precision"@);
    assert(names[25] == "quantization"@);
    dropped_names_are_gone(raw, names, "quantization"@);
    assert(names[26] == "profile"@);
    dropped_names_are_gone(raw, names, "profile"@);
    assert(names[27] == "quality"@);
    dropped_names_are_gone(raw, names, "quality"@);
    assert(names[28] == "performance_preference"@);
    dropped_names_are_gone(raw, names, "performance_preference"@);
    assert(names[29] == "fallback_policy"@);
    dropped_names_are_gone(raw, names, "fallback_policy"@);
    assert(names[30] == "parameter_policy"@);
    dropped_names_are_gone(raw, names, "parameter_policy"@);
    assert(names[31] == "allow_cpu_offload"@);
    dropped_names_are_gone(raw, names, "allow_cpu_offload"@);
    assert(names[32] == "no_allow_cpu_offload"@);
    dropped_names_are_gone(raw, names, "no_allow_cpu_offload"@);
    assert(names[33] == "allow_sequential_offload"@);
    dropped_names_are_gone(raw, names, "allow_sequential_offload"@);
    assert(names[34] == "no_allow_sequential_offload"@);
    dropped_names_are_gone(raw, names, "no_allow_sequential_offload"@);
    assert(names[35] == "allow_component_offload"@);
    dropped_names_are_gone(raw, names, "allow_component_offload"@);
    assert(names[36] == "no_allow_component_offload"@);
    dropped_names_are_gone(raw, names, "no_allow_component_offload"@);
    assert(names[37] == "allow_disk_offload"@);
    dropped_names_are_gone(raw, names, "allow_disk_offload"@);
    assert(names[38] == "no_allow_disk_offload"@);
    dropped_names_are_gone(raw, names, "no_allow_disk_offload"@);
    assert(names[39] == "attention_backend"@);
    dropped_names_are_gone(raw, names, "attention_backend"@);
    assert(names[40] == "compile"@);
    dropped_names_are_gone(raw, names, "compile"@);
    assert(names[41] == "no_compile"@);
    dropped_names_are_gone(raw, names, "no_compile"@);
    assert(names[42] == "timeout"@);
    dropped_names_are_gone(raw, names, "timeout"@);
    assert(names[43] == "set"@);
    dropped_names_are_gone(raw, names, "set"@);
}

/// What is no word of the command line stays as it is.
pub proof fn other_words_stay(raw: Seq<(Seq<char>, JsonView)>, name: Seq<char>)
    requires
        ascending(raw),
        !transport_names().contains(name),
        !routing_names().contains(name),
    ensures
        lookup(without_all(raw, transport_names() + routing_names()), name) == lookup(raw, name),
        transport_names().len() == 23,
        routing_names().len() == 21,
{
    let names = transport_names() + routing_names();
    dropped_names_are_gone(raw, names, name);
    if names.contains(name) {
        let i = choose|i: int| 0 <= i < names.len() && names[i] == name;
        if i < transport_names().len() {
            assert(transport_names()[i] == name);
        } else {
            assert(routing_names()[i - transport_names().len()] == name);
        }
    }
}

/// The lists whose items may be written as fields.
pub proof fn structured_lists_are_known()
    ensures
        structured_names().contains("controls"@),
        structured_names().contains("loras"@),
        structured_names().contains("adapters"@),
        structured_names().contains("camera_keyframes"@),
        structured_names().contains("prompt_keyframes"@),
        structured_names().contains("guidance_schedule"@),
        structured_names().contains("denoise_schedule"@),
        structured_names().contains("adapter_schedule"@),
        structured_names().contains("instruments"@),
        structured_names().contains("mix_controls"@),
        structured_names().contains("mastering_controls"@),
        structured_names().len() == 11,
{
    assert(structured_names()[0] == "controls"@);
    assert(structured_names()[1] == "loras"@);
    assert(structured_names()[2] == "adapters"@);
    assert(structured_names()[3] == "camera_keyframes"@);
    assert(structured_names()[4] == "prompt_keyframes"@);
    assert(structured_names()[5] == "guidance_schedule"@);
    assert(structured_names()[6] == "denoise_schedule"@);
    assert(structured_names()[7] == "adapter_schedule"@);
    assert(structured_names()[8] == "instruments"@);
    assert(structured_names()[9] == "mix_controls"@);
    assert(structured_names()[10] == "mastering_controls"@);
}

/// An item is taken apart where it is a text with an equals sign in it; what each field
/// holds stands behind its name, and no name stands twice.
pub proof fn items_are_written_as_fields(
    fields: Seq<(Seq<char>, JsonView)>,
    name: Seq<char>,
    value: Seq<char>,
    item: JsonView,
)
    requires
        ascending(fields),
        !name.contains('='),
        !name.contains('-'),
        trimmed(name) == name,
        trimmed(value) == value,
    ensures
        !(item is Text) ==> expanded_item(item) == Ok::<JsonView, Seq<char>>(item),
        item == JsonView::Text(value) && !value.contains('=') ==> expanded_item(item) == Ok::<
            JsonView,
            Seq<char>,
        >(item),
        item == JsonView::Text(value) && value.contains('=') ==> (expanded_item(item) matches Ok(
            after,
        ) ==> after is Object),
        ({
            let r = with_written_field(fields, name + seq!['='] + value);
            &&& r is Ok <==> name.len() > 0 && value.len() > 0 && lookup(fields, name) is None
            &&& r is Ok ==> lookup(r->Ok_0, name) == Some(loose_value(value))
        }),
        with_written_field(fields, name) is Err,
        json_document(value) is Ok ==> loose_value(value) == json_document(value)->Ok_0,
        json_document(value) is Err ==> loose_value(value) == JsonView::Text(value),
{
    let part = name + seq!['='] + value;
    assert forall|j: int| 0 <= j < name.len() implies name[j] != '=' && name[j] != '-' by {
        assert(name.contains(name[j]));
    }
    crate::text::lemma_position_unique(part, '=', name.len() as int);
    assert(part.take(name.len() as int) =~= name);
    assert(part.skip(name.len() as int + 1) =~= value);
    crate::text::lemma_position_unique(name, '=', name.len() as int);
    lemma_replaced_unchanged(name);
    crate::fields::lemma_place_value(fields, name);
    put_values_are_found(fields, name, loose_value(value));
}

/// A document takes the place of the name that it was given under, without its ending;
/// a list is added to the list that stands there.
pub proof fn documents_stand_under_their_names(
    raw: Seq<(Seq<char>, JsonView)>,
    name: Seq<char>,
    text: Seq<char>,
    file: Result<Seq<char>, Seq<char>>,
)
    requires
        ascending(raw),
        lookup(raw, name + "_json"@) == Some(JsonView::Text(text)),
    ensures
        ({
            let r = with_document(raw, name + "_json"@, file);
            &&& r is Ok <==> json_document(text) is Ok
            &&& r is Ok ==> {
                let value = json_document(text)->Ok_0;
                &&& lookup(r->Ok_0, name + "_json"@) is None
                &&& !(value is List) ==> lookup(r->Ok_0, name) == Some(value)
                &&& value is List && !(lookup(raw, name) matches Some(JsonView::List(_)))
                    ==> lookup(r->Ok_0, name) == Some(value)
                &&& (value matches JsonView::List(more) && lookup(raw, name) matches Some(
                    JsonView::List(current),
                )) ==> lookup(r->Ok_0, name) == Some(
                    JsonView::List(lookup(raw, name)->0->List_0 + value->List_0),
                )
            }
        }),
{
    let full = name + "_json"@;
    reveal_strlit("_json");
    assert("_json"@.len() == 5);
    assert("_json"@.is_suffix_of(full)) by {
        assert(full.skip(full.len() - 5) =~= "_json"@);
    }
    assert(full.take(full.len() - 5) =~= name);
    let rest = without(raw, full);
    removed_names_are_gone(raw, full);
    crate::fields::lemma_place_value(raw, full);
    crate::fields::lemma_place_value(rest, name);
    if json_document(text) is Ok {
        let value = json_document(text)->Ok_0;
        let less = without(rest, name);
        removed_names_are_gone(rest, name);
        put_values_are_found(less, name, value);
        if let (JsonView::List(more), Some(JsonView::List(current))) = (
            value,
            place_value(rest, name),
        ) {
            put_values_are_found(less, name, JsonView::List(current + more));
        }
    }
}

/// A document of a file takes the place of its name without its ending too, where that
/// stands alone.
pub proof fn files_stand_under_their_names(
    raw: Seq<(Seq<char>, JsonView)>,
    name: Seq<char>,
    path: Seq<char>,
    text: Seq<char>,
    message: Seq<char>,
)
    requires
        ascending(raw),
        !"_file"@.is_suffix_of(name),
        lookup(raw, name + "_file"@) == Some(JsonView::Text(path)),
        lookup(raw, name) is None,
    ensures
        with_document(raw, name + "_file"@, Err(message)) is Err,
        ({
            let r = with_document(raw, name + "_file"@, Ok(text));
            &&& r is Ok <==> json_document(text) is Ok
            &&& r is Ok ==> lookup(r->Ok_0, name + "_file"@) is None && lookup(r->Ok_0, name)
                == Some(json_document(text)->Ok_0)
        }),
{
    let full = name + "_file"@;
    reveal_strlit("_json");
    reveal_strlit("_file");
    assert("_file"@.len() == 5 && "_json"@.len() == 5);
    assert("_file"@.is_suffix_of(full)) by {
        assert(full.skip(full.len() - 5) =~= "_file"@);
    }
    if "_json"@.is_suffix_of(full) {
        assert(full.skip(full.len() - 5)[1] == "_json"@[1]);
        assert(full[full.len() - 4] == 'f');
    }
    assert(full.take(full.len() - 5) =~= name);
    reveal_with_fuel(without_endings, 3);
    let rest = without(raw, full);
    removed_names_are_gone(raw, full);
    crate::fields::lemma_place_value(raw, full);
    crate::fields::lemma_place_value(rest, name);
    if json_document(text) is Ok {
        removed_names_are_gone(rest, name);
        put_values_are_found(without(rest, name), name, json_document(text)->Ok_0);
    }
}

/// A switch that is turned on to say no turns off what it names.
pub proof fn negative_switches_turn_off(raw: Seq<(Seq<char>, JsonView)>, name: Seq<char>)
    requires
        ascending(raw),
        !name.contains('.'),
        !"no_"@.is_prefix_of(name),
        name != "exclude_audio"@,
        is_on(raw, "no_"@ + name),
    ensures
        lookup(without_negatives(raw), name) == Some(JsonView::Bool(false)),
{
    let full = "no_"@ + name;
    reveal_strlit("no_");
    reveal_strlit("exclude_audio");
    reveal_strlit("include_audio");
    assert(full[0] == 'n');
    assert("exclude_audio"@[0] == 'e' && "include_audio"@[0] == 'i');
    assert forall|j: int| 0 <= j < name.len() implies name[j] != '.' by {
        assert(name.contains(name[j]));
    }
    assert forall|j: int| 0 <= j < full.len() implies full[j] != '.' by {
        if j >= 3 {
            assert(full[j] == name[j - 3]);
        }
    }
    crate::text::lemma_split_at_last_none(full, '.');
    crate::text::lemma_split_at_last_none(name, '.');
    assert("no_"@.is_prefix_of(full));
    assert(full.skip(3) =~= name);
    reveal_with_fuel(without_beginnings, 3);
    assert(positive_name(full) == name);
    removed_names_are_gone(raw, "exclude_audio"@);
    put_values_are_found(
        without(raw, "exclude_audio"@),
        "include_audio"@,
        JsonView::Bool(false),
    );
    let rest = without_audio_switch(raw);
    assert(is_on(rest, full));
    lemma_negatives_hold(rest, full);
    lemma_negatives_are_negative(rest);
    lemma_turned_off_by_name(rest, negatives(rest), full, name);
}

proof fn lemma_negatives_are_negative(raw: Seq<(Seq<char>, JsonView)>)
    ensures
        forall|i: int| 0 <= i < negatives(raw).len() ==> is_negative(#[trigger] negatives(raw)[i]),
    decreases raw.len(),
{
    if raw.len() > 0 {
        let before = negatives(raw.drop_last());
        lemma_negatives_are_negative(raw.drop_last());
        assert forall|i: int| 0 <= i < negatives(raw).len() implies is_negative(
            #[trigger] negatives(raw)[i],
        ) by {
            if i < before.len() {
                assert(negatives(raw)[i] == before[i]);
            }
        }
    }
}

proof fn lemma_turned_off_by_name(
    raw: Seq<(Seq<char>, JsonView)>,
    names: Seq<Seq<char>>,
    full: Seq<char>,
    name: Seq<char>,
)
    requires
        ascending(raw),
        forall|i: int| 0 <= i < names.len() ==> is_negative(#[trigger] names[i]),
        positive_name(full) == name,
        !is_negative(name),
        names.contains(full) || lookup(raw, name) == Some(JsonView::Bool(false)),
    ensures
        lookup(turned_off(raw, names), name) == Some(JsonView::Bool(false)),
    decreases names.len(),
{
    if names.len() > 0 {
        let less = without(raw, names[0]);
        let next = put(less, positive_name(names[0]), JsonView::Bool(false));
        removed_names_are_gone(raw, names[0]);
        put_values_are_found(less, positive_name(names[0]), JsonView::Bool(false));
        let rest = names.drop_first();
        assert forall|i: int| 0 <= i < rest.len() implies is_negative(#[trigger] rest[i]) by {
            assert(rest[i] == names[i + 1]);
        }
        if names.contains(full) && names[0] != full {
            let k = choose|k: int| 0 <= k < names.len() && names[k] == full;
            assert(rest[k - 1] == full);
        }
        lemma_turned_off_by_name(next, rest, full, name);
    }
}

/// To leave the sound out is not to take it in.
pub proof fn sound_is_left_out(raw: Seq<(Seq<char>, JsonView)>)
    requires
        ascending(raw),
    ensures
        lookup(without_audio_switch(raw), "exclude_audio"@) is None,
        is_on(raw, "exclude_audio"@) ==> lookup(without_audio_switch(raw), "include_audio"@)
            == Some(JsonView::Bool(false)),
        !is_on(raw, "exclude_audio"@) ==> lookup(without_audio_switch(raw), "include_audio"@)
            == lookup(raw, "include_audio"@),
{
    reveal_strlit("exclude_audio");
    reveal_strlit("include_audio");
    assert("exclude_audio"@[0] == 'e' && "include_audio"@[0] == 'i');
    crate::fields::lemma_place_value(raw, "exclude_audio"@);
    removed_names_are_gone(raw, "exclude_audio"@);
    put_values_are_found(
        without(raw, "exclude_audio"@),
        "include_audio"@,
        JsonView::Bool(false),
    );
}

/// A name without a dot stands in the namespace of its task, under the name that the
/// models know it by; one with a dot says where it stands.
pub proof fn names_are_the_models_own(task: InferenceTask, namespace: Seq<char>, name: Seq<char>)
    requires
        !name.contains('-'),
    ensures
        name.contains('.') ==> canonical_path(task, namespace, name) == name,
        !name.contains('.') ==> canonical_path(task, namespace, name) == namespace + "."@
            + task_name(task, name),
        makes_images(task) ==> task_name(task, "image_vae_tiling"@) == "vae_tiling"@,
        makes_images(task) ==> task_name(task, "image_vae_slicing"@) == "vae_slicing"@,
        makes_images(task) ==> task_name(task, "post_upscale"@) == "post_upscaling"@,
        makes_videos(task) ==> task_name(task, "loop"@) == "looping"@,
        makes_songs(task) ==> task_name(task, "num_variations"@) == "variations"@,
        makes_songs(task) ==> task_name(task, "bpm_min"@) == "tempo_min"@,
        makes_songs(task) ==> task_name(task, "bpm_max"@) == "tempo_max"@,
        makes_songs(task) ==> task_name(task, "vocal_register"@) == "register"@,
        makes_songs(task) ==> task_name(task, "vocal_range"@) == "range"@,
        makes_songs(task) ==> task_name(task, "vocal_language"@) == "language"@,
        makes_songs(task) ==> task_name(task, "vocal_accent"@) == "accent"@,
        makes_songs(task) ==> task_name(task, "vocal_delivery"@) == "delivery"@,
        makes_songs(task) ==> task_name(task, "vocal_emotion"@) == "emotion"@,
        makes_songs(task) ==> task_name(task, "vocal_power"@) == "power"@,
        makes_songs(task) ==> task_name(task, "format"@) == "output_format"@,
        task is SpeechToText || task is SpeechTranslation ==> task_name(task, "task"@)
            == "operation"@,
        task is TextToSpeech ==> task_name(task, "loudness_lufs"@) == "loudness"@,
        task is TextToSpeech || task is StemSeparation ==> task_name(task, "format"@)
            == "output_format"@,
        name == "seed"@ || name == "width"@ || name == "height"@ || name == "steps"@ || name
            == "prompt"@ ==> task_name(task, name) == name,
        makes_images(task) <==> task is ImageGeneration || task is ImageEditing || task
            is ImageVariation || task is ImageInpainting || task is ImageOutpainting || task
            is ImageUpscaling,
        makes_videos(task) <==> task is VideoGeneration || task is ImageToVideo || task
            is VideoToVideo || task is VideoInpainting || task is VideoExtension || task
            is VideoUpscaling || task is FrameInterpolation,
        makes_songs(task) <==> task is AudioGeneration || task is MusicGeneration || task
            is SongContinuation || task is SongVariation,
{
    assert forall|j: int| 0 <= j < name.len() implies name[j] != '-' by {
        assert(name.contains(name[j]));
    }
    lemma_replaced_unchanged(name);
    reveal_strlit("image_vae_tiling");
    reveal_strlit("image_vae_slicing");
    reveal_strlit("post_upscale");
    reveal_strlit("num_variations");
    reveal_strlit("bpm_min");
    reveal_strlit("bpm_max");
    reveal_strlit("vocal_register");
    reveal_strlit("vocal_range");
    reveal_strlit("vocal_language");
    reveal_strlit("vocal_accent");
    reveal_strlit("vocal_delivery");
    reveal_strlit("vocal_emotion");
    reveal_strlit("vocal_power");
    reveal_strlit("format");
    reveal_strlit("loop");
    reveal_strlit("task");
    reveal_strlit("loudness_lufs");
    reveal_strlit("seed");
    reveal_strlit("width");
    reveal_strlit("height");
    reveal_strlit("steps");
    reveal_strlit("prompt");
    assert("image_vae_slicing"@.len() != "image_vae_tiling"@.len());
    assert("post_upscale"@.len() != "image_vae_tiling"@.len());
    assert("post_upscale"@.len() != "image_vae_slicing"@.len());
    assert("bpm_min"@.len() != "num_variations"@.len());
    assert("bpm_max"@.len() != "num_variations"@.len());
    assert("bpm_max"@[5] != "bpm_min"@[5]);
    assert("vocal_register"@[0] != "num_variations"@[0]);
    assert("vocal_register"@.len() != "bpm_min"@.len());
    assert("vocal_register"@.len() != "bpm_max"@.len());
    assert("vocal_range"@.len() != "num_variations"@.len());
    assert("vocal_range"@.len() != "bpm_min"@.len());
    assert("vocal_range"@.len() != "bpm_max"@.len());
    assert("vocal_range"@.len() != "vocal_register"@.len());
    assert("vocal_language"@[0] != "num_variations"@[0]);
    assert("vocal_language"@.len() != "bpm_min"@.len());
    assert("vocal_language"@.len() != "bpm_max"@.len());
    assert("vocal_language"@[6] != "vocal_register"@[6]);
    assert("vocal_language"@.len() != "vocal_range"@.len());
    assert("vocal_accent"@.len() != "num_variations"@.len());
    assert("vocal_accent"@.len() != "bpm_min"@.len());
    assert("vocal_accent"@.len() != "bpm_max"@.len());
    assert("vocal_accent"@.len() != "vocal_register"@.len());
    assert("vocal_accent"@.len() != "vocal_range"@.len());
    assert("vocal_accent"@.len() != "vocal_language"@.len());
    assert("vocal_delivery"@[0] != "num_variations"@[0]);
    assert("vocal_delivery"@.len() != "bpm_min"@.len());
    assert("vocal_delivery"@.len() != "bpm_max"@.len());
    assert("vocal_delivery"@[6] != "vocal_register"@[6]);
    assert("vocal_delivery"@.len() != "vocal_range"@.len());
    assert("vocal_delivery"@[6] != "vocal_language"@[6]);
    assert("vocal_delivery"@.len() != "vocal_accent"@.len());
    assert("vocal_emotion"@.len() != "num_variations"@.len());
    assert("vocal_emotion"@.len() != "bpm_min"@.len());
    assert("vocal_emotion"@.len() != "bpm_max"@.len());
    assert("vocal_emotion"@.len() != "vocal_register"@.len());
    assert("vocal_emotion"@.len() != "vocal_range"@.len());
    assert("vocal_emotion"@.len() != "vocal_language"@.len());
    assert("vocal_emotion"@.len() != "vocal_accent"@.len());
    assert("vocal_emotion"@.len() != "vocal_delivery"@.len());
    assert("vocal_power"@.len() != "num_variations"@.len());
    assert("vocal_power"@.len() != "bpm_min"@.len());
    assert("vocal_power"@.len() != "bpm_max"@.len());
    assert("vocal_power"@.len() != "vocal_register"@.len());
    assert("vocal_power"@[6] != "vocal_range"@[6]);
    assert("vocal_power"@.len() != "vocal_language"@.len());
    assert("vocal_power"@.len() != "vocal_accent"@.len());
    assert("vocal_power"@.len() != "vocal_delivery"@.len());
    assert("vocal_power"@.len() != "vocal_emotion"@.len());
    assert("format"@.len() != "num_variations"@.len());
    assert("format"@.len() != "bpm_min"@.len());
    assert("format"@.len() != "bpm_max"@.len());
    assert("format"@.len() != "vocal_register"@.len());
    assert("format"@.len() != "vocal_range"@.len());
    assert("format"@.len() != "vocal_language"@.len());
    assert("format"@.len() != "vocal_accent"@.len());
    assert("format"@.len() != "vocal_delivery"@.len());
    assert("format"@.len() != "vocal_emotion"@.len());
    assert("format"@.len() != "vocal_power"@.len());
    assert("loudness_lufs"@.len() != "format"@.len());
    if name == "seed"@ || name == "width"@ || name == "height"@ || name == "steps"@ || name
        == "prompt"@ {
        assert("seed"@[0] == 's' && "width"@[0] == 'w' && "height"@[0] == 'h' && "steps"@[0] == 's'
            && "prompt"@[0] == 'p');
        assert("loop"@[0] == 'l' && "task"@[0] == 't' && "loudness_lufs"@[0] == 'l'
            && "format"@[0] == 'f' && "image_vae_tiling"@[0] == 'i' && "image_vae_slicing"@[0]
            == 'i' && "post_upscale"@[1] == 'o' && "prompt"@[1] == 'r');
        assert("num_variations"@[0] == 'n' && "bpm_min"@[0] == 'b' && "bpm_max"@[0] == 'b'
            && "vocal_register"@[0] == 'v' && "vocal_range"@[0] == 'v' && "vocal_language"@[0]
            == 'v' && "vocal_accent"@[0] == 'v' && "vocal_delivery"@[0] == 'v'
            && "vocal_emotion"@[0] == 'v' && "vocal_power"@[0] == 'v');
    }
}

/// What is left out of a file's documents is kept, and what stands in them has a name
/// that ends as documents do.
pub proof fn documents_are_told_by_their_endings(
    raw: Seq<(Seq<char>, JsonView)>,
    name: Seq<char>,
    i: int,
)
    ensures
        is_document_name(name + "_json"@),
        is_document_name(name + "_file"@),
        0 <= i < raw.len() && is_document_name(raw[i].0) ==> document_names(raw).contains(
            raw[i].0,
        ),
        0 <= i < document_names(raw).len() ==> ("_json"@.is_suffix_of(document_names(raw)[i])
            || "_file"@.is_suffix_of(document_names(raw)[i])),
    decreases raw.len(),
{
    assert((name + "_json"@).skip(name.len() as int) =~= "_json"@);
    assert((name + "_file"@).skip(name.len() as int) =~= "_file"@);
    if raw.len() > 0 {
        let few = raw.drop_last();
        documents_are_told_by_their_endings(few, name, i);
        let before = document_names(few);
        let now = document_names(raw);
        if 0 <= i < few.len() && is_document_name(raw[i].0) {
            assert(few[i] == raw[i]);
            let k = choose|k: int| 0 <= k < before.len() && before[k] == raw[i].0;
            assert(now[k] == raw[i].0);
        } else if i == few.len() && is_document_name(raw[i].0) {
            assert(now[now.len() - 1] == raw[i].0);
        }
    }
}

} // verus!
