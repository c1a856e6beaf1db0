//! The size of the key-value cache: by the formula over a model's configuration
//! where it tells enough, else as a fraction of the weights.

use vstd::prelude::*;

use crate::binary64::{
    lemma_larger_share, saturated, saturating_times, scale_bytes, scaled_up, Ratio, MIB,
};
use crate::estimate::EstimateConfidence;
use crate::json::{
    field, items_of, json_document, opt_json, parse_json, str_opt, text_of, unsigned_of, Json,
    JsonView,
};
use crate::manifest::ModelFormat;
use crate::text::{
    holds, lowered, opt_str, opt_str_view, opt_view, owned_opt, str_contains, str_lower, views,
};

verus! {

/// What an estimate reads of a model's configuration.
#[derive(Debug)]
pub struct EstimateConfig {
    pub hidden_size: Option<u64>,
    pub num_hidden_layers: Option<u64>,
    pub num_attention_heads: Option<u64>,
    pub num_key_value_heads: Option<u64>,
    pub head_dim: Option<u64>,
    pub max_position_embeddings: Option<u64>,
    pub sliding_window: Option<u64>,
    pub dtype: Option<String>,
    pub vocab_size: Option<u64>,
    pub architectures: Vec<String>,
    pub model_type: Option<String>,
}

pub ghost struct ConfigView {
    pub hidden_size: Option<u64>,
    pub num_hidden_layers: Option<u64>,
    pub num_attention_heads: Option<u64>,
    pub num_key_value_heads: Option<u64>,
    pub head_dim: Option<u64>,
    pub max_position_embeddings: Option<u64>,
    pub sliding_window: Option<u64>,
    pub dtype: Option<Seq<char>>,
    pub vocab_size: Option<u64>,
    pub architectures: Seq<Seq<char>>,
    pub model_type: Option<Seq<char>>,
}

impl EstimateConfig {
    pub open spec fn view(&self) -> ConfigView {
        ConfigView {
            hidden_size: self.hidden_size,
            num_hidden_layers: self.num_hidden_layers,
            num_attention_heads: self.num_attention_heads,
            num_key_value_heads: self.num_key_value_heads,
            head_dim: self.head_dim,
            max_position_embeddings: self.max_position_embeddings,
            sliding_window: self.sliding_window,
            dtype: opt_view(self.dtype),
            vocab_size: self.vocab_size,
            architectures: views(self.architectures@),
            model_type: opt_view(self.model_type),
        }
    }
}

impl Default for EstimateConfig {
    fn default() -> (r: Self)
        ensures
            r@ == (ConfigView {
                hidden_size: None,
                num_hidden_layers: None,
                num_attention_heads: None,
                num_key_value_heads: None,
                head_dim: None,
                max_position_embeddings: None,
                sliding_window: None,
                dtype: None,
                vocab_size: None,
                architectures: Seq::empty(),
                model_type: None,
            }),
    {
        let r = EstimateConfig {
            hidden_size: None,
            num_hidden_layers: None,
            num_attention_heads: None,
            num_key_value_heads: None,
            head_dim: None,
            max_position_embeddings: None,
            sliding_window: None,
            dtype: None,
            vocab_size: None,
            architectures: Vec::new(),
            model_type: None,
        };
        assert(views(r.architectures@) =~= Seq::<Seq<char>>::empty());
        r
    }
}

// ---------------------------------------------------------------------------
// Reading the configuration
// ---------------------------------------------------------------------------

/// The value at the end of a path of keys.
pub open spec fn at_path(v: JsonView, path: Seq<Seq<char>>) -> Option<JsonView>
    decreases path.len(),
{
    if path.len() == 0 {
        Some(v)
    } else {
        match field(v, path[0]) {
            Some(next) => at_path(next, path.drop_first()),
            None => None,
        }
    }
}

/// The first unsigned number at one of the paths.
pub open spec fn first_unsigned(v: JsonView, paths: Seq<Seq<Seq<char>>>) -> Option<u64>
    decreases paths.len(),
{
    if paths.len() == 0 {
        None
    } else {
        match unsigned_of(at_path(v, paths[0])) {
            Some(n) => Some(n),
            None => first_unsigned(v, paths.drop_first()),
        }
    }
}

/// The first text at one of the paths.
pub open spec fn first_text(v: JsonView, paths: Seq<Seq<Seq<char>>>) -> Option<Seq<char>>
    decreases paths.len(),
{
    if paths.len() == 0 {
        None
    } else {
        match text_of(at_path(v, paths[0])) {
            Some(s) => Some(s),
            None => first_text(v, paths.drop_first()),
        }
    }
}

pub open spec fn path_view(path: Seq<&str>) -> Seq<Seq<char>> {
    path.map_values(|s: &str| s@)
}

pub open spec fn paths_view(paths: Seq<Vec<&str>>) -> Seq<Seq<Seq<char>>> {
    paths.map_values(|p: Vec<&str>| path_view(p@))
}

fn walk<'a>(value: &'a Json, path: &Vec<&str>) -> (r: Option<&'a Json>)
    ensures
        opt_json(r) == at_path(value@, path_view(path@)),
{
    let mut current: &'a Json = value;
    let mut i: usize = 0;
    let ghost whole = path_view(path@);
    assert(whole.skip(0) =~= whole);
    while i < path.len()
        invariant
            i <= path@.len(),
            whole == path_view(path@),
            at_path(value@, whole) == at_path(current@, whole.skip(i as int)),
        decreases path@.len() - i,
    {
        assert(whole.skip(i as int)[0] == path@[i as int]@);
        assert(whole.skip(i as int).drop_first() =~= whole.skip(i + 1));
        match current.get(path[i]) {
            Some(next) => {
                current = next;
            },
            None => {
                return None;
            },
        }
        i = i + 1;
    }
    Some(current)
}

/// The first unsigned number that stands at one of the paths of keys.
pub fn first_config_u64(value: &Json, paths: &Vec<Vec<&str>>) -> (r: Option<u64>)
    ensures
        r == first_unsigned(value@, paths_view(paths@)),
{
    let mut i: usize = 0;
    let ghost all = paths_view(paths@);
    assert(all.skip(0) =~= all);
    while i < paths.len()
        invariant
            i <= paths@.len(),
            all == paths_view(paths@),
            first_unsigned(value@, all) == first_unsigned(value@, all.skip(i as int)),
        decreases paths@.len() - i,
    {
        assert(all.skip(i as int)[0] == path_view(paths@[i as int]@));
        assert(all.skip(i as int).drop_first() =~= all.skip(i + 1));
        if let Some(found) = walk(value, &paths[i]) {
            if let Some(n) = found.as_u64() {
                return Some(n);
            }
        }
        i = i + 1;
    }
    None
}

/// The first text that stands at one of the paths of keys.
pub fn first_config_string(value: &Json, paths: &Vec<Vec<&str>>) -> (r: Option<String>)
    ensures
        opt_view(r) == first_text(value@, paths_view(paths@)),
{
    let mut i: usize = 0;
    let ghost all = paths_view(paths@);
    assert(all.skip(0) =~= all);
    while i < paths.len()
        invariant
            i <= paths@.len(),
            all == paths_view(paths@),
            first_text(value@, all) == first_text(value@, all.skip(i as int)),
        decreases paths@.len() - i,
    {
        assert(all.skip(i as int)[0] == path_view(paths@[i as int]@));
        assert(all.skip(i as int).drop_first() =~= all.skip(i + 1));
        if let Some(found) = walk(value, &paths[i]) {
            if let Some(s) = found.as_str() {
                return Some(s.to_owned());
            }
        }
        i = i + 1;
    }
    None
}

/// A key of the document itself.
pub open spec fn top(key: Seq<char>) -> Seq<Seq<char>> {
    seq![key]
}

/// A key of the `text_config` section.
pub open spec fn in_text(key: Seq<char>) -> Seq<Seq<char>> {
    seq!["text_config"@, key]
}

/// Where the numbers of a configuration may stand: keys of the document, then
/// keys of its `text_config` section.
pub open spec fn places(tops: Seq<Seq<char>>, nested: Seq<Seq<char>>) -> Seq<Seq<Seq<char>>> {
    tops.map_values(|k: Seq<char>| top(k)) + nested.map_values(|k: Seq<char>| in_text(k))
}

pub open spec fn config_unsigned(v: JsonView, tops: Seq<Seq<char>>, nested: Seq<Seq<char>>) -> Option<
    u64,
> {
    first_unsigned(v, places(tops, nested))
}

fn build_places<'a>(tops: &Vec<&'a str>, nested: &Vec<&'a str>) -> (r: Vec<Vec<&'a str>>)
    ensures
        paths_view(r@) == places(path_view(tops@), path_view(nested@)),
{
    let mut r: Vec<Vec<&'a str>> = Vec::new();
    let mut i: usize = 0;
    let ghost goal = places(path_view(tops@), path_view(nested@));
    while i < tops.len()
        invariant
            i <= tops@.len(),
            goal == places(path_view(tops@), path_view(nested@)),
            paths_view(r@) == goal.take(i as int),
        decreases tops@.len() - i,
    {
        let ghost before = paths_view(r@);
        let mut path: Vec<&'a str> = Vec::new();
        path.push(tops[i]);
        assert(path_view(path@) =~= top(tops@[i as int]@));
        r.push(path);
        assert(paths_view(r@) =~= before.push(path_view(path@)));
        assert(goal.take(i + 1) =~= goal.take(i as int).push(goal[i as int]));
        i = i + 1;
    }
    let mut j: usize = 0;
    while j < nested.len()
        invariant
            i == tops@.len(),
            j <= nested@.len(),
            goal == places(path_view(tops@), path_view(nested@)),
            paths_view(r@) == goal.take(i + j),
        decreases nested@.len() - j,
    {
        let ghost before = paths_view(r@);
        let mut path: Vec<&'a str> = Vec::new();
        path.push("text_config");
        path.push(nested[j]);
        assert(path_view(path@) =~= in_text(nested@[j as int]@));
        r.push(path);
        assert(paths_view(r@) =~= before.push(path_view(path@)));
        assert(goal.take(i + j + 1) =~= goal.take(i + j).push(goal[i + j]));
        j = j + 1;
    }
    assert(goal.take(i + j) =~= goal);
    r
}

fn read_unsigned<'a>(value: &Json, tops: &Vec<&'a str>, nested: &Vec<&'a str>) -> (r: Option<u64>)
    ensures
        r == config_unsigned(value@, path_view(tops@), path_view(nested@)),
{
    first_config_u64(value, &build_places(tops, nested))
}

/// The texts among the items.
pub open spec fn texts_among(items: Seq<JsonView>) -> Seq<Seq<char>>
    decreases items.len(),
{
    if items.len() == 0 {
        Seq::empty()
    } else {
        let rest = texts_among(items.drop_last());
        match items.last() {
            JsonView::Text(s) => rest.push(s),
            _ => rest,
        }
    }
}

/// The texts of a list that stands under a key; none where it is no list.
pub fn texts_under(value: &Json, key: &str) -> (r: Vec<String>)
    ensures
        views(r@) == texts_among(items_of(field(value@, key@))),
{
    let mut r: Vec<String> = Vec::new();
    assert(views(r@) =~= Seq::<Seq<char>>::empty());
    if let Some(list) = value.get(key) {
        if let Some(items) = list.as_list() {
            let ghost model = list@->List_0;
            let mut i: usize = 0;
            while i < items.len()
                invariant
                    i <= items@.len(),
                    model.len() == items@.len(),
                    forall|j: int| 0 <= j < items@.len() ==> (#[trigger] items@[j])@ == model[j],
                    views(r@) == texts_among(model.take(i as int)),
                decreases items@.len() - i,
            {
                let ghost before = views(r@);
                assert(model.take(i + 1).drop_last() =~= model.take(i as int));
                assert(items@[i as int]@ == model[i as int]);
                if let Some(s) = items[i].as_str() {
                    r.push(s.to_owned());
                    assert(views(r@) =~= before.push(s@));
                }
                i = i + 1;
            }
            assert(model.take(model.len() as int) =~= model);
        }
    }
    r
}

/// The `text_config` section, or the document itself where there is none.
pub open spec fn text_section(v: JsonView) -> JsonView {
    match field(v, "text_config"@) {
        Some(section) => section,
        None => v,
    }
}

/// The `model_type` of the text section, else that of the document.
pub open spec fn model_type_of(v: JsonView) -> Option<Seq<char>> {
    match text_of(field(text_section(v), "model_type"@)) {
        Some(s) => Some(s),
        None => text_of(field(v, "model_type"@)),
    }
}

pub fn read_model_type(value: &Json) -> (r: Option<String>)
    ensures
        opt_view(r) == model_type_of(value@),
{
    let section = match value.get("text_config") {
        Some(section) => section,
        None => value,
    };
    match str_opt(section.get("model_type")) {
        Some(s) => Some(s.to_owned()),
        None => owned_opt(str_opt(value.get("model_type"))),
    }
}

/// What a configuration document tells an estimate.
pub open spec fn config_of(v: JsonView) -> ConfigView {
    ConfigView {
        hidden_size: config_unsigned(v, seq!["hidden_size"@, "n_embd"@], seq!["hidden_size"@]),
        num_hidden_layers: config_unsigned(
            v,
            seq!["num_hidden_layers"@, "n_layer"@, "num_layers"@],
            seq!["num_hidden_layers"@],
        ),
        num_attention_heads: config_unsigned(
            v,
            seq!["num_attention_heads"@, "n_head"@],
            seq!["num_attention_heads"@],
        ),
        num_key_value_heads: config_unsigned(
            v,
            seq!["num_key_value_heads"@, "n_head_kv"@],
            seq!["num_key_value_heads"@],
        ),
        head_dim: config_unsigned(v, seq!["head_dim"@], seq!["head_dim"@]),
        max_position_embeddings: config_unsigned(
            v,
            seq![
                "max_position_embeddings"@,
                "seq_length"@,
                "context_length"@,
                "model_max_length"@,
                "n_positions"@,
                "n_ctx"@,
            ],
            seq!["max_position_embeddings"@, "context_length"@],
        ),
        sliding_window: config_unsigned(v, seq!["sliding_window"@], seq!["sliding_window"@]),
        dtype: first_text(v, places(seq!["torch_dtype"@, "dtype"@], seq!["torch_dtype"@])),
        vocab_size: config_unsigned(v, seq!["vocab_size"@], seq!["vocab_size"@]),
        architectures: texts_among(items_of(field(v, "architectures"@))),
        model_type: model_type_of(v),
    }
}

fn key1<'a>(a: &'a str) -> (r: Vec<&'a str>)
    ensures
        path_view(r@) == seq![a@],
{
    let mut r: Vec<&'a str> = Vec::new();
    r.push(a);
    assert(path_view(r@) =~= seq![a@]);
    r
}

fn key2<'a>(a: &'a str, b: &'a str) -> (r: Vec<&'a str>)
    ensures
        path_view(r@) == seq![a@, b@],
{
    let mut r: Vec<&'a str> = Vec::new();
    r.push(a);
    r.push(b);
    assert(path_view(r@) =~= seq![a@, b@]);
    r
}

fn key3<'a>(a: &'a str, b: &'a str, c: &'a str) -> (r: Vec<&'a str>)
    ensures
        path_view(r@) == seq![a@, b@, c@],
{
    let mut r: Vec<&'a str> = Vec::new();
    r.push(a);
    r.push(b);
    r.push(c);
    assert(path_view(r@) =~= seq![a@, b@, c@]);
    r
}

fn context_keys() -> (r: Vec<&'static str>)
    ensures
        path_view(r@) == seq![
            "max_position_embeddings"@,
            "seq_length"@,
            "context_length"@,
            "model_max_length"@,
            "n_positions"@,
            "n_ctx"@,
        ],
{
    let mut r: Vec<&'static str> = Vec::new();
    r.push("max_position_embeddings");
    r.push("seq_length");
    r.push("context_length");
    r.push("model_max_length");
    r.push("n_positions");
    r.push("n_ctx");
    assert(path_view(r@) =~= seq![
        "max_position_embeddings"@,
        "seq_length"@,
        "context_length"@,
        "model_max_length"@,
        "n_positions"@,
        "n_ctx"@,
    ]);
    r
}

/// Reads what an estimate needs out of a configuration document.
pub fn parse_estimate_config(value: &Json) -> (r: EstimateConfig)
    ensures
        r@ == config_of(value@),
{
    EstimateConfig {
        hidden_size: read_unsigned(value, &key2("hidden_size", "n_embd"), &key1("hidden_size")),
        num_hidden_layers: read_unsigned(
            value,
            &key3("num_hidden_layers", "n_layer", "num_layers"),
            &key1("num_hidden_layers"),
        ),
        num_attention_heads: read_unsigned(
            value,
            &key2("num_attention_heads", "n_head"),
            &key1("num_attention_heads"),
        ),
        num_key_value_heads: read_unsigned(
            value,
            &key2("num_key_value_heads", "n_head_kv"),
            &key1("num_key_value_heads"),
        ),
        head_dim: read_unsigned(value, &key1("head_dim"), &key1("head_dim")),
        max_position_embeddings: read_unsigned(
            value,
            &context_keys(),
            &key2("max_position_embeddings", "context_length"),
        ),
        sliding_window: read_unsigned(value, &key1("sliding_window"), &key1("sliding_window")),
        dtype: first_config_string(
            value,
            &build_places(&key2("torch_dtype", "dtype"), &key1("torch_dtype")),
        ),
        vocab_size: read_unsigned(value, &key1("vocab_size"), &key1("vocab_size")),
        architectures: texts_under(value, "architectures"),
        model_type: read_model_type(value),
    }
}

/// The configuration in a text that may be missing or no JSON.
pub open spec fn config_in_text(text: Option<Seq<char>>) -> Option<ConfigView> {
    match text {
        Some(text) => match json_document(text) {
            Ok(v) => Some(config_of(v)),
            Err(_) => None,
        },
        None => None,
    }
}

pub open spec fn opt_config(c: Option<EstimateConfig>) -> Option<ConfigView> {
    match c {
        Some(c) => Some(c@),
        None => None,
    }
}

/// Reads a configuration file's text, if there is one.
pub fn read_estimate_config(text: Option<&str>) -> (r: Option<EstimateConfig>)
    ensures
        opt_config(r) == config_in_text(opt_str_view(text)),
{
    match text {
        Some(text) => match parse_json(text) {
            Ok(value) => Some(parse_estimate_config(&value)),
            Err(_) => None,
        },
        None => None,
    }
}

// ---------------------------------------------------------------------------
// The cache
// ---------------------------------------------------------------------------

#[derive(Clone, Copy, Debug, PartialEq, Eq, Structural)]
pub struct KvCacheEstimate {
    pub bytes: u64,
    pub confidence: EstimateConfidence,
    pub config_used: bool,
}

/// Architectures that need far more than the weights suggest.
pub open spec fn is_memory_heavy(architecture: Option<Seq<char>>) -> bool {
    match architecture {
        None => false,
        Some(name) => {
            let low = lowered(name);
            holds(low, "jamba"@) || holds(low, "mamba"@) || holds(low, "mixtral"@) || holds(
                low,
                "moe"@,
            )
        },
    }
}

pub fn is_memory_heavy_architecture(architecture: Option<&str>) -> (r: bool)
    ensures
        r == is_memory_heavy(opt_str_view(architecture)),
{
    match architecture {
        None => false,
        Some(name) => {
            let lower = str_lower(name);
            let low = lower.as_str();
            str_contains(low, "jamba") || str_contains(low, "mamba") || str_contains(low, "mixtral")
                || str_contains(low, "moe")
        },
    }
}

/// The bytes of one element of a type, by its name; two where it is unknown.
pub open spec fn element_bytes(dtype: Option<Seq<char>>) -> u64 {
    let low = lowered(match dtype {
        Some(name) => name,
        None => Seq::empty(),
    });
    if holds(low, "fp32"@) || holds(low, "float32"@) || holds(low, "f32"@) {
        4
    } else if holds(low, "int8"@) || holds(low, "uint8"@) || holds(low, "i8"@) || holds(low, "u8"@) {
        1
    } else {
        2
    }
}

pub fn dtype_bytes(dtype: Option<&str>) -> (r: u64)
    ensures
        r == element_bytes(opt_str_view(dtype)),
{
    let lower = match dtype {
        Some(name) => str_lower(name),
        None => {
            let empty = String::new();
            str_lower(empty.as_str())
        },
    };
    let low = lower.as_str();
    if str_contains(low, "fp32") || str_contains(low, "float32") || str_contains(low, "f32") {
        4
    } else if str_contains(low, "int8") || str_contains(low, "uint8") || str_contains(low, "i8")
        || str_contains(low, "u8") {
        1
    } else {
        2
    }
}

/// The cache of a model without a usable configuration.
pub open spec fn fallback_bytes(weights: u64, architecture: Option<Seq<char>>) -> nat {
    saturated(
        scaled_up(
            weights as nat,
            if is_memory_heavy(architecture) {
                Ratio::Percent60
            } else {
                Ratio::Percent35
            },
        ),
    )
}

pub fn kv_cache_fallback_bytes(weights: u64, architecture: Option<&str>) -> (r: u64)
    ensures
        r == fallback_bytes(weights, opt_str_view(architecture)),
{
    if is_memory_heavy_architecture(architecture) {
        scale_bytes(weights, Ratio::Percent60)
    } else {
        scale_bytes(weights, Ratio::Percent35)
    }
}

/// A memory-heavy architecture is never given less memory than another one.
pub proof fn heavy_models_need_no_less(
    weights: u64,
    heavy: Option<Seq<char>>,
    light: Option<Seq<char>>,
)
    requires
        is_memory_heavy(heavy),
    ensures
        fallback_bytes(weights, light) <= fallback_bytes(weights, heavy),
{
    lemma_larger_share(weights as nat);
}

pub open spec fn cache_head_dim(c: ConfigView) -> u64 {
    match c.head_dim {
        Some(n) => n,
        None => c.hidden_size->0 / c.num_attention_heads->0,
    }
}

/// Whether the configuration tells enough for the formula.
pub open spec fn formula_applies(c: ConfigView) -> bool {
    &&& c.hidden_size is Some
    &&& c.num_hidden_layers is Some
    &&& c.num_attention_heads is Some
    &&& c.num_attention_heads->0 != 0
    &&& cache_head_dim(c) != 0
}

pub open spec fn cache_kv_heads(c: ConfigView) -> u64 {
    match c.num_key_value_heads {
        Some(n) => n,
        None => c.num_attention_heads->0,
    }
}

/// The context that the configuration states: the sliding window, else the
/// number of positions. Zero counts as not stated.
pub open spec fn stated_context(c: ConfigView) -> Option<u64> {
    let stated = match c.sliding_window {
        Some(n) => Some(n),
        None => c.max_position_embeddings,
    };
    if stated is Some && stated->0 > 0 {
        stated
    } else {
        None
    }
}

pub open spec fn cache_context(c: ConfigView) -> u64 {
    match stated_context(c) {
        Some(n) => n,
        None => 4096,
    }
}

/// A key and a value for every layer, head, head dimension and position.
pub open spec fn formula_bytes(c: ConfigView) -> nat {
    saturated(
        c.num_hidden_layers->0 as nat * cache_kv_heads(c) as nat * cache_head_dim(c) as nat * 2
            * cache_context(c) as nat * element_bytes(c.dtype) as nat,
    )
}

/// High, unless a default had to stand in for the heads, the type or the context.
pub open spec fn formula_confidence(c: ConfigView) -> EstimateConfidence {
    if c.num_key_value_heads is Some && c.dtype is Some && stated_context(c) is Some {
        EstimateConfidence::High
    } else {
        EstimateConfidence::Medium
    }
}

pub open spec fn cache_from_config(c: ConfigView) -> Option<KvCacheEstimate> {
    if formula_applies(c) {
        Some(
            KvCacheEstimate {
                bytes: formula_bytes(c) as u64,
                confidence: formula_confidence(c),
                config_used: true,
            },
        )
    } else {
        None
    }
}

proof fn lemma_saturated_chain(x: nat, c: nat)
    ensures
        saturated(saturated(x) * c) == saturated(x * c),
{
    if x > u64::MAX {
        if c > 0 {
            assert(u64::MAX as nat * c >= u64::MAX) by (nonlinear_arith)
                requires
                    c > 0,
            ;
            assert(x * c >= u64::MAX) by (nonlinear_arith)
                requires
                    c > 0,
                    x > u64::MAX,
            ;
        } else {
            assert(u64::MAX as nat * c == 0) by (nonlinear_arith)
                requires
                    c == 0,
            ;
            assert(x * c == 0) by (nonlinear_arith)
                requires
                    c == 0,
            ;
        }
    }
}

fn saturating_product(a: u64, b: u64, c: u64, d: u64, e: u64) -> (r: u64)
    ensures
        r == saturated(a as nat * b as nat * c as nat * 2 * d as nat * e as nat),
{
    let ab = saturating_times(a, b);
    let abc = saturating_times(ab, c);
    let abc2 = saturating_times(abc, 2);
    let abc2d = saturating_times(abc2, d);
    proof {
        let x = a as nat * b as nat;
        lemma_saturated_chain(x, c as nat);
        lemma_saturated_chain(x * c as nat, 2);
        lemma_saturated_chain(x * c as nat * 2, d as nat);
        lemma_saturated_chain(x * c as nat * 2 * d as nat, e as nat);
    }
    saturating_times(abc2d, e)
}

/// The cache by the formula over the configuration, where that tells enough.
pub fn kv_cache_from_config(config: &EstimateConfig) -> (r: Option<KvCacheEstimate>)
    ensures
        r == cache_from_config(config@),
{
    let hidden_size: u64 = match config.hidden_size {
        Some(n) => n,
        None => {
            return None;
        },
    };
    let layers: u64 = match config.num_hidden_layers {
        Some(n) => n,
        None => {
            return None;
        },
    };
    let attention_heads: u64 = match config.num_attention_heads {
        Some(n) => n,
        None => {
            return None;
        },
    };
    if attention_heads == 0 {
        return None;
    }
    let head_dim: u64 = match config.head_dim {
        Some(n) => n,
        None => hidden_size / attention_heads,
    };
    if head_dim == 0 {
        return None;
    }
    let mut confidence = EstimateConfidence::High;
    let kv_heads: u64 = match config.num_key_value_heads {
        Some(n) => n,
        None => {
            confidence = EstimateConfidence::Medium;
            attention_heads
        },
    };
    let element: u64 = dtype_bytes(opt_str(&config.dtype));
    if config.dtype.is_none() {
        confidence = confidence.min(EstimateConfidence::Medium);
    }
    let stated: Option<u64> = match config.sliding_window {
        Some(n) => Some(n),
        None => config.max_position_embeddings,
    };
    let mut context: u64 = 4096;
    let mut known = false;
    if let Some(n) = stated {
        if n > 0 {
            context = n;
            known = true;
        }
    }
    if !known {
        confidence = confidence.min(EstimateConfidence::Medium);
    }
    let bytes = saturating_product(layers, kv_heads, head_dim, context, element);
    Some(KvCacheEstimate { bytes, confidence, config_used: true })
}

/// The cache estimate: memory-heavy architectures and models without a usable
/// configuration by the fraction, all others by the formula.
pub open spec fn cache_estimate(
    weights: u64,
    architecture: Option<Seq<char>>,
    config: Option<ConfigView>,
) -> KvCacheEstimate {
    let by_config = match config {
        Some(c) => cache_from_config(c),
        None => None,
    };
    if !is_memory_heavy(architecture) && by_config is Some {
        by_config->0
    } else {
        KvCacheEstimate {
            bytes: fallback_bytes(weights, architecture) as u64,
            confidence: EstimateConfidence::Low,
            config_used: false,
        }
    }
}

pub fn kv_cache_estimate(
    weights: u64,
    architecture: Option<&str>,
    config: &Option<EstimateConfig>,
) -> (r: KvCacheEstimate)
    ensures
        r == cache_estimate(weights, opt_str_view(architecture), opt_config(*config)),
{
    if !is_memory_heavy_architecture(architecture) {
        if let Some(config) = config {
            if let Some(estimate) = kv_cache_from_config(config) {
                return estimate;
            }
        }
    }
    KvCacheEstimate {
        bytes: kv_cache_fallback_bytes(weights, architecture),
        confidence: EstimateConfidence::Low,
        config_used: false,
    }
}

// ---------------------------------------------------------------------------
// The runtime
// ---------------------------------------------------------------------------

/// What the runtime itself needs: a fraction of the weights, but never less
/// than a fixed amount.
pub open spec fn overhead(format: ModelFormat, weights: u64) -> nat {
    let (floor, ratio) = match format {
        ModelFormat::Gguf => (256 * MIB, Ratio::Percent5),
        ModelFormat::Mlx => (512 * MIB, Ratio::Percent8),
        _ => (512 * MIB, Ratio::Percent10),
    };
    let fraction = saturated(scaled_up(weights as nat, ratio));
    if fraction > floor {
        fraction
    } else {
        floor as nat
    }
}

pub fn runtime_overhead_bytes(format: ModelFormat, weights: u64) -> (r: u64)
    ensures
        r == overhead(format, weights),
{
    let floor: u64 = match format {
        ModelFormat::Gguf => 256 * MIB,
        _ => 512 * MIB,
    };
    let ratio = match format {
        ModelFormat::Gguf => Ratio::Percent5,
        ModelFormat::Mlx => Ratio::Percent8,
        _ => Ratio::Percent10,
    };
    let fraction: u64 = scale_bytes(weights, ratio);
    if fraction > floor {
        fraction
    } else {
        floor
    }
}

// ---------------------------------------------------------------------------
// What the estimate of the cache is for
// ---------------------------------------------------------------------------

/// Without a number of key and value heads every attention head has its own.
pub proof fn heads_have_keys_and_values_of_their_own(c: ConfigView)
    requires
        c.num_key_value_heads is None,
        c.num_attention_heads is Some,
    ensures
        ({
            let told = ConfigView { num_key_value_heads: c.num_attention_heads, ..c };
            &&& cache_from_config(c) is Some <==> cache_from_config(told) is Some
            &&& cache_from_config(c) is Some ==> cache_from_config(c)->0.bytes == cache_from_config(
                told,
            )->0.bytes
        }),
{
}

/// Without a size of a head the hidden size is shared out among the attention heads.
pub proof fn heads_share_the_hidden_size(c: ConfigView)
    requires
        c.head_dim is None,
        c.hidden_size is Some,
        c.num_attention_heads is Some,
        c.num_attention_heads->0 != 0,
    ensures
        ({
            let told = ConfigView {
                head_dim: Some((c.hidden_size->0 / c.num_attention_heads->0) as u64),
                ..c
            };
            cache_from_config(c) == cache_from_config(told)
        }),
{
}

/// The context is that of the sliding window, else the number of positions, else 4096;
/// nothing counts as stated that is zero.
pub proof fn windows_bound_the_cache(c: ConfigView, n: u64, other: Option<u64>)
    requires
        n > 0,
    ensures
        cache_from_config(
            ConfigView { sliding_window: Some(n), max_position_embeddings: other, ..c },
        ) == cache_from_config(
            ConfigView { sliding_window: None, max_position_embeddings: Some(n), ..c },
        ),
        ({
            let open = ConfigView { sliding_window: None, max_position_embeddings: None, ..c };
            let told = ConfigView { sliding_window: None, max_position_embeddings: Some(4096), ..c };
            let zero = ConfigView { sliding_window: None, max_position_embeddings: Some(0), ..c };
            &&& cache_from_config(open) is Some <==> cache_from_config(told) is Some
            &&& cache_from_config(open) is Some ==> cache_from_config(open)->0.bytes
                == cache_from_config(told)->0.bytes
            &&& cache_from_config(open) == cache_from_config(zero)
        }),
{
}

/// The cache holds a key and a value for every position, head and layer: where all is
/// stated and the product can be told, it is that product.
pub proof fn caches_hold_keys_and_values(
    c: ConfigView,
    layers: u64,
    heads: u64,
    dim: u64,
    context: u64,
    dtype: Seq<char>,
)
    requires
        c.num_hidden_layers == Some(layers),
        c.num_key_value_heads == Some(heads),
        c.head_dim == Some(dim),
        c.sliding_window == Some(context),
        c.dtype == Some(dtype),
        c.hidden_size is Some,
        c.num_attention_heads is Some,
        c.num_attention_heads->0 != 0,
        dim != 0,
        context != 0,
    ensures
        ({
            let r = cache_from_config(c);
            let size: int = if holds(lowered(dtype), "fp32"@) || holds(lowered(dtype), "float32"@)
                || holds(lowered(dtype), "f32"@) {
                4
            } else if holds(lowered(dtype), "int8"@) || holds(lowered(dtype), "uint8"@) || holds(
                lowered(dtype),
                "i8"@,
            ) || holds(lowered(dtype), "u8"@) {
                1
            } else {
                2
            };
            let product = layers * heads * dim * 2 * context * size;
            &&& r is Some
            &&& r->0.confidence is High
            &&& r->0.config_used
            &&& product <= u64::MAX ==> r->0.bytes == product
            &&& product > u64::MAX ==> r->0.bytes == u64::MAX
        }),
{
}

/// Where the hidden size, the layers or the attention heads are not stated, the
/// configuration tells nothing, and less than all of the rest is no high confidence.
pub proof fn sparse_configurations_tell_less(c: ConfigView)
    ensures
        c.hidden_size is None || c.num_hidden_layers is None || c.num_attention_heads is None
            || c.num_attention_heads == Some(0u64) ==> cache_from_config(c) is None,
        cache_from_config(c) matches Some(r) ==> r.config_used && !(r.confidence is Low),
        c.num_key_value_heads is None || c.dtype is None || (c.sliding_window is None
            && c.max_position_embeddings is None) ==> !(cache_from_config(c) matches Some(r)
            && r.confidence is High),
{
}

/// An element without a stated type takes as much as a half-precision number, a full one
/// twice as much.
pub proof fn elements_take_their_bytes(name: Seq<char>)
    ensures
        element_bytes(None) == 2,
        holds(lowered(name), "float32"@) ==> element_bytes(Some(name)) == 4,
        holds(lowered(name), "fp32"@) ==> element_bytes(Some(name)) == 4,
        element_bytes(Some(name)) == 1 ==> holds(lowered(name), "int8"@) || holds(
            lowered(name),
            "i8"@,
        ) || holds(lowered(name), "u8"@) || holds(lowered(name), "uint8"@),
        element_bytes(Some(name)) == 4 ==> holds(lowered(name), "32"@),
{
    reveal_strlit("fp32");
    reveal_strlit("float32");
    reveal_strlit("f32");
    reveal_strlit("32");
    reveal_strlit("");
    let low = lowered(name);
    assert forall|p: Seq<char>, k: int|
        p.len() >= 2 && p[p.len() - 2] == '3' && p[p.len() - 1] == '2'
            && #[trigger] crate::text::occurs_at(low, p, k) implies holds(low, "32"@) by {
        let at = k + p.len() - 2;
        assert(low.subrange(k, k + p.len())[p.len() - 2] == low[at]);
        assert(low.subrange(k, k + p.len())[p.len() - 1] == low[at + 1]);
        assert(low.subrange(at, at + 2) =~= "32"@);
        assert(crate::text::occurs_at(low, "32"@, at));
    }
    assert(lowered(Seq::<char>::empty()).len() == 0);
    assert forall|p: Seq<char>| p.len() > 0 implies !#[trigger] holds(
        lowered(Seq::<char>::empty()),
        p,
    ) by {}
    reveal_strlit("int8");
    reveal_strlit("uint8");
    reveal_strlit("i8");
    reveal_strlit("u8");
}

/// The configuration is only gone by where the architecture is not known to take more
/// memory; otherwise the cache is a share of the weights, a larger one for those that do.
pub proof fn heavy_models_are_not_taken_at_their_word(
    weights: u64,
    architecture: Option<Seq<char>>,
    config: Option<ConfigView>,
)
    requires
        weights < 0x20_0000_0000_0000,
    ensures
        ({
            let r = cache_estimate(weights, architecture, config);
            let heavy = architecture matches Some(name) && (holds(lowered(name), "jamba"@) || holds(
                lowered(name),
                "mamba"@,
            ) || holds(lowered(name), "mixtral"@) || holds(lowered(name), "moe"@));
            let told = config matches Some(c) && cache_from_config(c) is Some;
            &&& r.config_used <==> !heavy && told
            &&& !heavy && told ==> Some(r) == cache_from_config(config->0)
            &&& !r.config_used ==> r.confidence is Low
            &&& !r.config_used && heavy ==> 60 * weights <= 100 * r.bytes + 150 && 100 * r.bytes
                <= 60 * weights + 250
            &&& !r.config_used && !heavy ==> 35 * weights <= 100 * r.bytes + 150 && 100 * r.bytes
                <= 35 * weights + 250
        }),
{
    crate::binary64::shares_are_what_they_say(weights as nat, Ratio::Percent60);
    crate::binary64::shares_are_what_they_say(weights as nat, Ratio::Percent35);
}

/// A runtime takes a share of the weights, and never less than its floor: 256 MiB and
/// five parts in a hundred for GGUF, 512 MiB and eight for MLX, ten for the others.
pub proof fn runtimes_take_their_share(format: ModelFormat, weights: u64)
    requires
        weights < 0x20_0000_0000_0000,
    ensures
        ({
            let r = overhead(format, weights);
            let floor: int = if format is Gguf {
                268435456
            } else {
                536870912
            };
            let percent: int = if format is Gguf {
                5
            } else if format is Mlx {
                8
            } else {
                10
            };
            &&& r >= floor
            &&& percent * weights <= 100 * r + 150
            &&& r == floor || 100 * r <= percent * weights + 250
        }),
{
    crate::binary64::shares_are_what_they_say(weights as nat, Ratio::Percent5);
    crate::binary64::shares_are_what_they_say(weights as nat, Ratio::Percent8);
    crate::binary64::shares_are_what_they_say(weights as nat, Ratio::Percent10);
}

proof fn lemma_first_unsigned(v: JsonView, paths: Seq<Seq<Seq<char>>>, k: int)
    requires
        0 <= k < paths.len(),
        forall|j: int| 0 <= j < k ==> unsigned_of(at_path(v, #[trigger] paths[j])) is None,
        unsigned_of(at_path(v, paths[k])) is Some,
    ensures
        first_unsigned(v, paths) == unsigned_of(at_path(v, paths[k])),
    decreases k,
{
    if k > 0 {
        assert(unsigned_of(at_path(v, paths[0])) is None);
        let rest = paths.drop_first();
        assert forall|j: int| 0 <= j < k - 1 implies unsigned_of(at_path(v, #[trigger] rest[j]))
            is None by {
            assert(rest[j] == paths[j + 1]);
        }
        lemma_first_unsigned(v, rest, k - 1);
    }
}

proof fn lemma_top(v: JsonView, key: Seq<char>)
    ensures
        at_path(v, top(key)) == field(v, key),
{
    reveal_with_fuel(at_path, 2);
    assert(top(key).drop_first().len() == 0);
}

proof fn lemma_config_first(v: JsonView, tops: Seq<Seq<char>>, nested: Seq<Seq<char>>)
    requires
        tops.len() > 0,
        unsigned_of(field(v, tops[0])) is Some,
    ensures
        config_unsigned(v, tops, nested) == unsigned_of(field(v, tops[0])),
{
    let paths = places(tops, nested);
    assert(paths[0] == top(tops[0]));
    lemma_top(v, tops[0]);
    lemma_first_unsigned(v, paths, 0);
}

proof fn lemma_config_second(v: JsonView, tops: Seq<Seq<char>>, nested: Seq<Seq<char>>)
    requires
        tops.len() > 1,
        unsigned_of(field(v, tops[0])) is None,
        unsigned_of(field(v, tops[1])) is Some,
    ensures
        config_unsigned(v, tops, nested) == unsigned_of(field(v, tops[1])),
{
    let paths = places(tops, nested);
    assert(paths[0] == top(tops[0]));
    assert(paths[1] == top(tops[1]));
    lemma_top(v, tops[0]);
    lemma_top(v, tops[1]);
    lemma_first_unsigned(v, paths, 1);
}

/// A number that a configuration states under its usual name is the one that counts.
pub proof fn stated_numbers_count(v: JsonView)
    ensures
        unsigned_of(field(v, "hidden_size"@)) is Some ==> config_of(v).hidden_size == unsigned_of(
            field(v, "hidden_size"@),
        ),
        unsigned_of(field(v, "num_hidden_layers"@)) is Some ==> config_of(v).num_hidden_layers
            == unsigned_of(field(v, "num_hidden_layers"@)),
        unsigned_of(field(v, "num_attention_heads"@)) is Some ==> config_of(v).num_attention_heads
            == unsigned_of(field(v, "num_attention_heads"@)),
        unsigned_of(field(v, "num_key_value_heads"@)) is Some ==> config_of(v).num_key_value_heads
            == unsigned_of(field(v, "num_key_value_heads"@)),
        unsigned_of(field(v, "head_dim"@)) is Some ==> config_of(v).head_dim == unsigned_of(
            field(v, "head_dim"@),
        ),
        unsigned_of(field(v, "max_position_embeddings"@)) is Some ==> config_of(
            v,
        ).max_position_embeddings == unsigned_of(field(v, "max_position_embeddings"@)),
        unsigned_of(field(v, "sliding_window"@)) is Some ==> config_of(v).sliding_window
            == unsigned_of(field(v, "sliding_window"@)),
        unsigned_of(field(v, "vocab_size"@)) is Some ==> config_of(v).vocab_size == unsigned_of(
            field(v, "vocab_size"@),
        ),
        unsigned_of(field(v, "hidden_size"@)) is None && unsigned_of(field(v, "n_embd"@)) is Some
            ==> config_of(v).hidden_size == unsigned_of(field(v, "n_embd"@)),
        unsigned_of(field(v, "num_hidden_layers"@)) is None && unsigned_of(field(v, "n_layer"@))
            is Some ==> config_of(v).num_hidden_layers == unsigned_of(field(v, "n_layer"@)),
        unsigned_of(field(v, "num_attention_heads"@)) is None && unsigned_of(field(v, "n_head"@))
            is Some ==> config_of(v).num_attention_heads == unsigned_of(field(v, "n_head"@)),
        unsigned_of(field(v, "num_key_value_heads"@)) is None && unsigned_of(
            field(v, "n_head_kv"@),
        ) is Some ==> config_of(v).num_key_value_heads == unsigned_of(field(v, "n_head_kv"@)),
        unsigned_of(field(v, "max_position_embeddings"@)) is None && unsigned_of(
            field(v, "seq_length"@),
        ) is Some ==> config_of(v).max_position_embeddings == unsigned_of(field(v, "seq_length"@)),
        text_of(field(v, "torch_dtype"@)) is Some ==> config_of(v).dtype == text_of(
            field(v, "torch_dtype"@),
        ),
{
    if unsigned_of(field(v, "hidden_size"@)) is Some {
        lemma_config_first(v, seq!["hidden_size"@, "n_embd"@], seq!["hidden_size"@]);
    } else if unsigned_of(field(v, "n_embd"@)) is Some {
        lemma_config_second(v, seq!["hidden_size"@, "n_embd"@], seq!["hidden_size"@]);
    }
    if unsigned_of(field(v, "num_hidden_layers"@)) is Some {
        lemma_config_first(v, seq!["num_hidden_layers"@, "n_layer"@, "num_layers"@], seq!["num_hidden_layers"@]);
    } else if unsigned_of(field(v, "n_layer"@)) is Some {
        lemma_config_second(v, seq!["num_hidden_layers"@, "n_layer"@, "num_layers"@], seq!["num_hidden_layers"@]);
    }
    if unsigned_of(field(v, "num_attention_heads"@)) is Some {
        lemma_config_first(v, seq!["num_attention_heads"@, "n_head"@], seq!["num_attention_heads"@]);
    } else if unsigned_of(field(v, "n_head"@)) is Some {
        lemma_config_second(v, seq!["num_attention_heads"@, "n_head"@], seq!["num_attention_heads"@]);
    }
    if unsigned_of(field(v, "num_key_value_heads"@)) is Some {
        lemma_config_first(v, seq!["num_key_value_heads"@, "n_head_kv"@], seq!["num_key_value_heads"@]);
    } else if unsigned_of(field(v, "n_head_kv"@)) is Some {
        lemma_config_second(v, seq!["num_key_value_heads"@, "n_head_kv"@], seq!["num_key_value_heads"@]);
    }
    if unsigned_of(field(v, "head_dim"@)) is Some {
        lemma_config_first(v, seq!["head_dim"@], seq!["head_dim"@]);
    }
    if unsigned_of(field(v, "max_position_embeddings"@)) is Some {
        lemma_config_first(v, seq!["max_position_embeddings"@, "seq_length"@, "context_length"@, "model_max_length"@, "n_positions"@, "n_ctx"@], seq!["max_position_embeddings"@, "context_length"@]);
    } else if unsigned_of(field(v, "seq_length"@)) is Some {
        lemma_config_second(v, seq!["max_position_embeddings"@, "seq_length"@, "context_length"@, "model_max_length"@, "n_positions"@, "n_ctx"@], seq!["max_position_embeddings"@, "context_length"@]);
    }
    if unsigned_of(field(v, "sliding_window"@)) is Some {
        lemma_config_first(v, seq!["sliding_window"@], seq!["sliding_window"@]);
    }
    if unsigned_of(field(v, "vocab_size"@)) is Some {
        lemma_config_first(v, seq!["vocab_size"@], seq!["vocab_size"@]);
    }
    if text_of(field(v, "torch_dtype"@)) is Some {
        let paths = places(seq!["torch_dtype"@, "dtype"@], seq!["torch_dtype"@]);
        assert(paths[0] == top("torch_dtype"@));
        lemma_top(v, "torch_dtype"@);
    }
}

} // verus!
