//! A single media request: what a request file and the command line make of it
//! together.

use vstd::prelude::*;

use crate::fields::{field_views, get_field, place_value, put, put_field};
use crate::json::{Json, JsonNumber, JsonView, NumberView};
use crate::manifest::{InputModality, OutputModality};
use crate::media_request::{
    input_views, string_input, written_input, InferenceInput, InputView, RoutingOverrides,
};
use crate::run_inference::{
    apply_media_parameters, described_input, merge_routing, parse_input, seed_parameter,
    with_settings, SettingsView,
};
use crate::text::{decimal, opt_view, u64_text, views};

verus! {

/// The parts of a media request that both may speak of. The routing and the
/// parameters are fields in ascending order.
#[derive(Debug)]
pub struct MediaRun {
    pub inputs: Vec<InferenceInput>,
    pub routing: Vec<(String, Json)>,
    pub parameters: Vec<(String, Json)>,
}

pub ghost struct MediaRunView {
    pub inputs: Seq<InputView>,
    pub routing: Seq<(Seq<char>, JsonView)>,
    pub parameters: Seq<(Seq<char>, JsonView)>,
}

impl MediaRun {
    pub open spec fn view(&self) -> MediaRunView {
        MediaRunView {
            inputs: input_views(self.inputs@),
            routing: field_views(self.routing@),
            parameters: field_views(self.parameters@),
        }
    }
}

/// What the command line adds.
#[derive(Debug)]
pub struct MediaRunArgs {
    /// Inputs, each written as `MODALITY[:ROLE]=PATH_OR_URL`.
    pub inputs: Vec<String>,
    pub images: Vec<String>,
    pub seed: Option<u64>,
    pub settings: Vec<(String, Json)>,
}

// ---------------------------------------------------------------------------
// Inputs
// ---------------------------------------------------------------------------

/// The inputs with those that are described, up to the first that is not one.
pub open spec fn with_described(inputs: Seq<InputView>, values: Seq<Seq<char>>) -> Result<
    Seq<InputView>,
    Seq<char>,
>
    decreases values.len(),
{
    if values.len() == 0 {
        Ok(inputs)
    } else {
        match described_input(values[0]) {
            Ok(input) => with_described(inputs.push(input), values.drop_first()),
            Err(message) => Err(message),
        }
    }
}

/// The inputs with these images.
pub open spec fn with_images(inputs: Seq<InputView>, images: Seq<Seq<char>>) -> Seq<InputView> {
    inputs + images.map_values(
        |source: Seq<char>| written_input(InputModality::Image, "image"@, source),
    )
}

fn add_described(inputs: &mut Vec<InferenceInput>, values: &Vec<String>) -> (r: Result<(), String>)
    ensures
        match r {
            Ok(_) => with_described(input_views(old(inputs)@), views(values@)) == Ok::<
                Seq<InputView>,
                Seq<char>,
            >(input_views(final(inputs)@)),
            Err(message) => with_described(input_views(old(inputs)@), views(values@)) == Err::<
                Seq<InputView>,
                Seq<char>,
            >(message@),
        },
{
    let ghost all = views(values@);
    let mut i: usize = 0;
    assert(all.skip(0) =~= all);
    while i < values.len()
        invariant
            i <= values@.len(),
            all == views(values@),
            with_described(input_views(old(inputs)@), all) == with_described(
                input_views(inputs@),
                all.skip(i as int),
            ),
        decreases values@.len() - i,
    {
        assert(all.skip(i as int)[0] == values@[i as int]@);
        assert(all.skip(i as int).drop_first() =~= all.skip(i + 1));
        match parse_input(values[i].as_str()) {
            Ok(input) => {
                let ghost before = inputs@;
                inputs.push(input);
                assert(input_views(inputs@) =~= input_views(before).push(input@));
            },
            Err(message) => {
                return Err(message);
            },
        }
        i = i + 1;
    }
    assert(all.skip(i as int).len() == 0);
    Ok(())
}

fn add_images(inputs: &mut Vec<InferenceInput>, images: &Vec<String>)
    ensures
        input_views(final(inputs)@) == with_images(input_views(old(inputs)@), views(images@)),
{
    let ghost all = views(images@);
    let mut i: usize = 0;
    assert(with_images(input_views(inputs@), all.take(0)) =~= input_views(inputs@));
    while i < images.len()
        invariant
            i <= images@.len(),
            all == views(images@),
            input_views(inputs@) == with_images(
                input_views(old(inputs)@),
                all.take(i as int),
            ),
        decreases images@.len() - i,
    {
        let ghost before = inputs@;
        let input = string_input(InputModality::Image, "image", images[i].as_str());
        inputs.push(input);
        proof {
            assert(input_views(inputs@) =~= input_views(before).push(input@));
            assert(all[i as int] == images@[i as int]@);
            assert(input_views(inputs@) =~= with_images(
                input_views(old(inputs)@),
                all.take(i + 1),
            ));
        }
        i = i + 1;
    }
    assert(all.take(i as int) =~= all);
}

// ---------------------------------------------------------------------------
// The seed
// ---------------------------------------------------------------------------

/// An integer as JSON.
pub open spec fn integer_json(n: u64) -> JsonView {
    JsonView::Number(
        NumberView {
            unsigned: Some(n),
            signed: if n <= i64::MAX {
                Some(n as i64)
            } else {
                None
            },
            text: decimal(n as nat),
        },
    )
}

fn json_integer(n: u64) -> (r: Json)
    ensures
        r@ == integer_json(n),
{
    let signed: Option<i64> = if n <= i64::MAX as u64 {
        Some(n as i64)
    } else {
        None
    };
    Json::Number(JsonNumber { unsigned: Some(n), signed, text: u64_text(n) })
}

/// The name of the parameter that a seed is, where a modality has one.
pub open spec fn seed_name(modality: OutputModality) -> Option<Seq<char>> {
    match modality {
        OutputModality::Image => Some("image.seed"@),
        OutputModality::Video => Some("video.seed"@),
        OutputModality::Audio => Some("audio.seed"@),
        _ => None,
    }
}

/// The parameters with a seed.
pub open spec fn with_seed(
    parameters: Seq<(Seq<char>, JsonView)>,
    seed: Option<u64>,
    modality: OutputModality,
) -> Result<Seq<(Seq<char>, JsonView)>, Seq<char>> {
    match seed {
        None => Ok(parameters),
        Some(seed) => match seed_name(modality) {
            Some(name) => Ok(put(parameters, name, integer_json(seed))),
            None => Err(
                "--seed does not apply to this "@ + "task; use its canonical parameter schema"@,
            ),
        },
    }
}

fn add_seed(
    parameters: &mut Vec<(String, Json)>,
    seed: Option<u64>,
    modality: OutputModality,
) -> (r: Result<(), String>)
    ensures
        match r {
            Ok(_) => with_seed(field_views(old(parameters)@), seed, modality) == Ok::<
                Seq<(Seq<char>, JsonView)>,
                Seq<char>,
            >(field_views(final(parameters)@)),
            Err(message) => with_seed(field_views(old(parameters)@), seed, modality) == Err::<
                Seq<(Seq<char>, JsonView)>,
                Seq<char>,
            >(message@),
        },
{
    let seed: u64 = match seed {
        Some(seed) => seed,
        None => {
            return Ok(());
        },
    };
    match seed_parameter(modality) {
        Ok(name) => {
            put_field(parameters, name.to_owned(), json_integer(seed));
            Ok(())
        },
        Err(message) => Err(message),
    }
}

// ---------------------------------------------------------------------------
// The routing
// ---------------------------------------------------------------------------

/// What the routing says in a place that holds text: nothing where it is absent
/// or null.
pub open spec fn place_text(routing: Seq<(Seq<char>, JsonView)>, label: Seq<char>) -> Result<
    Option<Seq<char>>,
    Seq<char>,
> {
    match place_value(routing, label) {
        None => Ok(None),
        Some(JsonView::Null) => Ok(None),
        Some(JsonView::Text(text)) => Ok(Some(text)),
        Some(_) => Err("invalid routing override"@),
    }
}

/// The routing after the command line was heard on one place.
pub open spec fn with_place(
    routing: Seq<(Seq<char>, JsonView)>,
    label: Seq<char>,
    supplied: Option<Seq<char>>,
) -> Result<Seq<(Seq<char>, JsonView)>, Seq<char>> {
    match place_text(routing, label) {
        Err(message) => Err(message),
        Ok(requested) => match supplied {
            None => Ok(routing),
            Some(text) => if requested is Some && requested != supplied {
                Err("conflicting media "@ + label + " in request and CLI"@)
            } else {
                Ok(put(routing, label, JsonView::Text(text)))
            },
        },
    }
}

fn text_in_place(routing: &Vec<(String, Json)>, label: &str) -> (r: Result<Option<String>, String>)
    ensures
        match r {
            Ok(text) => place_text(field_views(routing@), label@) == Ok::<
                Option<Seq<char>>,
                Seq<char>,
            >(opt_view(text)),
            Err(message) => place_text(field_views(routing@), label@) == Err::<
                Option<Seq<char>>,
                Seq<char>,
            >(message@),
        },
{
    match get_field(routing, label) {
        None => Ok(None),
        Some(Json::Null) => Ok(None),
        Some(Json::Text(text)) => Ok(Some(text.as_str().to_owned())),
        Some(_) => Err("invalid routing override".to_owned()),
    }
}

fn merge_place(routing: &mut Vec<(String, Json)>, label: &str, supplied: Option<String>) -> (r:
    Result<(), String>)
    ensures
        match r {
            Ok(_) => with_place(field_views(old(routing)@), label@, opt_view(supplied)) == Ok::<
                Seq<(Seq<char>, JsonView)>,
                Seq<char>,
            >(field_views(final(routing)@)),
            Err(message) => with_place(field_views(old(routing)@), label@, opt_view(supplied))
                == Err::<Seq<(Seq<char>, JsonView)>, Seq<char>>(message@),
        },
{
    let requested = match text_in_place(routing, label) {
        Ok(requested) => requested,
        Err(message) => {
            return Err(message);
        },
    };
    let is_supplied = supplied.is_some();
    match merge_routing(label, requested, supplied) {
        Ok(merged) => {
            if is_supplied {
                if let Some(text) = merged {
                    put_field(routing, label.to_owned(), Json::Text(text));
                }
            }
            Ok(())
        },
        Err(message) => Err(message),
    }
}

/// The places that the command line may settle, in their order.
pub open spec fn with_places(
    routing: Seq<(Seq<char>, JsonView)>,
    selected: RoutingOverrides,
) -> Result<Seq<(Seq<char>, JsonView)>, Seq<char>> {
    match with_place(routing, "backend"@, opt_view(selected.backend)) {
        Err(message) => Err(message),
        Ok(first) => match with_place(first, "accelerator"@, opt_view(selected.accelerator)) {
            Err(message) => Err(message),
            Ok(second) => with_place(second, "device"@, opt_view(selected.device)),
        },
    }
}

// ---------------------------------------------------------------------------
// The request
// ---------------------------------------------------------------------------

/// The request after the command line was heard, or the first thing that does
/// not fit: an input, the seed, a setting, a place of the routing.
pub open spec fn heard_run(
    run: MediaRunView,
    modality: OutputModality,
    args: MediaRunArgs,
    selected: RoutingOverrides,
) -> Result<MediaRunView, Seq<char>> {
    match with_described(run.inputs, views(args.inputs@)) {
        Err(message) => Err(message),
        Ok(described) => match with_seed(run.parameters, args.seed, modality) {
            Err(message) => Err(message),
            Ok(seeded) => {
                let (after, refused) = with_settings(
                    SettingsView { routing: run.routing, parameters: seeded },
                    field_views(args.settings@),
                );
                match refused {
                    Some(message) => Err(message),
                    None => match with_places(after.routing, selected) {
                        Err(message) => Err(message),
                        Ok(routing) => Ok(
                            MediaRunView {
                                inputs: with_images(described, views(args.images@)),
                                routing,
                                parameters: after.parameters,
                            },
                        ),
                    },
                }
            },
        },
    }
}

/// Adds what the command line says to a request. `selected` is the routing of
/// the backend and the device that it names.
pub fn hear_media_run(
    run: MediaRun,
    modality: OutputModality,
    args: MediaRunArgs,
    selected: RoutingOverrides,
) -> (r: Result<MediaRun, String>)
    ensures
        match r {
            Ok(heard) => heard_run(run@, modality, args, selected) == Ok::<
                MediaRunView,
                Seq<char>,
            >(heard@),
            Err(message) => heard_run(run@, modality, args, selected) == Err::<
                MediaRunView,
                Seq<char>,
            >(message@),
        },
{
    let mut inputs = run.inputs;
    let mut routing = run.routing;
    let mut parameters = run.parameters;
    match add_described(&mut inputs, &args.inputs) {
        Ok(()) => {},
        Err(message) => {
            return Err(message);
        },
    }
    add_images(&mut inputs, &args.images);
    match add_seed(&mut parameters, args.seed, modality) {
        Ok(()) => {},
        Err(message) => {
            return Err(message);
        },
    }
    match apply_media_parameters(&mut routing, &mut parameters, args.settings) {
        Ok(()) => {},
        Err(message) => {
            return Err(message);
        },
    }
    match merge_place(&mut routing, "backend", selected.backend) {
        Ok(()) => {},
        Err(message) => {
            return Err(message);
        },
    }
    match merge_place(&mut routing, "accelerator", selected.accelerator) {
        Ok(()) => {},
        Err(message) => {
            return Err(message);
        },
    }
    match merge_place(&mut routing, "device", selected.device) {
        Ok(()) => {},
        Err(message) => {
            return Err(message);
        },
    }
    Ok(MediaRun { inputs, routing, parameters })
}

/// A request that does not name a place takes what the command line says of it,
/// and one that names it keeps what it says.
pub proof fn requests_and_arguments_agree(
    routing: Seq<(Seq<char>, JsonView)>,
    label: Seq<char>,
    supplied: Option<Seq<char>>,
)
    requires
        crate::fields::ascending(routing),
        with_place(routing, label, supplied) is Ok,
    ensures
        ({
            let before = place_text(routing, label)->Ok_0;
            let after = place_text(with_place(routing, label, supplied)->Ok_0, label);
            after == Ok::<Option<Seq<char>>, Seq<char>>(
                if supplied is Some {
                    supplied
                } else {
                    before
                },
            ) && (before is Some ==> after == Ok::<Option<Seq<char>>, Seq<char>>(before))
        }),
{
    if supplied is Some {
        let value = JsonView::Text(supplied->0);
        crate::fields::put_values_are_found(routing, label, value);
        crate::fields::lemma_place_value(put(routing, label, value), label);
    }
}

// ---------------------------------------------------------------------------
// What a media request says
// ---------------------------------------------------------------------------

/// What is described on the command line comes behind what the request has, one input
/// for each description, and the images behind that, each in its order.
pub proof fn inputs_come_in_order(
    inputs: Seq<InputView>,
    values: Seq<Seq<char>>,
    images: Seq<Seq<char>>,
    i: int,
)
    ensures
        with_described(inputs, values) matches Ok(all) ==> {
            &&& all.len() == inputs.len() + values.len()
            &&& inputs.is_prefix_of(all)
            &&& 0 <= i < values.len() ==> described_input(values[i]) == Ok::<InputView, Seq<char>>(
                all[inputs.len() + i],
            )
        },
        with_described(inputs, values) is Err ==> exists|k: int|
            0 <= k < values.len() && #[trigger] described_input(values[k]) is Err,
        with_images(inputs, images).len() == inputs.len() + images.len(),
        inputs.is_prefix_of(with_images(inputs, images)),
        0 <= i < images.len() ==> {
            let image = with_images(inputs, images)[inputs.len() + i];
            &&& image == written_input(InputModality::Image, "image"@, images[i])
            &&& image.modality is Image
            &&& image.role == "image"@
        },
    decreases values.len(),
{
    assert(inputs.is_prefix_of(with_images(inputs, images)));
    if values.len() > 0 {
        match described_input(values[0]) {
            Ok(input) => {
                let rest = values.drop_first();
                inputs_come_in_order(inputs.push(input), rest, images, i - 1);
                let r = with_described(inputs, values);
                if r is Ok {
                    let all = r->Ok_0;
                    assert(inputs.push(input).is_prefix_of(all));
                    assert(all[inputs.len() as int] == inputs.push(input)[inputs.len() as int]);
                    assert(all.take(inputs.len() as int) =~= all.take(
                        inputs.len() as int + 1,
                    ).take(inputs.len() as int));
                    assert(inputs =~= inputs.push(input).take(inputs.len() as int));
                    if 1 <= i < values.len() {
                        assert(rest[i - 1] == values[i]);
                    }
                } else {
                    let k = choose|k: int|
                        0 <= k < rest.len() && #[trigger] described_input(rest[k]) is Err;
                    assert(described_input(values[k + 1]) is Err);
                }
            },
            Err(_) => {
                assert(described_input(values[0]) is Err);
            },
        }
    }
}

/// A seed is the number that was given, under the name that belongs to what comes out;
/// what has no seed refuses one.
pub proof fn seeds_are_set_by_modality(
    parameters: Seq<(Seq<char>, JsonView)>,
    seed: u64,
    modality: OutputModality,
)
    requires
        crate::fields::ascending(parameters),
    ensures
        with_seed(parameters, None, modality) == Ok::<Seq<(Seq<char>, JsonView)>, Seq<char>>(
            parameters,
        ),
        with_seed(parameters, Some(seed), modality) is Ok <==> modality is Image || modality
            is Video || modality is Audio,
        with_seed(parameters, Some(seed), modality) matches Ok(after) ==> {
            let name = if modality is Image {
                "image.seed"@
            } else if modality is Video {
                "video.seed"@
            } else {
                "audio.seed"@
            };
            crate::json::lookup(after, name) matches Some(JsonView::Number(n)) && n.unsigned
                == Some(seed) && n.text == decimal(seed as nat) && (n.signed is Some <==> seed
                <= i64::MAX) && (n.signed is Some ==> n.signed->0 == seed)
        },
{
    crate::fields::put_values_are_found(parameters, "image.seed"@, integer_json(seed));
    crate::fields::put_values_are_found(parameters, "video.seed"@, integer_json(seed));
    crate::fields::put_values_are_found(parameters, "audio.seed"@, integer_json(seed));
}

/// The command line and the request may say the same of a place, or one of them nothing;
/// they conflict exactly where they say two things.
pub proof fn places_conflict_only_by_name(
    routing: Seq<(Seq<char>, JsonView)>,
    label: Seq<char>,
    a: Seq<char>,
    b: Seq<char>,
)
    requires
        crate::fields::ascending(routing),
    ensures
        ({
            let said = put(routing, label, JsonView::Text(a));
            &&& with_place(said, label, Some(b)) is Ok <==> a == b
            &&& with_place(said, label, None) == Ok::<Seq<(Seq<char>, JsonView)>, Seq<char>>(said)
        }),
        with_place(put(routing, label, JsonView::Null), label, Some(b)) is Ok,
        with_place(put(routing, label, JsonView::Bool(true)), label, Some(b)) is Err,
        crate::json::lookup(routing, label) is None ==> with_place(routing, label, Some(b))
            is Ok,
{
    let said = put(routing, label, JsonView::Text(a));
    crate::fields::put_values_are_found(routing, label, JsonView::Text(a));
    crate::fields::put_values_are_found(routing, label, JsonView::Null);
    crate::fields::put_values_are_found(routing, label, JsonView::Bool(true));
    crate::fields::lemma_place_value(said, label);
    crate::fields::lemma_place_value(put(routing, label, JsonView::Null), label);
    crate::fields::lemma_place_value(put(routing, label, JsonView::Bool(true)), label);
    crate::fields::lemma_place_value(routing, label);
}

/// The backend, the accelerator and the device of the command line are those of the
/// request that comes out.
pub proof fn places_are_taken_from_the_command_line(
    routing: Seq<(Seq<char>, JsonView)>,
    selected: RoutingOverrides,
)
    requires
        crate::fields::ascending(routing),
    ensures
        with_places(routing, selected) matches Ok(after) ==> {
            &&& selected.backend is Some ==> crate::json::lookup(after, "backend"@) == Some(
                JsonView::Text(selected.backend->0@),
            )
            &&& selected.accelerator is Some ==> crate::json::lookup(after, "accelerator"@)
                == Some(JsonView::Text(selected.accelerator->0@))
            &&& selected.device is Some ==> crate::json::lookup(after, "device"@) == Some(
                JsonView::Text(selected.device->0@),
            )
        },
{
    if with_places(routing, selected) is Ok {
        reveal_strlit("backend");
        reveal_strlit("accelerator");
        reveal_strlit("device");
        assert("backend"@.len() == 7 && "accelerator"@.len() == 11 && "device"@.len() == 6);
        let first = with_place(routing, "backend"@, opt_view(selected.backend))->Ok_0;
        if selected.backend is Some {
            crate::fields::put_values_are_found(
                routing,
                "backend"@,
                JsonView::Text(selected.backend->0@),
            );
        }
        let second = with_place(first, "accelerator"@, opt_view(selected.accelerator))->Ok_0;
        if selected.accelerator is Some {
            crate::fields::put_values_are_found(
                first,
                "accelerator"@,
                JsonView::Text(selected.accelerator->0@),
            );
        }
        if selected.device is Some {
            crate::fields::put_values_are_found(
                second,
                "device"@,
                JsonView::Text(selected.device->0@),
            );
        }
    }
}

} // verus!
