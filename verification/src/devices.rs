//! A bundled reference for Live's stock devices.
//!
//! `get_device_parameters` reports that Roar has forty parameters with names.
//! It cannot say that three of them matter, that `Filter Morph` is inert
//! outside Morph mode, or that driving a pad crowds everything above it. That
//! is what this carries, keyed by `class_name` so the two join up.
use vstd::prelude::*;

use crate::json::{
    array_from, count_json, count_view, entries_view, field, lemma_lookup_at, lemma_values_push,
    object_from, opt_text, opt_text_view, push_entry, values_view, Json, JsonV,
};
use crate::text::{
    alnum_lower, alnum_lowercase, append_str, chars_eq, chars_of, contains_chars, has_infix,
    string_from, to_lowercase, trim_chars, trim_seq, unicode_lowercase,
};

verus! {

broadcast use vstd::std_specs::vec::group_vec_axioms;

pub struct Parameter {
    pub name: String,
    pub does: String,
    pub quantized: Option<bool>,
    pub automate: Option<String>,
}

pub struct Device {
    pub class_name: String,
    pub name: String,
    pub kind: String,
    pub summary: String,
    pub key_parameters: Vec<Parameter>,
    pub gotchas: Option<String>,
}

pub struct Reference {
    pub note: String,
    pub reading_values: String,
    pub devices: Vec<Device>,
}

pub const USAGE: &'static str = "Pass `device` with a class_name or display name for the full entry, or `query` to search across summaries and parameters.";

pub const FALLBACK_NOTE: &'static str = "Only Live's most-used stock devices are covered. For anything else, get_device_parameters still reports names, ranges, display values and the named settings of quantized parameters.";

/// Names compared ignoring case and punctuation.
pub fn normalise(name: &str) -> (r: String)
    ensures
        r@ == alnum_lower(name@),
{
    alnum_lowercase(name)
}

/// A device as the index lists it.
pub open spec fn device_summary(d: Device) -> JsonV {
    JsonV::Object(
        seq![
            ("class_name"@, JsonV::Str(d.class_name@)),
            ("name"@, JsonV::Str(d.name@)),
            ("kind"@, JsonV::Str(d.kind@)),
            ("summary"@, JsonV::Str(d.summary@)),
        ],
    )
}

/// The device index.
pub open spec fn index_json(r: Reference) -> JsonV {
    JsonV::Object(
        seq![
            ("note"@, JsonV::Str(r.note@)),
            ("reading_values"@, JsonV::Str(r.reading_values@)),
            ("usage"@, JsonV::Str(USAGE@)),
            ("devices"@, JsonV::Array(r.devices@.map_values(|d: Device| device_summary(d)))),
        ],
    )
}

/// How a parameter is shown: name and purpose, `quantized` when it is, and
/// whether it is worth automating when the reference says.
pub open spec fn parameter_json(p: Parameter) -> JsonV {
    JsonV::Object(
        seq![("name"@, JsonV::Str(p.name@)), ("does"@, JsonV::Str(p.does@))] + (if p.quantized
            == Some(true) {
            seq![("quantized"@, JsonV::Bool(true))]
        } else {
            Seq::empty()
        }) + (match p.automate {
            Some(a) => seq![("worth_automating"@, JsonV::Str(a@))],
            None => Seq::empty(),
        }),
    )
}

/// How `d` answers to the normalised `needle`: by class name (`0`), by
/// display name (`1`), or by one display name holding the other (`2`).
pub open spec fn answers_to(d: Device, needle: Seq<char>, how: int) -> bool {
    if how == 0 {
        alnum_lower(d.class_name@) == needle
    } else if how == 1 {
        alnum_lower(d.name@) == needle
    } else {
        has_infix(alnum_lower(d.name@), needle) || has_infix(needle, alnum_lower(d.name@))
    }
}

/// The first device that answers to `needle` in the way `how`.
pub open spec fn first_answering(devices: Seq<Device>, needle: Seq<char>, how: int) -> Option<int>
    decreases devices.len(),
{
    if devices.len() == 0 {
        None
    } else if answers_to(devices[0], needle, how) {
        Some(0)
    } else {
        match first_answering(devices.drop_first(), needle, how) {
            Some(k) => Some(k + 1),
            None => None,
        }
    }
}

pub proof fn lemma_first_answering(devices: Seq<Device>, needle: Seq<char>, how: int)
    ensures
        first_answering(devices, needle, how) matches Some(i) ==> 0 <= i < devices.len(),
    decreases devices.len(),
{
    if devices.len() > 0 {
        lemma_first_answering(devices.drop_first(), needle, how);
    }
}

/// The device a name finds: by `class_name` first, since that is what Live
/// reports, then by display name, so both "InstrumentVector" and
/// "Wavetable" resolve.
pub open spec fn found_device(devices: Seq<Device>, wanted: Seq<char>) -> Option<int> {
    let needle = alnum_lower(wanted);
    match first_answering(devices, needle, 0) {
        Some(i) => Some(i),
        None => match first_answering(devices, needle, 1) {
            Some(i) => Some(i),
            None => first_answering(devices, needle, 2),
        },
    }
}

/// Names that differ only in case and punctuation (`EQ Eight`, `eq-eight`,
/// `eqeight`) find the same device.
pub proof fn lemma_lookup_ignores_case_and_punctuation(devices: Seq<Device>, a: Seq<char>, b: Seq<char>)
    requires
        alnum_lower(a) == alnum_lower(b),
    ensures
        found_device(devices, a) == found_device(devices, b),
{
}

/// The full entry of a device.
pub open spec fn device_json(r: Reference, d: Device) -> JsonV {
    JsonV::Object(
        seq![
            ("class_name"@, JsonV::Str(d.class_name@)),
            ("name"@, JsonV::Str(d.name@)),
            ("kind"@, JsonV::Str(d.kind@)),
            ("summary"@, JsonV::Str(d.summary@)),
            ("key_parameters"@, JsonV::Array(d.key_parameters@.map_values(|p: Parameter| parameter_json(p)))),
            ("gotchas"@, opt_text_view(d.gotchas)),
            ("reading_values"@, JsonV::Str(r.reading_values@)),
        ],
    )
}

/// What describing the device `wanted` answers.
pub open spec fn describe_json(r: Reference, wanted: Seq<char>) -> JsonV {
    match found_device(r.devices@, wanted) {
        Some(i) => device_json(r, r.devices@[i]),
        None => JsonV::Object(
            seq![
                ("error"@, JsonV::Str("no bundled reference for `"@ + wanted + "`"@)),
                ("note"@, JsonV::Str(FALLBACK_NOTE@)),
                ("known"@, JsonV::Array(r.devices@.map_values(|d: Device| JsonV::Str(d.class_name@)))),
            ],
        ),
    }
}

/// `text`, lowercased, holds `needle`.
pub open spec fn mentions(text: Seq<char>, needle: Seq<char>) -> bool {
    has_infix(unicode_lowercase(text), needle)
}

pub open spec fn device_matches(d: Device, needle: Seq<char>) -> bool {
    mentions(d.name@, needle) || mentions(d.class_name@, needle) || mentions(d.summary@, needle)
}

pub open spec fn parameter_matches(p: Parameter, needle: Seq<char>) -> bool {
    mentions(p.name@, needle) || mentions(p.does@, needle)
}

/// The parameters of `d` that match.
pub open spec fn matching_parameters(d: Device, needle: Seq<char>) -> Seq<JsonV> {
    d.key_parameters@.filter(|p: Parameter| parameter_matches(p, needle)).map_values(
        |p: Parameter| parameter_json(p),
    )
}

/// What a search finds in one device: the device itself when it matches,
/// else its matching parameters, if any.
pub open spec fn device_hits(d: Device, needle: Seq<char>) -> Seq<JsonV> {
    if device_matches(d, needle) {
        seq![
            JsonV::Object(
                seq![
                    ("class_name"@, JsonV::Str(d.class_name@)),
                    ("name"@, JsonV::Str(d.name@)),
                    ("kind"@, JsonV::Str(d.kind@)),
                    ("summary"@, JsonV::Str(d.summary@)),
                    ("matched"@, JsonV::Str("device"@)),
                ],
            ),
        ]
    } else if matching_parameters(d, needle).len() > 0 {
        seq![
            JsonV::Object(
                seq![
                    ("class_name"@, JsonV::Str(d.class_name@)),
                    ("name"@, JsonV::Str(d.name@)),
                    ("matched"@, JsonV::Str("parameters"@)),
                    ("parameters"@, JsonV::Array(matching_parameters(d, needle))),
                ],
            ),
        ]
    } else {
        Seq::empty()
    }
}

/// Every hit, device by device.
pub open spec fn all_hits(devices: Seq<Device>, needle: Seq<char>) -> Seq<JsonV>
    decreases devices.len(),
{
    if devices.len() == 0 {
        Seq::empty()
    } else {
        all_hits(devices.drop_last(), needle) + device_hits(devices.last(), needle)
    }
}

/// What searching for `query` answers: the index when it is blank, else
/// the hits and how many there are.
pub open spec fn search_json(r: Reference, query: Seq<char>) -> JsonV {
    let needle = unicode_lowercase(trim_seq(query));
    if needle.len() == 0 {
        index_json(r)
    } else {
        let hits = all_hits(r.devices@, needle);
        JsonV::Object(
            seq![
                ("query"@, JsonV::Str(query)),
                ("matches"@, count_view(hits.len())),
                ("results"@, JsonV::Array(hits)),
            ],
        )
    }
}

/// `text`, ignoring case, holds what the search `query` asks for: the
/// query trimmed and lowercased.
pub open spec fn asks_for(text: Seq<char>, query: Seq<char>) -> bool {
    has_infix(unicode_lowercase(text), unicode_lowercase(trim_seq(query)))
}

/// The device `d` is found by `query`: its name, class name or summary, or
/// the name or description of one of its key parameters, holds the query,
/// ignoring case.
pub open spec fn found_by(d: Device, query: Seq<char>) -> bool {
    ||| asks_for(d.name@, query)
    ||| asks_for(d.class_name@, query)
    ||| asks_for(d.summary@, query)
    ||| exists|i: int|
        0 <= i < d.key_parameters@.len() && (asks_for((#[trigger] d.key_parameters@[i]).name@, query)
            || asks_for(d.key_parameters@[i].does@, query))
}

proof fn lemma_hits_count(devices: Seq<Device>, query: Seq<char>)
    ensures
        all_hits(devices, unicode_lowercase(trim_seq(query))).len() == devices.filter(
            |d: Device| found_by(d, query),
        ).len(),
    decreases devices.len(),
{
    reveal_with_fuel(Seq::filter, 1);
    if devices.len() > 0 {
        let needle = unicode_lowercase(trim_seq(query));
        lemma_hits_count(devices.drop_last(), query);
        let d = devices.last();
        let pm = |p: Parameter| parameter_matches(p, needle);
        if exists|i: int|
            0 <= i < d.key_parameters@.len() && (asks_for((#[trigger] d.key_parameters@[i]).name@, query)
                || asks_for(d.key_parameters@[i].does@, query)) {
            let i = choose|i: int|
                0 <= i < d.key_parameters@.len() && (asks_for((#[trigger] d.key_parameters@[i]).name@, query)
                    || asks_for(d.key_parameters@[i].does@, query));
            d.key_parameters@.lemma_filter_contains(pm, i);
        } else if d.key_parameters@.filter(pm).len() > 0 {
            let f = d.key_parameters@.filter(pm);
            assert(f.contains(f[0]));
            d.key_parameters@.lemma_filter_contains_rev(pm, f[0]);
        }
    }
}

/// Searching ignores the case of the query: two queries that read the same
/// once trimmed and lowercased find the same devices, as many of them.
pub proof fn lemma_search_ignores_case(r: Reference, a: Seq<char>, b: Seq<char>)
    requires
        unicode_lowercase(trim_seq(a)) == unicode_lowercase(trim_seq(b)),
    ensures
        field(lookup_json(r, None, Some(a)), "results"@) == field(lookup_json(r, None, Some(b)), "results"@),
        field(lookup_json(r, None, Some(a)), "matches"@) == field(lookup_json(r, None, Some(b)), "matches"@),
{
    if unicode_lowercase(trim_seq(a)).len() > 0 {
        reveal_strlit("query");
        reveal_strlit("matches");
        reveal_strlit("results");
        assert("query"@.len() != "matches"@.len());
        assert("query"@.len() != "results"@.len());
        assert("matches"@[0] != "results"@[0]);
        let ea = lookup_json(r, None, Some(a))->Object_0;
        let eb = lookup_json(r, None, Some(b))->Object_0;
        lemma_lookup_at(ea, "matches"@, 1);
        lemma_lookup_at(eb, "matches"@, 1);
        lemma_lookup_at(ea, "results"@, 2);
        lemma_lookup_at(eb, "results"@, 2);
    }
}

/// A search that asks for something counts exactly the devices it is found
/// in: those whose name, class name or summary, or one of whose key
/// parameters' name or description, holds the query, ignoring case.
pub proof fn lemma_search_counts_what_it_finds(r: Reference, q: Seq<char>)
    requires
        unicode_lowercase(trim_seq(q)).len() > 0,
    ensures
        field(lookup_json(r, None, Some(q)), "matches"@) == Some(
            count_view(r.devices@.filter(|d: Device| found_by(d, q)).len()),
        ),
{
    lemma_hits_count(r.devices@, q);
    reveal_strlit("query");
    reveal_strlit("matches");
    reveal_strlit("results");
    let j = lookup_json(r, None, Some(q));
    let e = j->Object_0;
    assert("query"@.len() != "matches"@.len());
    lemma_lookup_at(e, "matches"@, 1);
}

/// How a search reports a device it finds: as the device itself when its
/// name, class name or summary holds the query, else by its parameters.
pub open spec fn found_as(d: Device, query: Seq<char>) -> Seq<char> {
    if asks_for(d.name@, query) || asks_for(d.class_name@, query) || asks_for(d.summary@, query) {
        "device"@
    } else {
        "parameters"@
    }
}

/// The key parameter `p` holds `query` in its name or description,
/// ignoring case.
pub open spec fn parameter_found(p: Parameter, query: Seq<char>) -> bool {
    asks_for(p.name@, query) || asks_for(p.does@, query)
}

/// The result `j` reports the device `d` as found by `query`: it names
/// `d`'s class and says what of `d` matched; when that is its parameters,
/// it lists, in order, each key parameter that holds the query, by name.
pub open spec fn reports(j: JsonV, d: Device, query: Seq<char>) -> bool {
    let found = d.key_parameters@.filter(|p: Parameter| parameter_found(p, query));
    &&& field(j, "class_name"@) == Some(JsonV::Str(d.class_name@))
    &&& field(j, "matched"@) == Some(JsonV::Str(found_as(d, query)))
    &&& found_as(d, query) == "parameters"@ ==> (field(j, "parameters"@) matches Some(JsonV::Array(ps))
        && ps.len() == found.len() && forall|k: int|
        0 <= k < ps.len() ==> field(#[trigger] ps[k], "name"@) == Some(JsonV::Str(found[k].name@)))
}

proof fn lemma_device_hit(d: Device, query: Seq<char>)
    requires
        device_hits(d, unicode_lowercase(trim_seq(query))).len() == 1,
    ensures
        reports(device_hits(d, unicode_lowercase(trim_seq(query)))[0], d, query),
{
    let needle = unicode_lowercase(trim_seq(query));
    reveal_strlit("class_name");
    reveal_strlit("name");
    reveal_strlit("kind");
    reveal_strlit("summary");
    reveal_strlit("matched");
    reveal_strlit("parameters");
    reveal_strlit("device");
    let j = device_hits(d, needle)[0];
    let e = j->Object_0;
    lemma_lookup_at(e, "class_name"@, 0);
    assert("name"@.len() != "matched"@.len());
    assert("class_name"@.len() != "matched"@.len());
    if device_matches(d, needle) {
        assert("kind"@.len() != "matched"@.len());
        assert("summary"@[0] != "matched"@[0]);
        lemma_lookup_at(e, "matched"@, 4);
    } else {
        lemma_lookup_at(e, "matched"@, 2);
        assert("class_name"@[0] != "parameters"@[0]);
        assert("name"@.len() != "parameters"@.len());
        assert("matched"@.len() != "parameters"@.len());
        lemma_lookup_at(e, "parameters"@, 3);
        let pm = |p: Parameter| parameter_matches(p, needle);
        let pf = |p: Parameter| parameter_found(p, query);
        assert(pm =~= pf);
        let found = d.key_parameters@.filter(pf);
        let ps = matching_parameters(d, needle);
        assert forall|k: int| 0 <= k < ps.len() implies field(#[trigger] ps[k], "name"@) == Some(
            JsonV::Str(found[k].name@),
        ) by {
            assert(ps[k] == parameter_json(found[k]));
            lemma_lookup_at(ps[k]->Object_0, "name"@, 0);
        }
    }
    assert("device"@.len() != "parameters"@.len());
}

proof fn lemma_hits_list(devices: Seq<Device>, query: Seq<char>)
    ensures
        ({
            let h = all_hits(devices, unicode_lowercase(trim_seq(query)));
            let f = devices.filter(|d: Device| found_by(d, query));
            &&& h.len() == f.len()
            &&& forall|i: int| 0 <= i < h.len() ==> reports(#[trigger] h[i], f[i], query)
        }),
    decreases devices.len(),
{
    reveal_with_fuel(Seq::filter, 1);
    lemma_hits_count(devices, query);
    if devices.len() > 0 {
        let needle = unicode_lowercase(trim_seq(query));
        let p = devices.drop_last();
        let d = devices.last();
        lemma_hits_list(p, query);
        lemma_hits_count(p, query);
        let hp = all_hits(p, needle);
        let h = all_hits(devices, needle);
        let fp = p.filter(|x: Device| found_by(x, query));
        let f = devices.filter(|x: Device| found_by(x, query));
        assert forall|i: int| 0 <= i < h.len() implies reports(#[trigger] h[i], f[i], query) by {
            if i < hp.len() {
                assert(h[i] == hp[i]);
                assert(f[i] == fp[i]);
            } else {
                assert(found_by(d, query));
                assert(f =~= fp.push(d));
                assert(h[i] == device_hits(d, needle)[0]);
                lemma_device_hit(d, query);
            }
        }
    }
}

/// A search lists, in the reference's order, one result for each device it
/// finds: each names the device's class and says whether the device itself
/// or only its parameters hold the query, and in the latter case lists, in
/// order, the key parameters that do.
pub proof fn lemma_search_lists_what_it_finds(r: Reference, q: Seq<char>)
    requires
        unicode_lowercase(trim_seq(q)).len() > 0,
    ensures
        ({
            let f = r.devices@.filter(|d: Device| found_by(d, q));
            field(lookup_json(r, None, Some(q)), "results"@) matches Some(JsonV::Array(h)) && h.len() == f.len()
                && forall|i: int| 0 <= i < h.len() ==> reports(#[trigger] h[i], f[i], q)
        }),
{
    lemma_hits_list(r.devices@, q);
    reveal_strlit("query");
    reveal_strlit("matches");
    reveal_strlit("results");
    let e = lookup_json(r, None, Some(q))->Object_0;
    assert("query"@.len() != "results"@.len());
    assert("matches"@[0] != "results"@[0]);
    lemma_lookup_at(e, "results"@, 2);
}

/// What a `device_reference` call answers: a device by name, else a
/// search, else the index.
pub open spec fn lookup_json(r: Reference, device: Option<Seq<char>>, query: Option<Seq<char>>) -> JsonV {
    match device {
        Some(name) => describe_json(r, name),
        None => match query {
            Some(q) => search_json(r, q),
            None => index_json(r),
        },
    }
}

/// The view of an optional string.
pub open spec fn opt_seq(o: Option<&str>) -> Option<Seq<char>> {
    match o {
        Some(s) => Some(s@),
        None => None,
    }
}

/// Serve a `device_reference` call from the reference.
pub fn lookup(reference: &Reference, device: Option<&str>, query: Option<&str>) -> (r: Json)
    ensures
        r@ == lookup_json(*reference, opt_seq(device), opt_seq(query)),
{
    match device {
        Some(name) => describe(reference, name),
        None => match query {
            Some(q) => search(reference, q),
            None => index(reference),
        },
    }
}

fn summary(d: &Device) -> (r: Json)
    ensures
        r@ == device_summary(*d),
{
    let mut e: Vec<(String, Json)> = Vec::new();
    push_entry(&mut e, "class_name", Json::Str(d.class_name.clone()));
    push_entry(&mut e, "name", Json::Str(d.name.clone()));
    push_entry(&mut e, "kind", Json::Str(d.kind.clone()));
    push_entry(&mut e, "summary", Json::Str(d.summary.clone()));
    assert(entries_view(e@) =~= seq![
        ("class_name"@, JsonV::Str(d.class_name@)),
        ("name"@, JsonV::Str(d.name@)),
        ("kind"@, JsonV::Str(d.kind@)),
        ("summary"@, JsonV::Str(d.summary@)),
    ]);
    object_from(e)
}

fn index(reference: &Reference) -> (r: Json)
    ensures
        r@ == index_json(*reference),
{
    let mut list: Vec<Json> = Vec::new();
    let mut i: usize = 0;
    while i < reference.devices.len()
        invariant
            i <= reference.devices@.len(),
            values_view(list@) == reference.devices@.take(i as int).map_values(|d: Device| device_summary(d)),
        decreases reference.devices.len() - i,
    {
        let item = summary(&reference.devices[i]);
        let ghost before = list@;
        list.push(item);
        proof {
            lemma_values_push(before, item);
            assert(reference.devices@.take(i + 1) =~= reference.devices@.take(i as int).push(reference.devices@[i as int]));
        }
        assert(values_view(list@) =~= reference.devices@.take(i + 1).map_values(|d: Device| device_summary(d)));
        i += 1;
    }
    assert(reference.devices@.take(reference.devices@.len() as int) =~= reference.devices@);
    let mut e: Vec<(String, Json)> = Vec::new();
    push_entry(&mut e, "note", Json::Str(reference.note.clone()));
    push_entry(&mut e, "reading_values", Json::Str(reference.reading_values.clone()));
    push_entry(&mut e, "usage", Json::text(USAGE));
    push_entry(&mut e, "devices", array_from(list));
    assert(entries_view(e@) =~= seq![
        ("note"@, JsonV::Str(reference.note@)),
        ("reading_values"@, JsonV::Str(reference.reading_values@)),
        ("usage"@, JsonV::Str(USAGE@)),
        ("devices"@, JsonV::Array(reference.devices@.map_values(|d: Device| device_summary(d)))),
    ]);
    object_from(e)
}

/// The optional entries of a parameter.
pub open spec fn parameter_extras(p: Parameter) -> Seq<(Seq<char>, JsonV)> {
    (if p.quantized == Some(true) {
        seq![("quantized"@, JsonV::Bool(true))]
    } else {
        Seq::empty()
    }) + (match p.automate {
        Some(a) => seq![("worth_automating"@, JsonV::Str(a@))],
        None => Seq::empty(),
    })
}

fn parameter(p: &Parameter) -> (r: Json)
    ensures
        r@ == parameter_json(*p),
{
    let mut e: Vec<(String, Json)> = Vec::new();
    push_entry(&mut e, "name", Json::Str(p.name.clone()));
    push_entry(&mut e, "does", Json::Str(p.does.clone()));
    let ghost a = entries_view(e@);
    if p.quantized == Some(true) {
        push_entry(&mut e, "quantized", Json::Bool(true));
    }
    let ghost b = entries_view(e@);
    match &p.automate {
        Some(x) => {
            push_entry(&mut e, "worth_automating", Json::Str(x.clone()));
        },
        None => {},
    }
    proof {
        assert(a =~= seq![("name"@, JsonV::Str(p.name@)), ("does"@, JsonV::Str(p.does@))]);
        assert(entries_view(e@) =~= a + parameter_extras(*p));
        assert(a + parameter_extras(*p) =~= seq![("name"@, JsonV::Str(p.name@)), ("does"@, JsonV::Str(p.does@))] + (if p.quantized == Some(true) {
            seq![("quantized"@, JsonV::Bool(true))]
        } else {
            Seq::empty()
        }) + (match p.automate {
            Some(a) => seq![("worth_automating"@, JsonV::Str(a@))],
            None => Seq::empty(),
        }));
    }
    object_from(e)
}

/// The first device answering to `needle` in the way `how`.
fn find_device(devices: &Vec<Device>, needle: &Vec<char>, how: u8) -> (r: Option<usize>)
    requires
        how <= 2,
    ensures
        match r {
            Some(i) => first_answering(devices@, needle@, how as int) == Some(i as int),
            None => first_answering(devices@, needle@, how as int) is None,
        },
{
    let mut i: usize = 0;
    assert(devices@.skip(0) =~= devices@);
    while i < devices.len()
        invariant
            i <= devices@.len(),
            how <= 2,
            first_answering(devices@, needle@, how as int) == match first_answering(devices@.skip(i as int), needle@, how as int) {
                Some(k) => Some(k + i),
                None => None,
            },
        decreases devices.len() - i,
    {
        let d = &devices[i];
        let hit = if how == 0 {
            let c = chars_of(normalise(d.class_name.as_str()).as_str());
            chars_eq(&c, needle)
        } else {
            let n = chars_of(normalise(d.name.as_str()).as_str());
            if how == 1 {
                chars_eq(&n, needle)
            } else {
                contains_chars(&n, needle) || contains_chars(needle, &n)
            }
        };
        assert(devices@.skip(i as int)[0] == devices@[i as int]);
        assert(devices@.skip(i as int).drop_first() =~= devices@.skip(i + 1));
        if hit {
            return Some(i);
        }
        i += 1;
    }
    None
}

fn describe(reference: &Reference, wanted: &str) -> (r: Json)
    ensures
        r@ == describe_json(*reference, wanted@),
{
    let needle = chars_of(normalise(wanted).as_str());
    let found = match find_device(&reference.devices, &needle, 0) {
        Some(i) => Some(i),
        None => match find_device(&reference.devices, &needle, 1) {
            Some(i) => Some(i),
            None => find_device(&reference.devices, &needle, 2),
        },
    };
    proof {
        lemma_first_answering(reference.devices@, needle@, 0);
        lemma_first_answering(reference.devices@, needle@, 1);
        lemma_first_answering(reference.devices@, needle@, 2);
    }
    match found {
        Some(i) => {
            let d = &reference.devices[i];
            let mut params: Vec<Json> = Vec::new();
            let mut k: usize = 0;
            while k < d.key_parameters.len()
                invariant
                    k <= d.key_parameters@.len(),
                    values_view(params@) == d.key_parameters@.take(k as int).map_values(|p: Parameter| parameter_json(p)),
                decreases d.key_parameters.len() - k,
            {
                let item = parameter(&d.key_parameters[k]);
                let ghost before = params@;
                params.push(item);
                proof {
                    lemma_values_push(before, item);
                    assert(d.key_parameters@.take(k + 1) =~= d.key_parameters@.take(k as int).push(d.key_parameters@[k as int]));
                }
                assert(values_view(params@) =~= d.key_parameters@.take(k + 1).map_values(|p: Parameter| parameter_json(p)));
                k += 1;
            }
            assert(d.key_parameters@.take(d.key_parameters@.len() as int) =~= d.key_parameters@);
            let mut e: Vec<(String, Json)> = Vec::new();
            push_entry(&mut e, "class_name", Json::Str(d.class_name.clone()));
            push_entry(&mut e, "name", Json::Str(d.name.clone()));
            push_entry(&mut e, "kind", Json::Str(d.kind.clone()));
            push_entry(&mut e, "summary", Json::Str(d.summary.clone()));
            push_entry(&mut e, "key_parameters", array_from(params));
            push_entry(&mut e, "gotchas", opt_text(&d.gotchas));
            push_entry(&mut e, "reading_values", Json::Str(reference.reading_values.clone()));
            assert(entries_view(e@) =~= seq![
                ("class_name"@, JsonV::Str(d.class_name@)),
                ("name"@, JsonV::Str(d.name@)),
                ("kind"@, JsonV::Str(d.kind@)),
                ("summary"@, JsonV::Str(d.summary@)),
                ("key_parameters"@, JsonV::Array(d.key_parameters@.map_values(|p: Parameter| parameter_json(p)))),
                ("gotchas"@, opt_text_view(d.gotchas)),
                ("reading_values"@, JsonV::Str(reference.reading_values@)),
            ]);
            object_from(e)
        },
        None => {
            let mut msg: Vec<char> = Vec::new();
            append_str(&mut msg, "no bundled reference for `");
            append_str(&mut msg, wanted);
            append_str(&mut msg, "`");
            let mut known: Vec<Json> = Vec::new();
            let mut i: usize = 0;
            while i < reference.devices.len()
                invariant
                    i <= reference.devices@.len(),
                    values_view(known@) == reference.devices@.take(i as int).map_values(|d: Device| JsonV::Str(d.class_name@)),
                decreases reference.devices.len() - i,
            {
                let item = Json::Str(reference.devices[i].class_name.clone());
                let ghost before = known@;
                known.push(item);
                proof {
                    lemma_values_push(before, item);
                    assert(reference.devices@.take(i + 1) =~= reference.devices@.take(i as int).push(reference.devices@[i as int]));
                }
                assert(values_view(known@) =~= reference.devices@.take(i + 1).map_values(|d: Device| JsonV::Str(d.class_name@)));
                i += 1;
            }
            assert(reference.devices@.take(reference.devices@.len() as int) =~= reference.devices@);
            let mut e: Vec<(String, Json)> = Vec::new();
            push_entry(&mut e, "error", Json::Str(string_from(&msg)));
            push_entry(&mut e, "note", Json::text(FALLBACK_NOTE));
            push_entry(&mut e, "known", array_from(known));
            assert(entries_view(e@) =~= seq![
                ("error"@, JsonV::Str("no bundled reference for `"@ + wanted@ + "`"@)),
                ("note"@, JsonV::Str(FALLBACK_NOTE@)),
                ("known"@, JsonV::Array(reference.devices@.map_values(|d: Device| JsonV::Str(d.class_name@)))),
            ]);
            object_from(e)
        },
    }
}

/// Whether `text`, lowercased, holds `needle`.
fn mentions_text(text: &String, needle: &Vec<char>) -> (r: bool)
    ensures
        r == mentions(text@, needle@),
{
    let lower = chars_of(to_lowercase(text.as_str()).as_str());
    contains_chars(&lower, needle)
}

fn parameters_matching(d: &Device, needle: &Vec<char>) -> (r: Vec<Json>)
    ensures
        values_view(r@) == matching_parameters(*d, needle@),
{
    let ghost keep = |p: Parameter| parameter_matches(p, needle@);
    let mut out: Vec<Json> = Vec::new();
    let mut i: usize = 0;
    while i < d.key_parameters.len()
        invariant
            i <= d.key_parameters@.len(),
            keep == (|p: Parameter| parameter_matches(p, needle@)),
            values_view(out@) == d.key_parameters@.take(i as int).filter(keep).map_values(
                |p: Parameter| parameter_json(p),
            ),
        decreases d.key_parameters.len() - i,
    {
        let p = &d.key_parameters[i];
        proof {
            assert(d.key_parameters@.take(i + 1).drop_last() =~= d.key_parameters@.take(i as int));
            reveal_with_fuel(Seq::filter, 1);
        }
        if mentions_text(&p.name, needle) || mentions_text(&p.does, needle) {
            let item = parameter(p);
            let ghost before = out@;
            out.push(item);
            proof {
                lemma_values_push(before, item);
            }
            assert(d.key_parameters@.take(i + 1).filter(keep) == d.key_parameters@.take(i as int).filter(keep).push(*p));
            assert(values_view(out@) =~= d.key_parameters@.take(i + 1).filter(keep).map_values(
                |p: Parameter| parameter_json(p),
            ));
        } else {
            assert(d.key_parameters@.take(i + 1).filter(keep) == d.key_parameters@.take(i as int).filter(keep));
        }
        i += 1;
    }
    assert(d.key_parameters@.take(d.key_parameters@.len() as int) =~= d.key_parameters@);
    out
}

fn search(reference: &Reference, query: &str) -> (r: Json)
    ensures
        r@ == search_json(*reference, query@),
{
    let trimmed = string_from(&trim_chars(&chars_of(query)));
    let needle = chars_of(to_lowercase(trimmed.as_str()).as_str());
    if needle.len() == 0 {
        return index(reference);
    }
    let mut hits: Vec<Json> = Vec::new();
    let mut i: usize = 0;
    while i < reference.devices.len()
        invariant
            i <= reference.devices@.len(),
            values_view(hits@) == all_hits(reference.devices@.take(i as int), needle@),
        decreases reference.devices.len() - i,
    {
        let d = &reference.devices[i];
        let ghost before = hits@;
        if mentions_text(&d.name, &needle) || mentions_text(&d.class_name, &needle) || mentions_text(
            &d.summary,
            &needle,
        ) {
            let mut e: Vec<(String, Json)> = Vec::new();
            push_entry(&mut e, "class_name", Json::Str(d.class_name.clone()));
            push_entry(&mut e, "name", Json::Str(d.name.clone()));
            push_entry(&mut e, "kind", Json::Str(d.kind.clone()));
            push_entry(&mut e, "summary", Json::Str(d.summary.clone()));
            push_entry(&mut e, "matched", Json::text("device"));
            assert(entries_view(e@) =~= seq![
                ("class_name"@, JsonV::Str(d.class_name@)),
                ("name"@, JsonV::Str(d.name@)),
                ("kind"@, JsonV::Str(d.kind@)),
                ("summary"@, JsonV::Str(d.summary@)),
                ("matched"@, JsonV::Str("device"@)),
            ]);
            let item = object_from(e);
            hits.push(item);
            proof {
                lemma_values_push(before, item);
            }
        } else {
            let matching = parameters_matching(d, &needle);
            let ghost mv = values_view(matching@);
            if matching.len() > 0 {
                let mut e: Vec<(String, Json)> = Vec::new();
                push_entry(&mut e, "class_name", Json::Str(d.class_name.clone()));
                push_entry(&mut e, "name", Json::Str(d.name.clone()));
                push_entry(&mut e, "matched", Json::text("parameters"));
                push_entry(&mut e, "parameters", array_from(matching));
                assert(entries_view(e@) =~= seq![
                    ("class_name"@, JsonV::Str(d.class_name@)),
                    ("name"@, JsonV::Str(d.name@)),
                    ("matched"@, JsonV::Str("parameters"@)),
                    ("parameters"@, JsonV::Array(mv)),
                ]);
                let item = object_from(e);
                hits.push(item);
                proof {
                    lemma_values_push(before, item);
                }
            }
        }
        proof {
            let t = reference.devices@.take(i + 1);
            assert(t.drop_last() =~= reference.devices@.take(i as int));
            assert(t.last() == *d);
            assert(values_view(hits@) =~= values_view(before) + device_hits(*d, needle@));
        }
        i += 1;
    }
    assert(reference.devices@.take(reference.devices@.len() as int) =~= reference.devices@);
    let ghost all = all_hits(reference.devices@, needle@);
    let n = hits.len();
    let mut e: Vec<(String, Json)> = Vec::new();
    push_entry(&mut e, "query", Json::text(query));
    push_entry(&mut e, "matches", count_json(n));
    push_entry(&mut e, "results", array_from(hits));
    assert(entries_view(e@) =~= seq![
        ("query"@, JsonV::Str(query@)),
        ("matches"@, count_view(all.len())),
        ("results"@, JsonV::Array(all)),
    ]);
    object_from(e)
}

} // verus!
