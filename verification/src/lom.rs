//! A bundled reference for Ableton's Live Object Model.
//!
//! The Remote Script can only reach what the Live API actually exposes, and
//! the shape of that API is not discoverable from the tools themselves. A
//! condensed reference means a model can check whether something is even
//! possible, and interpret the fields it gets back, without network access
//! and without a Live version to interrogate.
use vstd::prelude::*;

use crate::json::{
    array_from, count_json, count_view, entries_view, field, lemma_lookup_at, object_from, opt_text,
    opt_text_view, push_entry, values_view, lemma_values_push, lemma_values_take, Json, JsonV,
};
use crate::text::{
    alnum_lower, alnum_lowercase, chars_of, contains_chars, ends_with_chars, has_infix, has_suffix,
    str_eq, string_from, to_lowercase, trim_chars, trim_seq, unicode_lowercase, append_str,
};

verus! {

broadcast use vstd::std_specs::vec::group_vec_axioms;

pub struct Member {
    pub name: String,
    /// The member's type, where the reference gives one.
    pub ty: Option<String>,
    pub access: Option<String>,
    pub description: String,
}

pub struct Class {
    pub name: String,
    pub path: Option<String>,
    pub description: String,
    pub properties: Vec<Member>,
    pub methods: Vec<Member>,
    pub children: Vec<Member>,
}

pub struct Reference {
    pub version: String,
    pub note: String,
    pub classes: Vec<Class>,
}

pub const USAGE: &'static str = "Pass `class_name` for the full members of one class, or `query` to search.";

/// At most this many matches are returned: a broad query like "value" would
/// otherwise return most of the model.
pub const MAX_MATCHES: usize = 60;

/// `Song.View`, `song_view` and `songview` should all find the same class.
pub fn normalise(name: &str) -> (r: String)
    ensures
        r@ == alnum_lower(name@),
{
    alnum_lowercase(name)
}

/// How a member is listed: its name, then its type, access and description
/// where it has them.
pub open spec fn member_json(m: Member) -> JsonV {
    JsonV::Object(
        seq![("name"@, JsonV::Str(m.name@))] + optional_entry("type"@, m.ty) + optional_entry(
            "access"@,
            m.access,
        ) + (if m.description@.len() > 0 {
            seq![("description"@, JsonV::Str(m.description@))]
        } else {
            Seq::empty()
        }),
    )
}

/// The entry `key: value` when there is a value, else nothing.
pub open spec fn optional_entry(key: Seq<char>, value: Option<String>) -> Seq<(Seq<char>, JsonV)> {
    match value {
        Some(v) => seq![(key, JsonV::Str(v@))],
        None => Seq::empty(),
    }
}

pub open spec fn members_json(list: Seq<Member>) -> JsonV {
    JsonV::Array(list.map_values(|m: Member| member_json(m)))
}

/// How many members a class has.
pub open spec fn member_count(c: Class) -> int {
    (c.properties@.len() + c.methods@.len() + c.children@.len()) as int
}

/// Every class's member count fits in a `usize`.
pub open spec fn counts_fit(r: Reference) -> bool {
    forall|i: int| 0 <= i < r.classes@.len() ==> member_count(#[trigger] r.classes@[i]) <= usize::MAX
}

/// A class as the index lists it.
pub open spec fn class_summary(c: Class) -> JsonV {
    JsonV::Object(
        seq![
            ("name"@, JsonV::Str(c.name@)),
            ("path"@, opt_text_view(c.path)),
            ("description"@, JsonV::Str(c.description@)),
            ("members"@, count_view(member_count(c) as nat)),
        ],
    )
}

/// The class index.
pub open spec fn index_json(r: Reference) -> JsonV {
    JsonV::Object(
        seq![
            ("version"@, JsonV::Str(r.version@)),
            ("note"@, JsonV::Str(r.note@)),
            ("usage"@, JsonV::Str(USAGE@)),
            ("classes"@, JsonV::Array(r.classes@.map_values(|c: Class| class_summary(c)))),
        ],
    )
}

/// The class `c` answers to `wanted` (already normalised): by its whole
/// normalised name, or, when `exact` is false, by its end.
pub open spec fn answers_to(c: Class, wanted: Seq<char>, exact: bool) -> bool {
    if exact {
        alnum_lower(c.name@) == wanted
    } else {
        has_suffix(alnum_lower(c.name@), wanted)
    }
}

/// The first class that answers to `wanted`.
pub open spec fn first_answering(classes: Seq<Class>, wanted: Seq<char>, exact: bool) -> Option<int>
    decreases classes.len(),
{
    if classes.len() == 0 {
        None
    } else if answers_to(classes[0], wanted, exact) {
        Some(0)
    } else {
        match first_answering(classes.drop_first(), wanted, exact) {
            Some(k) => Some(k + 1),
            None => None,
        }
    }
}

pub proof fn lemma_first_answering(classes: Seq<Class>, wanted: Seq<char>, exact: bool)
    ensures
        first_answering(classes, wanted, exact) matches Some(i) ==> 0 <= i < classes.len(),
    decreases classes.len(),
{
    if classes.len() > 0 {
        lemma_first_answering(classes.drop_first(), wanted, exact);
    }
}

/// The class a name finds: the first whose normalised name is the
/// normalised query, else the first whose normalised name ends with it.
pub open spec fn found_class(classes: Seq<Class>, name: Seq<char>) -> Option<int> {
    match first_answering(classes, alnum_lower(name), true) {
        Some(i) => Some(i),
        None => first_answering(classes, alnum_lower(name), false),
    }
}

/// Names that differ only in case and punctuation (`Song.View`,
/// `song_view`, `songview`) find the same class.
pub proof fn lemma_lookup_ignores_case_and_punctuation(classes: Seq<Class>, a: Seq<char>, b: Seq<char>)
    requires
        alnum_lower(a) == alnum_lower(b),
    ensures
        found_class(classes, a) == found_class(classes, b),
{
}

/// The full entry of a class.
pub open spec fn class_json(c: Class) -> JsonV {
    JsonV::Object(
        seq![
            ("name"@, JsonV::Str(c.name@)),
            ("path"@, opt_text_view(c.path)),
            ("description"@, JsonV::Str(c.description@)),
            ("children"@, members_json(c.children@)),
            ("properties"@, members_json(c.properties@)),
            ("methods"@, members_json(c.methods@)),
        ],
    )
}

/// What describing the class `name` answers.
pub open spec fn describe_json(r: Reference, name: Seq<char>) -> JsonV {
    match found_class(r.classes@, name) {
        Some(i) => class_json(r.classes@[i]),
        None => JsonV::Object(
            seq![
                ("error"@, JsonV::Str("no Live Object Model class named `"@ + name + "`"@)),
                ("known_classes"@, JsonV::Array(r.classes@.map_values(|c: Class| JsonV::Str(c.name@)))),
            ],
        ),
    }
}

/// `text`, lowercased, holds `needle`.
pub open spec fn mentions(text: Seq<char>, needle: Seq<char>) -> bool {
    has_infix(unicode_lowercase(text), needle)
}

/// A member matches the query when its name or description mentions it.
pub open spec fn member_matches(m: Member, needle: Seq<char>) -> bool {
    mentions(m.name@, needle) || mentions(m.description@, needle)
}

/// A member found by a search.
pub open spec fn member_hit(c: Class, kind: Seq<char>, m: Member) -> JsonV {
    JsonV::Object(
        seq![
            ("class"@, JsonV::Str(c.name@)),
            ("kind"@, JsonV::Str(kind)),
            ("name"@, JsonV::Str(m.name@)),
            ("type"@, opt_text_view(m.ty)),
            ("access"@, opt_text_view(m.access)),
            ("description"@, JsonV::Str(m.description@)),
        ],
    )
}

/// A class found by a search.
pub open spec fn class_hit(c: Class) -> JsonV {
    JsonV::Object(
        seq![
            ("class"@, JsonV::Str(c.name@)),
            ("kind"@, JsonV::Str("class"@)),
            ("name"@, JsonV::Str(c.name@)),
            ("description"@, JsonV::Str(c.description@)),
        ],
    )
}

/// The members of one list of `c` that match, as hits of kind `kind`.
pub open spec fn member_hits(c: Class, kind: Seq<char>, list: Seq<Member>, needle: Seq<char>) -> Seq<JsonV> {
    list.filter(|m: Member| member_matches(m, needle)).map_values(|m: Member| member_hit(c, kind, m))
}

/// The hits within one class: its matching properties, methods and
/// children, then the class itself when its name or description matches.
pub open spec fn class_hits(c: Class, needle: Seq<char>) -> Seq<JsonV> {
    member_hits(c, "property"@, c.properties@, needle) + member_hits(c, "method"@, c.methods@, needle)
        + member_hits(c, "child"@, c.children@, needle) + (if mentions(c.name@, needle) || mentions(
        c.description@,
        needle,
    ) {
        seq![class_hit(c)]
    } else {
        Seq::empty()
    })
}

/// Every hit, class by class.
pub open spec fn all_hits(classes: Seq<Class>, needle: Seq<char>) -> Seq<JsonV>
    decreases classes.len(),
{
    if classes.len() == 0 {
        Seq::empty()
    } else {
        all_hits(classes.drop_last(), needle) + class_hits(classes.last(), needle)
    }
}

/// What searching for `query` answers: the index when the query is blank,
/// else the number of hits and the first of them.
pub open spec fn search_json(r: Reference, query: Seq<char>) -> JsonV {
    let needle = unicode_lowercase(trim_seq(query));
    if needle.len() == 0 {
        index_json(r)
    } else {
        let hits = all_hits(r.classes@, needle);
        let shown = if hits.len() > MAX_MATCHES {
            hits.take(MAX_MATCHES as int)
        } else {
            hits
        };
        JsonV::Object(
            seq![
                ("query"@, JsonV::Str(query)),
                ("total_matches"@, count_view(hits.len())),
                ("returned"@, count_view(shown.len())),
                ("matches"@, JsonV::Array(shown)),
            ],
        )
    }
}

/// `text`, ignoring case, holds what the search `query` asks for: the
/// query trimmed and lowercased.
pub open spec fn asks_for(text: Seq<char>, query: Seq<char>) -> bool {
    has_infix(unicode_lowercase(text), unicode_lowercase(trim_seq(query)))
}

/// The member's name or description holds what `query` asks for.
pub open spec fn member_found(m: Member, query: Seq<char>) -> bool {
    asks_for(m.name@, query) || asks_for(m.description@, query)
}

/// The kind of a class's members, and the members of that kind: its
/// properties (0), methods (1) or children (2).
pub open spec fn members_of_kind(c: Class, kind: int) -> (Seq<char>, Seq<Member>) {
    if kind == 0 {
        ("property"@, c.properties@)
    } else if kind == 1 {
        ("method"@, c.methods@)
    } else {
        ("child"@, c.children@)
    }
}

/// How many things of `classes` the search `query` finds: every property,
/// method and child whose name or description holds it, and every class
/// whose name or description does.
pub open spec fn found_count(classes: Seq<Class>, query: Seq<char>) -> nat
    decreases classes.len(),
{
    if classes.len() == 0 {
        0
    } else {
        let c = classes.last();
        found_count(classes.drop_last(), query) + c.properties@.filter(|m: Member| member_found(m, query)).len()
            + c.methods@.filter(|m: Member| member_found(m, query)).len() + c.children@.filter(
            |m: Member| member_found(m, query),
        ).len() + if asks_for(c.name@, query) || asks_for(c.description@, query) {
            1nat
        } else {
            0nat
        }
    }
}

proof fn lemma_hits_count(classes: Seq<Class>, query: Seq<char>)
    ensures
        all_hits(classes, unicode_lowercase(trim_seq(query))).len() == found_count(classes, query),
    decreases classes.len(),
{
    if classes.len() > 0 {
        let needle = unicode_lowercase(trim_seq(query));
        lemma_hits_count(classes.drop_last(), query);
        let f1 = |m: Member| member_matches(m, needle);
        let f2 = |m: Member| member_found(m, query);
        assert(f1 =~= f2);
    }
}

proof fn lemma_hits_hold(classes: Seq<Class>, query: Seq<char>, ci: int, kind: int, mi: int)
    requires
        0 <= ci < classes.len(),
        0 <= mi < members_of_kind(classes[ci], kind).1.len(),
        member_found(members_of_kind(classes[ci], kind).1[mi], query),
    ensures
        all_hits(classes, unicode_lowercase(trim_seq(query))).contains(
            member_hit(classes[ci], members_of_kind(classes[ci], kind).0, members_of_kind(classes[ci], kind).1[mi]),
        ),
    decreases classes.len(),
{
    let needle = unicode_lowercase(trim_seq(query));
    let c = classes[ci];
    let (k, list) = members_of_kind(c, kind);
    let m = list[mi];
    let hit = member_hit(c, k, m);
    if ci < classes.len() - 1 {
        lemma_hits_hold(classes.drop_last(), query, ci, kind, mi);
        let before = all_hits(classes.drop_last(), needle);
        let j = choose|j: int| 0 <= j < before.len() && before[j] == hit;
        assert(all_hits(classes, needle)[j] == hit);
    } else {
        let pred = |x: Member| member_matches(x, needle);
        list.lemma_filter_contains(pred, mi);
        let f = list.filter(pred);
        let j = choose|j: int| 0 <= j < f.len() && f[j] == m;
        let hs = member_hits(c, k, list, needle);
        assert(hs[j] == hit);
        let ch = class_hits(c, needle);
        let p = member_hits(c, "property"@, c.properties@, needle);
        let q = member_hits(c, "method"@, c.methods@, needle);
        let off: int = if kind == 0 {
            0
        } else if kind == 1 {
            p.len() as int
        } else {
            (p.len() + q.len()) as int
        };
        assert(ch[off + j] == hit);
        let before = all_hits(classes.drop_last(), needle);
        assert(all_hits(classes, needle)[before.len() + off + j] == hit);
    }
}

/// A search finds every property, method and child whose name or
/// description holds the query, ignoring case, and every class whose own
/// name or description does: the count it gives is the number of all of
/// them, and the matches it returns are the first of a list that holds each
/// of them.
pub proof fn lemma_search_finds_every_member(r: Reference, q: Seq<char>, ci: int, kind: int, mi: int)
    requires
        unicode_lowercase(trim_seq(q)).len() > 0,
        0 <= ci < r.classes@.len(),
        0 <= mi < members_of_kind(r.classes@[ci], kind).1.len(),
        member_found(members_of_kind(r.classes@[ci], kind).1[mi], q),
    ensures
        exists|h: Seq<JsonV>|
            #![trigger h.len()]
            h.contains(
                member_hit(
                    r.classes@[ci],
                    members_of_kind(r.classes@[ci], kind).0,
                    members_of_kind(r.classes@[ci], kind).1[mi],
                ),
            ) && h.len() == found_count(r.classes@, q) && field(lookup_json(r, None, Some(q)), "total_matches"@)
                == Some(count_view(h.len())) && field(lookup_json(r, None, Some(q)), "matches"@) == Some(
                JsonV::Array(
                    if h.len() > MAX_MATCHES {
                        h.take(MAX_MATCHES as int)
                    } else {
                        h
                    },
                ),
            ),
{
    let needle = unicode_lowercase(trim_seq(q));
    lemma_hits_count(r.classes@, q);
    lemma_hits_hold(r.classes@, q, ci, kind, mi);
    let h = all_hits(r.classes@, needle);
    reveal_strlit("query");
    reveal_strlit("total_matches");
    reveal_strlit("returned");
    reveal_strlit("matches");
    assert("query"@.len() != "total_matches"@.len());
    assert("returned"@.len() != "total_matches"@.len());
    assert("matches"@.len() != "total_matches"@.len());
    assert("query"@.len() != "matches"@.len());
    assert("returned"@.len() != "matches"@.len());
    let e = lookup_json(r, None, Some(q))->Object_0;
    lemma_lookup_at(e, "total_matches"@, 1);
    lemma_lookup_at(e, "matches"@, 3);
    assert(h.len() == found_count(r.classes@, q));
}

/// What a `lom_reference` call answers: a class by name, else a search,
/// else the index.
pub open spec fn lookup_json(r: Reference, class_name: Option<Seq<char>>, query: Option<Seq<char>>) -> JsonV {
    match class_name {
        Some(name) => describe_json(r, name),
        None => match query {
            Some(q) => search_json(r, q),
            None => index_json(r),
        },
    }
}

/// The view of an optional string.
pub open spec fn opt_seq(o: Option<&str>) -> Option<Seq<char>> {
    match o {
        Some(s) => Some(s@),
        None => None,
    }
}

/// Serve a `lom_reference` call entirely from the reference.
pub fn lookup(reference: &Reference, class_name: Option<&str>, query: Option<&str>) -> (r: Json)
    requires
        counts_fit(*reference),
    ensures
        r@ == lookup_json(*reference, opt_seq(class_name), opt_seq(query)),
{
    match class_name {
        Some(name) => describe(reference, name),
        None => match query {
            Some(q) => search(reference, q),
            None => index(reference),
        },
    }
}

fn member(m: &Member) -> (r: Json)
    ensures
        r@ == member_json(*m),
{
    let mut e: Vec<(String, Json)> = Vec::new();
    push_entry(&mut e, "name", Json::Str(m.name.clone()));
    let ghost a = entries_view(e@);
    match &m.ty {
        Some(t) => {
            push_entry(&mut e, "type", Json::Str(t.clone()));
        },
        None => {},
    }
    let ghost b = entries_view(e@);
    match &m.access {
        Some(x) => {
            push_entry(&mut e, "access", Json::Str(x.clone()));
        },
        None => {},
    }
    let ghost c = entries_view(e@);
    if chars_of(m.description.as_str()).len() > 0 {
        push_entry(&mut e, "description", Json::Str(m.description.clone()));
    }
    proof {
        let t1 = optional_entry("type"@, m.ty);
        let t2 = optional_entry("access"@, m.access);
        let t3: Seq<(Seq<char>, JsonV)> = if m.description@.len() > 0 {
            seq![("description"@, JsonV::Str(m.description@))]
        } else {
            Seq::empty()
        };
        assert(a =~= seq![("name"@, JsonV::Str(m.name@))]);
        assert(b =~= a + t1);
        assert(c =~= a + t1 + t2);
        assert(entries_view(e@) =~= a + t1 + t2 + t3);
    }
    object_from(e)
}

fn members(list: &Vec<Member>) -> (r: Json)
    ensures
        r@ == members_json(list@),
{
    let mut out: Vec<Json> = Vec::new();
    let mut i: usize = 0;
    while i < list.len()
        invariant
            i <= list@.len(),
            values_view(out@) == list@.take(i as int).map_values(|m: Member| member_json(m)),
        decreases list.len() - i,
    {
        let item = member(&list[i]);
        let ghost before = out@;
        out.push(item);
        proof {
            lemma_values_push(before, item);
            assert(list@.take(i + 1) =~= list@.take(i as int).push(list@[i as int]));
        }
        assert(values_view(out@) =~= list@.take(i + 1).map_values(|m: Member| member_json(m)));
        i += 1;
    }
    assert(list@.take(list@.len() as int) =~= list@);
    array_from(out)
}

fn summary(c: &Class) -> (r: Json)
    requires
        member_count(*c) <= usize::MAX,
    ensures
        r@ == class_summary(*c),
{
    let mut e: Vec<(String, Json)> = Vec::new();
    push_entry(&mut e, "name", Json::Str(c.name.clone()));
    push_entry(&mut e, "path", opt_text(&c.path));
    push_entry(&mut e, "description", Json::Str(c.description.clone()));
    let n = c.properties.len() + c.methods.len() + c.children.len();
    push_entry(&mut e, "members", count_json(n));
    assert(entries_view(e@) =~= seq![
        ("name"@, JsonV::Str(c.name@)),
        ("path"@, opt_text_view(c.path)),
        ("description"@, JsonV::Str(c.description@)),
        ("members"@, count_view(member_count(*c) as nat)),
    ]);
    object_from(e)
}

fn index(reference: &Reference) -> (r: Json)
    requires
        counts_fit(*reference),
    ensures
        r@ == index_json(*reference),
{
    let mut list: Vec<Json> = Vec::new();
    let mut i: usize = 0;
    while i < reference.classes.len()
        invariant
            i <= reference.classes@.len(),
            counts_fit(*reference),
            values_view(list@) == reference.classes@.take(i as int).map_values(|c: Class| class_summary(c)),
        decreases reference.classes.len() - i,
    {
        let item = summary(&reference.classes[i]);
        let ghost before = list@;
        list.push(item);
        proof {
            lemma_values_push(before, item);
            assert(reference.classes@.take(i + 1) =~= reference.classes@.take(i as int).push(reference.classes@[i as int]));
        }
        assert(values_view(list@) =~= reference.classes@.take(i + 1).map_values(|c: Class| class_summary(c)));
        i += 1;
    }
    assert(reference.classes@.take(reference.classes@.len() as int) =~= reference.classes@);
    let mut e: Vec<(String, Json)> = Vec::new();
    push_entry(&mut e, "version", Json::Str(reference.version.clone()));
    push_entry(&mut e, "note", Json::Str(reference.note.clone()));
    push_entry(&mut e, "usage", Json::text(USAGE));
    push_entry(&mut e, "classes", array_from(list));
    assert(entries_view(e@) =~= seq![
        ("version"@, JsonV::Str(reference.version@)),
        ("note"@, JsonV::Str(reference.note@)),
        ("usage"@, JsonV::Str(USAGE@)),
        ("classes"@, JsonV::Array(reference.classes@.map_values(|c: Class| class_summary(c)))),
    ]);
    object_from(e)
}

/// The first class answering to `wanted`.
fn find_class(classes: &Vec<Class>, wanted: &Vec<char>, exact: bool) -> (r: Option<usize>)
    ensures
        match r {
            Some(i) => first_answering(classes@, wanted@, exact) == Some(i as int),
            None => first_answering(classes@, wanted@, exact) is None,
        },
{
    let mut i: usize = 0;
    assert(classes@.skip(0) =~= classes@);
    while i < classes.len()
        invariant
            i <= classes@.len(),
            first_answering(classes@, wanted@, exact) == match first_answering(classes@.skip(i as int), wanted@, exact) {
                Some(k) => Some(k + i),
                None => None,
            },
        decreases classes.len() - i,
    {
        let name = chars_of(normalise(classes[i].name.as_str()).as_str());
        let hit = if exact {
            crate::text::chars_eq(&name, wanted)
        } else {
            ends_with_chars(&name, wanted)
        };
        assert(classes@.skip(i as int)[0] == classes@[i as int]);
        assert(classes@.skip(i as int).drop_first() =~= classes@.skip(i + 1));
        if hit {
            return Some(i);
        }
        i += 1;
    }
    None
}

fn class_entry(c: &Class) -> (r: Json)
    ensures
        r@ == class_json(*c),
{
    let mut e: Vec<(String, Json)> = Vec::new();
    push_entry(&mut e, "name", Json::Str(c.name.clone()));
    push_entry(&mut e, "path", opt_text(&c.path));
    push_entry(&mut e, "description", Json::Str(c.description.clone()));
    push_entry(&mut e, "children", members(&c.children));
    push_entry(&mut e, "properties", members(&c.properties));
    push_entry(&mut e, "methods", members(&c.methods));
    assert(entries_view(e@) =~= seq![
        ("name"@, JsonV::Str(c.name@)),
        ("path"@, opt_text_view(c.path)),
        ("description"@, JsonV::Str(c.description@)),
        ("children"@, members_json(c.children@)),
        ("properties"@, members_json(c.properties@)),
        ("methods"@, members_json(c.methods@)),
    ]);
    object_from(e)
}

fn describe(reference: &Reference, name: &str) -> (r: Json)
    ensures
        r@ == describe_json(*reference, name@),
{
    let wanted = chars_of(normalise(name).as_str());
    let found = match find_class(&reference.classes, &wanted, true) {
        Some(i) => Some(i),
        None => find_class(&reference.classes, &wanted, false),
    };
    proof {
        lemma_first_answering(reference.classes@, wanted@, true);
        lemma_first_answering(reference.classes@, wanted@, false);
    }
    match found {
        Some(i) => class_entry(&reference.classes[i]),
        None => {
            let mut msg: Vec<char> = Vec::new();
            append_str(&mut msg, "no Live Object Model class named `");
            append_str(&mut msg, name);
            append_str(&mut msg, "`");
            let mut known: Vec<Json> = Vec::new();
            let mut i: usize = 0;
            while i < reference.classes.len()
                invariant
                    i <= reference.classes@.len(),
                    values_view(known@) == reference.classes@.take(i as int).map_values(|c: Class| JsonV::Str(c.name@)),
                decreases reference.classes.len() - i,
            {
                let item = Json::Str(reference.classes[i].name.clone());
                let ghost before = known@;
                known.push(item);
                proof {
                    lemma_values_push(before, item);
                    assert(reference.classes@.take(i + 1) =~= reference.classes@.take(i as int).push(reference.classes@[i as int]));
                }
                assert(values_view(known@) =~= reference.classes@.take(i + 1).map_values(|c: Class| JsonV::Str(c.name@)));
                i += 1;
            }
            assert(reference.classes@.take(reference.classes@.len() as int) =~= reference.classes@);
            let mut e: Vec<(String, Json)> = Vec::new();
            push_entry(&mut e, "error", Json::Str(string_from(&msg)));
            push_entry(&mut e, "known_classes", array_from(known));
            assert(entries_view(e@) =~= seq![
                ("error"@, JsonV::Str("no Live Object Model class named `"@ + name@ + "`"@)),
                ("known_classes"@, JsonV::Array(reference.classes@.map_values(|c: Class| JsonV::Str(c.name@)))),
            ]);
            object_from(e)
        },
    }
}

/// Whether `text`, lowercased, holds `needle`.
fn mentions_text(text: &String, needle: &Vec<char>) -> (r: bool)
    ensures
        r == mentions(text@, needle@),
{
    let lower = chars_of(to_lowercase(text.as_str()).as_str());
    contains_chars(&lower, needle)
}

fn hit_of_member(c: &Class, kind: &str, m: &Member) -> (r: Json)
    ensures
        r@ == member_hit(*c, kind@, *m),
{
    let mut e: Vec<(String, Json)> = Vec::new();
    push_entry(&mut e, "class", Json::Str(c.name.clone()));
    push_entry(&mut e, "kind", Json::text(kind));
    push_entry(&mut e, "name", Json::Str(m.name.clone()));
    push_entry(&mut e, "type", opt_text(&m.ty));
    push_entry(&mut e, "access", opt_text(&m.access));
    push_entry(&mut e, "description", Json::Str(m.description.clone()));
    assert(entries_view(e@) =~= seq![
        ("class"@, JsonV::Str(c.name@)),
        ("kind"@, JsonV::Str(kind@)),
        ("name"@, JsonV::Str(m.name@)),
        ("type"@, opt_text_view(m.ty)),
        ("access"@, opt_text_view(m.access)),
        ("description"@, JsonV::Str(m.description@)),
    ]);
    object_from(e)
}

/// Append the matching members of `list` to `hits`.
fn collect_members(hits: &mut Vec<Json>, c: &Class, kind: &str, list: &Vec<Member>, needle: &Vec<char>)
    ensures
        values_view(final(hits)@) == values_view(old(hits)@) + member_hits(*c, kind@, list@, needle@),
{
    let ghost start = values_view(hits@);
    let ghost keep = |m: Member| member_matches(m, needle@);
    let mut i: usize = 0;
    while i < list.len()
        invariant
            i <= list@.len(),
            keep == (|m: Member| member_matches(m, needle@)),
            values_view(hits@) == start + list@.take(i as int).filter(keep).map_values(
                |m: Member| member_hit(*c, kind@, m),
            ),
        decreases list.len() - i,
    {
        let m = &list[i];
        proof {
            assert(list@.take(i + 1).drop_last() =~= list@.take(i as int));
            reveal_with_fuel(Seq::filter, 1);
        }
        if mentions_text(&m.name, needle) || mentions_text(&m.description, needle) {
            let item = hit_of_member(c, kind, m);
            let ghost before = hits@;
            hits.push(item);
            proof {
                lemma_values_push(before, item);
            }
            assert(list@.take(i + 1).filter(keep) == list@.take(i as int).filter(keep).push(*m));
            assert(values_view(hits@) =~= start + list@.take(i + 1).filter(keep).map_values(
                |m: Member| member_hit(*c, kind@, m),
            ));
        } else {
            assert(list@.take(i + 1).filter(keep) == list@.take(i as int).filter(keep));
        }
        i += 1;
    }
    assert(list@.take(list@.len() as int) =~= list@);
}

fn search(reference: &Reference, query: &str) -> (r: Json)
    requires
        counts_fit(*reference),
    ensures
        r@ == search_json(*reference, query@),
{
    let trimmed = string_from(&trim_chars(&chars_of(query)));
    let needle = chars_of(to_lowercase(trimmed.as_str()).as_str());
    if needle.len() == 0 {
        return index(reference);
    }
    let mut hits: Vec<Json> = Vec::new();
    let mut i: usize = 0;
    while i < reference.classes.len()
        invariant
            i <= reference.classes@.len(),
            values_view(hits@) == all_hits(reference.classes@.take(i as int), needle@),
        decreases reference.classes.len() - i,
    {
        let c = &reference.classes[i];
        let ghost before = values_view(hits@);
        collect_members(&mut hits, c, "property", &c.properties, &needle);
        collect_members(&mut hits, c, "method", &c.methods, &needle);
        collect_members(&mut hits, c, "child", &c.children, &needle);
        if mentions_text(&c.name, &needle) || mentions_text(&c.description, &needle) {
            let mut e: Vec<(String, Json)> = Vec::new();
            push_entry(&mut e, "class", Json::Str(c.name.clone()));
            push_entry(&mut e, "kind", Json::text("class"));
            push_entry(&mut e, "name", Json::Str(c.name.clone()));
            push_entry(&mut e, "description", Json::Str(c.description.clone()));
            assert(entries_view(e@) =~= seq![
                ("class"@, JsonV::Str(c.name@)),
                ("kind"@, JsonV::Str("class"@)),
                ("name"@, JsonV::Str(c.name@)),
                ("description"@, JsonV::Str(c.description@)),
            ]);
            let item = object_from(e);
            let ghost hb = hits@;
            hits.push(item);
            proof {
                lemma_values_push(hb, item);
            }
        }
        proof {
            let t = reference.classes@.take(i + 1);
            assert(t.drop_last() =~= reference.classes@.take(i as int));
            assert(t.last() == *c);
            assert(values_view(hits@) =~= before + class_hits(*c, needle@));
        }
        i += 1;
    }
    assert(reference.classes@.take(reference.classes@.len() as int) =~= reference.classes@);
    let total = hits.len();
    let ghost hits_before_cut = hits@;
    let mut shown = hits;
    if shown.len() > MAX_MATCHES {
        shown.truncate(MAX_MATCHES);
    }
    let ghost all = all_hits(reference.classes@, needle@);
    proof {
        if all.len() > MAX_MATCHES {
            lemma_values_take(hits_before_cut, MAX_MATCHES as int);
        }
    }
    assert(values_view(shown@) =~= if all.len() > MAX_MATCHES {
        all.take(MAX_MATCHES as int)
    } else {
        all
    });
    let returned = shown.len();
    let mut e: Vec<(String, Json)> = Vec::new();
    push_entry(&mut e, "query", Json::text(query));
    push_entry(&mut e, "total_matches", count_json(total));
    push_entry(&mut e, "returned", count_json(returned));
    let ghost sv = values_view(shown@);
    push_entry(&mut e, "matches", array_from(shown));
    assert(entries_view(e@) =~= seq![
        ("query"@, JsonV::Str(query@)),
        ("total_matches"@, count_view(all.len())),
        ("returned"@, count_view(sv.len())),
        ("matches"@, JsonV::Array(sv)),
    ]);
    object_from(e)
}

/// Whether every class's member count fits in a `usize`, as [`lookup`]
/// needs.
pub fn counts_fit_in(reference: &Reference) -> (r: bool)
    ensures
        r == counts_fit(*reference),
{
    let mut i: usize = 0;
    while i < reference.classes.len()
        invariant
            i <= reference.classes@.len(),
            forall|k: int| 0 <= k < i ==> member_count(#[trigger] reference.classes@[k]) <= usize::MAX,
        decreases reference.classes.len() - i,
    {
        let c = &reference.classes[i];
        match c.properties.len().checked_add(c.methods.len()) {
            Some(n) => match n.checked_add(c.children.len()) {
                Some(_) => {},
                None => {
                    return false;
                },
            },
            None => {
                return false;
            },
        }
        i += 1;
    }
    true
}

} // verus!
