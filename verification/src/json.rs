//! A JSON value the library can reason about.
//!
//! Numbers that are not integers are carried as the text the JSON layer
//! rendered them with, together with the whole number they denote when they
//! denote one, so no arithmetic on them happens here.
use vstd::prelude::*;

verus! {

broadcast use vstd::std_specs::vec::group_vec_axioms;

/// A JSON number that is not stored as an integer (`2.5`, `4.0`, `1e20`).
#[derive(Debug, Clone)]
pub struct Decimal {
    /// How the number is written.
    pub text: String,
    /// The number as an `i64` when it has no fractional part, saturated at
    /// the bounds of `i64`.
    pub integral: Option<i64>,
}

#[derive(Debug)]
pub enum Json {
    Null,
    Bool(bool),
    /// An integer in the range of `i64`.
    Int(i64),
    /// An integer above `i64::MAX`.
    UInt(u64),
    Decimal(Decimal),
    Str(String),
    Array(Vec<Json>),
    /// Entries in insertion order; the library never stores a key twice.
    Object(Vec<(String, Json)>),
}

/// The mathematical value of a [`Json`].
pub ghost enum JsonV {
    Null,
    Bool(bool),
    Int(i64),
    UInt(u64),
    Decimal(Seq<char>, Option<i64>),
    Str(Seq<char>),
    Array(Seq<JsonV>),
    Object(Seq<(Seq<char>, JsonV)>),
}

pub open spec fn view_json(j: Json) -> JsonV
    decreases j,
{
    match j {
        Json::Null => JsonV::Null,
        Json::Bool(b) => JsonV::Bool(b),
        Json::Int(i) => JsonV::Int(i),
        Json::UInt(u) => JsonV::UInt(u),
        Json::Decimal(d) => JsonV::Decimal(d.text@, d.integral),
        Json::Str(s) => JsonV::Str(s@),
        Json::Array(v) => JsonV::Array(
            Seq::new(
                v@.len(),
                |i: int|
                    if 0 <= i < v@.len() {
                        view_json(v@[i])
                    } else {
                        JsonV::Null
                    },
            ),
        ),
        Json::Object(v) => JsonV::Object(
            Seq::new(
                v@.len(),
                |i: int|
                    if 0 <= i < v@.len() {
                        (v@[i].0@, view_json(v@[i].1))
                    } else {
                        (Seq::<char>::empty(), JsonV::Null)
                    },
            ),
        ),
    }
}

impl View for Json {
    type V = JsonV;

    open spec fn view(&self) -> JsonV {
        view_json(*self)
    }
}

/// The view of an object's entries.
pub open spec fn entries_view(v: Seq<(String, Json)>) -> Seq<(Seq<char>, JsonV)> {
    Seq::new(v.len(), |i: int| (v[i].0@, view_json(v[i].1)))
}

/// The view of a list of values.
pub open spec fn values_view(v: Seq<Json>) -> Seq<JsonV> {
    Seq::new(v.len(), |i: int| view_json(v[i]))
}

pub proof fn lemma_array_view(v: Vec<Json>)
    ensures
        view_json(Json::Array(v)) == JsonV::Array(values_view(v@)),
{
    let a = view_json(Json::Array(v));
    assert(a->Array_0.len() == v@.len());
    assert forall|i: int| 0 <= i < v@.len() implies a->Array_0[i] == view_json(v@[i]) by {}
    assert(a->Array_0 =~= values_view(v@));
}

pub proof fn lemma_object_view(v: Vec<(String, Json)>)
    ensures
        view_json(Json::Object(v)) == JsonV::Object(entries_view(v@)),
{
    let a = view_json(Json::Object(v));
    assert(a->Object_0.len() == v@.len());
    assert forall|i: int| 0 <= i < v@.len() implies a->Object_0[i] == (v@[i].0@, view_json(v@[i].1)) by {}
    assert(a->Object_0 =~= entries_view(v@));
}

/// `value.get(k)`: the value under `k` when `j` is an object that has one.
pub open spec fn field(j: JsonV, k: Seq<char>) -> Option<JsonV> {
    match j {
        JsonV::Object(s) => lookup(s, k),
        _ => None,
    }
}

/// The value stored under `k`: the first entry with that key.
pub open spec fn lookup(s: Seq<(Seq<char>, JsonV)>, k: Seq<char>) -> Option<JsonV>
    decreases s.len(),
{
    if s.len() == 0 {
        None
    } else if s[0].0 == k {
        Some(s[0].1)
    } else {
        lookup(s.drop_first(), k)
    }
}

/// No key occurs twice.
pub open spec fn keys_distinct(s: Seq<(Seq<char>, JsonV)>) -> bool {
    forall|i: int, j: int| 0 <= i < j < s.len() ==> s[i].0 != s[j].0
}

pub proof fn lemma_lookup_index(s: Seq<(Seq<char>, JsonV)>, k: Seq<char>)
    ensures
        lookup(s, k) is Some <==> exists|i: int| 0 <= i < s.len() && s[i].0 == k,
        lookup(s, k) is Some ==> exists|i: int|
            0 <= i < s.len() && s[i].0 == k && lookup(s, k) == Some(s[i].1) && (forall|j: int|
                0 <= j < i ==> s[j].0 != k),
    decreases s.len(),
{
    if s.len() > 0 {
        lemma_lookup_index(s.drop_first(), k);
        if s[0].0 != k {
            if lookup(s, k) is Some {
                let i = choose|i: int|
                    0 <= i < s.drop_first().len() && s.drop_first()[i].0 == k && lookup(
                        s.drop_first(),
                        k,
                    ) == Some(s.drop_first()[i].1) && (forall|j: int|
                        0 <= j < i ==> s.drop_first()[j].0 != k);
                assert(s[i + 1].0 == k);
                assert forall|j: int| 0 <= j < i + 1 implies s[j].0 != k by {
                    if j > 0 {
                        assert(s[j] == s.drop_first()[j - 1]);
                    }
                }
            }
            if exists|i: int| 0 <= i < s.len() && s[i].0 == k {
                let i = choose|i: int| 0 <= i < s.len() && s[i].0 == k;
                assert(s.drop_first()[i - 1].0 == k);
            }
        } else {
            assert(s[0].0 == k);
        }
    }
}

/// When the key at `i` is the first occurrence, the lookup finds it.
pub proof fn lemma_lookup_at(s: Seq<(Seq<char>, JsonV)>, k: Seq<char>, i: int)
    requires
        0 <= i < s.len(),
        s[i].0 == k,
        forall|j: int| 0 <= j < i ==> s[j].0 != k,
    ensures
        lookup(s, k) == Some(s[i].1),
    decreases s.len(),
{
    if i > 0 {
        assert forall|j: int| 0 <= j < i - 1 implies s.drop_first()[j].0 != k by {
            assert(s.drop_first()[j] == s[j + 1]);
        }
        lemma_lookup_at(s.drop_first(), k, i - 1);
    }
}

/// A copy of `j` with the same value.
pub fn copy_json(j: &Json) -> (r: Json)
    ensures
        r@ == j@,
    decreases j,
{
    match j {
        Json::Null => Json::Null,
        Json::Bool(b) => Json::Bool(*b),
        Json::Int(i) => Json::Int(*i),
        Json::UInt(u) => Json::UInt(*u),
        Json::Decimal(d) => Json::Decimal(Decimal { text: d.text.clone(), integral: d.integral }),
        Json::Str(s) => Json::Str(s.clone()),
        Json::Array(v) => {
            let r = copy_values(v, Ghost(*j));
            proof {
                lemma_array_view(*v);
                lemma_array_view(r);
            }
            Json::Array(r)
        },
        Json::Object(v) => {
            let r = copy_entries(v, Ghost(*j));
            proof {
                lemma_object_view(*v);
                lemma_object_view(r);
            }
            Json::Object(r)
        },
    }
}

fn copy_values(v: &Vec<Json>, Ghost(parent): Ghost<Json>) -> (r: Vec<Json>)
    requires
        parent == Json::Array(*v),
    ensures
        values_view(r@) == values_view(v@),
    decreases parent, 0nat,
{
    let mut out: Vec<Json> = Vec::new();
    let mut i: usize = 0;
    while i < v.len()
        invariant
            parent == Json::Array(*v),
            i <= v.len(),
            out@.len() == i,
            forall|k: int| 0 <= k < i ==> view_json(#[trigger] out@[k]) == view_json(v@[k]),
        decreases v.len() - i,
    {
        proof {
            assert(decreases_to!(parent => parent->Array_0));
            assert(decreases_to!(parent->Array_0 => parent->Array_0@));
            assert(decreases_to!(parent->Array_0@ => parent->Array_0@[i as int]));
        }
        let c = copy_json(&v[i]);
        out.push(c);
        i += 1;
    }
    assert(values_view(out@) =~= values_view(v@));
    out
}

fn copy_entries(v: &Vec<(String, Json)>, Ghost(parent): Ghost<Json>) -> (r: Vec<(String, Json)>)
    requires
        parent == Json::Object(*v),
    ensures
        entries_view(r@) == entries_view(v@),
    decreases parent, 0nat,
{
    let mut out: Vec<(String, Json)> = Vec::new();
    let mut i: usize = 0;
    while i < v.len()
        invariant
            parent == Json::Object(*v),
            i <= v.len(),
            out@.len() == i,
            forall|k: int|
                0 <= k < i ==> (#[trigger] out@[k]).0@ == v@[k].0@ && view_json(out@[k].1)
                    == view_json(v@[k].1),
        decreases v.len() - i,
    {
        proof {
            assert(decreases_to!(parent => parent->Object_0));
            assert(decreases_to!(parent->Object_0 => parent->Object_0@));
            assert(decreases_to!(parent->Object_0@ => parent->Object_0@[i as int]));
            assert(decreases_to!(parent->Object_0@[i as int] => parent->Object_0@[i as int].1));
        }
        let c = copy_json(&v[i].1);
        let k = v[i].0.clone();
        out.push((k, c));
        i += 1;
    }
    assert(entries_view(out@) =~= entries_view(v@));
    out
}

}

verus! {

/// `s` with `k` set to `v`: the first entry with key `k` is replaced, or a new
/// entry is appended when there is none, as `serde_json::Map::insert` does.
pub open spec fn put(s: Seq<(Seq<char>, JsonV)>, k: Seq<char>, v: JsonV) -> Seq<(Seq<char>, JsonV)>
    decreases s.len(),
{
    if s.len() == 0 {
        seq![(k, v)]
    } else if s[0].0 == k {
        s.update(0, (k, v))
    } else {
        seq![s[0]] + put(s.drop_first(), k, v)
    }
}

/// `s` without its entries for `k`.
pub open spec fn without(s: Seq<(Seq<char>, JsonV)>, k: Seq<char>) -> Seq<(Seq<char>, JsonV)>
    decreases s.len(),
{
    if s.len() == 0 {
        s
    } else if s.last().0 == k {
        without(s.drop_last(), k)
    } else {
        without(s.drop_last(), k).push(s.last())
    }
}

pub proof fn lemma_put_at(s: Seq<(Seq<char>, JsonV)>, k: Seq<char>, v: JsonV, i: int)
    requires
        0 <= i < s.len(),
        s[i].0 == k,
        forall|j: int| 0 <= j < i ==> s[j].0 != k,
    ensures
        put(s, k, v) == s.update(i, (k, v)),
    decreases s.len(),
{
    if i > 0 {
        assert forall|j: int| 0 <= j < i - 1 implies s.drop_first()[j].0 != k by {
            assert(s.drop_first()[j] == s[j + 1]);
        }
        lemma_put_at(s.drop_first(), k, v, i - 1);
        assert(seq![s[0]] + s.drop_first().update(i - 1, (k, v)) =~= s.update(i, (k, v)));
    }
}

pub proof fn lemma_put_new(s: Seq<(Seq<char>, JsonV)>, k: Seq<char>, v: JsonV)
    requires
        forall|j: int| 0 <= j < s.len() ==> s[j].0 != k,
    ensures
        put(s, k, v) == s.push((k, v)),
    decreases s.len(),
{
    if s.len() > 0 {
        assert forall|j: int| 0 <= j < s.drop_first().len() implies s.drop_first()[j].0 != k by {
            assert(s.drop_first()[j] == s[j + 1]);
        }
        lemma_put_new(s.drop_first(), k, v);
        assert(seq![s[0]] + s.drop_first().push((k, v)) =~= s.push((k, v)));
    } else {
        assert(seq![(k, v)] =~= s.push((k, v)));
    }
}

/// Looking a key up after setting it gives what was set; other keys are
/// untouched.
pub proof fn lemma_lookup_put(s: Seq<(Seq<char>, JsonV)>, k: Seq<char>, v: JsonV, k2: Seq<char>)
    ensures
        lookup(put(s, k, v), k2) == (if k2 == k {
            Some(v)
        } else {
            lookup(s, k2)
        }),
    decreases s.len(),
{
    let p = put(s, k, v);
    if s.len() == 0 {
        assert(p[0] == (k, v));
        assert(p.drop_first() =~= Seq::<(Seq<char>, JsonV)>::empty());
        assert(lookup(p.drop_first(), k2) is None);
    } else if s[0].0 == k {
        assert(p[0] == (k, v));
        assert(p.drop_first() =~= s.drop_first());
    } else {
        lemma_lookup_put(s.drop_first(), k, v, k2);
        assert(p[0] == s[0]);
        assert(p.drop_first() =~= put(s.drop_first(), k, v));
    }
}

/// Keys stay distinct when a key is set.
pub proof fn lemma_put_distinct(s: Seq<(Seq<char>, JsonV)>, k: Seq<char>, v: JsonV)
    requires
        keys_distinct(s),
    ensures
        keys_distinct(put(s, k, v)),
{
    lemma_lookup_index(s, k);
    if exists|i: int| 0 <= i < s.len() && s[i].0 == k {
        let i = choose|i: int|
            0 <= i < s.len() && s[i].0 == k && lookup(s, k) == Some(s[i].1) && (forall|j: int|
                0 <= j < i ==> s[j].0 != k);
        lemma_put_at(s, k, v, i);
    } else {
        lemma_put_new(s, k, v);
    }
}

/// The first entry of `entries` with key `key`.
pub fn find_key(entries: &Vec<(String, Json)>, key: &str) -> (r: Option<usize>)
    ensures
        match r {
            Some(i) => i < entries@.len() && entries@[i as int].0@ == key@ && forall|j: int|
                0 <= j < i ==> entries@[j].0@ != key@,
            None => forall|j: int| 0 <= j < entries@.len() ==> entries@[j].0@ != key@,
        },
{
    let wanted = key.to_owned();
    let mut i: usize = 0;
    while i < entries.len()
        invariant
            wanted@ == key@,
            i <= entries@.len(),
            forall|j: int| 0 <= j < i ==> entries@[j].0@ != key@,
        decreases entries.len() - i,
    {
        if entries[i].0 == wanted {
            return Some(i);
        }
        i += 1;
    }
    None
}

/// `map.get(key)`.
pub fn get_key<'a>(entries: &'a Vec<(String, Json)>, key: &str) -> (r: Option<&'a Json>)
    ensures
        match r {
            Some(v) => lookup(entries_view(entries@), key@) == Some(v@),
            None => lookup(entries_view(entries@), key@) is None,
        },
{
    let found = find_key(entries, key);
    proof {
        lemma_lookup_index(entries_view(entries@), key@);
    }
    match found {
        Some(i) => {
            proof {
                lemma_lookup_at(entries_view(entries@), key@, i as int);
            }
            Some(&entries[i].1)
        },
        None => None,
    }
}

/// `map.insert(key, value)`.
pub fn insert_key(entries: &mut Vec<(String, Json)>, key: String, value: Json)
    ensures
        entries_view(final(entries)@) == put(entries_view(old(entries)@), key@, value@),
{
    let found = find_key(entries, key.as_str());
    let ghost before = entries_view(entries@);
    match found {
        Some(i) => {
            proof {
                lemma_put_at(before, key@, value@, i as int);
            }
            entries.set(i, (key, value));
            assert(entries_view(entries@) =~= before.update(i as int, (key@, value@)));
        },
        None => {
            proof {
                lemma_put_new(before, key@, value@);
            }
            entries.push((key, value));
            assert(entries_view(entries@) =~= before.push((key@, value@)));
        },
    }
}

/// `map.remove(key)`.
pub fn remove_key(entries: &mut Vec<(String, Json)>, key: &str)
    ensures
        entries_view(final(entries)@) == without(entries_view(old(entries)@), key@),
{
    let wanted = key.to_owned();
    let ghost before = entries@;
    let mut kept: Vec<(String, Json)> = Vec::new();
    let mut i: usize = 0;
    while i < entries.len()
        invariant
            wanted@ == key@,
            i <= entries@.len(),
            entries@ == before,
            entries_view(kept@) == without(entries_view(before).take(i as int), key@),
        decreases entries.len() - i,
    {
        let ghost e = entries_view(before)[i as int];
        assert(entries_view(before).take(i + 1) =~= entries_view(before).take(i as int).push(e));
        assert(entries_view(before).take(i + 1).drop_last() =~= entries_view(before).take(i as int));
        if entries[i].0 != wanted {
            let k = entries[i].0.clone();
            let v = copy_json(&entries[i].1);
            kept.push((k, v));
            assert(entries_view(kept@) =~= without(entries_view(before).take(i as int), key@).push(
                e,
            ));
        }
        i += 1;
    }
    assert(entries_view(before).take(entries@.len() as int) =~= entries_view(before));
    *entries = kept;
}

/// The values of a list with one more item.
pub proof fn lemma_values_push(v: Seq<Json>, x: Json)
    ensures
        values_view(v.push(x)) == values_view(v).push(view_json(x)),
{
    assert(values_view(v.push(x)) =~= values_view(v).push(view_json(x)));
}

/// The values of a list's first items.
pub proof fn lemma_values_take(v: Seq<Json>, n: int)
    requires
        0 <= n <= v.len(),
    ensures
        values_view(v.take(n)) == values_view(v).take(n),
{
    assert(values_view(v.take(n)) =~= values_view(v).take(n));
}

/// The JSON number for a count.
pub open spec fn count_view(n: nat) -> JsonV {
    if n <= i64::MAX {
        JsonV::Int(n as i64)
    } else {
        JsonV::UInt(n as u64)
    }
}

/// A count as a JSON number.
pub fn count_json(n: usize) -> (r: Json)
    ensures
        r@ == count_view(n as nat),
{
    if n as u64 <= 9223372036854775807u64 {
        Json::Int(n as i64)
    } else {
        Json::UInt(n as u64)
    }
}

/// Append `key: value` to the entries of an object under construction.
pub fn push_entry(v: &mut Vec<(String, Json)>, key: &str, value: Json)
    ensures
        entries_view(final(v)@) == entries_view(old(v)@).push((key@, value@)),
{
    v.push((key.to_owned(), value));
    assert(entries_view(v@) =~= entries_view(old(v)@).push((key@, value@)));
}

/// The object with the given entries.
pub fn object_from(v: Vec<(String, Json)>) -> (r: Json)
    ensures
        r@ == JsonV::Object(entries_view(v@)),
{
    proof {
        lemma_object_view(v);
    }
    Json::Object(v)
}

/// The array with the given items.
pub fn array_from(v: Vec<Json>) -> (r: Json)
    ensures
        r@ == JsonV::Array(values_view(v@)),
{
    proof {
        lemma_array_view(v);
    }
    Json::Array(v)
}

/// A JSON string, or `null` when there is none.
pub open spec fn opt_text_view(o: Option<String>) -> JsonV {
    match o {
        Some(s) => JsonV::Str(s@),
        None => JsonV::Null,
    }
}

pub fn opt_text(o: &Option<String>) -> (r: Json)
    ensures
        r@ == opt_text_view(*o),
{
    match o {
        Some(s) => Json::Str(s.clone()),
        None => Json::Null,
    }
}

impl Json {
    /// A JSON string.
    pub fn text(s: &str) -> (r: Json)
        ensures
            r@ == JsonV::Str(s@),
    {
        Json::Str(s.to_owned())
    }

    /// A number written with a fractional part or an exponent, such as `4.0`.
    pub fn decimal(text: &str, integral: Option<i64>) -> (r: Json)
        ensures
            r@ == JsonV::Decimal(text@, integral),
    {
        Json::Decimal(Decimal { text: text.to_owned(), integral })
    }

    /// `value.as_str()`.
    pub fn as_str(&self) -> (r: Option<&String>)
        ensures
            match r {
                Some(s) => self@ == JsonV::Str(s@),
                None => !(self@ is Str),
            },
    {
        match self {
            Json::Str(s) => Some(s),
            _ => None,
        }
    }

    /// `value.get(key)` for an object; `None` for anything else.
    pub fn get(&self, key: &str) -> (r: Option<&Json>)
        ensures
            match self@ {
                JsonV::Object(s) => match r {
                    Some(v) => lookup(s, key@) == Some(v@),
                    None => lookup(s, key@) is None,
                },
                _ => r is None,
            },
    {
        match self {
            Json::Object(entries) => {
                proof {
                    lemma_object_view(*entries);
                }
                get_key(entries, key)
            },
            _ => None,
        }
    }
}

}

verus! {

/// A hexadecimal digit, lowercase.
pub open spec fn hex_digit(d: nat) -> char {
    if d < 10 {
        (48 + d) as char
    } else {
        (87 + d) as char
    }
}

/// How a character is written inside a JSON string: quotes, backslashes and
/// control characters escaped, everything else as itself.
pub open spec fn escape_json(c: char) -> Seq<char> {
    let u = c as u32;
    if c == '"' {
        seq!['\\', '"']
    } else if c == '\\' {
        seq!['\\', '\\']
    } else if c == '\n' {
        seq!['\\', 'n']
    } else if c == '\r' {
        seq!['\\', 'r']
    } else if c == '\t' {
        seq!['\\', 't']
    } else if u == 8 {
        seq!['\\', 'b']
    } else if u == 12 {
        seq!['\\', 'f']
    } else if u < 0x20 {
        seq!['\\', 'u', '0', '0', hex_digit((u / 16) as nat), hex_digit((u % 16) as nat)]
    } else {
        seq![c]
    }
}

/// The characters of `s`, each escaped.
pub open spec fn escaped(s: Seq<char>) -> Seq<char>
    decreases s.len(),
{
    if s.len() == 0 {
        Seq::empty()
    } else {
        escaped(s.drop_last()) + escape_json(s.last())
    }
}

/// The JSON string literal for `s`.
pub open spec fn quoted(s: Seq<char>) -> Seq<char> {
    seq!['"'] + escaped(s) + seq!['"']
}

/// The compact JSON text of a value: no whitespace, members in order.
pub open spec fn compact_text(j: JsonV) -> Seq<char>
    decreases j,
{
    match j {
        JsonV::Null => "null"@,
        JsonV::Bool(b) => if b {
            "true"@
        } else {
            "false"@
        },
        JsonV::Int(i) => crate::text::signed_decimal(i as int),
        JsonV::UInt(u) => crate::text::decimal(u as nat),
        JsonV::Decimal(t, _) => t,
        JsonV::Str(s) => quoted(s),
        JsonV::Array(items) => seq!['['] + items_text(items) + seq![']'],
        JsonV::Object(entries) => seq!['{'] + entries_text(entries) + seq!['}'],
    }
}

/// The items of an array, separated by commas.
pub open spec fn items_text(items: Seq<JsonV>) -> Seq<char>
    decreases items,
{
    if items.len() == 0 {
        Seq::empty()
    } else if items.len() == 1 {
        compact_text(items[0])
    } else {
        items_text(items.drop_last()) + seq![','] + compact_text(items[items.len() - 1])
    }
}

/// The members of an object, separated by commas.
pub open spec fn entries_text(entries: Seq<(Seq<char>, JsonV)>) -> Seq<char>
    decreases entries,
{
    if entries.len() == 0 {
        Seq::empty()
    } else if entries.len() == 1 {
        entry_text(entries[0])
    } else {
        entries_text(entries.drop_last()) + seq![','] + entry_text(entries[entries.len() - 1])
    }
}

/// One member: its key as a string, a colon, its value.
pub open spec fn entry_text(entry: (Seq<char>, JsonV)) -> Seq<char>
    decreases entry,
{
    quoted(entry.0) + seq![':'] + compact_text(entry.1)
}

/// Append the JSON string literal for `s` to `out`.
pub fn quote_json(out: &mut Vec<char>, s: &String)
    ensures
        final(out)@ == old(out)@ + quoted(s@),
{
    let ghost start = out@;
    let cs = crate::text::chars_of(s.as_str());
    out.push('"');
    let mut i: usize = 0;
    while i < cs.len()
        invariant
            i <= cs@.len(),
            out@ == start + seq!['"'] + escaped(cs@.take(i as int)),
        decreases cs.len() - i,
    {
        let c = cs[i];
        let u = c as u32;
        let ghost before = out@;
        if c == '"' {
            out.push('\\');
            out.push('"');
        } else if c == '\\' {
            out.push('\\');
            out.push('\\');
        } else if c == '\n' {
            out.push('\\');
            out.push('n');
        } else if c == '\r' {
            out.push('\\');
            out.push('r');
        } else if c == '\t' {
            out.push('\\');
            out.push('t');
        } else if u == 8 {
            out.push('\\');
            out.push('b');
        } else if u == 12 {
            out.push('\\');
            out.push('f');
        } else if u < 0x20 {
            out.push('\\');
            out.push('u');
            out.push('0');
            out.push('0');
            let hi = (u / 16) as u8;
            let lo = (u % 16) as u8;
            out.push((hi + 48) as char);
            out.push(
                if lo < 10 {
                    (lo + 48) as char
                } else {
                    (lo - 10 + 97) as char
                },
            );
        } else {
            out.push(c);
        }
        proof {
            assert(cs@.take(i + 1).drop_last() =~= cs@.take(i as int));
            assert(cs@.take(i + 1).last() == c);
            assert(out@ =~= before + escape_json(c));
            assert(out@ =~= start + seq!['"'] + escaped(cs@.take(i + 1)));
        }
        i += 1;
    }
    out.push('"');
    assert(cs@.take(cs@.len() as int) =~= cs@);
    assert(out@ =~= old(out)@ + quoted(s@));
}

/// Append the compact JSON text of `j` to `out`.
pub fn write_compact(out: &mut Vec<char>, j: &Json)
    ensures
        final(out)@ == old(out)@ + compact_text(j@),
    decreases j,
{
    let ghost start = out@;
    match j {
        Json::Null => crate::text::append_str(out, "null"),
        Json::Bool(b) => crate::text::append_str(
            out,
            if *b {
                "true"
            } else {
                "false"
            },
        ),
        Json::Int(i) => {
            let t = crate::text::i64_text(*i);
            crate::text::append_chars(out, &t);
        },
        Json::UInt(u) => {
            let t = crate::text::u64_text(*u);
            crate::text::append_chars(out, &t);
        },
        Json::Decimal(d) => crate::text::append_str(out, d.text.as_str()),
        Json::Str(s) => quote_json(out, s),
        Json::Array(v) => {
            proof {
                lemma_array_view(*v);
            }
            out.push('[');
            write_items(out, v, Ghost(*j));
            out.push(']');
            assert(out@ =~= start + compact_text(j@));
        },
        Json::Object(v) => {
            proof {
                lemma_object_view(*v);
            }
            out.push('{');
            write_entries(out, v, Ghost(*j));
            out.push('}');
            assert(out@ =~= start + compact_text(j@));
        },
    }
}

/// Append the items of an array, separated by commas.
fn write_items(out: &mut Vec<char>, v: &Vec<Json>, Ghost(parent): Ghost<Json>)
    requires
        parent == Json::Array(*v),
    ensures
        final(out)@ == old(out)@ + items_text(values_view(v@)),
    decreases parent, 0nat,
{
    let ghost start = out@;
    let ghost items = values_view(v@);
    let mut i: usize = 0;
    assert(items.take(0) =~= Seq::<JsonV>::empty());
    while i < v.len()
        invariant
            parent == Json::Array(*v),
            i <= v@.len(),
            items == values_view(v@),
            out@ == start + items_text(items.take(i as int)),
        decreases v.len() - i,
    {
        if i > 0 {
            out.push(',');
        }
        proof {
            assert(decreases_to!(parent => parent->Array_0));
            assert(decreases_to!(parent->Array_0 => parent->Array_0@));
            assert(decreases_to!(parent->Array_0@ => parent->Array_0@[i as int]));
        }
        write_compact(out, &v[i]);
        proof {
            let t = items.take(i + 1);
            assert(t.drop_last() =~= items.take(i as int));
            assert(t[t.len() - 1] == v@[i as int]@);
            assert(out@ =~= start + items_text(t));
        }
        i += 1;
    }
    assert(items.take(v@.len() as int) =~= items);
}

/// Append the members of an object, separated by commas.
fn write_entries(out: &mut Vec<char>, v: &Vec<(String, Json)>, Ghost(parent): Ghost<Json>)
    requires
        parent == Json::Object(*v),
    ensures
        final(out)@ == old(out)@ + entries_text(entries_view(v@)),
    decreases parent, 0nat,
{
    let ghost start = out@;
    let ghost entries = entries_view(v@);
    let mut i: usize = 0;
    assert(entries.take(0) =~= Seq::<(Seq<char>, JsonV)>::empty());
    while i < v.len()
        invariant
            parent == Json::Object(*v),
            i <= v@.len(),
            entries == entries_view(v@),
            out@ == start + entries_text(entries.take(i as int)),
        decreases v.len() - i,
    {
        if i > 0 {
            out.push(',');
        }
        let ghost mid = out@;
        quote_json(out, &v[i].0);
        out.push(':');
        proof {
            assert(decreases_to!(parent => parent->Object_0));
            assert(decreases_to!(parent->Object_0 => parent->Object_0@));
            assert(decreases_to!(parent->Object_0@ => parent->Object_0@[i as int]));
            assert(decreases_to!(parent->Object_0@[i as int] => parent->Object_0@[i as int].1));
        }
        write_compact(out, &v[i].1);
        proof {
            let t = entries.take(i + 1);
            let e = (v@[i as int].0@, v@[i as int].1@);
            assert(t.drop_last() =~= entries.take(i as int));
            assert(t[t.len() - 1] == e);
            assert(out@ =~= mid + entry_text(e));
            assert(out@ =~= start + entries_text(t));
        }
        i += 1;
    }
    assert(entries.take(v@.len() as int) =~= entries);
}

}

verus! {

/// The object built by setting each entry of `s` in turn.
pub open spec fn puts(s: Seq<(Seq<char>, JsonV)>) -> Seq<(Seq<char>, JsonV)>
    decreases s.len(),
{
    if s.len() == 0 {
        s
    } else {
        put(puts(s.drop_last()), s.last().0, s.last().1)
    }
}

/// Every key of `put(s, k, v)` is `k` or a key of `s`.
pub proof fn lemma_put_keys(s: Seq<(Seq<char>, JsonV)>, k: Seq<char>, v: JsonV, i: int)
    requires
        0 <= i < put(s, k, v).len(),
    ensures
        put(s, k, v)[i].0 == k || exists|j: int| 0 <= j < s.len() && s[j].0 == put(s, k, v)[i].0,
    decreases s.len(),
{
    if s.len() > 0 && s[0].0 != k {
        if i > 0 {
            lemma_put_keys(s.drop_first(), k, v, i - 1);
            assert(put(s, k, v)[i] == put(s.drop_first(), k, v)[i - 1]);
            if put(s, k, v)[i].0 != k {
                let j = choose|j: int|
                    0 <= j < s.drop_first().len() && s.drop_first()[j].0 == put(
                        s.drop_first(),
                        k,
                        v,
                    )[i - 1].0;
                assert(s[j + 1].0 == put(s, k, v)[i].0);
            }
        } else {
            assert(put(s, k, v)[0] == s[0]);
        }
    } else if s.len() > 0 {
        if i > 0 {
            assert(put(s, k, v)[i] == s[i]);
        }
    }
}

}
