//! A declarative description of every tool the server exposes.
//!
//! Almost every tool is "validate arguments, forward them to a Remote Script
//! command, render the reply", so tools are data rather than functions: a
//! [`ToolDef`] carries its schema and the mapping from MCP arguments to Live
//! command parameters. Adding coverage means adding a row, not a handler.
use vstd::prelude::*;

use crate::json::{
    copy_json, entries_view, get_key, insert_key, keys_distinct, lemma_lookup_put,
    lemma_array_view, lemma_lookup_at, lemma_lookup_index, lemma_object_view, lemma_put_new, view_json, lemma_put_distinct, lookup, put, puts, values_view,
    compact_text, write_compact, Decimal, Json, JsonV,
};
use crate::text::{
    all_digits, append_chars, append_str, ascii_lower_seq, ascii_lowercase, chars_of,
    debug_form, debug_text, float_text, has_infix, is_float_text, is_special_float, lemma_infix_middle,
    parse_i64, plain_number, plain_number_text, signed_text, special_float, str_eq, string_from, strip_sign, sub_chars,
    trim_chars, trim_seq,
};

verus! {

broadcast use vstd::std_specs::vec::group_vec_axioms;

#[derive(Clone, Copy, Debug, PartialEq, Eq, Structural)]
pub enum ArgTy {
    Int,
    Num,
    Str,
    Bool,
    /// Free-form JSON, used for the note and envelope payloads that carry their
    /// own documented shape.
    Any,
    /// Array of MIDI note objects.
    Notes,
    /// Array of `[time, value]` automation breakpoints.
    Points,
    /// Array of `{tool, arguments}` steps for the `batch` tool.
    Steps,
    /// Array of integers.
    IntList,
    /// Array of strings.
    StrList,
}

/// The argument types whose values are JSON arrays.
pub open spec fn is_list(ty: ArgTy) -> bool {
    ty == ArgTy::Notes || ty == ArgTy::Points || ty == ArgTy::Steps || ty == ArgTy::IntList || ty
        == ArgTy::StrList
}

pub struct ArgDef {
    pub name: &'static str,
    pub description: String,
    pub ty: ArgTy,
    pub required: bool,
    pub default: Option<Json>,
    pub choices: Option<Vec<&'static str>>,
}

pub struct ToolDef {
    pub name: &'static str,
    /// The Remote Script command this forwards to.
    pub command: &'static str,
    pub description: String,
    /// Which toolset this belongs to, for `CRABLETON_TOOLSETS` filtering.
    /// Assigned when the registry is assembled.
    pub group: &'static str,
    pub args: Vec<ArgDef>,
    /// Parameters always sent with this command, letting several tools share
    /// one Live-side handler (e.g. `set_track_volume` and `set_track_pan`).
    pub fixed: Vec<(&'static str, Json)>,
    pub read_only: bool,
    pub destructive: bool,
}

/// `other` is `before` with the argument `name` of type `ty` appended.
pub open spec fn appended(before: ToolDef, after: ToolDef, name: &'static str, d: Seq<char>, ty: ArgTy, required: bool) -> bool {
    &&& after.name == before.name
    &&& after.command == before.command
    &&& after.description@ == before.description@
    &&& after.group == before.group
    &&& after.fixed == before.fixed
    &&& after.read_only == before.read_only
    &&& after.destructive == before.destructive
    &&& after.args@.len() == before.args@.len() + 1
    &&& after.args@.take(before.args@.len() as int) == before.args@
    &&& after.args@.last().name == name
    &&& after.args@.last().description@ == d
    &&& after.args@.last().ty == ty
    &&& after.args@.last().required == required
    &&& after.args@.last().default is None
    &&& after.args@.last().choices is None
    &&& arg_outlines(after.args@) == arg_outlines(before.args@).push(plain(name@, d, ty, required))
}

/// `after` differs from `before` at most in its flags and fixed parameters.
pub open spec fn same_shape(before: ToolDef, after: ToolDef) -> bool {
    &&& after.name == before.name
    &&& after.command == before.command
    &&& after.description@ == before.description@
    &&& after.group == before.group
    &&& after.args == before.args
}

impl ToolDef {
    pub fn new(name: &'static str, command: &'static str, description: &str) -> (r: Self)
        ensures
            r.name == name,
            r.command == command,
            r.description@ == description@,
            r.group@ == "core"@,
            r.args@.len() == 0,
            r.fixed@.len() == 0,
            !r.read_only,
            !r.destructive,
    {
        ToolDef {
            name,
            command,
            description: description.to_owned(),
            group: "core",
            args: Vec::new(),
            fixed: Vec::new(),
            read_only: false,
            destructive: false,
        }
    }

    pub fn read_only(self) -> (r: Self)
        ensures
            same_shape(self, r),
            r.fixed == self.fixed,
            r.read_only,
            r.destructive == self.destructive,
    {
        let mut s = self;
        s.read_only = true;
        s
    }

    /// Marks tools that can discard user work (deleting a track, replacing a
    /// clip's notes) so clients can prompt before running them.
    pub fn destructive(self) -> (r: Self)
        ensures
            same_shape(self, r),
            r.fixed == self.fixed,
            r.destructive,
            r.read_only == self.read_only,
    {
        let mut s = self;
        s.destructive = true;
        s
    }

    pub fn fixed(self, key: &'static str, value: Json) -> (r: Self)
        ensures
            same_shape(self, r),
            r.fixed@ == self.fixed@.push((key, value)),
            r.read_only == self.read_only,
            r.destructive == self.destructive,
    {
        let mut s = self;
        s.fixed.push((key, value));
        s
    }

    fn arg(self, name: &'static str, description: &str, ty: ArgTy, required: bool) -> (r: Self)
        ensures
            appended(self, r, name, description@, ty, required),
    {
        let mut s = self;
        s.args.push(
            ArgDef {
                name,
                description: description.to_owned(),
                ty,
                required,
                default: None,
                choices: None,
            },
        );
        assert(s.args@.take(self.args@.len() as int) =~= self.args@);
        assert(arg_outlines(s.args@) =~= arg_outlines(self.args@).push(plain(name@, description@, ty, required)));
        s
    }

    pub fn integer(self, name: &'static str, d: &str) -> (r: Self)
        ensures
            appended(self, r, name, d@, ArgTy::Int, true),
    {
        self.arg(name, d, ArgTy::Int, true)
    }

    pub fn num(self, name: &'static str, d: &str) -> (r: Self)
        ensures
            appended(self, r, name, d@, ArgTy::Num, true),
    {
        self.arg(name, d, ArgTy::Num, true)
    }

    pub fn text(self, name: &'static str, d: &str) -> (r: Self)
        ensures
            appended(self, r, name, d@, ArgTy::Str, true),
    {
        self.arg(name, d, ArgTy::Str, true)
    }

    pub fn boolean(self, name: &'static str, d: &str) -> (r: Self)
        ensures
            appended(self, r, name, d@, ArgTy::Bool, true),
    {
        self.arg(name, d, ArgTy::Bool, true)
    }

    pub fn notes(self, name: &'static str, d: &str) -> (r: Self)
        ensures
            appended(self, r, name, d@, ArgTy::Notes, true),
    {
        self.arg(name, d, ArgTy::Notes, true)
    }

    pub fn points(self, name: &'static str, d: &str) -> (r: Self)
        ensures
            appended(self, r, name, d@, ArgTy::Points, true),
    {
        self.arg(name, d, ArgTy::Points, true)
    }

    pub fn steps(self, name: &'static str, d: &str) -> (r: Self)
        ensures
            appended(self, r, name, d@, ArgTy::Steps, true),
    {
        self.arg(name, d, ArgTy::Steps, true)
    }

    pub fn opt_int(self, name: &'static str, d: &str) -> (r: Self)
        ensures
            appended(self, r, name, d@, ArgTy::Int, false),
    {
        self.arg(name, d, ArgTy::Int, false)
    }

    pub fn opt_num(self, name: &'static str, d: &str) -> (r: Self)
        ensures
            appended(self, r, name, d@, ArgTy::Num, false),
    {
        self.arg(name, d, ArgTy::Num, false)
    }

    pub fn opt_text(self, name: &'static str, d: &str) -> (r: Self)
        ensures
            appended(self, r, name, d@, ArgTy::Str, false),
    {
        self.arg(name, d, ArgTy::Str, false)
    }

    pub fn opt_bool(self, name: &'static str, d: &str) -> (r: Self)
        ensures
            appended(self, r, name, d@, ArgTy::Bool, false),
    {
        self.arg(name, d, ArgTy::Bool, false)
    }

    pub fn opt_any(self, name: &'static str, d: &str) -> (r: Self)
        ensures
            appended(self, r, name, d@, ArgTy::Any, false),
    {
        self.arg(name, d, ArgTy::Any, false)
    }

    pub fn opt_points(self, name: &'static str, d: &str) -> (r: Self)
        ensures
            appended(self, r, name, d@, ArgTy::Points, false),
    {
        self.arg(name, d, ArgTy::Points, false)
    }

    pub fn opt_int_list(self, name: &'static str, d: &str) -> (r: Self)
        ensures
            appended(self, r, name, d@, ArgTy::IntList, false),
    {
        self.arg(name, d, ArgTy::IntList, false)
    }

    pub fn opt_str_list(self, name: &'static str, d: &str) -> (r: Self)
        ensures
            appended(self, r, name, d@, ArgTy::StrList, false),
    {
        self.arg(name, d, ArgTy::StrList, false)
    }

    /// Give the argument just added a default value (which also makes it
    /// optional).
    pub fn default(self, value: Json) -> (r: Self)
        requires
            self.args@.len() > 0,
        ensures
            same_shape_but_last(self, r),
            r.args@.last().default == Some(value),
            !r.args@.last().required,
            r.args@.last().choices == self.args@.last().choices,
            arg_outlines(r.args@) == arg_outlines(self.args@).update(
                self.args@.len() - 1,
                with_default(arg_outline(self.args@.last()), value@),
            ),
    {
        let mut s = self;
        let n = s.args.len();
        let mut last = s.args.pop().unwrap();
        last.default = Some(value);
        last.required = false;
        s.args.push(last);
        assert(s.args@.take(n - 1) =~= self.args@.take(n - 1));
        proof {
            let u = arg_outlines(self.args@).update(n - 1, with_default(arg_outline(self.args@.last()), value@));
            assert forall|i: int| 0 <= i < n - 1 implies s.args@[i] == self.args@[i] by {
                assert(s.args@.take(n - 1)[i] == self.args@.take(n - 1)[i]);
            }
            assert(arg_outlines(s.args@) =~= u);
        }
        s
    }

    /// Restrict the argument just added to a fixed set of strings.
    pub fn choices(self, choices: &[&'static str]) -> (r: Self)
        requires
            self.args@.len() > 0,
        ensures
            same_shape_but_last(self, r),
            r.args@.last().default == self.args@.last().default,
            r.args@.last().required == self.args@.last().required,
            r.args@.last().choices matches Some(c) && c@ == choices@,
            arg_outlines(r.args@) == arg_outlines(self.args@).update(
                self.args@.len() - 1,
                with_choices(arg_outline(self.args@.last()), strs_view(choices@)),
            ),
    {
        let mut s = self;
        let n = s.args.len();
        let mut last = s.args.pop().unwrap();
        let mut list: Vec<&'static str> = Vec::new();
        let mut i: usize = 0;
        while i < choices.len()
            invariant
                i <= choices@.len(),
                list@ == choices@.take(i as int),
            decreases choices.len() - i,
        {
            list.push(choices[i]);
            assert(list@ =~= choices@.take(i + 1));
            i += 1;
        }
        assert(list@ =~= choices@);
        last.choices = Some(list);
        s.args.push(last);
        assert(s.args@.take(n - 1) =~= self.args@.take(n - 1));
        proof {
            let u = arg_outlines(self.args@).update(n - 1, with_choices(arg_outline(self.args@.last()), strs_view(choices@)));
            assert forall|i: int| 0 <= i < n - 1 implies s.args@[i] == self.args@[i] by {
                assert(s.args@.take(n - 1)[i] == self.args@.take(n - 1)[i]);
            }
            assert(strs_view(list@) =~= strs_view(choices@));
            assert(arg_outlines(s.args@) =~= u);
        }
        s
    }
}

/// `after` is `before` with only its last argument's default, required flag
/// or choices changed.
pub open spec fn same_shape_but_last(before: ToolDef, after: ToolDef) -> bool {
    &&& after.name == before.name
    &&& after.command == before.command
    &&& after.description@ == before.description@
    &&& after.group == before.group
    &&& after.fixed == before.fixed
    &&& after.read_only == before.read_only
    &&& after.destructive == before.destructive
    &&& after.args@.len() == before.args@.len()
    &&& after.args@.take(before.args@.len() - 1) == before.args@.take(before.args@.len() - 1)
    &&& after.args@.last().name == before.args@.last().name
    &&& after.args@.last().description@ == before.args@.last().description@
    &&& after.args@.last().ty == before.args@.last().ty
}

/// The value of an optional JSON value.
pub open spec fn json_opt(j: Option<Json>) -> Option<JsonV> {
    match j {
        Some(v) => Some(v@),
        None => None,
    }
}

/// The contents of each string.
pub open spec fn strs_view(c: Seq<&'static str>) -> Seq<Seq<char>> {
    Seq::new(c.len(), |i: int| c[i]@)
}

/// An argument definition, as values.
#[verifier::ext_equal]
pub ghost struct ArgOutline {
    pub name: Seq<char>,
    pub description: Seq<char>,
    pub ty: ArgTy,
    pub required: bool,
    pub default: Option<JsonV>,
    pub choices: Option<Seq<Seq<char>>>,
}

/// A tool definition, as values, all but the group it is later put in.
#[verifier::ext_equal]
pub ghost struct ToolOutline {
    pub name: Seq<char>,
    pub command: Seq<char>,
    pub description: Seq<char>,
    pub read_only: bool,
    pub destructive: bool,
    pub fixed: Seq<(Seq<char>, JsonV)>,
    pub args: Seq<ArgOutline>,
}

pub open spec fn arg_outline(a: ArgDef) -> ArgOutline {
    ArgOutline {
        name: a.name@,
        description: a.description@,
        ty: a.ty,
        required: a.required,
        default: json_opt(a.default),
        choices: match a.choices {
            Some(c) => Some(strs_view(c@)),
            None => None,
        },
    }
}

pub open spec fn arg_outlines(args: Seq<ArgDef>) -> Seq<ArgOutline> {
    Seq::new(args.len(), |i: int| arg_outline(args[i]))
}

pub open spec fn tool_outline(t: ToolDef) -> ToolOutline {
    ToolOutline {
        name: t.name@,
        command: t.command@,
        description: t.description@,
        read_only: t.read_only,
        destructive: t.destructive,
        fixed: fixed_view(t),
        args: arg_outlines(t.args@),
    }
}

pub open spec fn outlines(ts: Seq<ToolDef>) -> Seq<ToolOutline> {
    Seq::new(ts.len(), |i: int| tool_outline(ts[i]))
}

/// A tool with no fixed parameters.
pub open spec fn tool(
    name: Seq<char>,
    command: Seq<char>,
    description: Seq<char>,
    read_only: bool,
    destructive: bool,
    args: Seq<ArgOutline>,
) -> ToolOutline {
    ToolOutline { name, command, description, read_only, destructive, fixed: Seq::empty(), args }
}

/// `a` with a default, which makes it optional.
pub open spec fn with_default(a: ArgOutline, default: JsonV) -> ArgOutline {
    ArgOutline {
        name: a.name,
        description: a.description,
        ty: a.ty,
        required: false,
        default: Some(default),
        choices: a.choices,
    }
}

/// `a` limited to `choices`.
pub open spec fn with_choices(a: ArgOutline, choices: Seq<Seq<char>>) -> ArgOutline {
    ArgOutline {
        name: a.name,
        description: a.description,
        ty: a.ty,
        required: a.required,
        default: a.default,
        choices: Some(choices),
    }
}

/// An argument with neither default nor choices.
pub open spec fn plain(name: Seq<char>, description: Seq<char>, ty: ArgTy, required: bool) -> ArgOutline {
    ArgOutline { name, description, ty, required, default: None, choices: None }
}

/// An optional argument with a default.
pub open spec fn defaulted(name: Seq<char>, description: Seq<char>, ty: ArgTy, default: JsonV) -> ArgOutline {
    ArgOutline { name, description, ty, required: false, default: Some(default), choices: None }
}

/// An optional string argument limited to `choices`, with a default.
pub open spec fn chosen(
    name: Seq<char>,
    description: Seq<char>,
    choices: Seq<Seq<char>>,
    default: Option<JsonV>,
) -> ArgOutline {
    ArgOutline { name, description, ty: ArgTy::Str, required: false, default, choices: Some(choices) }
}

}

verus! {

/// `str::to_ascii_lowercase(str::trim(s))` read as one of the words that
/// mean true or false.
pub open spec fn bool_word(s: Seq<char>) -> Option<bool> {
    let w = ascii_lower_seq(trim_seq(s));
    if w == "true"@ || w == "1"@ || w == "yes"@ || w == "on"@ {
        Some(true)
    } else if w == "false"@ || w == "0"@ || w == "no"@ || w == "off"@ {
        Some(false)
    } else {
        None
    }
}

/// What an argument of type `ty` becomes when given `v`, or `None` when it is
/// rejected. A list given as a string is read by the JSON reader instead.
pub open spec fn coerced(ty: ArgTy, v: JsonV) -> Option<JsonV> {
    match ty {
        ArgTy::Int => match v {
            JsonV::Int(_) => Some(v),
            JsonV::UInt(_) => Some(v),
            JsonV::Decimal(_, whole) => match whole {
                Some(i) => Some(JsonV::Int(i)),
                None => None,
            },
            JsonV::Str(s) => match signed_text(trim_seq(s)) {
                Some(n) => if i64::MIN <= n <= i64::MAX {
                    Some(JsonV::Int(n as i64))
                } else {
                    None
                },
                None => None,
            },
            _ => None,
        },
        ArgTy::Num => match v {
            JsonV::Int(_) => Some(v),
            JsonV::UInt(_) => Some(v),
            JsonV::Decimal(_, _) => Some(v),
            JsonV::Str(s) => if float_text(trim_seq(s)) {
                if special_float(strip_sign(trim_seq(s))) {
                    // `inf` and `nan` have no JSON number; `json!` makes them null.
                    Some(JsonV::Null)
                } else {
                    Some(JsonV::Decimal(trim_seq(s), None))
                }
            } else {
                None
            },
            _ => None,
        },
        ArgTy::Bool => match v {
            JsonV::Bool(_) => Some(v),
            JsonV::Str(s) => match bool_word(s) {
                Some(b) => Some(JsonV::Bool(b)),
                None => None,
            },
            _ => None,
        },
        ArgTy::Str => match v {
            JsonV::Str(_) => Some(v),
            _ => None,
        },
        ArgTy::Any => Some(v),
        _ => match v {
            JsonV::Array(_) => Some(v),
            _ => None,
        },
    }
}

/// A coerced value is allowed by the argument's choices (which only
/// constrain strings).
pub open spec fn choice_ok(arg: ArgDef, c: JsonV) -> bool {
    match arg.choices {
        Some(cs) => match c {
            JsonV::Str(g) => exists|i: int| 0 <= i < cs@.len() && cs@[i]@ == g,
            _ => true,
        },
        None => true,
    }
}

/// `c` is what `arg` accepts for the given value `v`.
pub open spec fn accepts<P: Fn(&str) -> Option<Json>>(arg: ArgDef, v: JsonV, c: JsonV, read_json: P) -> bool {
    if is_list(arg.ty) && v is Str {
        c is Array && exists|t: &str, p: Json|
            t@ == v->Str_0 && #[trigger] read_json.ensures((t,), Some(p)) && p@ == c
    } else {
        coerced(arg.ty, v) == Some(c) && choice_ok(arg, c)
    }
}

/// `arg` turns the value `v` down.
pub open spec fn rejects<P: Fn(&str) -> Option<Json>>(arg: ArgDef, v: JsonV, read_json: P) -> bool {
    if is_list(arg.ty) && v is Str {
        exists|t: &str, o: Option<Json>|
            t@ == v->Str_0 && #[trigger] read_json.ensures((t,), o) && !(o is Some && o->0@ is Array)
    } else {
        match coerced(arg.ty, v) {
            Some(c) => !choice_ok(arg, c),
            None => true,
        }
    }
}

/// "`name`" followed by `rest`: how a refusal names an argument.
pub open spec fn named(name: Seq<char>, rest: Seq<char>) -> Seq<char> {
    seq!['`'] + name + rest
}

/// `parts` with `sep` between each two, as `join` writes them.
pub open spec fn joined_with(parts: Seq<Seq<char>>, sep: Seq<char>) -> Seq<char>
    decreases parts.len(),
{
    if parts.len() == 0 {
        Seq::empty()
    } else if parts.len() == 1 {
        parts[0]
    } else {
        joined_with(parts.drop_last(), sep) + sep + parts.last()
    }
}

/// Why an argument of the wrong type is turned down.
pub open spec fn type_refusal(arg: ArgDef, v: JsonV) -> Seq<char> {
    let n = arg.name@;
    match arg.ty {
        ArgTy::Int => match v {
            JsonV::Decimal(t, _) => named(n, "` must be a whole number, got "@ + plain_number(t)),
            JsonV::Str(s) => named(n, "` must be an integer, got "@ + debug_form(s)),
            _ => named(n, "` must be an integer, got "@ + compact_text(v)),
        },
        ArgTy::Num => match v {
            JsonV::Str(s) => named(n, "` must be a number, got "@ + debug_form(s)),
            _ => named(n, "` must be a number, got "@ + compact_text(v)),
        },
        ArgTy::Bool => match v {
            JsonV::Str(s) => named(n, "` must be a boolean, got "@ + debug_form(s)),
            _ => named(n, "` must be a boolean, got "@ + compact_text(v)),
        },
        ArgTy::Str => named(n, "` must be a string, got "@ + compact_text(v)),
        ArgTy::Any => Seq::empty(),
        _ => match v {
            JsonV::Str(_) => named(n, "` must be an array"@),
            _ => named(n, "` must be an array, got "@ + compact_text(v)),
        },
    }
}

/// Why the string `got` is turned down by an argument with choices.
pub open spec fn choice_refusal(arg: ArgDef, got: Seq<char>) -> Seq<char> {
    named(
        arg.name@,
        "` must be one of "@ + joined_with(strs_view(arg.choices->0@), ", "@) + ", got "@ + debug_form(got),
    )
}

/// The message with which `arg` turns the value `v` down.
pub open spec fn refusal(arg: ArgDef, v: JsonV) -> Seq<char> {
    if !(is_list(arg.ty) && v is Str) && coerced(arg.ty, v) is Some {
        choice_refusal(arg, coerced(arg.ty, v)->0->Str_0)
    } else {
        type_refusal(arg, v)
    }
}

/// Does `names` hold `s`?
fn listed(names: &Vec<&'static str>, s: &String) -> (r: bool)
    ensures
        r == exists|i: int| 0 <= i < names@.len() && names@[i]@ == s@,
{
    let mut i: usize = 0;
    while i < names.len()
        invariant
            i <= names@.len(),
            forall|k: int| 0 <= k < i ==> names@[k]@ != s@,
        decreases names.len() - i,
    {
        if str_eq(names[i], s.as_str()) {
            return true;
        }
        i += 1;
    }
    false
}

/// "`name`" followed by `rest`.
fn arg_message(name: &str, rest: &str, tail: &Vec<char>) -> (r: String)
    ensures
        has_infix(r@, name@),
        r@ == named(name@, rest@ + tail@),
{
    let mut v: Vec<char> = Vec::new();
    v.push('`');
    append_str(&mut v, name);
    let ghost before = v@;
    append_str(&mut v, rest);
    append_chars(&mut v, tail);
    proof {
        assert(v@ == seq!['`'] + name@ + (rest@ + tail@));
        lemma_infix_middle(seq!['`'], name@, rest@ + tail@);
        assert(v@ =~= named(name@, rest@ + tail@));
    }
    string_from(&v)
}

fn compact_of(j: &Json) -> (r: Vec<char>)
    ensures
        r@ == compact_text(j@),
{
    let mut v: Vec<char> = Vec::new();
    write_compact(&mut v, j);
    assert(v@ =~= compact_text(j@));
    v
}

/// Accept the near-misses models routinely produce (`"3"` for an integer,
/// `4` for a float) while still rejecting genuinely wrong shapes.
///
/// `read_json` reads JSON text, for lists handed over as the text of a list.
pub fn coerce<P: Fn(&str) -> Option<Json>>(arg: &ArgDef, value: &Json, read_json: &P) -> (r: Result<Json, String>)
    requires
        forall|t: &str| read_json.requires((t,)),
    ensures
        match r {
            Ok(c) => accepts(*arg, value@, c@, *read_json),
            Err(m) => rejects(*arg, value@, *read_json) && has_infix(m@, arg.name@) && m@ == refusal(
                *arg,
                value@,
            ),
        },
{
    let name = arg.name;
    let c: Json = match arg.ty {
        ArgTy::Int => match value {
            Json::Int(_) => copy_json(value),
            Json::UInt(_) => copy_json(value),
            Json::Decimal(d) => match d.integral {
                Some(i) => Json::Int(i),
                None => {
                    let t = plain_number_text(&chars_of(d.text.as_str()));
                    return Err(arg_message(name, "` must be a whole number, got ", &t));
                },
            },
            Json::Str(s) => {
                let cs = chars_of(s.as_str());
                let t = trim_chars(&cs);
                match parse_i64(&t) {
                    Some(n) => Json::Int(n),
                    None => {
                        return Err(arg_message(name, "` must be an integer, got ", &chars_of(debug_text(s.as_str()).as_str())));
                    },
                }
            },
            _ => {
                return Err(arg_message(name, "` must be an integer, got ", &compact_of(value)));
            },
        },
        ArgTy::Num => match value {
            Json::Int(_) => copy_json(value),
            Json::UInt(_) => copy_json(value),
            Json::Decimal(_) => copy_json(value),
            Json::Str(s) => {
                let cs = chars_of(s.as_str());
                let t = trim_chars(&cs);
                if !is_float_text(&t) {
                    return Err(arg_message(name, "` must be a number, got ", &chars_of(debug_text(s.as_str()).as_str())));
                }
                let b = strip_sign_of(&t);
                if is_special_float(&b) {
                    Json::Null
                } else {
                    Json::Decimal(Decimal { text: string_from(&t), integral: None })
                }
            },
            _ => {
                return Err(arg_message(name, "` must be a number, got ", &compact_of(value)));
            },
        },
        ArgTy::Bool => match value {
            Json::Bool(_) => copy_json(value),
            Json::Str(s) => {
                let cs = chars_of(s.as_str());
                let t = trim_chars(&cs);
                let l = ascii_lowercase(&t);
                let w = string_from(&l);
                let w = w.as_str();
                if str_eq(w, "true") || str_eq(w, "1") || str_eq(w, "yes") || str_eq(w, "on") {
                    Json::Bool(true)
                } else if str_eq(w, "false") || str_eq(w, "0") || str_eq(w, "no") || str_eq(w, "off") {
                    Json::Bool(false)
                } else {
                    return Err(arg_message(name, "` must be a boolean, got ", &chars_of(debug_text(s.as_str()).as_str())));
                }
            },
            _ => {
                return Err(arg_message(name, "` must be a boolean, got ", &compact_of(value)));
            },
        },
        ArgTy::Str => match value {
            Json::Str(_) => copy_json(value),
            _ => {
                return Err(arg_message(name, "` must be a string, got ", &compact_of(value)));
            },
        },
        ArgTy::Any => copy_json(value),
        _ => match value {
            Json::Array(_) => copy_json(value),
            Json::Str(s) => {
                let t = s.as_str();
                let o = read_json(t);
                match o {
                    Some(p) => {
                        if let Json::Array(_) = p {
                            return Ok(p);
                        } else {
                            return Err(arg_message(name, "` must be an array", &Vec::new()));
                        }
                    },
                    None => {
                        return Err(arg_message(name, "` must be an array", &Vec::new()));
                    },
                }
            },
            _ => {
                return Err(arg_message(name, "` must be an array, got ", &compact_of(value)));
            },
        },
    };
    assert(coerced(arg.ty, value@) == Some(c@));
    if let Some(choices) = &arg.choices {
        if let Json::Str(got) = &c {
            if !listed(choices, got) {
                let mut tail: Vec<char> = Vec::new();
                let mut i: usize = 0;
                assert(strs_view(choices@).take(0) =~= Seq::<Seq<char>>::empty());
                while i < choices.len()
                    invariant
                        i <= choices@.len(),
                        tail@ == joined_with(strs_view(choices@).take(i as int), ", "@),
                    decreases choices.len() - i,
                {
                    assert(strs_view(choices@).take(i + 1).drop_last() =~= strs_view(choices@).take(i as int));
                    if i > 0 {
                        append_str(&mut tail, ", ");
                    } else {
                        assert(tail@ =~= Seq::<char>::empty());
                    }
                    append_str(&mut tail, choices[i]);
                    i += 1;
                }
                assert(strs_view(choices@).take(choices@.len() as int) =~= strs_view(choices@));
                append_str(&mut tail, ", got ");
                let q = chars_of(debug_text(got.as_str()).as_str());
                append_chars(&mut tail, &q);
                return Err(arg_message(name, "` must be one of ", &tail));
            }
        }
    }
    Ok(c)
}

fn strip_sign_of(s: &Vec<char>) -> (r: Vec<char>)
    ensures
        r@ == strip_sign(s@),
{
    if s.len() > 0 && (s[0] == '+' || s[0] == '-') {
        let r = sub_chars(s, 1, s.len());
        assert(r@ =~= s@.drop_first());
        r
    } else {
        let r = sub_chars(s, 0, s.len());
        assert(r@ =~= s@);
        r
    }
}

}

verus! {

/// The value supplied for `name`, where an explicit `null` counts as not
/// supplied.
pub open spec fn supplied(given: Seq<(Seq<char>, JsonV)>, name: Seq<char>) -> Option<JsonV> {
    match lookup(given, name) {
        Some(JsonV::Null) => None,
        other => other,
    }
}

/// The arguments a call supplied, as entries.
pub open spec fn given_of(args: Option<&Vec<(String, Json)>>) -> Seq<(Seq<char>, JsonV)> {
    match args {
        Some(a) => entries_view(a@),
        None => Seq::empty(),
    }
}

/// The fixed parameters of `t`, as entries.
pub open spec fn fixed_view(t: ToolDef) -> Seq<(Seq<char>, JsonV)> {
    Seq::new(t.fixed@.len(), |i: int| (t.fixed@[i].0@, t.fixed@[i].1@))
}

/// `k` names one of `t`'s arguments.
pub open spec fn is_arg_name(t: ToolDef, k: Seq<char>) -> bool {
    exists|i: int| 0 <= i < t.args@.len() && t.args@[i].name@ == k
}

/// `k` is an argument of `t` or one of its fixed parameters.
pub open spec fn known_key(t: ToolDef, k: Seq<char>) -> bool {
    is_arg_name(t, k) || exists|i: int| 0 <= i < t.fixed@.len() && t.fixed@[i].0@ == k
}

/// No other argument of `t` has the name of argument `i`.
pub open spec fn unique_arg(t: ToolDef, i: int) -> bool {
    forall|j: int| 0 <= j < t.args@.len() && j != i ==> t.args@[j].name@ != t.args@[i].name@
}

/// Argument `arg` is satisfied by what was given.
pub open spec fn arg_ok<P: Fn(&str) -> Option<Json>>(arg: ArgDef, given: Seq<(Seq<char>, JsonV)>, read_json: P) -> bool {
    match supplied(given, arg.name@) {
        None => arg.default is Some || !arg.required,
        Some(v) => exists|c: JsonV| accepts(arg, v, c, read_json),
    }
}

/// Argument `arg` fails on what was given.
pub open spec fn arg_fails<P: Fn(&str) -> Option<Json>>(arg: ArgDef, given: Seq<(Seq<char>, JsonV)>, read_json: P) -> bool {
    match supplied(given, arg.name@) {
        None => arg.default is None && arg.required,
        Some(v) => rejects(arg, v, read_json),
    }
}

/// The argument puts a value into the parameters: it was supplied, or it
/// has a default.
pub open spec fn contributes(arg: ArgDef, given: Seq<(Seq<char>, JsonV)>) -> bool {
    supplied(given, arg.name@) is Some || arg.default is Some
}

/// The argument whose value the parameter `k` ends up with: the last of
/// `args` named `k` that puts a value in, as each puts its value over the
/// one before.
pub open spec fn giver(args: Seq<ArgDef>, given: Seq<(Seq<char>, JsonV)>, k: Seq<char>) -> Option<ArgDef>
    decreases args.len(),
{
    if args.len() == 0 {
        None
    } else if args.last().name@ == k && contributes(args.last(), given) {
        Some(args.last())
    } else {
        giver(args.drop_last(), given, k)
    }
}

/// `got` is what the parameter `k` holds when `g` gives it: the supplied
/// value as `g` accepts it, or `g`'s default; `otherwise` when no argument
/// gives it.
pub open spec fn gives<P: Fn(&str) -> Option<Json>>(
    g: Option<ArgDef>,
    given: Seq<(Seq<char>, JsonV)>,
    k: Seq<char>,
    got: Option<JsonV>,
    otherwise: Option<JsonV>,
    read_json: P,
) -> bool {
    match g {
        Some(a) => match supplied(given, k) {
            Some(v) => got matches Some(c) && accepts(a, v, c, read_json),
            None => got == json_opt(a.default),
        },
        None => got == otherwise,
    }
}

/// `got` is what tool `t` puts under the parameter `k`: the value of the
/// argument that gives it, or else the fixed value.
pub open spec fn param_value<P: Fn(&str) -> Option<Json>>(
    t: ToolDef,
    given: Seq<(Seq<char>, JsonV)>,
    k: Seq<char>,
    got: Option<JsonV>,
    read_json: P,
) -> bool {
    gives(giver(t.args@, given, k), given, k, got, lookup(puts(fixed_view(t)), k), read_json)
}

/// `p` is the `params` object that tool `t` builds from the arguments
/// `given`: every argument is satisfied, every key is known, and each
/// parameter is the coerced argument, its default, or the fixed value.
pub open spec fn params_built<P: Fn(&str) -> Option<Json>>(
    t: ToolDef,
    given: Seq<(Seq<char>, JsonV)>,
    p: JsonV,
    read_json: P,
) -> bool {
    &&& forall|i: int| 0 <= i < t.args@.len() ==> arg_ok(t.args@[i], given, read_json)
    &&& forall|i: int| 0 <= i < given.len() ==> known_key(t, #[trigger] given[i].0)
    &&& p matches JsonV::Object(s) && {
        &&& keys_distinct(s)
        &&& forall|k: Seq<char>| #[trigger] param_value(t, given, k, lookup(s, k), read_json)
    }
}

/// Tool `t` refuses the arguments `given`: an argument fails, or a key is
/// neither an argument nor a fixed parameter.
pub open spec fn params_refused<P: Fn(&str) -> Option<Json>>(
    t: ToolDef,
    given: Seq<(Seq<char>, JsonV)>,
    read_json: P,
) -> bool {
    (exists|i: int| 0 <= i < t.args@.len() && arg_fails(t.args@[i], given, read_json))
        || (exists|i: int| 0 <= i < given.len() && !known_key(t, #[trigger] given[i].0))
}

/// The message for an argument that fails on what was given: the missing
/// argument, or why its value is turned down.
pub open spec fn arg_refusal_text(arg: ArgDef, given: Seq<(Seq<char>, JsonV)>) -> Seq<char> {
    match supplied(given, arg.name@) {
        None => "missing required argument `"@ + arg.name@ + "`"@,
        Some(v) => refusal(arg, v),
    }
}

/// The names of `t`'s arguments, in order.
pub open spec fn arg_names(t: ToolDef) -> Seq<Seq<char>> {
    Seq::new(t.args@.len(), |i: int| t.args@[i].name@)
}

/// The message for the key `k`, which `t` does not know.
pub open spec fn unknown_message(t: ToolDef, k: Seq<char>) -> Seq<char> {
    "unknown argument `"@ + k + "`; expected one of: "@ + joined_with(arg_names(t), ", "@)
}

/// Tool `t` refuses the arguments `given` with the message `m`: the first
/// argument that fails, in order, gives it; when none fails, the first key
/// that is neither an argument nor a fixed parameter gives it.
pub open spec fn refused_with<P: Fn(&str) -> Option<Json>>(
    t: ToolDef,
    given: Seq<(Seq<char>, JsonV)>,
    m: Seq<char>,
    read_json: P,
) -> bool {
    ||| exists|i: int|
        0 <= i < t.args@.len() && (forall|j: int| 0 <= j < i ==> arg_ok(#[trigger] t.args@[j], given, read_json))
            && #[trigger] arg_fails(t.args@[i], given, read_json) && m == arg_refusal_text(t.args@[i], given)
    ||| (forall|i: int| 0 <= i < t.args@.len() ==> arg_ok(#[trigger] t.args@[i], given, read_json)) && exists|u: int|
        0 <= u < given.len() && (forall|w: int| 0 <= w < u ==> known_key(t, #[trigger] given[w].0)) && !known_key(
            t,
            #[trigger] given[u].0,
        ) && m == unknown_message(t, given[u].0)
}

/// What [`ToolDef::build_params`] gives for the arguments `given`: the
/// parameters it builds, or the message it refuses with.
pub open spec fn build_outcome<P: Fn(&str) -> Option<Json>>(
    t: ToolDef,
    given: Seq<(Seq<char>, JsonV)>,
    r: Result<JsonV, Seq<char>>,
    read_json: P,
) -> bool {
    match r {
        Ok(p) => params_built(t, given, p, read_json),
        Err(m) => params_refused(t, given, read_json) && refused_with(t, given, m, read_json),
    }
}

/// The view of what [`ToolDef::build_params`] returns.
pub open spec fn result_view(r: Result<Json, String>) -> Result<JsonV, Seq<char>> {
    match r {
        Ok(p) => Ok(p@),
        Err(m) => Err(m@),
    }
}

/// Two outcomes agree: the same refusal message, or parameters with the same
/// value under every key.
pub open spec fn same_outcome(a: Result<JsonV, Seq<char>>, b: Result<JsonV, Seq<char>>) -> bool {
    match (a, b) {
        (Err(x), Err(y)) => x == y,
        (Ok(JsonV::Object(x)), Ok(JsonV::Object(y))) => forall|k: Seq<char>| lookup(x, k) == lookup(y, k),
        _ => false,
    }
}

/// Without arguments, and with an empty argument object, a tool builds the
/// same parameters or refuses with the same message: a missing or `null`
/// argument map counts as empty.
pub proof fn lemma_no_arguments_as_empty<P: Fn(&str) -> Option<Json>>(
    t: ToolDef,
    empty: &Vec<(String, Json)>,
    a: Result<JsonV, Seq<char>>,
    b: Result<JsonV, Seq<char>>,
    read_json: P,
)
    requires
        empty@.len() == 0,
        build_outcome(t, given_of(None), a, read_json),
        build_outcome(t, given_of(Some(empty)), b, read_json),
    ensures
        same_outcome(a, b),
{
    let g = given_of(Some(empty));
    assert(g =~= given_of(None));
    assert(g.len() == 0);
    assert forall|i: int| 0 <= i < t.args@.len() implies arg_ok(t.args@[i], g, read_json) || arg_fails(
        t.args@[i],
        g,
        read_json,
    ) by {
        assert(supplied(g, t.args@[i].name@) is None);
    }
    match (a, b) {
        (Err(x), Err(y)) => {
            let i = choose|i: int|
                0 <= i < t.args@.len() && (forall|j: int| 0 <= j < i ==> arg_ok(#[trigger] t.args@[j], g, read_json))
                    && #[trigger] arg_fails(t.args@[i], g, read_json) && x == arg_refusal_text(t.args@[i], g);
            let k = choose|k: int|
                0 <= k < t.args@.len() && (forall|j: int| 0 <= j < k ==> arg_ok(#[trigger] t.args@[j], g, read_json))
                    && #[trigger] arg_fails(t.args@[k], g, read_json) && y == arg_refusal_text(t.args@[k], g);
            assert(supplied(g, t.args@[i].name@) is None);
            assert(supplied(g, t.args@[k].name@) is None);
            if i < k {
                assert(arg_ok(t.args@[i], g, read_json));
            } else if k < i {
                assert(arg_ok(t.args@[k], g, read_json));
            }
        },
        (Ok(p), Ok(q)) => {
            assert forall|k: Seq<char>| lookup(p->Object_0, k) == lookup(q->Object_0, k) by {
                assert(param_value(t, g, k, lookup(p->Object_0, k), read_json));
                assert(param_value(t, g, k, lookup(q->Object_0, k), read_json));
                assert(supplied(g, k) is None);
            }
        },
        (Ok(_), Err(_)) => {
            let i = choose|i: int|
                0 <= i < t.args@.len() && (forall|j: int| 0 <= j < i ==> arg_ok(#[trigger] t.args@[j], g, read_json))
                    && #[trigger] arg_fails(t.args@[i], g, read_json) && true;
            assert(arg_ok(t.args@[i], g, read_json));
            assert(supplied(g, t.args@[i].name@) is None);
        },
        (Err(_), Ok(_)) => {
            let i = choose|i: int|
                0 <= i < t.args@.len() && (forall|j: int| 0 <= j < i ==> arg_ok(#[trigger] t.args@[j], g, read_json))
                    && #[trigger] arg_fails(t.args@[i], g, read_json) && true;
            assert(arg_ok(t.args@[i], g, read_json));
            assert(supplied(g, t.args@[i].name@) is None);
        },
    }
}

impl ToolDef {
    /// Turn MCP arguments into the Remote Script's `params` object.
    ///
    /// Unknown keys are refused rather than forwarded: a hallucinated argument
    /// should not reach Live as a silently ignored parameter. `read_json` reads
    /// JSON text, for lists handed over as the text of a list.
    pub fn build_params<P: Fn(&str) -> Option<Json>>(
        &self,
        args: Option<&Vec<(String, Json)>>,
        read_json: &P,
    ) -> (r: Result<Json, String>)
        requires
            forall|t: &str| read_json.requires((t,)),
        ensures
            match r {
                Ok(p) => params_built(*self, given_of(args), p@, *read_json),
                Err(_) => params_refused(*self, given_of(args), *read_json),
            },
            build_outcome(*self, given_of(args), result_view(r), *read_json),
    {
        let ghost given = given_of(args);
        let empty: Vec<(String, Json)> = Vec::new();
        let entries = match args {
            Some(a) => a,
            None => &empty,
        };
        assert(given =~= entries_view(entries@));

        let mut params: Vec<(String, Json)> = Vec::new();
        let mut f: usize = 0;
        while f < self.fixed.len()
            invariant
                f <= self.fixed@.len(),
                entries_view(params@) == puts(fixed_view(*self).take(f as int)),
                keys_distinct(entries_view(params@)),
            decreases self.fixed.len() - f,
        {
            let key = self.fixed[f].0.to_owned();
            let value = copy_json(&self.fixed[f].1);
            proof {
                assert(fixed_view(*self).take(f + 1).drop_last() =~= fixed_view(*self).take(f as int));
                lemma_put_distinct(entries_view(params@), key@, value@);
            }
            insert_key(&mut params, key, value);
            f += 1;
        }
        assert(fixed_view(*self).take(self.fixed@.len() as int) =~= fixed_view(*self));
        let ghost base = entries_view(params@);

        let mut i: usize = 0;
        while i < self.args.len()
            invariant
                i <= self.args@.len(),
                given == entries_view(entries@),
                given == given_of(args),
                base == puts(fixed_view(*self)),
                forall|t: &str| read_json.requires((t,)),
                keys_distinct(entries_view(params@)),
                forall|j: int| 0 <= j < i ==> arg_ok(self.args@[j], given, *read_json),
                forall|k: Seq<char>|
                    #[trigger] gives(
                        giver(self.args@.take(i as int), given, k),
                        given,
                        k,
                        lookup(entries_view(params@), k),
                        lookup(base, k),
                        *read_json,
                    ),
            decreases self.args.len() - i,
        {
            let arg = &self.args[i];
            let ghost before = entries_view(params@);
            let found = get_key(entries, arg.name);
            let present: Option<&Json> = match found {
                Some(Json::Null) => None,
                Some(v) => Some(v),
                None => None,
            };
            assert(present matches Some(v) ==> supplied(given, arg.name@) == Some(v@));
            assert(present is None ==> supplied(given, arg.name@) is None);
            match present {
                None => {
                    match &arg.default {
                        Some(d) => {
                            let d2 = copy_json(d);
                            proof {
                                lemma_put_distinct(before, arg.name@, d2@);
                                assert forall|k: Seq<char>| k != arg.name@ implies lookup(put(before, arg.name@, d2@), k) == lookup(before, k) by {
                                    lemma_lookup_put(before, arg.name@, d2@, k);
                                }
                                lemma_lookup_put(before, arg.name@, d2@, arg.name@);
                            }
                            insert_key(&mut params, arg.name.to_owned(), d2);
                        },
                        None => {
                            if arg.required {
                                let mut tail: Vec<char> = Vec::new();
                                tail.push('`');
                                let m = arg_message_prefixed("missing required argument `", arg.name, &tail);
                                assert(tail@ =~= "`"@) by {
                                    reveal_strlit("`");
                                }
                                assert(arg_fails(self.args@[i as int], given, *read_json));
                                return Err(m);
                            }
                        },
                    }
                },
                Some(v) => {
                    let c = match coerce(arg, v, read_json) {
                        Ok(c) => c,
                        Err(e) => {
                            assert(arg_fails(self.args@[i as int], given, *read_json));
                            return Err(e);
                        },
                    };
                    proof {
                        lemma_put_distinct(before, arg.name@, c@);
                        assert forall|k: Seq<char>| k != arg.name@ implies lookup(put(before, arg.name@, c@), k) == lookup(before, k) by {
                            lemma_lookup_put(before, arg.name@, c@, k);
                        }
                        lemma_lookup_put(before, arg.name@, c@, arg.name@);
                    }
                    insert_key(&mut params, arg.name.to_owned(), c);
                },
            }
            proof {
                let after = entries_view(params@);
                let pre = self.args@.take(i as int);
                let now = self.args@.take(i + 1);
                assert(now.drop_last() =~= pre);
                assert(now.last() == self.args@[i as int]);
                assert forall|k: Seq<char>|
                    #[trigger] gives(
                        giver(now, given, k),
                        given,
                        k,
                        lookup(after, k),
                        lookup(base, k),
                        *read_json,
                    ) by {
                    assert(gives(giver(pre, given, k), given, k, lookup(before, k), lookup(base, k), *read_json));
                    if k == arg.name@ && contributes(*arg, given) {
                        assert(giver(now, given, k) == Some(*arg));
                    } else {
                        assert(giver(now, given, k) == giver(pre, given, k));
                        if k != arg.name@ {
                            assert(lookup(after, k) == lookup(before, k));
                        } else {
                            assert(after == before);
                        }
                    }
                }
            }
            i += 1;
        }

        let mut u: usize = 0;
        while u < entries.len()
            invariant
                u <= entries@.len(),
                given == entries_view(entries@),
                given == given_of(args),
                forall|m: int| 0 <= m < u ==> known_key(*self, #[trigger] given[m].0),
                forall|j: int| 0 <= j < self.args@.len() ==> arg_ok(#[trigger] self.args@[j], given, *read_json),
            decreases entries.len() - u,
        {
            let key = &entries[u].0;
            if !self.knows(key) {
                let m = self.unknown_refusal(key);
                assert(!known_key(*self, given[u as int].0));
                assert(exists|m: int| 0 <= m < given.len() && !known_key(*self, #[trigger] given[m].0));
                assert(refused_with(*self, given, m@, *read_json)) by {
                    assert(given[u as int].0 == key@);
                }
                return Err(m);
            }
            u += 1;
        }

        let out = Json::Object(params);
        proof {
            lemma_object_view(params);
            assert(self.args@.take(self.args@.len() as int) =~= self.args@);
            assert forall|k: Seq<char>| #[trigger] param_value(*self, given, k, lookup(entries_view(params@), k), *read_json) by {
                assert(gives(
                    giver(self.args@.take(self.args@.len() as int), given, k),
                    given,
                    k,
                    lookup(entries_view(params@), k),
                    lookup(base, k),
                    *read_json,
                ));
            }
        }
        Ok(out)
    }

    /// The refusal of a key this tool does not know.
    fn unknown_refusal(&self, key: &String) -> (r: String)
        ensures
            r@ == unknown_message(*self, key@),
    {
        let mut tail: Vec<char> = Vec::new();
        append_str(&mut tail, "`; expected one of: ");
        let ghost start = tail@;
        let mut a: usize = 0;
        assert(arg_names(*self).take(0) =~= Seq::<Seq<char>>::empty());
        while a < self.args.len()
            invariant
                a <= self.args@.len(),
                start == "`; expected one of: "@,
                tail@ == start + joined_with(arg_names(*self).take(a as int), ", "@),
            decreases self.args.len() - a,
        {
            assert(arg_names(*self).take(a + 1).drop_last() =~= arg_names(*self).take(a as int));
            if a > 0 {
                append_str(&mut tail, ", ");
            } else {
                assert(tail@ =~= start);
            }
            append_str(&mut tail, self.args[a].name);
            a += 1;
        }
        assert(arg_names(*self).take(self.args@.len() as int) =~= arg_names(*self));
        arg_message_prefixed("unknown argument `", key.as_str(), &tail)
    }

    /// Whether `key` is one of this tool's arguments or fixed parameters.
    fn knows(&self, key: &String) -> (r: bool)
        ensures
            r == known_key(*self, key@),
    {
        let mut a: usize = 0;
        while a < self.args.len()
            invariant
                a <= self.args@.len(),
                forall|m: int| 0 <= m < a ==> self.args@[m].name@ != key@,
            decreases self.args.len() - a,
        {
            if str_eq(self.args[a].name, key.as_str()) {
                return true;
            }
            a += 1;
        }
        let mut f: usize = 0;
        while f < self.fixed.len()
            invariant
                f <= self.fixed@.len(),
                forall|m: int| 0 <= m < self.args@.len() ==> self.args@[m].name@ != key@,
                forall|m: int| 0 <= m < f ==> self.fixed@[m].0@ != key@,
            decreases self.fixed.len() - f,
        {
            if str_eq(self.fixed[f].0, key.as_str()) {
                return true;
            }
            f += 1;
        }
        false
    }
}

/// `prefix` followed by `name` and `tail`.
fn arg_message_prefixed(prefix: &str, name: &str, tail: &Vec<char>) -> (r: String)
    ensures
        has_infix(r@, name@),
        r@ == prefix@ + name@ + tail@,
{
    let mut v: Vec<char> = Vec::new();
    append_str(&mut v, prefix);
    append_str(&mut v, name);
    append_chars(&mut v, tail);
    proof {
        lemma_infix_middle(prefix@, name@, tail@);
    }
    string_from(&v)
}

}

verus! {

/// The JSON Schema `type` of an argument type, when it has one.
pub open spec fn schema_type(ty: ArgTy) -> Option<JsonV> {
    match ty {
        ArgTy::Int => Some(JsonV::Str("integer"@)),
        ArgTy::Num => Some(JsonV::Str("number"@)),
        ArgTy::Str => Some(JsonV::Str("string"@)),
        ArgTy::Bool => Some(JsonV::Str("boolean"@)),
        ArgTy::Any => None,
        _ => Some(JsonV::Str("array"@)),
    }
}

/// The strings of `choices`, as a JSON array.
pub open spec fn choices_view(choices: Seq<&'static str>) -> JsonV {
    JsonV::Array(Seq::new(choices.len(), |i: int| JsonV::Str(choices[i]@)))
}

/// The entries of an array schema with the item schema `item`, and the
/// description `d` where there is one.
pub open spec fn array_entries(item: JsonV, d: Option<Seq<char>>) -> Seq<(Seq<char>, JsonV)> {
    let s = seq![("type"@, JsonV::Str("array"@)), ("items"@, item)];
    match d {
        Some(d) => s.push(("description"@, JsonV::Str(d))),
        None => s,
    }
}

/// The schema of one element of a list argument of type `ty`.
pub open spec fn items_schema(ty: ArgTy) -> Option<JsonV> {
    match ty {
        ArgTy::IntList => Some(typed_view("integer"@)),
        ArgTy::StrList => Some(typed_view("string"@)),
        ArgTy::Notes => Some(note_schema_view()),
        ArgTy::Points => Some(point_schema_view()),
        ArgTy::Steps => Some(step_schema_view()),
        _ => None,
    }
}

/// The schema entries of an argument type, before its description, choices
/// and default.
pub open spec fn base_entries(ty: ArgTy) -> Seq<(Seq<char>, JsonV)> {
    match ty {
        ArgTy::Int => seq![("type"@, JsonV::Str("integer"@))],
        ArgTy::Num => seq![("type"@, JsonV::Str("number"@))],
        ArgTy::Str => seq![("type"@, JsonV::Str("string"@))],
        ArgTy::Bool => seq![("type"@, JsonV::Str("boolean"@))],
        ArgTy::Any => Seq::empty(),
        ArgTy::Points => array_entries(
            point_schema_view(),
            Some("Breakpoints as [time_in_beats, value] pairs, in ascending time order."@),
        ),
        _ => array_entries(items_schema(ty)->0, None),
    }
}

/// The entries of an argument's schema: its type's entries, then its
/// description, its choices under `enum` and its default, each put in turn.
pub open spec fn schema_entries(a: ArgDef) -> Seq<(Seq<char>, JsonV)> {
    let s1 = put(base_entries(a.ty), "description"@, JsonV::Str(a.description@));
    let s2 = match a.choices {
        Some(c) => put(s1, "enum"@, choices_view(c@)),
        None => s1,
    };
    match a.default {
        Some(d) => put(s2, "default"@, d@),
        None => s2,
    }
}

fn entry(v: &mut Vec<(String, Json)>, k: &str, val: Json)
    ensures
        entries_view(final(v)@) == put(entries_view(old(v)@), k@, val@),
{
    insert_key(v, k.to_owned(), val);
}

fn object(v: Vec<(String, Json)>) -> (r: Json)
    ensures
        r@ == JsonV::Object(entries_view(v@)),
{
    proof {
        lemma_object_view(v);
    }
    Json::Object(v)
}

fn typed(t: &str) -> (r: Vec<(String, Json)>)
    ensures
        entries_view(r@) == seq![("type"@, JsonV::Str(t@))],
{
    let mut v: Vec<(String, Json)> = Vec::new();
    v.push(("type".to_owned(), Json::text(t)));
    assert(entries_view(v@) =~= seq![("type"@, JsonV::Str(t@))]);
    v
}


/// A schema of type `t` with bounds and a description.
pub open spec fn bounded_view(t: Seq<char>, min: i64, max: i64, d: Seq<char>) -> JsonV {
    JsonV::Object(
        seq![
            ("type"@, JsonV::Str(t)),
            ("minimum"@, JsonV::Int(min)),
            ("maximum"@, JsonV::Int(max)),
            ("description"@, JsonV::Str(d)),
        ],
    )
}

/// A schema of type `t` with a description.
pub open spec fn described_view(t: Seq<char>, d: Seq<char>) -> JsonV {
    JsonV::Object(seq![("type"@, JsonV::Str(t)), ("description"@, JsonV::Str(d))])
}

/// A schema of type `t` alone.
pub open spec fn typed_view(t: Seq<char>) -> JsonV {
    JsonV::Object(seq![("type"@, JsonV::Str(t))])
}

/// The schema of one MIDI note.
pub open spec fn note_schema_view() -> JsonV {
    JsonV::Object(
        seq![
            ("type"@, JsonV::Str("object"@)),
            (
                "required"@,
                JsonV::Array(
                    seq![JsonV::Str("pitch"@), JsonV::Str("start_time"@), JsonV::Str("duration"@)],
                ),
            ),
            (
                "properties"@,
                JsonV::Object(
                    seq![
                        ("pitch"@, bounded_view("integer"@, 0i64, 127i64, "MIDI note number; 60 is middle C."@)),
                        ("start_time"@, described_view("number"@, "Offset in beats from the clip start."@)),
                        ("duration"@, described_view("number"@, "Length in beats."@)),
                        ("velocity"@, bounded_view("number"@, 0i64, 127i64, "Defaults to 100."@)),
                        ("mute"@, described_view("boolean"@, "Deactivate the note."@)),
                        ("probability"@, bounded_view("number"@, 0i64, 1i64, "Live 11+ per-note chance."@)),
                        (
                            "velocity_deviation"@,
                            described_view("number"@, "Live 11+ velocity randomisation range."@),
                        ),
                        (
                            "release_velocity"@,
                            JsonV::Object(
                                seq![
                                    ("type"@, JsonV::Str("number"@)),
                                    ("minimum"@, JsonV::Int(0i64)),
                                    ("maximum"@, JsonV::Int(127i64)),
                                ],
                            ),
                        ),
                    ],
                ),
            ),
        ],
    )
}

/// The schema of one `[time, value]` breakpoint.
pub open spec fn point_schema_view() -> JsonV {
    JsonV::Object(
        seq![
            ("type"@, JsonV::Str("array"@)),
            ("prefixItems"@, JsonV::Array(seq![typed_view("number"@), typed_view("number"@)])),
            ("minItems"@, JsonV::Int(2i64)),
            ("maxItems"@, JsonV::Int(2i64)),
        ],
    )
}

/// The schema of one `batch` step.
pub open spec fn step_schema_view() -> JsonV {
    JsonV::Object(
        seq![
            ("type"@, JsonV::Str("object"@)),
            ("required"@, JsonV::Array(seq![JsonV::Str("tool"@)])),
            (
                "properties"@,
                JsonV::Object(
                    seq![
                        ("tool"@, described_view("string"@, "Name of any other crableton tool."@)),
                        ("arguments"@, described_view("object"@, "That tool's arguments."@)),
                    ],
                ),
            ),
        ],
    )
}

fn bounded(t: &str, min: i64, max: i64, description: &str) -> (r: Json)
    ensures
        r@ == bounded_view(t@, min, max, description@),
{
    let v = vec![
        ("type".to_owned(), Json::text(t)),
        ("minimum".to_owned(), Json::Int(min)),
        ("maximum".to_owned(), Json::Int(max)),
        ("description".to_owned(), Json::text(description)),
    ];
    assert(entries_view(v@) =~= seq![
        ("type"@, JsonV::Str(t@)),
        ("minimum"@, JsonV::Int(min)),
        ("maximum"@, JsonV::Int(max)),
        ("description"@, JsonV::Str(description@)),
    ]);
    object(v)
}

fn described(t: &str, description: &str) -> (r: Json)
    ensures
        r@ == described_view(t@, description@),
{
    let v = vec![("type".to_owned(), Json::text(t)), ("description".to_owned(), Json::text(description))];
    assert(entries_view(v@) =~= seq![("type"@, JsonV::Str(t@)), ("description"@, JsonV::Str(description@))]);
    object(v)
}

fn note_schema() -> (r: Json)
    ensures
        r@ == note_schema_view(),
{
    let release = vec![
        ("type".to_owned(), Json::text("number")),
        ("minimum".to_owned(), Json::Int(0)),
        ("maximum".to_owned(), Json::Int(127)),
    ];
    assert(entries_view(release@) =~= seq![
        ("type"@, JsonV::Str("number"@)),
        ("minimum"@, JsonV::Int(0i64)),
        ("maximum"@, JsonV::Int(127i64)),
    ]);
    let rel = object(release);
    let props = vec![
        ("pitch".to_owned(), bounded("integer", 0, 127, "MIDI note number; 60 is middle C.")),
        ("start_time".to_owned(), described("number", "Offset in beats from the clip start.")),
        ("duration".to_owned(), described("number", "Length in beats.")),
        ("velocity".to_owned(), bounded("number", 0, 127, "Defaults to 100.")),
        ("mute".to_owned(), described("boolean", "Deactivate the note.")),
        ("probability".to_owned(), bounded("number", 0, 1, "Live 11+ per-note chance.")),
        ("velocity_deviation".to_owned(), described("number", "Live 11+ velocity randomisation range.")),
        ("release_velocity".to_owned(), rel),
    ];
    let required = vec![Json::text("pitch"), Json::text("start_time"), Json::text("duration")];
    let list = Json::Array(required);
    proof {
        lemma_array_view(required);
        assert(values_view(required@) =~= seq![
            JsonV::Str("pitch"@),
            JsonV::Str("start_time"@),
            JsonV::Str("duration"@),
        ]);
    }
    let item = vec![
        ("type".to_owned(), Json::text("object")),
        ("required".to_owned(), list),
        ("properties".to_owned(), object(props)),
    ];
    proof {
        let p = note_schema_view()->Object_0[2].1->Object_0;
        assert(entries_view(props@) =~= p);
        assert(entries_view(item@) =~= note_schema_view()->Object_0);
    }
    object(item)
}

fn point_schema() -> (r: Json)
    ensures
        r@ == point_schema_view(),
{
    let pair = vec![object(typed("number")), object(typed("number"))];
    let list = Json::Array(pair);
    proof {
        lemma_array_view(pair);
    }
    let item = vec![
        ("type".to_owned(), Json::text("array")),
        ("prefixItems".to_owned(), list),
        ("minItems".to_owned(), Json::Int(2)),
        ("maxItems".to_owned(), Json::Int(2)),
    ];
    proof {
        assert(values_view(pair@) =~= seq![typed_view("number"@), typed_view("number"@)]);
        assert(entries_view(item@) =~= point_schema_view()->Object_0);
    }
    object(item)
}

fn step_schema() -> (r: Json)
    ensures
        r@ == step_schema_view(),
{
    let props = vec![
        ("tool".to_owned(), described("string", "Name of any other crableton tool.")),
        ("arguments".to_owned(), described("object", "That tool's arguments.")),
    ];
    let required = vec![Json::text("tool")];
    let list = Json::Array(required);
    proof {
        lemma_array_view(required);
    }
    let item = vec![
        ("type".to_owned(), Json::text("object")),
        ("required".to_owned(), list),
        ("properties".to_owned(), object(props)),
    ];
    proof {
        assert(values_view(required@) =~= seq![JsonV::Str("tool"@)]);
        assert(entries_view(props@) =~= step_schema_view()->Object_0[2].1->Object_0);
        assert(entries_view(item@) =~= step_schema_view()->Object_0);
    }
    object(item)
}

proof fn lemma_schema_keys()
    ensures
        "type"@ != "description"@,
        "type"@ != "enum"@,
        "type"@ != "default"@,
        "description"@ != "enum"@,
        "description"@ != "default"@,
        "enum"@ != "default"@,
        "items"@ != "enum"@,
        "items"@ != "default"@,
        "items"@ != "description"@,
        "items"@ != "type"@,
{
    reveal_strlit("type");
    reveal_strlit("items");
    reveal_strlit("enum");
    reveal_strlit("default");
    reveal_strlit("description");
    assert("type"@.len() != "description"@.len());
    assert("type"@[0] != "enum"@[0]);
    assert("type"@.len() != "default"@.len());
    assert("description"@.len() != "enum"@.len());
    assert("description"@.len() != "default"@.len());
    assert("enum"@.len() != "default"@.len());
    assert("items"@.len() != "enum"@.len());
    assert("items"@.len() != "default"@.len());
    assert("items"@.len() != "description"@.len());
    assert("items"@.len() != "type"@.len());
}

proof fn lemma_no_key(s: Seq<(Seq<char>, JsonV)>, k: Seq<char>)
    requires
        forall|i: int| 0 <= i < s.len() ==> s[i].0 != k,
    ensures
        lookup(s, k) is None,
{
    lemma_lookup_index(s, k);
}

fn array_of(item: Json, description: Option<&str>) -> (r: Vec<(String, Json)>)
    ensures
        lookup(entries_view(r@), "type"@) == Some(JsonV::Str("array"@)),
        lookup(entries_view(r@), "enum"@) is None,
        lookup(entries_view(r@), "default"@) is None,
        entries_view(r@) == array_entries(item@, match description {
            Some(d) => Some(d@),
            None => None,
        }),
        lookup(entries_view(r@), "items"@) == Some(item@),
{
    proof {
        lemma_schema_keys();
    }
    let mut v = typed("array");
    let ghost v0 = v@;
    assert(entries_view(v0).len() == 1);
    assert(v0[0].0@ == "type"@) by {
        assert(entries_view(v0)[0] == (v0[0].0@, view_json(v0[0].1)));
    }
    v.push(("items".to_owned(), item));
    let ghost v1 = v@;
    assert(v1.len() == 2 && v1[0].0@ == "type"@ && v1[1].0@ == "items"@);
    assert(entries_view(v1)[0] == entries_view(v0)[0]);
    assert(entries_view(v1)[1] == ("items"@, item@));
    if let Some(d) = description {
        v.push(("description".to_owned(), Json::text(d)));
        assert(entries_view(v@) =~= entries_view(v1).push(("description"@, JsonV::Str(d@))));
    } else {
        assert(entries_view(v@) =~= entries_view(v1));
    }
    assert(v@.len() >= 2 && v@[0].0@ == "type"@ && v@[1].0@ == "items"@);
    assert(v@.len() == 3 ==> v@[2].0@ == "description"@);
    proof {
        let e = entries_view(v@);
        assert(e[0].0 == "type"@);
        assert(e[1].0 == "items"@);
        assert(e.len() == 3 ==> e[2].0 == "description"@);
        assert forall|i: int| 0 <= i < e.len() implies e[i].0 != "enum"@ && e[i].0 != "default"@ by {}
        lemma_no_key(e, "enum"@);
        lemma_no_key(e, "default"@);
        lemma_lookup_at(e, "type"@, 0);
        lemma_lookup_at(e, "items"@, 1);
        assert(e =~= array_entries(item@, match description {
            Some(d) => Some(d@),
            None => None,
        }));
    }
    v
}

fn scalar(t: &str) -> (r: Vec<(String, Json)>)
    ensures
        entries_view(r@) == seq![("type"@, JsonV::Str(t@))],
        lookup(entries_view(r@), "items"@) is None,
        lookup(entries_view(r@), "type"@) == Some(JsonV::Str(t@)),
        lookup(entries_view(r@), "enum"@) is None,
        lookup(entries_view(r@), "default"@) is None,
{
    proof {
        lemma_schema_keys();
    }
    let v = typed(t);
    proof {
        let e = entries_view(v@);
        assert forall|i: int| 0 <= i < e.len() implies e[i].0 != "enum"@ && e[i].0 != "default"@ by {}
        lemma_no_key(e, "enum"@);
        lemma_no_key(e, "default"@);
        lemma_no_key(e, "items"@);
        lemma_lookup_at(e, "type"@, 0);
    }
    v
}

/// The schema of an argument type before its description, choices and
/// default are added.
fn base_schema(ty: ArgTy) -> (r: Vec<(String, Json)>)
    ensures
        entries_view(r@) == base_entries(ty),
        lookup(entries_view(r@), "items"@) == items_schema(ty),
        lookup(entries_view(r@), "type"@) == schema_type(ty),
        lookup(entries_view(r@), "enum"@) is None,
        lookup(entries_view(r@), "default"@) is None,
{
    match ty {
        ArgTy::Int => scalar("integer"),
        ArgTy::Num => scalar("number"),
        ArgTy::Str => scalar("string"),
        ArgTy::Bool => scalar("boolean"),
        ArgTy::Any => {
            let v: Vec<(String, Json)> = Vec::new();
            assert(entries_view(v@) =~= Seq::empty());
            proof {
                lemma_no_key(entries_view(v@), "enum"@);
                lemma_no_key(entries_view(v@), "default"@);
                lemma_no_key(entries_view(v@), "type"@);
                lemma_no_key(entries_view(v@), "items"@);
            }
            v
        },
        ArgTy::IntList => array_of(object(typed("integer")), None),
        ArgTy::StrList => array_of(object(typed("string")), None),
        ArgTy::Notes => array_of(note_schema(), None),
        ArgTy::Points => array_of(
            point_schema(),
            Some("Breakpoints as [time_in_beats, value] pairs, in ascending time order."),
        ),
        ArgTy::Steps => array_of(step_schema(), None),
    }
}

impl ArgDef {
    /// This argument's JSON Schema.
    pub fn schema(&self) -> (r: Json)
        ensures
            r@ matches JsonV::Object(s) && {
                &&& lookup(s, "type"@) == schema_type(self.ty)
                &&& lookup(s, "description"@) == Some(JsonV::Str(self.description@))
                &&& lookup(s, "enum"@) == (match self.choices {
                    Some(c) => Some(choices_view(c@)),
                    None => None,
                })
                &&& lookup(s, "default"@) == (match self.default {
                    Some(d) => Some(d@),
                    None => None,
                })
                &&& lookup(s, "items"@) == items_schema(self.ty)
            },
            r@ == JsonV::Object(schema_entries(*self)),
    {
        proof {
            lemma_schema_keys();
        }
        let mut v = base_schema(self.ty);
        let ghost s0 = entries_view(v@);
        let d = Json::Str(self.description.clone());
        entry(&mut v, "description", d);
        let ghost s1 = entries_view(v@);
        proof {
            lemma_lookup_put(s0, "description"@, d@, "type"@);
            lemma_lookup_put(s0, "description"@, d@, "description"@);
            lemma_lookup_put(s0, "description"@, d@, "enum"@);
            lemma_lookup_put(s0, "description"@, d@, "default"@);
            lemma_lookup_put(s0, "description"@, d@, "items"@);
        }
        if let Some(choices) = &self.choices {
            let mut list: Vec<Json> = Vec::new();
            let mut i: usize = 0;
            while i < choices.len()
                invariant
                    i <= choices@.len(),
                    list@.len() == i,
                    forall|k: int| 0 <= k < i ==> view_json(#[trigger] list@[k]) == JsonV::Str(choices@[k]@),
                decreases choices.len() - i,
            {
                list.push(Json::text(choices[i]));
                i += 1;
            }
            assert(values_view(list@) =~= Seq::new(choices@.len(), |k: int| JsonV::Str(choices@[k]@)));
            let e = Json::Array(list);
            proof {
                lemma_array_view(list);
                assert(e@ == choices_view(choices@));
                lemma_lookup_put(s1, "enum"@, e@, "type"@);
                lemma_lookup_put(s1, "enum"@, e@, "description"@);
                lemma_lookup_put(s1, "enum"@, e@, "enum"@);
                lemma_lookup_put(s1, "enum"@, e@, "default"@);
                lemma_lookup_put(s1, "enum"@, e@, "items"@);
            }
            entry(&mut v, "enum", e);
        }
        let ghost s2 = entries_view(v@);
        if let Some(default) = &self.default {
            let d = copy_json(default);
            proof {
                lemma_lookup_put(s2, "default"@, d@, "type"@);
                lemma_lookup_put(s2, "default"@, d@, "description"@);
                lemma_lookup_put(s2, "default"@, d@, "enum"@);
                lemma_lookup_put(s2, "default"@, d@, "default"@);
                lemma_lookup_put(s2, "default"@, d@, "items"@);
            }
            entry(&mut v, "default", d);
        }
        object(v)
    }
}

impl ToolDef {
    /// The tool's JSON Schema, as MCP wants it: an object schema with each
    /// argument under `properties`, the required ones listed in order under
    /// `required`, and nothing else allowed.
    pub fn input_schema(&self) -> (r: Vec<(String, Json)>)
        ensures
            entries_view(r@) == seq![
                ("type"@, JsonV::Str("object"@)),
                ("properties"@, JsonV::Object(puts(arg_schemas(self.args@)))),
                ("required"@, JsonV::Array(required_names(self.args@))),
                ("additionalProperties"@, JsonV::Bool(false)),
            ],
            args_distinct(*self) ==> lookup(entries_view(r@), "properties"@) == Some(
                JsonV::Object(arg_schemas(self.args@)),
            ),
            lookup(entries_view(r@), "type"@) == Some(JsonV::Str("object"@)),
            lookup(entries_view(r@), "additionalProperties"@) == Some(JsonV::Bool(false)),
            lookup(entries_view(r@), "required"@) == Some(
                JsonV::Array(required_names(self.args@)),
            ),
            lookup(entries_view(r@), "properties"@) matches Some(JsonV::Object(p)) && forall|i: int|
                0 <= i < self.args@.len() && unique_arg(*self, i) ==> (lookup(p, self.args@[i].name@) matches Some(JsonV::Object(a))
                    && lookup(a, "description"@) == Some(JsonV::Str(self.args@[i].description@))
                    && lookup(a, "type"@) == schema_type(self.args@[i].ty)
                    && lookup(a, "default"@) == (match self.args@[i].default {
                    Some(d) => Some(d@),
                    None => None,
                })
                    && lookup(a, "enum"@) == (match self.args@[i].choices {
                    Some(c) => Some(choices_view(c@)),
                    None => None,
                })
                    && lookup(a, "items"@) == items_schema(self.args@[i].ty)),
    {
        let mut properties: Vec<(String, Json)> = Vec::new();
        let mut required: Vec<Json> = Vec::new();
        let mut i: usize = 0;
        while i < self.args.len()
            invariant
                i <= self.args@.len(),
                values_view(required@) == required_names(self.args@.take(i as int)),
                forall|j: int|
                    0 <= j < i && unique_arg(*self, j) ==> (lookup(entries_view(properties@), self.args@[j].name@) matches Some(JsonV::Object(a))
                        && lookup(a, "description"@) == Some(JsonV::Str(self.args@[j].description@))
                        && lookup(a, "type"@) == schema_type(self.args@[j].ty)
                        && lookup(a, "default"@) == (match self.args@[j].default {
                        Some(d) => Some(d@),
                        None => None,
                    })
                        && lookup(a, "enum"@) == (match self.args@[j].choices {
                        Some(c) => Some(choices_view(c@)),
                        None => None,
                    })
                        && lookup(a, "items"@) == items_schema(self.args@[j].ty)),
                entries_view(properties@) == puts(arg_schemas(self.args@.take(i as int))),
            decreases self.args.len() - i,
        {
            let arg = &self.args[i];
            let s = arg.schema();
            let ghost before = entries_view(properties@);
            proof {
                assert forall|k: Seq<char>| k != arg.name@ implies lookup(put(before, arg.name@, s@), k) == lookup(before, k) by {
                    lemma_lookup_put(before, arg.name@, s@, k);
                }
                lemma_lookup_put(before, arg.name@, s@, arg.name@);
            }
            insert_key(&mut properties, arg.name.to_owned(), s);
            proof {
                assert forall|j: int| 0 <= j < i && unique_arg(*self, j) implies self.args@[j].name@ != arg.name@ by {}
                assert(self.args@.take(i + 1).drop_last() =~= self.args@.take(i as int));
                assert(arg_schemas(self.args@.take(i + 1)).drop_last() =~= arg_schemas(self.args@.take(i as int)));
            }
            if arg.required {
                required.push(Json::text(arg.name));
                assert(values_view(required@) =~= required_names(self.args@.take(i + 1)));
            } else {
                assert(values_view(required@) =~= required_names(self.args@.take(i + 1)));
            }
            i += 1;
        }
        assert(self.args@.take(self.args@.len() as int) =~= self.args@);
        proof {
            reveal_strlit("type");
            reveal_strlit("properties");
            reveal_strlit("required");
            reveal_strlit("additionalProperties");
        }
        let mut schema: Vec<(String, Json)> = Vec::new();
        let ghost e0 = entries_view(schema@);
        let t = Json::text("object");
        entry(&mut schema, "type", t);
        let ghost e1 = entries_view(schema@);
        let p = object(properties);
        entry(&mut schema, "properties", p);
        let ghost e2 = entries_view(schema@);
        let req = Json::Array(required);
        proof {
            lemma_array_view(required);
        }
        entry(&mut schema, "required", req);
        let ghost e3 = entries_view(schema@);
        entry(&mut schema, "additionalProperties", Json::Bool(false));
        proof {
            let e4 = entries_view(schema@);
            lemma_lookup_put(e0, "type"@, t@, "type"@);
            lemma_lookup_put(e1, "properties"@, p@, "type"@);
            lemma_lookup_put(e1, "properties"@, p@, "properties"@);
            lemma_lookup_put(e2, "required"@, req@, "type"@);
            lemma_lookup_put(e2, "required"@, req@, "properties"@);
            lemma_lookup_put(e2, "required"@, req@, "required"@);
            lemma_lookup_put(e3, "additionalProperties"@, JsonV::Bool(false), "type"@);
            lemma_lookup_put(e3, "additionalProperties"@, JsonV::Bool(false), "properties"@);
            lemma_lookup_put(e3, "additionalProperties"@, JsonV::Bool(false), "required"@);
            lemma_lookup_put(e3, "additionalProperties"@, JsonV::Bool(false), "additionalProperties"@);
            assert("type"@.len() != "properties"@.len());
            assert("type"@.len() != "required"@.len());
            assert("type"@.len() != "additionalProperties"@.len());
            assert(lookup(e1, "type"@) == Some(t@));
            assert(lookup(e2, "type"@) == Some(t@));
            assert(lookup(e3, "type"@) == Some(t@));
            assert(lookup(e4, "type"@) == Some(t@));
            assert("properties"@.len() != "required"@.len());
            assert("properties"@.len() != "additionalProperties"@.len());
            assert("required"@.len() != "additionalProperties"@.len());
            lemma_put_new(e0, "type"@, t@);
            lemma_put_new(e1, "properties"@, p@);
            lemma_put_new(e2, "required"@, req@);
            lemma_put_new(e3, "additionalProperties"@, JsonV::Bool(false));
            assert(p@ == JsonV::Object(puts(arg_schemas(self.args@))));
            assert(e4 =~= seq![
                ("type"@, JsonV::Str("object"@)),
                ("properties"@, JsonV::Object(puts(arg_schemas(self.args@)))),
                ("required"@, JsonV::Array(required_names(self.args@))),
                ("additionalProperties"@, JsonV::Bool(false)),
            ]);
            if args_distinct(*self) {
                let a = arg_schemas(self.args@);
                assert forall|i: int, j: int| 0 <= i < j < a.len() implies a[i].0 != a[j].0 by {
                    assert(unique_arg(*self, i));
                }
                assert(keys_distinct(a));
                lemma_puts_distinct(arg_schemas(self.args@));
            }
        }
        schema
    }
}

/// Each argument's name with its schema, in order.
pub open spec fn arg_schemas(args: Seq<ArgDef>) -> Seq<(Seq<char>, JsonV)> {
    Seq::new(args.len(), |i: int| (args[i].name@, JsonV::Object(schema_entries(args[i]))))
}

/// No two arguments of `t` share a name.
pub open spec fn args_distinct(t: ToolDef) -> bool {
    forall|i: int| 0 <= i < t.args@.len() ==> unique_arg(t, i)
}

/// Putting entries whose keys all differ, one after the other, keeps them
/// as they are.
proof fn lemma_puts_distinct(s: Seq<(Seq<char>, JsonV)>)
    requires
        keys_distinct(s),
    ensures
        puts(s) == s,
    decreases s.len(),
{
    if s.len() > 0 {
        let d = s.drop_last();
        assert(keys_distinct(d)) by {
            assert forall|i: int, j: int| 0 <= i < j < d.len() implies d[i].0 != d[j].0 by {
                assert(d[i] == s[i] && d[j] == s[j]);
            }
        }
        lemma_puts_distinct(d);
        assert forall|j: int| 0 <= j < d.len() implies d[j].0 != s.last().0 by {
            assert(d[j] == s[j]);
        }
        lemma_put_new(d, s.last().0, s.last().1);
        assert(d.push(s.last()) =~= s);
    }
}

/// The names of the required arguments, in order, as JSON strings.
pub open spec fn required_names(args: Seq<ArgDef>) -> Seq<JsonV>
    decreases args.len(),
{
    if args.len() == 0 {
        Seq::empty()
    } else if args.last().required {
        required_names(args.drop_last()).push(JsonV::Str(args.last().name@))
    } else {
        required_names(args.drop_last())
    }
}

}

verus! {

/// No two tools share a name.
pub open spec fn names_distinct(tools: Seq<ToolDef>) -> bool {
    forall|i: int, j: int| 0 <= i < j < tools.len() ==> tools[i].name@ != tools[j].name@
}

/// The name of a tool that shares its name with an earlier one, or `None`
/// when every name is distinct.
pub fn first_duplicate(tools: &Vec<ToolDef>) -> (r: Option<&'static str>)
    ensures
        r is None <==> names_distinct(tools@),
        r matches Some(n) ==> exists|i: int, j: int|
            0 <= i < j < tools@.len() && tools@[i].name@ == n@ && tools@[j].name@ == n@,
{
    let mut j: usize = 0;
    while j < tools.len()
        invariant
            j <= tools@.len(),
            names_distinct(tools@.take(j as int)),
        decreases tools.len() - j,
    {
        let mut i: usize = 0;
        while i < j
            invariant
                i <= j < tools@.len(),
                forall|k: int| 0 <= k < i ==> tools@[k].name@ != tools@[j as int].name@,
            decreases j - i,
        {
            if str_eq(tools[i].name, tools[j].name) {
                return Some(tools[j].name);
            }
            i += 1;
        }
        assert(names_distinct(tools@.take(j + 1)));
        j += 1;
    }
    assert(tools@.take(j as int) =~= tools@);
    None
}

/// All tools, indexed by name.
pub struct ToolRegistry {
    tools: Vec<ToolDef>,
}

impl ToolRegistry {
    #[verifier::type_invariant]
    closed spec fn wf(self) -> bool {
        names_distinct(self.tools@)
    }

    /// The tools, in the order they were registered.
    pub closed spec fn tools(&self) -> Seq<ToolDef> {
        self.tools@
    }

    /// Build the registry. Two tools with one name would make lookups
    /// ambiguous, so that is not a valid catalogue.
    pub fn new(tools: Vec<ToolDef>) -> (r: Self)
        requires
            names_distinct(tools@),
        ensures
            r.tools() == tools@,
    {
        ToolRegistry { tools }
    }

    /// The tool called `name`.
    pub fn get(&self, name: &str) -> (r: Option<&ToolDef>)
        ensures
            names_distinct(self.tools()),
            match r {
                Some(t) => exists|i: int|
                    0 <= i < self.tools().len() && self.tools()[i] == *t && t.name@ == name@,
                None => forall|i: int| 0 <= i < self.tools().len() ==> self.tools()[i].name@ != name@,
            },
    {
        proof {
            use_type_invariant(self);
        }
        let mut i: usize = 0;
        while i < self.tools.len()
            invariant
                i <= self.tools@.len(),
                names_distinct(self.tools@),
                forall|k: int| 0 <= k < i ==> self.tools@[k].name@ != name@,
            decreases self.tools.len() - i,
        {
            if str_eq(self.tools[i].name, name) {
                assert(self.tools()[i as int] == self.tools@[i as int]);
                return Some(&self.tools[i]);
            }
            i += 1;
        }
        None
    }

    pub fn all(&self) -> (r: &Vec<ToolDef>)
        ensures
            r@ == self.tools(),
            names_distinct(r@),
    {
        proof {
            use_type_invariant(self);
        }
        &self.tools
    }

    pub fn len(&self) -> (r: usize)
        ensures
            r == self.tools().len(),
    {
        self.tools.len()
    }

    pub fn is_empty(&self) -> (r: bool)
        ensures
            r == (self.tools().len() == 0),
    {
        self.tools.len() == 0
    }
}

}
