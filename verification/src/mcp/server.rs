//! Routing decisions for tool calls: which commands are answered here rather
//! than by Live, how a `batch` becomes the commands the Remote Script runs,
//! and how a reply is shown to the model.
use vstd::prelude::*;

use crate::json::{
    entries_view, field, lemma_array_view, lemma_lookup_put, lemma_object_view, lookup, put,
    values_view, without, write_compact, compact_text, insert_key, remove_key, object_from, push_entry, Json, JsonV,
};
use crate::error::{message_of, Error};
use crate::mcp::registry::{
    given_of, names_distinct, params_built, params_refused, refused_with, result_view, ToolDef,
    ToolRegistry,
};
use crate::text::{append_chars, append_str, chars_of, decimal, has_prefix, owned, starts_with_chars, str_eq, string_from, u64_text};
use crate::tools::analysis::{ARRANGEMENT, HARMONY, MIX};

verus! {

broadcast use vstd::std_specs::vec::group_vec_axioms;

/// Sentinel command of the Live Object Model reference, answered locally.
pub const LOCAL_LOM: &'static str = "__local_lom";

/// Sentinel command of the device reference, answered locally.
pub const LOCAL_DEVICE_REFERENCE: &'static str = "__local_device_reference";

/// `c` is one of the analysis commands.
pub open spec fn analysis_command(c: Seq<char>) -> bool {
    c == HARMONY@ || c == ARRANGEMENT@ || c == MIX@
}

/// Analysis tools fetch their own snapshot rather than forwarding arguments.
pub fn is_analysis(command: &str) -> (r: bool)
    ensures
        r == analysis_command(command@),
{
    str_eq(command, HARMONY) || str_eq(command, ARRANGEMENT) || str_eq(command, MIX)
}

/// `c` never reaches Live.
pub open spec fn local_command(c: Seq<char>) -> bool {
    has_prefix(c, "__local_"@)
}

/// Commands that never reach Live, and so cannot be part of a batch.
pub fn is_local(command: &str) -> (r: bool)
    ensures
        r == local_command(command@),
{
    let c = chars_of(command);
    let p = chars_of("__local_");
    starts_with_chars(&c, &p)
}

/// The registered tool called `name`, if there is one.
pub open spec fn tool_for(tools: Seq<ToolDef>, name: Seq<char>) -> Option<ToolDef> {
    if exists|i: int| 0 <= i < tools.len() && tools[i].name@ == name {
        Some(tools[choose|i: int| 0 <= i < tools.len() && tools[i].name@ == name])
    } else {
        None
    }
}

/// The steps of a batch's parameters, when they are an array.
pub open spec fn steps_of(params: JsonV) -> Option<Seq<JsonV>> {
    match field(params, "steps"@) {
        Some(JsonV::Array(a)) => Some(a),
        _ => None,
    }
}

/// The tool a batch step may run: named by its `tool` field, not itself a
/// batch, registered, and answered by Live.
pub open spec fn step_tool(tools: Seq<ToolDef>, step: JsonV) -> Option<ToolDef> {
    match field(step, "tool"@) {
        Some(JsonV::Str(name)) => if name == "batch"@ {
            None
        } else {
            match tool_for(tools, name) {
                Some(t) => if local_command(t.command@) || analysis_command(t.command@) {
                    None
                } else {
                    Some(t)
                },
                None => None,
            }
        },
        _ => None,
    }
}

/// The arguments a batch step hands its tool: its `arguments` object, or
/// none at all when that is absent or `null`; `None` for anything else.
pub open spec fn step_args(step: JsonV) -> Option<Seq<(Seq<char>, JsonV)>> {
    match field(step, "arguments"@) {
        None => Some(Seq::empty()),
        Some(JsonV::Null) => Some(Seq::empty()),
        Some(JsonV::Object(m)) => Some(m),
        Some(_) => None,
    }
}

/// `cmd` is the Remote Script command `{"type": .., "params": ..}` that the
/// batch step `step` becomes.
pub open spec fn step_command<P: Fn(&str) -> Option<Json>>(
    tools: Seq<ToolDef>,
    step: JsonV,
    cmd: JsonV,
    read_json: P,
) -> bool {
    match (step_tool(tools, step), step_args(step)) {
        (Some(t), Some(given)) => cmd matches JsonV::Object(e) && {
            &&& e.len() == 2
            &&& e[0] == ("type"@, JsonV::Str(t.command@))
            &&& e[1].0 == "params"@
            &&& params_built(t, given, e[1].1, read_json)
        },
        _ => false,
    }
}

/// The batch step `step` is refused.
pub open spec fn step_refused<P: Fn(&str) -> Option<Json>>(
    tools: Seq<ToolDef>,
    step: JsonV,
    read_json: P,
) -> bool {
    match (step_tool(tools, step), step_args(step)) {
        (Some(t), Some(given)) => params_refused(t, given, read_json),
        _ => true,
    }
}

/// The commands a batch's parameters hold.
pub open spec fn commands_in(s: Seq<(Seq<char>, JsonV)>) -> Seq<JsonV> {
    match lookup(s, "commands"@) {
        Some(JsonV::Array(c)) => c,
        _ => Seq::empty(),
    }
}

/// `after` is the batch `before` with its steps replaced by the commands
/// they become, one for one and in order.
pub open spec fn batch_expanded<P: Fn(&str) -> Option<Json>>(
    tools: Seq<ToolDef>,
    before: JsonV,
    after: JsonV,
    read_json: P,
) -> bool {
    match (before, after, steps_of(before)) {
        (JsonV::Object(s), JsonV::Object(t), Some(steps)) => {
            let cmds = commands_in(t);
            &&& steps.len() > 0
            &&& cmds.len() == steps.len()
            &&& forall|i: int| 0 <= i < steps.len() ==> step_command(tools, steps[i], #[trigger] cmds[i], read_json)
            &&& t == put(without(s, "steps"@), "commands"@, JsonV::Array(cmds))
        },
        _ => false,
    }
}

/// The batch `before` is refused: no steps array, no steps, or a refused
/// step.
pub open spec fn batch_refused<P: Fn(&str) -> Option<Json>>(
    tools: Seq<ToolDef>,
    before: JsonV,
    read_json: P,
) -> bool {
    match steps_of(before) {
        None => true,
        Some(steps) => steps.len() == 0 || exists|i: int|
            0 <= i < steps.len() && step_refused(tools, #[trigger] steps[i], read_json),
    }
}

/// The step `step` passes: it becomes some command.
pub open spec fn step_ok<P: Fn(&str) -> Option<Json>>(tools: Seq<ToolDef>, step: JsonV, read_json: P) -> bool {
    exists|cmd: JsonV| #[trigger] step_command(tools, step, cmd, read_json)
}

/// The batch step `step` is refused with the message `m`, which follows the
/// step's number.
pub open spec fn step_refused_with<P: Fn(&str) -> Option<Json>>(
    tools: Seq<ToolDef>,
    step: JsonV,
    m: Seq<char>,
    read_json: P,
) -> bool {
    match field(step, "tool"@) {
        Some(JsonV::Str(name)) => if name == "batch"@ {
            m == ": `batch` cannot contain another batch"@
        } else {
            match tool_for(tools, name) {
                None => m == ": unknown tool `"@ + name + "`"@,
                Some(t) => if local_command(t.command@) || analysis_command(t.command@) {
                    m == ": `"@ + name
                        + "` is answered by crableton rather than Live, so it cannot run inside a batch"@
                } else {
                    match step_args(step) {
                        None => m == ": `arguments` must be an object, got "@ + compact_text(
                            field(step, "arguments"@)->0,
                        ),
                        Some(given) => exists|e: Seq<char>|
                            #[trigger] refused_with(t, given, e, read_json) && m == " (`"@ + name + "`): "@ + e,
                    }
                }
            }
        },
        _ => m == ": missing `tool`"@,
    }
}

/// The batch `before` is refused with the message `m`: no steps array, no
/// steps, or the first step that does not pass, by its number.
pub open spec fn batch_refused_with<P: Fn(&str) -> Option<Json>>(
    tools: Seq<ToolDef>,
    before: JsonV,
    m: Seq<char>,
    read_json: P,
) -> bool {
    match steps_of(before) {
        None => m == "`steps` must be an array"@,
        Some(steps) => if steps.len() == 0 {
            m == "`steps` must contain at least one step"@
        } else {
            exists|i: int, tail: Seq<char>|
                0 <= i < steps.len() && (forall|j: int| 0 <= j < i ==> step_ok(tools, #[trigger] steps[j], read_json))
                    && #[trigger] step_refused_with(tools, steps[i], tail, read_json) && m == "step "@ + decimal(
                    i as nat,
                ) + tail
        },
    }
}

proof fn lemma_concat_one(a: &str)
    ensures
        concat_strs(seq![a]) == a@,
{
    reveal_with_fuel(concat_strs, 2);
    assert(seq![a].drop_last() =~= Seq::<&str>::empty());
    assert(Seq::<char>::empty() + a@ =~= a@);
}

proof fn lemma_concat_three(a: &str, b: &str, c: &str)
    ensures
        concat_strs(seq![a, b, c]) == a@ + b@ + c@,
{
    assert(seq![a, b, c].drop_last() =~= seq![a, b]);
    assert(seq![a, b].drop_last() =~= seq![a]);
    lemma_concat_one(a);
    assert(concat_strs(seq![a, b]) == a@ + b@);
}

/// "step `i`" followed by the characters of `parts`.
fn step_refusal(i: usize, parts: &Vec<&str>) -> (r: String)
    ensures
        r@ == "step "@ + decimal(i as nat) + concat_strs(parts@),
{
    step_message(i, &joined(parts))
}

/// "step `i`" followed by `tail`.
fn step_message(i: usize, tail: &Vec<char>) -> (r: String)
    ensures
        r@ == "step "@ + decimal(i as nat) + tail@,
{
    let mut v: Vec<char> = Vec::new();
    append_str(&mut v, "step ");
    let n = u64_text(i as u64);
    append_chars(&mut v, &n);
    append_chars(&mut v, tail);
    string_from(&v)
}

/// The characters of `parts`, one after the other.
pub open spec fn concat_strs(parts: Seq<&str>) -> Seq<char>
    decreases parts.len(),
{
    if parts.len() == 0 {
        Seq::empty()
    } else {
        concat_strs(parts.drop_last()) + parts.last()@
    }
}

/// The characters of `parts`, one after the other.
fn joined(parts: &Vec<&str>) -> (r: Vec<char>)
    ensures
        r@ == concat_strs(parts@),
{
    let mut v: Vec<char> = Vec::new();
    let mut i: usize = 0;
    assert(parts@.take(0) =~= Seq::<&str>::empty());
    while i < parts.len()
        invariant
            i <= parts@.len(),
            v@ == concat_strs(parts@.take(i as int)),
        decreases parts.len() - i,
    {
        assert(parts@.take(i + 1).drop_last() =~= parts@.take(i as int));
        append_str(&mut v, parts[i]);
        i += 1;
    }
    assert(parts@.take(parts@.len() as int) =~= parts@);
    v
}

/// Translate `{tool, arguments}` steps into the `{type, params}` pairs the
/// Remote Script executes, so a batch validates against the same schemas as
/// individual calls instead of being an unchecked passthrough to Live.
///
/// `read_json` reads JSON text, for lists handed over as the text of a list.
pub fn expand_batch<P: Fn(&str) -> Option<Json>>(
    tools: &ToolRegistry,
    params: &mut Json,
    read_json: &P,
) -> (r: Result<(), String>)
    requires
        forall|t: &str| read_json.requires((t,)),
    ensures
        match r {
            Ok(()) => batch_expanded(tools.tools(), old(params)@, final(params)@, *read_json),
            Err(m) => *final(params) == *old(params) && batch_refused_with(
                tools.tools(),
                old(params)@,
                m@,
                *read_json,
            ) && batch_refused(
                tools.tools(),
                old(params)@,
                *read_json,
            ),
        },
{
    let ghost before = params@;
    let mut commands: Vec<Json> = Vec::new();
    let ghost steps_v: Seq<JsonV>;
    {
        let found = params.get("steps");
        let steps: &Vec<Json> = match found {
            Some(j) => match j {
                Json::Array(v) => v,
                _ => {
                    return Err(owned("`steps` must be an array"));
                },
            },
            None => {
                return Err(owned("`steps` must be an array"));
            },
        };
        proof {
            lemma_array_view(*steps);
            steps_v = values_view(steps@);
            assert(steps_of(before) == Some(steps_v));
        }
        if steps.len() == 0 {
            return Err(owned("`steps` must contain at least one step"));
        }
        let mut i: usize = 0;
        while i < steps.len()
            invariant
                i <= steps@.len(),
                steps@.len() > 0,
                steps_v == values_view(steps@),
                steps_of(before) == Some(steps_v),
                before == params@,
                forall|t: &str| read_json.requires((t,)),
                commands@.len() == i,
                forall|k: int|
                    0 <= k < i ==> step_command(tools.tools(), steps_v[k], #[trigger] commands@[k]@, *read_json),
                forall|k: int| 0 <= k < i ==> step_ok(tools.tools(), #[trigger] steps_v[k], *read_json),
            decreases steps.len() - i,
        {
            let step = &steps[i];
            assert(steps_v[i as int] == step@);
            let name: &String = match step.get("tool") {
                Some(t) => match t {
                    Json::Str(n) => n,
                    _ => {
                        assert(step_refused(tools.tools(), steps_v[i as int], *read_json));
                        let parts = vec![": missing `tool`"];
                        proof {
                            assert(parts@ =~= seq![": missing `tool`"]);
                            lemma_concat_one(": missing `tool`");
                            assert(step_refused_with(tools.tools(), steps_v[i as int], concat_strs(parts@), *read_json));
                        }
                        return Err(step_refusal(i, &parts));
                    },
                },
                None => {
                    assert(step_refused(tools.tools(), steps_v[i as int], *read_json));
                    let parts = vec![": missing `tool`"];
                    proof {
                        assert(parts@ =~= seq![": missing `tool`"]);
                        lemma_concat_one(": missing `tool`");
                        assert(step_refused_with(tools.tools(), steps_v[i as int], concat_strs(parts@), *read_json));
                    }
                    return Err(step_refusal(i, &parts));
                },
            };
            if str_eq(name.as_str(), "batch") {
                assert(step_refused(tools.tools(), steps_v[i as int], *read_json));
                let parts = vec![": `batch` cannot contain another batch"];
                proof {
                    assert(parts@ =~= seq![": `batch` cannot contain another batch"]);
                    lemma_concat_one(": `batch` cannot contain another batch");
                    assert(step_refused_with(tools.tools(), steps_v[i as int], concat_strs(parts@), *read_json));
                }
                return Err(step_refusal(i, &parts));
            }
            let tool = match tools.get(name.as_str()) {
                Some(t) => t,
                None => {
                    assert(step_refused(tools.tools(), steps_v[i as int], *read_json));
                    let n = name.as_str();
                    let parts = vec![": unknown tool `", n, "`"];
                    proof {
                        assert(parts@ =~= seq![": unknown tool `", n, "`"]);
                        lemma_concat_three(": unknown tool `", n, "`");
                        assert(step_refused_with(tools.tools(), steps_v[i as int], concat_strs(parts@), *read_json));
                    }
                    return Err(step_refusal(i, &parts));
                },
            };
            proof {
                let ts = tools.tools();
                let k = choose|k: int| 0 <= k < ts.len() && ts[k] == *tool && tool.name@ == name@;
                let c = choose|c: int| 0 <= c < ts.len() && ts[c].name@ == name@;
                assert(names_distinct(ts));
                assert(c == k);
                assert(tool_for(ts, name@) == Some(*tool));
            }
            if is_local(tool.command) || is_analysis(tool.command) {
                assert(step_refused(tools.tools(), steps_v[i as int], *read_json));
                let n = name.as_str();
                let parts = vec![
                    ": `",
                    n,
                    "` is answered by crableton rather than Live, so it cannot run inside a batch",
                ];
                proof {
                    assert(parts@ =~= seq![
                        ": `",
                        n,
                        "` is answered by crableton rather than Live, so it cannot run inside a batch",
                    ]);
                    lemma_concat_three(
                        ": `",
                        n,
                        "` is answered by crableton rather than Live, so it cannot run inside a batch",
                    );
                    assert(step_refused_with(tools.tools(), steps_v[i as int], concat_strs(parts@), *read_json));
                }
                return Err(step_refusal(i, &parts));
            }
            let args: Option<&Vec<(String, Json)>> = match step.get("arguments") {
                Some(a) => match a {
                    Json::Object(m) => {
                        proof {
                            lemma_object_view(*m);
                        }
                        Some(m)
                    },
                    Json::Null => None,
                    _ => {
                        assert(step_refused(tools.tools(), steps_v[i as int], *read_json));
                        let mut tail: Vec<char> = Vec::new();
                        append_str(&mut tail, ": `arguments` must be an object, got ");
                        write_compact(&mut tail, a);
                        assert(step_refused_with(tools.tools(), steps_v[i as int], tail@, *read_json));
                        return Err(step_message(i, &tail));
                    },
                },
                None => None,
            };
            proof {
                let g = match args {
                    Some(m) => entries_view(m@),
                    None => Seq::empty(),
                };
                assert(step_args(steps_v[i as int]) == Some(g));
                assert(step_tool(tools.tools(), steps_v[i as int]) == Some(*tool));
            }
            let p = match tool.build_params(args, read_json) {
                Ok(p) => p,
                Err(e) => {
                    assert(step_refused(tools.tools(), steps_v[i as int], *read_json));
                    let n = name.as_str();
                    let es = e.as_str();
                    let parts = vec![" (`", n, "`): ", es];
                    proof {
                        let four = seq![" (`", n, "`): ", es];
                        assert(parts@ =~= four);
                        assert(four.drop_last() =~= seq![" (`", n, "`): "]);
                        lemma_concat_three(" (`", n, "`): ");
                        assert(refused_with(*tool, step_args(steps_v[i as int])->0, e@, *read_json));
                        assert(step_refused_with(tools.tools(), steps_v[i as int], concat_strs(parts@), *read_json));
                    }
                    return Err(step_refusal(i, &parts));
                },
            };
            let mut entries: Vec<(String, Json)> = Vec::new();
            entries.push((owned("type"), Json::text(tool.command)));
            entries.push((owned("params"), p));
            let cmd = Json::Object(entries);
            proof {
                lemma_object_view(entries);
                assert(entries_view(entries@)[0] == ("type"@, JsonV::Str(tool.command@)));
                assert(step_command(tools.tools(), steps_v[i as int], cmd@, *read_json));
            }
            commands.push(cmd);
            proof {
                assert(step_ok(tools.tools(), steps_v[i as int], *read_json));
                assert forall|k: int| 0 <= k < i + 1 implies step_command(tools.tools(), steps_v[k], #[trigger] commands@[k]@, *read_json) by {}
            }
            i += 1;
        }
        assert(commands@.len() == steps_v.len());
    }
    let ghost cmds = values_view(commands@);
    assert forall|k: int| 0 <= k < cmds.len() implies step_command(tools.tools(), steps_v[k], #[trigger] cmds[k], *read_json) by {
        assert(cmds[k] == commands@[k]@);
    }
    assert(cmds.len() == steps_v.len() && steps_v.len() > 0);
    let list = Json::Array(commands);
    proof {
        lemma_array_view(commands);
    }
    match params {
        Json::Object(entries) => {
            proof {
                lemma_object_view(*entries);
            }
            let ghost s = entries_view(entries@);
            remove_key(entries, "steps");
            insert_key(entries, owned("commands"), list);
            proof {
                lemma_lookup_put(without(s, "steps"@), "commands"@, JsonV::Array(cmds), "commands"@);
                lemma_object_view(*entries);
            }
        },
        _ => {},
    }
    Ok(())
}

/// What a reply reads as when it needs no JSON rendering: `OK` for
/// nothing or an empty object, a string as itself. `None` when the reply is
/// to be shown as JSON.
pub fn plain_reply(result: &Json) -> (r: Option<String>)
    ensures
        match result@ {
            JsonV::Null => r matches Some(t) && t@ == "OK"@,
            JsonV::Str(s) => r matches Some(t) && t@ == s,
            JsonV::Object(s) => if s.len() == 0 {
                r matches Some(t) && t@ == "OK"@
            } else {
                r is None
            },
            _ => r is None,
        },
{
    match result {
        Json::Null => Some(owned("OK")),
        Json::Str(s) => Some(s.clone()),
        Json::Object(e) => {
            proof {
                lemma_object_view(*e);
            }
            if e.len() == 0 {
                Some(owned("OK"))
            } else {
                None
            }
        },
        _ => None,
    }
}

/// Where a tool call is answered.
pub enum Route {
    /// From the bundled Live Object Model reference.
    ObjectModel,
    /// From the bundled device reference.
    DeviceReference,
    /// By an analysis of a fresh session snapshot.
    Analysis,
    /// By Live, after the batch's steps are expanded into commands.
    Batch,
    /// By Live, as the tool's command.
    Live,
}

/// Where the call of `tool` is answered.
pub open spec fn route(tool: ToolDef) -> Route {
    if tool.command@ == LOCAL_LOM@ {
        Route::ObjectModel
    } else if tool.command@ == LOCAL_DEVICE_REFERENCE@ {
        Route::DeviceReference
    } else if analysis_command(tool.command@) {
        Route::Analysis
    } else if tool.name@ == "batch"@ {
        Route::Batch
    } else {
        Route::Live
    }
}

/// Where the call of `tool` is answered. The bundled references never touch
/// the socket, so they work with Live closed.
pub fn route_of(tool: &ToolDef) -> (r: Route)
    ensures
        r == route(*tool),
        tool.command@ == LOCAL_LOM@ ==> r is ObjectModel,
        tool.command@ != LOCAL_LOM@ && tool.command@ == LOCAL_DEVICE_REFERENCE@ ==> r is DeviceReference,
        tool.command@ != LOCAL_LOM@ && tool.command@ != LOCAL_DEVICE_REFERENCE@ && analysis_command(tool.command@)
            ==> r is Analysis,
        tool.command@ != LOCAL_LOM@ && tool.command@ != LOCAL_DEVICE_REFERENCE@ && !analysis_command(tool.command@)
            ==> (if tool.name@ == "batch"@ {
            r is Batch
        } else {
            r is Live
        }),
{
    if str_eq(tool.command, LOCAL_LOM) {
        Route::ObjectModel
    } else if str_eq(tool.command, LOCAL_DEVICE_REFERENCE) {
        Route::DeviceReference
    } else if is_analysis(tool.command) {
        Route::Analysis
    } else if str_eq(tool.name, "batch") {
        Route::Batch
    } else {
        Route::Live
    }
}

/// `value.as_u64()`: a non-negative integer.
pub open spec fn as_count(v: Option<JsonV>) -> Option<u64> {
    match v {
        Some(JsonV::Int(i)) => if i >= 0 {
            Some(i as u64)
        } else {
            None
        },
        Some(JsonV::UInt(u)) => Some(u),
        _ => None,
    }
}

/// `params[key]` read as a non-negative integer, if it is one.
pub fn count_param(params: &Json, key: &str) -> (r: Option<u64>)
    ensures
        r == as_count(field(params@, key@)),
{
    match params.get(key) {
        Some(v) => match v {
            Json::Int(i) => if *i >= 0 {
                Some(*i as u64)
            } else {
                None
            },
            Json::UInt(u) => Some(*u),
            _ => None,
        },
        None => None,
    }
}

/// `params[key]` read as a non-negative integer, `default` when it is not
/// one, kept within `lo..=hi`.
pub fn bounded_param(params: &Json, key: &str, default: u64, lo: u64, hi: u64) -> (r: u64)
    requires
        lo <= hi,
    ensures
        ({
            let n = match as_count(field(params@, key@)) {
                Some(n) => n,
                None => default,
            };
            r == if n < lo {
                lo
            } else if n > hi {
                hi
            } else {
                n
            }
        }),
{
    let n = match count_param(params, key) {
        Some(n) => n,
        None => default,
    };
    if n < lo {
        lo
    } else if n > hi {
        hi
    } else {
        n
    }
}

/// Tool-level failures are reported as results, not protocol errors: the
/// model should see "slot 3 is occupied" and adapt, not have the call vanish.
/// This is the text of such a result.
pub fn tool_error_text(e: &Error) -> (r: String)
    ensures
        r@ == "Error: "@ + message_of(*e),
{
    let mut v: Vec<char> = Vec::new();
    append_str(&mut v, "Error: ");
    let m = e.message();
    append_str(&mut v, m.as_str());
    string_from(&v)
}

/// The first step of a tool call, before anything reaches Live.
pub enum CallStep {
    /// Answer with this error.
    Refuse(Error),
    /// Answer from the bundled object-model reference, with these parameters.
    ObjectModel(Json),
    /// Answer from the bundled device reference, with these parameters.
    DeviceReference(Json),
    /// Answer with an analysis of a fresh session snapshot.
    Analyse(Json),
    /// Ask whether the Remote Script supports the tool's command; these are
    /// the parameters to send when it does.
    AskSupport(Json),
}

/// What a call of `tool` with the arguments `args` does first: arguments
/// that do not build are refused before anything else; then the bundled
/// references and the analyses answer here; a batch is expanded, and
/// refused when a step is; what remains goes to Live once its support is
/// known.
pub fn plan_call<P: Fn(&str) -> Option<Json>>(
    tools: &ToolRegistry,
    tool: &ToolDef,
    args: Option<&Vec<(String, Json)>>,
    read_json: &P,
) -> (r: CallStep)
    requires
        forall|t: &str| read_json.requires((t,)),
    ensures
        match r {
            CallStep::Refuse(Error::BadArguments { tool: n, reason }) => n@ == tool.name@ && (refused_with(
                *tool,
                given_of(args),
                reason@,
                *read_json,
            ) || (route(*tool) is Batch && exists|q: JsonV|
                #[trigger] params_built(*tool, given_of(args), q, *read_json) && batch_refused_with(
                    tools.tools(),
                    q,
                    reason@,
                    *read_json,
                ))),
            CallStep::Refuse(_) => false,
            CallStep::ObjectModel(p) => route(*tool) is ObjectModel && params_built(
                *tool,
                given_of(args),
                p@,
                *read_json,
            ),
            CallStep::DeviceReference(p) => route(*tool) is DeviceReference && params_built(
                *tool,
                given_of(args),
                p@,
                *read_json,
            ),
            CallStep::Analyse(p) => route(*tool) is Analysis && params_built(*tool, given_of(args), p@, *read_json),
            CallStep::AskSupport(p) => (route(*tool) is Live && params_built(*tool, given_of(args), p@, *read_json))
                || (route(*tool) is Batch && exists|q: JsonV|
                #[trigger] params_built(*tool, given_of(args), q, *read_json) && batch_expanded(
                    tools.tools(),
                    q,
                    p@,
                    *read_json,
                )),
        },
{
    let mut params = match tool.build_params(args, read_json) {
        Ok(p) => p,
        Err(reason) => {
            return CallStep::Refuse(Error::BadArguments { tool: owned(tool.name), reason });
        },
    };
    match route_of(tool) {
        Route::ObjectModel => CallStep::ObjectModel(params),
        Route::DeviceReference => CallStep::DeviceReference(params),
        Route::Analysis => CallStep::Analyse(params),
        Route::Batch => {
            match expand_batch(tools, &mut params, read_json) {
                Ok(()) => CallStep::AskSupport(params),
                Err(reason) => CallStep::Refuse(Error::BadArguments { tool: owned(tool.name), reason }),
            }
        },
        Route::Live => CallStep::AskSupport(params),
    }
}

/// The message for a command the Remote Script does not advertise.
pub open spec fn unsupported_message(command: Seq<char>) -> Seq<char> {
    "the Remote Script running in Live does not support `"@ + command
        + "`. Run `crableton install` and restart Ableton Live to update it."@
}

/// The second step of a call that goes to Live: send `params` when the
/// Remote Script supports the tool's command, and refuse it otherwise.
pub fn after_support(tool: &ToolDef, params: Json, supported: bool) -> (r: Result<Json, Error>)
    ensures
        supported ==> r == Ok::<Json, Error>(params),
        !supported ==> (r matches Err(Error::Live(m)) && m@ == unsupported_message(tool.command@)),
{
    if supported {
        Ok(params)
    } else {
        Err(unsupported(tool.command))
    }
}

/// The error for a command the Remote Script running in Live does not
/// advertise: an actionable message rather than Live's bare "Unknown
/// command" when the installed script predates the tool.
pub fn unsupported(command: &str) -> (r: Error)
    ensures
        r matches Error::Live(m) && m@ == "the Remote Script running in Live does not support `"@
            + command@ + "`. Run `crableton install` and restart Ableton Live to update it."@,
{
    let mut v: Vec<char> = Vec::new();
    append_str(&mut v, "the Remote Script running in Live does not support `");
    append_str(&mut v, command);
    append_str(&mut v, "`. Run `crableton install` and restart Ableton Live to update it.");
    Error::Live(string_from(&v))
}

/// What an analysis asks Live for: the session snapshot, with notes unless
/// only the arrangement is analysed, and never the device parameters.
pub fn snapshot_request(command: &str) -> (r: Json)
    ensures
        r@ == JsonV::Object(
            seq![
                ("include_notes"@, JsonV::Bool(command@ != ARRANGEMENT@)),
                ("include_params"@, JsonV::Bool(false)),
            ],
        ),
{
    let mut e: Vec<(String, Json)> = Vec::new();
    push_entry(&mut e, "include_notes", Json::Bool(!str_eq(command, ARRANGEMENT)));
    push_entry(&mut e, "include_params", Json::Bool(false));
    assert(entries_view(e@) =~= seq![
        ("include_notes"@, JsonV::Bool(command@ != ARRANGEMENT@)),
        ("include_params"@, JsonV::Bool(false)),
    ]);
    object_from(e)
}

/// A JSON reply longer than this many bytes is shown compact rather than
/// indented: a full session snapshot gains nothing from indentation.
pub const COMPACT_ABOVE: usize = 16384;

/// Whether a reply whose compact form is `compact_len` bytes long is shown
/// compact.
pub fn shows_compact(compact_len: usize) -> (r: bool)
    ensures
        r == (compact_len > COMPACT_ABOVE),
{
    compact_len > COMPACT_ABOVE
}

} // verus!
