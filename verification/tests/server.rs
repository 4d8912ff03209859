use crableton::error::Error;
use crableton::json::{Decimal, Json};
use crableton::mcp::registry::ToolRegistry;
use crableton::mcp::server::{
    after_support, bounded_param, count_param, expand_batch, is_analysis, is_local, plain_reply,
    plan_call, route_of, shows_compact, snapshot_request, tool_error_text, unsupported, CallStep,
    Route,
};
use crableton::tools;
use serde_json::Value;

fn to_json(v: &Value) -> Json {
    match v {
        Value::Null => Json::Null,
        Value::Bool(b) => Json::Bool(*b),
        Value::Number(n) => {
            if let Some(i) = n.as_i64() {
                Json::Int(i)
            } else if let Some(u) = n.as_u64() {
                Json::UInt(u)
            } else {
                let f = n.as_f64().unwrap_or(0.0);
                let integral = if f.fract() == 0.0 { Some(f as i64) } else { None };
                Json::Decimal(Decimal { text: n.to_string(), integral })
            }
        }
        Value::String(s) => Json::Str(s.clone()),
        Value::Array(a) => Json::Array(a.iter().map(to_json).collect()),
        Value::Object(m) => Json::Object(m.iter().map(|(k, v)| (k.clone(), to_json(v))).collect()),
    }
}

fn to_value(j: &Json) -> Value {
    match j {
        Json::Null => Value::Null,
        Json::Bool(b) => Value::Bool(*b),
        Json::Int(i) => Value::from(*i),
        Json::UInt(u) => Value::from(*u),
        Json::Decimal(d) => d
            .text
            .parse::<f64>()
            .ok()
            .and_then(serde_json::Number::from_f64)
            .map(Value::Number)
            .unwrap_or(Value::Null),
        Json::Str(s) => Value::String(s.clone()),
        Json::Array(a) => Value::Array(a.iter().map(to_value).collect()),
        Json::Object(e) => {
            let mut m = serde_json::Map::new();
            for (k, v) in e {
                m.insert(k.clone(), to_value(v));
            }
            Value::Object(m)
        }
    }
}

fn parse(text: &str) -> Value {
    serde_json::from_str(text).unwrap()
}

fn read_json(text: &str) -> Option<Json> {
    serde_json::from_str::<Value>(text).ok().map(|v| to_json(&v))
}

fn entries(text: &str) -> Vec<(String, Json)> {
    match to_json(&parse(text)) {
        Json::Object(e) => e,
        _ => panic!("not an object: {text}"),
    }
}

fn registry() -> ToolRegistry {
    ToolRegistry::new(tools::all())
}

#[test]
fn batch_expands_steps_into_remote_commands() {
    let registry = registry();
    let mut params = to_json(&parse(
        r#"{
            "steps": [
                { "tool": "set_tempo", "arguments": { "tempo": 128 } },
                { "tool": "create_midi_track", "arguments": {} }
            ]
        }"#,
    ));
    expand_batch(&registry, &mut params, &read_json).unwrap();
    let params = to_value(&params);

    let commands = params["commands"].as_array().unwrap();
    assert_eq!(commands.len(), 2);
    assert_eq!(commands[0]["type"], "set_tempo");
    assert_eq!(commands[0]["params"]["tempo"], 128.0);
    assert_eq!(commands[1]["type"], "create_midi_track");
    assert!(params.get("steps").is_none());
}

#[test]
fn batch_rejects_bad_steps() {
    let registry = registry();
    for bad in [
        r#"{ "steps": [] }"#,
        r#"{ "steps": [{ "tool": "no_such_tool" }] }"#,
        r#"{ "steps": [{ "tool": "batch", "arguments": { "steps": [] } }] }"#,
        r#"{ "steps": [{ "tool": "set_tempo", "arguments": {} }] }"#,
    ] {
        let mut params = to_json(&parse(bad));
        assert!(
            expand_batch(&registry, &mut params, &read_json).is_err(),
            "should have rejected {bad}"
        );
        assert_eq!(to_value(&params), parse(bad), "a refused batch is left as it was");
    }
}

#[test]
fn batch_refuses_tools_answered_locally_and_odd_arguments() {
    let registry = registry();
    let mut local = to_json(&parse(r#"{ "steps": [{ "tool": "lom_reference" }] }"#));
    let err = expand_batch(&registry, &mut local, &read_json).unwrap_err();
    assert!(err.starts_with("step 0: `lom_reference` is answered by crableton"), "{err}");
    let mut odd = to_json(&parse(
        r#"{ "steps": [{ "tool": "create_midi_track" }, { "tool": "set_tempo", "arguments": 5 }] }"#,
    ));
    let err = expand_batch(&registry, &mut odd, &read_json).unwrap_err();
    assert_eq!(err, "step 1: `arguments` must be an object, got 5");
    let mut missing = to_json(&parse(r#"{ "steps": [{ "arguments": {} }] }"#));
    assert_eq!(expand_batch(&registry, &mut missing, &read_json).unwrap_err(), "step 0: missing `tool`");
    let mut none = to_json(&parse(r#"{ "other": 1 }"#));
    assert_eq!(expand_batch(&registry, &mut none, &read_json).unwrap_err(), "`steps` must be an array");
}

#[test]
fn every_tool_has_a_usable_schema() {
    let registry = registry();
    for tool in registry.all() {
        assert!(!tool.description.is_empty(), "{} has no description", tool.name);
        let schema = to_value(&Json::Object(tool.input_schema()));
        assert_eq!(schema["type"], "object", "{}", tool.name);
        for arg in &tool.args {
            assert!(!arg.description.is_empty(), "{}.{} has no description", tool.name, arg.name);
        }
    }
}

#[test]
fn local_and_analysis_commands_are_recognised() {
    assert!(is_local("__local_lom"));
    assert!(is_local("__local_analyze_mix"));
    assert!(!is_local("set_tempo"));
    assert!(is_analysis("__local_analyze_harmony"));
    assert!(is_analysis("__local_analyze_arrangement"));
    assert!(!is_analysis("__local_lom"));
}

#[test]
fn calls_are_routed_by_command() {
    let registry = registry();
    let route = |name: &str| route_of(registry.get(name).unwrap());
    assert!(matches!(route("lom_reference"), Route::ObjectModel));
    assert!(matches!(route("device_reference"), Route::DeviceReference));
    assert!(matches!(route("analyze_harmony"), Route::Analysis));
    assert!(matches!(route("batch"), Route::Batch));
    assert!(matches!(route("set_tempo"), Route::Live));
}

#[test]
fn replies_render_plainly_when_they_can() {
    assert_eq!(plain_reply(&Json::Null).as_deref(), Some("OK"));
    assert_eq!(plain_reply(&Json::text("done")).as_deref(), Some("done"));
    assert_eq!(plain_reply(&to_json(&parse("{}"))).as_deref(), Some("OK"));
    assert!(plain_reply(&to_json(&parse(r#"{"a": 1}"#))).is_none());
    assert!(plain_reply(&Json::Int(3)).is_none());
    assert!(shows_compact(16385));
    assert!(!shows_compact(16384));
}

#[test]
fn numeric_parameters_are_read_and_clamped() {
    let params = to_json(&parse(r#"{ "max_bars": 1000, "track_index": 3, "neg": -1, "f": 2.0 }"#));
    assert_eq!(count_param(&params, "track_index"), Some(3));
    assert_eq!(count_param(&params, "neg"), None);
    assert_eq!(count_param(&params, "f"), None);
    assert_eq!(count_param(&params, "missing"), None);
    assert_eq!(bounded_param(&params, "max_bars", 64, 1, 256), 256);
    assert_eq!(bounded_param(&params, "missing", 64, 1, 256), 64);
    assert_eq!(bounded_param(&params, "missing", 0, 1, 64), 1);
}

#[test]
fn tool_errors_read_as_errors() {
    let e = Error::BadArguments { tool: "set_tempo".to_string(), reason: "bad".to_string() };
    assert_eq!(tool_error_text(&e), "Error: invalid arguments for `set_tempo`: bad");
}

#[test]
fn analyses_ask_for_notes_unless_only_the_arrangement_is_read() {
    assert_eq!(
        to_value(&snapshot_request("__local_analyze_harmony")),
        parse(r#"{ "include_notes": true, "include_params": false }"#)
    );
    assert_eq!(
        to_value(&snapshot_request("__local_analyze_arrangement")),
        parse(r#"{ "include_notes": false, "include_params": false }"#)
    );
}

#[test]
fn an_outdated_script_is_told_how_to_update() {
    let message = tool_error_text(&unsupported("set_clip_envelope"));
    assert!(message.contains("does not support `set_clip_envelope`"), "{message}");
    assert!(message.contains("crableton install"), "{message}");
}

#[test]
fn a_refused_step_says_which_and_why() {
    let registry = registry();
    let mut bad = to_json(&parse(r#"{ "steps": [{ "tool": "create_midi_track" }, { "tool": "set_tempo", "arguments": {} }] }"#));
    assert_eq!(
        expand_batch(&registry, &mut bad, &read_json).unwrap_err(),
        "step 1 (`set_tempo`): missing required argument `tempo`"
    );
    let mut unknown = to_json(&parse(r#"{ "steps": [{ "tool": "no_such_tool" }] }"#));
    assert_eq!(expand_batch(&registry, &mut unknown, &read_json).unwrap_err(), "step 0: unknown tool `no_such_tool`");
    let mut empty = to_json(&parse(r#"{ "steps": [] }"#));
    assert_eq!(expand_batch(&registry, &mut empty, &read_json).unwrap_err(), "`steps` must contain at least one step");
}

#[test]
fn a_call_refuses_bad_arguments_before_anything_else() {
    let registry = registry();
    let tempo = registry.get("set_tempo").unwrap();
    let bad = entries(r#"{ "tempo": "fast" }"#);
    match plan_call(&registry, tempo, Some(&bad), &read_json) {
        CallStep::Refuse(Error::BadArguments { tool, reason }) => {
            assert_eq!(tool, "set_tempo");
            assert_eq!(reason, "`tempo` must be a number, got \"fast\"");
        }
        _ => panic!("expected a refusal"),
    }
    let good = entries(r#"{ "tempo": 120 }"#);
    match plan_call(&registry, tempo, Some(&good), &read_json) {
        CallStep::AskSupport(params) => assert_eq!(to_value(&params), parse(r#"{ "tempo": 120 }"#)),
        _ => panic!("expected to ask for support"),
    }
    let lom = registry.get("lom_reference").unwrap();
    assert!(matches!(plan_call(&registry, lom, None, &read_json), CallStep::ObjectModel(_)));
    let batch = registry.get("batch").unwrap();
    let steps = entries(r#"{ "steps": [{ "tool": "no_such_tool" }] }"#);
    match plan_call(&registry, batch, Some(&steps), &read_json) {
        CallStep::Refuse(Error::BadArguments { reason, .. }) => {
            assert_eq!(reason, "step 0: unknown tool `no_such_tool`")
        }
        _ => panic!("expected a refused batch"),
    }
}

#[test]
fn a_call_goes_to_live_only_when_the_script_supports_it() {
    let registry = registry();
    let tempo = registry.get("set_tempo").unwrap();
    assert!(matches!(after_support(tempo, Json::Null, true), Ok(Json::Null)));
    match after_support(tempo, Json::Null, false) {
        Err(Error::Live(m)) => assert!(m.starts_with("the Remote Script running in Live does not support `set_tempo`")),
        _ => panic!("expected a refusal"),
    }
}
