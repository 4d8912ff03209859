use crableton::json::{Decimal, Json};
use crableton::mcp::registry::{coerce, first_duplicate, ArgDef, ArgTy, ToolDef, ToolRegistry};
use serde_json::Value;

fn to_json(v: &Value) -> Json {
    match v {
        Value::Null => Json::Null,
        Value::Bool(b) => Json::Bool(*b),
        Value::Number(n) => {
            if let Some(i) = n.as_i64() {
                Json::Int(i)
            } else if let Some(u) = n.as_u64() {
                Json::UInt(u)
            } else {
                let f = n.as_f64().unwrap_or(0.0);
                let integral = if f.fract() == 0.0 { Some(f as i64) } else { None };
                Json::Decimal(Decimal { text: n.to_string(), integral })
            }
        }
        Value::String(s) => Json::Str(s.clone()),
        Value::Array(a) => Json::Array(a.iter().map(to_json).collect()),
        Value::Object(m) => Json::Object(m.iter().map(|(k, v)| (k.clone(), to_json(v))).collect()),
    }
}

fn to_value(j: &Json) -> Value {
    match j {
        Json::Null => Value::Null,
        Json::Bool(b) => Value::Bool(*b),
        Json::Int(i) => Value::from(*i),
        Json::UInt(u) => Value::from(*u),
        Json::Decimal(d) => d
            .text
            .parse::<f64>()
            .ok()
            .and_then(serde_json::Number::from_f64)
            .map(Value::Number)
            .unwrap_or(Value::Null),
        Json::Str(s) => Value::String(s.clone()),
        Json::Array(a) => Value::Array(a.iter().map(to_value).collect()),
        Json::Object(e) => {
            let mut m = serde_json::Map::new();
            for (k, v) in e {
                m.insert(k.clone(), to_value(v));
            }
            Value::Object(m)
        }
    }
}

fn parse(text: &str) -> Value {
    serde_json::from_str(text).unwrap()
}

fn read_json(text: &str) -> Option<Json> {
    serde_json::from_str::<Value>(text).ok().map(|v| to_json(&v))
}

fn entries(text: &str) -> Vec<(String, Json)> {
    match to_json(&parse(text)) {
        Json::Object(e) => e,
        _ => panic!("not an object: {text}"),
    }
}

fn sample() -> ToolDef {
    ToolDef::new("set_track_volume", "set_track_mixer", "Set a track's volume.")
        .integer("track_index", "Track index.")
        .num("volume", "0.0 to 1.0.")
        .opt_text("track_type", "Which track list.")
        .choices(&["regular", "return", "master"])
        .default(Json::text("regular"))
        .fixed("field", Json::text("volume"))
}

fn build(tool: &ToolDef, args: &str) -> Result<Value, String> {
    let a = entries(args);
    tool.build_params(Some(&a), &read_json).map(|p| to_value(&p))
}

#[test]
fn builds_params_with_fixed_and_defaults() {
    let params = build(&sample(), r#"{ "track_index": 2, "volume": 0.7 }"#).unwrap();
    assert_eq!(
        params,
        parse(r#"{ "field": "volume", "track_index": 2, "volume": 0.7, "track_type": "regular" }"#)
    );
}

#[test]
fn coerces_stringly_typed_numbers() {
    let params = build(&sample(), r#"{ "track_index": "2", "volume": "0.7" }"#).unwrap();
    assert_eq!(params["track_index"], parse("2"));
    assert_eq!(params["volume"], parse("0.7"));
}

#[test]
fn rejects_missing_required_unknown_and_out_of_enum() {
    assert!(build(&sample(), r#"{ "track_index": 0 }"#).unwrap_err().contains("volume"));
    assert!(build(&sample(), r#"{ "track_index": 0, "volume": 0.5, "nope": 1 }"#)
        .unwrap_err()
        .contains("nope"));
    assert!(build(&sample(), r#"{ "track_index": 0, "volume": 0.5, "track_type": "bus" }"#)
        .unwrap_err()
        .contains("bus"));
}

#[test]
fn schema_marks_only_required_args() {
    let schema = to_value(&Json::Object(sample().input_schema()));
    assert_eq!(schema["required"], parse(r#"["track_index", "volume"]"#));
    assert_eq!(schema["properties"]["track_type"]["default"], parse(r#""regular""#));
}

#[test]
fn no_arguments_at_all_still_gets_defaults_and_fixed_values() {
    let tool = ToolDef::new("t", "c", "A tool.")
        .opt_text("kind", "Kind.")
        .default(Json::text("a"))
        .fixed("x", Json::Int(1));
    let params = tool.build_params(None, &read_json).unwrap();
    assert_eq!(to_value(&params), parse(r#"{ "x": 1, "kind": "a" }"#));
}

#[test]
fn explicit_null_counts_as_not_given() {
    let tool = ToolDef::new("t", "c", "A tool.").opt_text("kind", "Kind.").default(Json::text("a"));
    assert_eq!(build(&tool, r#"{ "kind": null }"#).unwrap(), parse(r#"{ "kind": "a" }"#));
}

fn arg(ty: ArgTy) -> ArgDef {
    ArgDef {
        name: "v",
        description: String::from("A value."),
        ty,
        required: true,
        default: None,
        choices: None,
    }
}

fn coerced(ty: ArgTy, text: &str) -> Result<Value, String> {
    coerce(&arg(ty), &to_json(&parse(text)), &read_json).map(|j| to_value(&j))
}

#[test]
fn whole_floats_become_integers_and_fractions_are_refused() {
    assert_eq!(coerced(ArgTy::Int, "4.0").unwrap(), parse("4"));
    let err = coerced(ArgTy::Int, "4.5").unwrap_err();
    assert!(err.contains("`v` must be a whole number"), "{err}");
    assert!(coerced(ArgTy::Int, r#"" -7 ""#).unwrap() == parse("-7"));
    assert!(coerced(ArgTy::Int, "true").unwrap_err().contains("must be an integer"));
}

#[test]
fn booleans_accept_the_usual_words() {
    for word in ["true", "1", "yes", "on", " ON "] {
        assert_eq!(coerced(ArgTy::Bool, &format!("{:?}", word)).unwrap(), Value::Bool(true));
    }
    for word in ["false", "0", "no", "off"] {
        assert_eq!(coerced(ArgTy::Bool, &format!("{:?}", word)).unwrap(), Value::Bool(false));
    }
    assert!(coerced(ArgTy::Bool, r#""maybe""#).is_err());
}

#[test]
fn lists_may_arrive_as_their_json_text() {
    assert_eq!(coerced(ArgTy::IntList, r#""[1, 2, 3]""#).unwrap(), parse("[1, 2, 3]"));
    assert!(coerced(ArgTy::IntList, r#""{}""#).unwrap_err().contains("must be an array"));
    assert!(coerced(ArgTy::IntList, "5").unwrap_err().contains("must be an array"));
}

#[test]
fn numbers_accept_numeric_text_and_refuse_other_text() {
    assert_eq!(coerced(ArgTy::Num, r#""2.5""#).unwrap(), parse("2.5"));
    assert_eq!(coerced(ArgTy::Num, "3").unwrap(), parse("3"));
    assert!(coerced(ArgTy::Num, r#""loud""#).unwrap_err().contains("must be a number"));
    assert!(coerced(ArgTy::Str, "3").unwrap_err().contains("must be a string"));
}

#[test]
fn registry_finds_tools_by_name() {
    let registry = ToolRegistry::new(vec![sample(), ToolDef::new("other", "other", "Another.")]);
    assert_eq!(registry.len(), 2);
    assert!(!registry.is_empty());
    assert_eq!(registry.get("other").unwrap().command, "other");
    assert!(registry.get("missing").is_none());
    assert_eq!(registry.all()[0].name, "set_track_volume");
}

#[test]
fn duplicate_names_are_found() {
    let tools = vec![sample(), ToolDef::new("x", "x", "X."), ToolDef::new("x", "y", "Y.")];
    assert_eq!(first_duplicate(&tools), Some("x"));
    assert_eq!(first_duplicate(&vec![sample()]), None);
}

#[test]
fn refused_text_is_quoted_in_the_message() {
    assert_eq!(
        coerced(ArgTy::Int, r#""abc""#).unwrap_err(),
        "`v` must be an integer, got \"abc\""
    );
    let choosy = ArgDef {
        name: "kind",
        description: String::from("Kind."),
        ty: ArgTy::Str,
        required: true,
        default: None,
        choices: Some(vec!["a", "b"]),
    };
    assert_eq!(
        coerce(&choosy, &Json::text("c\n"), &read_json).err().unwrap(),
        "`kind` must be one of a, b, got \"c\\n\""
    );
}

#[test]
fn refusals_name_what_was_wrong() {
    assert_eq!(
        build(&sample(), r#"{ "track_index": 0 }"#).unwrap_err(),
        "missing required argument `volume`"
    );
    assert_eq!(
        build(&sample(), r#"{ "track_index": 0, "volume": 0.5, "nope": 1 }"#).unwrap_err(),
        "unknown argument `nope`; expected one of: track_index, volume, track_type"
    );
    assert_eq!(
        build(&sample(), r#"{ "track_index": 0, "volume": 0.5, "track_type": "bus" }"#).unwrap_err(),
        "`track_type` must be one of regular, return, master, got \"bus\""
    );
    assert_eq!(build(&sample(), r#"{ "track_index": [1], "volume": 0.5 }"#).unwrap_err(), "`track_index` must be an integer, got [1]");
}

#[test]
fn no_argument_map_reads_as_an_empty_one() {
    let empty: Vec<(String, Json)> = Vec::new();
    let none = sample().build_params(None, &read_json).unwrap_err();
    let some = sample().build_params(Some(&empty), &read_json).unwrap_err();
    assert_eq!(none, some);
    assert_eq!(none, "missing required argument `track_index`");
}

#[test]
fn fractions_refused_as_whole_numbers_are_written_out_in_full() {
    assert_eq!(coerced(ArgTy::Int, "1e-7").unwrap_err(), "`v` must be a whole number, got 0.0000001");
    assert_eq!(coerced(ArgTy::Int, "2.5").unwrap_err(), "`v` must be a whole number, got 2.5");
    assert_eq!(coerced(ArgTy::Int, "-1.5e-3").unwrap_err(), "`v` must be a whole number, got -0.0015");
    assert_eq!(coerced(ArgTy::Int, "123.25").unwrap_err(), "`v` must be a whole number, got 123.25");
}

#[test]
fn the_schema_lists_exactly_the_arguments_with_their_items_and_choices() {
    let tool = sample().opt_int_list("ids", "Some ids.").notes("notes", "Some notes.");
    let schema = to_value(&Json::Object(tool.input_schema()));
    assert_eq!(schema["type"], parse(r#""object""#));
    assert_eq!(schema["additionalProperties"], Value::Bool(false));
    let properties = schema["properties"].as_object().unwrap();
    assert_eq!(properties.len(), 5);
    assert_eq!(schema["properties"]["track_type"]["enum"], parse(r#"["regular", "return", "master"]"#));
    assert_eq!(schema["properties"]["ids"]["items"], parse(r#"{ "type": "integer" }"#));
    assert_eq!(
        schema["properties"]["notes"]["items"]["required"],
        parse(r#"["pitch", "start_time", "duration"]"#)
    );
    assert_eq!(
        schema["properties"]["notes"]["items"]["properties"]["pitch"]["maximum"],
        parse("127")
    );
}

#[test]
fn a_repeated_argument_name_takes_the_last_value_given() {
    let tool = ToolDef::new("t", "c", "A tool.")
        .opt_int("x", "First.")
        .default(Json::Int(1))
        .opt_int("x", "Second.");
    assert_eq!(to_value(&tool.build_params(None, &read_json).unwrap()), parse(r#"{ "x": 1 }"#));
    let later = ToolDef::new("t", "c", "A tool.")
        .opt_int("x", "First.")
        .default(Json::Int(1))
        .opt_int("x", "Second.")
        .default(Json::Int(2));
    assert_eq!(to_value(&later.build_params(None, &read_json).unwrap()), parse(r#"{ "x": 2 }"#));
    assert_eq!(build(&later, r#"{ "x": "7" }"#).unwrap(), parse(r#"{ "x": 7 }"#));
}
