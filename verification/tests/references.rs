use crableton::devices;
use crableton::json::{Decimal, Json};
use crableton::listing::{install_report, marker, summary, tool_line, REMOTE_SCRIPT_VERSION};
use crableton::lom::{self, Class, Member, Reference};
use crableton::mcp::registry::ToolDef;
use serde_json::Value;

fn to_json(v: &Value) -> Json {
    match v {
        Value::Null => Json::Null,
        Value::Bool(b) => Json::Bool(*b),
        Value::Number(n) => {
            if let Some(i) = n.as_i64() {
                Json::Int(i)
            } else if let Some(u) = n.as_u64() {
                Json::UInt(u)
            } else {
                let f = n.as_f64().unwrap_or(0.0);
                let integral = if f.fract() == 0.0 { Some(f as i64) } else { None };
                Json::Decimal(Decimal { text: n.to_string(), integral })
            }
        }
        Value::String(s) => Json::Str(s.clone()),
        Value::Array(a) => Json::Array(a.iter().map(to_json).collect()),
        Value::Object(m) => Json::Object(m.iter().map(|(k, v)| (k.clone(), to_json(v))).collect()),
    }
}

fn to_value(j: &Json) -> Value {
    match j {
        Json::Null => Value::Null,
        Json::Bool(b) => Value::Bool(*b),
        Json::Int(i) => Value::from(*i),
        Json::UInt(u) => Value::from(*u),
        Json::Decimal(d) => d
            .text
            .parse::<f64>()
            .ok()
            .and_then(serde_json::Number::from_f64)
            .map(Value::Number)
            .unwrap_or(Value::Null),
        Json::Str(s) => Value::String(s.clone()),
        Json::Array(a) => Value::Array(a.iter().map(to_value).collect()),
        Json::Object(e) => {
            let mut m = serde_json::Map::new();
            for (k, v) in e {
                m.insert(k.clone(), to_value(v));
            }
            Value::Object(m)
        }
    }
}

fn parse(text: &str) -> Value {
    serde_json::from_str(text).unwrap()
}

fn read_json(text: &str) -> Option<Json> {
    serde_json::from_str::<Value>(text).ok().map(|v| to_json(&v))
}

fn entries(text: &str) -> Vec<(String, Json)> {
    match to_json(&parse(text)) {
        Json::Object(e) => e,
        _ => panic!("not an object: {text}"),
    }
}

fn member(name: &str, description: &str) -> Member {
    Member {
        name: name.to_string(),
        ty: Some("bool".to_string()),
        access: None,
        description: description.to_string(),
    }
}

fn reference() -> Reference {
    Reference {
        version: "12".to_string(),
        note: "Condensed.".to_string(),
        classes: vec![
            Class {
                name: "Song".to_string(),
                path: Some("live_set".to_string()),
                description: "The set.".to_string(),
                properties: vec![member("tempo", "Beats per minute."), member("is_playing", "")],
                methods: vec![member("start_playing", "Start playback.")],
                children: vec![],
            },
            Class {
                name: "Song.View".to_string(),
                path: None,
                description: "What is selected.".to_string(),
                properties: vec![member("selected_track", "The selected track.")],
                methods: vec![],
                children: vec![],
            },
            Class {
                name: "Clip".to_string(),
                path: None,
                description: "A clip with warp markers.".to_string(),
                properties: vec![member("warping", "Whether warp is on.")],
                methods: vec![],
                children: vec![],
            },
        ],
    }
}

fn lookup(class_name: Option<&str>, query: Option<&str>) -> Value {
    to_value(&lom::lookup(&reference(), class_name, query))
}

#[test]
fn looks_up_classes_case_and_punctuation_insensitively() {
    for name in ["Song", "song", "Song.View", "song_view", "view"] {
        let found = lookup(Some(name), None);
        assert!(found.get("error").is_none(), "{name} was not found");
    }
    assert_eq!(lookup(Some("song"), None)["name"], "Song");
    assert_eq!(lookup(Some("songview"), None)["name"], "Song.View");
    let missing = lookup(Some("NotAClass"), None);
    assert_eq!(missing["error"], "no Live Object Model class named `NotAClass`");
    assert_eq!(missing["known_classes"].as_array().unwrap().len(), 3);
}

#[test]
fn a_class_entry_lists_its_members() {
    let song = lookup(Some("Song"), None);
    assert_eq!(song["path"], "live_set");
    assert_eq!(song["properties"][0], parse(r#"{"name": "tempo", "type": "bool", "description": "Beats per minute."}"#));
    assert_eq!(song["properties"][1], parse(r#"{"name": "is_playing", "type": "bool"}"#));
    assert_eq!(song["methods"].as_array().unwrap().len(), 1);
    assert_eq!(song["children"], parse("[]"));
}

#[test]
fn searches_members_and_bounds_the_result() {
    let hits = lookup(None, Some("  WARP "));
    assert_eq!(hits["total_matches"], 2);
    assert_eq!(hits["matches"][0]["kind"], "property");
    assert_eq!(hits["matches"][1]["kind"], "class");
    assert_eq!(hits["query"], "  WARP ");

    let mut big = reference();
    big.classes[0].properties = (0..70).map(|i| member(&format!("p{i}"), "warp")).collect();
    let hits = to_value(&lom::lookup(&big, None, Some("warp")));
    assert_eq!(hits["total_matches"], 72);
    assert_eq!(hits["returned"], 60);
    assert_eq!(hits["matches"].as_array().unwrap().len(), 60);
}

#[test]
fn no_arguments_returns_the_class_index() {
    let index = lookup(None, None);
    assert_eq!(index["classes"].as_array().unwrap().len(), 3);
    assert_eq!(index["classes"][0]["members"], 3);
    assert_eq!(index["classes"][1]["path"], Value::Null);
    assert_eq!(lookup(None, Some("   ")), index);
    assert!(lom::counts_fit_in(&reference()));
}

fn devices_reference() -> devices::Reference {
    devices::Reference {
        note: "Stock devices.".to_string(),
        reading_values: "Values are normalised.".to_string(),
        devices: vec![
            devices::Device {
                class_name: "InstrumentVector".to_string(),
                name: "Wavetable".to_string(),
                kind: "instrument".to_string(),
                summary: "Two wavetable oscillators.".to_string(),
                key_parameters: vec![devices::Parameter {
                    name: "Filter 1 Freq".to_string(),
                    does: "Cutoff of the first filter.".to_string(),
                    quantized: Some(false),
                    automate: Some("sweeps".to_string()),
                }],
                gotchas: None,
            },
            devices::Device {
                class_name: "Eq8".to_string(),
                name: "EQ Eight".to_string(),
                kind: "audio_effect".to_string(),
                summary: "Eight-band equaliser.".to_string(),
                key_parameters: vec![devices::Parameter {
                    name: "Mode".to_string(),
                    does: "Stereo or mid/side.".to_string(),
                    quantized: Some(true),
                    automate: None,
                }],
                gotchas: Some("Oversampling costs CPU.".to_string()),
            },
        ],
    }
}

fn device(name: Option<&str>, query: Option<&str>) -> Value {
    to_value(&devices::lookup(&devices_reference(), name, query))
}

#[test]
fn resolves_by_class_name_and_by_display_name() {
    for name in ["InstrumentVector", "Wavetable", "wavetable"] {
        assert_eq!(device(Some(name), None)["class_name"], "InstrumentVector", "failed for {name}");
    }
    assert_eq!(device(Some("Eq8"), None)["name"], "EQ Eight");
    assert_eq!(device(Some("eq"), None)["name"], "EQ Eight");
    assert_eq!(
        device(Some("Eq8"), None)["key_parameters"][0],
        parse(r#"{"name": "Mode", "does": "Stereo or mid/side.", "quantized": true}"#)
    );
    assert_eq!(
        device(Some("Wavetable"), None)["key_parameters"][0]["worth_automating"],
        "sweeps"
    );
}

#[test]
fn unknown_devices_explain_the_fallback() {
    let missing = device(Some("SomeVstPlugin"), None);
    assert!(missing["error"].is_string());
    assert!(
        missing["note"].as_str().unwrap().contains("get_device_parameters"),
        "should point at the tool that still works"
    );
    assert_eq!(missing["known"], parse(r#"["InstrumentVector", "Eq8"]"#));
}

#[test]
fn searches_parameters_as_well_as_devices() {
    let hits = device(None, Some("cutoff"));
    assert_eq!(hits["matches"], 1);
    assert_eq!(hits["results"][0]["matched"], "parameters");
    let by_summary = device(None, Some("equaliser"));
    assert_eq!(by_summary["results"][0]["matched"], "device");
    assert_eq!(device(None, Some("nothing like this"))["matches"], 0);
}

#[test]
fn the_index_lists_everything() {
    let index = device(None, None);
    assert_eq!(index["devices"].as_array().unwrap().len(), devices_reference().devices.len());
}

#[test]
fn tool_listings_mark_what_a_tool_may_do() {
    assert_eq!(marker(true, false), " ");
    assert_eq!(marker(false, true), "!");
    assert_eq!(marker(false, false), "*");
    assert_eq!(summary("Set the tempo. In BPM."), "Set the tempo");
    assert_eq!(summary("First line\nsecond"), "First line");
    let tool = ToolDef::new("set_tempo", "set_tempo", "Set the tempo of the Live set.");
    assert_eq!(
        tool_line(&tool),
        format!("  * {:<32} Set the tempo of the Live set.", "set_tempo")
    );
}

#[test]
fn install_reports_what_it_replaced() {
    assert_eq!(install_report(&None), format!("Installed Remote Script {REMOTE_SCRIPT_VERSION}."));
    assert_eq!(
        install_report(&Some("1.0.0".to_string())),
        format!("Updated the Remote Script from 1.0.0 to {REMOTE_SCRIPT_VERSION}.")
    );
    assert_eq!(
        install_report(&Some(REMOTE_SCRIPT_VERSION.to_string())),
        format!("Remote Script already at {REMOTE_SCRIPT_VERSION}; rewrote it anyway.")
    );
}
