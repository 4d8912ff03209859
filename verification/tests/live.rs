use crableton::config::{Config, Environment};
use crableton::error::Error;
use crableton::json::Json;
use crableton::live::client::{
    after_attempt, cache_key, has_capability, judge, Attempt, BrowserCache, IdlePool, Next, Reply,
};
use crableton::live::protocol::{is_cacheable, timeout_for, Response};

fn env() -> Environment {
    Environment { host: None, port: None, pool_size: None, timeout_ms: None, browser_cache_secs: None }
}

#[test]
fn defaults_apply_when_nothing_is_set() {
    let c = Config::from_env(&env());
    assert_eq!(c.host, "127.0.0.1");
    assert_eq!(c.port, 9878);
    assert_eq!(c.pool_size, 4);
    assert_eq!(c.timeout_ms, 15000);
    assert_eq!(c.browser_cache_ttl_secs, 120);
    assert_eq!(c.addr(), "127.0.0.1:9878");
}

#[test]
fn the_environment_overrides_and_is_kept_in_range() {
    let mut e = env();
    e.host = Some("10.0.0.5".to_string());
    e.port = Some(" 9877 ".to_string());
    e.pool_size = Some("64".to_string());
    e.timeout_ms = Some("2500".to_string());
    e.browser_cache_secs = Some("not a number".to_string());
    let c = Config::from_env(&e);
    assert_eq!(c.addr(), "10.0.0.5:9877");
    assert_eq!(c.pool_size, 16);
    assert_eq!(c.timeout_ms, 2500);
    assert_eq!(c.browser_cache_ttl_secs, 120);

    let mut blank = env();
    blank.host = Some("   ".to_string());
    blank.pool_size = Some("0".to_string());
    blank.port = Some("70000".to_string());
    let c = Config::from_env(&blank);
    assert_eq!(c.host, "127.0.0.1");
    assert_eq!(c.pool_size, 1);
    assert_eq!(c.port, 9878);
}

#[test]
fn errors_say_what_went_wrong() {
    let seconds = |ms: u64| std::time::Duration::from_millis(ms).as_secs_f32().to_string();
    let timeout = Error::Timeout { command: "set_tempo".to_string(), timeout_ms: 1500, seconds: seconds(1500) };
    assert_eq!(timeout.message(), "Ableton Live did not answer `set_tempo` within 1.5s");
    assert!(timeout.is_connection_level());
    let whole = Error::Timeout { command: "x".to_string(), timeout_ms: 15000, seconds: seconds(15000) };
    assert_eq!(whole.message(), "Ableton Live did not answer `x` within 15s");
    let long = Error::Timeout { command: "x".to_string(), timeout_ms: 123456789, seconds: seconds(123456789) };
    assert_eq!(long.message(), "Ableton Live did not answer `x` within 123456.79s");
    let connect = Error::Connect { addr: "127.0.0.1:1".to_string(), source: "refused".to_string() };
    assert!(connect.message().contains("Control Surface"));
    assert!(connect.is_connection_level());
    let live = Error::Live("clip slot 3 is occupied".to_string());
    assert_eq!(live.message(), "clip slot 3 is occupied");
    assert!(!live.is_connection_level());
    assert_eq!(Error::UnknownTool("x".to_string()).message(), "unknown tool `x`");
    assert!(!Error::Protocol("bad".to_string()).is_connection_level());
    assert!(Error::Disconnected("gone".to_string()).is_connection_level());
}

#[test]
fn slow_commands_get_longer_budgets_but_never_shorter_ones() {
    assert_eq!(timeout_for("create_audio_clip", 15000), 90000);
    assert_eq!(timeout_for("get_session_snapshot", 15000), 45000);
    assert_eq!(timeout_for("batch", 200000), 200000);
    assert_eq!(timeout_for("set_tempo", 15000), 15000);
    assert!(is_cacheable("get_browser_tree"));
    assert!(is_cacheable("search_browser"));
    assert!(!is_cacheable("set_tempo"));
}

fn response(status: &str, id: Option<u64>, message: Option<&str>) -> Response {
    Response {
        status: status.to_string(),
        result: Json::Int(7),
        message: message.map(str::to_string),
        id,
    }
}

#[test]
fn replies_are_matched_to_their_request() {
    assert!(matches!(judge(response("success", Some(3), None), 4), Reply::Stale));
    assert!(matches!(judge(response("success", Some(4), None), 4), Reply::Answer(Ok(Json::Int(7)))));
    assert!(matches!(judge(response("success", None, None), 4), Reply::Answer(Ok(_))));
    match judge(response("error", None, Some("clip slot 3 is occupied")), 4) {
        Reply::Answer(Err(Error::Live(m))) => assert_eq!(m, "clip slot 3 is occupied"),
        _ => panic!("expected a Live error"),
    }
    match judge(response("error", Some(4), None), 4) {
        Reply::Answer(Err(Error::Live(m))) => assert_eq!(m, "unknown error from Ableton Live"),
        _ => panic!("expected a Live error"),
    }
}

#[test]
fn only_a_reused_socket_failing_at_the_connection_gets_a_retry() {
    let lost = || Attempt::Done(Err(Error::Disconnected("closed".to_string())));
    assert!(matches!(after_attempt(lost(), false, 0, "c", 1), Next::Retry));
    assert!(matches!(after_attempt(lost(), true, 0, "c", 1), Next::Finish { result: Err(_), keep: false }));
    assert!(matches!(after_attempt(lost(), false, 1, "c", 1), Next::Finish { result: Err(_), keep: false }));
    let refused = Attempt::Done(Err(Error::Live("no".to_string())));
    assert!(matches!(after_attempt(refused, false, 0, "c", 1), Next::Finish { result: Err(_), keep: true }));
    let ok = Attempt::Done(Ok(Json::Null));
    assert!(matches!(after_attempt(ok, true, 0, "c", 1), Next::Finish { result: Ok(Json::Null), keep: true }));
    match after_attempt(Attempt::TimedOut { seconds: "0.2".to_string() }, false, 0, "set_tempo", 200) {
        Next::Finish { result: Err(Error::Timeout { command, timeout_ms, seconds }), keep: false } => {
            assert_eq!(command, "set_tempo");
            assert_eq!(timeout_ms, 200);
            assert_eq!(seconds, "0.2");
        }
        _ => panic!("expected a timeout"),
    }
}

#[test]
fn the_pool_keeps_at_most_its_capacity() {
    let mut pool: IdlePool<u32> = IdlePool::new(2);
    assert_eq!(pool.take(), None);
    assert!(pool.put(1));
    assert!(pool.put(2));
    assert!(!pool.put(3));
    assert_eq!(pool.len(), 2);
    assert_eq!(pool.take(), Some(2));
    assert!(pool.put(4));
    assert_eq!(pool.take(), Some(4));
    pool.clear();
    assert_eq!(pool.len(), 0);
}

#[test]
fn cached_listings_expire() {
    let mut cache = BrowserCache::new(120);
    assert!(cache.get("k", 0).is_none());
    cache.put("k".to_string(), 1000, Json::text("drums"));
    assert!(matches!(cache.get("k", 100_000), Some(Json::Str(s)) if s == "drums"));
    assert!(cache.get("k", 121_000).is_none());
    assert!(cache.get("k", 1000).is_none(), "a stale entry is dropped");
    cache.put("k".to_string(), 5000, Json::Int(1));
    cache.put("k".to_string(), 6000, Json::Int(2));
    assert!(matches!(cache.get("k", 6000), Some(Json::Int(2))));
    assert!(matches!(cache.get("k", 1000), Some(Json::Int(2))), "a clock going back counts as no time");
    cache.clear();
    assert!(cache.get("k", 6000).is_none());
}

#[test]
fn cache_keys_hold_the_command_and_its_parameters() {
    let params = Json::Object(vec![("category_type".to_string(), Json::text("all"))]);
    assert_eq!(cache_key("get_browser_tree", &params), "get_browser_tree\u{1}{\"category_type\":\"all\"}");
}

#[test]
fn capabilities_come_from_the_handshake() {
    let info = Json::Object(vec![(
        "capabilities".to_string(),
        Json::Array(vec![Json::text("set_tempo"), Json::Int(3)]),
    )]);
    assert!(has_capability(Some(&info), "set_tempo"));
    assert!(!has_capability(Some(&info), "set_clip_envelope"));
    assert!(has_capability(None, "anything"));
    assert!(has_capability(Some(&Json::Object(vec![])), "anything"));
}
