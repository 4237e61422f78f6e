use baerbot::actions::{Action, ArcStr, Exec, ExecTarget, Trigger};
use baerbot::codec::{action_file_name, parse_action, serialize_action};
use baerbot::config::ObsConfig;
use baerbot::counter::{format_counter, handle_counters, parse_isize, CounterStore, TwitchCounter};
use baerbot::data::{get_response, SimpleResponse};
use baerbot::error::{Error, ErrorMsg};
use baerbot::logs::log_name_to_unix;
use baerbot::piper::PiperVoiceUrls;
use baerbot::registry::str_le;
use baerbot::tts::{
    get_active, get_voices, init_tts_data, set_active_voice, speak, TtsData, VoiceData,
};
use baerbot::users::{ban_result_of, ban_target, BanResult, UserCache};

fn counter_action() -> Action {
    Action::new(
        Trigger::Command(ArcStr::new("deaths".to_string())),
        Exec::Counter(TwitchCounter { counter: 41, template: "{counter} deaths".to_string() }),
    )
}

fn nested_action() -> Action {
    Action::new(
        Trigger::Redeem(ArcStr::new("rw:1".to_string())),
        Exec::Chance(
            250000,
            Box::new(Exec::Timeout(ExecTarget::Other, 600)),
            Box::new(Exec::Chance(
                750000,
                Box::new(Exec::Reply(ArcStr::new("safe... for now".to_string()))),
                Box::new(Exec::Ban(ExecTarget::User)),
            )),
        ),
    )
}

#[test]
fn round_trip_keeps_trigger_and_exec() {
    for a in [counter_action(), nested_action()] {
        let text = serialize_action(&a);
        let b = parse_action(text.as_str()).expect("serialized actions parse back");
        assert_eq!(serialize_action(&b), text);
        assert_eq!(b.last_used, 0);
    }
}

#[test]
fn round_trip_resets_cooldown_state() {
    let mut a = counter_action();
    assert!(a.allow_use(999999));
    let b = parse_action(serialize_action(&a).as_str()).expect("parses back");
    assert_eq!(a.last_used, 999999);
    assert_eq!(b.last_used, 0);
}

#[test]
fn parse_rejects_malformed_texts() {
    assert!(parse_action("").is_none());
    assert!(parse_action("x5:greetm2:hi").is_none());
    assert!(parse_action("c5:greet").is_none());
    assert!(parse_action("c5:greetq2:hi").is_none());
    assert!(parse_action("c5:greetm9:hi").is_none());
    assert!(parse_action("c5:greetm2:hitrailing").is_none());
    assert!(parse_action("c5:greetm2:hi").is_some());
}

#[test]
fn action_file_names_carry_the_key() {
    assert_eq!(action_file_name(&counter_action()), "deaths.toml");
    assert_eq!(action_file_name(&nested_action()), "rw:1.toml");
}

#[test]
fn counter_three_adds_reach_three() {
    let mut c = TwitchCounter::new("count: {counter}".to_string());
    c.add(1);
    c.add(1);
    let text = c.add(1);
    assert_eq!(c.counter, 3);
    assert!(text.contains("3"), "formatted text should carry the value: {text}");
    assert_eq!(text, "count: 3");
}

#[test]
fn counter_reset_and_formatting() {
    let mut c = TwitchCounter { counter: 7, template: "{counter} and {counter}".to_string() };
    assert_eq!(format_counter(&c), "7 and 7");
    let text = c.reset();
    assert_eq!(text, "0 and 0");
    assert_eq!(c.counter, 0);
    let plain = TwitchCounter { counter: 3, template: "no placeholder".to_string() };
    assert_eq!(format_counter(&plain), "no placeholder");
}

#[test]
fn counter_store_moves_independently() {
    let mut store = CounterStore::new();
    assert_eq!(store.get("deaths"), 0);
    assert_eq!(store.increase("deaths".to_string()), 1);
    assert_eq!(store.increase("deaths".to_string()), 2);
    assert_eq!(store.decrease("wins".to_string()), -1);
    assert_eq!(store.get("deaths"), 2);
    assert_eq!(store.get("wins"), -1);
    store.set("deaths".to_string(), 10);
    assert_eq!(store.get("deaths"), 10);
    store.remove("deaths");
    assert_eq!(store.get("deaths"), 0);
    assert_eq!(store.get("wins"), -1);
}

#[test]
fn counter_commands_answer_or_refuse() {
    let mut store = CounterStore::new();
    let allowed = vec!["deaths".to_string()];
    assert_eq!(handle_counters(&mut store, &allowed, "wins", "inc", None), Err(None));
    assert_eq!(
        handle_counters(&mut store, &allowed, "deaths", "INC", None),
        Ok("deaths is now 1".to_string())
    );
    assert_eq!(
        handle_counters(&mut store, &allowed, "deaths", "set", Some("-5")),
        Ok("deaths is now -5".to_string())
    );
    assert_eq!(
        handle_counters(&mut store, &allowed, "deaths", "dec", None),
        Ok("deaths is now -6".to_string())
    );
    assert_eq!(
        handle_counters(&mut store, &allowed, "deaths", "get", None),
        Ok("deaths is now -6".to_string())
    );
    assert_eq!(
        handle_counters(&mut store, &allowed, "deaths", "set", None),
        Err(Some("No value provided".to_string()))
    );
    assert_eq!(
        handle_counters(&mut store, &allowed, "deaths", "set", Some("ten")),
        Err(Some("Value is not a number".to_string()))
    );
    assert_eq!(
        handle_counters(&mut store, &allowed, "deaths", "wipe", None),
        Err(Some("Invalid counter action".to_string()))
    );
}

#[test]
fn integers_parse_with_optional_sign() {
    assert_eq!(parse_isize("42"), Some(42));
    assert_eq!(parse_isize("-42"), Some(-42));
    assert_eq!(parse_isize("0"), Some(0));
    assert_eq!(parse_isize(""), None);
    assert_eq!(parse_isize("-"), None);
    assert_eq!(parse_isize("4 2"), None);
    assert_eq!(parse_isize("99999999999999999999999"), None);
}

#[test]
fn simple_responses_answer_first_match() {
    let responses = vec![
        SimpleResponse { trigger: "hello".to_string(), response: "hi there".to_string() },
        SimpleResponse { trigger: "hello".to_string(), response: "later copy".to_string() },
    ];
    assert_eq!(get_response("hello", &responses).as_deref(), Some("hi there"));
    assert_eq!(get_response("hello\u{e0000}", &responses).as_deref(), Some("hi there"));
    assert!(get_response("other", &responses).is_none());
    assert!(get_response("tts", &responses).is_none());
}

#[test]
fn error_messages_follow_their_rules() {
    let e = Error::new(ErrorMsg::TokenGone);
    assert_eq!(e.msg, ErrorMsg::TokenGone);
    assert!(e.src.is_none());
    let e = Error::from_err("io failed".to_string(), ErrorMsg::TokenLoad);
    assert_eq!(e.msg, ErrorMsg::TokenLoad);
    assert_eq!(e.src.as_deref(), Some("io failed"));
    let e = Error::new(ErrorMsg::TokenGone).try_set_msg(ErrorMsg::WebSocketSetup);
    assert_eq!(e.msg, ErrorMsg::TokenGone);
    let e = Error::new(ErrorMsg::Unknown).try_set_msg(ErrorMsg::TokenSave);
    assert_eq!(e.msg, ErrorMsg::TokenSave);
    let e = Error::new(ErrorMsg::TokenGone).overwrite_msg(ErrorMsg::WebSocketSetup);
    assert_eq!(e.msg, ErrorMsg::WebSocketSetup);
    assert_eq!(ErrorMsg::default(), ErrorMsg::Unknown);
}

#[test]
fn ban_targets_fold_and_refuse_self() {
    assert!(ban_target("botself", "botself").is_none());
    assert_eq!(ban_target("botself", "TroubleMaker").as_deref(), Some("troublemaker"));
    assert_eq!(ban_target("botself", "BOTSELF").as_deref(), Some("botself"));
}

#[test]
fn ban_results_classify() {
    assert_eq!(ban_result_of(Some(60), true), BanResult::TimedOut);
    assert_eq!(ban_result_of(None, true), BanResult::Banned);
    assert_eq!(ban_result_of(Some(60), false), BanResult::Nope);
}

#[test]
fn user_cache_remembers_first_entry() {
    let mut cache = UserCache::new();
    assert!(cache.get("alice").is_none());
    cache.insert("alice".to_string(), "id-1".to_string());
    cache.insert("alice".to_string(), "id-2".to_string());
    assert_eq!(cache.get("alice").as_deref(), Some("id-1"));
    assert!(cache.get("bob").is_none());
}

#[test]
fn obs_config_defaults() {
    let c = ObsConfig::default();
    assert!(!c.enable);
    assert_eq!(c.url, "localhost");
    assert_eq!(c.port, 4455);
    assert!(c.password.is_none());
}

fn voice(lang: &str, name: &str) -> VoiceData {
    VoiceData { language: lang.to_string(), name: name.to_string() }
}

fn engine() -> TtsData {
    init_tts_data(vec![voice("en", "amy"), voice("de", "eva"), voice("en", "joe")], None)
}

#[test]
fn tts_selects_configured_voice() {
    let voices = vec![voice("en", "amy"), voice("de", "eva")];
    let data = init_tts_data(voices.clone(), Some(&voice("de", "eva")));
    assert_eq!(data.selected_voice, 1);
    let data = init_tts_data(voices.clone(), Some(&voice("fr", "zoe")));
    assert_eq!(data.selected_voice, 0);
    let data = init_tts_data(voices, None);
    assert_eq!(data.selected_voice, 0);
}

#[test]
fn tts_voice_listing_and_selection() {
    let mut data = engine();
    assert_eq!(get_voices(&data).len(), 3);
    let active = get_active(&data).expect("a voice is selected");
    assert_eq!(active.name, "amy");
    let i = set_active_voice(&mut data, &voice("en", "joe")).expect("joe is offered");
    assert_eq!(i, 2);
    assert_eq!(get_active(&data).expect("selected").name, "joe");
    assert!(set_active_voice(&mut data, &voice("en", "nobody")).is_err());
    assert_eq!(data.selected_voice, 2);
}

#[test]
fn tts_speak_plans_voice_switches() {
    let data = engine();
    assert!(speak(&data, "".to_string(), None).is_err());
    let plan = speak(&data, "hello".to_string(), None).expect("plain utterance");
    assert_eq!(plan.text, "hello");
    assert!(plan.set_voice.is_none());
    assert!(plan.restore_voice.is_none());
    let plan = speak(&data, "hallo".to_string(), Some(&voice("de", "eva"))).expect("one-off voice");
    assert_eq!(plan.set_voice, Some(1));
    assert_eq!(plan.restore_voice, Some(0));
}

#[test]
fn log_names_parse_to_ordered_stamps() {
    let a = log_name_to_unix("baerbot_log.2023-11-05").expect("a log of ours");
    let b = log_name_to_unix("baerbot_log.2023-11-06").expect("a log of ours");
    let c = log_name_to_unix("baerbot_log.2024-01-01").expect("a log of ours");
    assert!(a < b && b < c);
    assert_eq!(a, (2023 - 1970) * 31557600 + 11 * 2629800 + 5 * 86400);
}

#[test]
fn log_names_of_others_are_refused() {
    assert!(log_name_to_unix("other_log.2023-11-05").is_none());
    assert!(log_name_to_unix("baerbot_log").is_none());
    assert!(log_name_to_unix("baerbot_log.2023-11").is_none());
    assert!(log_name_to_unix("baerbot_log.2023-11-05-01").is_none());
    assert!(log_name_to_unix("baerbot_log.2023-11-05.bak").is_none());
    assert!(log_name_to_unix("baerbot_log.2023-nov-05").is_none());
    assert!(log_name_to_unix("baerbot_log.20230000000-1-1").is_none());
}

#[test]
fn piper_urls_reduce_to_filenames() {
    let urls = PiperVoiceUrls {
        example: "https://host/voices/en/amy/sample.mp3?download=true".to_string(),
        onnx: "https://host/voices/en/amy/en_US-amy.onnx".to_string(),
        json: "en_US-amy.onnx.json".to_string(),
    };
    assert_eq!(urls.get_example_filename(), "sample.mp3");
    assert_eq!(urls.get_onnx_filename(), "en_US-amy.onnx");
    assert_eq!(urls.get_json_filename(), "en_US-amy.onnx.json");
}

#[test]
fn trigger_keys_and_order() {
    let t = Trigger::Command(ArcStr::new("greet".to_string()));
    assert_eq!(t.get_inner().as_str(), "greet");
    assert!(!t.is_redeem());
    let t = Trigger::Redeem(ArcStr::new("rw".to_string()));
    assert!(t.is_redeem());
    assert!(str_le("alpha", "beta"));
    assert!(str_le("", "a"));
    assert!(!str_le("b", "ab"));
    assert!(str_le("abc", "abc"));
}
