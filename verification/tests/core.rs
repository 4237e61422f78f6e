use baerbot::actions::{Action, ArcStr, Effect, Exec, ExecTarget, Trigger, PROB_ONE};
use baerbot::chat::{handle_msg, is_spam, parse_command, ActiveChatters};
use baerbot::events::{
    exec_redeem, handle_eventsub_message, EventsubAction, EventsubMessage, WebsocketState,
};
use baerbot::registry::ActionRegistry;
use baerbot::template::process_reply;

fn chat_action(key: &str, template: &str) -> Action {
    Action::new(
        Trigger::Command(ArcStr::new(key.to_string())),
        Exec::ChatMsg(ArcStr::new(template.to_string())),
    )
}

fn redeem_action(key: &str, template: &str) -> Action {
    Action::new(
        Trigger::Redeem(ArcStr::new(key.to_string())),
        Exec::ChatMsg(ArcStr::new(template.to_string())),
    )
}

#[test]
fn cooldown_admits_once_per_window() {
    let mut a = chat_action("greet", "hi");
    assert!(a.allow_use(6000));
    assert!(!a.allow_use(6001));
    assert!(!a.allow_use(11000));
    assert!(a.allow_use(11001));
    assert!(!a.allow_use(12000));
}

#[test]
fn cooldown_rejects_before_epoch_window() {
    let mut a = chat_action("greet", "hi");
    assert!(!a.allow_use(4000));
    assert!(a.allow_use(5001));
}

#[test]
fn registry_add_replaces_same_key() {
    let mut reg = ActionRegistry::new();
    reg.add_action(chat_action("greet", "hello"));
    reg.add_action(chat_action("greet", "howdy"));
    let got = reg.get_action("greet").expect("action should be stored");
    match got.effect {
        Exec::ChatMsg(t) => assert_eq!(t.0, "howdy"),
        _ => panic!("unexpected effect"),
    }
    let all = reg.get_all_actions();
    assert_eq!(all.len(), 1);
}

#[test]
fn registry_get_and_drop() {
    let mut reg = ActionRegistry::new();
    assert!(reg.get_action("greet").is_none());
    reg.add_action(chat_action("greet", "hello"));
    assert!(reg.get_action("greet").is_some());
    reg.drop_action("greet");
    assert!(reg.get_action("greet").is_none());
}

#[test]
fn registry_listing_is_sorted() {
    let mut reg = ActionRegistry::new();
    reg.add_action(chat_action("zeta", "z"));
    reg.add_action(chat_action("alpha", "a"));
    reg.add_action(chat_action("mid", "m"));
    let all = reg.get_all_actions();
    let keys: Vec<&str> = all.iter().map(|a| a.trigger.get_inner().as_str()).collect();
    assert_eq!(keys, vec!["alpha", "mid", "zeta"]);
}

#[test]
fn registry_listing_puts_commands_before_redemptions() {
    let mut reg = ActionRegistry::new();
    reg.add_action(redeem_action("alpha-reward", "a"));
    reg.add_action(chat_action("zeta", "z"));
    reg.add_action(redeem_action("beta-reward", "b"));
    let all = reg.get_all_actions();
    assert_eq!(all.len(), 3);
    assert!(!all[0].trigger.is_redeem());
    assert_eq!(all[0].trigger.get_inner().as_str(), "zeta");
    assert!(all[1].trigger.is_redeem());
    assert_eq!(all[1].trigger.get_inner().as_str(), "alpha-reward");
    assert_eq!(all[2].trigger.get_inner().as_str(), "beta-reward");
}

#[test]
fn template_fixed_bounds_always_same() {
    for _ in 0..100 {
        assert_eq!(process_reply("{5..5}"), "5");
    }
}

#[test]
fn template_small_range_stays_in_range() {
    for _ in 0..200 {
        let out = process_reply("{1..3}");
        assert!(out == "1" || out == "2" || out == "3", "out of range: {out}");
    }
}

#[test]
fn template_copies_ordinary_text() {
    assert_eq!(process_reply("hello chat"), "hello chat");
    assert_eq!(process_reply("hi {1..1}!"), "hi 1!");
    assert_eq!(process_reply("{10..10}-{2..2}"), "10-2");
}

#[test]
fn template_leaves_invalid_placeholders() {
    assert_eq!(process_reply("{3..1}"), "{3..1}");
    assert_eq!(process_reply("{a..5}"), "{a..5}");
    assert_eq!(process_reply("{5..}"), "{5..}");
    assert_eq!(process_reply("{..5}"), "{..5}");
    assert_eq!(process_reply("{5}"), "{5}");
    assert_eq!(process_reply("{99999999999999999999..99999999999999999999}"), "{99999999999999999999..99999999999999999999}");
}

#[test]
fn chance_zero_always_second_branch() {
    for _ in 0..100 {
        let e = Exec::Chance(
            0,
            Box::new(Exec::ChatMsg(ArcStr::new("first".to_string()))),
            Box::new(Exec::ChatMsg(ArcStr::new("second".to_string()))),
        );
        let (_, eff) = e.exec("user", None);
        match eff {
            Some(Effect::SendMsg(s)) => assert_eq!(s, "second"),
            _ => panic!("expected a chat message"),
        }
    }
}

#[test]
fn chance_one_always_first_branch() {
    for _ in 0..100 {
        let e = Exec::Chance(
            PROB_ONE,
            Box::new(Exec::ChatMsg(ArcStr::new("first".to_string()))),
            Box::new(Exec::ChatMsg(ArcStr::new("second".to_string()))),
        );
        let (_, eff) = e.exec("user", None);
        match eff {
            Some(Effect::SendMsg(s)) => assert_eq!(s, "first"),
            _ => panic!("expected a chat message"),
        }
    }
}

#[test]
fn moderation_targets_resolve() {
    let e = Exec::Timeout(ExecTarget::User, 60);
    let (_, eff) = e.exec("alice", None);
    match eff {
        Some(Effect::TimeoutUser(u, d)) => {
            assert_eq!(u, "alice");
            assert_eq!(d, 60);
        },
        _ => panic!("expected a timeout"),
    }
    let e = Exec::Ban(ExecTarget::Other);
    let (_, eff) = e.exec("alice", Some("bob"));
    match eff {
        Some(Effect::BanUser(u)) => assert_eq!(u, "bob"),
        _ => panic!("expected a ban"),
    }
    let e = Exec::Ban(ExecTarget::Other);
    let (_, eff) = e.exec("alice", None);
    assert!(eff.is_none());
    let e = Exec::Timeout(ExecTarget::Nobody, 60);
    let (_, eff) = e.exec("alice", None);
    assert!(eff.is_none());
}

#[test]
fn end_to_end_one_message_per_window() {
    let mut reg = ActionRegistry::new();
    let mut chatters = ActiveChatters::new();
    reg.add_action(chat_action("greet", "hi {1..1}"));
    let first = handle_msg(&mut reg, &mut chatters, "alice", "!greet", 6000, 6);
    match first {
        Some(Effect::SendMsg(s)) => assert_eq!(s, "hi 1"),
        _ => panic!("expected exactly one outbound message"),
    }
    let second = handle_msg(&mut reg, &mut chatters, "bob", "!greet", 8000, 8);
    assert!(second.is_none(), "second attempt within the window must stay silent");
    let third = handle_msg(&mut reg, &mut chatters, "carol", "!GREET", 12000, 12);
    match third {
        Some(Effect::SendMsg(s)) => assert_eq!(s, "hi 1"),
        _ => panic!("expected the window to open again"),
    }
}

#[test]
fn handle_msg_ignores_non_commands() {
    let mut reg = ActionRegistry::new();
    let mut chatters = ActiveChatters::new();
    reg.add_action(chat_action("greet", "hi"));
    assert!(handle_msg(&mut reg, &mut chatters, "alice", "greet", 6000, 6).is_none());
    assert!(handle_msg(&mut reg, &mut chatters, "alice", "", 6000, 6).is_none());
    assert!(handle_msg(&mut reg, &mut chatters, "alice", "!other", 6000, 6).is_none());
}

#[test]
fn handle_msg_bans_spam_without_cooldown() {
    let mut reg = ActionRegistry::new();
    let mut chatters = ActiveChatters::new();
    for _ in 0..3 {
        let r = handle_msg(
            &mut reg,
            &mut chatters,
            "spammer",
            "get cheap viewers at example dot com",
            6000,
            6,
        );
        match r {
            Some(Effect::BanUser(u)) => assert_eq!(u, "spammer"),
            _ => panic!("expected a ban"),
        }
    }
}

#[test]
fn spam_needs_both_marks() {
    assert!(is_spam("cheap viewers at example.com"));
    assert!(is_spam("cheap viewers example dot com"));
    assert!(!is_spam("cheap viewers here"));
    assert!(!is_spam("nice stream. bye"));
}

#[test]
fn parse_command_splits_token_and_prompt() {
    let (cmd, prompt) = parse_command("!Greet bob and carl").expect("a command");
    assert_eq!(cmd, "greet");
    assert_eq!(prompt.as_deref(), Some("bob and carl"));
    let (cmd, prompt) = parse_command("!so").expect("a command");
    assert_eq!(cmd, "so");
    assert!(prompt.is_none());
    let (_, prompt) = parse_command("!so ").expect("a command");
    assert!(prompt.is_none());
    assert!(parse_command("hello").is_none());
    assert!(parse_command("").is_none());
}

#[test]
fn redemption_requires_redeem_tag() {
    let mut reg = ActionRegistry::new();
    reg.add_action(chat_action("reward-1", "never"));
    assert!(exec_redeem(&mut reg, "alice", "reward-1", "", 6000).is_none());
    let mut reg = ActionRegistry::new();
    reg.add_action(redeem_action("reward-1", "redeemed {2..2}"));
    match exec_redeem(&mut reg, "alice", "reward-1", "", 6000) {
        Some(Effect::SendMsg(s)) => assert_eq!(s, "redeemed 2"),
        _ => panic!("expected a chat message"),
    }
    assert!(exec_redeem(&mut reg, "bob", "reward-1", "", 8000).is_none());
}

#[test]
fn eventsub_welcome_subscribes_and_keepalive_marks() {
    let mut state = WebsocketState::new();
    let mut reg = ActionRegistry::new();
    let msg = EventsubMessage::Welcome { session_id: "sess-9".to_string() };
    match handle_eventsub_message(&mut state, &mut reg, msg, 500) {
        EventsubAction::Subscribe { session_id } => assert_eq!(session_id, "sess-9"),
        _ => panic!("expected a subscription request"),
    }
    assert_eq!(state.websocket_id.as_deref(), Some("sess-9"));
    assert_eq!(state.websocket_last_event, Some(500));
    match handle_eventsub_message(&mut state, &mut reg, EventsubMessage::Keepalive, 900) {
        EventsubAction::Nothing => {},
        _ => panic!("keepalive does nothing"),
    }
    assert_eq!(state.websocket_last_event, Some(900));
}

#[test]
fn eventsub_notification_runs_redemption() {
    let mut state = WebsocketState::new();
    let mut reg = ActionRegistry::new();
    reg.add_action(redeem_action("rw", "hi {7..7}"));
    let msg = EventsubMessage::RedemptionNotification {
        redeemer: "alice".to_string(),
        reward_id: "rw".to_string(),
        prompt: "".to_string(),
    };
    match handle_eventsub_message(&mut state, &mut reg, msg, 6000) {
        EventsubAction::Perform(Effect::SendMsg(s)) => assert_eq!(s, "hi 7"),
        _ => panic!("expected the redemption to run"),
    }
}

#[test]
fn chatters_prune_and_pick() {
    let mut chatters = ActiveChatters::new();
    chatters.register_active_chatter("alice".to_string(), 100);
    chatters.register_active_chatter("bob".to_string(), 500);
    assert!(chatters.is_chatter_active("bob", 550));
    assert!(!chatters.is_chatter_active("alice", 550));
    let picked = chatters.get_random_chatter(550).expect("bob is active");
    assert_eq!(picked, "bob");
    assert!(chatters.get_random_chatter(10000).is_none());
}
