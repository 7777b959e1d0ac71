use nofunbot::action::Action;
use nofunbot::bot::{CommandValidity, Config, Event, NoFunBot};
use nofunbot::users::UserManager;

const T0: i64 = 1_700_000_000_000;
const MIN: i64 = 60_000;

fn bot() -> NoFunBot {
    NoFunBot::new(Config {
        nick: "NoFunBot".to_string(),
        server: "irc.example.net".to_string(),
        port: 6667,
        nspass: "letmein".to_string(),
    })
}

fn bot_with_mod() -> NoFunBot {
    let mut b = bot();
    b.handle(&Event::Join("#gobotmods".to_string(), "admin".to_string()), T0);
    b.handle(&Event::Join("#r/globaloffensive".to_string(), "viewer".to_string()), T0);
    b
}

fn say(b: &mut NoFunBot, nick: &str, text: &str, now: i64) -> Vec<Action> {
    b.handle(
        &Event::Message(nick.to_string(), format!("{}.example.org", nick), "#r/globaloffensive".to_string(), text.to_string()),
        now,
    )
}

fn infractions(b: &NoFunBot, nick: &str) -> u32 {
    let i = b.usermgr.find(nick).unwrap();
    b.usermgr.states[i].infractions
}

fn restrictions(acts: &[Action]) -> Vec<(String, bool)> {
    acts.iter()
        .filter_map(|a| match a {
            Action::SetRestriction(_, m, on) => Some((m.clone(), *on)),
            _ => None,
        })
        .collect()
}

#[test]
fn third_infraction_bans_and_resets() {
    let mut b = bot_with_mod();
    let acts = say(&mut b, "troll", "doge", T0 + 10_000);
    assert_eq!(infractions(&b, "troll"), 1);
    match &acts[0] {
        Action::PrivateMessage(to, text) => {
            assert_eq!(to, "troll");
            assert_eq!(
                text,
                "This isn't chat for that. Please read the channel rules: http://goo.gl/4T6EZR . After 2 more infractions, you will be banned for 5m!"
            );
        }
        _ => panic!("expected a warning"),
    }
    match &acts[1] {
        Action::ChannelMessage(c, text) => {
            assert_eq!(c, "#gobotmods");
            assert_eq!(text, "Warning troll: This isn't chat for that. 1 infractions.");
        }
        _ => panic!("expected a control log"),
    }
    let acts = say(&mut b, "troll", "doge", T0 + 20_000);
    assert_eq!(infractions(&b, "troll"), 2);
    match &acts[0] {
        Action::PrivateMessage(_, text) => assert!(text.contains("After 1 more infraction, you")),
        _ => panic!("expected a warning"),
    }
    let acts = say(&mut b, "troll", "doge", T0 + 30_000);
    assert_eq!(infractions(&b, "troll"), 0);
    assert_eq!(restrictions(&acts), vec![("*!*@troll.example.org".to_string(), true)]);
    assert_eq!(b.banmgr.bans().len(), 1);
}

#[test]
fn ok_message_records_last_message() {
    let mut b = bot_with_mod();
    let acts = say(&mut b, "viewer", "hello there, how is everyone doing today", T0 + 10_000);
    assert!(acts.is_empty());
    let i = b.usermgr.find("viewer").unwrap();
    assert_eq!(b.usermgr.states[i].last_message, "hello there, how is everyone doing today");
    assert_eq!(b.usermgr.states[i].last_message_time, T0 + 10_000);
    assert_eq!(b.usermgr.states[i].infractions, 0);
}

#[test]
fn echo_through_the_bot() {
    let mut b = bot_with_mod();
    say(&mut b, "viewer", "what a great round that was", T0 + 10_000);
    let acts = say(&mut b, "viewer", "what a great round that was", T0 + 11_000);
    match &acts[0] {
        Action::PrivateMessage(_, text) => assert!(text.starts_with("Is there an echo in here?")),
        _ => panic!("expected a warning"),
    }
}

#[test]
fn forgive_resets_infractions() {
    let mut b = bot_with_mod();
    say(&mut b, "troll", "doge", T0 + 10_000);
    say(&mut b, "troll", "doge", T0 + 20_000);
    assert_eq!(infractions(&b, "troll"), 2);
    let acts = b.handle(
        &Event::Message("admin".to_string(), "h".to_string(), "#gobotmods".to_string(), "NoFunBot: forgive troll".to_string()),
        T0 + 30_000,
    );
    assert_eq!(infractions(&b, "troll"), 0);
    match &acts[0] {
        Action::ChannelMessage(c, text) => {
            assert_eq!(c, "#gobotmods");
            assert_eq!(text, "admin forgave troll...");
        }
        _ => panic!("expected a control log"),
    }
}

#[test]
fn forgive_unknown_user_creates_clean_state() {
    let mut um = UserManager::new();
    um.forgive("nobody", T0);
    let i = um.find("nobody").unwrap();
    assert_eq!(um.states[i].infractions, 0);
}

#[test]
fn ban_length_rejects_non_numbers() {
    let mut b = bot_with_mod();
    let acts = b.handle(
        &Event::Message("admin".to_string(), "h".to_string(), "#gobotmods".to_string(), "NoFunBot: ban_length abc".to_string()),
        T0,
    );
    assert_eq!(b.banmgr.get_ban_length(), 5);
    assert_eq!(acts.len(), 1);
    match &acts[0] {
        Action::PrivateMessage(to, text) => {
            assert_eq!(to, "admin");
            assert_eq!(text, "Invalid duration.");
        }
        _ => panic!("expected a rejection"),
    }
}

#[test]
fn ban_length_ten_applies_to_new_bans() {
    let mut b = bot_with_mod();
    let acts = b.handle(
        &Event::Message("admin".to_string(), "h".to_string(), "#gobotmods".to_string(), "NoFunBot: ban_length 10".to_string()),
        T0,
    );
    assert_eq!(b.banmgr.get_ban_length(), 10);
    match &acts[0] {
        Action::ChannelMessage(_, text) => assert_eq!(text, "admin set ban length to 10m"),
        _ => panic!("expected a control log"),
    }
    b.banmgr.ban("#r/globaloffensive", "late.example.org", T0 + MIN);
    assert!(b.banmgr.bans()[0].is_active(T0 + 11 * MIN));
    assert!(!b.banmgr.bans()[0].is_active(T0 + 11 * MIN + 1));
}

#[test]
fn ban_length_command_validity() {
    let mut b = bot_with_mod();
    let args: Vec<Vec<char>> = vec!["ban_length".chars().collect(), "-5".chars().collect()];
    let (v, _) = b.handle_command("admin", "#gobotmods", &args, T0);
    assert_eq!(v, CommandValidity::CommandNotValid);
    let args: Vec<Vec<char>> = vec!["ban_length".chars().collect(), "7".chars().collect()];
    let (v, _) = b.handle_command("admin", "#gobotmods", &args, T0);
    assert_eq!(v, CommandValidity::CommandValid);
    assert_eq!(b.banmgr.get_ban_length(), 7);
}

#[test]
fn unknown_command_is_rejected() {
    let mut b = bot_with_mod();
    let acts = b.handle(
        &Event::Message("admin".to_string(), "h".to_string(), "#gobotmods".to_string(), "NoFunBot: dance".to_string()),
        T0,
    );
    match &acts[0] {
        Action::PrivateMessage(to, text) => {
            assert_eq!(to, "admin");
            assert_eq!(text, "Unrecognized command, I'm a fish");
        }
        _ => panic!("expected a rejection"),
    }
}

#[test]
fn unauthorized_sender_is_refused() {
    let mut b = bot_with_mod();
    let acts = b.handle(
        &Event::Message("viewer".to_string(), "h".to_string(), "#r/globaloffensive".to_string(), "NoFunBot: ban_length 1".to_string()),
        T0,
    );
    assert_eq!(acts.len(), 1);
    match &acts[0] {
        Action::PrivateMessage(to, text) => {
            assert_eq!(to, "viewer");
            assert_eq!(text, "You are not authorized to give me orders.");
        }
        _ => panic!("expected a refusal"),
    }
    assert_eq!(b.banmgr.get_ban_length(), 5);
    assert!(b.usermgr.find("viewer").is_none());
}

#[test]
fn stopword_fires_once() {
    let mut b = bot_with_mod();
    let acts = b.handle(
        &Event::Message("admin".to_string(), "h".to_string(), "#r/globaloffensive".to_string(), "NoFunBot: stopword  magic words".to_string()),
        T0,
    );
    match &acts[0] {
        Action::ChannelMessage(c, text) => {
            assert_eq!(c, "#r/globaloffensive");
            assert_eq!(text, "Okay, admin, next person to say  magic words gets kickbanned!");
        }
        _ => panic!("expected an announcement"),
    }
    assert_eq!(b.chanmgr.find("#r/globaloffensive").unwrap().get_stopword(), Some(" magic words"));
    let acts = say(&mut b, "viewer", "I know the  magic words today", T0 + 10_000);
    assert_eq!(restrictions(&acts), vec![("*!*@viewer.example.org".to_string(), true)]);
    match &acts[0] {
        Action::ChannelMessage(c, text) => {
            assert_eq!(c, "#gobotmods");
            assert_eq!(text, "Banned viewer for stopword violation");
        }
        _ => panic!("expected a control log"),
    }
    assert_eq!(b.chanmgr.find("#r/globaloffensive").unwrap().get_stopword(), None);
    let acts = say(&mut b, "viewer", "I know the  magic words today", T0 + 20_000);
    assert!(restrictions(&acts).is_empty());
    assert_eq!(b.banmgr.bans().len(), 1);
}

#[test]
fn clear_stopword_command() {
    let mut b = bot_with_mod();
    b.handle(
        &Event::Message("admin".to_string(), "h".to_string(), "#r/globaloffensive".to_string(), "NoFunBot: stopword trap".to_string()),
        T0,
    );
    let acts = b.handle(
        &Event::Message("admin".to_string(), "h".to_string(), "#r/globaloffensive".to_string(), "NoFunBot: clear_stopword".to_string()),
        T0,
    );
    match &acts[0] {
        Action::ChannelMessage(_, text) => assert_eq!(text, "Stopword cleared."),
        _ => panic!("expected a confirmation"),
    }
    assert_eq!(b.chanmgr.find("#r/globaloffensive").unwrap().get_stopword(), None);
}

#[test]
fn known_bots_and_private_messages_are_ignored() {
    let mut b = bot_with_mod();
    let acts = say(&mut b, "goBot", "doge", T0);
    assert!(acts.is_empty());
    let acts = b.handle(
        &Event::Message("viewer".to_string(), "h".to_string(), "NoFunBot".to_string(), "doge".to_string()),
        T0,
    );
    assert!(acts.is_empty());
    assert!(b.usermgr.find("viewer").is_none());
}

#[test]
fn events_sweep_expired_bans() {
    let mut b = bot_with_mod();
    b.banmgr.ban("#r/globaloffensive", "x", T0);
    assert!(b.handle(&Event::Connected, T0 + 6 * MIN).is_empty());
    assert_eq!(b.banmgr.bans().len(), 1);
    let acts = b.handle(&Event::Welcome, T0 + 6 * MIN);
    assert_eq!(restrictions(&acts), vec![("*!*@x".to_string(), false)]);
    assert!(b.banmgr.bans().is_empty());
    match &acts[1] {
        Action::PrivateMessage(to, text) => {
            assert_eq!(to, "Q@CServe.quakenet.org");
            assert_eq!(text, "AUTH NoFunBot letmein");
        }
        _ => panic!("expected the login"),
    }
}

#[test]
fn names_list_and_own_join() {
    let mut b = bot();
    b.handle(&Event::Names("#gobotmods".to_string(), "@boss +voiced plain".to_string()), T0);
    assert!(b.chanmgr.nick_is_mod("boss"));
    assert!(b.chanmgr.nick_is_mod("voiced"));
    assert!(b.chanmgr.nick_is_mod("plain"));
    b.handle(&Event::Join("#gobotmods".to_string(), "NoFunBot".to_string()), T0);
    assert!(b.chanmgr.find("#gobotmods").unwrap().is_joined());
    assert!(!b.chanmgr.nick_is_mod("NoFunBot"));
    b.handle(&Event::Part("#gobotmods".to_string(), "boss".to_string()), T0);
    assert!(!b.chanmgr.nick_is_mod("boss"));
}

#[test]
fn login_notice_joins_channels() {
    let mut b = bot();
    let acts = b.handle(
        &Event::Message("Q".to_string(), "CServe.quakenet.org".to_string(), "NoFunBot".to_string(), "You are now logged in as NoFunBot.".to_string()),
        T0,
    );
    assert_eq!(acts.len(), 2);
    assert!(matches!(&acts[0], Action::JoinChannel(c) if c == "#r/globaloffensive"));
}

#[test]
fn handle_line_sweeps_expired_bans() {
    let mut b = bot_with_mod();
    b.banmgr.ban("#r/globaloffensive", "old", T0);
    let acts = b.handle_line(&Event::Other, T0 + 60 * MIN);
    assert_eq!(restrictions(&acts), vec![("*!*@old".to_string(), false)]);
    assert!(b.banmgr.bans().is_empty());
}
