use nofunbot::action::Action;
use nofunbot::channels::{ChannelManager, ChannelType, IRCChannel};

#[test]
fn nick_tracking() {
    let test_nick = "fredbloggs";

    let mut chan = IRCChannel::new("#test", ChannelType::Moderate);
    assert!(!chan.contains_nick(test_nick));

    chan.handle_join(test_nick);
    assert!(chan.contains_nick(test_nick));

    chan.handle_part(test_nick);
    assert!(!chan.contains_nick(test_nick));
}

/// Multiple joins should not stack
#[test]
fn duplicate_nicks() {
    let test_nick = "fredbloggs";

    let mut chan = IRCChannel::new("#test", ChannelType::Moderate);

    for _ in 0..10 {
        chan.handle_join(test_nick);
    }
    assert!(chan.contains_nick(test_nick));

    chan.handle_part(test_nick);
    assert!(!chan.contains_nick(test_nick));
}

#[test]
fn part_without_join_is_reported() {
    let mut chan = IRCChannel::new("#test", ChannelType::Moderate);
    assert!(!chan.handle_part("ghost"));
    chan.handle_join("ghost");
    assert!(chan.handle_part("ghost"));
}

#[test]
fn stopword_round_trip() {
    let mut chan = IRCChannel::new("#test", ChannelType::Moderate);
    assert_eq!(chan.get_stopword(), None);
    chan.set_stopword(Some("banana".to_string()));
    assert_eq!(chan.get_stopword(), Some("banana"));
    chan.set_stopword(None);
    assert_eq!(chan.get_stopword(), None);
}

#[test]
fn initial_channels_and_roles() {
    let mgr = ChannelManager::new();
    let moderated = mgr.find("#r/globaloffensive").unwrap();
    assert_eq!(moderated.chantype(), ChannelType::Moderate);
    let control = mgr.find("#gobotmods").unwrap();
    assert_eq!(control.chantype(), ChannelType::Control);
    assert!(mgr.find("#elsewhere").is_none());
    assert_eq!(mgr.find_mut("#gobotmods"), Some(1));
}

#[test]
fn moderators_are_control_channel_members() {
    let mut mgr = ChannelManager::new();
    assert!(mgr.handle_join("#r/globaloffensive", "viewer"));
    assert!(mgr.handle_join("#gobotmods", "admin"));
    assert!(!mgr.handle_join("#unknown", "admin"));
    assert!(mgr.nick_is_mod("admin"));
    assert!(!mgr.nick_is_mod("viewer"));
    assert_eq!(mgr.handle_part("#gobotmods", "admin"), Some(true));
    assert!(!mgr.nick_is_mod("admin"));
    assert_eq!(mgr.handle_part("#gobotmods", "admin"), Some(false));
    assert_eq!(mgr.handle_part("#unknown", "admin"), None);
}

#[test]
fn control_log_goes_to_control_channels_only() {
    let mut mgr = ChannelManager::new();
    mgr.add_channel("#staff", ChannelType::Control);
    let acts = mgr.log_to_control_channels("hello mods");
    assert_eq!(acts.len(), 2);
    match &acts[0] {
        Action::ChannelMessage(c, t) => {
            assert_eq!(c, "#gobotmods");
            assert_eq!(t, "hello mods");
        }
        _ => panic!("expected a channel message"),
    }
    match &acts[1] {
        Action::ChannelMessage(c, _) => assert_eq!(c, "#staff"),
        _ => panic!("expected a channel message"),
    }
}

#[test]
fn join_requests_skip_joined_channels() {
    let mut mgr = ChannelManager::new();
    assert_eq!(mgr.join_channels().len(), 2);
    assert!(mgr.join_ok("#gobotmods"));
    let acts = mgr.join_channels();
    assert_eq!(acts.len(), 1);
    match &acts[0] {
        Action::JoinChannel(c) => assert_eq!(c, "#r/globaloffensive"),
        _ => panic!("expected a join request"),
    }
}

#[test]
fn add_channel_replaces_same_name() {
    let mut mgr = ChannelManager::new_blank();
    mgr.add_channel("#a", ChannelType::Moderate);
    mgr.handle_join("#a", "bob");
    mgr.add_channel("#a", ChannelType::Control);
    let ch = mgr.find("#a").unwrap();
    assert_eq!(ch.chantype(), ChannelType::Control);
    assert!(!ch.contains_nick("bob"));
    assert_eq!(mgr.find_mut("#a"), Some(0));
}
