use nofunbot::action::Action;
use nofunbot::bans::{Ban, BanManager};
use nofunbot::ticket::Ticket;

const T0: i64 = 1_700_000_000_000;
const MIN: i64 = 60_000;

#[test]
fn default_ban_length_is_five_minutes() {
    assert_eq!(BanManager::new().get_ban_length(), 5);
}

#[test]
fn ban_sets_restriction_on_host_mask() {
    let mut mgr = BanManager::new();
    let act = mgr.ban("#chan", "example.org", T0);
    match act {
        Action::SetRestriction(c, m, on) => {
            assert_eq!(c, "#chan");
            assert_eq!(m, "*!*@example.org");
            assert!(on);
        }
        _ => panic!("expected a restriction"),
    }
    assert_eq!(mgr.bans().len(), 1);
    assert!(mgr.bans()[0].is_active(T0 + 5 * MIN));
    assert!(!mgr.bans()[0].is_active(T0 + 5 * MIN + 1));
}

#[test]
fn sweep_removes_exactly_expired() {
    let mut mgr = BanManager::new();
    mgr.ban("#a", "one", T0);
    mgr.set_ban_length(10);
    mgr.ban("#a", "two", T0);
    mgr.set_ban_length(1);
    mgr.ban("#b", "three", T0);
    // At T0 + 5 min: "one" expires exactly now (kept), "three" expired.
    let acts = mgr.update(T0 + 5 * MIN);
    assert_eq!(acts.len(), 1);
    match &acts[0] {
        Action::SetRestriction(c, m, on) => {
            assert_eq!(c, "#b");
            assert_eq!(m, "*!*@three");
            assert!(!on);
        }
        _ => panic!("expected a lift"),
    }
    assert_eq!(mgr.bans().len(), 2);
    // A second sweep at the same time does nothing.
    assert!(mgr.update(T0 + 5 * MIN).is_empty());
    assert_eq!(mgr.bans().len(), 2);
    // Later, both remaining bans expire, in order.
    let acts = mgr.update(T0 + 11 * MIN);
    assert_eq!(acts.len(), 2);
    match &acts[0] {
        Action::SetRestriction(_, m, _) => assert_eq!(m, "*!*@one"),
        _ => panic!("expected a lift"),
    }
    assert!(mgr.bans().is_empty());
}

#[test]
fn second_ban_stacks() {
    let mut mgr = BanManager::new();
    mgr.ban("#a", "h", T0);
    mgr.ban("#a", "h", T0 + MIN);
    assert_eq!(mgr.bans().len(), 2);
}

#[test]
fn unban_lifts() {
    let mut mgr = BanManager::new();
    mgr.ban("#a", "h1", T0);
    mgr.ban("#a", "h2", T0);
    match mgr.unban(0) {
        Action::SetRestriction(_, m, on) => {
            assert_eq!(m, "*!*@h1");
            assert!(!on);
        }
        _ => panic!("expected a lift"),
    }
    assert_eq!(mgr.bans().len(), 1);
}

#[test]
fn usermode_follows_expiry() {
    let ban = Ban::new("#a", "h", 2, T0);
    assert!(matches!(ban.update_usermode(T0 + 2 * MIN), Action::SetRestriction(_, _, true)));
    assert!(matches!(ban.update_usermode(T0 + 2 * MIN + 1), Action::SetRestriction(_, _, false)));
}

#[test]
fn ticket_becomes_ban() {
    let t = Ticket::new("#a".to_string(), "host.net".to_string(), "bad".to_string());
    assert_eq!(t.info_msg(), "bad");
    let ban = t.to_ban(3, T0);
    assert!(ban.is_active(T0 + 3 * MIN));
    assert!(!ban.is_active(T0 + 3 * MIN + 1));
    match ban.lift() {
        Action::SetRestriction(c, m, on) => {
            assert_eq!(c, "#a");
            assert_eq!(m, "*!*@host.net");
            assert!(!on);
        }
        _ => panic!("expected a lift"),
    }
}
