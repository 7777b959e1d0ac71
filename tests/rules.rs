use nofunbot::rules::{check, complexity_test, exceeds_ratio, is_blocklisted, is_single_clause, judge, judge_early, Reason, RulesCheckResult};
use nofunbot::users::UserState;

const T0: i64 = 1_700_000_000_000;

fn is_infraction(r: RulesCheckResult, reason: Reason) -> bool {
    matches!(r, RulesCheckResult::Infraction(x) if x == reason)
}

fn commit(st: &mut UserState, msg: &str, now: i64) {
    st.last_message = msg.to_string();
    st.last_message_time = now;
}

#[test]
fn doge_is_blocked() {
    let mut st = UserState::new(T0);
    let r = check("doge", &mut st, T0 + 10_000);
    assert!(is_infraction(r, Reason::Blocklisted));
    assert_eq!(Reason::Blocklisted.text(), "This isn't chat for that.");
}

#[test]
fn blocklist_is_case_insensitive_where_marked() {
    assert!(is_blocklisted("DoGe"));
    assert!(is_blocklisted("Kappa"));
    assert!(is_blocklisted("look at my lenny face"));
    assert!(is_blocklisted("pls no spammerino"));
    assert!(!is_blocklisted("bibleThump"));
    assert!(!is_blocklisted("doge coin"));
    assert!(!is_blocklisted("dog"));
}

#[test]
fn well_formed_first_message_is_ok() {
    let mut st = UserState::new(T0);
    let r = check("hello there, how is everyone doing today", &mut st, T0);
    assert!(matches!(r, RulesCheckResult::RulesOK));
    assert_eq!(st.simple_msg_count, 0);
}

#[test]
fn echo_within_two_seconds() {
    let mut st = UserState::new(T0);
    let msg = "anyone watching the match";
    assert!(matches!(check(msg, &mut st, T0), RulesCheckResult::RulesOK));
    commit(&mut st, msg, T0);
    let r = check(msg, &mut st, T0 + 1_000);
    assert!(is_infraction(r, Reason::Echo));
    assert_eq!(Reason::Echo.text(), "Is there an echo in here?");
}

#[test]
fn echo_after_two_seconds_is_ok() {
    let mut st = UserState::new(T0);
    let msg = "anyone watching the match";
    commit(&mut st, msg, T0);
    assert!(matches!(check(msg, &mut st, T0 + 2_000), RulesCheckResult::RulesOK));
}

#[test]
fn echo_needs_more_than_six_characters() {
    let mut st = UserState::new(T0);
    commit(&mut st, "hey you", T0);
    let r = check("hey you", &mut st, T0 + 500);
    assert!(is_infraction(r, Reason::Echo));
    commit(&mut st, "heyyou", T0);
    let r = check("heyyou", &mut st, T0 + 500);
    assert!(!is_infraction(r, Reason::Echo));
}

#[test]
fn three_quick_single_words() {
    let mut st = UserState::new(T0);
    assert!(matches!(check("hi", &mut st, T0 + 1_000), RulesCheckResult::RulesOK));
    assert_eq!(st.simple_msg_count, 1);
    commit(&mut st, "hi", T0 + 1_000);
    assert!(matches!(check("yo", &mut st, T0 + 2_000), RulesCheckResult::RulesOK));
    assert_eq!(st.simple_msg_count, 2);
    commit(&mut st, "yo", T0 + 2_000);
    let r = check("sup", &mut st, T0 + 3_000);
    assert!(is_infraction(r, Reason::ShortMessages));
    assert_eq!(st.simple_msg_count, 0);
    assert_eq!(Reason::ShortMessages.text(), "Please use longer sentences");
}

#[test]
fn slow_single_words_reset_the_count() {
    let mut st = UserState::new(T0);
    check("hi", &mut st, T0);
    commit(&mut st, "hi", T0);
    assert_eq!(st.simple_msg_count, 1);
    check("yo", &mut st, T0 + 4_000);
    assert_eq!(st.simple_msg_count, 0);
}

#[test]
fn a_sentence_resets_the_count() {
    let mut st = UserState::new(T0);
    check("hi", &mut st, T0);
    assert_eq!(st.simple_msg_count, 1);
    check("well, that was a close round", &mut st, T0 + 500);
    assert_eq!(st.simple_msg_count, 0);
}

#[test]
fn surrounding_spaces_do_not_make_a_sentence() {
    assert!(is_single_clause("  word  "));
    assert!(!is_single_clause("two words"));
    assert!(is_single_clause(""));
}

#[test]
fn repeated_character_is_spam() {
    let msg = "a".repeat(200);
    assert!(complexity_test(&msg));
    let mut st = UserState::new(T0);
    let r = check(&msg, &mut st, T0 + 10_000);
    assert!(is_infraction(r, Reason::Spam));
    assert_eq!(Reason::Spam.text(), "Stop spamming.");
}

#[test]
fn ten_bytes_never_judged_for_complexity() {
    assert!(!complexity_test("aaaaaaaaaa"));
    assert!(!complexity_test("abababab!!"));
    assert!(!complexity_test("aaaaaaaaaaaaaaa"));
}

#[test]
fn natural_text_passes_complexity() {
    assert!(!complexity_test("hello there, how is everyone doing today"));
}

#[test]
fn ratio_formula() {
    // 200 bytes: the threshold is 2 + 0.015 * 200 = 5.
    assert!(exceeds_ratio(200, 39));
    assert!(!exceeds_ratio(200, 40));
    assert!(!exceeds_ratio(200, 0));
    // 16 bytes: the threshold is 2.24.
    assert!(exceeds_ratio(16, 7));
    assert!(!exceeds_ratio(16, 8));
}

#[test]
fn single_word_after_three_and_a_half_seconds_resets() {
    let mut st = UserState::new(T0);
    check("hi", &mut st, T0 + 1_000);
    assert_eq!(st.simple_msg_count, 1);
    commit(&mut st, "hi", T0 + 1_000);
    check("yo", &mut st, T0 + 4_500);
    assert_eq!(st.simple_msg_count, 0);
}

#[test]
fn single_word_at_exactly_three_seconds_counts() {
    let mut st = UserState::new(T0);
    check("hi", &mut st, T0 + 3_000);
    assert_eq!(st.simple_msg_count, 1);
    commit(&mut st, "hi", T0 + 3_000);
    check("yo", &mut st, T0 + 6_001);
    assert_eq!(st.simple_msg_count, 0);
}

#[test]
fn judge_on_given_answers() {
    let mut st = UserState::new(T0);
    assert!(is_infraction(judge("doge", &mut st, T0 + 10_000, true, true, false), Reason::Blocklisted));
    assert_eq!(st.simple_msg_count, 0);
    let spam = "a".repeat(200);
    assert!(is_infraction(judge(&spam, &mut st, T0 + 10_000, false, true, true), Reason::Spam));
    assert_eq!(st.simple_msg_count, 0);
    assert!(matches!(judge("a fine sentence", &mut st, T0 + 10_000, false, false, false), RulesCheckResult::RulesOK));
    commit(&mut st, "a fine sentence", T0 + 10_000);
    assert!(is_infraction(judge("a fine sentence", &mut st, T0 + 11_999, false, false, false), Reason::Echo));
    assert!(judge_early("a fine sentence", &mut st, T0 + 12_000, false, false).is_none());
}
