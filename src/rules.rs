//! The rule engine: decides whether one message breaks the channel's rules.
use vstd::prelude::*;
use vstd::utf8::encode_utf8;
use crate::text::{trim_spaces, trim_spaces_exec, chars_of, string_of};
use crate::users::{UserState, UserView, valid_time, MAX_SIMPLE_MESSAGES};

verus! {

/// Why a message was judged to break the rules.
#[derive(Clone, Copy, Debug, PartialEq, Eq, Structural)]
pub enum Reason {
    /// It matched one of the blocked phrases.
    Blocklisted,
    /// It was one of too many short messages in quick succession.
    ShortMessages,
    /// It repeated the user's previous message right away.
    Echo,
    /// It was so repetitive that it compressed too well.
    Spam,
}

/// The explanation shown to the user for each reason.
pub open spec fn reason_text(r: Reason) -> Seq<char> {
    match r {
        Reason::Blocklisted => "This isn't chat for that."@,
        Reason::ShortMessages => "Please use longer sentences"@,
        Reason::Echo => "Is there an echo in here?"@,
        Reason::Spam => "Stop spamming."@,
    }
}

impl Reason {
    /// The explanation shown to the user.
    pub fn text(&self) -> (r: &'static str)
        ensures
            r@ == reason_text(*self),
    {
        match self {
            Reason::Blocklisted => "This isn't chat for that.",
            Reason::ShortMessages => "Please use longer sentences",
            Reason::Echo => "Is there an echo in here?",
            Reason::Spam => "Stop spamming.",
        }
    }
}

/// The rule engine's verdict on one message.
#[derive(Clone, Copy, Debug)]
pub enum RulesCheckResult {
    Infraction(Reason),
    /// An infraction that points at the span `[start, end)` of the message.
    Ticket((usize, usize), Reason),
    RulesOK,
}

/// What `regex::Regex::new(pattern)` followed by `is_match(haystack)` gives:
/// `None` where the pattern does not compile.
pub uninterp spec fn regex_outcome(pattern: Seq<char>, haystack: Seq<char>) -> Option<bool>;

/// Relies on `regex::Regex::new` to compile `pattern` and on
/// `Regex::is_match` to tell whether it matches anywhere in `haystack`; the
/// outcome depends on the two strings alone.
#[verifier::external_body]
fn regex_is_match(pattern: &str, haystack: &str) -> (r: Option<bool>)
    ensures
        r == regex_outcome(pattern@, haystack@),
{
    match regex::Regex::new(pattern) {
        Ok(re) => Some(re.is_match(haystack)),
        Err(_) => None,
    }
}

/// What `miniz_oxide::deflate::compress_to_vec(input, level)` returns.
pub uninterp spec fn deflate_of(input: Seq<u8>, level: u8) -> Seq<u8>;

/// Relies on `miniz_oxide::deflate::compress_to_vec`: the raw deflate stream
/// of `input` at compression `level` (0 to 10), a function of the two alone.
#[verifier::external_body]
fn deflate(input: &[u8], level: u8) -> (r: Vec<u8>)
    requires
        level <= 10,
    ensures
        r@ == deflate_of(input@, level),
{
    miniz_oxide::deflate::compress_to_vec(input, level)
}

/// Number of blocked phrases.
pub const BLOCKLIST_LEN: usize = 10;

/// The blocked phrases, as case-insensitive patterns where marked `(?i)`.
pub open spec fn blocklist(i: int) -> Seq<char> {
    if i == 0 { r"(?i)^k[a@e3][e3p]p[ao@]$"@ }
    else if i == 1 { r"(?i)^doge$"@ }
    else if i == 2 { r"(?i)lenny[ ]?face"@ }
    else if i == 3 { r"BibleThump"@ }
    else if i == 4 { r"blis donate"@ }
    else if i == 5 { r"(?i)or riot"@ }
    else if i == 6 { r"(?i)donger"@ }
    else if i == 7 { r"(?i)ez skins ez l[iy]fe"@ }
    else if i == 8 { r"(?i)clutch or kick"@ }
    else { r"pl[sz] no .*erino"@ }
}

fn blocklist_pattern(i: usize) -> (r: &'static str)
    requires
        i < BLOCKLIST_LEN,
    ensures
        r@ == blocklist(i as int),
{
    if i == 0 { r"(?i)^k[a@e3][e3p]p[ao@]$" }
    else if i == 1 { r"(?i)^doge$" }
    else if i == 2 { r"(?i)lenny[ ]?face" }
    else if i == 3 { r"BibleThump" }
    else if i == 4 { r"blis donate" }
    else if i == 5 { r"(?i)or riot" }
    else if i == 6 { r"(?i)donger" }
    else if i == 7 { r"(?i)ez skins ez l[iy]fe" }
    else if i == 8 { r"(?i)clutch or kick" }
    else { r"pl[sz] no .*erino" }
}

/// Whitespace followed by anything: a message without it is a single word.
pub open spec fn clause_break() -> Seq<char> {
    r"\s+[^$]"@
}

/// The message matches a blocked phrase.
pub open spec fn blocklisted(msg: Seq<char>) -> bool {
    exists|i: int| 0 <= i < BLOCKLIST_LEN && regex_outcome(blocklist(i), msg) == Some(true)
}

/// The message, trimmed of spaces, is a single word.
pub open spec fn single_clause(msg: Seq<char>) -> bool {
    regex_outcome(clause_break(), trim_spaces(msg)) != Some(true)
}

/// Longest gap, in milliseconds, after which a single word still counts as
/// hasty.
pub const SHORT_WINDOW_MS: i64 = 3000;

/// A repeat sent within this many milliseconds is an echo.
pub const ECHO_WINDOW_MS: i64 = 2000;

/// Compression level handed to the compressor.
pub const DEFLATE_LEVEL: u8 = 6;

/// Shortest message, in bytes, whose compressibility is judged.
pub const MIN_SPAM_LEN: usize = 16;

/// `n / c > 2 + 0.015 * n`: the text compressed from `n` to `c` bytes
/// compresses too well.
pub open spec fn ratio_exceeds(n: nat, c: nat) -> bool {
    c > 0 && 1000 * n > c * (2000 + 15 * n)
}

/// The bytes are long enough to judge and too repetitive.
pub open spec fn spammy(bytes: Seq<u8>) -> bool {
    bytes.len() >= MIN_SPAM_LEN && ratio_exceeds(bytes.len(), deflate_of(bytes, DEFLATE_LEVEL).len())
}

/// The message repeats the previous one, and less than two seconds passed.
pub open spec fn echoes(msg: Seq<char>, st: UserView, now: i64) -> bool {
    msg.len() > 6 && msg == st.last_message && now - st.last_message_time < ECHO_WINDOW_MS
}

/// The message is a single word and at most three seconds passed since the
/// previous one.
pub open spec fn hasty_single(single: bool, st: UserView, now: i64) -> bool {
    single && now - st.last_message_time <= SHORT_WINDOW_MS
}

/// The verdict of the stages before the compression test, given whether the
/// blocklist matched (`blocked`) and whether the message is a single word
/// (`single`); `None` where none of them objects.
pub open spec fn early_verdict(msg: Seq<char>, st: UserView, now: i64, blocked: bool, single: bool) -> Option<RulesCheckResult> {
    if blocked {
        Some(RulesCheckResult::Infraction(Reason::Blocklisted))
    } else if hasty_single(single, st, now) && st.simple_msg_count + 1 >= MAX_SIMPLE_MESSAGES {
        Some(RulesCheckResult::Infraction(Reason::ShortMessages))
    } else if echoes(msg, st, now) {
        Some(RulesCheckResult::Infraction(Reason::Echo))
    } else {
        None
    }
}

/// The verdict given the answers of the blocklist, the single-word test and
/// the compression test (`spam`): the first stage that objects decides.
pub open spec fn judged(msg: Seq<char>, st: UserView, now: i64, blocked: bool, single: bool, spam: bool) -> RulesCheckResult {
    match early_verdict(msg, st, now, blocked, single) {
        Some(v) => v,
        None => if spam { RulesCheckResult::Infraction(Reason::Spam) } else { RulesCheckResult::RulesOK },
    }
}

/// The short-message count after judging: kept where the blocklist
/// matched, one more for a hasty single word (back to zero where that makes
/// too many), zero otherwise.
pub open spec fn count_after(st: UserView, now: i64, blocked: bool, single: bool) -> nat {
    if blocked {
        st.simple_msg_count
    } else if hasty_single(single, st, now) {
        if st.simple_msg_count + 1 >= MAX_SIMPLE_MESSAGES { 0 } else { st.simple_msg_count + 1 }
    } else {
        0
    }
}

/// What the rule engine decides on `msg` from a user in state `st` at `now`.
pub open spec fn verdict(msg: Seq<char>, st: UserView, now: i64) -> RulesCheckResult {
    judged(msg, st, now, blocklisted(msg), single_clause(msg), spammy(encode_utf8(msg)))
}

/// The short-message count after the rule engine judged `msg`.
pub open spec fn next_simple_count(msg: Seq<char>, st: UserView, now: i64) -> nat {
    count_after(st, now, blocklisted(msg), single_clause(msg))
}

/// Whether `n` bytes compressed to `c` bytes compress too well.
pub fn exceeds_ratio(n: usize, c: usize) -> (r: bool)
    ensures
        r == ratio_exceeds(n as nat, c as nat),
{
    if c == 0 {
        return false;
    }
    if c >= 67 {
        assert(c * (2000 + 15 * n) >= 1000 * n) by (nonlinear_arith)
            requires c >= 67;
        return false;
    }
    let lhs: u128 = 1000 * (n as u128);
    let k: u128 = 2000 + 15 * (n as u128);
    assert((c as u128) * k <= 67 * k) by (nonlinear_arith)
        requires c < 67;
    let rhs: u128 = (c as u128) * k;
    lhs > rhs
}

/// Whether the message is long enough to judge and compresses so well that
/// it must be repetitive.
pub fn complexity_test(msg: &str) -> (r: bool)
    ensures
        r == spammy(encode_utf8(msg@)),
{
    let bytes = msg.as_bytes();
    if bytes.len() < MIN_SPAM_LEN {
        return false;
    }
    let compressed = deflate(bytes, DEFLATE_LEVEL);
    exceeds_ratio(bytes.len(), compressed.len())
}

/// Whether the message matches any blocked phrase.
pub fn is_blocklisted(msg: &str) -> (r: bool)
    ensures
        r == blocklisted(msg@),
{
    let mut i: usize = 0;
    while i < BLOCKLIST_LEN
        invariant
            i <= BLOCKLIST_LEN,
            forall|k: int| 0 <= k < i ==> regex_outcome(blocklist(k), msg@) != Some(true),
        decreases BLOCKLIST_LEN - i,
    {
        let hit = regex_is_match(blocklist_pattern(i), msg);
        if hit == Some(true) {
            return true;
        }
        i += 1;
    }
    false
}

/// Whether the message, trimmed of spaces, is a single word.
pub fn is_single_clause(msg: &str) -> (r: bool)
    ensures
        r == single_clause(msg@),
{
    let cs = chars_of(msg);
    let trimmed = string_of(&trim_spaces_exec(&cs));
    let hit = regex_is_match(r"\s+[^$]", trimmed.as_str());
    hit != Some(true)
}

/// Runs the stages before the compression test on `msg` from `state`'s user
/// at `now`, given whether the blocklist matched (`blocked`) and whether the
/// message is a single word (`single`). Returns the verdict where one of
/// them objects; updates the short-message count either way.
pub fn judge_early(msg: &str, state: &mut UserState, now: i64, blocked: bool, single: bool) -> (r: Option<RulesCheckResult>)
    requires
        old(state).wf(),
        valid_time(now),
    ensures
        final(state).wf(),
        r == early_verdict(msg@, old(state)@, now, blocked, single),
        final(state)@ == (UserView { simple_msg_count: count_after(old(state)@, now, blocked, single), ..old(state)@ }),
{
    if blocked {
        return Some(RulesCheckResult::Infraction(Reason::Blocklisted));
    }
    let gap = now - state.last_message_time;
    if single && gap <= SHORT_WINDOW_MS {
        state.simple_msg_count = state.simple_msg_count + 1;
        if state.simple_msg_count >= MAX_SIMPLE_MESSAGES {
            state.simple_msg_count = 0;
            return Some(RulesCheckResult::Infraction(Reason::ShortMessages));
        }
    } else {
        state.simple_msg_count = 0;
    }
    let cs = chars_of(msg);
    let prev = chars_of(state.last_message.as_str());
    if cs.len() > 6 && crate::text::chars_eq(&cs, &prev) && gap < ECHO_WINDOW_MS {
        return Some(RulesCheckResult::Infraction(Reason::Echo));
    }
    None
}

/// Judges `msg` from `state`'s user at `now`, given the answers of the
/// blocklist (`blocked`), the single-word test (`single`) and the
/// compression test (`spam`).
pub fn judge(msg: &str, state: &mut UserState, now: i64, blocked: bool, single: bool, spam: bool) -> (r: RulesCheckResult)
    requires
        old(state).wf(),
        valid_time(now),
    ensures
        final(state).wf(),
        r == judged(msg@, old(state)@, now, blocked, single, spam),
        final(state)@ == (UserView { simple_msg_count: count_after(old(state)@, now, blocked, single), ..old(state)@ }),
{
    match judge_early(msg, state, now, blocked, single) {
        Some(v) => v,
        None => if spam { RulesCheckResult::Infraction(Reason::Spam) } else { RulesCheckResult::RulesOK },
    }
}

/// Judges `msg` from `state`'s user at time `now`. Only the short-message
/// count of `state` changes; the caller records the message itself. The
/// compression test runs only where no earlier stage objects.
pub fn check(msg: &str, state: &mut UserState, now: i64) -> (r: RulesCheckResult)
    requires
        old(state).wf(),
        valid_time(now),
    ensures
        final(state).wf(),
        r == verdict(msg@, old(state)@, now),
        final(state)@ == (UserView { simple_msg_count: next_simple_count(msg@, old(state)@, now), ..old(state)@ }),
{
    let blocked = is_blocklisted(msg);
    let single = if blocked { false } else { is_single_clause(msg) };
    match judge_early(msg, state, now, blocked, single) {
        Some(v) => v,
        None => if complexity_test(msg) {
            RulesCheckResult::Infraction(Reason::Spam)
        } else {
            RulesCheckResult::RulesOK
        },
    }
}

} // verus!
