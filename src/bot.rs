//! The moderation coordinator and the command dispatcher: what the bot does
//! with each event the chat transport delivers.
use vstd::prelude::*;
use crate::action::{Action, ActionView, views, append_actions};
use crate::bans::{BanManager, BanView, LedgerView, host_mask, expiry, unexpired, expired_lifts};
use crate::channels::{
    ChannelManager, ChannelView, channel_index, control_notices, initial_channels, is_mod,
    join_requests, names_distinct,
};
use crate::rules::{RulesCheckResult, check, reason_text, verdict, next_simple_count};
use crate::text::{
    chars_of, chars_eq, contains_chars, decimal, decimal_value, is_prefix, join_spaces,
    join_spaces_exec, parse_u32, parses_as_u32, push_chars, push_decimal, push_range, push_str,
    seq_contains, split_spaces, split_spaces_exec, starts_with_chars, str_eq, string_of,
    trim_spaces, trim_spaces_exec, lemma_split_nonempty,
};
use crate::users::{UserManager, UserView, fresh_user, valid_time, MAX_INFRACTIONS};

verus! {

/// How the bot connects and identifies itself.
pub struct Config {
    pub nick: String,
    pub server: String,
    pub port: u16,
    pub nspass: String,
}

/// Whether an addressed message held a command the bot carried out.
#[derive(Clone, Copy, Debug, PartialEq, Eq, Structural)]
pub enum CommandValidity {
    CommandValid,
    CommandNotValid,
}

/// The whole moderator: its configuration, ban ledger, channel registry and
/// user states.
pub struct NoFunBot {
    pub config: Config,
    pub banmgr: BanManager,
    pub chanmgr: ChannelManager,
    pub usermgr: UserManager,
}

/// A `NoFunBot` as a mathematical value.
pub struct BotView {
    pub nick: Seq<char>,
    pub nspass: Seq<char>,
    pub chans: Seq<ChannelView>,
    pub ledger: LedgerView,
    pub users: Map<Seq<char>, UserView>,
}

impl View for NoFunBot {
    type V = BotView;

    open spec fn view(&self) -> BotView {
        BotView {
            nick: self.config.nick@,
            nspass: self.config.nspass@,
            chans: self.chanmgr@,
            ledger: self.banmgr@,
            users: self.usermgr.users(),
        }
    }
}

/// The state of `nick` before this message: as recorded, or fresh.
pub open spec fn user_before(users: Map<Seq<char>, UserView>, nick: Seq<char>, now: i64) -> UserView {
    if users.contains_key(nick) { users[nick] } else { fresh_user(now) }
}

/// `st` with `msg` recorded as the last message, sent at `now`.
pub open spec fn committed(st: UserView, msg: Seq<char>, now: i64) -> UserView {
    UserView { last_message: msg, last_message_time: now, ..st }
}

/// The channel `channel` has a stopword and `msg` contains it.
pub open spec fn stopword_hit(chs: Seq<ChannelView>, channel: Seq<char>, msg: Seq<char>) -> bool {
    match channel_index(chs, channel) {
        Some(i) => match chs[i].stopword {
            Some(w) => seq_contains(msg, w),
            None => false,
        },
        None => false,
    }
}

/// The ledger with one more ban of its current length.
pub open spec fn with_ban(l: LedgerView, channel: Seq<char>, host: Seq<char>, now: i64) -> LedgerView {
    LedgerView {
        bans: l.bans.push(BanView { mask: host_mask(host), channel, expires: expiry(now as int, l.ban_length) }),
        ..l
    }
}

/// The request that sets the ban on `host` in `channel`.
pub open spec fn ban_request(channel: Seq<char>, host: Seq<char>) -> ActionView {
    ActionView::SetRestriction(channel, host_mask(host), true)
}

pub open spec fn stopword_ban_text(nick: Seq<char>) -> Seq<char> {
    "Banned "@ + nick + " for stopword violation"@
}

pub open spec fn plural(n: nat) -> Seq<char> {
    if n == 1 { Seq::<char>::empty() } else { "s"@ }
}

/// The private warning: why, how many infractions are left before a ban,
/// and how long that ban would be.
pub open spec fn warning_text(reason: Seq<char>, remaining: nat, minutes: nat) -> Seq<char> {
    reason + " Please read the channel rules: http://goo.gl/4T6EZR . After "@ + decimal(remaining)
        + " more infraction"@ + plural(remaining) + ", you will be banned for "@ + decimal(minutes)
        + "m!"@
}

pub open spec fn warning_log_text(nick: Seq<char>, reason: Seq<char>, count: nat) -> Seq<char> {
    "Warning "@ + nick + ": "@ + reason + " "@ + decimal(count) + " infractions."@
}

pub open spec fn ban_log_text(nick: Seq<char>, reason: Seq<char>) -> Seq<char> {
    "Banning "@ + nick + ": "@ + reason
}

/// The message quoted with the span `[start, end)` highlighted in red.
pub open spec fn ticket_text(nick: Seq<char>, msg: Seq<char>, start: int, end: int) -> Seq<char> {
    if 0 <= start <= end <= msg.len() {
        "Infraction detected: "@ + nick + " said \""@ + msg.subrange(0, start) + "\u{3}4"@
            + msg.subrange(start, end) + "\u{3}\u{3}"@ + msg.subrange(end, msg.len() as int) + "\""@
    } else {
        "Infraction detected: "@ + nick + " said \""@ + msg + "\""@
    }
}

/// What moderating `msg`, sent by `nick` from `host` to `channel` at
/// `now`, does to the bot and asks of the transport.
pub open spec fn moderate_spec(
    b: BotView,
    nick: Seq<char>,
    host: Seq<char>,
    channel: Seq<char>,
    msg: Seq<char>,
    now: i64,
) -> (BotView, Seq<ActionView>) {
    let st0 = user_before(b.users, nick, now);
    if stopword_hit(b.chans, channel, msg) {
        let i = channel_index(b.chans, channel)->0;
        (
            BotView {
                chans: b.chans.update(i, ChannelView { stopword: None, ..b.chans[i] }),
                ledger: with_ban(b.ledger, channel, host, now),
                users: b.users.insert(nick, committed(st0, msg, now)),
                ..b
            },
            control_notices(b.chans, stopword_ban_text(nick)).push(ban_request(channel, host)),
        )
    } else {
        let st1 = UserView { simple_msg_count: next_simple_count(msg, st0, now), ..st0 };
        match verdict(msg, st0, now) {
            RulesCheckResult::Infraction(reason) => {
                let k = st0.infractions + 1;
                if k < MAX_INFRACTIONS {
                    (
                        BotView {
                            users: b.users.insert(nick, committed(UserView { infractions: k, ..st1 }, msg, now)),
                            ..b
                        },
                        seq![ActionView::PrivateMessage(
                            nick,
                            warning_text(reason_text(reason), (MAX_INFRACTIONS - k) as nat, b.ledger.ban_length),
                        )] + control_notices(b.chans, warning_log_text(nick, reason_text(reason), k)),
                    )
                } else {
                    (
                        BotView {
                            users: b.users.insert(nick, committed(UserView { infractions: 0, ..st1 }, msg, now)),
                            ledger: with_ban(b.ledger, channel, host, now),
                            ..b
                        },
                        control_notices(b.chans, ban_log_text(nick, reason_text(reason))).push(ban_request(channel, host)),
                    )
                }
            },
            RulesCheckResult::Ticket(span, _) => (
                BotView { users: b.users.insert(nick, committed(st1, msg, now)), ..b },
                control_notices(b.chans, ticket_text(nick, msg, span.0 as int, span.1 as int)),
            ),
            RulesCheckResult::RulesOK => (
                BotView { users: b.users.insert(nick, committed(st1, msg, now)), ..b },
                Seq::<ActionView>::empty(),
            ),
        }
    }
}


/// A command addressed to the bot, read from the words after its name.
pub enum CommandSpec {
    /// Set the channel's stopword to these words.
    Stopword(Seq<char>),
    ClearStopword,
    /// Clear this user's infractions.
    Forgive(Seq<char>),
    /// Set the ban length to this many minutes.
    BanLength(Seq<char>),
    Unknown,
}

/// The command table: the first word names the command.
pub open spec fn parse_command(args: Seq<Seq<char>>) -> CommandSpec {
    if args.len() >= 1 && args[0] == "stopword"@ {
        CommandSpec::Stopword(join_spaces(args.subrange(1, args.len() as int)))
    } else if args.len() == 1 && args[0] == "clear_stopword"@ {
        CommandSpec::ClearStopword
    } else if args.len() == 2 && args[0] == "forgive"@ {
        CommandSpec::Forgive(args[1])
    } else if args.len() == 2 && args[0] == "ban_length"@ {
        CommandSpec::BanLength(args[1])
    } else {
        CommandSpec::Unknown
    }
}

pub open spec fn stopword_set_text(src: Seq<char>, word: Seq<char>) -> Seq<char> {
    "Okay, "@ + src + ", next person to say "@ + word + " gets kickbanned!"@
}

pub open spec fn forgive_text(src: Seq<char>, nick: Seq<char>) -> Seq<char> {
    src + " forgave "@ + nick + "..."@
}

pub open spec fn ban_length_text(src: Seq<char>, len: Seq<char>) -> Seq<char> {
    src + " set ban length to "@ + len + "m"@
}

pub open spec fn set_channel_stopword(b: BotView, channel: Seq<char>, w: Option<Seq<char>>) -> BotView {
    match channel_index(b.chans, channel) {
        Some(i) => BotView { chans: b.chans.update(i, ChannelView { stopword: w, ..b.chans[i] }), ..b },
        None => b,
    }
}

/// What the command in `args`, from the moderator `src` in `dst` at `now`,
/// does to the bot and asks of the transport. A command for a channel the
/// bot does not know is dropped.
pub open spec fn command_spec(
    b: BotView,
    src: Seq<char>,
    dst: Seq<char>,
    args: Seq<Seq<char>>,
    now: i64,
) -> (CommandValidity, BotView, Seq<ActionView>) {
    match parse_command(args) {
        CommandSpec::Stopword(w) => (
            CommandValidity::CommandValid,
            set_channel_stopword(b, dst, Some(w)),
            if channel_index(b.chans, dst) is Some {
                seq![ActionView::ChannelMessage(dst, stopword_set_text(src, w))]
            } else {
                Seq::<ActionView>::empty()
            },
        ),
        CommandSpec::ClearStopword => (
            CommandValidity::CommandValid,
            set_channel_stopword(b, dst, None),
            if channel_index(b.chans, dst) is Some {
                seq![ActionView::ChannelMessage(dst, "Stopword cleared."@)]
            } else {
                Seq::<ActionView>::empty()
            },
        ),
        CommandSpec::Forgive(n) => (
            CommandValidity::CommandValid,
            BotView { users: b.users.insert(n, UserView { infractions: 0, ..user_before(b.users, n, now) }), ..b },
            control_notices(b.chans, forgive_text(src, n)),
        ),
        CommandSpec::BanLength(t) => if parses_as_u32(t) {
            (
                CommandValidity::CommandValid,
                BotView { ledger: LedgerView { ban_length: decimal_value(t), ..b.ledger }, ..b },
                control_notices(b.chans, ban_length_text(src, t)),
            )
        } else {
            (
                CommandValidity::CommandNotValid,
                b,
                seq![ActionView::PrivateMessage(src, "Invalid duration."@)],
            )
        },
        CommandSpec::Unknown => (
            CommandValidity::CommandNotValid,
            b,
            seq![ActionView::PrivateMessage(src, "Unrecognized command, I'm a fish"@)],
        ),
    }
}

/// Known bots, whose messages are left alone.
pub open spec fn is_ignored_bot(nick: Seq<char>) -> bool {
    nick == "Crate"@ || nick == "goBot"@ || nick == "face"@ || nick == "YouTube"@ || nick == "weeedbot"@
}

/// The words of an addressed message after the bot's name.
pub open spec fn command_args(msg: Seq<char>) -> Seq<Seq<char>> {
    let words = split_spaces(trim_spaces(msg));
    words.subrange(1, words.len() as int)
}

/// The reply to anyone but a moderator who addresses the bot.
pub open spec fn not_authorized_text() -> Seq<char> {
    "You are not authorized to give me orders."@
}

/// What the message `msg` from `src` (at `host`) to `dst`, arriving at
/// `now`, does to the bot and asks of the transport: messages from known
/// bots and private messages are left alone; a message that starts with the
/// bot's name is a command, carried out for moderators and refused to
/// anyone else; any other message is moderated.
pub open spec fn privmsg_spec(
    b: BotView,
    msg: Seq<char>,
    src: Seq<char>,
    dst: Seq<char>,
    host: Seq<char>,
    now: i64,
) -> (BotView, Seq<ActionView>) {
    if is_ignored_bot(src) || !is_prefix("#"@, dst) {
        (b, Seq::<ActionView>::empty())
    } else if is_prefix(b.nick, msg) {
        if is_mod(b.chans, src) {
            let c = command_spec(b, src, dst, command_args(msg), now);
            (c.1, c.2)
        } else {
            (b, seq![ActionView::PrivateMessage(src, not_authorized_text())])
        }
    } else {
        moderate_spec(b, src, host, dst, msg, now)
    }
}

/// One event from the chat transport.
pub enum Event {
    Connected,
    Disconnected,
    /// The server accepted the connection; the bot should identify itself.
    Welcome,
    /// The members of a channel (its name, then their nicks separated by
    /// single spaces, each perhaps marked `@` or `+`).
    Names(String, String),
    /// A nick joined a channel (channel, nick).
    Join(String, String),
    /// A nick left a channel (channel, nick).
    Part(String, String),
    /// A message (sender's nick, sender's host, destination, text).
    Message(String, String, String, String),
    /// Any other line from the server.
    Other,
}

/// An `Event` with its strings read as characters.
pub enum EventView {
    Connected,
    Disconnected,
    Welcome,
    Names(Seq<char>, Seq<char>),
    Join(Seq<char>, Seq<char>),
    Part(Seq<char>, Seq<char>),
    Message(Seq<char>, Seq<char>, Seq<char>, Seq<char>),
    Other,
}

impl View for Event {
    type V = EventView;

    open spec fn view(&self) -> EventView {
        match self {
            Event::Connected => EventView::Connected,
            Event::Disconnected => EventView::Disconnected,
            Event::Welcome => EventView::Welcome,
            Event::Names(c, n) => EventView::Names(c@, n@),
            Event::Join(c, n) => EventView::Join(c@, n@),
            Event::Part(c, n) => EventView::Part(c@, n@),
            Event::Message(s, h, d, t) => EventView::Message(s@, h@, d@, t@),
            Event::Other => EventView::Other,
        }
    }
}

/// `nick` recorded as a member of `channel`, where the bot knows it.
pub open spec fn join_spec(chs: Seq<ChannelView>, channel: Seq<char>, nick: Seq<char>) -> Seq<ChannelView> {
    match channel_index(chs, channel) {
        Some(i) => chs.update(i, ChannelView { nicks: chs[i].nicks.insert(nick), ..chs[i] }),
        None => chs,
    }
}

/// `nick` no longer recorded as a member of `channel`.
pub open spec fn part_spec(chs: Seq<ChannelView>, channel: Seq<char>, nick: Seq<char>) -> Seq<ChannelView> {
    match channel_index(chs, channel) {
        Some(i) => chs.update(i, ChannelView { nicks: chs[i].nicks.remove(nick), ..chs[i] }),
        None => chs,
    }
}

/// `channel` marked as joined by the bot.
pub open spec fn joined_spec(chs: Seq<ChannelView>, channel: Seq<char>) -> Seq<ChannelView> {
    match channel_index(chs, channel) {
        Some(i) => chs.update(i, ChannelView { joined: true, ..chs[i] }),
        None => chs,
    }
}

/// A nick from a member list without its `@` or `+` mark.
pub open spec fn strip_mark(name: Seq<char>) -> Seq<char> {
    if name.len() > 0 && (name[0] == '@' || name[0] == '+') { name.drop_first() } else { name }
}

/// Every nick of `names` recorded as a member of `channel`, in order.
pub open spec fn names_spec(chs: Seq<ChannelView>, channel: Seq<char>, names: Seq<Seq<char>>) -> Seq<ChannelView>
    decreases names.len(),
{
    if names.len() == 0 {
        chs
    } else {
        join_spec(names_spec(chs, channel, names.drop_last()), channel, strip_mark(names.last()))
    }
}

/// The service the bot identifies itself to.
pub open spec fn auth_target() -> Seq<char> {
    "Q@CServe.quakenet.org"@
}

pub open spec fn auth_text(nick: Seq<char>, pass: Seq<char>) -> Seq<char> {
    "AUTH "@ + nick + " "@ + pass
}

/// The notice that tells the bot it is logged in.
pub open spec fn logged_in_prefix() -> Seq<char> {
    "You are now logged in as"@
}

/// What an event other than a connection change does, once expired bans
/// are swept.
pub open spec fn event_spec(b: BotView, e: EventView, now: i64) -> (BotView, Seq<ActionView>) {
    match e {
        EventView::Welcome => (b, seq![ActionView::PrivateMessage(auth_target(), auth_text(b.nick, b.nspass))]),
        EventView::Names(ch, names) => (
            BotView { chans: names_spec(b.chans, ch, split_spaces(names)), ..b },
            Seq::<ActionView>::empty(),
        ),
        EventView::Join(ch, nick) => (
            BotView { chans: if nick != b.nick { join_spec(b.chans, ch, nick) } else { joined_spec(b.chans, ch) }, ..b },
            Seq::<ActionView>::empty(),
        ),
        EventView::Part(ch, nick) => (
            BotView { chans: if nick != b.nick { part_spec(b.chans, ch, nick) } else { b.chans }, ..b },
            Seq::<ActionView>::empty(),
        ),
        EventView::Message(src, host, dst, text) => if is_prefix(logged_in_prefix(), text) {
            (b, join_requests(b.chans))
        } else {
            privmsg_spec(b, text, src, dst, host, now)
        },
        _ => (b, Seq::<ActionView>::empty()),
    }
}

/// What a line from the server does: the bans that expired before `now`
/// are lifted first, then the event is handled.
pub open spec fn line_spec(b: BotView, e: EventView, now: i64) -> (BotView, Seq<ActionView>) {
    let swept = BotView { ledger: LedgerView { bans: unexpired(b.ledger.bans, now as int), ..b.ledger }, ..b };
    let r = event_spec(swept, e, now);
    (r.0, expired_lifts(b.ledger.bans, now as int) + r.1)
}

/// What event `e` at `now` does to the bot and asks of the transport:
/// connection changes do nothing; every other event is a line.
pub open spec fn handle_spec(b: BotView, e: EventView, now: i64) -> (BotView, Seq<ActionView>) {
    match e {
        EventView::Connected => (b, Seq::<ActionView>::empty()),
        EventView::Disconnected => (b, Seq::<ActionView>::empty()),
        _ => line_spec(b, e, now),
    }
}

/// Every recorded user has fewer infractions than lead to a ban.
pub open spec fn infractions_below_limit(users: Map<Seq<char>, UserView>) -> bool {
    forall|n: Seq<char>| #[trigger] users.contains_key(n) ==> users[n].infractions < MAX_INFRACTIONS
}

/// Moderation keeps every user's infractions below three: the infraction
/// that would be the third sets the count back to zero, and a ban is issued
/// in the same step.
pub proof fn moderation_keeps_infractions_below_limit(
    b: BotView,
    nick: Seq<char>,
    host: Seq<char>,
    channel: Seq<char>,
    msg: Seq<char>,
    now: i64,
)
    requires
        infractions_below_limit(b.users),
    ensures
        infractions_below_limit(moderate_spec(b, nick, host, channel, msg, now).0.users),
        ({
            let st0 = user_before(b.users, nick, now);
            let after = moderate_spec(b, nick, host, channel, msg, now).0;
            !stopword_hit(b.chans, channel, msg) && verdict(msg, st0, now) is Infraction
                && st0.infractions + 1 == MAX_INFRACTIONS ==> {
                &&& after.users[nick].infractions == 0
                &&& after.ledger.bans.len() == b.ledger.bans.len() + 1
                &&& after.ledger.bans.last().mask == host_mask(host)
                &&& after.ledger.bans.last().channel == channel
            }
        }),
{
    let st0 = user_before(b.users, nick, now);
    assert(st0.infractions < MAX_INFRACTIONS);
    let after = moderate_spec(b, nick, host, channel, msg, now).0;
    assert forall|n: Seq<char>| #[trigger] after.users.contains_key(n) implies after.users[n].infractions < MAX_INFRACTIONS by {
        if n != nick {
            assert(b.users.contains_key(n));
        }
    }
}

/// `forgive` leaves the named user with no infractions, whatever they had,
/// and changes no other user.
pub proof fn forgive_clears_infractions(b: BotView, src: Seq<char>, dst: Seq<char>, nick: Seq<char>, now: i64)
    ensures
        ({
            let after = command_spec(b, src, dst, seq!["forgive"@, nick], now).1;
            &&& after.users.contains_key(nick)
            &&& after.users[nick].infractions == 0
            &&& forall|n: Seq<char>| n != nick ==> #[trigger] after.users.contains_key(n) == b.users.contains_key(n)
                && (b.users.contains_key(n) ==> after.users[n] == b.users[n])
            &&& after.ledger == b.ledger
            &&& after.chans == b.chans
        }),
{
    reveal_strlit("forgive");
    reveal_strlit("stopword");
    let args = seq!["forgive"@, nick];
    assert("forgive"@.len() != "stopword"@.len());
    assert(args[0] != "stopword"@);
    assert(parse_command(args) == CommandSpec::Forgive(nick));
}

/// Where the channels' names are distinct, changing one channel but not its
/// name leaves every channel where it was found.
proof fn lemma_index_after_update(chs: Seq<ChannelView>, i: int, c: ChannelView, name: Seq<char>)
    requires
        names_distinct(chs),
        0 <= i < chs.len(),
        c.name == chs[i].name,
    ensures
        names_distinct(chs.update(i, c)),
        channel_index(chs.update(i, c), name) == channel_index(chs, name),
{
    let u = chs.update(i, c);
    assert forall|j: int, k: int| 0 <= j < k < u.len() implies u[j].name != u[k].name by {
        assert(chs[j].name != chs[k].name);
    }
    if channel_index(chs, name) is Some {
        let a = channel_index(chs, name)->0;
        assert(u[a].name == name);
        let x = channel_index(u, name)->0;
        if x != a {
            if x < a { assert(chs[x].name != chs[a].name); } else { assert(chs[a].name != chs[x].name); }
        }
    } else {
        if channel_index(u, name) is Some {
            let x = channel_index(u, name)->0;
            assert(chs[x].name == name);
        }
    }
}

/// A stopword fires once: the message that trips it clears it, so the same
/// message again does not trip it.
pub proof fn stopword_fires_once(
    b: BotView,
    nick: Seq<char>,
    host: Seq<char>,
    channel: Seq<char>,
    msg: Seq<char>,
    now: i64,
)
    requires
        names_distinct(b.chans),
        stopword_hit(b.chans, channel, msg),
    ensures
        ({
            let after = moderate_spec(b, nick, host, channel, msg, now).0;
            &&& after.chans[channel_index(b.chans, channel)->0].stopword is None
            &&& !stopword_hit(after.chans, channel, msg)
        }),
{
    let i = channel_index(b.chans, channel)->0;
    lemma_index_after_update(b.chans, i, ChannelView { stopword: None, ..b.chans[i] }, channel);
}

/// Anyone but a moderator who addresses the bot gets the refusal and
/// changes nothing: not the ledger, the channels, nor any user's state.
pub proof fn unauthorized_commands_refused(
    b: BotView,
    msg: Seq<char>,
    src: Seq<char>,
    dst: Seq<char>,
    host: Seq<char>,
    now: i64,
)
    requires
        !is_ignored_bot(src),
        is_prefix("#"@, dst),
        is_prefix(b.nick, msg),
        !is_mod(b.chans, src),
    ensures
        privmsg_spec(b, msg, src, dst, host, now) == (b, seq![ActionView::PrivateMessage(src, not_authorized_text())]),
{
}

impl NoFunBot {
    pub open spec fn wf(&self) -> bool {
        &&& self.chanmgr.wf()
        &&& self.usermgr.wf()
    }

    /// A bot with the initial channels, no bans and no users.
    pub fn new(config: Config) -> (r: NoFunBot)
        ensures
            r.wf(),
            r@ == (BotView {
                nick: config.nick@,
                nspass: config.nspass@,
                chans: initial_channels(),
                ledger: LedgerView { bans: Seq::<BanView>::empty(), ban_length: 5 },
                users: Map::<Seq<char>, UserView>::empty(),
            }),
    {
        NoFunBot {
            config,
            banmgr: BanManager::new(),
            chanmgr: ChannelManager::new(),
            usermgr: UserManager::new(),
        }
    }

    /// Whether `msg` trips the stopword of `channel`.
    fn stopword_detected(&self, channel: &str, msg: &str) -> (r: bool)
        requires
            self.wf(),
        ensures
            r == stopword_hit(self@.chans, channel@, msg@),
    {
        match self.chanmgr.find(channel) {
            Some(ch) => match ch.get_stopword() {
                Some(w) => {
                    let m = chars_of(msg);
                    let wc = chars_of(w);
                    contains_chars(&m, &wc)
                },
                None => false,
            },
            None => false,
        }
    }

    /// Moderates `msg`, sent by `nick` from `host` to `channel` at `now`:
    /// a stopword bans at once; otherwise the rule engine judges, and each
    /// infraction warns the user until the third, which bans. The message
    /// is then recorded as the user's last.
    pub fn moderate(&mut self, nick: &str, host: &str, channel: &str, msg: &str, now: i64) -> (r: Vec<Action>)
        requires
            old(self).wf(),
            valid_time(now),
        ensures
            final(self).wf(),
            (final(self)@, views(r@)) == moderate_spec(old(self)@, nick@, host@, channel@, msg@, now),
    {
        let ghost b = self@;
        let hit = self.stopword_detected(channel, msg);
        let idx = self.usermgr.get_or_create(nick, now);
        let ghost um1 = self.usermgr;
        proof {
            um1.lemma_index_of(idx as int);
        }
        let ghost st0 = user_before(b.users, nick@, now);
        assert(um1.states[idx as int]@ == st0);
        let mut v: RulesCheckResult = RulesCheckResult::RulesOK;
        let mut k: u32 = 0;
        {
            let st = &mut self.usermgr.states[idx];
            if !hit {
                v = check(msg, st, now);
                if let RulesCheckResult::Infraction(_) = v {
                    k = st.infractions + 1;
                    st.infractions = if k < MAX_INFRACTIONS { k } else { 0 };
                }
            }
            st.last_message_time = now;
            st.last_message = String::from_str(msg);
        }
        proof {
            UserManager::lemma_update_at(&um1, &self.usermgr, idx as int);
            assert(self@.users == b.users.insert(nick@, self.usermgr.states[idx as int]@));
        }
        let ghost st1 = UserView { simple_msg_count: next_simple_count(msg@, st0, now), ..st0 };
        assert(!hit && v is RulesOK ==> self.usermgr.states[idx as int]@ == committed(st1, msg@, now));
        let mut acts: Vec<Action> = Vec::new();
        if hit {
            let mut text = String::from_str("Banned ");
            push_str(&mut text, nick);
            push_str(&mut text, " for stopword violation");
            acts = self.chanmgr.log_to_control_channels(text.as_str());
            let a = self.banmgr.ban(channel, host, now);
            acts.push(a);
            self.chanmgr.set_stopword(channel, None);
        } else {
            match v {
                RulesCheckResult::Infraction(reason) => {
                    if k < MAX_INFRACTIONS {
                        let remaining = MAX_INFRACTIONS - k;
                        let mut warning = String::from_str(reason.text());
                        push_str(&mut warning, " Please read the channel rules: http://goo.gl/4T6EZR . After ");
                        push_decimal(&mut warning, remaining as u64);
                        push_str(&mut warning, " more infraction");
                        let ghost before_plural = warning@;
                        if remaining != 1 {
                            push_str(&mut warning, "s");
                        }
                        assert(warning@ == before_plural + plural(remaining as nat));
                        push_str(&mut warning, ", you will be banned for ");
                        push_decimal(&mut warning, self.banmgr.get_ban_length() as u64);
                        push_str(&mut warning, "m!");
                        acts.push(Action::PrivateMessage(String::from_str(nick), warning));
                        let mut log = String::from_str("Warning ");
                        push_str(&mut log, nick);
                        push_str(&mut log, ": ");
                        push_str(&mut log, reason.text());
                        push_str(&mut log, " ");
                        push_decimal(&mut log, k as u64);
                        push_str(&mut log, " infractions.");
                        let more = self.chanmgr.log_to_control_channels(log.as_str());
                        append_actions(&mut acts, more);
                    } else {
                        let mut log = String::from_str("Banning ");
                        push_str(&mut log, nick);
                        push_str(&mut log, ": ");
                        push_str(&mut log, reason.text());
                        acts = self.chanmgr.log_to_control_channels(log.as_str());
                        let a = self.banmgr.ban(channel, host, now);
                        acts.push(a);
                    }
                },
                RulesCheckResult::Ticket((start, end), _) => {
                    let cs = chars_of(msg);
                    let mut text = String::from_str("Infraction detected: ");
                    push_str(&mut text, nick);
                    push_str(&mut text, " said \"");
                    if start <= end && end <= cs.len() {
                        push_range(&mut text, &cs, 0, start);
                        push_str(&mut text, "\u{3}4");
                        push_range(&mut text, &cs, start, end);
                        push_str(&mut text, "\u{3}\u{3}");
                        push_range(&mut text, &cs, end, cs.len());
                    } else {
                        push_str(&mut text, msg);
                    }
                    push_str(&mut text, "\"");
                    acts = self.chanmgr.log_to_control_channels(text.as_str());
                },
                RulesCheckResult::RulesOK => {},
            }
        }
        acts
    }

    /// Sets or clears the stopword of `channel`, where the bot knows it.
    fn change_stopword(&mut self, channel: &str, w: Option<String>) -> (r: bool)
        requires
            old(self).wf(),
        ensures
            final(self).wf(),
            r == channel_index(old(self)@.chans, channel@) is Some,
            final(self)@ == set_channel_stopword(old(self)@, channel@, crate::channels::opt_view(w)),
    {
        self.chanmgr.set_stopword(channel, w)
    }

    /// Carries out the command in `args`, the words after the bot's name,
    /// from the moderator `src` in the channel `dst` at `now`. Each command
    /// takes at most one action; a rejected one changes nothing.
    pub fn handle_command(&mut self, src: &str, dst: &str, args: &Vec<Vec<char>>, now: i64) -> (r: (CommandValidity, Vec<Action>))
        requires
            old(self).wf(),
            valid_time(now),
        ensures
            final(self).wf(),
            ({
                let c = command_spec(old(self)@, src@, dst@, args@.map_values(|w: Vec<char>| w@), now);
                r.0 == c.0 && final(self)@ == c.1 && views(r.1@) == c.2
            }),
    {
        proof {
            reveal_strlit("stopword");
            reveal_strlit("clear_stopword");
            reveal_strlit("forgive");
            reveal_strlit("ban_length");
        }
        let mut acts: Vec<Action> = Vec::new();
        if args.len() >= 1 && chars_eq(&args[0], &chars_of("stopword")) {
            let word = join_spaces_exec(args, 1);
            let found = self.change_stopword(dst, Some(string_of(&word)));
            if found {
                let mut text = String::from_str("Okay, ");
                push_str(&mut text, src);
                push_str(&mut text, ", next person to say ");
                push_chars(&mut text, &word);
                push_str(&mut text, " gets kickbanned!");
                acts.push(Action::ChannelMessage(String::from_str(dst), text));
            }
            return (CommandValidity::CommandValid, acts);
        }
        if args.len() == 1 && chars_eq(&args[0], &chars_of("clear_stopword")) {
            let found = self.change_stopword(dst, None);
            if found {
                acts.push(Action::ChannelMessage(String::from_str(dst), String::from_str("Stopword cleared.")));
            }
            return (CommandValidity::CommandValid, acts);
        }
        if args.len() == 2 && chars_eq(&args[0], &chars_of("forgive")) {
            let target = string_of(&args[1]);
            let mut text = String::from_str(src);
            push_str(&mut text, " forgave ");
            push_str(&mut text, target.as_str());
            push_str(&mut text, "...");
            acts = self.chanmgr.log_to_control_channels(text.as_str());
            self.usermgr.forgive(target.as_str(), now);
            return (CommandValidity::CommandValid, acts);
        }
        if args.len() == 2 && chars_eq(&args[0], &chars_of("ban_length")) {
            match parse_u32(&args[1]) {
                Some(len) => {
                    self.banmgr.set_ban_length(len);
                    let mut text = String::from_str(src);
                    push_str(&mut text, " set ban length to ");
                    push_chars(&mut text, &args[1]);
                    push_str(&mut text, "m");
                    acts = self.chanmgr.log_to_control_channels(text.as_str());
                    return (CommandValidity::CommandValid, acts);
                },
                None => {
                    acts.push(Action::PrivateMessage(String::from_str(src), String::from_str("Invalid duration.")));
                    return (CommandValidity::CommandNotValid, acts);
                },
            }
        }
        acts.push(Action::PrivateMessage(String::from_str(src), String::from_str("Unrecognized command, I'm a fish")));
        (CommandValidity::CommandNotValid, acts)
    }


    /// Records the members listed in `names` (separated by single spaces)
    /// in `channel`.
    fn handle_names(&mut self, channel: &str, names: &str)
        requires
            old(self).wf(),
        ensures
            final(self).wf(),
            final(self)@ == (BotView { chans: names_spec(old(self)@.chans, channel@, split_spaces(names@)), ..old(self)@ }),
    {
        let ncs = chars_of(names);
        let list = split_spaces_exec(&ncs);
        let ghost ws = list@.map_values(|w: Vec<char>| w@);
        let mut i: usize = 0;
        assert(ws.subrange(0, 0).len() == 0);
        while i < list.len()
            invariant
                self.wf(),
                i <= list.len(),
                ws == list@.map_values(|w: Vec<char>| w@),
                self@ == (BotView { chans: names_spec(old(self)@.chans, channel@, ws.subrange(0, i as int)), ..old(self)@ }),
            decreases list.len() - i,
        {
            let w = &list[i];
            let start: usize = if w.len() > 0 && (w[0] == '@' || w[0] == '+') { 1 } else { 0 };
            let mut nick = String::new();
            push_range(&mut nick, w, start, w.len());
            assert(nick@ == strip_mark(w@));
            self.chanmgr.handle_join(channel, nick.as_str());
            assert(ws.subrange(0, i + 1).drop_last() == ws.subrange(0, i as int));
            i += 1;
        }
        assert(ws.subrange(0, list.len() as int) == ws);
    }

    /// Handles one event from the transport at `now`.
    pub fn handle(&mut self, event: &Event, now: i64) -> (r: Vec<Action>)
        requires
            old(self).wf(),
            valid_time(now),
        ensures
            final(self).wf(),
            (final(self)@, views(r@)) == handle_spec(old(self)@, event@, now),
    {
        match event {
            Event::Connected => return Vec::new(),
            Event::Disconnected => return Vec::new(),
            _ => {},
        }
        self.handle_line(event, now)
    }

    /// Handles a line from the server at `now`: first lifts the bans that
    /// expired before `now`, then handles the event.
    pub fn handle_line(&mut self, event: &Event, now: i64) -> (r: Vec<Action>)
        requires
            old(self).wf(),
            valid_time(now),
        ensures
            final(self).wf(),
            (final(self)@, views(r@)) == line_spec(old(self)@, event@, now),
    {
        let mut lifts = self.banmgr.update(now);
        let more = self.handle_event(event, now);
        append_actions(&mut lifts, more);
        lifts
    }

    /// Handles an event other than a connection change, once expired bans
    /// are swept.
    fn handle_event(&mut self, event: &Event, now: i64) -> (r: Vec<Action>)
        requires
            old(self).wf(),
            valid_time(now),
        ensures
            final(self).wf(),
            (final(self)@, views(r@)) == event_spec(old(self)@, event@, now),
    {
        let mut acts: Vec<Action> = Vec::new();
        match event {
            Event::Welcome => {
                let mut text = String::from_str("AUTH ");
                push_str(&mut text, self.config.nick.as_str());
                push_str(&mut text, " ");
                push_str(&mut text, self.config.nspass.as_str());
                acts.push(Action::PrivateMessage(String::from_str("Q@CServe.quakenet.org"), text));
            },
            Event::Names(channel, names) => {
                self.handle_names(channel.as_str(), names.as_str());
            },
            Event::Join(channel, nick) => {
                if !str_eq(nick.as_str(), self.config.nick.as_str()) {
                    self.chanmgr.handle_join(channel.as_str(), nick.as_str());
                } else {
                    self.chanmgr.join_ok(channel.as_str());
                }
            },
            Event::Part(channel, nick) => {
                if !str_eq(nick.as_str(), self.config.nick.as_str()) {
                    self.chanmgr.handle_part(channel.as_str(), nick.as_str());
                }
            },
            Event::Message(src, host, dst, text) => {
                let tcs = chars_of(text.as_str());
                if starts_with_chars(&tcs, &chars_of("You are now logged in as")) {
                    acts = self.chanmgr.join_channels();
                } else {
                    acts = self.handle_privmsg(text.as_str(), src.as_str(), dst.as_str(), host.as_str(), now);
                }
            },
            _ => {},
        }
        acts
    }

    /// Whether `nick` is one of the known bots.
    fn ignored_bot(nick: &str) -> (r: bool)
        ensures
            r == is_ignored_bot(nick@),
    {
        str_eq(nick, "Crate") || str_eq(nick, "goBot") || str_eq(nick, "face") || str_eq(nick, "YouTube")
            || str_eq(nick, "weeedbot")
    }

    /// Handles the message `msg` from `src` (at `host`) to `dst`, arriving
    /// at `now`: a command from a moderator, a refusal to anyone else who
    /// addresses the bot, moderation for the rest.
    pub fn handle_privmsg(&mut self, msg: &str, src: &str, dst: &str, host: &str, now: i64) -> (r: Vec<Action>)
        requires
            old(self).wf(),
            valid_time(now),
        ensures
            final(self).wf(),
            (final(self)@, views(r@)) == privmsg_spec(old(self)@, msg@, src@, dst@, host@, now),
    {
        if NoFunBot::ignored_bot(src) {
            return Vec::new();
        }
        let dcs = chars_of(dst);
        if !starts_with_chars(&dcs, &chars_of("#")) {
            return Vec::new();
        }
        let mcs = chars_of(msg);
        let ncs = chars_of(self.config.nick.as_str());
        if starts_with_chars(&mcs, &ncs) {
            if self.chanmgr.nick_is_mod(src) {
                let trimmed = trim_spaces_exec(&mcs);
                let mut words = split_spaces_exec(&trimmed);
                proof {
                    lemma_split_nonempty(trim_spaces(msg@));
                }
                let ghost all = words@;
                let args = words.split_off(1);
                assert(args@.map_values(|w: Vec<char>| w@) == command_args(msg@));
                let (_, acts) = self.handle_command(src, dst, &args, now);
                acts
            } else {
                let mut acts: Vec<Action> = Vec::new();
                acts.push(Action::PrivateMessage(
                    String::from_str(src),
                    String::from_str("You are not authorized to give me orders."),
                ));
                acts
            }
        } else {
            self.moderate(src, host, dst, msg, now)
        }
    }
}

} // verus!
