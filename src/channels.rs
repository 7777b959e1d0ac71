//! The channel registry: which channels are moderated or give orders, who
//! is in each, and each channel's stopword trap.
use vstd::prelude::*;
use crate::action::{Action, ActionView, views};
use crate::text::str_eq;

verus! {

/// What the bot does in a channel.
#[derive(Clone, Copy, Debug, PartialEq, Eq, Structural)]
pub enum ChannelType {
    /// Messages here are moderated.
    Moderate,
    /// Members here may give the bot orders.
    Control,
}

/// One channel the bot knows of.
pub struct IRCChannel {
    name: String,
    chantype: ChannelType,
    nicks: Vec<String>,
    joined: bool,
    stopword: Option<String>,
}

/// An `IRCChannel` as a mathematical value.
pub struct ChannelView {
    pub name: Seq<char>,
    pub chantype: ChannelType,
    pub nicks: Set<Seq<char>>,
    pub joined: bool,
    pub stopword: Option<Seq<char>>,
}

pub open spec fn opt_view(o: Option<String>) -> Option<Seq<char>> {
    match o {
        Some(s) => Some(s@),
        None => None,
    }
}

impl View for IRCChannel {
    type V = ChannelView;

    closed spec fn view(&self) -> ChannelView {
        ChannelView {
            name: self.name@,
            chantype: self.chantype,
            nicks: Set::new(|n: Seq<char>| exists|i: int| 0 <= i < self.nicks.len() && self.nicks[i]@ == n),
            joined: self.joined,
            stopword: opt_view(self.stopword),
        }
    }
}

impl IRCChannel {
    /// No nick is recorded twice.
    pub closed spec fn wf(&self) -> bool {
        forall|i: int, j: int| 0 <= i < j < self.nicks.len() ==> self.nicks[i]@ != self.nicks[j]@
    }

    /// A channel not yet joined, with no members and no stopword.
    pub fn new(name: &str, chantype: ChannelType) -> (r: IRCChannel)
        ensures
            r.wf(),
            r@.name == name@,
            r@.chantype == chantype,
            r@.nicks == Set::<Seq<char>>::empty(),
            !r@.joined,
            r@.stopword is None,
    {
        let r = IRCChannel {
            name: String::from_str(name),
            chantype,
            nicks: Vec::new(),
            joined: false,
            stopword: None,
        };
        assert(r@.nicks == Set::<Seq<char>>::empty());
        r
    }

    pub fn name(&self) -> (r: &str)
        ensures
            r@ == self@.name,
    {
        self.name.as_str()
    }

    pub fn chantype(&self) -> (r: ChannelType)
        ensures
            r == self@.chantype,
    {
        self.chantype
    }

    pub fn is_joined(&self) -> (r: bool)
        ensures
            r == self@.joined,
    {
        self.joined
    }

    /// The transport confirmed that the bot is in the channel.
    pub fn join_ok(&mut self)
        requires
            old(self).wf(),
        ensures
            final(self).wf(),
            final(self)@ == (ChannelView { joined: true, ..old(self)@ }),
    {
        self.joined = true;
        assert(self@.nicks == old(self)@.nicks);
    }

    fn index_of_nick(&self, nick: &str) -> (r: Option<usize>)
        ensures
            r is None <==> !self@.nicks.contains(nick@),
            r matches Some(i) ==> i < self.nicks.len() && self.nicks[i as int]@ == nick@,
    {
        let mut i: usize = 0;
        while i < self.nicks.len()
            invariant
                i <= self.nicks.len(),
                forall|k: int| 0 <= k < i ==> self.nicks[k]@ != nick@,
            decreases self.nicks.len() - i,
        {
            if str_eq(self.nicks[i].as_str(), nick) {
                return Some(i);
            }
            i += 1;
        }
        None
    }

    /// Someone else joined the channel.
    pub fn handle_join(&mut self, nick: &str)
        requires
            old(self).wf(),
        ensures
            final(self).wf(),
            final(self)@ == (ChannelView { nicks: old(self)@.nicks.insert(nick@), ..old(self)@ }),
    {
        match self.index_of_nick(nick) {
            Some(_) => {
                assert(self@.nicks == old(self)@.nicks.insert(nick@));
            },
            None => {
                self.nicks.push(String::from_str(nick));
                assert forall|n: Seq<char>| self@.nicks.contains(n) <==> old(self)@.nicks.insert(nick@).contains(n) by {
                    if n == nick@ {
                        assert(self.nicks[self.nicks.len() - 1]@ == n);
                    }
                    if old(self)@.nicks.contains(n) {
                        let i = choose|i: int| 0 <= i < old(self).nicks.len() && old(self).nicks[i]@ == n;
                        assert(self.nicks[i]@ == n);
                    }
                }
                assert(self@.nicks == old(self)@.nicks.insert(nick@));
            },
        }
    }

    /// Someone else left the channel; `false` where they were not recorded
    /// as a member, which changes nothing.
    pub fn handle_part(&mut self, nick: &str) -> (r: bool)
        requires
            old(self).wf(),
        ensures
            final(self).wf(),
            r == old(self)@.nicks.contains(nick@),
            final(self)@ == (ChannelView { nicks: old(self)@.nicks.remove(nick@), ..old(self)@ }),
    {
        match self.index_of_nick(nick) {
            Some(i) => {
                let ghost before = self.nicks@;
                self.nicks.remove(i);
                assert forall|n: Seq<char>| self@.nicks.contains(n) <==> old(self)@.nicks.remove(nick@).contains(n) by {
                    if old(self)@.nicks.remove(nick@).contains(n) {
                        let k = choose|k: int| 0 <= k < before.len() && before[k]@ == n;
                        if k < i {
                            assert(self.nicks[k]@ == n);
                        } else {
                            assert(k != i);
                            assert(self.nicks[k - 1]@ == n);
                        }
                    }
                    if self@.nicks.contains(n) {
                        let k = choose|k: int| 0 <= k < self.nicks.len() && self.nicks[k]@ == n;
                        if k < i {
                            assert(before[k]@ == n);
                            assert(before[k]@ != before[i as int]@);
                        } else {
                            assert(before[k + 1]@ == n);
                            assert(before[i as int]@ != before[k + 1]@);
                        }
                    }
                }
                assert(self@.nicks == old(self)@.nicks.remove(nick@));
                true
            },
            None => {
                assert(self@.nicks == old(self)@.nicks.remove(nick@));
                false
            },
        }
    }

    /// Whether `nick` is recorded as a member.
    pub fn contains_nick(&self, nick: &str) -> (r: bool)
        ensures
            r == self@.nicks.contains(nick@),
    {
        self.index_of_nick(nick).is_some()
    }

    /// The trap phrase, if one is set.
    pub fn get_stopword(&self) -> (r: Option<&str>)
        ensures
            r matches Some(s) ==> self@.stopword == Some(s@),
            r is None ==> self@.stopword is None,
    {
        match &self.stopword {
            Some(sw) => Some(sw.as_str()),
            None => None,
        }
    }

    /// Sets or clears the trap phrase.
    pub fn set_stopword(&mut self, stopword: Option<String>)
        requires
            old(self).wf(),
        ensures
            final(self).wf(),
            final(self)@ == (ChannelView { stopword: opt_view(stopword), ..old(self)@ }),
    {
        self.stopword = stopword;
        assert(self@.nicks == old(self)@.nicks);
    }
}


/// The control channels' names, in order, each with `text`.
pub open spec fn control_notices(chs: Seq<ChannelView>, text: Seq<char>) -> Seq<ActionView>
    decreases chs.len(),
{
    if chs.len() == 0 {
        Seq::<ActionView>::empty()
    } else {
        let rest = control_notices(chs.drop_last(), text);
        if chs.last().chantype == ChannelType::Control {
            rest.push(ActionView::ChannelMessage(chs.last().name, text))
        } else {
            rest
        }
    }
}

/// A join request for each channel not yet joined, in order.
pub open spec fn join_requests(chs: Seq<ChannelView>) -> Seq<ActionView>
    decreases chs.len(),
{
    if chs.len() == 0 {
        Seq::<ActionView>::empty()
    } else {
        let rest = join_requests(chs.drop_last());
        if !chs.last().joined {
            rest.push(ActionView::JoinChannel(chs.last().name))
        } else {
            rest
        }
    }
}

/// `nick` is a member of some control channel.
pub open spec fn is_mod(chs: Seq<ChannelView>, nick: Seq<char>) -> bool {
    exists|i: int| 0 <= i < chs.len() && chs[i].chantype == ChannelType::Control && #[trigger] chs[i].nicks.contains(nick)
}

/// Where the channel called `name` stands.
pub open spec fn channel_index(chs: Seq<ChannelView>, name: Seq<char>) -> Option<int> {
    if exists|i: int| 0 <= i < chs.len() && chs[i].name == name {
        Some(choose|i: int| 0 <= i < chs.len() && chs[i].name == name)
    } else {
        None
    }
}

/// The channels' names are distinct.
pub open spec fn names_distinct(chs: Seq<ChannelView>) -> bool {
    forall|i: int, j: int| 0 <= i < j < chs.len() ==> chs[i].name != chs[j].name
}

/// The channels the bot serves from the start: one moderated, one for its
/// moderators, neither joined yet.
pub open spec fn initial_channels() -> Seq<ChannelView> {
    seq![
        ChannelView {
            name: "#r/globaloffensive"@,
            chantype: ChannelType::Moderate,
            nicks: Set::<Seq<char>>::empty(),
            joined: false,
            stopword: None,
        },
        ChannelView {
            name: "#gobotmods"@,
            chantype: ChannelType::Control,
            nicks: Set::<Seq<char>>::empty(),
            joined: false,
            stopword: None,
        },
    ]
}

/// Every channel the bot knows of, in the order they were added.
pub struct ChannelManager {
    channels: Vec<IRCChannel>,
}

impl View for ChannelManager {
    type V = Seq<ChannelView>;

    closed spec fn view(&self) -> Seq<ChannelView> {
        self.channels@.map_values(|c: IRCChannel| c@)
    }
}

impl ChannelManager {
    pub closed spec fn wf(&self) -> bool {
        &&& forall|i: int| 0 <= i < self.channels.len() ==> (#[trigger] self.channels[i]).wf()
        &&& names_distinct(self@)
    }

    /// A well-formed registry holds no two channels of the same name.
    pub proof fn lemma_wf_names_distinct(&self)
        requires
            self.wf(),
        ensures
            names_distinct(self@),
    {
    }

    /// No channels.
    pub fn new_blank() -> (r: ChannelManager)
        ensures
            r.wf(),
            r@ == Seq::<ChannelView>::empty(),
    {
        let r = ChannelManager { channels: Vec::new() };
        assert(r@ == Seq::<ChannelView>::empty());
        r
    }

    /// The channels the bot serves: one moderated, one for its moderators.
    pub fn new() -> (r: ChannelManager)
        ensures
            r.wf(),
            r@ == initial_channels(),
    {
        proof {
            reveal_strlit("#r/globaloffensive");
            reveal_strlit("#gobotmods");
        }
        let mut mgr = ChannelManager::new_blank();
        mgr.add_channel("#r/globaloffensive", ChannelType::Moderate);
        assert("#r/globaloffensive"@[1] != "#gobotmods"@[1]);
        mgr.add_channel("#gobotmods", ChannelType::Control);
        assert(mgr@ == initial_channels());
        mgr
    }

    /// Where the channel called `name` stands, if it is known.
    pub fn find_mut(&self, name: &str) -> (r: Option<usize>)
        requires
            self.wf(),
        ensures
            r matches Some(i) ==> channel_index(self@, name@) == Some(i as int),
            r is None ==> channel_index(self@, name@) is None,
    {
        let mut i: usize = 0;
        while i < self.channels.len()
            invariant
                self.wf(),
                i <= self.channels.len(),
                forall|k: int| 0 <= k < i ==> self@[k].name != name@,
            decreases self.channels.len() - i,
        {
            if str_eq(self.channels[i].name(), name) {
                proof {
                    let j = channel_index(self@, name@)->0;
                    assert(self@[i as int].name == name@);
                    assert(0 <= j < self@.len() && self@[j].name == name@);
                    if j != i {
                        assert(j > i);
                        assert(names_distinct(self@));
                        assert(self@[i as int].name != self@[j].name);
                    }
                }
                return Some(i);
            }
            i += 1;
        }
        None
    }

    /// The channel called `name`, if it is known.
    pub fn find(&self, name: &str) -> (r: Option<&IRCChannel>)
        requires
            self.wf(),
        ensures
            r matches Some(c) ==> channel_index(self@, name@) matches Some(i) && c@ == self@[i] && c.wf(),
            r is None ==> channel_index(self@, name@) is None,
    {
        match self.find_mut(name) {
            Some(i) => Some(&self.channels[i]),
            None => None,
        }
    }

    /// Adds a channel, not yet joined; one of the same name is replaced.
    pub fn add_channel(&mut self, name: &str, chantype: ChannelType)
        requires
            old(self).wf(),
        ensures
            final(self).wf(),
            ({
                let fresh = ChannelView {
                    name: name@,
                    chantype,
                    nicks: Set::<Seq<char>>::empty(),
                    joined: false,
                    stopword: None,
                };
                match channel_index(old(self)@, name@) {
                    Some(i) => final(self)@ == old(self)@.update(i, fresh),
                    None => final(self)@ == old(self)@.push(fresh),
                }
            }),
    {
        let ch = IRCChannel::new(name, chantype);
        match self.find_mut(name) {
            Some(i) => {
                self.channels.set(i, ch);
                assert(self@ == old(self)@.update(i as int, ch@));
            },
            None => {
                self.channels.push(ch);
                assert(self@ == old(self)@.push(ch@));
            },
        }
    }

    /// A join request for each channel not yet joined. The channels are
    /// marked joined only once the transport confirms it.
    pub fn join_channels(&self) -> (r: Vec<Action>)
        ensures
            views(r@) == join_requests(self@),
    {
        let mut r: Vec<Action> = Vec::new();
        let mut i: usize = 0;
        while i < self.channels.len()
            invariant
                i <= self.channels.len(),
                views(r@) == join_requests(self@.subrange(0, i as int)),
            decreases self.channels.len() - i,
        {
            let ch = &self.channels[i];
            assert(self@.subrange(0, i + 1).drop_last() == self@.subrange(0, i as int));
            if !ch.is_joined() {
                r.push(Action::JoinChannel(String::from_str(ch.name())));
            }
            i += 1;
            assert(views(r@) == join_requests(self@.subrange(0, i as int)));
        }
        assert(self@.subrange(0, self.channels.len() as int) == self@);
        r
    }

    /// `msg` sent to every control channel.
    pub fn log_to_control_channels(&self, msg: &str) -> (r: Vec<Action>)
        ensures
            views(r@) == control_notices(self@, msg@),
    {
        let mut r: Vec<Action> = Vec::new();
        let mut i: usize = 0;
        while i < self.channels.len()
            invariant
                i <= self.channels.len(),
                views(r@) == control_notices(self@.subrange(0, i as int), msg@),
            decreases self.channels.len() - i,
        {
            let ch = &self.channels[i];
            assert(self@.subrange(0, i + 1).drop_last() == self@.subrange(0, i as int));
            if ch.chantype() == ChannelType::Control {
                r.push(Action::ChannelMessage(String::from_str(ch.name()), String::from_str(msg)));
            }
            i += 1;
            assert(views(r@) == control_notices(self@.subrange(0, i as int), msg@));
        }
        assert(self@.subrange(0, self.channels.len() as int) == self@);
        r
    }

    /// Whether `nick` is in some control channel, which makes it a moderator.
    pub fn nick_is_mod(&self, nick: &str) -> (r: bool)
        ensures
            r == is_mod(self@, nick@),
    {
        let mut i: usize = 0;
        while i < self.channels.len()
            invariant
                i <= self.channels.len(),
                forall|k: int| 0 <= k < i ==> !(self@[k].chantype == ChannelType::Control && self@[k].nicks.contains(nick@)),
            decreases self.channels.len() - i,
        {
            let ch = &self.channels[i];
            if ch.chantype() == ChannelType::Control && ch.contains_nick(nick) {
                assert(self@[i as int].nicks.contains(nick@));
                return true;
            }
            i += 1;
        }
        false
    }

    /// The transport confirmed that the bot joined `name`; `false` where the
    /// channel is unknown, which changes nothing.
    pub fn join_ok(&mut self, name: &str) -> (r: bool)
        requires
            old(self).wf(),
        ensures
            final(self).wf(),
            r == channel_index(old(self)@, name@) is Some,
            channel_index(old(self)@, name@) matches Some(i)
                ==> final(self)@ == old(self)@.update(i, ChannelView { joined: true, ..old(self)@[i] }),
            channel_index(old(self)@, name@) is None ==> final(self)@ == old(self)@,
    {
        match self.find_mut(name) {
            Some(i) => {
                let ch = &mut self.channels[i];
                ch.join_ok();
                assert(self@ == old(self)@.update(i as int, ChannelView { joined: true, ..old(self)@[i as int] }));
                true
            },
            None => false,
        }
    }

    /// `nick` joined the channel `name`; `false` where the channel is
    /// unknown, which changes nothing.
    pub fn handle_join(&mut self, name: &str, nick: &str) -> (r: bool)
        requires
            old(self).wf(),
        ensures
            final(self).wf(),
            r == channel_index(old(self)@, name@) is Some,
            channel_index(old(self)@, name@) matches Some(i)
                ==> final(self)@ == old(self)@.update(i, ChannelView { nicks: old(self)@[i].nicks.insert(nick@), ..old(self)@[i] }),
            channel_index(old(self)@, name@) is None ==> final(self)@ == old(self)@,
    {
        match self.find_mut(name) {
            Some(i) => {
                let ch = &mut self.channels[i];
                ch.handle_join(nick);
                assert(self@ == old(self)@.update(i as int, ChannelView { nicks: old(self)@[i as int].nicks.insert(nick@), ..old(self)@[i as int] }));
                true
            },
            None => false,
        }
    }

    /// `nick` left the channel `name`. `None` where the channel is unknown,
    /// else whether `nick` was recorded as a member there.
    pub fn handle_part(&mut self, name: &str, nick: &str) -> (r: Option<bool>)
        requires
            old(self).wf(),
        ensures
            final(self).wf(),
            channel_index(old(self)@, name@) matches Some(i) ==> {
                &&& r == Some(old(self)@[i].nicks.contains(nick@))
                &&& final(self)@ == old(self)@.update(i, ChannelView { nicks: old(self)@[i].nicks.remove(nick@), ..old(self)@[i] })
            },
            channel_index(old(self)@, name@) is None ==> r is None && final(self)@ == old(self)@,
    {
        match self.find_mut(name) {
            Some(i) => {
                let ch = &mut self.channels[i];
                let was = ch.handle_part(nick);
                assert(self@ == old(self)@.update(i as int, ChannelView { nicks: old(self)@[i as int].nicks.remove(nick@), ..old(self)@[i as int] }));
                Some(was)
            },
            None => None,
        }
    }

    /// Sets or clears the stopword of channel `name`; `false` where the
    /// channel is unknown, which changes nothing.
    pub fn set_stopword(&mut self, name: &str, stopword: Option<String>) -> (r: bool)
        requires
            old(self).wf(),
        ensures
            final(self).wf(),
            r == channel_index(old(self)@, name@) is Some,
            channel_index(old(self)@, name@) matches Some(i)
                ==> final(self)@ == old(self)@.update(i, ChannelView { stopword: opt_view(stopword), ..old(self)@[i] }),
            channel_index(old(self)@, name@) is None ==> final(self)@ == old(self)@,
    {
        let ghost sw = opt_view(stopword);
        match self.find_mut(name) {
            Some(i) => {
                let ch = &mut self.channels[i];
                ch.set_stopword(stopword);
                assert(self@ == old(self)@.update(i as int, ChannelView { stopword: sw, ..old(self)@[i as int] }));
                true
            },
            None => false,
        }
    }
}

} // verus!
