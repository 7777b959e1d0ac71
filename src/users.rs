//! Per-user moderation state, created on first sight of a nick.
use vstd::prelude::*;

verus! {

/// Number of infractions that leads to a ban.
pub const MAX_INFRACTIONS: u32 = 3;

/// Number of consecutive short, rapid messages that counts as an infraction.
pub const MAX_SIMPLE_MESSAGES: u32 = 3;

/// Largest timestamp the library accepts, in milliseconds since the epoch.
pub const TIME_LIMIT: i64 = 0x4000_0000_0000_0000;

pub open spec fn valid_time(t: i64) -> bool {
    0 <= t <= TIME_LIMIT
}

/// What the moderator remembers of one user. Times are milliseconds since
/// the epoch.
pub struct UserState {
    pub infractions: u32,
    pub ban_expiration: Option<i64>,
    pub last_message_time: i64,
    pub last_message: String,
    /// Consecutive short messages sent in quick succession.
    pub simple_msg_count: u32,
}

/// A `UserState` as a mathematical value.
pub struct UserView {
    pub infractions: nat,
    pub ban_expiration: Option<i64>,
    pub last_message_time: i64,
    pub last_message: Seq<char>,
    pub simple_msg_count: nat,
}

impl View for UserState {
    type V = UserView;

    open spec fn view(&self) -> UserView {
        UserView {
            infractions: self.infractions as nat,
            ban_expiration: self.ban_expiration,
            last_message_time: self.last_message_time,
            last_message: self.last_message@,
            simple_msg_count: self.simple_msg_count as nat,
        }
    }
}

/// The view of a user first seen at `now`.
pub open spec fn fresh_user(now: i64) -> UserView {
    UserView {
        infractions: 0,
        ban_expiration: None,
        last_message_time: now,
        last_message: Seq::<char>::empty(),
        simple_msg_count: 0,
    }
}

impl UserView {
    pub open spec fn wf(&self) -> bool {
        &&& self.infractions < MAX_INFRACTIONS
        &&& self.simple_msg_count < MAX_SIMPLE_MESSAGES
        &&& valid_time(self.last_message_time)
    }
}

impl UserState {
    pub open spec fn wf(&self) -> bool {
        &&& self.infractions < MAX_INFRACTIONS
        &&& self.simple_msg_count < MAX_SIMPLE_MESSAGES
        &&& valid_time(self.last_message_time)
    }

    /// A user seen for the first time at `now`.
    pub fn new(now: i64) -> (r: UserState)
        requires
            valid_time(now),
        ensures
            r.wf(),
            r@ == fresh_user(now),
    {
        UserState {
            infractions: 0,
            ban_expiration: None,
            last_message_time: now,
            last_message: String::new(),
            simple_msg_count: 0,
        }
    }
}

/// The state of every user seen so far, keyed by nick.
pub struct UserManager {
    pub nicks: Vec<String>,
    pub states: Vec<UserState>,
}

impl UserManager {
    pub open spec fn wf(&self) -> bool {
        &&& self.nicks.len() == self.states.len()
        &&& forall|i: int, j: int|
            0 <= i < j < self.nicks.len() ==> self.nicks[i]@ != self.nicks[j]@
        &&& forall|i: int| 0 <= i < self.states.len() ==> (#[trigger] self.states[i]).wf()
    }

    /// The position of `nick`'s state, if it has one.
    pub open spec fn index_of(&self, nick: Seq<char>) -> Option<int> {
        if exists|i: int| 0 <= i < self.nicks.len() && self.nicks[i]@ == nick {
            Some(choose|i: int| 0 <= i < self.nicks.len() && self.nicks[i]@ == nick)
        } else {
            None
        }
    }

    /// Every user seen so far, by nick.
    pub open spec fn users(&self) -> Map<Seq<char>, UserView> {
        Map::new(
            |n: Seq<char>| exists|i: int| 0 <= i < self.nicks.len() && self.nicks[i]@ == n,
            |n: Seq<char>| self.states[self.index_of(n)->0]@,
        )
    }

    pub proof fn lemma_index_of(&self, i: int)
        requires
            self.wf(),
            0 <= i < self.nicks.len(),
        ensures
            self.index_of(self.nicks[i]@) == Some(i),
            self.users().contains_key(self.nicks[i]@),
            self.users()[self.nicks[i]@] == self.states[i]@,
    {
        let n = self.nicks[i]@;
        let j = self.index_of(n)->0;
        if j != i {
            if j < i {
                assert(self.nicks[j]@ != self.nicks[i]@);
            } else {
                assert(self.nicks[i]@ != self.nicks[j]@);
            }
        }
    }

    /// Writing a well-formed state at position `i` changes that user alone.
    pub proof fn lemma_update_at(old_um: &UserManager, new_um: &UserManager, i: int)
        requires
            old_um.wf(),
            0 <= i < old_um.nicks.len(),
            new_um.nicks@ == old_um.nicks@,
            new_um.states@ == old_um.states@.update(i, new_um.states[i]),
            new_um.states[i].wf(),
        ensures
            new_um.wf(),
            new_um.users() == old_um.users().insert(old_um.nicks[i]@, new_um.states[i]@),
    {
        assert(new_um.wf());
        let n = old_um.nicks[i]@;
        new_um.lemma_index_of(i);
        assert forall|m: Seq<char>| #[trigger] new_um.users().contains_key(m) && m != n
            implies new_um.users()[m] == old_um.users()[m] by {
            let k = choose|k: int| 0 <= k < new_um.nicks.len() && new_um.nicks[k]@ == m;
            new_um.lemma_index_of(k);
            old_um.lemma_index_of(k);
        }
        assert(new_um.users() =~= old_um.users().insert(n, new_um.states[i]@));
    }

    pub fn new() -> (r: UserManager)
        ensures
            r.wf(),
            r.users() == Map::<Seq<char>, UserView>::empty(),
    {
        let r = UserManager { nicks: Vec::new(), states: Vec::new() };
        assert(r.users() =~= Map::<Seq<char>, UserView>::empty());
        r
    }

    /// Where `nick`'s state is kept, if it has one.
    pub fn find(&self, nick: &str) -> (r: Option<usize>)
        requires
            self.wf(),
        ensures
            r is None <==> forall|i: int| 0 <= i < self.nicks.len() ==> self.nicks[i]@ != nick@,
            r matches Some(i) ==> i < self.nicks.len() && self.nicks[i as int]@ == nick@,
    {
        let mut i: usize = 0;
        while i < self.nicks.len()
            invariant
                i <= self.nicks.len(),
                forall|k: int| 0 <= k < i ==> self.nicks[k]@ != nick@,
            decreases self.nicks.len() - i,
        {
            if crate::text::str_eq(self.nicks[i].as_str(), nick) {
                return Some(i);
            }
            i += 1;
        }
        None
    }

    /// Finds `nick`'s state, or creates a fresh one for it as of `now`;
    /// returns its position.
    pub fn get_or_create(&mut self, nick: &str, now: i64) -> (r: usize)
        requires
            old(self).wf(),
            valid_time(now),
        ensures
            final(self).wf(),
            r < final(self).nicks.len(),
            final(self).nicks[r as int]@ == nick@,
            final(self).index_of(nick@) == Some(r as int),
            old(self).users().contains_key(nick@) ==> final(self).users() == old(self).users(),
            !old(self).users().contains_key(nick@) ==> final(self).users() == old(self).users().insert(nick@, fresh_user(now)),
            old(self).index_of(nick@) matches Some(j) ==> {
                &&& r == j
                &&& final(self).nicks@ == old(self).nicks@
                &&& final(self).states@ == old(self).states@
            },
            old(self).index_of(nick@) is None ==> {
                &&& r == old(self).nicks.len()
                &&& final(self).nicks@.drop_last() == old(self).nicks@
                &&& final(self).states@.drop_last() == old(self).states@
                &&& final(self).states[r as int]@ == fresh_user(now)
            },
    {
        match self.find(nick) {
            Some(i) => {
                proof {
                    self.lemma_index_of(i as int);
                }
                i
            },
            None => {
                let n = self.nicks.len();
                self.nicks.push(String::from_str(nick));
                self.states.push(UserState::new(now));
                assert(self.nicks@.drop_last() == old(self).nicks@);
                assert(self.states@.drop_last() == old(self).states@);
                proof {
                    assert(self.wf());
                    self.lemma_index_of(n as int);
                    assert forall|m: Seq<char>| #[trigger] self.users().contains_key(m) && m != nick@
                        implies old(self).users().contains_key(m) && self.users()[m] == old(self).users()[m] by {
                        let k = choose|k: int| 0 <= k < self.nicks.len() && self.nicks[k]@ == m;
                        assert(k != n);
                        self.lemma_index_of(k);
                        old(self).lemma_index_of(k);
                    }
                    assert forall|m: Seq<char>| #[trigger] old(self).users().contains_key(m)
                        implies self.users().contains_key(m) by {
                        let k = choose|k: int| 0 <= k < old(self).nicks.len() && old(self).nicks[k]@ == m;
                        assert(self.nicks[k]@ == m);
                    }
                    assert(self.users() =~= old(self).users().insert(nick@, fresh_user(now)));
                }
                n
            },
        }
    }

    /// Clears `nick`'s infractions, creating its state as of `now` if needed.
    pub fn forgive(&mut self, nick: &str, now: i64)
        requires
            old(self).wf(),
            valid_time(now),
        ensures
            final(self).wf(),
            final(self).users() == old(self).users().insert(nick@, UserView {
                infractions: 0,
                ..(if old(self).users().contains_key(nick@) { old(self).users()[nick@] } else { fresh_user(now) })
            }),
    {
        let i = self.get_or_create(nick, now);
        let ghost mid = *self;
        proof {
            mid.lemma_index_of(i as int);
        }
        let st = &mut self.states[i];
        st.infractions = 0;
        proof {
            UserManager::lemma_update_at(&mid, self, i as int);
        }
    }
}

} // verus!
