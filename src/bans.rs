//! The ban ledger: temporary bans and their expiry.
use vstd::prelude::*;
use crate::action::{Action, ActionView, views};
use crate::text::push_str;
use crate::users::valid_time;

verus! {

/// Milliseconds in a minute.
pub const MINUTE_MS: i64 = 60_000;

/// Ban length used until one is configured, in minutes.
pub const DEFAULT_BAN_MINUTES: u32 = 5;

/// One ban: `mask` may not speak in `channel` until `expires`
/// (milliseconds since the epoch).
pub struct Ban {
    mask: String,
    channel: String,
    expires: i64,
}

/// A `Ban` as a mathematical value.
pub struct BanView {
    pub mask: Seq<char>,
    pub channel: Seq<char>,
    pub expires: int,
}

impl View for Ban {
    type V = BanView;

    closed spec fn view(&self) -> BanView {
        BanView { mask: self.mask@, channel: self.channel@, expires: self.expires as int }
    }
}

/// The ban mask for a host: any nick and user name from that host.
pub open spec fn host_mask(host: Seq<char>) -> Seq<char> {
    "*!*@"@ + host
}

/// When a ban of `minutes` set at `now` ends.
pub open spec fn expiry(now: int, minutes: nat) -> int {
    now + minutes * MINUTE_MS
}

/// The transport request that sets (`active`) or lifts a ban.
pub open spec fn restriction(b: BanView, active: bool) -> ActionView {
    ActionView::SetRestriction(b.channel, b.mask, active)
}

impl Ban {
    /// A ban on everyone at `host` in `channel`, for `length` minutes from `now`.
    pub fn new(channel: &str, host: &str, length: u32, now: i64) -> (r: Ban)
        requires
            valid_time(now),
        ensures
            r@ == (BanView { mask: host_mask(host@), channel: channel@, expires: expiry(now as int, length as nat) }),
    {
        let mut mask = String::from_str("*!*@");
        push_str(&mut mask, host);
        Ban { mask, channel: String::from_str(channel), expires: now + (length as i64) * MINUTE_MS }
    }

    /// Whether the ban still holds at `now`.
    pub fn is_active(&self, now: i64) -> (r: bool)
        ensures
            r == (self@.expires >= now),
    {
        self.expires >= now
    }

    /// The request that brings the channel in line with this ban at `now`:
    /// set while it is active, lifted once it has expired.
    pub fn update_usermode(&self, now: i64) -> (r: Action)
        ensures
            r@ == restriction(self@, self@.expires >= now),
    {
        Action::SetRestriction(String::from_str(self.channel.as_str()), String::from_str(self.mask.as_str()), self.is_active(now))
    }

    /// The request that lifts this ban.
    pub fn lift(&self) -> (r: Action)
        ensures
            r@ == restriction(self@, false),
    {
        Action::SetRestriction(String::from_str(self.channel.as_str()), String::from_str(self.mask.as_str()), false)
    }
}

/// The bans still in force at `now`, in order.
pub open spec fn unexpired(bans: Seq<BanView>, now: int) -> Seq<BanView>
    decreases bans.len(),
{
    if bans.len() == 0 {
        bans
    } else {
        let rest = unexpired(bans.drop_last(), now);
        if bans.last().expires < now { rest } else { rest.push(bans.last()) }
    }
}

/// A lift request for each ban expired at `now`, in order.
pub open spec fn expired_lifts(bans: Seq<BanView>, now: int) -> Seq<ActionView>
    decreases bans.len(),
{
    if bans.len() == 0 {
        Seq::<ActionView>::empty()
    } else {
        let rest = expired_lifts(bans.drop_last(), now);
        if bans.last().expires < now { rest.push(restriction(bans.last(), false)) } else { rest }
    }
}

/// The ledger as a mathematical value.
pub struct LedgerView {
    pub bans: Seq<BanView>,
    /// Length of new bans, in minutes.
    pub ban_length: nat,
}

/// The active bans and the length of the next one.
pub struct BanManager {
    bans: Vec<Ban>,
    ban_length: u32,
}

impl View for BanManager {
    type V = LedgerView;

    closed spec fn view(&self) -> LedgerView {
        LedgerView { bans: self.bans@.map_values(|b: Ban| b@), ban_length: self.ban_length as nat }
    }
}

impl BanManager {
    /// No bans; new ones last five minutes.
    pub fn new() -> (r: BanManager)
        ensures
            r@.bans == Seq::<BanView>::empty(),
            r@.ban_length == DEFAULT_BAN_MINUTES,
    {
        let r = BanManager { bans: Vec::new(), ban_length: DEFAULT_BAN_MINUTES };
        assert(r@.bans == Seq::<BanView>::empty());
        r
    }

    /// Lifts every ban that expired before `now`, in the order they were
    /// set, and keeps the others.
    pub fn update(&mut self, now: i64) -> (r: Vec<Action>)
        ensures
            final(self)@.bans == unexpired(old(self)@.bans, now as int),
            final(self)@.ban_length == old(self)@.ban_length,
            views(r@) == expired_lifts(old(self)@.bans, now as int),
    {
        let mut kept: Vec<Ban> = Vec::new();
        let mut acts: Vec<Action> = Vec::new();
        let mut old_bans: Vec<Ban> = Vec::new();
        std::mem::swap(&mut old_bans, &mut self.bans);
        let ghost all = old_bans@.map_values(|b: Ban| b@);
        assert(all == old(self)@.bans);
        let mut i: usize = 0;
        while i < old_bans.len()
            invariant
                i <= old_bans.len(),
                all == old_bans@.map_values(|b: Ban| b@),
                kept@.map_values(|b: Ban| b@) == unexpired(all.subrange(0, i as int), now as int),
                views(acts@) == expired_lifts(all.subrange(0, i as int), now as int),
                self.ban_length == old(self).ban_length,
            decreases old_bans.len() - i,
        {
            let ghost pre = all.subrange(0, i as int);
            assert(all.subrange(0, i + 1).drop_last() == pre);
            let b = &old_bans[i];
            if b.is_active(now) {
                let copy = Ban {
                    mask: String::from_str(b.mask.as_str()),
                    channel: String::from_str(b.channel.as_str()),
                    expires: b.expires,
                };
                kept.push(copy);
            } else {
                acts.push(b.lift());
            }
            i += 1;
            assert(kept@.map_values(|b: Ban| b@) == unexpired(all.subrange(0, i as int), now as int));
            assert(views(acts@) == expired_lifts(all.subrange(0, i as int), now as int));
        }
        assert(all.subrange(0, old_bans.len() as int) == all);
        self.bans = kept;
        acts
    }

    /// Bans everyone at `host` from `channel` for the configured length,
    /// from `now`; returns the request that sets the ban. An earlier ban on
    /// the same mask is neither merged nor extended: both stay.
    pub fn ban(&mut self, channel: &str, host: &str, now: i64) -> (r: Action)
        requires
            valid_time(now),
        ensures
            final(self)@.ban_length == old(self)@.ban_length,
            final(self)@.bans == old(self)@.bans.push(BanView {
                mask: host_mask(host@),
                channel: channel@,
                expires: expiry(now as int, old(self)@.ban_length),
            }),
            r@ == ActionView::SetRestriction(channel@, host_mask(host@), true),
    {
        let ban = Ban::new(channel, host, self.ban_length, now);
        let act = ban.update_usermode(now);
        self.bans.push(ban);
        assert(self@.bans == old(self)@.bans.push(ban@));
        act
    }

    /// Removes the ban at position `id`; returns the request that lifts it.
    pub fn unban(&mut self, id: usize) -> (r: Action)
        requires
            id < old(self)@.bans.len(),
        ensures
            final(self)@.bans == old(self)@.bans.remove(id as int),
            final(self)@.ban_length == old(self)@.ban_length,
            r@ == restriction(old(self)@.bans[id as int], false),
    {
        let b = self.bans.remove(id);
        assert(self@.bans == old(self)@.bans.remove(id as int));
        b.lift()
    }

    /// Sets the length of new bans, in minutes.
    pub fn set_ban_length(&mut self, length: u32)
        ensures
            final(self)@ == (LedgerView { ban_length: length as nat, ..old(self)@ }),
    {
        self.ban_length = length;
    }

    /// The length of new bans, in minutes.
    pub fn get_ban_length(&self) -> (r: u32)
        ensures
            r == self@.ban_length,
    {
        self.ban_length
    }

    /// The bans in force, in the order they were set.
    pub fn bans(&self) -> (r: &Vec<Ban>)
        ensures
            r@.map_values(|b: Ban| b@) == self@.bans,
    {
        &self.bans
    }
}

/// A sweep at `now` keeps exactly the bans that expire at `now` or later,
/// in their order, and drops exactly those that expired before `now`.
pub proof fn sweep_keeps_exactly_unexpired(bans: Seq<BanView>, now: int)
    ensures
        unexpired(bans, now) == bans.filter(|b: BanView| b.expires >= now),
        forall|i: int| 0 <= i < bans.len() && bans[i].expires >= now ==> unexpired(bans, now).contains(#[trigger] bans[i]),
        forall|i: int| 0 <= i < unexpired(bans, now).len() ==> #[trigger] unexpired(bans, now)[i].expires >= now,
    decreases bans.len(),
{
    reveal_with_fuel(Seq::filter, 1);
    if bans.len() > 0 {
        sweep_keeps_exactly_unexpired(bans.drop_last(), now);
    }
    assert(unexpired(bans, now) == bans.filter(|b: BanView| b.expires >= now));
    assert forall|i: int| 0 <= i < bans.len() && bans[i].expires >= now implies unexpired(bans, now).contains(#[trigger] bans[i]) by {
        lemma_filter_keeps(bans, now, i);
    }
    sweep_idempotent(bans, now);
}

proof fn lemma_filter_keeps(bans: Seq<BanView>, now: int, i: int)
    requires
        0 <= i < bans.len(),
        bans[i].expires >= now,
    ensures
        unexpired(bans, now).contains(bans[i]),
    decreases bans.len(),
{
    if i == bans.len() - 1 {
        assert(unexpired(bans, now).last() == bans[i]);
    } else {
        lemma_filter_keeps(bans.drop_last(), now, i);
        let r = unexpired(bans.drop_last(), now);
        let k = choose|k: int| 0 <= k < r.len() && r[k] == bans[i];
        if bans.last().expires >= now {
            assert(unexpired(bans, now)[k] == bans[i]);
        }
    }
}

/// After a sweep at `now` no expired ban is left, so a second sweep at the
/// same `now` keeps every ban and lifts none.
pub proof fn sweep_idempotent(bans: Seq<BanView>, now: int)
    ensures
        forall|i: int| 0 <= i < unexpired(bans, now).len() ==> #[trigger] unexpired(bans, now)[i].expires >= now,
        unexpired(unexpired(bans, now), now) == unexpired(bans, now),
        expired_lifts(unexpired(bans, now), now) == Seq::<ActionView>::empty(),
    decreases bans.len(),
{
    if bans.len() > 0 {
        sweep_idempotent(bans.drop_last(), now);
        let rest = unexpired(bans.drop_last(), now);
        if bans.last().expires >= now {
            assert(unexpired(bans, now).drop_last() == rest);
        }
    }
}

} // verus!
