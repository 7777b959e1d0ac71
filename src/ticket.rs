//! A reported infraction that can be turned into a ban.
use vstd::prelude::*;
use crate::bans::{Ban, BanView, host_mask, expiry};
use crate::users::valid_time;

verus! {

/// An infraction by the user at `host` in `channel`, with a note on it.
pub struct Ticket {
    info_msg: String,
    channel: String,
    host: String,
}

/// A `Ticket` as a mathematical value.
pub struct TicketView {
    pub info_msg: Seq<char>,
    pub channel: Seq<char>,
    pub host: Seq<char>,
}

impl View for Ticket {
    type V = TicketView;

    closed spec fn view(&self) -> TicketView {
        TicketView { info_msg: self.info_msg@, channel: self.channel@, host: self.host@ }
    }
}

impl Ticket {
    pub fn new(channel: String, host: String, info_msg: String) -> (r: Ticket)
        ensures
            r@ == (TicketView { info_msg: info_msg@, channel: channel@, host: host@ }),
    {
        Ticket { channel, host, info_msg }
    }

    pub fn info_msg(&self) -> (r: &str)
        ensures
            r@ == self@.info_msg,
    {
        self.info_msg.as_str()
    }

    /// The ban this ticket calls for: `length` minutes from `now`. The ban
    /// is not applied.
    pub fn to_ban(self, length: u32, now: i64) -> (r: Ban)
        requires
            valid_time(now),
        ensures
            r@ == (BanView { mask: host_mask(self@.host), channel: self@.channel, expires: expiry(now as int, length as nat) }),
    {
        Ban::new(self.channel.as_str(), self.host.as_str(), length, now)
    }
}

} // verus!
