//! What the moderator asks the chat transport to do.
use vstd::prelude::*;

verus! {

/// One request to the chat transport.
pub enum Action {
    /// Send `text` to the user `target` alone.
    PrivateMessage(String, String),
    /// Send `text` to everyone in `channel`.
    ChannelMessage(String, String),
    /// Set (`true`) or lift (`false`) the ban on `mask` in `channel`.
    SetRestriction(String, String, bool),
    /// Join `channel`.
    JoinChannel(String),
}

/// An `Action` with its strings read as characters.
pub enum ActionView {
    PrivateMessage(Seq<char>, Seq<char>),
    ChannelMessage(Seq<char>, Seq<char>),
    SetRestriction(Seq<char>, Seq<char>, bool),
    JoinChannel(Seq<char>),
}

impl View for Action {
    type V = ActionView;

    open spec fn view(&self) -> ActionView {
        match self {
            Action::PrivateMessage(t, m) => ActionView::PrivateMessage(t@, m@),
            Action::ChannelMessage(c, m) => ActionView::ChannelMessage(c@, m@),
            Action::SetRestriction(c, m, a) => ActionView::SetRestriction(c@, m@, *a),
            Action::JoinChannel(c) => ActionView::JoinChannel(c@),
        }
    }
}

/// The views of a list of actions.
pub open spec fn views(v: Seq<Action>) -> Seq<ActionView> {
    v.map_values(|a: Action| a@)
}

/// Appends `more` to `acts`.
pub fn append_actions(acts: &mut Vec<Action>, more: Vec<Action>)
    ensures
        views(final(acts)@) == views(old(acts)@) + views(more@),
{
    let mut more = more;
    let ghost m = more@;
    acts.append(&mut more);
    assert(views(acts@) == views(old(acts)@) + views(m));
}

} // verus!
