//! Chat messages: who receives a message, and the line a nearby player reads.
use vstd::prelude::*;

verus! {

/// A chat message under construction, for one player or for everyone.
pub struct MsgBuilder {
    pub text: Option<String>,
    pub player_id: Option<i32>,
}

/// Where a message goes.
#[derive(Clone, Debug, PartialEq, Eq)]
pub enum Delivery {
    /// To every connected player.
    Everyone(String),
    /// To the player with this id.
    Player(i32, String),
    /// Nowhere: the message has no text.
    Nothing,
}

impl MsgBuilder {
    pub fn new() -> (r: Self)
        ensures
            r.text is None,
            r.player_id is None,
    {
        MsgBuilder { text: None, player_id: None }
    }

    pub fn text(self, text: &str) -> (r: Self)
        ensures
            r.text matches Some(t) && t@ == text@,
            r.player_id == self.player_id,
    {
        MsgBuilder { text: Some(text.to_owned()), ..self }
    }

    /// Addresses the message to one player.
    pub fn select(self, player_id: i32) -> (r: Self)
        ensures
            r.player_id == Some(player_id),
            r.text == self.text,
    {
        MsgBuilder { player_id: Some(player_id), ..self }
    }

    /// Where the message goes: nowhere without text, to everyone when no player
    /// was selected, else to the selected player.
    pub fn delivery(&self) -> (r: Delivery)
        ensures
            match self.text {
                None => r == Delivery::Nothing,
                Some(t) => match self.player_id {
                    None => r == Delivery::Everyone(t),
                    Some(id) => r == Delivery::Player(id, t),
                },
            },
    {
        match &self.text {
            None => Delivery::Nothing,
            Some(t) => match self.player_id {
                None => Delivery::Everyone(t.clone()),
                Some(id) => Delivery::Player(id, t.clone()),
            },
        }
    }
}

/// The line that nearby players read when `name` says `text`.
pub fn range_line(name: &str, text: &str) -> (r: String)
    ensures
        r@ == name@ + " disse: "@ + text@,
{
    let mut s = String::from_str(name);
    s.append(" disse: ");
    s.append(text);
    s
}

} // verus!
