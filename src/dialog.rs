//! Dialogs: the pending-request table that pairs each shown dialog with the
//! player's answer.
use std::collections::HashMap;
use vstd::prelude::*;

verus! {

broadcast use vstd::std_specs::hash::group_hash_axioms;

/// A player's answer to a dialog.
#[derive(Clone, Debug, PartialEq, Eq)]
pub struct DialogResponse {
    pub dialog_id: u32,
    pub player_id: u32,
    pub button_response: u8,
    pub selected_item: i8,
    pub answer: String,
}

/// Open dialogs by id, each with the waiter `W` that receives its answer. Ids
/// count up from 1 and are never reused.
pub struct DialogManager<W> {
    counter: u32,
    workers: HashMap<u32, W>,
}

impl<W> DialogManager<W> {
    /// The last id handed out (0 before the first).
    pub closed spec fn last_id(&self) -> u32 {
        self.counter
    }

    /// The dialogs still waiting for an answer.
    pub closed spec fn pending(&self) -> Map<u32, W> {
        self.workers@
    }

    /// Every pending id has been handed out.
    pub closed spec fn wf(&self) -> bool {
        forall|id: u32| #[trigger] self.workers@.contains_key(id) ==> 1 <= id <= self.counter
    }

    pub fn new() -> (r: Self)
        ensures
            r.wf(),
            r.last_id() == 0,
            r.pending() == Map::<u32, W>::empty(),
    {
        DialogManager { counter: 0, workers: HashMap::new() }
    }

    /// Opens a dialog waited on by `worker` and returns its id; `None`, with
    /// nothing changed, once every id has been used.
    pub fn send(&mut self, worker: W) -> (r: Option<u32>)
        requires
            old(self).wf(),
        ensures
            final(self).wf(),
            old(self).last_id() == u32::MAX ==> r is None && final(self).last_id() == old(
                self,
            ).last_id() && final(self).pending() == old(self).pending(),
            old(self).last_id() < u32::MAX ==> {
                &&& r == Some((old(self).last_id() + 1) as u32)
                &&& final(self).last_id() == old(self).last_id() + 1
                &&& !old(self).pending().contains_key((old(self).last_id() + 1) as u32)
                &&& final(self).pending() == old(self).pending().insert(
                    (old(self).last_id() + 1) as u32,
                    worker,
                )
            },
    {
        if self.counter == u32::MAX {
            return None;
        }
        self.counter = self.counter + 1;
        let dialog_id = self.counter;
        self.workers.insert(dialog_id, worker);
        Some(dialog_id)
    }

    /// Closes dialog `dialog_id`, if pending, and hands back its waiter with the
    /// answer to deliver; an unknown id changes nothing.
    pub fn notify(
        &mut self,
        dialog_id: u32,
        player_id: u32,
        button_response: u8,
        selected_item: i8,
        answer: String,
    ) -> (r: Option<(W, DialogResponse)>)
        requires
            old(self).wf(),
        ensures
            final(self).wf(),
            final(self).last_id() == old(self).last_id(),
            old(self).pending().contains_key(dialog_id) ==> {
                &&& r matches Some((w, resp)) && w == old(self).pending()[dialog_id] && resp
                    == (DialogResponse {
                    dialog_id,
                    player_id,
                    button_response,
                    selected_item,
                    answer,
                })
                &&& final(self).pending() == old(self).pending().remove(dialog_id)
            },
            !old(self).pending().contains_key(dialog_id) ==> r is None && final(self).pending()
                == old(self).pending(),
    {
        match self.workers.remove(&dialog_id) {
            Some(worker) => {
                let resp = DialogResponse {
                    dialog_id,
                    player_id,
                    button_response,
                    selected_item,
                    answer,
                };
                Some((worker, resp))
            },
            None => None,
        }
    }
}

/// The title and text of a dialog to show.
pub struct DialogBuilder {
    pub title: String,
    pub message: String,
}

impl DialogBuilder {
    pub fn new() -> (r: Self)
        ensures
            r.title@.len() == 0,
            r.message@.len() == 0,
    {
        DialogBuilder { title: String::new(), message: String::new() }
    }

    pub fn set_title(self, title: &str) -> (r: Self)
        ensures
            r.title@ == title@,
            r.message == self.message,
    {
        DialogBuilder { title: title.to_owned(), ..self }
    }

    pub fn set_message(self, message: &str) -> (r: Self)
        ensures
            r.message@ == message@,
            r.title == self.title,
    {
        DialogBuilder { message: message.to_owned(), ..self }
    }
}

} // verus!
