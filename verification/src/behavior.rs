//! Requests that the interface leaves behind while the panes are drawn, to
//! be carried out once drawing is over.

use crate::registry::PaneRegistry;
use vstd::prelude::*;

verus! {

/// What was asked for while the panes were drawn. A pane cannot be closed
/// while the tiles are walked, so a click on its close button only leaves a
/// mark here.
#[derive(Clone, Copy, Debug, PartialEq, Eq, Structural)]
pub struct Behavior {
    /// Whether the settings of the panes are linked.
    pub link: bool,
    /// The tile whose close button was clicked, if any.
    pub close: Option<u64>,
    /// The tile whose title was clicked, if any.
    pub click: Option<u64>,
}

impl Behavior {
    /// No request, settings not linked.
    pub open spec fn initial() -> Behavior {
        Behavior { link: false, close: None, click: None }
    }

    /// No request, settings not linked.
    pub fn new() -> (behavior: Behavior)
        ensures
            behavior == Behavior::initial(),
    {
        Behavior { link: false, close: None, click: None }
    }

    /// Marks the tile `id` to be closed. A mark that was not yet carried
    /// out is replaced.
    pub fn request_close(&mut self, id: u64)
        ensures
            *final(self) == (Behavior { close: Some(id), ..*old(self) }),
    {
        self.close = Some(id);
    }

    /// Notes that the title of the tile `id` was clicked.
    pub fn request_click(&mut self, id: u64)
        ensures
            *final(self) == (Behavior { click: Some(id), ..*old(self) }),
    {
        self.click = Some(id);
    }

    /// Takes the pending close mark, if there is one.
    pub fn take_close(&mut self) -> (id: Option<u64>)
        ensures
            id == old(self).close,
            *final(self) == (Behavior { close: None, ..*old(self) }),
    {
        let id = self.close;
        self.close = None;
        id
    }

    /// Tells whether the title of the tile `id` was clicked, and forgets
    /// the click if so. A click on another tile stays noted.
    pub fn take_click(&mut self, id: u64) -> (clicked: bool)
        ensures
            clicked == (old(self).click == Some(id)),
            *final(self) == if clicked {
                Behavior { click: None, ..*old(self) }
            } else {
                *old(self)
            },
    {
        if self.click == Some(id) {
            self.click = None;
            true
        } else {
            false
        }
    }
}

impl Default for Behavior {
    fn default() -> (behavior: Behavior)
        ensures
            behavior == Behavior::initial(),
    {
        Behavior::new()
    }
}

impl PaneRegistry {
    /// Carries out the pending close mark: the marked tile is deleted and
    /// the mark is gone. To be called once per tick, after the panes were
    /// drawn. Gives the id of the tile that was marked.
    pub fn apply_close(&mut self, behavior: &mut Behavior) -> (closed: Option<u64>)
        ensures
            closed == old(behavior).close,
            *final(behavior) == (Behavior { close: None, ..*old(behavior) }),
            final(self)@ == match closed {
                Some(id) => old(self)@.removed(id),
                None => old(self)@,
            },
    {
        let closed = behavior.take_close();
        match closed {
            Some(id) => {
                self.remove(id);
            },
            None => {},
        }
        closed
    }
}

} // verus!
