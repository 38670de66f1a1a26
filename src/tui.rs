//! The state of the playlist view: the entries shown, the marked position
//! and the terminal size, and how input events change it.

use vstd::prelude::*;

verus! {

/// What the view shows of one playlist entry.
#[derive(Debug, Clone, PartialEq, Eq)]
pub struct PlaylistItem {
    pub id: usize,
    pub filename: String,
}

/// An input event, as the view reads it.
#[derive(Debug, Clone, Copy, PartialEq, Eq)]
pub enum TuiEvent {
    /// The escape key.
    Escape,
    /// Another key.
    Key,
    /// The terminal now has this many columns and rows.
    Resize(u16, u16),
    /// No event arrived in time.
    Idle,
}

/// What the view does after an event.
#[derive(Debug, Clone, Copy, PartialEq, Eq)]
pub enum TuiAction {
    /// Keep showing the view and wait for the next event.
    Continue,
    /// Leave the view.
    Leave,
}

/// The playlist view.
#[derive(Debug, Clone, PartialEq, Eq)]
pub struct Tui {
    pub playlist_data: Option<Vec<PlaylistItem>>,
    /// The marked position.
    pub index: usize,
    /// The last terminal size reported.
    pub window: Option<(u16, u16)>,
}

impl Tui {
    /// The number of entries shown.
    pub open spec fn len_spec(&self) -> nat {
        match self.playlist_data {
            Some(d) => d@.len(),
            None => 0,
        }
    }

    /// A view of `entries`, marking position 0, with no terminal size known.
    pub fn new(entries: Vec<PlaylistItem>) -> (r: Tui)
        ensures
            r.playlist_data == Some(entries),
            r.index == 0,
            r.window is None,
    {
        Tui { playlist_data: Some(entries), index: 0, window: None }
    }

    /// The number of entries shown; none when there is no playlist.
    pub fn playlist_len(&self) -> (r: usize)
        ensures
            r == self.len_spec(),
    {
        if let Some(d) = &self.playlist_data {
            return d.len();
        }
        0
    }

    /// Moves the mark one position on, as far as the number of entries.
    pub fn up(&mut self)
        ensures
            final(self).playlist_data == old(self).playlist_data,
            final(self).window == old(self).window,
            final(self).index == if old(self).index < old(self).len_spec() {
                old(self).index + 1
            } else {
                old(self).index as int
            },
    {
        if self.playlist_len() > self.index {
            self.index = self.index + 1;
        }
    }

    /// Moves the mark one position back, not below 0.
    pub fn down(&mut self)
        ensures
            final(self).playlist_data == old(self).playlist_data,
            final(self).window == old(self).window,
            final(self).index == if old(self).index > 0 {
                old(self).index - 1
            } else {
                0
            },
    {
        if 0 != self.index {
            self.index = self.index - 1;
        }
    }

    /// The entry with this id is the marked one.
    pub fn is_selected(&self, id: usize) -> (r: bool)
        ensures
            r == (id == self.index),
    {
        id == self.index
    }

    /// Takes in one event: escape leaves the view, a resize records the
    /// new size, and anything else changes nothing.
    pub fn handle_event(&mut self, event: TuiEvent) -> (r: TuiAction)
        ensures
            final(self).playlist_data == old(self).playlist_data,
            final(self).index == old(self).index,
            event is Escape <==> r == TuiAction::Leave,
            final(self).window == match event {
                TuiEvent::Resize(c, w) => Some((c, w)),
                _ => old(self).window,
            },
    {
        match event {
            TuiEvent::Escape => TuiAction::Leave,
            TuiEvent::Resize(c, w) => {
                self.window = Some((c, w));
                TuiAction::Continue
            },
            _ => TuiAction::Continue,
        }
    }
}

} // verus!
