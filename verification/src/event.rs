//! Window transitions as the log keeps them.

use crate::timestamp::Timestamp;
use vstd::prelude::*;
use vstd::string::*;

verus! {

/// The kinds of window transition that the log keeps.
#[derive(Clone, Copy, Debug, PartialEq, Eq, Structural)]
pub enum ChangeType {
    New,
    Close,
    Focus,
}

/// The word by which the window manager and the log call a change type.
pub open spec fn change_name(change: ChangeType) -> Seq<char> {
    match change {
        ChangeType::New => "new"@,
        ChangeType::Close => "close"@,
        ChangeType::Focus => "focus"@,
    }
}

/// The change type that a word names; `None` for every other word.
pub open spec fn named_change(name: Seq<char>) -> Option<ChangeType> {
    if name == "new"@ {
        Some(ChangeType::New)
    } else if name == "close"@ {
        Some(ChangeType::Close)
    } else if name == "focus"@ {
        Some(ChangeType::Focus)
    } else {
        None
    }
}

/// The three names differ, so each names its own change type.
pub proof fn lemma_change_name_round_trip(change: ChangeType)
    ensures
        named_change(change_name(change)) == Some(change),
{
    reveal_strlit("new");
    reveal_strlit("close");
    reveal_strlit("focus");
    assert("new"@.len() == 3 && "close"@.len() == 5 && "focus"@.len() == 5);
    assert("close"@[0] == 'c' && "focus"@[0] == 'f');
}

/// Whether two strings hold the same characters.
pub(crate) fn same_text(a: &str, b: &str) -> (r: bool)
    ensures
        r == (a@ == b@),
{
    a.to_owned() == b.to_owned()
}

impl ChangeType {
    /// The name of this change type.
    pub fn name(self) -> (r: &'static str)
        ensures
            r@ == change_name(self),
    {
        match self {
            ChangeType::New => "new",
            ChangeType::Close => "close",
            ChangeType::Focus => "focus",
        }
    }

    /// The change type called `name`; `None` where `name` is none of the
    /// three names.
    pub fn from_name(name: &str) -> (r: Option<ChangeType>)
        ensures
            r == named_change(name@),
    {
        if same_text(name, "new") {
            Some(ChangeType::New)
        } else if same_text(name, "close") {
            Some(ChangeType::Close)
        } else if same_text(name, "focus") {
            Some(ChangeType::Focus)
        } else {
            None
        }
    }
}

/// One observed window transition.
#[derive(Debug, PartialEq, Eq)]
pub struct Event {
    /// What happened to the window.
    pub change_type: ChangeType,
    /// When the transition was classified.
    pub timestamp: Timestamp,
    /// The window manager's identifier of the window.
    pub window_id: i64,
    /// The application that owns the window.
    pub app_id: String,
}

/// The mathematical value of an [`Event`].
pub struct EventView {
    pub change_type: ChangeType,
    /// Nanoseconds since the epoch.
    pub timestamp: nat,
    pub window_id: i64,
    pub app_id: Seq<char>,
}

impl View for Event {
    type V = EventView;

    open spec fn view(&self) -> EventView {
        EventView {
            change_type: self.change_type,
            timestamp: self.timestamp@,
            window_id: self.window_id,
            app_id: self.app_id@,
        }
    }
}

impl Clone for Event {
    fn clone(&self) -> (r: Event)
        ensures
            r == *self,
    {
        Event {
            change_type: self.change_type,
            timestamp: self.timestamp,
            window_id: self.window_id,
            app_id: self.app_id.clone(),
        }
    }
}

/// The values of a sequence of events, in the same order.
pub open spec fn events_view(events: Seq<Event>) -> Seq<EventView> {
    events.map_values(|e: Event| e@)
}

/// Copies a sequence of events.
pub fn copy_events(events: &Vec<Event>) -> (r: Vec<Event>)
    ensures
        r@ == events@,
{
    let mut copy: Vec<Event> = Vec::new();
    let mut i: usize = 0;
    while i < events.len()
        invariant
            i <= events.len(),
            copy@ == events@.subrange(0, i as int),
        decreases events.len() - i,
    {
        copy.push(events[i].clone());
        assert(copy@ =~= events@.subrange(0, i + 1));
        i = i + 1;
    }
    assert(copy@ =~= events@);
    copy
}

} // verus!
