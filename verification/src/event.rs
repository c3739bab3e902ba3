//! The change events consumed from the watch stream.

use vstd::prelude::*;
use crate::resource::{Object, ObjectView};

verus! {

/// A discrete change notification, one per watch-stream delivery.
pub enum Event {
    /// The resource was created or updated.
    Applied(Object),
    /// The resource was removed.
    Deleted(Object),
    /// Full resynchronisation: the list is the complete current state.
    Restarted(Vec<Object>),
}

/// The mathematical value of an [`Event`].
pub enum EventView {
    Applied(ObjectView),
    Deleted(ObjectView),
    Restarted(Seq<ObjectView>),
}

impl View for Event {
    type V = EventView;

    open spec fn view(&self) -> EventView {
        match self {
            Event::Applied(o) => EventView::Applied(o@),
            Event::Deleted(o) => EventView::Deleted(o@),
            Event::Restarted(list) => EventView::Restarted(
                list@.map_values(|o: Object| o@),
            ),
        }
    }
}

} // verus!
