use vstd::prelude::*;

verus! {

/// An input event of the launcher window.
#[derive(Clone)]
pub enum UserEvent {
    UpdateList(String),
    FocusOnList,
    SelectListEntry(String),
    Reset,
}

} // verus!
