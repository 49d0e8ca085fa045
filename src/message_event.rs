use crate::search_result_entry::SearchResultEntry;
use vstd::prelude::*;

verus! {

/// A message passed around the launcher's event loop.
#[derive(Clone)]
pub enum MessageEvent {
    /// A search for the pattern should start.
    StartSearch(String),
    /// Results of a search arrived.
    UpdateList(Vec<SearchResultEntry>),
    /// The result list should take the focus.
    FocusOnBrowser,
    /// The selected entry should be executed; `true` asks for the alternate
    /// execution.
    ExecuteEntry(bool),
}

} // verus!
