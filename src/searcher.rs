use crate::search_result_entry::SearchResultEntry;
use vstd::prelude::*;

verus! {

/// A side effect that executing an entry asks of the host.
pub enum Effect {
    /// Open the path with the desktop's default handler. A successful launch
    /// replaces the launcher's process; a failed one returns to the caller.
    Open(String),
    /// Put the text on the clipboard and end the process.
    CopyAndExit(String),
    /// Resolve the path to its canonical absolute form, then put that on the
    /// clipboard and end the process; if it cannot be resolved, nothing is done.
    CopyCanonicalPathAndExit(String),
}

/// A search provider.
pub trait Searcher {
    /// Whether this provider takes `pattern`.
    fn handles(&self, pattern: &str) -> bool;

    /// Searches for `pattern`. `None` means the pattern is not yet eligible and
    /// nothing is shown; otherwise every entry carries `search_id`.
    fn search(&mut self, pattern: String, search_id: u32) -> (r: Option<Vec<SearchResultEntry>>)
        ensures
            r is Some ==> forall|i: int| 0 <= i < r->0.len() ==> (#[trigger] r->0[i]).search_id == search_id,
    ;

    /// The effect of executing `value`.
    fn execute(&self, value: String) -> Effect;

    /// The effect of the alternate execution of `value`, if this provider has one.
    fn alt_execute(&self, value: String) -> Option<Effect>;

    /// Asks a running search to stop early.
    fn stop(&mut self);
}

} // verus!
