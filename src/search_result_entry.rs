use vstd::prelude::*;

verus! {

/// One line of a result list. `value` is what executing the entry acts on;
/// without it the `label` is used. An entry that is not `valid` only carries a
/// message and is never executed. `search_id` names the search that made it.
#[derive(Clone)]
pub struct SearchResultEntry {
    pub label: String,
    pub value: Option<String>,
    pub search_id: u32,
    pub valid: bool,
}

/// What executing `e` acts on: its value, or else its label.
pub open spec fn execution_text(e: SearchResultEntry) -> Seq<char> {
    match e.value {
        Some(v) => v@,
        None => e.label@,
    }
}

fn copy_text(s: &Option<String>) -> (r: Option<String>)
    ensures
        r == *s,
{
    match s {
        Some(v) => Some(v.clone()),
        None => None,
    }
}

impl SearchResultEntry {
    pub fn new(label: String, value: Option<String>, search_id: u32, valid: bool) -> (r: Self)
        ensures
            r == (SearchResultEntry { label, value, search_id, valid }),
    {
        SearchResultEntry { label, value, search_id, valid }
    }

    /// A field-for-field copy.
    pub fn duplicate(&self) -> (r: Self)
        ensures
            r == *self,
    {
        SearchResultEntry {
            label: self.label.clone(),
            value: copy_text(&self.value),
            search_id: self.search_id,
            valid: self.valid,
        }
    }

    /// Whether the entry belongs to the search whose id is `current_search_id`;
    /// entries of any other search are stale.
    pub fn is_current(&self, current_search_id: u32) -> (r: bool)
        ensures
            r == (self.search_id == current_search_id),
    {
        self.search_id == current_search_id
    }

    /// The text to execute when the entry is chosen while `current_search_id`
    /// is the current search: none for a stale or message-only entry.
    pub fn executable_value(&self, current_search_id: u32) -> (r: Option<String>)
        ensures
            r is Some <==> self.search_id == current_search_id && self.valid,
            r is Some ==> r->0@ == execution_text(*self),
    {
        if self.search_id == current_search_id && self.valid {
            match &self.value {
                Some(v) => Some(v.clone()),
                None => Some(self.label.clone()),
            }
        } else {
            None
        }
    }
}

/// The entries of `entries` that belong to the current search, in order.
pub fn current_entries(entries: &Vec<SearchResultEntry>, current_search_id: u32) -> (r: Vec<
    SearchResultEntry,
>)
    ensures
        r@ == entries@.filter(|e: SearchResultEntry| e.search_id == current_search_id),
{
    let mut out: Vec<SearchResultEntry> = Vec::new();
    let mut i: usize = 0;
    while i < entries.len()
        invariant
            i <= entries.len(),
            out@ == entries@.subrange(0, i as int).filter(
                |e: SearchResultEntry| e.search_id == current_search_id,
            ),
        decreases entries.len() - i,
    {
        proof {
            assert(entries@.subrange(0, i + 1).drop_last() =~= entries@.subrange(0, i as int));
            reveal(Seq::filter);
        }
        if entries[i].search_id == current_search_id {
            out.push(entries[i].duplicate());
        }
        i += 1;
    }
    proof {
        assert(entries@.subrange(0, entries.len() as int) =~= entries@);
        reveal(Seq::filter);
    }
    out
}

} // verus!
