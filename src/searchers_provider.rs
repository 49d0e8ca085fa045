use crate::emoji_searcher::EmojiSearcher;
use crate::search_manager::is_emoji_pattern;
use crate::searcher::Searcher;
use vstd::prelude::*;

verus! {

/// The registry of specialised providers, without the file searcher that
/// takes every pattern.
pub struct SearchersProvider {}

impl SearchersProvider {
    pub fn new() -> Self {
        SearchersProvider {}
    }

    /// The first specialised provider that takes `pattern`, if any.
    pub fn find_provider(&self, pattern: &str) -> (r: Option<EmojiSearcher>)
        ensures
            r is Some <==> is_emoji_pattern(pattern@),
    {
        let emoji = EmojiSearcher::new();
        if emoji.handles(pattern) {
            Some(emoji)
        } else {
            None
        }
    }
}

} // verus!
