use crate::config::Config;
use crate::emoji_searcher::{emoji_search_outcome, EmojiSearcher};
use crate::file_searcher::{ConfigError, built_from, file_search_outcome, home_dir, FileSearcher};
use crate::search_result_entry::SearchResultEntry;
use crate::searcher::{Effect, Searcher};
use vstd::prelude::*;

verus! {

/// The provider of the current search.
pub enum ActiveSearcher {
    Emoji(EmojiSearcher),
    File(FileSearcher),
}

/// Whether `pattern` is an emoji pattern, which starts with `:`.
pub open spec fn is_emoji_pattern(pattern: Seq<char>) -> bool {
    pattern.len() > 0 && pattern[0] == ':'
}

/// Owns the one current search: hands out search ids, picks the provider
/// for each new pattern and routes execution to it.
pub struct SearchManager {
    config: Config,
    current_searcher: Option<ActiveSearcher>,
    current_search_id: u32,
}

/// `after` is `before` once a search has run, and `id` is the id it returned.
pub open spec fn search_step(before: SearchManager, after: SearchManager, id: u32) -> bool {
    &&& after.search_id() == before.search_id() + 1
    &&& id == after.search_id()
    &&& after.config() == before.config()
}

/// What a search for `pattern` under the id `id` leaves as the provider and
/// gives as results: an emoji pattern goes to the emoji provider; any other
/// goes to a file searcher built from `config`, or to none only when building
/// it fails, which gives no results.
pub open spec fn search_outcome(
    config: Config,
    pattern: Seq<char>,
    id: u32,
    searcher: Option<ActiveSearcher>,
    r: Option<Vec<SearchResultEntry>>,
) -> bool {
    &&& is_emoji_pattern(pattern) ==> searcher is Some && searcher->0 is Emoji
    &&& !is_emoji_pattern(pattern) ==> searcher is None || searcher->0 is File
    &&& searcher is None ==> r is None
    &&& !is_emoji_pattern(pattern) && searcher is None ==> exists|home: Option<String>, e: ConfigError|
        built_from(config, home, Err(e))
    &&& searcher is Some && searcher->0 is Emoji ==> emoji_search_outcome(
        searcher->0->Emoji_0,
        pattern,
        id,
        r,
    )
    &&& searcher is Some && searcher->0 is File ==> {
        &&& exists|home: Option<String>| built_from(config, home, Ok(searcher->0->File_0))
        &&& file_search_outcome(searcher->0->File_0, pattern, id, r)
    }
}

fn stop_searcher(searcher: Option<ActiveSearcher>) {
    match searcher {
        Some(ActiveSearcher::Emoji(mut e)) => e.stop(),
        Some(ActiveSearcher::File(mut f)) => f.stop(),
        None => {},
    }
}

impl SearchManager {
    /// The id of the latest search.
    pub closed spec fn search_id(&self) -> u32 {
        self.current_search_id
    }

    /// The provider of the latest search, if any.
    pub closed spec fn searcher(&self) -> Option<ActiveSearcher> {
        self.current_searcher
    }

    /// The configuration that file searchers are built from.
    pub closed spec fn config(&self) -> Config {
        self.config
    }

    pub fn new(config: Config) -> (r: Self)
        ensures
            r.search_id() == 0,
            r.searcher() is None,
            r.config() == config,
    {
        SearchManager { config, current_searcher: None, current_search_id: 0 }
    }

    /// The id of the latest search.
    pub fn current_search_id(&self) -> (r: u32)
        ensures
            r == self.search_id(),
    {
        self.current_search_id
    }

    /// The provider for `pattern`, tried most specific first: emoji, then
    /// files, which take every pattern.
    fn find_searcher(&self, pattern: &str) -> (r: Option<ActiveSearcher>)
        ensures
            is_emoji_pattern(pattern@) ==> r is Some && r->0 is Emoji,
            !is_emoji_pattern(pattern@) ==> r is None || r->0 is File,
            r is Some && r->0 is File ==> exists|home: Option<String>|
                built_from(self.config, home, Ok(r->0->File_0)),
            !is_emoji_pattern(pattern@) && r is None ==> exists|home: Option<String>, e: ConfigError|
                built_from(self.config, home, Err(e)),
    {
        let emoji = EmojiSearcher::new();
        if emoji.handles(pattern) {
            return Some(ActiveSearcher::Emoji(emoji));
        }
        let home = home_dir();
        let ghost g = home;
        let built = FileSearcher::with_home(&self.config, home);
        let ghost b = built;
        match built {
            Ok(f) => {
                assert(b == Ok::<FileSearcher, ConfigError>(f));
                assert(built_from(self.config, g, Ok(f)));
                let r = Some(ActiveSearcher::File(f));
                assert(r->0->File_0 == f);
                r
            },
            Err(e) => {
                assert(b == Err::<FileSearcher, ConfigError>(e));
                assert(built_from(self.config, g, Err(e)));
                None
            },
        }
    }

    /// Starts a search for `pattern`: the id goes up first, whatever follows,
    /// the previous provider is asked to stop, and the provider for `pattern`
    /// becomes current. Returns the new id and the results, each tagged
    /// with it.
    pub fn search(&mut self, pattern: String) -> (r: (u32, Option<Vec<SearchResultEntry>>))
        requires
            old(self).search_id() < u32::MAX,
        ensures
            search_step(*old(self), *final(self), r.0),
            search_outcome(old(self).config(), pattern@, r.0, final(self).searcher(), r.1),
            r.1 is Some ==> forall|i: int| 0 <= i < r.1->0.len() ==> (#[trigger] r.1->0[i]).search_id == r.0,
    {
        self.current_search_id = self.current_search_id + 1;
        let id = self.current_search_id;
        let previous = self.current_searcher.take();
        stop_searcher(previous);
        let found = self.find_searcher(pattern.as_str());
        let (current, results) = match found {
            Some(ActiveSearcher::Emoji(mut e)) => {
                let r = e.search(pattern, id);
                (Some(ActiveSearcher::Emoji(e)), r)
            },
            Some(ActiveSearcher::File(mut f)) => {
                let r = f.search(pattern, id);
                (Some(ActiveSearcher::File(f)), r)
            },
            None => (None, None),
        };
        self.current_searcher = current;
        (id, results)
    }

    /// The effect of executing `value` with the current provider; none when
    /// there is no current provider.
    pub fn execute(&mut self, value: String) -> (r: Option<Effect>)
        ensures
            *final(self) == *old(self),
            old(self).searcher() is None <==> r is None,
            old(self).searcher() is Some && old(self).searcher()->0 is Emoji ==> r == Some(
                Effect::CopyAndExit(value),
            ),
            old(self).searcher() is Some && old(self).searcher()->0 is File ==> r == Some(
                Effect::Open(value),
            ),
    {
        match &self.current_searcher {
            Some(ActiveSearcher::Emoji(e)) => Some(e.execute(value)),
            Some(ActiveSearcher::File(f)) => Some(f.execute(value)),
            None => None,
        }
    }

    /// The effect of the alternate execution of `value` with the current
    /// provider; none when there is no provider or it has no alternate.
    pub fn alt_execute(&mut self, value: String) -> (r: Option<Effect>)
        ensures
            *final(self) == *old(self),
            old(self).searcher() is Some && old(self).searcher()->0 is File ==> r == Some(
                Effect::CopyCanonicalPathAndExit(value),
            ),
            !(old(self).searcher() is Some && old(self).searcher()->0 is File) ==> r is None,
    {
        match &self.current_searcher {
            Some(ActiveSearcher::Emoji(e)) => e.alt_execute(value),
            Some(ActiveSearcher::File(f)) => f.alt_execute(value),
            None => None,
        }
    }
}

/// Ids only grow: after two searches in a row the second id is larger, so
/// an entry of the first search is stale to a consumer holding the second.
pub proof fn earlier_results_are_stale(
    m0: SearchManager,
    m1: SearchManager,
    m2: SearchManager,
    id1: u32,
    id2: u32,
    e: SearchResultEntry,
)
    requires
        search_step(m0, m1, id1),
        search_step(m1, m2, id2),
        e.search_id == id1,
    ensures
        id1 < id2,
        e.search_id != m2.search_id(),
{
}

} // verus!
