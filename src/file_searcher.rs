use crate::config::Config;
use crate::filenames::{
    basename, is_short_labelling, join_paths, label_start, last_component_start,
    map_filenames_to_short_names, path_join, path_set, separator_count, views,
};
use crate::pattern::{push_wildcard_regex, regex_compiles, regex_finds, wildcard_regex, Pattern};
use crate::search_result_entry::SearchResultEntry;
use crate::searcher::{Effect, Searcher};
use vstd::prelude::*;
use walkdir::WalkDir;

verus! {

/// Matches a pattern holding any character besides word characters and `-*_. /&'`.
pub const DISALLOWED_PATH_CHARS: &'static str = "[^-\\w*_. /&']";

/// Label of the entry that reports a pattern with a disallowed character.
pub const DISALLOWED_CHARS_MESSAGE: &'static str = "Only alphanum and `*_-. /&` are allowed";

/// Shortest pattern that is searched for.
pub const MIN_CHARS: usize = 2;

/// Depth limit of a search path given without one.
pub const UNBOUNDED_DEPTH: usize = 255;

/// Why a file searcher could not be built from its configuration.
#[derive(Debug)]
pub enum ConfigError {
    /// A relative path is configured but the home directory is unknown.
    MissingHomeDirectory,
    /// This regular expression, made from the configuration, was rejected.
    InvalidRegex(String),
    /// This search-path definition ends in `{…}` that is not a one-digit
    /// depth limit after a path.
    InvalidDepthSuffix(String),
}

/// A decimal digit `0` to `9`.
pub open spec fn is_ascii_digit(c: char) -> bool {
    '0' <= c && c <= '9'
}

/// A path that starts at the file-system root.
pub open spec fn is_absolute(p: Seq<char>) -> bool {
    p.len() > 0 && p[0] == '/'
}

/// `p` taken from the home directory `home` unless it is absolute.
pub open spec fn from_home(p: Seq<char>, home: Seq<char>) -> Seq<char> {
    if is_absolute(p) {
        p
    } else {
        path_join(home, p)
    }
}

/// A search-path definition ending in `{N}`, `N` a decimal digit, after at
/// least one character of path.
pub open spec fn has_depth_suffix(d: Seq<char>) -> bool {
    d.len() >= 4 && d[d.len() - 1] == '}' && d[d.len() - 3] == '{' && is_ascii_digit(d[d.len() - 2])
}

/// A search-path definition that ends in `{…}` which is not a one-digit
/// depth limit after at least one character of path.
pub open spec fn has_bad_depth_suffix(d: Seq<char>) -> bool {
    &&& d.len() > 0
    &&& d.last() == '}'
    &&& exists|i: int| 0 <= i < d.len() - 1 && d[i] == '{'
    &&& !has_depth_suffix(d)
}

/// The path part of a search-path definition.
pub open spec fn definition_path(d: Seq<char>) -> Seq<char> {
    if has_depth_suffix(d) {
        d.subrange(0, d.len() - 3)
    } else {
        d
    }
}

/// The depth limit of a search-path definition.
pub open spec fn definition_depth(d: Seq<char>) -> usize {
    if has_depth_suffix(d) {
        (d[d.len() - 2] as u32 - '0' as u32) as usize
    } else {
        UNBOUNDED_DEPTH
    }
}

/// The root and depth limit that a search-path definition stands for.
pub open spec fn search_path_spec(d: Seq<char>, home: Seq<char>) -> (Seq<char>, usize) {
    (from_home(definition_path(d), home), definition_depth(d))
}

/// The case-insensitive, fully anchored regular expression of a skip path.
pub open spec fn skip_regex(d: Seq<char>, home: Seq<char>) -> Seq<char> {
    seq!['(', '?', 'i', ')', '^'] + wildcard_regex(from_home(d, home)) + seq!['$']
}

/// The case-insensitive regular expression of a search pattern.
pub open spec fn name_regex(p: Seq<char>) -> Seq<char> {
    seq!['(', '?', 'i', ')'] + wildcard_regex(p)
}

/// Whether `p` holds a character that patterns may not contain.
pub open spec fn has_disallowed_char(p: Seq<char>) -> bool {
    regex_finds(DISALLOWED_PATH_CHARS@, p)
}

/// A hidden entry: the last component, after a separator, starts with `.`
/// and has more to it.
pub open spec fn is_hidden(p: Seq<char>) -> bool {
    label_start(p, 1) > 0 && basename(p).len() >= 2 && basename(p)[0] == '.'
}

/// Whether some configured path is relative and so needs the home directory.
pub open spec fn needs_home(config: Config) -> bool {
    (exists|i: int|
        0 <= i < config.search_paths.len() && !is_absolute(
            definition_path(#[trigger] config.search_paths[i]@),
        )) || (exists|i: int|
        0 <= i < config.skip_paths.len() && !is_absolute(#[trigger] config.skip_paths[i]@))
}

/// The home directory, or nothing when it is unknown.
pub open spec fn home_or_empty(home: Option<String>) -> Seq<char> {
    match home {
        Some(h) => h@,
        None => Seq::empty(),
    }
}

/// The depth a walk limited to `max_depth` levels goes to: the walk starts
/// one level below its root, so a limit of 0 acts as 1.
pub open spec fn effective_depth(max_depth: usize) -> nat {
    if max_depth == 0 {
        1
    } else {
        max_depth as nat
    }
}

/// Where the children of the directory `root` start: after a separator.
pub open spec fn dir_base(root: Seq<char>) -> Seq<char> {
    if root.len() == 0 || root.last() == '/' {
        root
    } else {
        root.push('/')
    }
}

/// Whether `j` ends a component of `p` that lies below `root`: `p` cut at
/// `j` is `root`'s child or a deeper descendant on the way to `p`.
pub open spec fn ends_component_below(root: Seq<char>, p: Seq<char>, j: int) -> bool {
    dir_base(root).len() < j <= p.len() && (j == p.len() || p[j] == '/')
}

/// Whether the last component of `p` matches `name_src`.
pub open spec fn name_matches(name_src: Seq<char>, p: Seq<char>) -> bool {
    regex_finds(name_src, basename(p))
}

/// The paths of the walks, in order, whose names match `name_src`.
pub open spec fn selected(walks: Seq<Seq<String>>, name_src: Seq<char>) -> Seq<Seq<char>>
    decreases walks.len(),
{
    if walks.len() == 0 {
        Seq::empty()
    } else {
        selected(walks.drop_last(), name_src) + views(walks.last()).filter(
            |p: Seq<char>| name_matches(name_src, p),
        )
    }
}

proof fn lemma_chosen_member(v: Seq<Seq<char>>, name_src: Seq<char>, i: int)
    requires
        0 <= i < v.filter(|p: Seq<char>| name_matches(name_src, p)).len(),
    ensures
        ({
            let x = v.filter(|p: Seq<char>| name_matches(name_src, p))[i];
            name_matches(name_src, x) && exists|k: int| 0 <= k < v.len() && v[k] == x
        }),
    decreases v.len(),
{
    reveal(Seq::filter);
    let pred = |p: Seq<char>| name_matches(name_src, p);
    let rest = v.drop_last().filter(pred);
    if i < rest.len() {
        lemma_chosen_member(v.drop_last(), name_src, i);
        let k = choose|k: int| 0 <= k < v.drop_last().len() && v.drop_last()[k] == rest[i];
        assert(v[k] == rest[i]);
    } else {
        assert(v[v.len() - 1] == v.filter(pred)[i]);
    }
}

/// A selected path comes from some walk and its name matches.
proof fn lemma_selected_member(walks: Seq<Seq<String>>, name_src: Seq<char>, i: int)
    requires
        0 <= i < selected(walks, name_src).len(),
    ensures
        name_matches(name_src, selected(walks, name_src)[i]),
        exists|w: int, k: int|
            0 <= w < walks.len() && 0 <= k < walks[w].len() && walks[w][k]@ == selected(
                walks,
                name_src,
            )[i],
    decreases walks.len(),
{
    let front = selected(walks.drop_last(), name_src);
    let pred = |p: Seq<char>| name_matches(name_src, p);
    let tail = views(walks.last()).filter(pred);
    if i < front.len() {
        lemma_selected_member(walks.drop_last(), name_src, i);
        let (w, k) = choose|w: int, k: int|
            0 <= w < walks.drop_last().len() && 0 <= k < walks.drop_last()[w].len()
                && walks.drop_last()[w][k]@ == front[i];
        assert(walks[w] == walks.drop_last()[w]);
    } else {
        lemma_chosen_member(views(walks.last()), name_src, i - front.len());
        let k = choose|k: int| 0 <= k < views(walks.last()).len() && views(walks.last())[k] == tail[i - front.len()];
        assert(walks[walks.len() - 1][k]@ == selected(walks, name_src)[i]);
    }
}

/// The (label, path) pair of each entry.
pub open spec fn entry_pairs(r: Seq<SearchResultEntry>) -> Seq<(String, String)> {
    r.map_values(|e: SearchResultEntry| (e.label, e.value->0))
}

/// Searches the configured directories for files whose names match a pattern.
pub struct FileSearcher {
    search_paths: Vec<(String, usize)>,
    skip_paths: Vec<Pattern>,
    disallowed: Pattern,
    stop_search: bool,
}

impl FileSearcher {
    /// The character rule is always the fixed one.
    #[verifier::type_invariant]
    spec fn inv(&self) -> bool {
        self.disallowed@ == DISALLOWED_PATH_CHARS@
    }

    /// The search roots with their depth limits.
    pub closed spec fn roots(&self) -> Seq<(Seq<char>, usize)> {
        self.search_paths@.map_values(|e: (String, usize)| (e.0@, e.1))
    }

    /// The sources of the skip rules.
    pub closed spec fn skip_sources(&self) -> Seq<Seq<char>> {
        self.skip_paths@.map_values(|p: Pattern| p@)
    }

    /// Whether a stop was requested.
    pub closed spec fn is_stopped(&self) -> bool {
        self.stop_search
    }

    /// Whether the walk goes into and reports `p`: no stop was requested, `p`
    /// is not hidden and no skip rule matches it.
    pub open spec fn keeps(&self, p: Seq<char>) -> bool {
        &&& !self.is_stopped()
        &&& !is_hidden(p)
        &&& forall|i: int| 0 <= i < self.skip_sources().len() ==> !regex_finds(#[trigger] self.skip_sources()[i], p)
    }

    /// `p` is what a walk of `root` down to `max_depth` levels can report: a
    /// descendant of `root` such that it and every directory between them is
    /// kept.
    pub open spec fn reached(&self, root: Seq<char>, max_depth: usize, p: Seq<char>) -> bool {
        let b = dir_base(root);
        &&& b.len() < p.len()
        &&& p.subrange(0, b.len() as int) == b
        &&& p[b.len() as int] != '/'
        &&& separator_count(p.subrange(b.len() as int, p.len() as int)) < effective_depth(max_depth)
        &&& forall|j: int| #[trigger]
            ends_component_below(root, p, j) ==> self.keeps(p.subrange(0, j))
    }

    /// Whether some skip rule matches `s`.
    pub open spec fn skip_rule_matches(&self, s: Seq<char>) -> bool {
        exists|i: int| 0 <= i < self.skip_sources().len() && regex_finds(#[trigger] self.skip_sources()[i], s)
    }

    /// Whether `root`, or a directory it lies in, is matched by a skip rule.
    pub open spec fn under_skip_rule(&self, root: Seq<char>) -> bool {
        exists|j: int|
            0 < j <= root.len() && (j == root.len() || root[j] == '/') && #[trigger] self.skip_rule_matches(
                root.subrange(0, j),
            )
    }

    /// `walks` holds one walk per search root, each listing only paths
    /// reached under its root.
    pub open spec fn walks_fit(&self, walks: Seq<Seq<String>>) -> bool {
        &&& walks.len() == self.roots().len()
        &&& forall|w: int|
            0 <= w < walks.len() && #[trigger] walks[w].len() > 0 ==> !self.under_skip_rule(
                self.roots()[w].0,
            )
        &&& forall|w: int, k: int|
            0 <= w < walks.len() && 0 <= k < walks[w].len() ==> self.reached(
                self.roots()[w].0,
                self.roots()[w].1,
                #[trigger] walks[w][k]@,
            )
    }

    /// `p` was reached under some search root and its name matches `name_src`.
    pub open spec fn matched(&self, name_src: Seq<char>, p: Seq<char>) -> bool {
        exists|i: int|
            0 <= i < self.roots().len() && self.reached(
                #[trigger] self.roots()[i].0,
                self.roots()[i].1,
                p,
            ) && regex_finds(name_src, basename(p))
    }

    /// Splits a search-path definition into its path part and depth limit.
    fn split_definition(definition: &str) -> (r: (&str, usize))
        ensures
            r.0@ == definition_path(definition@),
            r.1 == definition_depth(definition@),
    {
        let len = definition.unicode_len();
        if len >= 4 && definition.get_char(len - 1) == '}' && definition.get_char(len - 3) == '{' {
            let c = definition.get_char(len - 2);
            if '0' <= c && c <= '9' {
                return (definition.substring_char(0, len - 3), (c as u32 - '0' as u32) as usize);
            }
        }
        (definition, UNBOUNDED_DEPTH)
    }

    fn starts_absolute(p: &str) -> (r: bool)
        ensures
            r == is_absolute(p@),
    {
        p.unicode_len() > 0 && p.get_char(0) == '/'
    }

    fn depth_suffix_is_bad(definition: &str) -> (r: bool)
        ensures
            r == has_bad_depth_suffix(definition@),
    {
        let len = definition.unicode_len();
        if len == 0 || definition.get_char(len - 1) != '}' {
            return false;
        }
        let mut i: usize = 0;
        let mut opened = false;
        while i < len - 1
            invariant
                len == definition@.len(),
                len > 0,
                i <= len - 1,
                opened <==> exists|k: int| 0 <= k < i && definition@[k] == '{',
            decreases len - 1 - i,
        {
            if definition.get_char(i) == '{' {
                opened = true;
            }
            i += 1;
        }
        if !opened {
            return false;
        }
        if len >= 4 && definition.get_char(len - 3) == '{' {
            let c = definition.get_char(len - 2);
            if '0' <= c && c <= '9' {
                return false;
            }
        }
        true
    }

    /// Parses a search-path definition, `path` or `path{N}` with `N` one
    /// digit, into its root and depth limit, taking a relative path from
    /// `home`. Any other ending in `{…}` is an error.
    pub fn process_search_path_definition(definition: &str, home: &str) -> (r: Result<
        (String, usize),
        ConfigError,
    >)
        ensures
            r is Err <==> has_bad_depth_suffix(definition@),
            r is Err ==> r->Err_0 is InvalidDepthSuffix && r->Err_0->InvalidDepthSuffix_0@
                == definition@,
            r is Ok ==> (r->Ok_0.0@, r->Ok_0.1) == search_path_spec(definition@, home@),
    {
        if Self::depth_suffix_is_bad(definition) {
            return Err(ConfigError::InvalidDepthSuffix(String::from_str(definition)));
        }
        let (path, depth) = Self::split_definition(definition);
        if Self::starts_absolute(path) {
            Ok((String::from_str(path), depth))
        } else {
            Ok((join_paths(home, path), depth))
        }
    }

    /// The regular expression of a skip-path definition: the path, taken from
    /// `home` when relative, must match in full, ignoring case, with `*`
    /// standing for any run of characters.
    pub fn skip_path_regex(definition: &str, home: &str) -> (r: String)
        ensures
            r@ == skip_regex(definition@, home@),
    {
        let len = definition.unicode_len();
        let full = if len > 0 && definition.get_char(0) == '/' {
            String::from_str(definition)
        } else {
            join_paths(home, definition)
        };
        proof {
            reveal_strlit("(?i)^");
            reveal_strlit("$");
        }
        let mut source = String::from_str("(?i)^");
        push_wildcard_regex(&mut source, full.as_str());
        source.append("$");
        source
    }

    /// Compiles a skip-path definition into its rule.
    pub fn process_skip_path_definition(definition: &str, home: &str) -> (r: Result<Pattern, ConfigError>)
        ensures
            r is Ok <==> regex_compiles(skip_regex(definition@, home@)),
            r is Ok ==> r->Ok_0@ == skip_regex(definition@, home@),
            r is Err ==> r->Err_0 is InvalidRegex && r->Err_0->InvalidRegex_0@ == skip_regex(
                definition@,
                home@,
            ),
    {
        let source = Self::skip_path_regex(definition, home);
        match Pattern::compile(source.clone()) {
            Ok(p) => Ok(p),
            Err(_) => Err(ConfigError::InvalidRegex(source)),
        }
    }
}

/// `r` is what building a file searcher from `config` gives when the home
/// directory is `home`.
pub open spec fn built_from(config: Config, home: Option<String>, r: Result<FileSearcher, ConfigError>) -> bool {
    let h = home_or_empty(home);
    let home_missing = home is None && needs_home(config);
    let bad_depth = exists|i: int|
        0 <= i < config.search_paths.len() && has_bad_depth_suffix(#[trigger] config.search_paths[i]@);
    let rules_compile = forall|i: int|
        0 <= i < config.skip_paths.len() ==> regex_compiles(
            #[trigger] skip_regex(config.skip_paths[i]@, h),
        );
    &&& (r is Err && r->Err_0 is MissingHomeDirectory) <==> home_missing
    &&& (r is Err && r->Err_0 is InvalidDepthSuffix) <==> !home_missing && bad_depth
    &&& r is Err && r->Err_0 is InvalidDepthSuffix ==> exists|i: int|
        0 <= i < config.search_paths.len() && r->Err_0->InvalidDepthSuffix_0@
            == #[trigger] config.search_paths[i]@
    &&& r is Ok <==> !home_missing && !bad_depth && rules_compile && regex_compiles(
        DISALLOWED_PATH_CHARS@,
    )
    &&& r is Err && r->Err_0 is InvalidRegex ==> {
        let src = r->Err_0->InvalidRegex_0@;
        &&& !regex_compiles(src)
        &&& src == DISALLOWED_PATH_CHARS@ || exists|i: int|
            0 <= i < config.skip_paths.len() && src == #[trigger] skip_regex(config.skip_paths[i]@, h)
    }
    &&& r is Ok ==> {
        &&& r->Ok_0.roots() == config.search_paths@.map_values(|d: String| search_path_spec(d@, h))
        &&& r->Ok_0.skip_sources() == config.skip_paths@.map_values(|d: String| skip_regex(d@, h))
        &&& !r->Ok_0.is_stopped()
    }
}

/// What a file search for `pattern` tagged `search_id` gives. A pattern with
/// a disallowed character gets one message-only entry; a pattern shorter
/// than `MIN_CHARS` gets no result list. Otherwise, once the pattern's
/// expression compiles, each entry is a reached path whose name matches,
/// under its short label among the paths found.
pub open spec fn file_search_outcome(
    f: FileSearcher,
    pattern: Seq<char>,
    search_id: u32,
    r: Option<Vec<SearchResultEntry>>,
) -> bool {
    &&& has_disallowed_char(pattern) ==> r is Some && r->0.len() == 1 && r->0[0].label@
        == DISALLOWED_CHARS_MESSAGE@ && r->0[0].value is None && r->0[0].search_id == search_id
        && !r->0[0].valid
    &&& !has_disallowed_char(pattern) && pattern.len() < MIN_CHARS ==> r is None
    &&& !has_disallowed_char(pattern) && pattern.len() >= MIN_CHARS ==> (r is Some <==> regex_compiles(
        name_regex(pattern),
    ))
    &&& !has_disallowed_char(pattern) && r is Some ==> {
        &&& forall|i: int|
            0 <= i < r->0.len() ==> (#[trigger] r->0[i]).valid && r->0[i].search_id == search_id
                && r->0[i].value is Some && f.matched(name_regex(pattern), r->0[i].value->0@)
        &&& exists|walks: Seq<Seq<String>>|
            f.walks_fit(walks) && is_short_labelling(
                #[trigger] selected(walks, name_regex(pattern)).to_set(),
                entry_pairs(r->0@),
            )
    }
}

/// Relies on `dirs::home_dir`: the current user's home directory, when one
/// is known and is valid Unicode.
#[verifier::external_body]
pub(crate) fn home_dir() -> (r: Option<String>) {
    match dirs::home_dir() {
        Some(p) => p.into_os_string().into_string().ok(),
        None => None,
    }
}

/// Relies on `std::path::Path::is_dir`: whether `path` names a directory at
/// the time of the call.
#[verifier::external_body]
fn is_dir(path: &str) -> (r: bool) {
    std::path::Path::new(path).is_dir()
}

fn config_needs_home(config: &Config) -> (r: bool)
    ensures
        r == needs_home(*config),
{
    let mut i: usize = 0;
    while i < config.search_paths.len()
        invariant
            i <= config.search_paths.len(),
            forall|k: int|
                0 <= k < i ==> is_absolute(definition_path(#[trigger] config.search_paths[k]@)),
        decreases config.search_paths.len() - i,
    {
        let (path, _) = FileSearcher::split_definition(config.search_paths[i].as_str());
        if !FileSearcher::starts_absolute(path) {
            return true;
        }
        i += 1;
    }
    let mut j: usize = 0;
    while j < config.skip_paths.len()
        invariant
            j <= config.skip_paths.len(),
            forall|k: int| 0 <= k < config.search_paths.len() ==> is_absolute(
                definition_path(#[trigger] config.search_paths[k]@),
            ),
            forall|k: int| 0 <= k < j ==> is_absolute(#[trigger] config.skip_paths[k]@),
        decreases config.skip_paths.len() - j,
    {
        if !FileSearcher::starts_absolute(config.skip_paths[j].as_str()) {
            return true;
        }
        j += 1;
    }
    false
}

/// One valid entry per (label, path) pair of the short labelling of `matches`.
pub fn entries_for_matches(matches: Vec<String>, search_id: u32) -> (r: Vec<SearchResultEntry>)
    ensures
        forall|i: int|
            0 <= i < r.len() ==> (#[trigger] r[i]).valid && r[i].search_id == search_id
                && r[i].value is Some,
        is_short_labelling(path_set(matches@), entry_pairs(r@)),
{
    let ghost m = matches@;
    let pairs = map_filenames_to_short_names(matches);
    let mut out: Vec<SearchResultEntry> = Vec::new();
    let mut i: usize = 0;
    while i < pairs.len()
        invariant
            i <= pairs.len(),
            out.len() == i,
            forall|k: int|
                0 <= k < i ==> (#[trigger] out[k]).valid && out[k].search_id == search_id
                    && out[k].value == Some(pairs[k].1) && out[k].label == pairs[k].0,
        decreases pairs.len() - i,
    {
        let e = SearchResultEntry::new(pairs[i].0.clone(), Some(pairs[i].1.clone()), search_id, true);
        out.push(e);
        i += 1;
    }
    proof {
        assert(entry_pairs(out@) =~= pairs@);
    }
    out
}

impl FileSearcher {
    /// Builds a file searcher from `config`, taking relative paths from `home`.
    pub fn with_home(config: &Config, home: Option<String>) -> (r: Result<FileSearcher, ConfigError>)
        ensures
            built_from(*config, home, r),
    {
        if home.is_none() && config_needs_home(config) {
            return Err(ConfigError::MissingHomeDirectory);
        }
        let ghost h = home_or_empty(home);
        let h_str: &str = match &home {
            Some(h) => h.as_str(),
            None => "",
        };
        proof {
            reveal_strlit("");
        }
        let mut search_paths: Vec<(String, usize)> = Vec::new();
        let mut i: usize = 0;
        while i < config.search_paths.len()
            invariant
                h_str@ == h,
                h == home_or_empty(home),
                !(home is None && needs_home(*config)),
                i <= config.search_paths.len(),
                search_paths.len() == i,
                forall|k: int|
                    0 <= k < i ==> (search_paths[k].0@, search_paths[k].1) == search_path_spec(
                        #[trigger] config.search_paths[k]@,
                        h,
                    ),
                forall|k: int| 0 <= k < i ==> !has_bad_depth_suffix(#[trigger] config.search_paths[k]@),
            decreases config.search_paths.len() - i,
        {
            match Self::process_search_path_definition(config.search_paths[i].as_str(), h_str) {
                Ok(root) => search_paths.push(root),
                Err(e) => {
                    return Err(e);
                },
            }
            i += 1;
        }
        let mut skip_paths: Vec<Pattern> = Vec::new();
        let mut j: usize = 0;
        while j < config.skip_paths.len()
            invariant
                h_str@ == h,
                h == home_or_empty(home),
                !(home is None && needs_home(*config)),
                j <= config.skip_paths.len(),
                skip_paths.len() == j,
                forall|k: int|
                    0 <= k < config.search_paths.len() ==> !has_bad_depth_suffix(
                        #[trigger] config.search_paths[k]@,
                    ),
                forall|k: int|
                    0 <= k < j ==> (#[trigger] skip_paths[k])@ == skip_regex(config.skip_paths[k]@, h),
                forall|k: int|
                    0 <= k < j ==> regex_compiles(#[trigger] skip_regex(config.skip_paths[k]@, h)),
            decreases config.skip_paths.len() - j,
        {
            match Self::process_skip_path_definition(config.skip_paths[j].as_str(), h_str) {
                Ok(rule) => skip_paths.push(rule),
                Err(e) => {
                    assert(!regex_compiles(skip_regex(config.skip_paths[j as int]@, h)));
                    return Err(e);
                },
            }
            j += 1;
        }
        let disallowed = match Pattern::compile(String::from_str(DISALLOWED_PATH_CHARS)) {
            Ok(p) => p,
            Err(_) => {
                return Err(ConfigError::InvalidRegex(String::from_str(DISALLOWED_PATH_CHARS)));
            },
        };
        let r = FileSearcher { search_paths, skip_paths, disallowed, stop_search: false };
        proof {
            assert(r.roots() =~= config.search_paths@.map_values(|d: String| search_path_spec(d@, h)));
            assert(r.skip_sources() =~= config.skip_paths@.map_values(|d: String| skip_regex(d@, h)));
        }
        Ok(r)
    }

    /// Builds a file searcher from `config`, taking relative paths from the
    /// current user's home directory.
    pub fn new(config: Config) -> (r: Result<FileSearcher, ConfigError>)
        ensures
            exists|home: Option<String>| built_from(config, home, r),
    {
        let home = home_dir();
        let ghost g = home;
        let r = Self::with_home(&config, home);
        assert(built_from(config, g, r));
        r
    }

    /// Whether the walk must leave out `fullname` (and, for a directory,
    /// everything below it): a name that is not valid Unicode, a hidden
    /// entry, or one that a skip rule matches.
    pub fn skip_entry(&self, fullname: Option<&str>) -> (r: bool)
        ensures
            r == match fullname {
                Some(s) => is_hidden(s@) || exists|i: int|
                    0 <= i < self.skip_sources().len() && regex_finds(
                        #[trigger] self.skip_sources()[i],
                        s@,
                    ),
                None => true,
            },
    {
        let name = match fullname {
            Some(s) => s,
            None => {
                return true;
            },
        };
        if is_hidden_path(name) {
            return true;
        }
        let mut i: usize = 0;
        while i < self.skip_paths.len()
            invariant
                fullname == Some(name),
                !is_hidden(name@),
                self.skip_sources().len() == self.skip_paths.len(),
                i <= self.skip_paths.len(),
                forall|k: int| 0 <= k < i ==> !regex_finds(#[trigger] self.skip_sources()[k], name@),
            decreases self.skip_paths.len() - i,
        {
            if self.skip_paths[i].is_match(name) {
                assert(self.skip_sources()[i as int] == self.skip_paths[i as int]@);
                return true;
            }
            assert(self.skip_sources()[i as int] == self.skip_paths[i as int]@);
            i += 1;
        }
        false
    }

    /// Whether some skip rule matches `s`.
    pub fn matches_skip_rule(&self, s: &str) -> (r: bool)
        ensures
            r == self.skip_rule_matches(s@),
    {
        let mut i: usize = 0;
        while i < self.skip_paths.len()
            invariant
                self.skip_sources().len() == self.skip_paths.len(),
                i <= self.skip_paths.len(),
                forall|k: int| 0 <= k < i ==> !regex_finds(#[trigger] self.skip_sources()[k], s@),
            decreases self.skip_paths.len() - i,
        {
            assert(self.skip_sources()[i as int] == self.skip_paths[i as int]@);
            if self.skip_paths[i].is_match(s) {
                return true;
            }
            i += 1;
        }
        false
    }

    /// Whether `root`, or a directory it lies in, is matched by a skip rule;
    /// such a root is not searched.
    pub fn root_under_skip_rule(&self, root: &str) -> (r: bool)
        ensures
            r == self.under_skip_rule(root@),
    {
        let len = root.unicode_len();
        if len == 0 {
            return false;
        }
        let mut j: usize = 1;
        loop
            invariant
                len == root@.len(),
                1 <= j <= len,
                forall|k: int|
                    0 < k < j && (k == len || root@[k] == '/') ==> !#[trigger] self.skip_rule_matches(
                        root@.subrange(0, k),
                    ),
            decreases len - j,
        {
            if j == len || root.get_char(j) == '/' {
                if self.matches_skip_rule(root.substring_char(0, j)) {
                    return true;
                }
            }
            if j == len {
                return false;
            }
            j += 1;
        }
    }

    /// Whether the walk goes into and reports `fullname`.
    pub fn keep_entry(&self, fullname: Option<&str>) -> (r: bool)
        ensures
            r == match fullname {
                Some(s) => self.keeps(s@),
                None => false,
            },
    {
        if self.stop_search {
            return false;
        }
        !self.skip_entry(fullname)
    }

    /// `path` itself when its last component matches `re_pattern`.
    pub fn include_entry(path: &str, re_pattern: &Pattern) -> (r: Option<String>)
        ensures
            r is Some <==> regex_finds(re_pattern@, basename(path@)),
            r is Some ==> r->0@ == path@,
    {
        let len = path.unicode_len();
        let st = last_component_start(path, len);
        proof {
            assert(path@.subrange(0, len as int) =~= path@);
            crate::filenames::lemma_label_start_bounds(path@, 1);
        }
        let name = path.substring_char(st, len);
        if re_pattern.is_match(name) {
            Some(String::from_str(path))
        } else {
            None
        }
    }

    /// Relies on `walkdir::WalkDir` with `filter_entry`: the walk reports the
    /// entries from one level below `root` down to `max_depth` levels (a
    /// maximum below the minimum of 1 is raised to it), each
    /// as `root` joined with the names on the way (a name is never empty and
    /// holds no separator); an entry the predicate
    /// rejects is neither reported nor descended into. Entries that cannot be
    /// read are left out.
    #[verifier::external_body]
    fn walk_tree(&self, root: &str, max_depth: usize) -> (r: Vec<String>)
        ensures
            forall|i: int| 0 <= i < r.len() ==> self.reached(root@, max_depth, #[trigger] r[i]@),
    {
        WalkDir::new(root)
            .min_depth(1)
            .max_depth(max_depth)
            .into_iter()
            .filter_entry(|e| self.keep_entry(e.path().to_str()))
            .filter_map(|e| e.ok())
            .filter_map(|e| e.path().to_str().map(String::from))
            .collect()
    }

    /// The paths under the existing search roots whose names match `re`,
    /// the expression of `pattern`, root after root. This is the only place
    /// the file system is read, and only for a pattern that is allowed and
    /// long enough.
    fn collect_matches(&self, pattern: &str, re: &Pattern) -> (r: Vec<String>)
        requires
            !has_disallowed_char(pattern@),
            pattern@.len() >= MIN_CHARS,
            re@ == name_regex(pattern@),
        ensures
            exists|walks: Seq<Seq<String>>|
                self.walks_fit(walks) && views(r@) == #[trigger] selected(walks, re@),
    {
        let mut matches: Vec<String> = Vec::new();
        let ghost mut walks: Seq<Seq<String>> = Seq::empty();
        let mut i: usize = 0;
        while i < self.search_paths.len()
            invariant
                i <= self.search_paths.len(),
                walks.len() == i,
                forall|w: int, k: int|
                    0 <= w < i && 0 <= k < walks[w].len() ==> self.reached(
                        self.roots()[w].0,
                        self.roots()[w].1,
                        #[trigger] walks[w][k]@,
                    ),
                views(matches@) == selected(walks, re@),
                forall|w: int|
                    0 <= w < i && #[trigger] walks[w].len() > 0 ==> !self.under_skip_rule(
                        self.roots()[w].0,
                    ),
            decreases self.search_paths.len() - i,
        {
            let root = self.search_paths[i].0.as_str();
            let depth = self.search_paths[i].1;
            let walked = if !self.root_under_skip_rule(root) && is_dir(root) {
                self.walk_tree(root, depth)
            } else {
                Vec::new()
            };
            proof {
                assert(self.roots()[i as int] == (root@, depth));
            }
            let chosen = select_matches(&walked, re);
            let ghost before = matches@;
            let mut j: usize = 0;
            while j < chosen.len()
                invariant
                    j <= chosen.len(),
                    views(matches@) == views(before) + views(chosen@.subrange(0, j as int)),
                decreases chosen.len() - j,
            {
                let ghost prev = matches@;
                matches.push(chosen[j].clone());
                proof {
                    assert(views(matches@) =~= views(prev).push(chosen[j as int]@));
                    assert(views(chosen@.subrange(0, j + 1)) =~= views(chosen@.subrange(0, j as int)).push(
                        chosen[j as int]@,
                    ));
                    assert(views(matches@) =~= views(before) + views(chosen@.subrange(0, j + 1)));
                }
                j += 1;
            }
            proof {
                assert(chosen@.subrange(0, chosen.len() as int) =~= chosen@);
                let next = walks.push(walked@);
                assert(next.drop_last() =~= walks);
                assert(views(matches@) =~= selected(next, re@));
                walks = next;
            }
            i += 1;
        }
        proof {
            assert(self.walks_fit(walks));
        }
        matches
    }

    /// The effect that completes copying a path once it has been resolved:
    /// copying its canonical form, or nothing when it could not be resolved
    /// (as for a path that does not exist).
    pub fn canonical_copy(canonical: Option<String>) -> (r: Option<Effect>)
        ensures
            r is None <==> canonical is None,
            r is Some ==> r->0 == Effect::CopyAndExit(canonical->0),
    {
        match canonical {
            Some(c) => Some(Effect::CopyAndExit(c)),
            None => None,
        }
    }
}

/// The paths of `walked` whose last component `re` matches, in order.
pub fn select_matches(walked: &Vec<String>, re: &Pattern) -> (r: Vec<String>)
    ensures
        views(r@) == views(walked@).filter(|p: Seq<char>| name_matches(re@, p)),
{
    let mut out: Vec<String> = Vec::new();
    let mut i: usize = 0;
    while i < walked.len()
        invariant
            i <= walked.len(),
            views(out@) == views(walked@.subrange(0, i as int)).filter(
                |p: Seq<char>| name_matches(re@, p),
            ),
        decreases walked.len() - i,
    {
        let ghost before = out@;
        proof {
            assert(views(walked@.subrange(0, i + 1)).drop_last() =~= views(walked@.subrange(0, i as int)));
            assert(views(walked@.subrange(0, i + 1)).last() == walked[i as int]@);
            reveal(Seq::filter);
        }
        match FileSearcher::include_entry(walked[i].as_str(), re) {
            Some(m) => {
                out.push(m);
                proof {
                    assert(views(out@) =~= views(before).push(walked[i as int]@));
                }
            },
            None => {},
        }
        i += 1;
    }
    proof {
        assert(walked@.subrange(0, walked.len() as int) =~= walked@);
    }
    out
}

/// Whether `p` is hidden: its last component, after a separator, starts
/// with `.` and has more to it.
pub fn is_hidden_path(p: &str) -> (r: bool)
    ensures
        r == is_hidden(p@),
{
    let len = p.unicode_len();
    let st = last_component_start(p, len);
    proof {
        assert(p@.subrange(0, len as int) =~= p@);
        crate::filenames::lemma_label_start_bounds(p@, 1);
    }
    st > 0 && len - st >= 2 && p.get_char(st) == '.'
}

/// The regular expression that a search pattern is matched with: ignoring
/// case, `.` taken literally and `*` standing for any run of characters.
pub fn name_pattern_regex(pattern: &str) -> (r: String)
    ensures
        r@ == name_regex(pattern@),
{
    proof {
        reveal_strlit("(?i)");
    }
    let mut source = String::from_str("(?i)");
    push_wildcard_regex(&mut source, pattern);
    source
}

impl Searcher for FileSearcher {
    fn handles(&self, pattern: &str) -> (r: bool)
        ensures
            r,
    {
        true
    }

    fn search(&mut self, pattern: String, search_id: u32) -> (r: Option<Vec<SearchResultEntry>>)
        ensures
            *final(self) == *old(self),
            file_search_outcome(*old(self), pattern@, search_id, r),
    {
        proof {
            use_type_invariant(&*self);
        }
        if self.disallowed.is_match(pattern.as_str()) {
            let mut r: Vec<SearchResultEntry> = Vec::new();
            r.push(
                SearchResultEntry::new(String::from_str(DISALLOWED_CHARS_MESSAGE), None, search_id, false),
            );
            return Some(r);
        }
        if pattern.as_str().unicode_len() < MIN_CHARS {
            return None;
        }
        let source = name_pattern_regex(pattern.as_str());
        let re = match Pattern::compile(source) {
            Ok(re) => re,
            Err(_) => {
                return None;
            },
        };
        let matches = self.collect_matches(pattern.as_str(), &re);
        let ghost found = matches@;
        let ghost walks = choose|walks: Seq<Seq<String>>|
            self.walks_fit(walks) && views(matches@) == #[trigger] selected(walks, re@);
        let entries = entries_for_matches(matches, search_id);
        proof {
            assert forall|i: int| 0 <= i < entries.len() implies old(self).matched(
                name_regex(pattern@),
                (#[trigger] entries[i]).value->0@,
            ) by {
                let v = entries[i].value->0@;
                assert(entry_pairs(entries@)[i].1 == entries[i].value->0);
                assert(path_set(found).contains(v));
                let k = choose|k: int| 0 <= k < found.len() && views(found)[k] == v;
                assert(selected(walks, re@)[k] == v);
                lemma_selected_member(walks, re@, k);
                let (w, x) = choose|w: int, x: int|
                    0 <= w < walks.len() && 0 <= x < walks[w].len() && walks[w][x]@ == v;
                assert(self.reached(self.roots()[w].0, self.roots()[w].1, walks[w][x]@));
            }
            assert(path_set(found) == selected(walks, name_regex(pattern@)).to_set());
        }
        Some(entries)
    }

    fn execute(&self, value: String) -> (r: Effect)
        ensures
            r == Effect::Open(value),
    {
        Effect::Open(value)
    }

    fn alt_execute(&self, value: String) -> (r: Option<Effect>)
        ensures
            r == Some(Effect::CopyCanonicalPathAndExit(value)),
    {
        Some(Effect::CopyCanonicalPathAndExit(value))
    }

    fn stop(&mut self)
        ensures
            final(self).is_stopped(),
            final(self).roots() == old(self).roots(),
            final(self).skip_sources() == old(self).skip_sources(),
    {
        proof {
            use_type_invariant(&*self);
        }
        self.stop_search = true;
    }
}

/// A skipped directory yields nothing, whichever search root it is met
/// from: no walked path is, or lies below, a path that a skip rule matches.
pub proof fn skipped_directories_yield_nothing(
    f: FileSearcher,
    walks: Seq<Seq<String>>,
    w: int,
    k: int,
    j: int,
)
    requires
        f.walks_fit(walks),
        0 <= w < walks.len(),
        0 <= k < walks[w].len(),
        0 < j <= walks[w][k]@.len(),
        j == walks[w][k]@.len() || walks[w][k]@[j] == '/',
    ensures
        !f.skip_rule_matches(walks[w][k]@.subrange(0, j)),
{
    let p = walks[w][k]@;
    let root = f.roots()[w].0;
    let b = dir_base(root);
    assert(f.reached(root, f.roots()[w].1, p));
    assert(!f.under_skip_rule(root));
    if j > b.len() {
        assert(ends_component_below(root, p, j));
        assert(f.keeps(p.subrange(0, j)));
        if f.skip_rule_matches(p.subrange(0, j)) {
            let i = choose|i: int|
                0 <= i < f.skip_sources().len() && regex_finds(f.skip_sources()[i], p.subrange(0, j));
            assert(!regex_finds(f.skip_sources()[i], p.subrange(0, j)));
        }
    } else {
        assert(p.subrange(0, b.len() as int) == b);
        if j == root.len() + 1 {
            assert(p[j] == p[b.len() as int]);
        } else {
            assert(j <= root.len());
            assert(p.subrange(0, j) =~= root.subrange(0, j));
            if j < root.len() {
                assert(root[j] == b[j]);
            }
            assert(j == root.len() || root[j] == '/');
        }
    }
}

/// Hidden entries are left out whatever the skip rules say: no path that
/// the walk reaches is, or lies below, a hidden entry under the search root.
pub proof fn hidden_entries_yield_nothing(
    f: FileSearcher,
    root: Seq<char>,
    max_depth: usize,
    p: Seq<char>,
    j: int,
)
    requires
        f.reached(root, max_depth, p),
        ends_component_below(root, p, j),
    ensures
        !is_hidden(p.subrange(0, j)),
{
    assert(f.keeps(p.subrange(0, j)));
}

} // verus!
