use regex::Regex;
use vstd::prelude::*;

verus! {

#[verifier::external_type_specification]
#[verifier::external_body]
pub struct ExRegex(regex::Regex);

#[verifier::external_type_specification]
#[verifier::external_body]
pub struct ExRegexError(regex::Error);

/// Whether the regex engine accepts `source` as a regular expression.
pub uninterp spec fn regex_compiles(source: Seq<char>) -> bool;

/// Whether the regular expression `source` matches somewhere in `text`.
pub uninterp spec fn regex_finds(source: Seq<char>, text: Seq<char>) -> bool;

/// A compiled regular expression, kept with the source it was compiled from.
pub struct Pattern {
    source: String,
    re: Regex,
}

impl View for Pattern {
    type V = Seq<char>;

    closed spec fn view(&self) -> Seq<char> {
        self.source@
    }
}

impl Pattern {
    /// Relies on `regex::Regex::new`: it accepts or rejects a source by the
    /// source alone, and the compiled value matches as that source says.
    #[verifier::external_body]
    pub(crate) fn compile(source: String) -> (r: Result<Pattern, regex::Error>)
        ensures
            r is Ok <==> regex_compiles(source@),
            r is Ok ==> r->Ok_0@ == source@,
    {
        match Regex::new(&source) {
            Ok(re) => Ok(Pattern { source, re }),
            Err(e) => Err(e),
        }
    }

    /// Relies on `regex::Regex::is_match`: whether the expression matches
    /// anywhere in `text`.
    #[verifier::external_body]
    pub(crate) fn is_match(&self, text: &str) -> (r: bool)
        ensures
            r == regex_finds(self@, text@),
    {
        self.re.is_match(text)
    }
}

/// The regular-expression text standing for one character of a wildcard
/// pattern: `.` is taken literally and `*` stands for any run of characters.
pub open spec fn wildcard_piece(c: char) -> Seq<char> {
    if c == '.' {
        seq!['\\', '.']
    } else if c == '*' {
        seq!['.', '*']
    } else {
        seq![c]
    }
}

/// The regular-expression text of the wildcard pattern `p`.
pub open spec fn wildcard_regex(p: Seq<char>) -> Seq<char>
    decreases p.len(),
{
    if p.len() == 0 {
        Seq::empty()
    } else {
        wildcard_regex(p.drop_last()) + wildcard_piece(p.last())
    }
}

/// Appends the regular-expression text of the wildcard pattern `p` to `out`.
pub fn push_wildcard_regex(out: &mut String, p: &str)
    ensures
        final(out)@ == old(out)@ + wildcard_regex(p@),
{
    let len = p.unicode_len();
    let mut i: usize = 0;
    while i < len
        invariant
            len == p@.len(),
            i <= len,
            out@ == old(out)@ + wildcard_regex(p@.subrange(0, i as int)),
        decreases len - i,
    {
        let c = p.get_char(i);
        proof {
            reveal_strlit("\\.");
            reveal_strlit(".*");
            let q = p@.subrange(0, i + 1);
            assert(q.drop_last() =~= p@.subrange(0, i as int));
            assert(q.last() == c);
        }
        let ghost before = out@;
        if c == '.' {
            out.append("\\.");
        } else if c == '*' {
            out.append(".*");
        } else {
            out.append(p.substring_char(i, i + 1));
            assert(p@.subrange(i as int, i + 1) =~= seq![c]);
        }
        proof {
            assert(out@ =~= old(out)@ + wildcard_regex(p@.subrange(0, i + 1)));
        }
        i += 1;
    }
    proof {
        assert(p@.subrange(0, len as int) =~= p@);
    }
}

} // verus!
