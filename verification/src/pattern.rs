//! The four line shapes of the block syntax. Each is written as a regular
//! expression that covers the whole line; the `regex` crate compiles the
//! expressions and does the matching.

use regex::Regex;
use vstd::prelude::*;

verus! {

/// A compiled regular expression of the `regex` crate.
#[verifier::external_type_specification]
#[verifier::external_body]
pub struct ExRegex(regex::Regex);

/// The error with which the `regex` crate refuses a pattern.
#[verifier::external_type_specification]
#[verifier::external_body]
pub struct ExRegexError(regex::Error);

/// Whether `regex::Regex::new` takes `pattern` where a machine word has
/// `word_bits` bits: whether `pattern` is a regular expression, and one
/// that compiles to no more than the crate's own size limit. The width of
/// a word is part of the question because the crate measures a compiled
/// expression in bytes, counting `size_of` one state for each state, and
/// a state is smaller where words are.
pub uninterp spec fn regex_accepts(pattern: Seq<char>, word_bits: nat) -> bool;

/// Whether `pattern`, read as a regular expression the way
/// `regex::Regex::new` reads it, matches anywhere in `haystack`.
pub uninterp spec fn regex_is_match(pattern: Seq<char>, haystack: Seq<char>) -> bool;

/// The part of `haystack` that capture group `index` of `pattern`, read as
/// a regular expression the way `regex::Regex::new` reads it, took in the
/// leftmost match; `None` when nothing matches, when the expression has no
/// such group, or when the group took no part in the match. Group 0 is the
/// whole match, and the others are counted by their opening brackets.
pub uninterp spec fn regex_group(pattern: Seq<char>, haystack: Seq<char>, index: nat) -> Option<
    Seq<char>,
>;

/// The line that opens a block.
pub const BLOCK_OPEN: &'static str = "^```multicode$";

/// The line that closes a block.
pub const BLOCK_CLOSE: &'static str = "^```$";

/// The line that opens the section of one language; its group is the
/// language identifier.
pub const SECTION_OPEN: &'static str = "^>>>>> ([a-zA-Z0-9]+)$";

/// The line that closes a section.
pub const SECTION_CLOSE: &'static str = "^<<<<<$";

/// The group of `SECTION_OPEN` that holds the language identifier.
pub const LANGUAGE_GROUP: usize = 1;

/// Whether the `regex` crate takes `pattern` on this machine.
pub open spec fn accepted(pattern: Seq<char>) -> bool {
    regex_accepts(pattern, usize::BITS as nat)
}

/// Whether `line` opens a block.
pub open spec fn opens_block(line: Seq<char>) -> bool {
    regex_is_match(BLOCK_OPEN@, line)
}

/// Whether `line` closes a block.
pub open spec fn closes_block(line: Seq<char>) -> bool {
    regex_is_match(BLOCK_CLOSE@, line)
}

/// The language whose section `line` opens, if it opens one.
pub open spec fn section_language(line: Seq<char>) -> Option<Seq<char>> {
    regex_group(SECTION_OPEN@, line, LANGUAGE_GROUP as nat)
}

/// Whether `line` closes a section.
pub open spec fn closes_section(line: Seq<char>) -> bool {
    regex_is_match(SECTION_CLOSE@, line)
}

/// A pattern that is no regular expression, or too large a one.
#[derive(Debug, PartialEq, Eq)]
pub struct PatternError {
    /// The pattern as it was written.
    pub source: String,
}

/// A regular expression, kept beside the text it was compiled from. The
/// fields are private and `compile` alone fills them, so the expression of
/// a `LinePattern` is always the one that `Regex::new` made of its source.
pub struct LinePattern {
    source: String,
    regex: Regex,
}

impl LinePattern {
    /// The text that the pattern was compiled from. It stands for the whole
    /// pattern: the compiled expression is opaque, and what it answers is
    /// named by this text.
    pub closed spec fn source(&self) -> Seq<char> {
        self.source@
    }

    /// Compiles `source` with `regex::Regex::new` and keeps `source` beside
    /// the result. Whether `Regex::new` takes the pattern is not proved: it
    /// is only given its name.
    #[verifier::external_body]
    fn compile(source: &str) -> (made: Result<LinePattern, regex::Error>)
        ensures
            made is Ok == regex_accepts(source@, usize::BITS as nat),
            made matches Ok(pattern) ==> pattern.source() == source@,
    {
        match Regex::new(source) {
            Ok(regex) => Ok(LinePattern { source: source.to_owned(), regex }),
            Err(error) => Err(error),
        }
    }

    /// Asks `regex::Regex::is_match` whether the pattern matches anywhere
    /// in `haystack`. Nothing is proved of the outcome: it is only given
    /// its name.
    #[verifier::external_body]
    pub(crate) fn is_match(&self, haystack: &str) -> (found: bool)
        ensures
            found == regex_is_match(self.source(), haystack@),
    {
        self.regex.is_match(haystack)
    }

    /// Searches `haystack` with `regex::Regex::captures` and copies out the
    /// text of `Captures::get(index)`; `None` stands for no match, for an
    /// index that is no group, and for a group that took no part. Nothing is
    /// proved of the outcome: it is only given its name.
    #[verifier::external_body]
    pub(crate) fn group(&self, haystack: &str, index: usize) -> (group: Option<String>)
        ensures
            match group {
                Some(text) => regex_group(self.source(), haystack@, index as nat) == Some(text@),
                None => regex_group(self.source(), haystack@, index as nat) is None,
            },
    {
        match self.regex.captures(haystack) {
            Some(found) => match found.get(index) {
                Some(part) => Some(part.as_str().to_owned()),
                None => None,
            },
            None => None,
        }
    }

    /// Compiles `source`. The pattern is made exactly where the `regex`
    /// crate takes `source`; where it does not, the error names `source`.
    pub fn new(source: &str) -> (made: Result<LinePattern, PatternError>)
        ensures
            made is Ok == accepted(source@),
            match made {
                Ok(pattern) => pattern.source() == source@,
                Err(error) => error.source@ == source@,
            },
    {
        match LinePattern::compile(source) {
            Ok(pattern) => Ok(pattern),
            Err(_) => Err(PatternError { source: source.to_owned() }),
        }
    }
}

} // verus!
