//! The query matcher: a literal or regular-expression query compiled once
//! into a reusable predicate on lines.

use vstd::prelude::*;

verus! {

/// `grep::regex::RegexMatcher`, a compiled regular expression. Its inside is
/// not looked at.
#[verifier::external_type_specification]
#[verifier::external_body]
pub struct ExRegexMatcher(grep::regex::RegexMatcher);

/// `grep::regex::Error`, why a pattern did not compile.
#[verifier::external_type_specification]
#[verifier::external_body]
pub struct ExRegexError(grep::regex::Error);

/// Whether the matcher's default configuration accepts `pattern` as a
/// regular expression.
pub uninterp spec fn regex_compiles(pattern: Seq<char>) -> bool;

/// The pattern a compiled matcher was compiled from.
pub uninterp spec fn regex_source(matcher: grep::regex::RegexMatcher) -> Seq<char>;

/// Whether the regular expression `pattern`, compiled with the default
/// configuration, matches somewhere in `haystack`.
pub uninterp spec fn regex_matches(pattern: Seq<char>, haystack: Seq<u8>) -> bool;

/// The characters that have a meaning of their own in a regular expression.
pub open spec fn is_meta_character(c: char) -> bool {
    ||| c == '\\'
    ||| c == '.'
    ||| c == '+'
    ||| c == '*'
    ||| c == '?'
    ||| c == '('
    ||| c == ')'
    ||| c == '|'
    ||| c == '['
    ||| c == ']'
    ||| c == '{'
    ||| c == '}'
    ||| c == '^'
    ||| c == '$'
    ||| c == '#'
    ||| c == '&'
    ||| c == '-'
    ||| c == '~'
}

/// `text` with a backslash in front of every meta character.
pub open spec fn escaped(text: Seq<char>) -> Seq<char>
    decreases text.len(),
{
    if text.len() == 0 {
        Seq::empty()
    } else if is_meta_character(text.last()) {
        escaped(text.drop_last()).push('\\').push(text.last())
    } else {
        escaped(text.drop_last()).push(text.last())
    }
}

/// The regular expression a query stands for: itself in regex mode, its
/// escaped form in literal mode.
pub open spec fn query_pattern(query: Seq<char>, use_regex: bool) -> Seq<char> {
    if use_regex {
        query
    } else {
        escaped(query)
    }
}

/// A search that cannot start.
#[derive(Debug, Clone)]
pub enum ConfigError {
    /// The query is not a valid regular expression. Holds the compiler's
    /// message.
    InvalidPattern(String),
}

/// Calls `regex::escape`, which copies the text and puts a backslash in
/// front of each meta character.
#[verifier::external_body]
fn escape_query(query: &str) -> (r: String)
    ensures
        r@ == escaped(query@),
{
    regex::escape(query)
}

/// A query compiled for matching lines. [`build_matcher`] alone makes one,
/// so the matcher it holds was compiled with the default configuration.
#[derive(Debug)]
pub struct QueryMatcher {
    regex: grep::regex::RegexMatcher,
}

impl QueryMatcher {
    /// The compiled matcher that the query holds.
    pub closed spec fn compiled(&self) -> grep::regex::RegexMatcher {
        self.regex
    }

    /// The regular expression the matcher decides by: the pattern it was
    /// compiled from.
    pub open spec fn pattern(&self) -> Seq<char> {
        regex_source(self.compiled())
    }

    /// The compiled matcher, for a line scanner that takes one: the matcher
    /// this query holds, compiled from its pattern.
    pub fn regex(&self) -> (matcher: &grep::regex::RegexMatcher)
        ensures
            *matcher == self.compiled(),
            regex_source(*matcher) == self.pattern(),
    {
        &self.regex
    }
}

/// Calls `grep::regex::RegexMatcher::new`, which compiles with the default
/// configuration. Whether a pattern compiles depends on the pattern alone,
/// and the matcher it gives was compiled from that pattern.
#[verifier::external_body]
fn compile_regex(pattern: &str) -> (r: Result<grep::regex::RegexMatcher, grep::regex::Error>)
    ensures
        r is Ok <==> regex_compiles(pattern@),
        r matches Ok(m) ==> regex_source(m) == pattern@,
{
    grep::regex::RegexMatcher::new(pattern)
}

/// Calls `Display` on `grep::regex::Error`. Nothing is claimed of the text.
#[verifier::external_body]
fn regex_error_message(error: &grep::regex::Error) -> String {
    format!("{}", error)
}

/// Calls `grep::matcher::Matcher::is_match` on a compiled matcher, whose
/// error type has no values. What a matcher accepts depends on the pattern
/// it was compiled from and on the haystack alone.
#[verifier::external_body]
pub(crate) fn matcher_is_match(matcher: &grep::regex::RegexMatcher, haystack: &[u8]) -> (b: bool)
    ensures
        b == regex_matches(regex_source(*matcher), haystack@),
{
    match grep::matcher::Matcher::is_match(matcher, haystack) {
        Ok(b) => b,
        Err(_) => false,
    }
}

/// Compiles the query: as a regular expression where `use_regex` is set,
/// else as the literal text it is. Fails exactly where the resulting pattern
/// is not a valid regular expression.
pub fn build_matcher(query: &str, use_regex: bool) -> (r: Result<QueryMatcher, ConfigError>)
    ensures
        r is Ok <==> regex_compiles(query_pattern(query@, use_regex)),
        r matches Ok(m) ==> m.pattern() == query_pattern(query@, use_regex) && regex_source(
            m.compiled(),
        ) == query_pattern(query@, use_regex),
        r matches Err(e) ==> e is InvalidPattern,
{
    let compiled = if use_regex {
        compile_regex(query)
    } else {
        let literal = escape_query(query);
        compile_regex(literal.as_str())
    };
    match compiled {
        Ok(regex) => Ok(QueryMatcher { regex }),
        Err(error) => Err(ConfigError::InvalidPattern(regex_error_message(&error))),
    }
}

} // verus!
