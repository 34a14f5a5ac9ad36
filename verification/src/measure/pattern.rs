//! Token patterns: regular expressions that mark phase boundaries in the
//! output of the profiled command.

use vstd::prelude::*;
use vstd::string::*;
use crate::errors::{Failure, JouleProfilerError};

verus! {

/// `regex::Regex`, a compiled regular expression. Nothing inside it is
/// visible here.
#[verifier::external_type_specification]
#[verifier::external_body]
pub struct ExRegex(regex::Regex);

/// A compiled token pattern. Its view is the text it was compiled from.
///
/// A pattern is only ever built by [`TokenPattern::compile`], so the
/// compiled form always belongs to the text.
pub struct TokenPattern {
    source: String,
    compiled: regex::Regex,
}

impl View for TokenPattern {
    type V = Seq<char>;

    closed spec fn view(&self) -> Seq<char> {
        self.source@
    }
}

/// What a pattern found in a line: all of the match, and what the first
/// capture group matched where the pattern has one that took part.
#[derive(Debug)]
pub struct Captured {
    pub whole: String,
    pub group: Option<String>,
}

/// A [`Captured`] as a value of specifications.
pub ghost struct CapturedText {
    pub whole: Seq<char>,
    pub group: Option<Seq<char>>,
}

impl View for Captured {
    type V = CapturedText;

    open spec fn view(&self) -> CapturedText {
        CapturedText {
            whole: self.whole@,
            group: match self.group {
                Some(g) => Some(g@),
                None => None,
            },
        }
    }
}

/// The leftmost match of the regular expression `pattern` in `line`, as
/// the `regex` crate finds it: `None` where there is no match.
pub uninterp spec fn pattern_captures(pattern: Seq<char>, line: Seq<char>) -> Option<CapturedText>;

/// What `regex::Regex::new` answers to the text `source`: `None` where
/// it accepts the text, else the message of the error it refuses the text
/// with. The answer is that of the crate as it is built into the
/// library, with its default limits.
pub uninterp spec fn pattern_refusal(source: Seq<char>) -> Option<Seq<char>>;

/// `regex::Regex::new` on `source`. Where the crate accepts the text, the
/// result is a pattern that holds the text and what the crate compiled
/// from it; where it refuses, the result is the message of the crate's
/// error.
#[verifier::external_body]
fn compile_regex(source: &str) -> (r: Result<TokenPattern, String>)
    ensures
        match pattern_refusal(source@) {
            None => r matches Ok(p) && p@ == source@,
            Some(reason) => r matches Err(m) && m@ == reason,
        },
{
    match regex::Regex::new(source) {
        Ok(compiled) => Ok(TokenPattern { source: source.to_string(), compiled }),
        Err(e) => Err(e.to_string()),
    }
}

/// `regex::Regex::captures` of the compiled pattern on `line`: the
/// leftmost match, with the text of the whole match (group 0, which
/// always takes part) and of group 1 as `regex::Captures::get` gives it.
/// The compiled form was made from the text of the pattern with the
/// crate's default settings, so that what is found depends on that text
/// and on the line alone.
#[verifier::external_body]
fn regex_captures(pattern: &TokenPattern, line: &str) -> (r: Option<Captured>)
    ensures
        match r {
            Some(c) => pattern_captures(pattern@, line@) == Some(c@),
            None => pattern_captures(pattern@, line@) is None,
        },
{
    pattern.compiled.captures(line).map(
        |c| Captured { whole: c[0].to_string(), group: c.get(1).map(|m| m.as_str().to_string()) },
    )
}

/// The text that reports the pattern `source` refused for `reason`.
pub open spec fn invalid_pattern_text(source: Seq<char>, reason: Seq<char>) -> Seq<char> {
    source + ": "@ + reason
}

/// The label of a detected token: what the first capture group matched
/// where there is one, else the whole match.
pub open spec fn label_of(captured: CapturedText) -> Seq<char> {
    match captured.group {
        Some(g) => g,
        None => captured.whole,
    }
}

/// The label of a detected token.
pub fn token_label(captured: Captured) -> (label: String)
    ensures
        label@ == label_of(captured@),
{
    match captured.group {
        Some(g) => g,
        None => captured.whole,
    }
}

impl TokenPattern {
    /// What becomes of an attempt to compile `source`: the pattern, or the
    /// failure that carries the compiler's message.
    pub fn checked(source: &str, outcome: Result<TokenPattern, String>) -> (r: Result<
        TokenPattern,
        JouleProfilerError,
    >)
        ensures
            match outcome {
                Ok(p) => r == Ok::<TokenPattern, JouleProfilerError>(p),
                Err(reason) => r matches Err(e) && e@ == Failure::InvalidPattern(
                    invalid_pattern_text(source@, reason@),
                ),
            },
    {
        match outcome {
            Ok(p) => Ok(p),
            Err(reason) => {
                let mut text = String::from_str(source);
                text.append(": ");
                text.append(reason.as_str());
                Err(JouleProfilerError::InvalidPattern(text))
            },
        }
    }

    /// Compiles `source`: the pattern of that text where the `regex`
    /// crate accepts it, else the failure that names the text and carries
    /// the crate's message.
    pub fn compile(source: &str) -> (r: Result<TokenPattern, JouleProfilerError>)
        ensures
            match pattern_refusal(source@) {
                None => r matches Ok(p) && p@ == source@,
                Some(reason) => r matches Err(e) && e@ == Failure::InvalidPattern(
                    invalid_pattern_text(source@, reason),
                ),
            },
    {
        let outcome = compile_regex(source);
        let r = TokenPattern::checked(source, outcome);
        r
    }

    /// The leftmost match of the pattern in `line`.
    pub fn captures(&self, line: &str) -> (r: Option<Captured>)
        ensures
            match r {
                Some(c) => pattern_captures(self@, line@) == Some(c@),
                None => pattern_captures(self@, line@) is None,
            },
    {
        regex_captures(self, line)
    }

    /// The label of the token that the pattern finds in `line`.
    pub fn find_label(&self, line: &str) -> (r: Option<String>)
        ensures
            match pattern_captures(self@, line@) {
                Some(c) => r matches Some(label) && label@ == label_of(c),
                None => r is None,
            },
    {
        match self.captures(line) {
            Some(c) => Some(token_label(c)),
            None => None,
        }
    }
}

} // verus!
