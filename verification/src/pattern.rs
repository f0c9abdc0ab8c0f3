//! Compiled regular expressions, through the `regex` crate.

use vstd::prelude::*;

verus! {

/// `regex::Regex`, carried opaque.
#[verifier::external_type_specification]
#[verifier::external_body]
pub struct ExRegex(regex::Regex);

/// `regex::Error`, carried opaque.
#[verifier::external_type_specification]
#[verifier::external_body]
pub struct ExRegexError(regex::Error);

/// Whether `regex::Regex::new(pattern)` succeeds.
pub uninterp spec fn regex_compiles(pattern: Seq<char>) -> bool;

/// What `Regex::captures` gives on `text`, for the regex compiled from
/// `pattern`: `None` where it does not match, else each capture group in
/// order (the whole match first), `None` for a group that did not take part.
pub uninterp spec fn regex_captures(pattern: Seq<char>, text: Seq<char>) -> Option<
    Seq<Option<Seq<char>>>,
>;

/// Calls `regex::Regex::new`. Claimed: it succeeds exactly when
/// `regex_compiles` holds of the source; nothing else is said of the error.
#[verifier::external_body]
fn compile_regex(source: &str) -> (res: Result<regex::Regex, regex::Error>)
    ensures
        res is Ok <==> regex_compiles(source@),
{
    regex::Regex::new(source)
}

/// A regular expression that compiled, with the source it was compiled from.
pub struct Pattern {
    source: String,
    regex: regex::Regex,
}

/// Why a pattern was refused.
#[derive(Debug, PartialEq)]
pub enum PatternError {
    /// `regex` refused the source, with this error.
    Invalid(regex::Error),
}

impl View for Pattern {
    type V = Seq<char>;

    closed spec fn view(&self) -> Seq<char> {
        self.source@
    }
}

impl Pattern {
    #[verifier::type_invariant]
    spec fn compiled(self) -> bool {
        regex_compiles(self.source@)
    }

    /// Compiles `source`; fails exactly where `regex` refuses it.
    pub fn new(source: &str) -> (res: Result<Pattern, PatternError>)
        ensures
            res is Ok <==> regex_compiles(source@),
            res matches Ok(p) ==> p@ == source@,
    {
        match compile_regex(source) {
            Ok(regex) => Ok(Pattern { source: source.to_owned(), regex }),
            Err(e) => Err(PatternError::Invalid(e)),
        }
    }

    /// The source the pattern was compiled from, which `regex` accepts.
    pub fn source(&self) -> (r: &str)
        ensures
            r@ == self@,
            regex_compiles(self@),
    {
        proof {
            use_type_invariant(self);
        }
        self.source.as_str()
    }
}

/// Calls `Regex::captures` on the compiled regex and copies each group out.
/// Claimed: the groups are `regex_captures` of the pattern's source and the
/// text, which holds because a `Pattern` is only built from the `Regex` that
/// its own source compiled to.
#[verifier::external_body]
pub fn captures(pattern: &Pattern, text: &str) -> (res: Option<Vec<Option<String>>>)
    ensures
        res.deep_view() == regex_captures(pattern@, text@),
{
    match pattern.regex.captures(text) {
        None => None,
        Some(caps) => {
            let mut groups = Vec::new();
            for m in caps.iter() {
                groups.push(
                    match m {
                        Some(m) => Some(m.as_str().to_string()),
                        None => None,
                    },
                );
            }
            Some(groups)
        },
    }
}

} // verus!
