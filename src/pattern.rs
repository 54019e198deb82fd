use vstd::prelude::*;
use crate::text::{leading_chars, starts_with};

verus! {

/// The longest prefix pattern, the length of an address in hex digits.
pub const ADDRESS_LENGTH: usize = 40;

#[verifier::external_type_specification]
#[verifier::external_body]
pub struct ExRegex(regex::Regex);

#[verifier::external_type_specification]
#[verifier::external_body]
pub struct ExRegexError(regex::Error);

/// What `str::to_lowercase` makes of a character sequence.
pub uninterp spec fn lowercase_of(s: Seq<char>) -> Seq<char>;

/// Whether `pattern` compiles as a case-insensitive, whitespace-ignoring,
/// single-line regular expression.
pub uninterp spec fn regex_compiles(pattern: Seq<char>) -> bool;

/// Whether `pattern`, compiled as in `regex_compiles`, matches anywhere in `text`.
pub uninterp spec fn regex_finds(pattern: Seq<char>, text: Seq<char>) -> bool;

/// Relies on `str::to_lowercase`: the result depends on the characters alone.
#[verifier::external_body]
fn to_lowercase(s: &str) -> (r: String)
    ensures
        r@ == lowercase_of(s@),
{
    s.to_lowercase()
}

/// Relies on `regex::Error`'s `Display`, for the message shown to the user.
#[verifier::external_body]
fn regex_error_message(e: &regex::Error) -> String {
    e.to_string()
}

pub open spec fn is_hex_digit(c: char) -> bool {
    ('0' <= c && c <= '9') || ('a' <= c && c <= 'f')
}

/// A prefix pattern: 1 to 40 lowercase hex digits.
pub open spec fn is_prefix_pattern(s: Seq<char>) -> bool {
    &&& 1 <= s.len() <= ADDRESS_LENGTH
    &&& forall|i: int| 0 <= i < s.len() ==> is_hex_digit(#[trigger] s[i])
}

#[derive(Debug, PartialEq, Eq)]
pub enum ParseError {
    /// A prefix pattern holds something other than 1 to 40 hex digits.
    InvalidCharacters,
    /// A regular expression does not compile; the message says why.
    InvalidRegex(String),
}

/// A compiled regular expression together with the text it was compiled from.
pub struct RegexPattern {
    source: String,
    compiled: regex::Regex,
}

impl RegexPattern {
    /// The text the expression was compiled from.
    pub closed spec fn source_view(&self) -> Seq<char> {
        self.source@
    }

    /// Relies on `regex::RegexBuilder::build` with case-insensitivity, whitespace
    /// ignored, single-line mode and Unicode: it fails exactly on the patterns
    /// that do not compile.
    #[verifier::external_body]
    fn compile(s: &str) -> (r: Result<RegexPattern, regex::Error>)
        ensures
            r is Ok <==> regex_compiles(s@),
            r matches Ok(p) ==> p.source_view() == s@,
    {
        match regex::RegexBuilder::new(s)
            .case_insensitive(true)
            .multi_line(false)
            .dot_matches_new_line(false)
            .ignore_whitespace(true)
            .unicode(true)
            .build()
        {
            Ok(compiled) => Ok(RegexPattern { source: s.to_string(), compiled }),
            Err(e) => Err(e),
        }
    }

    /// Relies on `regex::Regex::is_match`: a match anywhere in `text`. The
    /// expression was compiled from `source` by `compile`, the only constructor.
    #[verifier::external_body]
    pub(crate) fn is_match(&self, text: &str) -> (r: bool)
        ensures
            r == regex_finds(self.source_view(), text@),
    {
        self.compiled.is_match(text)
    }

    /// The text the expression was compiled from.
    pub fn as_str(&self) -> (r: &str)
        ensures
            r@ == self.source_view(),
    {
        self.source.as_str()
    }
}

/// A prefix pattern checked in its final, lowercase form.
pub fn validate_prefix(lowered: &str) -> (r: Result<Vec<char>, ParseError>)
    ensures
        r is Ok <==> is_prefix_pattern(lowered@),
        r matches Ok(v) ==> v@ == lowered@,
        r matches Err(e) ==> e == ParseError::InvalidCharacters,
{
    let len = lowered.unicode_len();
    if len == 0 || len > ADDRESS_LENGTH {
        return Err(ParseError::InvalidCharacters);
    }
    let chars = leading_chars(lowered, ADDRESS_LENGTH);
    assert(chars@ =~= lowered@);
    let mut i: usize = 0;
    while i < len
        invariant
            len == chars@.len(),
            chars@ == lowered@,
            i <= len,
            forall|j: int| 0 <= j < i ==> is_hex_digit(#[trigger] chars@[j]),
        decreases len - i,
    {
        let c = chars[i];
        if !(('0' <= c && c <= '9') || ('a' <= c && c <= 'f')) {
            return Err(ParseError::InvalidCharacters);
        }
        i = i + 1;
    }
    Ok(chars)
}

/// One pattern an address is tested against.
pub enum Pattern {
    /// The address must start with these lowercase hex digits.
    Prefix(String),
    /// The expression must match somewhere in the address.
    Regex(RegexPattern),
}

impl Pattern {
    /// Whether `address` satisfies this pattern.
    pub open spec fn spec_matches(&self, address: Seq<char>) -> bool {
        match self {
            Pattern::Prefix(p) => p@.is_prefix_of(address),
            Pattern::Regex(re) => regex_finds(re.source_view(), address),
        }
    }

    /// A prefix pattern: the input lowercased, if that is 1 to 40 hex digits.
    pub fn parse_prefix(raw: &str) -> (r: Result<Pattern, ParseError>)
        ensures
            r is Ok <==> is_prefix_pattern(lowercase_of(raw@)),
            r matches Ok(p) ==> (p matches Pattern::Prefix(s) && s@ == lowercase_of(raw@)),
            r matches Err(e) ==> e == ParseError::InvalidCharacters,
    {
        let lowered = to_lowercase(raw);
        match validate_prefix(lowered.as_str()) {
            Ok(_) => Ok(Pattern::Prefix(lowered)),
            Err(e) => Err(e),
        }
    }

    /// A regular expression pattern, if the input compiles.
    pub fn parse_regex(raw: &str) -> (r: Result<Pattern, ParseError>)
        ensures
            r is Ok <==> regex_compiles(raw@),
            r matches Ok(p) ==> (p matches Pattern::Regex(re) && re.source_view() == raw@),
            r matches Err(e) ==> e is InvalidRegex,
    {
        match RegexPattern::compile(raw) {
            Ok(re) => Ok(Pattern::Regex(re)),
            Err(e) => Err(ParseError::InvalidRegex(regex_error_message(&e))),
        }
    }

    /// Parses `raw` as a regular expression when `regex_mode` holds, else as a prefix.
    pub fn parse(raw: &str, regex_mode: bool) -> (r: Result<Pattern, ParseError>)
        ensures
            regex_mode ==> (r is Ok <==> regex_compiles(raw@)),
            !regex_mode ==> (r is Ok <==> is_prefix_pattern(lowercase_of(raw@))),
            r matches Ok(p) ==> (if regex_mode {
                p matches Pattern::Regex(re) && re.source_view() == raw@
            } else {
                p matches Pattern::Prefix(s) && s@ == lowercase_of(raw@)
            }),
            r matches Err(e) ==> (if regex_mode {
                e is InvalidRegex
            } else {
                e == ParseError::InvalidCharacters
            }),
    {
        if regex_mode {
            Self::parse_regex(raw)
        } else {
            Self::parse_prefix(raw)
        }
    }

    /// Whether `address` satisfies this pattern: a prefix must begin it, an
    /// expression may match anywhere in it.
    pub fn matches(&self, address: &str) -> (r: bool)
        ensures
            r == self.spec_matches(address@),
    {
        match self {
            Pattern::Prefix(p) => starts_with(address, p.as_str()),
            Pattern::Regex(re) => re.is_match(address),
        }
    }
}

} // verus!
