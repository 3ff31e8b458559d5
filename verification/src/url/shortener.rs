//! Which links may be shortened, and the codes that stand for them.

use crate::text::concat;
use crate::text::contains_text;
use crate::text::decimal_digits;
use crate::text::decimal_of_u64;
use crate::text::has_substring;
use crate::text::lowercase_text;
use crate::text::str_eq;
use crate::text::to_lowercase;
use vstd::prelude::*;
use vstd::string::StrSliceExecFns;

verus! {

/// Characters in a short code.
pub const CODE_LENGTH: usize = 6;

/// A text that a link must not hold, whatever the case of its letters.
#[derive(Clone, Copy, Debug, PartialEq, Eq, Structural)]
pub enum BlockedPattern {
    Javascript,
    Data,
    File,
    Vbscript,
    About,
}

impl BlockedPattern {
    /// The pattern as it is searched for.
    pub open spec fn text_spec(self) -> Seq<char> {
        match self {
            BlockedPattern::Javascript => "javascript:"@,
            BlockedPattern::Data => "data:"@,
            BlockedPattern::File => "file:"@,
            BlockedPattern::Vbscript => "vbscript:"@,
            BlockedPattern::About => "about:"@,
        }
    }

    /// The pattern as it is searched for.
    pub fn text(self) -> (t: &'static str)
        ensures
            t@ == self.text_spec(),
    {
        match self {
            BlockedPattern::Javascript => "javascript:",
            BlockedPattern::Data => "data:",
            BlockedPattern::File => "file:",
            BlockedPattern::Vbscript => "vbscript:",
            BlockedPattern::About => "about:",
        }
    }
}

/// Why a link is not shortened.
#[derive(Clone, Copy, Debug, PartialEq, Eq, Structural)]
pub enum UrlError {
    /// Longer than the limit, which is carried along.
    TooLong(usize),
    /// Not an absolute URL.
    InvalidFormat,
    /// A scheme other than `http` and `https`.
    SchemeNotAllowed,
    /// The link holds a blocked pattern.
    Blocked(BlockedPattern),
}

impl UrlError {
    /// The sentence shown to the person who sent the link.
    pub open spec fn message_text(self) -> Seq<char> {
        match self {
            UrlError::TooLong(limit) => "URL exceeds maximum length of "@ + decimal_digits(
                limit as nat,
            ) + " characters"@,
            UrlError::InvalidFormat => "Invalid URL format"@,
            UrlError::SchemeNotAllowed => "Only http:// and https:// URLs are allowed"@,
            UrlError::Blocked(p) => "URL contains blocked pattern: "@ + p.text_spec(),
        }
    }

    /// The sentence shown to the person who sent the link.
    pub fn message(self) -> (text: String)
        ensures
            text@ == self.message_text(),
    {
        match self {
            UrlError::TooLong(limit) => {
                let number = decimal_of_u64(limit as u64);
                let head = concat("URL exceeds maximum length of ", number.as_str());
                concat(head.as_str(), " characters")
            },
            UrlError::InvalidFormat => "Invalid URL format".to_string(),
            UrlError::SchemeNotAllowed => "Only http:// and https:// URLs are allowed".to_string(),
            UrlError::Blocked(p) => concat("URL contains blocked pattern: ", p.text()),
        }
    }
}

/// The scheme that `url::Url::parse` finds in a text, lower-cased and
/// without the `:`, or `None` where the text is not an absolute URL.
pub uninterp spec fn parsed_scheme(url: Seq<char>) -> Option<Seq<char>>;

/// The view of a scheme, if there is one.
pub open spec fn scheme_view(scheme: Option<String>) -> Option<Seq<char>> {
    match scheme {
        Some(s) => Some(s@),
        None => None,
    }
}

/// The view of a borrowed scheme, if there is one.
pub open spec fn scheme_ref_view(scheme: Option<&str>) -> Option<Seq<char>> {
    match scheme {
        Some(s) => Some(s@),
        None => None,
    }
}

/// Trusted: `url::Url::parse` and, on what it yields, `Url::scheme`. Parsing
/// reads nothing but the text, so the contract names the result.
#[verifier::external_body]
fn url_scheme(url_str: &str) -> (scheme: Option<String>)
    ensures
        scheme_view(scheme) == parsed_scheme(url_str@),
{
    match ::url::Url::parse(url_str) {
        Ok(parsed) => Some(parsed.scheme().to_owned()),
        Err(_) => None,
    }
}

/// The first blocked pattern that a lower-cased link holds, the patterns
/// taken in the order `javascript:`, `data:`, `file:`, `vbscript:`,
/// `about:`.
pub open spec fn first_blocked(lowered: Seq<char>) -> Option<BlockedPattern> {
    if has_substring(lowered, BlockedPattern::Javascript.text_spec()) {
        Some(BlockedPattern::Javascript)
    } else if has_substring(lowered, BlockedPattern::Data.text_spec()) {
        Some(BlockedPattern::Data)
    } else if has_substring(lowered, BlockedPattern::File.text_spec()) {
        Some(BlockedPattern::File)
    } else if has_substring(lowered, BlockedPattern::Vbscript.text_spec()) {
        Some(BlockedPattern::Vbscript)
    } else if has_substring(lowered, BlockedPattern::About.text_spec()) {
        Some(BlockedPattern::About)
    } else {
        None
    }
}

/// The first reason not to shorten a link, from what is known of it: its
/// length in bytes, the scheme it parses to, and its lower-cased text.
pub open spec fn url_verdict(
    byte_len: nat,
    max_length: usize,
    scheme: Option<Seq<char>>,
    lowered: Seq<char>,
) -> Option<UrlError> {
    if byte_len > max_length {
        Some(UrlError::TooLong(max_length))
    } else {
        match scheme {
            None => Some(UrlError::InvalidFormat),
            Some(s) => if s != "http"@ && s != "https"@ {
                Some(UrlError::SchemeNotAllowed)
            } else {
                match first_blocked(lowered) {
                    Some(p) => Some(UrlError::Blocked(p)),
                    None => None,
                }
            },
        }
    }
}

/// The first reason not to shorten a link, if there is one.
pub open spec fn url_violation(url: Seq<char>, max_length: usize) -> Option<UrlError> {
    url_verdict(
        vstd::utf8::encode_utf8(url).len(),
        max_length,
        parsed_scheme(url),
        lowercase_text(url),
    )
}

/// The outcome that a reason, or none, amounts to.
pub open spec fn verdict_result(verdict: Option<UrlError>) -> Result<(), UrlError> {
    match verdict {
        Some(e) => Err(e),
        None => Ok(()),
    }
}

/// Finds the first blocked pattern in a lower-cased link.
fn find_blocked(lowered: &str) -> (res: Option<BlockedPattern>)
    ensures
        res == first_blocked(lowered@),
{
    if contains_text(lowered, BlockedPattern::Javascript.text()) {
        Some(BlockedPattern::Javascript)
    } else if contains_text(lowered, BlockedPattern::Data.text()) {
        Some(BlockedPattern::Data)
    } else if contains_text(lowered, BlockedPattern::File.text()) {
        Some(BlockedPattern::File)
    } else if contains_text(lowered, BlockedPattern::Vbscript.text()) {
        Some(BlockedPattern::Vbscript)
    } else if contains_text(lowered, BlockedPattern::About.text()) {
        Some(BlockedPattern::About)
    } else {
        None
    }
}

/// Judges a link from what is known of it: its length in bytes, the scheme
/// that parsing found, and its lower-cased text.
pub fn judge_url(byte_len: usize, max_length: usize, scheme: Option<&str>, lowered: &str) -> (res:
    Result<(), UrlError>)
    ensures
        res == verdict_result(
            url_verdict(byte_len as nat, max_length, scheme_ref_view(scheme), lowered@),
        ),
{
    if byte_len > max_length {
        return Err(UrlError::TooLong(max_length));
    }
    let scheme = match scheme {
        Some(s) => s,
        None => { return Err(UrlError::InvalidFormat); },
    };
    if !str_eq(scheme, "http") && !str_eq(scheme, "https") {
        return Err(UrlError::SchemeNotAllowed);
    }
    match find_blocked(lowered) {
        Some(p) => Err(UrlError::Blocked(p)),
        None => Ok(()),
    }
}

/// Finds the first reason not to shorten a link. A link over the limit is
/// refused before it is parsed.
pub fn check_url(url_str: &str, max_length: usize) -> (res: Result<(), UrlError>)
    ensures
        res == verdict_result(url_violation(url_str@, max_length)),
{
    let byte_len = url_str.as_bytes().len();
    if byte_len > max_length {
        return Err(UrlError::TooLong(max_length));
    }
    let scheme = url_scheme(url_str);
    let lowered = to_lowercase(url_str);
    match &scheme {
        Some(s) => judge_url(byte_len, max_length, Some(s.as_str()), lowered.as_str()),
        None => judge_url(byte_len, max_length, None, lowered.as_str()),
    }
}

/// Validates a link for shortening: within the limit, an absolute URL, of
/// scheme `http` or `https`, and free of the blocked patterns. The error is
/// the message of the first reason found.
pub fn validate_url(url_str: &str, max_length: usize) -> (res: Result<(), String>)
    ensures
        url_violation(url_str@, max_length) is None <==> res is Ok,
        url_violation(url_str@, max_length) matches Some(e) ==> res matches Err(m) && m@
            == e.message_text(),
{
    match check_url(url_str, max_length) {
        Ok(()) => Ok(()),
        Err(e) => Err(e.message()),
    }
}

/// The characters that short codes are made of: the ASCII letters and
/// digits.
pub open spec fn code_alphabet() -> Seq<char> {
    "ABCDEFGHIJKLMNOPQRSTUVWXYZabcdefghijklmnopqrstuvwxyz0123456789"@
}

/// Whether a text is a short code as this service makes them: six characters
/// of the alphabet.
pub open spec fn is_short_code(code: Seq<char>) -> bool {
    &&& code.len() == CODE_LENGTH
    &&& forall|i: int| 0 <= i < code.len() ==> code_alphabet().contains(#[trigger] code[i])
}

/// Trusted: `rand::Rng::gen_range` of the thread's generator on `0..bound`,
/// which yields a number of the range. It panics on an empty range, which
/// the precondition leaves out.
#[verifier::external_body]
pub(crate) fn random_below(bound: usize) -> (r: usize)
    requires
        bound > 0,
    ensures
        r < bound,
{
    rand::Rng::gen_range(&mut rand::thread_rng(), 0..bound)
}

/// Makes a short code: six characters, each drawn at random from the ASCII
/// letters and digits.
pub fn generate_short_code() -> (code: String)
    ensures
        is_short_code(code@),
{
    let alphabet = "ABCDEFGHIJKLMNOPQRSTUVWXYZabcdefghijklmnopqrstuvwxyz0123456789";
    proof {
        reveal_strlit("ABCDEFGHIJKLMNOPQRSTUVWXYZabcdefghijklmnopqrstuvwxyz0123456789");
    }
    assert(alphabet@.len() == 62);
    assert(alphabet.is_ascii()) by {
        assert forall|i: int| 0 <= i < alphabet@.len() implies (alphabet@[i] as u32) < 128 by {}
    }
    let mut code = String::new();
    let mut n: usize = 0;
    while n < CODE_LENGTH
        invariant
            n <= CODE_LENGTH,
            alphabet@ == code_alphabet(),
            alphabet@.len() == 62,
            alphabet.is_ascii(),
            code@.len() == n,
            forall|i: int| 0 <= i < code@.len() ==> code_alphabet().contains(#[trigger] code@[i]),
        decreases CODE_LENGTH - n,
    {
        let idx = random_below(62);
        let picked = alphabet.substring_ascii(idx, idx + 1);
        let ghost before = code@;
        code = concat(code.as_str(), picked);
        proof {
            assert(picked@ =~= seq![alphabet@[idx as int]]);
            assert(code@ =~= before.push(alphabet@[idx as int]));
            assert forall|i: int| 0 <= i < code@.len() implies code_alphabet().contains(
                #[trigger] code@[i],
            ) by {
                if i == before.len() {
                    assert(code_alphabet()[idx as int] == code@[i]);
                }
            }
        }
        n = n + 1;
    }
    code
}

} // verus!
