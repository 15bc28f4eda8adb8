//! Answers typed by the user: yes/no answers, and names or addresses that
//! must follow a pattern.
use crate::text::{concat, string_of, trim, trim_str};
use vstd::prelude::*;

verus! {

/// What `str::to_lowercase` returns for the text `s`.
pub uninterp spec fn lowercase(s: Seq<char>) -> Seq<char>;

/// The lower-case form of `s`.
///
/// Calls `str::to_lowercase`, which maps each character to its lower-case
/// form by the Unicode `Lowercase` property; the contract names that result
/// without stating it.
#[verifier::external_body]
pub(crate) fn to_lowercase(s: &str) -> (r: String)
    ensures
        r@ == lowercase(s@),
{
    s.to_lowercase()
}

/// What `regex::Regex::new(pattern)` followed by `is_match(text)` gives:
/// `None` when the pattern does not compile, else whether it matches.
pub uninterp spec fn regex_outcome(pattern: Seq<char>, text: Seq<char>) -> Option<bool>;

/// Whether `text` matches the regular expression `pattern`; `None` when the
/// pattern is not a valid regular expression.
///
/// Compiles the pattern with `regex::Regex::new` and calls `Regex::is_match`;
/// the contract names the outcome without stating it.
#[verifier::external_body]
fn regex_is_match(pattern: &str, text: &str) -> (r: Option<bool>)
    ensures
        r == regex_outcome(pattern@, text@),
{
    match regex::Regex::new(pattern) {
        Ok(re) => Some(re.is_match(text)),
        Err(_) => None,
    }
}

/// The verdict on a yes/no answer already trimmed and lower-cased: `yes` and
/// `y` are yes, `no` and `n` are no, anything else is refused.
pub fn yesno_verdict(answer: &str) -> (r: Result<bool, String>)
    ensures
        match r {
            Ok(true) => answer@ == "yes"@ || answer@ == "y"@,
            Ok(false) => answer@ == "no"@ || answer@ == "n"@,
            Err(e) => answer@ != "yes"@ && answer@ != "y"@ && answer@ != "no"@ && answer@ != "n"@ && e@
                == "無効な回答: "@ + answer@,
        },
{
    if crate::text::str_eq(answer, "yes") || crate::text::str_eq(answer, "y") {
        Ok(true)
    } else if crate::text::str_eq(answer, "no") || crate::text::str_eq(answer, "n") {
        Ok(false)
    } else {
        Err(concat("無効な回答: ", answer))
    }
}

/// The verdict on the yes/no answer `input`, read with surrounding
/// whitespace removed and in lower case.
pub fn yesno(input: &str) -> (r: Result<bool, String>)
    ensures
        ({
            let a = lowercase(trim(input@));
            match r {
                Ok(true) => a == "yes"@ || a == "y"@,
                Ok(false) => a == "no"@ || a == "n"@,
                Err(e) => a != "yes"@ && a != "y"@ && a != "no"@ && a != "n"@ && e@ == "無効な回答: "@ + a,
            }
        }),
{
    let answer = to_lowercase(trim_str(input));
    yesno_verdict(answer.as_str())
}

/// The verdict on the answer `text` (already trimmed) given whether it
/// matched the pattern `pattern` (`None`: the pattern is not valid).
pub fn match_verdict(text: &str, pattern: &str, outcome: Option<bool>) -> (r: Result<String, String>)
    ensures
        match outcome {
            Some(true) => r matches Ok(t) && t@ == text@,
            Some(false) => r matches Err(e) && e@ == "無効な入力: "@ + text@,
            None => r matches Err(e) && e@ == "Invalid pattern: "@ + pattern@,
        },
{
    match outcome {
        Some(true) => Ok(string_of(text)),
        Some(false) => Err(concat("無効な入力: ", text)),
        None => Err(concat("Invalid pattern: ", pattern)),
    }
}

/// The answer `input` with surrounding whitespace removed, when it matches
/// the regular expression `pattern`.
pub fn regex_string(input: &str, pattern: &str) -> (r: Result<String, String>)
    ensures
        match regex_outcome(pattern@, trim(input@)) {
            Some(true) => r matches Ok(t) && t@ == trim(input@),
            Some(false) => r matches Err(e) && e@ == "無効な入力: "@ + trim(input@),
            None => r matches Err(e) && e@ == "Invalid pattern: "@ + pattern@,
        },
{
    let text = trim_str(input);
    let outcome = regex_is_match(pattern, text);
    match_verdict(text, pattern, outcome)
}

/// The pattern of camelCase names.
pub open spec fn camel_pattern() -> Seq<char> {
    "^[a-z][a-z0-9]*(?:[A-Z][a-z0-9]*)*$"@
}

/// The pattern of PascalCase names.
pub open spec fn pascal_pattern() -> Seq<char> {
    "^[A-Z][a-z0-9]*(?:[A-Z][a-z0-9]*)*$"@
}

/// The pattern of snake_case names.
pub open spec fn snake_pattern() -> Seq<char> {
    "^[a-z0-9]+(?:_[a-z0-9]+)*$"@
}

/// The pattern of kebab-case names.
pub open spec fn kebab_pattern() -> Seq<char> {
    "^[a-z0-9]+(?:-[a-z0-9]+)*$"@
}

/// The pattern of SCREAMING_SNAKE_CASE names.
pub open spec fn screaming_snake_pattern() -> Seq<char> {
    "^[A-Z0-9]+(?:_[A-Z0-9]+)*$"@
}

/// The pattern of email addresses.
pub open spec fn email_pattern() -> Seq<char> {
    "^[a-zA-Z0-9._%+-]+@[a-zA-Z0-9.-]+\\.[a-zA-Z]{2,}$"@
}

/// The answer `input`, trimmed, when it is a camelCase name.
pub fn camel_case(input: &str) -> (r: Result<String, String>)
    ensures
        match regex_outcome(camel_pattern(), trim(input@)) {
            Some(true) => r matches Ok(t) && t@ == trim(input@),
            Some(false) => r matches Err(e) && e@ == "無効な入力: "@ + trim(input@),
            None => r matches Err(e) && e@ == "Invalid pattern: "@ + camel_pattern(),
        },
{
    regex_string(input, "^[a-z][a-z0-9]*(?:[A-Z][a-z0-9]*)*$")
}

/// The answer `input`, trimmed, when it is a PascalCase name.
pub fn pascal_case(input: &str) -> (r: Result<String, String>)
    ensures
        match regex_outcome(pascal_pattern(), trim(input@)) {
            Some(true) => r matches Ok(t) && t@ == trim(input@),
            Some(false) => r matches Err(e) && e@ == "無効な入力: "@ + trim(input@),
            None => r matches Err(e) && e@ == "Invalid pattern: "@ + pascal_pattern(),
        },
{
    regex_string(input, "^[A-Z][a-z0-9]*(?:[A-Z][a-z0-9]*)*$")
}

/// The answer `input`, trimmed, when it is a snake_case name.
pub fn snake_case(input: &str) -> (r: Result<String, String>)
    ensures
        match regex_outcome(snake_pattern(), trim(input@)) {
            Some(true) => r matches Ok(t) && t@ == trim(input@),
            Some(false) => r matches Err(e) && e@ == "無効な入力: "@ + trim(input@),
            None => r matches Err(e) && e@ == "Invalid pattern: "@ + snake_pattern(),
        },
{
    regex_string(input, "^[a-z0-9]+(?:_[a-z0-9]+)*$")
}

/// The answer `input`, trimmed, when it is a kebab-case name.
pub fn kebab_case(input: &str) -> (r: Result<String, String>)
    ensures
        match regex_outcome(kebab_pattern(), trim(input@)) {
            Some(true) => r matches Ok(t) && t@ == trim(input@),
            Some(false) => r matches Err(e) && e@ == "無効な入力: "@ + trim(input@),
            None => r matches Err(e) && e@ == "Invalid pattern: "@ + kebab_pattern(),
        },
{
    regex_string(input, "^[a-z0-9]+(?:-[a-z0-9]+)*$")
}

/// The answer `input`, trimmed, when it is a SCREAMING_SNAKE_CASE name.
pub fn screaming_snake_case(input: &str) -> (r: Result<String, String>)
    ensures
        match regex_outcome(screaming_snake_pattern(), trim(input@)) {
            Some(true) => r matches Ok(t) && t@ == trim(input@),
            Some(false) => r matches Err(e) && e@ == "無効な入力: "@ + trim(input@),
            None => r matches Err(e) && e@ == "Invalid pattern: "@ + screaming_snake_pattern(),
        },
{
    regex_string(input, "^[A-Z0-9]+(?:_[A-Z0-9]+)*$")
}

/// The answer `input`, trimmed, when it is an email address.
pub fn email_address(input: &str) -> (r: Result<String, String>)
    ensures
        match regex_outcome(email_pattern(), trim(input@)) {
            Some(true) => r matches Ok(t) && t@ == trim(input@),
            Some(false) => r matches Err(e) && e@ == "無効な入力: "@ + trim(input@),
            None => r matches Err(e) && e@ == "Invalid pattern: "@ + email_pattern(),
        },
{
    regex_string(input, "^[a-zA-Z0-9._%+-]+@[a-zA-Z0-9.-]+\\.[a-zA-Z]{2,}$")
}

} // verus!
