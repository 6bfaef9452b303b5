//! Text helpers: case folding, substring search, decimal rendering and the
//! generated e-mail address.

use vstd::prelude::*;
use vstd::string::StringExecFns;
use vstd::utf8::{decode_utf8, valid_utf8};

verus! {

/// The lower-case form that `str::to_lowercase` gives to a text.
pub uninterp spec fn lowercase_of(text: Seq<char>) -> Seq<char>;

/// `text` with every occurrence of the character `from` replaced by the text `to`.
pub open spec fn replaced(text: Seq<char>, from: char, to: Seq<char>) -> Seq<char>
    decreases text.len(),
{
    if text.len() == 0 {
        Seq::empty()
    } else if text[0] == from {
        to + replaced(text.drop_first(), from, to)
    } else {
        seq![text[0]] + replaced(text.drop_first(), from, to)
    }
}

/// Whether `needle` occurs in `hay` as a contiguous run of characters.
pub open spec fn is_substring(needle: Seq<char>, hay: Seq<char>) -> bool {
    exists|i: int|
        0 <= i && i + needle.len() <= hay.len() && #[trigger] hay.subrange(
            i,
            i + needle.len(),
        ) == needle
}

/// Calls `str::to_lowercase`, the locale-independent Unicode lower-casing of std.
/// The contract only names its result.
#[verifier::external_body]
pub(crate) fn to_lowercase(text: &str) -> (lowered: String)
    ensures
        lowered@ == lowercase_of(text@),
{
    text.to_lowercase()
}

/// Calls `str::replace` with a character pattern. std documents that every match of
/// the pattern is replaced by the replacement text and everything else is copied.
#[verifier::external_body]
pub(crate) fn replace_char(text: &str, from: char, to: &str) -> (out: String)
    ensures
        out@ == replaced(text@, from, to@),
{
    text.replace(from, to)
}

/// Calls `str::contains` with a string pattern. std documents that it returns true
/// exactly when the pattern matches a sub-slice of the text.
#[verifier::external_body]
pub(crate) fn contains_text(hay: &str, needle: &str) -> (found: bool)
    ensures
        found == is_substring(needle@, hay@),
{
    hay.contains(needle)
}

/// Calls `String::from_utf8`. std documents that it succeeds exactly on valid UTF-8
/// and that the string then consists of the characters those bytes encode.
#[verifier::external_body]
pub(crate) fn string_from_utf8(bytes: Vec<u8>) -> (r: Option<String>)
    ensures
        r is Some <==> valid_utf8(bytes@),
        r matches Some(s) ==> s@ == decode_utf8(bytes@),
{
    String::from_utf8(bytes).ok()
}

/// The suffix of every generated e-mail address.
pub open spec fn email_suffix() -> Seq<char> {
    "@company.com"@
}

/// The address built from an already lower-cased name: spaces become dots and the
/// company domain follows.
pub open spec fn email_from_folded_spec(lowered: Seq<char>) -> Seq<char> {
    replaced(lowered, ' ', "."@) + email_suffix()
}

/// The address generated for an employee name.
pub open spec fn generated_email(name: Seq<char>) -> Seq<char> {
    email_from_folded_spec(lowercase_of(name))
}

/// Builds the address from a name that is already in lower case.
pub fn email_from_folded(lowered: &str) -> (email: String)
    ensures
        email@ == email_from_folded_spec(lowered@),
{
    let mut email: String = replace_char(lowered, ' ', ".");
    email.append("@company.com");
    email
}

/// Generates the e-mail address of an employee who supplied none: the name in lower
/// case, spaces replaced by dots, at the company domain.
pub fn generate_email(name: &str) -> (email: String)
    ensures
        email@ == generated_email(name@),
{
    let lowered: String = to_lowercase(name);
    email_from_folded(lowered.as_str())
}

/// Whether a lower-cased query occurs in a lower-cased name or e-mail address.
pub open spec fn folded_match_spec(name: Seq<char>, email: Seq<char>, query: Seq<char>) -> bool {
    is_substring(query, name) || is_substring(query, email)
}

/// Whether `query` occurs in `name` or `email`, case ignored.
pub open spec fn matches_query(name: Seq<char>, email: Seq<char>, query: Seq<char>) -> bool {
    folded_match_spec(lowercase_of(name), lowercase_of(email), lowercase_of(query))
}

/// Substring match on texts that are already in lower case.
pub fn folded_match(name: &str, email: &str, query: &str) -> (hit: bool)
    ensures
        hit == folded_match_spec(name@, email@, query@),
{
    contains_text(name, query) || contains_text(email, query)
}

/// Case-insensitive substring match of `query` against a name and an e-mail address.
pub fn text_matches(name: &str, email: &str, query: &str) -> (hit: bool)
    ensures
        hit == matches_query(name@, email@, query@),
{
    let name_low: String = to_lowercase(name);
    let email_low: String = to_lowercase(email);
    let query_low: String = to_lowercase(query);
    folded_match(name_low.as_str(), email_low.as_str(), query_low.as_str())
}

/// The character of a decimal digit.
pub open spec fn digit_char(d: nat) -> char {
    if d == 0 {
        '0'
    } else if d == 1 {
        '1'
    } else if d == 2 {
        '2'
    } else if d == 3 {
        '3'
    } else if d == 4 {
        '4'
    } else if d == 5 {
        '5'
    } else if d == 6 {
        '6'
    } else if d == 7 {
        '7'
    } else if d == 8 {
        '8'
    } else {
        '9'
    }
}

/// The decimal numeral of a natural number, without leading zeros.
pub open spec fn decimal_spec(n: nat) -> Seq<char>
    decreases n,
{
    if n < 10 {
        seq![digit_char(n)]
    } else {
        decimal_spec(n / 10).push(digit_char(n % 10))
    }
}

fn digit_text(d: u8) -> (s: &'static str)
    requires
        d < 10,
    ensures
        s@ == seq![digit_char(d as nat)],
{
    proof {
        reveal_strlit("0");
        reveal_strlit("1");
        reveal_strlit("2");
        reveal_strlit("3");
        reveal_strlit("4");
        reveal_strlit("5");
        reveal_strlit("6");
        reveal_strlit("7");
        reveal_strlit("8");
        reveal_strlit("9");
    }
    let s: &'static str = if d == 0 {
        "0"
    } else if d == 1 {
        "1"
    } else if d == 2 {
        "2"
    } else if d == 3 {
        "3"
    } else if d == 4 {
        "4"
    } else if d == 5 {
        "5"
    } else if d == 6 {
        "6"
    } else if d == 7 {
        "7"
    } else if d == 8 {
        "8"
    } else {
        "9"
    };
    assert(s@ =~= seq![digit_char(d as nat)]);
    s
}

/// Renders a number in decimal.
pub fn decimal(n: u128) -> (s: String)
    ensures
        s@ == decimal_spec(n as nat),
    decreases n,
{
    if n < 10 {
        String::from_str(digit_text(n as u8))
    } else {
        let mut s: String = decimal(n / 10);
        s.append(digit_text((n % 10) as u8));
        assert(s@ =~= decimal_spec((n / 10) as nat).push(digit_char((n % 10) as nat)));
        s
    }
}

} // verus!
