//! Calls into `regex`, `chrono` and the parts of std that vstd leaves
//! unspecified. Their contracts are believed, not proved.

use crate::patterns;
use crate::text;
use vstd::prelude::*;

verus! {

/// The views of capture groups.
pub open spec fn groups_view(groups: Seq<Option<String>>) -> Seq<Option<Seq<char>>> {
    Seq::new(
        groups.len(),
        |i: int|
            match groups[i] {
                Some(text) => Some(text@),
                None => None,
            },
    )
}

/// The capture groups of the leftmost match of a regular expression in a text,
/// the whole match first, or `None` where nothing matches.
pub uninterp spec fn regex_groups(pattern: Seq<char>, text: Seq<char>) -> Option<
    Seq<Option<Seq<char>>>,
>;

/// `regex::Regex`.
#[verifier::external_type_specification]
#[verifier::external_body]
pub struct ExRegex(regex::Regex);

/// The pattern that a regular expression was compiled from, which is what
/// `regex::Regex::as_str` returns.
pub uninterp spec fn regex_source(regex: regex::Regex) -> Seq<char>;

/// `regex::Regex::new`: compiles a pattern. It accepts each line pattern.
#[verifier::external_body]
pub(crate) fn compile(pattern: &str) -> (regex: regex::Regex)
    requires
        patterns::is_line_pattern(pattern@),
    ensures
        regex_source(regex) == pattern@,
{
    regex::Regex::new(pattern).expect("line patterns are valid")
}

/// `regex::Regex::captures`: the groups of the leftmost match, in order, each
/// with the text it took part with. The result depends on the pattern and the
/// text alone. Which groups take part, and with what kind of text, is as the
/// pattern writes it.
#[verifier::external_body]
pub(crate) fn regex_captures(regex: &regex::Regex, text: &str) -> (groups: Option<
    Vec<Option<String>>,
>)
    requires
        patterns::is_line_pattern(regex_source(*regex)),
    ensures
        match groups {
            Some(found) => regex_groups(regex_source(*regex), text@) == Some(groups_view(found@))
                && patterns::groups_fit(regex_source(*regex), groups_view(found@)),
            None => regex_groups(regex_source(*regex), text@) is None,
        },
{
    regex.captures(text).map(
        |captures|
            captures.iter().map(|group| group.map(|found| found.as_str().to_owned())).collect(),
    )
}

/// Two ASCII digits stand at a position and the next one.
pub open spec fn two_digits(s: Seq<char>, at: int) -> bool {
    text::is_digit(s[at]) && text::is_digit(s[at + 1])
}

/// A year: four digits, or a sign and at least four digits.
pub open spec fn is_year(s: Seq<char>) -> bool {
    ||| s.len() == 4 && text::all_digits(s)
    ||| s.len() >= 5 && (s[0] == '+' || s[0] == '-') && text::all_digits(s.drop_first())
}

/// What follows the year: `-MM-DDThh:mm:ss.mmm+hh:mm`, or with a minus sign
/// before the offset.
pub open spec fn is_rest_of_time(s: Seq<char>) -> bool {
    &&& s.len() == 25
    &&& s[0] == '-' && two_digits(s, 1)
    &&& s[3] == '-' && two_digits(s, 4)
    &&& s[6] == 'T' && two_digits(s, 7)
    &&& s[9] == ':' && two_digits(s, 10)
    &&& s[12] == ':' && two_digits(s, 13)
    &&& s[15] == '.' && two_digits(s, 16) && text::is_digit(s[18])
    &&& (s[19] == '+' || s[19] == '-') && two_digits(s, 20)
    &&& s[22] == ':' && two_digits(s, 23)
}

/// The text writes a time in ISO 8601, with milliseconds and an offset.
pub open spec fn is_iso8601(s: Seq<char>) -> bool {
    &&& s.len() >= 29
    &&& is_year(s.take(s.len() - 25))
    &&& is_rest_of_time(s.skip(s.len() - 25))
}

/// `chrono::Local::now`, written by `to_rfc3339_opts` with milliseconds and the
/// local offset. Which time it writes depends on the clock and the time zone.
#[verifier::external_body]
pub(crate) fn now_iso8601() -> (time: String)
    ensures
        is_iso8601(time@),
{
    chrono::Local::now().to_rfc3339_opts(chrono::SecondsFormat::Millis, false)
}

/// The upper-case form of a text under Unicode case mapping.
pub uninterp spec fn uppercase(text: Seq<char>) -> Seq<char>;

/// The text holds ASCII letters only.
pub open spec fn is_ascii_letters(text: Seq<char>) -> bool {
    forall|i: int|
        0 <= i < text.len() ==> ('a' <= #[trigger] text[i] && text[i] <= 'z') || ('A' <= text[i]
            && text[i] <= 'Z')
}

/// The text with each lower-case ASCII letter in upper case.
pub open spec fn ascii_uppercase(text: Seq<char>) -> Seq<char> {
    Seq::new(
        text.len(),
        |i: int|
            if 'a' <= text[i] && text[i] <= 'z' {
                (text[i] as u32 - 32) as char
            } else {
                text[i]
            },
    )
}

/// `str::to_uppercase`: the Unicode upper-case form of the text. ASCII letters go
/// to their upper-case forms, one for one.
#[verifier::external_body]
pub(crate) fn to_uppercase(text: &str) -> (upper: String)
    ensures
        upper@ == uppercase(text@),
        is_ascii_letters(text@) ==> upper@ == ascii_uppercase(text@),
{
    text.to_uppercase()
}

/// Bytes decoded as UTF-8, with a replacement character for each invalid run.
pub uninterp spec fn utf8_lossy(bytes: Seq<u8>) -> Seq<char>;

/// `String::from_utf8_lossy`: valid UTF-8 is decoded as it stands; in other
/// bytes each invalid sequence becomes U+FFFD.
#[verifier::external_body]
pub(crate) fn decode_lossy(bytes: &[u8]) -> (text: String)
    ensures
        text@ == utf8_lossy(bytes@),
        vstd::utf8::valid_utf8(bytes@) ==> text@ == vstd::utf8::decode_utf8(bytes@),
{
    String::from_utf8_lossy(bytes).into_owned()
}

} // verus!
