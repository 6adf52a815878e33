//! Quote references: `>>123` in a message becomes a link to post 123.
//!
//! The references are found in text that is already escaped, so the pattern
//! looks for the entity `&gt;` twice and then digits. Finding them is the
//! `regex` crate's work; the markup of a link is built here.

use regex::Regex;
use vstd::prelude::*;
use vstd::string::StringExecFns;

verus! {

/// The pattern of a quote reference in escaped text; its one group holds the
/// digits.
pub const QUOTE_PATTERN: &'static str = "&gt;&gt;(\\d+)";

/// Where one match lies in the text that was searched, counted in characters:
/// the whole match from `start` up to `end`, its first capture group from
/// `group_start` up to `group_end`.
pub struct CaptureSpan {
    pub start: int,
    pub end: int,
    pub group_start: int,
    pub group_end: int,
}

/// Whether `Regex::new` of the `regex` crate accepts `pattern`.
pub uninterp spec fn regex_compiles(pattern: Seq<char>) -> bool;

/// The successive, non-overlapping matches of `pattern` in `haystack`, as the
/// `regex` crate's search reports them from left to right. The crate gives
/// the places in bytes, always between two characters; here they are counted
/// in characters. A match whose first capture group took no part in it has an
/// empty group span at its start.
pub uninterp spec fn regex_captures(pattern: Seq<char>, haystack: Seq<char>) -> Seq<CaptureSpan>;

/// Matches lie inside the text, one after the other from `from` on, and each
/// group inside its match.
pub open spec fn well_placed(spans: Seq<CaptureSpan>, from: int, len: int) -> bool
    decreases spans.len(),
{
    if spans.len() == 0 {
        0 <= from <= len
    } else {
        let m = spans.first();
        &&& 0 <= from <= m.start <= m.group_start <= m.group_end <= m.end <= len
        &&& well_placed(spans.drop_first(), m.end, len)
    }
}

/// The link that stands for a quote reference to the post whose number is
/// written with `digits`.
pub open spec fn quote_link_markup(digits: Seq<char>) -> Seq<char> {
    "<a class=\"quotelink\" href=\"#"@ + digits + "\">&gt;&gt;"@ + digits + "</a>"@
}

/// The text from `from` on, with each match replaced by the link for the
/// digits in its group and everything between the matches kept.
pub open spec fn with_links(text: Seq<char>, spans: Seq<CaptureSpan>, from: int) -> Seq<char>
    decreases spans.len(),
{
    if spans.len() == 0 {
        text.subrange(from, text.len() as int)
    } else {
        let m = spans.first();
        text.subrange(from, m.start) + quote_link_markup(
            text.subrange(m.group_start, m.group_end),
        ) + with_links(text, spans.drop_first(), m.end)
    }
}

/// An escaped line with its quote references turned into links. Should the
/// pattern ever fail to compile, the line stays as it is.
pub open spec fn linked(line: Seq<char>) -> Seq<char> {
    if regex_compiles(QUOTE_PATTERN@) {
        with_links(line, regex_captures(QUOTE_PATTERN@, line), 0)
    } else {
        line
    }
}

/// Builds the link for a quote reference from the digits of the post number.
pub fn quote_link(digits: &str) -> (link: String)
    ensures
        link@ == quote_link_markup(digits@),
{
    let mut link = String::new();
    link.append("<a class=\"quotelink\" href=\"#");
    link.append(digits);
    link.append("\">&gt;&gt;");
    link.append(digits);
    link.append("</a>");
    assert(link@ =~= quote_link_markup(digits@));
    link
}

/// Calls `Regex::new` and then `Regex::replace_all` of the `regex` crate, with
/// [`quote_link`] of the text of the first capture group as the replacement
/// of each match.
///
/// Trusted: the result is `None` exactly when the pattern does not compile;
/// otherwise the haystack comes back with every match, in the order of the
/// search, replaced by its link and the text between the matches untouched,
/// and the matches lie in the haystack one after the other, each group
/// inside its match.
#[verifier::external_body]
fn replace_with_links(pattern: &str, haystack: &str) -> (r: Option<String>)
    ensures
        r is Some <==> regex_compiles(pattern@),
        r is Some ==> well_placed(regex_captures(pattern@, haystack@), 0, haystack@.len() as int),
        r matches Some(out) ==> out@ == with_links(
            haystack@,
            regex_captures(pattern@, haystack@),
            0,
        ),
{
    let re = Regex::new(pattern).ok()?;
    let linked = re.replace_all(haystack, |caps: &regex::Captures| {
        quote_link(caps.get(1).map_or("", |m| m.as_str()))
    });
    Some(linked.into_owned())
}

/// Turns the quote references of an escaped line into links.
pub fn link_quotes(line: &str) -> (out: String)
    ensures
        out@ == linked(line@),
{
    match replace_with_links(QUOTE_PATTERN, line) {
        Some(out) => out,
        None => line.to_owned(),
    }
}

} // verus!
