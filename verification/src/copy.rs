//! The texts that the copy shortcuts put on the clipboard.

use crate::model::Issue;
use crate::text;
use vstd::prelude::*;

verus! {

/// `#123`.
pub open spec fn reference_text(issue: Issue) -> Seq<char> {
    "#"@ + text::decimal(issue.number as nat)
}

/// `[#123: title](url)`.
pub open spec fn markdown_link_text(issue: Issue) -> Seq<char> {
    "[#"@ + text::decimal(issue.number as nat) + ": "@ + issue.title@ + "]("@ + issue.url@ + ")"@
}

pub fn format_reference(issue: &Issue) -> (s: String)
    ensures
        s@ == reference_text(*issue),
{
    let mut v = text::chars_of("#");
    text::push_decimal(&mut v, issue.number as u128);
    text::string_of(&v)
}

pub fn format_markdown_link(issue: &Issue) -> (s: String)
    ensures
        s@ == markdown_link_text(*issue),
{
    let mut v = text::chars_of("[#");
    text::push_decimal(&mut v, issue.number as u128);
    text::append_str(&mut v, ": ");
    text::append_str(&mut v, issue.title.as_str());
    text::append_str(&mut v, "](");
    text::append_str(&mut v, issue.url.as_str());
    text::append_str(&mut v, ")");
    text::string_of(&v)
}

pub fn format_url(issue: &Issue) -> (s: String)
    ensures
        s@ == issue.url@,
{
    issue.url.clone()
}

} // verus!
