//! Removal of HTML markup from comment bodies.
use vstd::prelude::*;
use crate::text::{replace_str, replaced};

verus! {

/// `regex::Regex`, declared so that a compiled pattern can be held in a field; what it
/// holds stays hidden.
#[verifier::external_type_specification]
#[verifier::external_body]
pub struct ExRegex(regex::Regex);

/// The pattern of an HTML comment, matched lazily.
pub open spec fn html_comment_pattern() -> Seq<char> {
    "<!--.*?-->"@
}

/// The pattern of an HTML tag.
pub open spec fn html_tag_pattern() -> Seq<char> {
    "<[^>]+>"@
}

/// `text` with every match of the regular expression `pattern` removed, as
/// `regex::Regex::replace_all(text, "")` does with the regex compiled from `pattern`.
pub uninterp spec fn regex_removed(pattern: Seq<char>, text: Seq<char>) -> Seq<char>;

/// A compiled regular expression with the text it was compiled from.
pub struct Pattern {
    re: regex::Regex,
    source: String,
}

impl Pattern {
    /// The text the pattern was compiled from.
    pub closed spec fn source(&self) -> Seq<char> {
        self.source@
    }
}

/// `regex::Regex::new` on one of the two markup patterns of this library. Both are valid
/// regular-expression syntax well within the default size limits, so `Regex::new` returns
/// `Ok` on them; the pattern text is kept beside the compiled regex.
#[verifier::external_body]
fn compile_markup_pattern(pattern: &str) -> (p: Pattern)
    requires
        pattern@ == html_comment_pattern() || pattern@ == html_tag_pattern(),
    ensures
        p.source() == pattern@,
{
    Pattern { re: regex::Regex::new(pattern).unwrap(), source: pattern.to_string() }
}

/// `regex::Regex::replace_all` with the empty replacement: the text with every match of
/// the pattern removed, named by `regex_removed`.
#[verifier::external_body]
fn remove_matches(p: &Pattern, text: &str) -> (r: String)
    ensures
        r@ == regex_removed(p.source(), text@),
{
    p.re.replace_all(text, "").into_owned()
}

/// The five HTML entities decoded, one after the other, as the sidebar does.
pub open spec fn decode_entities(s: Seq<char>) -> Seq<char> {
    replaced(
        replaced(
            replaced(replaced(replaced(s, "&amp;"@, "&"@), "&lt;"@, "<"@), "&gt;"@, ">"@),
            "&quot;"@,
            "\""@,
        ),
        "&#39;"@,
        "'"@,
    )
}

/// A comment body as the sidebar shows it: HTML comments removed, then tags, then
/// entities decoded.
pub open spec fn cleaned_body(body: Seq<char>) -> Seq<char> {
    decode_entities(
        regex_removed(html_tag_pattern(), regex_removed(html_comment_pattern(), body)),
    )
}

/// Removes HTML comments and tags from a comment body and decodes the common entities.
pub fn clean_body(body: &str) -> (s: String)
    ensures
        s@ == cleaned_body(body@),
{
    let comments = compile_markup_pattern("<!--.*?-->");
    let without_comments = remove_matches(&comments, body);
    let tags = compile_markup_pattern("<[^>]+>");
    let without_tags = remove_matches(&tags, without_comments.as_str());
    proof {
        reveal_strlit("&amp;");
        reveal_strlit("&lt;");
        reveal_strlit("&gt;");
        reveal_strlit("&quot;");
        reveal_strlit("&#39;");
    }
    let a = replace_str(without_tags.as_str(), "&amp;", "&");
    let b = replace_str(a.as_str(), "&lt;", "<");
    let c = replace_str(b.as_str(), "&gt;", ">");
    let d = replace_str(c.as_str(), "&quot;", "\"");
    replace_str(d.as_str(), "&#39;", "'")
}

} // verus!
