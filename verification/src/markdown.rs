use vstd::prelude::*;

verus! {

/// The HTML that pulldown-cmark renders for the CommonMark text `text`.
pub uninterp spec fn spec_markdown_html(text: Seq<char>) -> Seq<char>;

/// Renders `text` to HTML with `pulldown_cmark::html::push_html`, fed by
/// `pulldown_cmark::Parser::new(text)`, into an empty string. Claimed: the
/// result is `spec_markdown_html(text@)`, a function of the text alone; how
/// CommonMark is rendered is not stated.
#[verifier::external_body]
pub(crate) fn markdown_to_html(text: &str) -> (html: String)
    ensures
        html@ == spec_markdown_html(text@),
{
    let mut html = String::new();
    pulldown_cmark::html::push_html(&mut html, pulldown_cmark::Parser::new(text));
    html
}

/// Markdown text that is shown as HTML.
pub struct MarkdownText(pub String);

impl MarkdownText {
    /// The HTML rendering of the text.
    pub fn to_html(&self) -> (html: String)
        ensures
            html@ == spec_markdown_html(self.0@),
    {
        markdown_to_html(self.0.as_str())
    }
}

} // verus!
