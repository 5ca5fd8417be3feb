use vstd::prelude::*;

verus! {

/// The HTML fragment that the markdown renderer produces for a markdown
/// text. The rendering depends on the text alone, so identical input
/// always yields the identical fragment.
pub uninterp spec fn html_of(md: Seq<char>) -> Seq<char>;

/// Relies on pulldown_cmark's parser and HTML renderer: the fragment is a
/// function of the markdown text alone.
#[verifier::external_body]
fn md_to_html(md: &str) -> (r: String)
    ensures
        r@ == html_of(md@),
{
    let parser = pulldown_cmark::Parser::new(md);
    let mut html = String::new();
    pulldown_cmark::html::push_html(&mut html, parser);
    html
}

/// Render a markdown text to an HTML fragment with standard
/// CommonMark-compatible semantics. The fragment is inserted into the page
/// verbatim: the renderer's own escaping of user content is the
/// sanitization boundary.
pub fn render_markdown(md: &str) -> (r: String)
    ensures
        r@ == html_of(md@),
{
    md_to_html(md)
}

} // verus!
