//! Markdown to HTML.
use vstd::prelude::*;

verus! {

/// The HTML that pulldown-cmark renders for a markdown text, with no extensions enabled.
pub uninterp spec fn html_of(markdown: Seq<char>) -> Seq<char>;

/// Relies on pulldown_cmark::Parser::new_ext (with Options::empty) and
/// pulldown_cmark::html::push_html into an empty string: the HTML depends on the
/// markdown text alone.
#[verifier::external_body]
fn cmark_to_html(markdown: &str) -> (r: String)
    ensures
        r@ == html_of(markdown@),
{
    let parser = pulldown_cmark::Parser::new_ext(markdown, pulldown_cmark::Options::empty());
    let mut html = String::new();
    pulldown_cmark::html::push_html(&mut html, parser);
    html
}

/// Renders a markdown text to HTML. Never fails: malformed markdown renders
/// to best-effort HTML.
pub fn render(markdown: &str) -> (r: String)
    ensures
        r@ == html_of(markdown@),
{
    cmark_to_html(markdown)
}

/// Rendering is deterministic: equal markdown texts render to equal HTML.
pub proof fn lemma_render_deterministic(a: Seq<char>, b: Seq<char>)
    requires
        a == b,
    ensures
        html_of(a) == html_of(b),
{
}

} // verus!
