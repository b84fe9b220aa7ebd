use vstd::prelude::*;

verus! {

/// The HTML that pulldown-cmark renders from a markdown source with no
/// extension enabled. A function of the source alone.
pub uninterp spec fn commonmark_html(markdown: Seq<char>) -> Seq<char>;

/// Calls `pulldown_cmark::Parser::new` and `pulldown_cmark::html::push_html`
/// on an empty string. The contract claims only that the HTML is the same for
/// the same markdown source.
#[verifier::external_body]
fn render_commonmark(markdown: &str) -> (html: String)
    ensures
        html@ == commonmark_html(markdown@),
{
    let parser = pulldown_cmark::Parser::new(markdown);
    let mut html = String::new();
    pulldown_cmark::html::push_html(&mut html, parser);
    html
}

/// A post's markdown body as the HTML that readers are served.
pub fn markdown_to_html(markdown: &str) -> (html: String)
    ensures
        html@ == commonmark_html(markdown@),
{
    render_commonmark(markdown)
}

} // verus!
