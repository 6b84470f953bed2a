//! Page pieces built from what the database holds: a page's rendered
//! markdown and the navigation bar.

use vstd::prelude::*;
use crate::components::Page;
use crate::html::{element, markdown_html, markdown_to_html, Markup};
use crate::nav::nav_html;

verus! {

/// Markdown rendered to HTML, kept unescaped.
fn markdown(md: &str) -> (m: Markup)
    ensures
        m@ == markdown_html(md@),
{
    Markup::pre_escaped(markdown_to_html(md))
}

/// A page body: its HTML inside a `div`.
pub open spec fn page_body_html(html: Seq<char>) -> Seq<char> {
    element("div"@, Seq::<char>::empty(), html)
}

/// A page body keeps its HTML as it is: `<div>`, the HTML, `</div>`.
pub proof fn lemma_page_body_keeps_html(html: Seq<char>)
    ensures
        page_body_html(html) == seq!['<', 'd', 'i', 'v', '>'] + html + seq!['<', '/', 'd', 'i', 'v', '>'],
{
    reveal_strlit("div");
    assert(page_body_html(html) =~= seq!['<', 'd', 'i', 'v', '>'] + html + seq![
        '<',
        '/',
        'd',
        'i',
        'v',
        '>',
    ]);
}

/// The body of a page whose rendered HTML is `html`.
pub fn page_from_html(html: &Markup) -> (m: Markup)
    ensures
        m@ == page_body_html(html@),
{
    let mut m = Markup::new();
    m.push_start("div");
    m.push_markup(html);
    m.push_end("div");
    assert(m@ =~= page_body_html(html@));
    m
}

/// The body of a page whose stored markdown is `content`.
pub fn page(content: &str) -> (m: Markup)
    ensures
        m@ == page_body_html(markdown_html(content@)),
{
    let html = markdown(content);
    page_from_html(&html)
}

/// The navigation bar over `pages`.
pub fn nav(pages: &[Page]) -> (m: Markup)
    ensures
        m@ == nav_html(pages@),
{
    crate::nav::nav(pages)
}

} // verus!
