//! The simple layout of the site: a page that loads htmx at the end of its
//! body and has no sign-in, with the same gallery.

use vstd::prelude::*;
use crate::components::{
    banner_body_html, button_html, gallery, gallery_html, htmx_script, push_stylesheet_raw,
    stylesheet_link, wrapper_html, Button as GalleryButton,
};
use crate::components::{lemma_regroup_insert, lemma_split_at_join};
use crate::html::{attribute, doctype_html, element, end_tag, start_tag, Markup};

verus! {

/// The two gallery buttons of this layout.
pub enum Button {
    Prev,
    Next,
}

/// The gallery button that `button` stands for.
pub open spec fn gallery_button(button: Button) -> GalleryButton {
    match button {
        Button::Prev => GalleryButton::Prev,
        Button::Next => GalleryButton::Next,
    }
}

/// The head of this layout: the title and the main stylesheet.
#[verifier::opaque]
pub open spec fn plain_head_html() -> Seq<char> {
    element(
        "head"@,
        Seq::<char>::empty(),
        element("title"@, Seq::<char>::empty(), "Sample site"@) + stylesheet_link(
            "/assets/css/main.css"@,
        ),
    )
}

/// A page of this layout: the doctype, then `html` with the plain head and a
/// body of the banner, the content frame and the htmx script.
pub open spec fn page_html(nav: Seq<char>, content: Seq<char>) -> Seq<char> {
    doctype_html() + element(
        "html"@,
        Seq::<char>::empty(),
        plain_head_html() + element(
            "body"@,
            Seq::<char>::empty(),
            banner_body_html() + wrapper_html(nav, content) + htmx_script(),
        ),
    )
}

/// A page with `nav` in the header and `content` in the main frame.
pub fn page(nav: Markup, content: Markup) -> (m: Markup)
    ensures
        m@ == page_html(nav@, content@),
{
    let mut h = Markup::new();
    h.push_start("head");
    h.push_start("title");
    h.push_raw("Sample site");
    h.push_end("title");
    push_stylesheet_raw(&mut h, "/assets/css/main.css");
    h.push_end("head");
    reveal(plain_head_html);
    assert(h@ =~= plain_head_html());
    let mut b = Markup::new();
    crate::components::push_banner_body(&mut b);
    crate::components::push_wrapper(&mut b, &nav, &content);
    crate::components::push_htmx_script(&mut b);
    let mut m = Markup::new();
    m.push_doctype();
    m.push_start("html");
    m.push_markup(&h);
    m.push_start("body");
    m.push_markup(&b);
    m.push_end("body");
    m.push_end("html");
    assert(b@ =~= banner_body_html() + wrapper_html(nav@, content@) + htmx_script());
    assert(m@ =~= page_html(nav@, content@));
    m
}

/// A page of this layout is its opening part, the content frame, then the
/// htmx script and the closing tags.
proof fn lemma_page_split(nav: Seq<char>, content: Seq<char>)
    ensures
        page_html(nav, content) == doctype_html() + start_tag("html"@, Seq::<char>::empty())
            + plain_head_html() + start_tag("body"@, Seq::<char>::empty()) + banner_body_html()
            + wrapper_html(nav, content) + (htmx_script() + end_tag("body"@) + end_tag("html"@)),
{
    let empty = Seq::<char>::empty();
    let w = wrapper_html(nav, content);
    let body = element("body"@, empty, banner_body_html() + w + htmx_script());
    assert(body =~= start_tag("body"@, empty) + banner_body_html() + w + htmx_script() + end_tag(
        "body"@,
    ));
    assert(page_html(nav, content) =~= doctype_html() + start_tag("html"@, empty)
        + plain_head_html() + start_tag("body"@, empty) + banner_body_html() + w + (htmx_script()
        + end_tag("body"@) + end_tag("html"@)));
}

/// A page of this layout keeps its content markup as it is: it is the page
/// with empty content with `content` inserted right before `</main>`.
pub proof fn lemma_page_keeps_content(nav: Seq<char>, content: Seq<char>)
    ensures
        ({
            let without = page_html(nav, Seq::<char>::empty());
            let tail = end_tag("main"@) + end_tag("div"@) + htmx_script() + end_tag("body"@)
                + end_tag("html"@);
            let n = without.len() - tail.len();
            &&& 0 <= n <= without.len()
            &&& without.skip(n) == tail
            &&& page_html(nav, content) == without.take(n) + content + without.skip(n)
        }),
{
    let empty = Seq::<char>::empty();
    let opening = doctype_html() + start_tag("html"@, empty) + plain_head_html() + start_tag(
        "body"@,
        empty,
    ) + banner_body_html();
    let closing = htmx_script() + end_tag("body"@) + end_tag("html"@);
    let a = start_tag("div"@, attribute("class"@, "wrapper"@)) + element("header"@, empty, nav)
        + start_tag("main"@, empty);
    let b = end_tag("main"@) + end_tag("div"@);
    lemma_page_split(nav, content);
    lemma_page_split(nav, empty);
    assert(wrapper_html(nav, content) =~= a + content + b);
    assert(wrapper_html(nav, empty) =~= a + b);
    let lead = opening + a;
    let tail = b + closing;
    assert(tail =~= end_tag("main"@) + end_tag("div"@) + htmx_script() + end_tag("body"@)
        + end_tag("html"@));
    lemma_regroup_insert(opening, a, content, b, closing);
    assert(page_html(nav, empty) == lead + tail);
    assert(page_html(nav, content) == lead + content + tail);
    lemma_split_at_join(lead, tail);
}

/// A page of this layout keeps its navigation markup as it is: it is the
/// page with empty navigation with `nav` inserted right before `</header>`.
pub proof fn lemma_page_keeps_nav(nav: Seq<char>, content: Seq<char>)
    ensures
        ({
            let without = page_html(Seq::<char>::empty(), content);
            let tail = end_tag("header"@) + element("main"@, Seq::<char>::empty(), content)
                + end_tag("div"@) + htmx_script() + end_tag("body"@) + end_tag("html"@);
            let n = without.len() - tail.len();
            &&& 0 <= n <= without.len()
            &&& without.skip(n) == tail
            &&& page_html(nav, content) == without.take(n) + nav + without.skip(n)
        }),
{
    let empty = Seq::<char>::empty();
    let opening = doctype_html() + start_tag("html"@, empty) + plain_head_html() + start_tag(
        "body"@,
        empty,
    ) + banner_body_html();
    let closing = htmx_script() + end_tag("body"@) + end_tag("html"@);
    let a = start_tag("div"@, attribute("class"@, "wrapper"@)) + start_tag("header"@, empty);
    let b = end_tag("header"@) + element("main"@, empty, content) + end_tag("div"@);
    lemma_page_split(nav, content);
    lemma_page_split(empty, content);
    assert(wrapper_html(nav, content) =~= a + nav + b);
    assert(wrapper_html(empty, content) =~= a + b);
    let lead = opening + a;
    let tail = b + closing;
    assert(tail =~= end_tag("header"@) + element("main"@, empty, content) + end_tag("div"@)
        + htmx_script() + end_tag("body"@) + end_tag("html"@));
    lemma_regroup_insert(opening, a, nav, b, closing);
    assert(page_html(empty, content) == lead + tail);
    assert(page_html(nav, content) == lead + nav + tail);
    lemma_split_at_join(lead, tail);
}

/// The gallery button `buton` shown while image `index` is on screen.
pub fn button(index: usize, buton: Button) -> (m: Markup)
    ensures
        m@ == button_html(index as nat, gallery_button(buton)),
{
    let b = match buton {
        Button::Prev => GalleryButton::Prev,
        Button::Next => GalleryButton::Next,
    };
    crate::components::button(index, b)
}

/// The photo gallery with image `state` on screen.
pub fn build_gallery(state: usize) -> (m: Markup)
    ensures
        m@ == gallery_html(state as nat),
{
    gallery(state)
}

} // verus!
