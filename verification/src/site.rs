//! The pieces of the server itself that decide what is rendered: inline
//! scripts, the gallery endpoint and the not-found page.

use vstd::prelude::*;
use crate::components::{gallery, gallery_html};
use crate::html::{attribute, element, Markup};
use crate::page::{page, plain_page_html, PageConfig};

verus! {

/// `<script>` with the given code inside, unescaped.
pub open spec fn script_html(code: Seq<char>) -> Seq<char> {
    element("script"@, Seq::<char>::empty(), code)
}

/// A `script` element holding `code` as it is (maud's `PreEscaped`).
pub fn script(code: &str) -> (m: Markup)
    ensures
        m@ == script_html(code@),
{
    let mut m = Markup::new();
    m.push_start("script");
    m.push_raw(code);
    m.push_end("script");
    assert(m@ =~= script_html(code@));
    m
}

/// A script holds its code as it is: `<script>`, the code unescaped, then
/// `</script>`.
pub proof fn lemma_script_keeps_code(code: Seq<char>)
    ensures
        script_html(code) == seq!['<', 's', 'c', 'r', 'i', 'p', 't', '>'] + code + seq![
            '<',
            '/',
            's',
            'c',
            'r',
            'i',
            'p',
            't',
            '>',
        ],
{
    reveal_strlit("script");
    assert(script_html(code) =~= seq!['<', 's', 'c', 'r', 'i', 'p', 't', '>'] + code + seq![
        '<',
        '/',
        's',
        'c',
        'r',
        'i',
        'p',
        't',
        '>',
    ]);
}

/// The gallery served at `/gallery`, with the image the query asks for, or
/// the first one when it asks for none.
pub fn gallery_page(index: Option<usize>) -> (m: Markup)
    ensures
        m@ == gallery_html(
            match index {
                Some(i) => i as nat,
                None => 0,
            },
        ),
{
    let i = match index {
        Some(i) => i,
        None => 0,
    };
    gallery(i)
}

/// The content of the not-found page: a large notice and a link home.
pub open spec fn not_found_body_html() -> Seq<char> {
    element(
        "div"@,
        attribute("class"@, "text-center"@),
        element("p"@, attribute("class"@, "huge"@), "Page not found"@) + element(
            "a"@,
            attribute("href"@, "/"@),
            "Your way home"@,
        ),
    )
}

/// The page served for an unknown address (with status 404).
pub fn not_found() -> (m: Markup)
    ensures
        m@ == plain_page_html(not_found_body_html()),
{
    let mut body = Markup::new();
    body.open_start("div");
    body.push_attr_raw("class", "text-center");
    body.close_start();
    body.open_start("p");
    body.push_attr_raw("class", "huge");
    body.close_start();
    body.push_raw("Page not found");
    body.push_end("p");
    body.open_start("a");
    body.push_attr_raw("href", "/");
    body.close_start();
    body.push_raw("Your way home");
    body.push_end("a");
    body.push_end("div");
    assert(body@ =~= not_found_body_html());
    let config = PageConfig { body, ..Default::default() };
    page(config)
}

} // verus!
