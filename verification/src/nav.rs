//! The navigation bar: one link per page of the site.

use vstd::prelude::*;
use crate::components::Page;
use crate::components::{lemma_insert_before_tail, lemma_split_at_join};
use crate::html::{attribute, element, end_tag, escape, start_tag, Markup};

verus! {

/// The address of the page with `slug`: `/page/` and the slug.
pub open spec fn page_href(slug: Seq<char>) -> Seq<char> {
    "/page/"@ + slug
}

/// The list item that links to `page`, its title as the link text.
pub open spec fn nav_item(page: Page) -> Seq<char> {
    element(
        "li"@,
        Seq::<char>::empty(),
        element("a"@, attribute("href"@, escape(page_href(page.slug@))), escape(page.title@)),
    )
}

/// One list item per page, in the order given.
pub open spec fn nav_items(pages: Seq<Page>) -> Seq<char>
    decreases pages.len(),
{
    if pages.len() == 0 {
        Seq::<char>::empty()
    } else {
        nav_items(pages.drop_last()) + nav_item(pages.last())
    }
}

/// The navigation bar: a `nav` holding a flex row list of the page links.
pub open spec fn nav_html(pages: Seq<Page>) -> Seq<char> {
    element(
        "nav"@,
        Seq::<char>::empty(),
        element("ul"@, attribute("class"@, "flex flex-row gap-4"@), nav_items(pages)),
    )
}

/// The navigation over two lists of pages, one after the other, is the
/// navigation over the first followed by that over the second.
pub proof fn lemma_nav_items_concat(a: Seq<Page>, b: Seq<Page>)
    ensures
        nav_items(a + b) == nav_items(a) + nav_items(b),
    decreases b.len(),
{
    if b.len() == 0 {
        assert(a + b =~= a);
        assert(nav_items(a) + nav_items(b) =~= nav_items(a));
    } else {
        lemma_nav_items_concat(a, b.drop_last());
        assert((a + b).drop_last() =~= a + b.drop_last());
        assert((a + b).last() == b.last());
        assert(nav_items(a + b) =~= nav_items(a) + nav_items(b));
    }
}

/// The navigation has one link per page: that of a single page is its item.
pub proof fn lemma_nav_items_single(page: Page)
    ensures
        nav_items(seq![page]) == nav_item(page),
{
    let one = seq![page];
    assert(one.drop_last() =~= Seq::<Page>::empty());
    assert(one.last() == page);
    assert(nav_items(one.drop_last()) == Seq::<char>::empty());
    assert(nav_items(one) == nav_items(one.drop_last()) + nav_item(page));
    assert(nav_items(one) =~= nav_item(page));
}

/// The navigation over no pages is the empty list: the `nav` with its
/// opening and closing tags only.
pub proof fn lemma_nav_empty()
    ensures
        nav_html(Seq::<Page>::empty()) == start_tag("nav"@, Seq::<char>::empty()) + start_tag(
            "ul"@,
            attribute("class"@, "flex flex-row gap-4"@),
        ) + end_tag("ul"@) + end_tag("nav"@),
{
    assert(nav_html(Seq::<Page>::empty()) =~= start_tag("nav"@, Seq::<char>::empty()) + start_tag(
        "ul"@,
        attribute("class"@, "flex flex-row gap-4"@),
    ) + end_tag("ul"@) + end_tag("nav"@));
}

/// Every page given is listed, in order: the navigation over `pages` and one
/// more page `page` is the navigation over `pages` with the item of `page`
/// inserted right before `</ul></nav>`, which ends every navigation bar.
pub proof fn lemma_nav_lists_added_page(pages: Seq<Page>, page: Page)
    ensures
        ({
            let before = nav_html(pages);
            let tail = end_tag("ul"@) + end_tag("nav"@);
            let n = before.len() - tail.len();
            &&& 0 <= n <= before.len()
            &&& before.skip(n) == tail
            &&& nav_html(pages.push(page)) == before.take(n) + nav_item(page) + before.skip(n)
        }),
{
    let lead = start_tag("nav"@, Seq::<char>::empty()) + start_tag(
        "ul"@,
        attribute("class"@, "flex flex-row gap-4"@),
    ) + nav_items(pages);
    let tail = end_tag("ul"@) + end_tag("nav"@);
    assert(pages.push(page).drop_last() =~= pages);
    assert(pages.push(page).last() == page);
    assert(nav_items(pages.push(page)) == nav_items(pages) + nav_item(page));
    assert(nav_html(pages) =~= lead + tail);
    assert(nav_html(pages.push(page)) =~= lead + nav_item(page) + tail);
    lemma_split_at_join(lead, tail);
}

/// A page's link shows its title escaped and points to `/page/` and its
/// slug (escaped): the item is the opening `<li><a href="...">` for that
/// address, the escaped title, then `</a></li>`.
pub proof fn lemma_nav_item_shows_title(page: Page)
    ensures
        nav_item(page) == start_tag("li"@, Seq::<char>::empty()) + start_tag(
            "a"@,
            attribute("href"@, escape(seq!['/', 'p', 'a', 'g', 'e', '/'] + page.slug@)),
        ) + escape(page.title@) + end_tag("a"@) + end_tag("li"@),
{
    reveal_strlit("/page/");
    assert(page_href(page.slug@) =~= seq!['/', 'p', 'a', 'g', 'e', '/'] + page.slug@);
    assert(nav_item(page) =~= start_tag("li"@, Seq::<char>::empty()) + start_tag(
        "a"@,
        attribute("href"@, escape(seq!['/', 'p', 'a', 'g', 'e', '/'] + page.slug@)),
    ) + escape(page.title@) + end_tag("a"@) + end_tag("li"@));
}

/// Appends the list item that links to `page`.
fn push_nav_item(m: &mut Markup, page: &Page)
    ensures
        final(m)@ == old(m)@ + nav_item(*page),
{
    let mut href = String::from_str("/page/");
    href.append(page.slug.as_str());
    assert(href@ =~= page_href(page.slug@));
    m.push_start("li");
    m.open_start("a");
    m.push_attr("href", href.as_str());
    m.close_start();
    m.push_text(page.title.as_str());
    m.push_end("a");
    m.push_end("li");
    assert(final(m)@ =~= old(m)@ + nav_item(*page));
}

/// The navigation bar for `pages` (the pages the database lists).
pub fn nav(pages: &[Page]) -> (m: Markup)
    ensures
        m@ == nav_html(pages@),
{
    let mut m = Markup::new();
    m.push_start("nav");
    m.open_start("ul");
    m.push_attr_raw("class", "flex flex-row gap-4");
    m.close_start();
    let ghost before = m@;
    let mut i: usize = 0;
    while i < pages.len()
        invariant
            i <= pages@.len(),
            m@ == before + nav_items(pages@.take(i as int)),
        decreases pages@.len() - i,
    {
        push_nav_item(&mut m, &pages[i]);
        assert(pages@.take(i + 1).drop_last() =~= pages@.take(i as int));
        i = i + 1;
    }
    assert(pages@.take(i as int) =~= pages@);
    m.push_end("ul");
    m.push_end("nav");
    assert(m@ =~= nav_html(pages@));
    m
}

} // verus!
