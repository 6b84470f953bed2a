//! Site pages stored in the database: their rendered content, the editor,
//! and the full pages around them.

use vstd::prelude::*;
use crate::components::{
    clerk_script, document_html, document_rest, head, head_html, htmx_script,
    lemma_document_split, lemma_document_starts_with_head, lemma_head_clerk_script_follows_auth,
    lemma_head_htmx_script_follows_htmx, lemma_insert_before_tail, lemma_split_at_join, ClerkSettings,
    Page,
};
use crate::html::{
    attribute, doctype_html, element, end_tag, escape, markdown_html, markdown_to_html, start_tag,
    Markup,
};
use crate::nav::{nav, nav_html};
use crate::site::{script, script_html};

verus! {

/// What a full page is made of: the navigation, the content, whether the
/// head loads htmx and Clerk, and the Clerk settings it loads them with.
pub struct PageConfig {
    pub nav: Markup,
    pub body: Markup,
    pub use_htmx: bool,
    pub use_clerk: bool,
    pub clerk: ClerkSettings,
}

impl Default for PageConfig {
    /// Empty navigation and content, neither htmx nor Clerk.
    fn default() -> (c: PageConfig)
        ensures
            c.nav@ == Seq::<char>::empty(),
            c.body@ == Seq::<char>::empty(),
            !c.use_htmx,
            !c.use_clerk,
            c.clerk.frontend_api@ == Seq::<char>::empty(),
            c.clerk.publishable_key@ == Seq::<char>::empty(),
    {
        PageConfig {
            nav: Markup::new(),
            body: Markup::new(),
            use_htmx: false,
            use_clerk: false,
            clerk: ClerkSettings::none(),
        }
    }
}

/// The form data of a page edit: the new markdown content.
pub struct PageUpdateForm {
    pub content: String,
}

/// Markdown rendered to HTML, kept unescaped.
fn markdown(md: &str) -> (m: Markup)
    ensures
        m@ == markdown_html(md@),
{
    Markup::pre_escaped(markdown_to_html(md))
}

/// The address of the editor of the page with `slug`: `/slug/edit`.
pub open spec fn edit_href(slug: Seq<char>) -> Seq<char> {
    "/"@ + slug + "/edit"@
}

/// A page's content: a `div` with a link to its editor, then its HTML.
pub open spec fn content_html(slug: Seq<char>, html: Seq<char>) -> Seq<char> {
    element(
        "div"@,
        Seq::<char>::empty(),
        element("a"@, attribute("href"@, escape(edit_href(slug))), "Edit"@) + html,
    )
}

/// The content of the page with `slug` around its rendered HTML `html`.
pub fn content_from_html(slug: &str, html: &Markup) -> (m: Markup)
    ensures
        m@ == content_html(slug@, html@),
{
    let mut href = String::from_str("/");
    href.append(slug);
    href.append("/edit");
    assert(href@ =~= edit_href(slug@));
    let mut m = Markup::new();
    m.push_start("div");
    m.open_start("a");
    m.push_attr("href", href.as_str());
    m.close_start();
    m.push_raw("Edit");
    m.push_end("a");
    m.push_markup(html);
    m.push_end("div");
    assert(m@ =~= content_html(slug@, html@));
    m
}

/// The content of the page with `slug` whose stored markdown is `md`.
pub fn content(slug: &str, md: &str) -> (m: Markup)
    ensures
        m@ == content_html(slug@, markdown_html(md@)),
{
    let html = markdown(md);
    content_from_html(slug, &html)
}

/// The full page that `config` describes: its head (htmx and Clerk as the
/// config says, no extra stylesheets), the login button, the banner, and
/// the config's navigation and content.
pub open spec fn config_page_html(config: PageConfig) -> Seq<char> {
    document_html(
        head_html(
            config.use_htmx,
            config.use_clerk,
            Seq::<&str>::empty(),
            config.clerk.frontend_api@,
            config.clerk.publishable_key@,
        ),
        config.nav@,
        config.body@,
    )
}

/// The page that the default config gives around `body`: no extra scripts,
/// empty navigation.
pub open spec fn plain_page_html(body: Seq<char>) -> Seq<char> {
    document_html(
        head_html(false, false, Seq::<&str>::empty(), Seq::<char>::empty(), Seq::<char>::empty()),
        Seq::<char>::empty(),
        body,
    )
}

/// The full page that `config` describes.
pub fn page(config: PageConfig) -> (m: Markup)
    ensures
        m@ == config_page_html(config),
{
    let styles: Vec<&str> = Vec::new();
    let h = head(config.use_htmx, config.use_clerk, styles.as_slice(), &config.clerk);
    assert(styles@ =~= Seq::<&str>::empty());
    crate::components::document(&h, &config.nav, &config.body)
}

/// The script that fills the editor with `content` once the page is loaded;
/// `content` stands inside a quoted JavaScript string as it is.
pub open spec fn editor_script(content: Seq<char>) -> Seq<char> {
    PRE@ + content + POST@
}

/// The editor of the page with `slug`: a heading, a form that posts to
/// `/slug/edit` with the text area and the update button, then the script
/// that puts `content` into the text area.
pub open spec fn edit_page_html(slug: Seq<char>, content: Seq<char>) -> Seq<char> {
    element("h1"@, Seq::<char>::empty(), escape("Editing "@ + slug)) + element(
        "form"@,
        attribute("action"@, escape(edit_href(slug))) + attribute("method"@, "post"@),
        element(
            "textarea"@,
            attribute("id"@, "page-data"@) + attribute("name"@, "content"@),
            Seq::<char>::empty(),
        ) + element("button"@, Seq::<char>::empty(), "Update"@),
    ) + script_html(editor_script(content))
}

/// The editor of the page with `slug` whose stored markdown is `content`.
pub fn edit_page(slug: &str, content: &str) -> (m: Markup)
    ensures
        m@ == edit_page_html(slug@, content@),
{
    let mut heading = String::from_str("Editing ");
    heading.append(slug);
    let mut action = String::from_str("/");
    action.append(slug);
    action.append("/edit");
    assert(action@ =~= edit_href(slug@));
    let mut code = String::from_str(PRE);
    code.append(content);
    code.append(POST);
    let mut m = Markup::new();
    m.push_start("h1");
    m.push_text(heading.as_str());
    m.push_end("h1");
    let ghost after_heading = m@;
    m.open_start("form");
    m.push_attr("action", action.as_str());
    m.push_attr_raw("method", "post");
    m.close_start();
    m.open_start("textarea");
    m.push_attr_raw("id", "page-data");
    m.push_attr_raw("name", "content");
    m.close_start();
    m.push_end("textarea");
    m.push_start("button");
    m.push_raw("Update");
    m.push_end("button");
    m.push_end("form");
    let s = script(code.as_str());
    m.push_markup(&s);
    assert(code@ =~= editor_script(content@));
    assert(m@ =~= edit_page_html(slug@, content@));
    m
}

/// The editor page of the page with `slug`: navigation over `pages`, the
/// editor for `content`, with htmx and Clerk loaded from `clerk`.
pub fn edit(pages: &[Page], slug: &str, content: &str, clerk: ClerkSettings) -> (m: Markup)
    ensures
        m@ == document_html(
            head_html(true, true, Seq::<&str>::empty(), clerk.frontend_api@, clerk.publishable_key@),
            nav_html(pages@),
            edit_page_html(slug@, content@),
        ),
{
    let config = PageConfig {
        nav: nav(pages),
        use_htmx: true,
        use_clerk: true,
        body: edit_page(slug, content),
        clerk,
    };
    page(config)
}

/// Where the browser goes once the page at `path` is updated: `/path`.
pub open spec fn update_target(path: Seq<char>) -> Seq<char> {
    "/"@ + path
}

/// The redirect target after the page at `path` has been stored.
pub fn update(path: &str) -> (target: String)
    ensures
        target@ == update_target(path@),
{
    let mut target = String::from_str("/");
    target.append(path);
    target
}

/// The page with `slug` shown in full: navigation over `pages`, its content
/// rendered from the markdown `content`, with htmx and Clerk from `clerk`.
pub fn single(pages: &[Page], slug: &str, content: &str, clerk: ClerkSettings) -> (m: Markup)
    ensures
        m@ == document_html(
            head_html(true, true, Seq::<&str>::empty(), clerk.frontend_api@, clerk.publishable_key@),
            nav_html(pages@),
            content_html(slug@, markdown_html(content@)),
        ),
{
    let config = PageConfig {
        nav: nav(pages),
        use_htmx: true,
        use_clerk: true,
        body: crate::page::content(slug, content),
        clerk,
    };
    page(config)
}

/// A full page starts with the doctype, `<html>` and the head that
/// `components::head` builds from the config's own flags: htmx as
/// `use_htmx` says, Clerk as `use_clerk` says, with the config's settings.
pub proof fn lemma_page_head_follows_config(config: PageConfig)
    ensures
        ({
            let prefix = doctype_html() + start_tag("html"@, Seq::<char>::empty());
            let h = head_html(
                config.use_htmx,
                config.use_clerk,
                Seq::<&str>::empty(),
                config.clerk.frontend_api@,
                config.clerk.publishable_key@,
            );
            config_page_html(config).take((prefix.len() + h.len()) as int) == prefix + h
        }),
{
    let h = head_html(
        config.use_htmx,
        config.use_clerk,
        Seq::<&str>::empty(),
        config.clerk.frontend_api@,
        config.clerk.publishable_key@,
    );
    lemma_document_starts_with_head(h, config.nav@, config.body@);
}

/// Turning `use_clerk` on, and nothing else, adds the Clerk script for the
/// config's settings to the page and changes nothing else: the page with it
/// is the page without it with that script inserted at one place.
pub proof fn lemma_page_clerk_follows_use_clerk(without: PageConfig, with: PageConfig)
    requires
        !without.use_clerk,
        with.use_clerk,
        with.use_htmx == without.use_htmx,
        with.nav@ == without.nav@,
        with.body@ == without.body@,
        with.clerk.frontend_api@ == without.clerk.frontend_api@,
        with.clerk.publishable_key@ == without.clerk.publishable_key@,
    ensures
        exists|n: int|
            0 <= n <= config_page_html(without).len() && config_page_html(with) == #[trigger] config_page_html(
                without,
            ).take(n) + clerk_script(with.clerk.frontend_api@, with.clerk.publishable_key@)
                + config_page_html(without).skip(n),
{
    let api = with.clerk.frontend_api@;
    let key = with.clerk.publishable_key@;
    let empty = Seq::<&str>::empty();
    lemma_head_clerk_script_follows_auth(with.use_htmx, empty, api, key);
    let h1 = head_html(with.use_htmx, false, empty, api, key);
    let h2 = head_html(with.use_htmx, true, empty, api, key);
    lemma_document_split(h1, with.nav@, with.body@);
    lemma_document_split(h2, with.nav@, with.body@);
    let k = h1.len() - end_tag("head"@).len();
    let pre = doctype_html() + start_tag("html"@, Seq::<char>::empty());
    let rest = document_rest(with.nav@, with.body@);
    let front = pre + h1.take(k);
    let back = h1.skip(k) + rest;
    assert(h1 =~= h1.take(k) + h1.skip(k));
    assert(config_page_html(without) == pre + h1 + rest);
    assert(config_page_html(without) =~= front + back);
    assert(config_page_html(with) == pre + h2 + rest);
    assert(config_page_html(with) =~= front + clerk_script(api, key) + back);
    lemma_split_at_join(front, back);
    let n = front.len() as int;
    assert(config_page_html(with) == config_page_html(without).take(n) + clerk_script(api, key)
        + config_page_html(without).skip(n));
}

/// Turning `use_htmx` on, and nothing else, adds the htmx script to the page
/// and changes nothing else: the page with it is the page without it with
/// that script inserted at one place.
pub proof fn lemma_page_htmx_follows_use_htmx(without: PageConfig, with: PageConfig)
    requires
        !without.use_htmx,
        with.use_htmx,
        with.use_clerk == without.use_clerk,
        with.nav@ == without.nav@,
        with.body@ == without.body@,
        with.clerk.frontend_api@ == without.clerk.frontend_api@,
        with.clerk.publishable_key@ == without.clerk.publishable_key@,
    ensures
        exists|n: int|
            0 <= n <= config_page_html(without).len() && config_page_html(with) == #[trigger] config_page_html(
                without,
            ).take(n) + htmx_script() + config_page_html(without).skip(n),
{
    let api = with.clerk.frontend_api@;
    let key = with.clerk.publishable_key@;
    let empty = Seq::<&str>::empty();
    lemma_head_htmx_script_follows_htmx(with.use_clerk, empty, api, key);
    let h1 = head_html(false, with.use_clerk, empty, api, key);
    let h2 = head_html(true, with.use_clerk, empty, api, key);
    lemma_document_split(h1, with.nav@, with.body@);
    lemma_document_split(h2, with.nav@, with.body@);
    let tail = (if with.use_clerk {
        clerk_script(api, key)
    } else {
        Seq::<char>::empty()
    }) + end_tag("head"@);
    let k = h1.len() - tail.len();
    let pre = doctype_html() + start_tag("html"@, Seq::<char>::empty());
    let rest = document_rest(with.nav@, with.body@);
    let front = pre + h1.take(k);
    let back = h1.skip(k) + rest;
    assert(h1 =~= h1.take(k) + h1.skip(k));
    assert(config_page_html(without) == pre + h1 + rest);
    assert(config_page_html(without) =~= front + back);
    assert(config_page_html(with) == pre + h2 + rest);
    assert(config_page_html(with) =~= front + htmx_script() + back);
    lemma_split_at_join(front, back);
    let n = front.len() as int;
    assert(config_page_html(with) == config_page_html(without).take(n) + htmx_script()
        + config_page_html(without).skip(n));
}

/// A page's content keeps its rendered HTML as it is and links to its
/// editor: it is the content for empty HTML with `html` inserted right
/// before `</div>`, and that link goes to `/slug/edit`.
pub proof fn lemma_content_keeps_html(slug: Seq<char>, html: Seq<char>)
    ensures
        ({
            let without = content_html(slug, Seq::<char>::empty());
            let tail = end_tag("div"@);
            let n = without.len() - tail.len();
            &&& 0 <= n <= without.len()
            &&& without.skip(n) == tail
            &&& content_html(slug, html) == without.take(n) + html + without.skip(n)
        }),
        edit_href(slug) == seq!['/'] + slug + seq!['/', 'e', 'd', 'i', 't'],
{
    reveal_strlit("/");
    reveal_strlit("/edit");
    let empty = Seq::<char>::empty();
    let lead = start_tag("div"@, empty) + element("a"@, attribute("href"@, escape(edit_href(slug))), "Edit"@);
    assert(content_html(slug, html) =~= lead + html + end_tag("div"@));
    assert(content_html(slug, empty) =~= lead + end_tag("div"@));
    lemma_insert_before_tail(lead, html, end_tag("div"@));
    assert(edit_href(slug) =~= seq!['/'] + slug + seq!['/', 'e', 'd', 'i', 't']);
}

/// The editor puts the stored content into its script exactly as it is: the
/// editor for `content` is the editor for empty content with `content`
/// inserted right before the end of the script (the closing quote of the
/// value and `</script>`).
pub proof fn lemma_edit_page_keeps_content(slug: Seq<char>, content: Seq<char>)
    ensures
        ({
            let without = edit_page_html(slug, Seq::<char>::empty());
            let tail = POST@ + end_tag("script"@);
            let n = without.len() - tail.len();
            &&& 0 <= n <= without.len()
            &&& without.skip(n) == tail
            &&& edit_page_html(slug, content) == without.take(n) + content + without.skip(n)
        }),
{
    let empty = Seq::<char>::empty();
    let lead = element("h1"@, empty, escape("Editing "@ + slug)) + element(
        "form"@,
        attribute("action"@, escape(edit_href(slug))) + attribute("method"@, "post"@),
        element(
            "textarea"@,
            attribute("id"@, "page-data"@) + attribute("name"@, "content"@),
            empty,
        ) + element("button"@, empty, "Update"@),
    ) + start_tag("script"@, empty) + PRE@;
    let tail = POST@ + end_tag("script"@);
    assert(edit_page_html(slug, empty) =~= lead + tail);
    assert(edit_page_html(slug, content) =~= lead + content + tail);
    lemma_split_at_join(lead, tail);
}

/// The start of the editor script, up to the opening quote of the value.
pub const PRE: &'static str = "\n             document.addEventListener('DOMContentLoaded', () => {\n                 document.getElementById('page-data').value = '";

/// The end of the editor script, from the closing quote of the value.
pub const POST: &'static str = "'\n            })\n        ";

} // verus!
