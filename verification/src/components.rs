//! The shared building blocks of every page: the document head, the page
//! layouts, the login button and the photo gallery with its buttons.

use vstd::prelude::*;
use crate::copy::TITLE;
use crate::html::{
    attribute, decimal, doctype_html, element, end_tag, escape, start_tag, is_special, lemma_decimal_digits,
    lemma_escape_plain, push_decimal, void_element, Markup,
};
use crate::site::{script, script_html};

verus! {

/// A page of the site as the database lists it: where it lives and its title.
#[derive(Debug)]
pub struct Page {
    pub slug: String,
    pub title: String,
}

/// Where the Clerk sign-in script comes from: the frontend API host and the
/// publishable key (the `CLERK_URL` and `CLERK_KEY` settings of the server).
pub struct ClerkSettings {
    pub frontend_api: String,
    pub publishable_key: String,
}

impl ClerkSettings {
    /// Settings with both values empty, for pages that load no sign-in script.
    pub fn none() -> (c: ClerkSettings)
        ensures
            c.frontend_api@ == Seq::<char>::empty(),
            c.publishable_key@ == Seq::<char>::empty(),
    {
        ClerkSettings { frontend_api: String::new(), publishable_key: String::new() }
    }
}

/// `<link rel="stylesheet" href="...">`, the `href` already rendered.
pub open spec fn stylesheet_link(href: Seq<char>) -> Seq<char> {
    void_element("link"@, attribute("rel"@, "stylesheet"@) + attribute("href"@, href))
}

/// One stylesheet link for each of `styles`, in order, each address escaped.
pub open spec fn style_links(styles: Seq<&str>) -> Seq<char>
    decreases styles.len(),
{
    if styles.len() == 0 {
        Seq::<char>::empty()
    } else {
        style_links(styles.drop_last()) + stylesheet_link(escape(styles.last()@))
    }
}

/// The script tag that loads htmx from unpkg, with its integrity hash.
#[verifier::opaque]
pub open spec fn htmx_script() -> Seq<char> {
    element(
        "script"@,
        attribute("src"@, "https://unpkg.com/htmx.org@1.9.6"@) + attribute(
            "integrity"@,
            "sha384-FhXw7b6AlE/jyjlZH5iHa/tTe9EpJ1Y55RjcgPbjeWMskSxZt1v9qkxLJWNJaGni"@,
        ) + attribute("crossorigin"@, "anonymous"@),
        Seq::<char>::empty(),
    )
}

/// The address of Clerk's browser script on the frontend API host `api`.
pub open spec fn clerk_script_src(api: Seq<char>) -> Seq<char> {
    "https://"@ + api + "/npm/@clerk/clerk-js@latest/dist/clerk.browser.js"@
}

/// The script tag that loads Clerk, configured with `api` and `key`.
pub open spec fn clerk_script(api: Seq<char>, key: Seq<char>) -> Seq<char> {
    element(
        "script"@,
        attribute("data-clerk-frontend-api"@, escape(api)) + attribute(
            "data-clerk-publishable-key"@,
            escape(key),
        ) + attribute("src"@, escape(clerk_script_src(api))),
        Seq::<char>::empty(),
    )
}

/// The document head: the title, the two site stylesheets, one link per
/// extra stylesheet, then the htmx script when `htmx` holds and the Clerk
/// script when `auth` holds.
pub open spec fn head_html(
    htmx: bool,
    auth: bool,
    styles: Seq<&str>,
    api: Seq<char>,
    key: Seq<char>,
) -> Seq<char> {
    element(
        "head"@,
        Seq::<char>::empty(),
        element("title"@, Seq::<char>::empty(), "Sample site"@) + stylesheet_link(
            "/assets/css/main.css"@,
        ) + stylesheet_link("/assets/css/input.css"@) + style_links(styles) + (if htmx {
            htmx_script()
        } else {
            Seq::<char>::empty()
        }) + (if auth {
            clerk_script(api, key)
        } else {
            Seq::<char>::empty()
        }),
    )
}

/// Appends a stylesheet link whose address is a literal of the template.
pub(crate) fn push_stylesheet_raw(m: &mut Markup, href: &str)
    ensures
        final(m)@ == old(m)@ + stylesheet_link(href@),
{
    m.open_start("link");
    m.push_attr_raw("rel", "stylesheet");
    m.push_attr_raw("href", href);
    m.close_start();
    assert(final(m)@ =~= old(m)@ + stylesheet_link(href@));
}

/// Appends a stylesheet link whose address is spliced in (escaped).
fn push_stylesheet(m: &mut Markup, href: &str)
    ensures
        final(m)@ == old(m)@ + stylesheet_link(escape(href@)),
{
    m.open_start("link");
    m.push_attr_raw("rel", "stylesheet");
    m.push_attr("href", href);
    m.close_start();
    assert(final(m)@ =~= old(m)@ + stylesheet_link(escape(href@)));
}

/// Appends the htmx script tag.
pub(crate) fn push_htmx_script(m: &mut Markup)
    ensures
        final(m)@ == old(m)@ + htmx_script(),
{
    m.open_start("script");
    m.push_attr_raw("src", "https://unpkg.com/htmx.org@1.9.6");
    m.push_attr_raw(
        "integrity",
        "sha384-FhXw7b6AlE/jyjlZH5iHa/tTe9EpJ1Y55RjcgPbjeWMskSxZt1v9qkxLJWNJaGni",
    );
    m.push_attr_raw("crossorigin", "anonymous");
    m.close_start();
    m.push_end("script");
    reveal(htmx_script);
    assert(final(m)@ =~= old(m)@ + htmx_script());
}

/// Appends the Clerk script tag.
fn push_clerk_script(m: &mut Markup, clerk: &ClerkSettings)
    ensures
        final(m)@ == old(m)@ + clerk_script(clerk.frontend_api@, clerk.publishable_key@),
{
    let api = clerk.frontend_api.as_str();
    let mut src = String::from_str("https://");
    src.append(api);
    src.append("/npm/@clerk/clerk-js@latest/dist/clerk.browser.js");
    m.open_start("script");
    m.push_attr("data-clerk-frontend-api", api);
    m.push_attr("data-clerk-publishable-key", clerk.publishable_key.as_str());
    m.push_attr("src", src.as_str());
    m.close_start();
    m.push_end("script");
    assert(src@ =~= clerk_script_src(api@));
    assert(final(m)@ =~= old(m)@ + clerk_script(clerk.frontend_api@, clerk.publishable_key@));
}

/// The document head. `styles` are extra stylesheets; with `auth` the Clerk
/// script is loaded with the settings in `clerk` (the server reads them from
/// its environment).
pub fn head(htmx: bool, auth: bool, styles: &[&str], clerk: &ClerkSettings) -> (m: Markup)
    ensures
        m@ == head_html(htmx, auth, styles@, clerk.frontend_api@, clerk.publishable_key@),
{
    let mut m = Markup::new();
    m.push_start("head");
    m.push_start("title");
    m.push_raw("Sample site");
    m.push_end("title");
    push_stylesheet_raw(&mut m, "/assets/css/main.css");
    push_stylesheet_raw(&mut m, "/assets/css/input.css");
    let ghost fixed = m@;
    let mut i: usize = 0;
    while i < styles.len()
        invariant
            i <= styles@.len(),
            m@ == fixed + style_links(styles@.take(i as int)),
        decreases styles@.len() - i,
    {
        push_stylesheet(&mut m, styles[i]);
        assert(styles@.take(i + 1).drop_last() =~= styles@.take(i as int));
        i = i + 1;
    }
    assert(styles@.take(i as int) =~= styles@);
    let ghost linked = m@;
    if htmx {
        push_htmx_script(&mut m);
    }
    let ghost scripted = m@;
    if auth {
        push_clerk_script(&mut m, clerk);
    }
    m.push_end("head");
    assert(m@ =~= head_html(htmx, auth, styles@, clerk.frontend_api@, clerk.publishable_key@));
    m
}

/// The script behind the login button: it loads Clerk, marks the button
/// `logged` when a user is signed in, and signs in or out on a click.
pub const LOGIN_SCRIPT: &'static str = "\n            const clerk = window.Clerk\n            const button = document.getElementById('login-button')\n            clerk.load().then(() => {\n                if (clerk?.user) {\n                    button.classList.add('logged')\n                }\n                button.addEventListener('click', () => {\n                    if (clerk?.user) {\n                        clerk.signOut()\n                        button.classList.remove('logged')\n                    } else {\n                        clerk.openSignIn()\n                    }\n                })\n            })\n        ";

/// The login button followed by its script.
#[verifier::opaque]
pub open spec fn login_button_html() -> Seq<char> {
    element(
        "button"@,
        attribute("id"@, "login-button"@) + attribute("type"@, "button"@),
        Seq::<char>::empty(),
    ) + script_html(LOGIN_SCRIPT@)
}

/// The login button that signs in or out through Clerk.
pub fn login_button() -> (m: Markup)
    ensures
        m@ == login_button_html(),
{
    let mut m = Markup::new();
    m.open_start("button");
    m.push_attr_raw("id", "login-button");
    m.push_attr_raw("type", "button");
    m.close_start();
    m.push_end("button");
    let s = script(LOGIN_SCRIPT);
    m.push_markup(&s);
    reveal(login_button_html);
    assert(m@ =~= login_button_html());
    m
}

/// The site banner: the title as a heading that links home.
#[verifier::opaque]
pub open spec fn banner_html() -> Seq<char> {
    element(
        "a"@,
        attribute("class"@, "title"@) + attribute("href"@, "/"@),
        element("h1"@, attribute("id"@, "head"@), escape(TITLE@)),
    )
}

/// The content frame: the navigation in a `header`, the content in `main`.
pub open spec fn wrapper_html(nav: Seq<char>, main: Seq<char>) -> Seq<char> {
    element(
        "div"@,
        attribute("class"@, "wrapper"@),
        element("header"@, Seq::<char>::empty(), nav) + element("main"@, Seq::<char>::empty(), main),
    )
}

/// A full page: the doctype, then `html` with the given head and a body of
/// the login button, the banner and the content frame.
pub open spec fn document_html(head: Seq<char>, nav: Seq<char>, main: Seq<char>) -> Seq<char> {
    doctype_html() + element(
        "html"@,
        Seq::<char>::empty(),
        head + element(
            "body"@,
            Seq::<char>::empty(),
            login_button_html() + banner_html() + wrapper_html(nav, main),
        ),
    )
}

/// Appends the banner.
fn push_banner(m: &mut Markup)
    ensures
        final(m)@ == old(m)@ + banner_html(),
{
    m.open_start("a");
    m.push_attr_raw("class", "title");
    m.push_attr_raw("href", "/");
    m.close_start();
    m.open_start("h1");
    m.push_attr_raw("id", "head");
    m.close_start();
    m.push_text(TITLE);
    m.push_end("h1");
    m.push_end("a");
    reveal(banner_html);
    assert(final(m)@ =~= old(m)@ + banner_html());
}

/// Appends the content frame.
pub(crate) fn push_wrapper(m: &mut Markup, nav: &Markup, main: &Markup)
    ensures
        final(m)@ == old(m)@ + wrapper_html(nav@, main@),
{
    m.open_start("div");
    m.push_attr_raw("class", "wrapper");
    m.close_start();
    m.push_start("header");
    m.push_markup(nav);
    m.push_end("header");
    m.push_start("main");
    m.push_markup(main);
    m.push_end("main");
    m.push_end("div");
    assert(final(m)@ =~= old(m)@ + wrapper_html(nav@, main@));
}

/// A full page around `head`, `nav` and `main` (see `document_html`).
#[verifier::rlimit(50)]
pub fn document(head: &Markup, nav: &Markup, main: &Markup) -> (m: Markup)
    ensures
        m@ == document_html(head@, nav@, main@),
{
    let mut m = Markup::new();
    m.push_doctype();
    m.push_start("html");
    m.push_markup(head);
    m.push_start("body");
    let login = login_button();
    m.push_markup(&login);
    push_banner(&mut m);
    push_wrapper(&mut m, nav, main);
    m.push_end("body");
    m.push_end("html");
    assert(m@ =~= document_html(head@, nav@, main@));
    m
}

/// The page heading `<h1 id="head">` with `title` escaped.
pub open spec fn heading_html(title: Seq<char>) -> Seq<char> {
    element("h1"@, attribute("id"@, "head"@), escape(title))
}

/// The content frame without navigation: `body` in `main`.
pub open spec fn main_frame_html(body: Seq<char>) -> Seq<char> {
    element(
        "div"@,
        attribute("class"@, "wrapper"@),
        element("main"@, Seq::<char>::empty(), body),
    )
}

/// A page with its own heading and no navigation: the plain head, the
/// escaped `title` as the heading, and `body` in the content frame.
pub open spec fn custom_page_html(title: Seq<char>, body: Seq<char>) -> Seq<char> {
    doctype_html() + element(
        "html"@,
        Seq::<char>::empty(),
        head_html(false, false, Seq::<&str>::empty(), Seq::<char>::empty(), Seq::<char>::empty())
            + heading_html(title) + main_frame_html(body),
    )
}

/// Appends the page heading.
fn push_heading(m: &mut Markup, title: &str)
    ensures
        final(m)@ == old(m)@ + heading_html(title@),
{
    m.open_start("h1");
    m.push_attr_raw("id", "head");
    m.close_start();
    m.push_text(title);
    m.push_end("h1");
    assert(final(m)@ =~= old(m)@ + heading_html(title@));
}

/// Appends the content frame without navigation.
fn push_main_frame(m: &mut Markup, body: &Markup)
    ensures
        final(m)@ == old(m)@ + main_frame_html(body@),
{
    m.open_start("div");
    m.push_attr_raw("class", "wrapper");
    m.close_start();
    m.push_start("main");
    m.push_markup(body);
    m.push_end("main");
    m.push_end("div");
    assert(final(m)@ =~= old(m)@ + main_frame_html(body@));
}

/// A page with its own heading and `body` as content.
pub fn custom_page(title: &str, body: Markup) -> (m: Markup)
    ensures
        m@ == custom_page_html(title@, body@),
{
    let styles: Vec<&str> = Vec::new();
    let clerk = ClerkSettings::none();
    let h = head(false, false, styles.as_slice(), &clerk);
    assert(styles@ =~= Seq::<&str>::empty());
    let ghost hv = h@;
    assert(hv == head_html(false, false, Seq::<&str>::empty(), Seq::<char>::empty(), Seq::<char>::empty()));
    let mut m = Markup::new();
    m.push_doctype();
    m.push_start("html");
    m.push_markup(&h);
    push_heading(&mut m, title);
    push_main_frame(&mut m, &body);
    m.push_end("html");
    assert(m@ =~= custom_page_html(title@, body@));
    m
}

/// The full page with navigation: the head with htmx, Clerk and the extra
/// stylesheets `style`, then the login button, banner, `nav` and `main`.
pub fn page(nav: Markup, main: Markup, style: &[&str], clerk: &ClerkSettings) -> (m: Markup)
    ensures
        m@ == document_html(
            head_html(true, true, style@, clerk.frontend_api@, clerk.publishable_key@),
            nav@,
            main@,
        ),
{
    let h = head(true, true, style, clerk);
    document(&h, &nav, &main)
}

/// The two gallery buttons: back to the previous image, on to the next.
pub enum Button {
    Prev,
    Next,
}

/// The image a button asks for from image `index`: `Prev` steps back and
/// stops at 0, `Next` steps on and stops at 2, the last of the three images.
pub open spec fn button_target(index: nat, button: Button) -> nat {
    match button {
        Button::Prev => if index > 1 {
            (index - 1) as nat
        } else {
            0
        },
        Button::Next => if index < 2 {
            index + 1
        } else {
            2
        },
    }
}

/// The arrow a button shows.
pub open spec fn button_label(button: Button) -> Seq<char> {
    match button {
        Button::Prev => "⟨"@,
        Button::Next => "⟩"@,
    }
}

/// The `hx-vals` value that hands the target image to the server.
pub open spec fn button_vals(target: nat) -> Seq<char> {
    "js:{index:"@ + decimal(target) + "}"@
}

/// A gallery button: it fetches `/image` for the target image and swaps the
/// gallery for the answer.
pub open spec fn button_html(index: nat, button: Button) -> Seq<char> {
    element(
        "button"@,
        attribute("hx-get"@, "/image"@) + attribute(
            "hx-vals"@,
            escape(button_vals(button_target(index, button))),
        ) + attribute("hx-target"@, "#gallery"@) + attribute("hx-swap"@, "outerHTML"@),
        escape(button_label(button)),
    )
}

/// The gallery button `buton` shown while image `index` is on screen.
pub fn button(index: usize, buton: Button) -> (m: Markup)
    ensures
        m@ == button_html(index as nat, buton),
{
    let ghost b = buton;
    let (text, val) = match buton {
        Button::Prev => ("⟨", if index > 1 { index - 1 } else { 0 }),
        Button::Next => ("⟩", if index < 2 { index + 1 } else { 2 }),
    };
    assert(text@ == button_label(b));
    assert(val == button_target(index as nat, b));
    let mut vals = String::from_str("js:{index:");
    push_decimal(&mut vals, val);
    vals.append("}");
    assert(vals@ =~= button_vals(val as nat));
    let mut m = Markup::new();
    m.open_start("button");
    m.push_attr_raw("hx-get", "/image");
    m.push_attr("hx-vals", vals.as_str());
    m.push_attr_raw("hx-target", "#gallery");
    m.push_attr_raw("hx-swap", "outerHTML");
    m.close_start();
    m.push_text(text);
    m.push_end("button");
    assert(m@ =~= button_html(index as nat, b));
    m
}

/// The seeds of the three gallery images.
pub open spec fn gallery_images() -> Seq<Seq<char>> {
    seq!["one"@, "two"@, "three"@]
}

/// The class of image `i` while image `state` is on screen: `shown` for that
/// one image, empty for the others.
pub open spec fn image_class(state: nat, i: nat) -> Seq<char> {
    if state == i {
        "shown"@
    } else {
        ""@
    }
}

/// The address of the picsum photo with seed `seed`.
pub open spec fn image_src(seed: Seq<char>) -> Seq<char> {
    "https://picsum.photos/seed/$"@ + seed + "/1500/1000"@
}

/// The list item of image `i`, whose seed is `seed`.
pub open spec fn gallery_item(state: nat, i: nat, seed: Seq<char>) -> Seq<char> {
    element(
        "li"@,
        Seq::<char>::empty(),
        void_element(
            "img"@,
            attribute("class"@, escape(image_class(state, i))) + attribute(
                "src"@,
                escape(image_src(seed)),
            ) + attribute("alt"@, escape(TITLE@)),
        ),
    )
}

/// The list items of the first `n` gallery images.
pub open spec fn gallery_items(state: nat, n: nat) -> Seq<char>
    decreases n,
{
    if n == 0 {
        Seq::<char>::empty()
    } else {
        gallery_items(state, (n - 1) as nat) + gallery_item(
            state,
            (n - 1) as nat,
            gallery_images()[n - 1],
        )
    }
}

/// The gallery: the three images, the one at `state` marked `shown`, then
/// the previous and next buttons.
pub open spec fn gallery_html(state: nat) -> Seq<char> {
    element(
        "section"@,
        attribute("id"@, "gallery"@),
        element("ul"@, Seq::<char>::empty(), gallery_items(state, 3)) + gallery_buttons_html(state),
    )
}

/// Appends the list item of image `i`.
fn push_gallery_item(m: &mut Markup, state: usize, i: usize, seed: &str)
    ensures
        final(m)@ == old(m)@ + gallery_item(state as nat, i as nat, seed@),
{
    let class = if state == i { "shown" } else { "" };
    let mut src = String::from_str("https://picsum.photos/seed/$");
    src.append(seed);
    src.append("/1500/1000");
    assert(src@ =~= image_src(seed@));
    m.push_start("li");
    m.open_start("img");
    m.push_attr("class", class);
    m.push_attr("src", src.as_str());
    m.push_attr("alt", TITLE);
    m.close_start();
    m.push_end("li");
    assert(final(m)@ =~= old(m)@ + gallery_item(state as nat, i as nat, seed@));
}

/// The previous and next buttons of the gallery.
pub open spec fn gallery_buttons_html(state: nat) -> Seq<char> {
    element(
        "div"@,
        attribute("class"@, "buttons"@),
        button_html(state, Button::Prev) + button_html(state, Button::Next),
    )
}

/// Appends the gallery buttons.
fn push_gallery_buttons(m: &mut Markup, state: usize)
    ensures
        final(m)@ == old(m)@ + gallery_buttons_html(state as nat),
{
    m.open_start("div");
    m.push_attr_raw("class", "buttons");
    m.close_start();
    let prev = button(state, Button::Prev);
    m.push_markup(&prev);
    let next = button(state, Button::Next);
    m.push_markup(&next);
    m.push_end("div");
    assert(final(m)@ =~= old(m)@ + gallery_buttons_html(state as nat));
}

/// Appends the list of the three gallery images.
fn push_gallery_list(m: &mut Markup, state: usize)
    ensures
        final(m)@ == old(m)@ + element("ul"@, Seq::<char>::empty(), gallery_items(state as nat, 3)),
{
    let images = ["one", "two", "three"];
    m.push_start("ul");
    let ghost before = m@;
    let mut i: usize = 0;
    while i < 3
        invariant
            i <= 3,
            images@ == seq!["one", "two", "three"],
            m@ == before + gallery_items(state as nat, i as nat),
        decreases 3 - i,
    {
        let seed = images[i];
        assert(seed@ == gallery_images()[i as int]);
        push_gallery_item(m, state, i, seed);
        i = i + 1;
    }
    m.push_end("ul");
    assert(final(m)@ =~= old(m)@ + element("ul"@, Seq::<char>::empty(), gallery_items(state as nat, 3)));
}

/// The photo gallery with image `state` on screen.
pub fn gallery(state: usize) -> (m: Markup)
    ensures
        m@ == gallery_html(state as nat),
{
    let mut m = Markup::new();
    m.open_start("section");
    m.push_attr_raw("id", "gallery");
    m.close_start();
    push_gallery_list(&mut m, state);
    push_gallery_buttons(&mut m, state);
    m.push_end("section");
    assert(m@ =~= gallery_html(state as nat));
    m
}

/// Inside the gallery (images 0 to 2) both buttons lead to an image of the
/// gallery.
pub proof fn lemma_buttons_stay_in_gallery(index: nat)
    requires
        index <= 2,
    ensures
        button_target(index, Button::Prev) <= 2,
        button_target(index, Button::Next) <= 2,
{
}

/// From any image `Next` leads at most to the last image, and `Prev` never
/// leads forward.
pub proof fn lemma_button_bounds(index: nat)
    ensures
        button_target(index, Button::Next) <= 2,
        button_target(index, Button::Prev) <= index,
{
}

/// At the ends the buttons stay put: `Prev` on the first image, `Next` on the
/// last.
pub proof fn lemma_buttons_stop_at_ends()
    ensures
        button_target(0, Button::Prev) == 0,
        button_target(2, Button::Next) == 2,
{
}

/// `Next` undoes `Prev` on the second and third image, and `Prev` undoes
/// `Next` on the first and second.
pub proof fn lemma_buttons_undo_each_other(index: nat)
    ensures
        1 <= index <= 2 ==> button_target(button_target(index, Button::Prev), Button::Next)
            == index,
        index <= 1 ==> button_target(button_target(index, Button::Next), Button::Prev) == index,
{
}

/// The `hx-vals` value of a button has nothing to escape: the attribute
/// reads `js:{index:N}` with N the target in decimal.
pub proof fn lemma_button_vals_unescaped(target: nat)
    ensures
        escape(button_vals(target)) == button_vals(target),
{
    reveal_strlit("js:{index:");
    reveal_strlit("}");
    lemma_decimal_digits(target);
    let v = button_vals(target);
    let d = decimal(target);
    assert forall|i: int| 0 <= i < v.len() implies !is_special(#[trigger] v[i]) by {
        if 10 <= i < 10 + d.len() {
            assert(v[i] == d[i - 10]);
        }
    }
    lemma_escape_plain(v);
}

/// The gallery marks exactly the image on screen: image `i` has the class
/// `shown` when it is image `state`, and an empty class otherwise.
pub proof fn lemma_gallery_marks_current(state: nat, i: nat)
    ensures
        state == i ==> image_class(state, i) == "shown"@,
        state != i ==> image_class(state, i) == ""@,
        image_class(state, i) == "shown"@ <==> state == i,
{
    reveal_strlit("shown");
    reveal_strlit("");
}

/// Splitting a concatenation at the length of its first part gives the parts back.
pub proof fn lemma_split_at_join(a: Seq<char>, b: Seq<char>)
    ensures
        (a + b).take(a.len() as int) == a,
        (a + b).skip(a.len() as int) == b,
{
    assert((a + b).take(a.len() as int) =~= a);
    assert((a + b).skip(a.len() as int) =~= b);
}

/// Inserting `x` between `lead` and `tail`: cut `lead + tail` right before
/// `tail` and put `x` in the cut.
pub proof fn lemma_insert_before_tail(lead: Seq<char>, x: Seq<char>, tail: Seq<char>)
    ensures
        ({
            let w = lead + tail;
            let n = w.len() - tail.len();
            &&& 0 <= n <= w.len()
            &&& w.skip(n) == tail
            &&& lead + x + tail == w.take(n) + x + w.skip(n)
        }),
{
    lemma_split_at_join(lead, tail);
}

/// Regrouping a part inserted in the middle of a concatenation.
pub proof fn lemma_regroup_insert(o: Seq<char>, a: Seq<char>, x: Seq<char>, b: Seq<char>, c: Seq<char>)
    ensures
        o + (a + x + b) + c == (o + a) + x + (b + c),
        o + (a + b) + c == (o + a) + (b + c),
{
    assert(o + (a + x + b) + c =~= (o + a) + x + (b + c));
    assert(o + (a + b) + c =~= (o + a) + (b + c));
}

/// The Clerk script depends on `auth` alone: for every htmx flag, stylesheet
/// list and settings, the head with `auth` is the head without it with the
/// Clerk script for those settings inserted right before `</head>`, which
/// ends the head without `auth`.
pub proof fn lemma_head_clerk_script_follows_auth(
    htmx: bool,
    styles: Seq<&str>,
    api: Seq<char>,
    key: Seq<char>,
)
    ensures
        ({
            let without = head_html(htmx, false, styles, api, key);
            let n = without.len() - end_tag("head"@).len();
            &&& 0 <= n <= without.len()
            &&& without.skip(n) == end_tag("head"@)
            &&& head_html(htmx, true, styles, api, key) == without.take(n) + clerk_script(api, key)
                + without.skip(n)
        }),
{
    let empty = Seq::<char>::empty();
    let st = start_tag("head"@, empty);
    let et = end_tag("head"@);
    let base = element("title"@, empty, "Sample site"@) + stylesheet_link("/assets/css/main.css"@)
        + stylesheet_link("/assets/css/input.css"@) + style_links(styles) + (if htmx {
        htmx_script()
    } else {
        empty
    });
    let without = head_html(htmx, false, styles, api, key);
    assert(without =~= (st + base) + et);
    assert(head_html(htmx, true, styles, api, key) =~= (st + base) + clerk_script(api, key) + et);
    lemma_split_at_join(st + base, et);
}

/// Without `auth` the head does not depend on the Clerk settings.
pub proof fn lemma_head_without_auth_ignores_settings(
    htmx: bool,
    styles: Seq<&str>,
    api1: Seq<char>,
    key1: Seq<char>,
    api2: Seq<char>,
    key2: Seq<char>,
)
    ensures
        head_html(htmx, false, styles, api1, key1) == head_html(htmx, false, styles, api2, key2),
{
}

/// The htmx script depends on `htmx` alone: for every auth flag, stylesheet
/// list and settings, the head with `htmx` is the head without it with the
/// htmx script inserted right before the part that ends the head (the Clerk
/// script when `auth` holds, then `</head>`).
pub proof fn lemma_head_htmx_script_follows_htmx(
    auth: bool,
    styles: Seq<&str>,
    api: Seq<char>,
    key: Seq<char>,
)
    ensures
        ({
            let without = head_html(false, auth, styles, api, key);
            let tail = (if auth {
                clerk_script(api, key)
            } else {
                Seq::<char>::empty()
            }) + end_tag("head"@);
            let n = without.len() - tail.len();
            &&& 0 <= n <= without.len()
            &&& without.skip(n) == tail
            &&& head_html(true, auth, styles, api, key) == without.take(n) + htmx_script()
                + without.skip(n)
        }),
{
    let empty = Seq::<char>::empty();
    let st = start_tag("head"@, empty);
    let et = end_tag("head"@);
    let auth_part = if auth {
        clerk_script(api, key)
    } else {
        empty
    };
    let base = element("title"@, empty, "Sample site"@) + stylesheet_link("/assets/css/main.css"@)
        + stylesheet_link("/assets/css/input.css"@) + style_links(styles);
    let tail = auth_part + et;
    let without = head_html(false, auth, styles, api, key);
    assert(without =~= (st + base) + tail);
    assert(head_html(true, auth, styles, api, key) =~= (st + base) + htmx_script() + tail);
    lemma_split_at_join(st + base, tail);
}

/// The body of a full page after its head: the login button, the banner
/// and the content frame, then `</html>`.
pub open spec fn document_rest(nav: Seq<char>, main: Seq<char>) -> Seq<char> {
    element(
        "body"@,
        Seq::<char>::empty(),
        login_button_html() + banner_html() + wrapper_html(nav, main),
    ) + end_tag("html"@)
}

/// A full page is the doctype, `<html>`, the head, then the rest of the page.
pub(crate) proof fn lemma_document_split(head: Seq<char>, nav: Seq<char>, main: Seq<char>)
    ensures
        document_html(head, nav, main) == doctype_html() + start_tag("html"@, Seq::<char>::empty())
            + head + document_rest(nav, main),
{
    assert(document_html(head, nav, main) =~= doctype_html() + start_tag(
        "html"@,
        Seq::<char>::empty(),
    ) + head + document_rest(nav, main));
}

/// A full page starts with the doctype, `<html>` and exactly the head it is
/// given.
pub proof fn lemma_document_starts_with_head(head: Seq<char>, nav: Seq<char>, main: Seq<char>)
    ensures
        ({
            let prefix = doctype_html() + start_tag("html"@, Seq::<char>::empty());
            document_html(head, nav, main).take((prefix.len() + head.len()) as int) == prefix + head
        }),
{
    let prefix = doctype_html() + start_tag("html"@, Seq::<char>::empty());
    lemma_document_split(head, nav, main);
    lemma_split_at_join(prefix + head, document_rest(nav, main));
}

/// A full page keeps its content as it is: it is the page with empty
/// content with `main` inserted right before `</main>`.
#[verifier::rlimit(50)]
pub proof fn lemma_document_keeps_main(head: Seq<char>, nav: Seq<char>, main: Seq<char>)
    ensures
        ({
            let without = document_html(head, nav, Seq::<char>::empty());
            let tail = end_tag("main"@) + end_tag("div"@) + end_tag("body"@) + end_tag("html"@);
            let n = without.len() - tail.len();
            &&& 0 <= n <= without.len()
            &&& without.skip(n) == tail
            &&& document_html(head, nav, main) == without.take(n) + main + without.skip(n)
        }),
{
    let empty = Seq::<char>::empty();
    let lead = doctype_html() + start_tag("html"@, empty) + head + start_tag("body"@, empty)
        + login_button_html() + banner_html() + start_tag("div"@, attribute("class"@, "wrapper"@))
        + element("header"@, empty, nav) + start_tag("main"@, empty);
    let tail = end_tag("main"@) + end_tag("div"@) + end_tag("body"@) + end_tag("html"@);
    lemma_document_split(head, nav, main);
    lemma_document_split(head, nav, empty);
    assert(document_rest(nav, main) =~= start_tag("body"@, empty) + login_button_html()
        + banner_html() + start_tag("div"@, attribute("class"@, "wrapper"@)) + element(
        "header"@,
        empty,
        nav,
    ) + start_tag("main"@, empty) + main + tail);
    assert(document_rest(nav, empty) =~= start_tag("body"@, empty) + login_button_html()
        + banner_html() + start_tag("div"@, attribute("class"@, "wrapper"@)) + element(
        "header"@,
        empty,
        nav,
    ) + start_tag("main"@, empty) + tail);
    assert(document_html(head, nav, empty) =~= lead + tail);
    assert(document_html(head, nav, main) =~= lead + main + tail);
    lemma_split_at_join(lead, tail);
}

/// A full page keeps its navigation as it is: it is the page with empty
/// navigation with `nav` inserted right before `</header>`.
#[verifier::rlimit(50)]
pub proof fn lemma_document_keeps_nav(head: Seq<char>, nav: Seq<char>, main: Seq<char>)
    ensures
        ({
            let without = document_html(head, Seq::<char>::empty(), main);
            let tail = end_tag("header"@) + element("main"@, Seq::<char>::empty(), main)
                + end_tag("div"@) + end_tag("body"@) + end_tag("html"@);
            let n = without.len() - tail.len();
            &&& 0 <= n <= without.len()
            &&& without.skip(n) == tail
            &&& document_html(head, nav, main) == without.take(n) + nav + without.skip(n)
        }),
{
    let empty = Seq::<char>::empty();
    let lead = doctype_html() + start_tag("html"@, empty) + head + start_tag("body"@, empty)
        + login_button_html() + banner_html() + start_tag("div"@, attribute("class"@, "wrapper"@))
        + start_tag("header"@, empty);
    let tail = end_tag("header"@) + element("main"@, empty, main) + end_tag("div"@) + end_tag(
        "body"@,
    ) + end_tag("html"@);
    lemma_document_split(head, nav, main);
    lemma_document_split(head, empty, main);
    assert(document_rest(nav, main) =~= start_tag("body"@, empty) + login_button_html()
        + banner_html() + start_tag("div"@, attribute("class"@, "wrapper"@)) + start_tag(
        "header"@,
        empty,
    ) + nav + tail);
    assert(document_rest(empty, main) =~= start_tag("body"@, empty) + login_button_html()
        + banner_html() + start_tag("div"@, attribute("class"@, "wrapper"@)) + start_tag(
        "header"@,
        empty,
    ) + tail);
    assert(document_html(head, empty, main) =~= lead + tail);
    assert(document_html(head, nav, main) =~= lead + nav + tail);
    lemma_split_at_join(lead, tail);
}

/// A page with its own heading is its opening part and head, the heading,
/// the content frame and `</html>`.
proof fn lemma_custom_page_split(title: Seq<char>, body: Seq<char>)
    ensures
        custom_page_html(title, body) == doctype_html() + start_tag("html"@, Seq::<char>::empty())
            + head_html(
            false,
            false,
            Seq::<&str>::empty(),
            Seq::<char>::empty(),
            Seq::<char>::empty(),
        ) + heading_html(title) + main_frame_html(body) + end_tag("html"@),
{
    let empty = Seq::<char>::empty();
    let h = head_html(false, false, Seq::<&str>::empty(), empty, empty);
    assert(custom_page_html(title, body) =~= doctype_html() + start_tag("html"@, empty) + h
        + heading_html(title) + main_frame_html(body) + end_tag("html"@));
}

/// A page with its own heading shows the heading text escaped: it is the
/// page for an empty title with the escaped title inserted right before
/// `</h1>`.
pub proof fn lemma_custom_page_escapes_title(title: Seq<char>, body: Seq<char>)
    ensures
        ({
            let without = custom_page_html(Seq::<char>::empty(), body);
            let tail = end_tag("h1"@) + main_frame_html(body) + end_tag("html"@);
            let n = without.len() - tail.len();
            &&& 0 <= n <= without.len()
            &&& without.skip(n) == tail
            &&& custom_page_html(title, body) == without.take(n) + escape(title) + without.skip(n)
        }),
{
    let empty = Seq::<char>::empty();
    let opening = doctype_html() + start_tag("html"@, empty) + head_html(
        false,
        false,
        Seq::<&str>::empty(),
        empty,
        empty,
    );
    let hs = start_tag("h1"@, attribute("id"@, "head"@));
    let rest = main_frame_html(body) + end_tag("html"@);
    lemma_custom_page_split(title, body);
    lemma_custom_page_split(empty, body);
    assert(escape(empty) =~= empty);
    assert(heading_html(title) =~= hs + escape(title) + end_tag("h1"@));
    assert(heading_html(empty) =~= hs + end_tag("h1"@));
    assert(custom_page_html(title, body) =~= (opening + hs) + escape(title) + (end_tag("h1"@)
        + rest));
    assert(custom_page_html(empty, body) =~= (opening + hs) + (end_tag("h1"@) + rest));
    lemma_insert_before_tail(opening + hs, escape(title), end_tag("h1"@) + rest);
}

/// A page with its own heading keeps its content markup as it is: it is the
/// page with empty content with `body` inserted right before `</main>`.
pub proof fn lemma_custom_page_keeps_body(title: Seq<char>, body: Seq<char>)
    ensures
        ({
            let without = custom_page_html(title, Seq::<char>::empty());
            let tail = end_tag("main"@) + end_tag("div"@) + end_tag("html"@);
            let n = without.len() - tail.len();
            &&& 0 <= n <= without.len()
            &&& without.skip(n) == tail
            &&& custom_page_html(title, body) == without.take(n) + body + without.skip(n)
        }),
{
    let empty = Seq::<char>::empty();
    let opening = doctype_html() + start_tag("html"@, empty) + head_html(
        false,
        false,
        Seq::<&str>::empty(),
        empty,
        empty,
    ) + heading_html(title);
    let ms = start_tag("div"@, attribute("class"@, "wrapper"@)) + start_tag("main"@, empty);
    let tail = end_tag("main"@) + end_tag("div"@) + end_tag("html"@);
    lemma_custom_page_split(title, body);
    lemma_custom_page_split(title, empty);
    assert(main_frame_html(body) =~= ms + body + (end_tag("main"@) + end_tag("div"@)));
    assert(main_frame_html(empty) =~= ms + (end_tag("main"@) + end_tag("div"@)));
    assert(custom_page_html(title, body) =~= (opening + ms) + body + tail);
    assert(custom_page_html(title, empty) =~= (opening + ms) + tail);
    lemma_insert_before_tail(opening + ms, body, tail);
}

/// The head is its fixed start, the links of the extra stylesheets, then
/// the scripts its flags ask for and `</head>`.
proof fn lemma_head_split(htmx: bool, auth: bool, styles: Seq<&str>, api: Seq<char>, key: Seq<char>)
    ensures
        head_html(htmx, auth, styles, api, key) == start_tag("head"@, Seq::<char>::empty())
            + element("title"@, Seq::<char>::empty(), "Sample site"@) + stylesheet_link(
            "/assets/css/main.css"@,
        ) + stylesheet_link("/assets/css/input.css"@) + style_links(styles) + ((if htmx {
            htmx_script()
        } else {
            Seq::<char>::empty()
        }) + (if auth {
            clerk_script(api, key)
        } else {
            Seq::<char>::empty()
        }) + end_tag("head"@)),
{
    let empty = Seq::<char>::empty();
    let fixed = element("title"@, empty, "Sample site"@) + stylesheet_link("/assets/css/main.css"@)
        + stylesheet_link("/assets/css/input.css"@);
    let sl = style_links(styles);
    let hp = if htmx {
        htmx_script()
    } else {
        empty
    };
    let ap = if auth {
        clerk_script(api, key)
    } else {
        empty
    };
    assert(head_html(htmx, auth, styles, api, key) == start_tag("head"@, empty) + (fixed + sl + hp
        + ap) + end_tag("head"@));
    assert(start_tag("head"@, empty) + (fixed + sl + hp + ap) + end_tag("head"@) =~= start_tag(
        "head"@,
        empty,
    ) + fixed + sl + (hp + ap + end_tag("head"@)));
}

/// Each extra stylesheet gets its link, in order: the head with one more
/// stylesheet `style` is the head without it with the link to `style`
/// (escaped) inserted right after the links of the others.
pub proof fn lemma_head_links_added_style(
    htmx: bool,
    auth: bool,
    styles: Seq<&str>,
    style: &str,
    api: Seq<char>,
    key: Seq<char>,
)
    ensures
        ({
            let without = head_html(htmx, auth, styles, api, key);
            let tail = (if htmx {
                htmx_script()
            } else {
                Seq::<char>::empty()
            }) + (if auth {
                clerk_script(api, key)
            } else {
                Seq::<char>::empty()
            }) + end_tag("head"@);
            let n = without.len() - tail.len();
            &&& 0 <= n <= without.len()
            &&& without.skip(n) == tail
            &&& head_html(htmx, auth, styles.push(style), api, key) == without.take(n)
                + stylesheet_link(escape(style@)) + without.skip(n)
        }),
{
    let empty = Seq::<char>::empty();
    let lead0 = start_tag("head"@, empty) + element("title"@, empty, "Sample site"@)
        + stylesheet_link("/assets/css/main.css"@) + stylesheet_link("/assets/css/input.css"@);
    let tail = (if htmx {
        htmx_script()
    } else {
        empty
    }) + (if auth {
        clerk_script(api, key)
    } else {
        empty
    }) + end_tag("head"@);
    let link = stylesheet_link(escape(style@));
    lemma_head_split(htmx, auth, styles, api, key);
    lemma_head_split(htmx, auth, styles.push(style), api, key);
    assert(styles.push(style).drop_last() =~= styles);
    assert(styles.push(style).last() == style);
    assert(style_links(styles.push(style)) == style_links(styles) + link);
    let lead = lead0 + style_links(styles);
    assert(lead0 + (style_links(styles) + link) + tail =~= lead + link + tail);
    lemma_insert_before_tail(lead, link, tail);
}

/// The gallery lists its three images in order, seeded `one`, `two` and
/// `three`, whatever image is on screen.
pub proof fn lemma_gallery_lists_three_images(state: nat)
    ensures
        gallery_items(state, 3) == gallery_item(state, 0, "one"@) + gallery_item(state, 1, "two"@)
            + gallery_item(state, 2, "three"@),
{
    assert(gallery_images()[0] == "one"@);
    assert(gallery_images()[1] == "two"@);
    assert(gallery_images()[2] == "three"@);
    assert(gallery_items(state, 0) == Seq::<char>::empty());
    assert(gallery_items(state, 1) =~= gallery_item(state, 0, "one"@));
    assert(gallery_items(state, 2) == gallery_items(state, 1) + gallery_item(state, 1, "two"@));
    assert(gallery_items(state, 3) == gallery_items(state, 2) + gallery_item(state, 2, "three"@));
    assert(gallery_items(state, 3) =~= gallery_item(state, 0, "one"@) + gallery_item(
        state,
        1,
        "two"@,
    ) + gallery_item(state, 2, "three"@));
}

/// The banner of the simple layout: the title as a heading without an id.
#[verifier::opaque]
pub open spec fn banner_body_html() -> Seq<char> {
    element(
        "a"@,
        attribute("class"@, "title"@) + attribute("href"@, "/"@),
        element("h1"@, Seq::<char>::empty(), escape(TITLE@)),
    )
}

/// Appends the banner of the simple layout.
pub(crate) fn push_banner_body(m: &mut Markup)
    ensures
        final(m)@ == old(m)@ + banner_body_html(),
{
    m.open_start("a");
    m.push_attr_raw("class", "title");
    m.push_attr_raw("href", "/");
    m.close_start();
    m.push_start("h1");
    m.push_text(TITLE);
    m.push_end("h1");
    m.push_end("a");
    reveal(banner_body_html);
    assert(final(m)@ =~= old(m)@ + banner_body_html());
}

} // verus!
