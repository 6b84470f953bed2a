use sample_site::builder;
use sample_site::components::{self, Button, ClerkSettings, Page};
use sample_site::copy::TITLE;
use sample_site::html::{push_decimal, Markup};
use sample_site::markup;
use sample_site::nav::nav;
use sample_site::page::{self, PageConfig};
use sample_site::photos::{get_photo, upload_photo};
use sample_site::site::{gallery_page, not_found, script};

const HTMX: &str = "<script src=\"https://unpkg.com/htmx.org@1.9.6\" integrity=\"sha384-FhXw7b6AlE/jyjlZH5iHa/tTe9EpJ1Y55RjcgPbjeWMskSxZt1v9qkxLJWNJaGni\" crossorigin=\"anonymous\"></script>";

fn text(t: &str) -> String {
    let mut m = Markup::new();
    m.push_text(t);
    m.into_string()
}

fn decimal(n: usize) -> String {
    let mut s = String::new();
    push_decimal(&mut s, n);
    s
}

fn clerk() -> ClerkSettings {
    ClerkSettings {
        frontend_api: "clerk.example.com".to_string(),
        publishable_key: "pk_<key>".to_string(),
    }
}

fn plain_head() -> String {
    "<head><title>Sample site</title><link rel=\"stylesheet\" href=\"/assets/css/main.css\"><link rel=\"stylesheet\" href=\"/assets/css/input.css\"></head>".to_string()
}

fn button_html(val: usize, arrow: &str) -> String {
    format!(
        "<button hx-get=\"/image\" hx-vals=\"js:{{index:{}}}\" hx-target=\"#gallery\" hx-swap=\"outerHTML\">{}</button>",
        val, arrow
    )
}

fn login() -> String {
    format!(
        "<button id=\"login-button\" type=\"button\"></button><script>{}</script>",
        components::LOGIN_SCRIPT
    )
}

fn document(head: &str, nav: &str, main: &str) -> String {
    format!(
        "<!DOCTYPE html><html>{}<body>{}<a class=\"title\" href=\"/\"><h1 id=\"head\">Sample site</h1></a><div class=\"wrapper\"><header>{}</header><main>{}</main></div></body></html>",
        head,
        login(),
        nav,
        main
    )
}

#[test]
fn escapes_the_four_special_characters() {
    assert_eq!(text("<a href=\"x\">Tom & Jerry</a>"), "&lt;a href=&quot;x&quot;&gt;Tom &amp; Jerry&lt;/a&gt;");
}

#[test]
fn leaves_other_characters_alone() {
    assert_eq!(text("it's ⟨fine⟩ 100%"), "it's ⟨fine⟩ 100%");
    assert_eq!(text(""), "");
}

#[test]
fn escaped_text_has_no_markup() {
    let e = text("<script>alert(\"x\")</script>");
    assert!(!e.contains('<') && !e.contains('>') && !e.contains('"'));
}

#[test]
fn escape_of_concatenation() {
    assert_eq!(text("a<b&c"), format!("{}{}", text("a<b"), text("&c")));
}

#[test]
fn escape_round_trip() {
    let source = "&lt; is not < and \"&\"";
    let e = text(source);
    let back = e
        .replace("&lt;", "<")
        .replace("&gt;", ">")
        .replace("&quot;", "\"")
        .replace("&amp;", "&");
    assert_eq!(back, source);
}

#[test]
fn markup_pieces() {
    let mut m = Markup::new();
    m.push_doctype();
    m.open_start("a");
    m.push_attr_raw("class", "x");
    m.push_attr("href", "/a?b=1&c=\"2\"");
    m.close_start();
    m.push_raw("<b>hi</b>");
    m.push_end("a");
    assert_eq!(
        m.as_str(),
        "<!DOCTYPE html><a class=\"x\" href=\"/a?b=1&amp;c=&quot;2&quot;\"><b>hi</b></a>"
    );
    let p = Markup::pre_escaped("<i>&amp;</i>".to_string());
    assert_eq!(p.into_string(), "<i>&amp;</i>");
}

#[test]
fn decimal_writing() {
    assert_eq!(decimal(0), "0");
    assert_eq!(decimal(7), "7");
    assert_eq!(decimal(10), "10");
    assert_eq!(decimal(305), "305");
    assert_eq!(decimal(usize::MAX), usize::MAX.to_string());
}

#[test]
fn script_keeps_code_unescaped() {
    assert_eq!(script("if (a < b) {}").into_string(), "<script>if (a < b) {}</script>");
}

#[test]
fn head_plain() {
    let h = components::head(false, false, &[], &clerk());
    assert_eq!(h.into_string(), plain_head());
}

#[test]
fn head_with_everything() {
    let h = components::head(true, true, &["/a.css", "/b.css?x=1&y=2"], &clerk());
    let expected = format!(
        "<head><title>Sample site</title><link rel=\"stylesheet\" href=\"/assets/css/main.css\"><link rel=\"stylesheet\" href=\"/assets/css/input.css\"><link rel=\"stylesheet\" href=\"/a.css\"><link rel=\"stylesheet\" href=\"/b.css?x=1&amp;y=2\">{}<script data-clerk-frontend-api=\"clerk.example.com\" data-clerk-publishable-key=\"pk_&lt;key&gt;\" src=\"https://clerk.example.com/npm/@clerk/clerk-js@latest/dist/clerk.browser.js\"></script></head>",
        HTMX
    );
    assert_eq!(h.into_string(), expected);
}

#[test]
fn head_only_htmx() {
    let h = components::head(true, false, &[], &clerk()).into_string();
    assert!(h.contains(HTMX));
    assert!(!h.contains("clerk"));
}

#[test]
fn login_button_markup() {
    let l = components::login_button().into_string();
    assert_eq!(l, login());
    assert!(l.contains("clerk.openSignIn()"));
}

#[test]
fn custom_page_markup() {
    let mut body = Markup::new();
    body.push_raw("<p>x</p>");
    let p = components::custom_page("Q&A", body).into_string();
    assert_eq!(
        p,
        format!(
            "<!DOCTYPE html><html>{}<h1 id=\"head\">Q&amp;A</h1><div class=\"wrapper\"><main><p>x</p></main></div></html>",
            plain_head()
        )
    );
}

#[test]
fn components_page_markup() {
    let mut nav = Markup::new();
    nav.push_raw("<nav></nav>");
    let mut main = Markup::new();
    main.push_raw("<p>main</p>");
    let head = components::head(true, true, &["/s.css"], &clerk()).into_string();
    let p = components::page(nav, main, &["/s.css"], &clerk()).into_string();
    assert_eq!(p, document(&head, "<nav></nav>", "<p>main</p>"));
}

#[test]
fn prev_button_steps_back() {
    assert_eq!(components::button(2, Button::Prev).into_string(), button_html(1, "⟨"));
    assert_eq!(components::button(1, Button::Prev).into_string(), button_html(0, "⟨"));
    assert_eq!(components::button(0, Button::Prev).into_string(), button_html(0, "⟨"));
    assert_eq!(components::button(10, Button::Prev).into_string(), button_html(9, "⟨"));
}

#[test]
fn next_button_stops_at_last() {
    assert_eq!(components::button(0, Button::Next).into_string(), button_html(1, "⟩"));
    assert_eq!(components::button(1, Button::Next).into_string(), button_html(2, "⟩"));
    assert_eq!(components::button(2, Button::Next).into_string(), button_html(2, "⟩"));
    assert_eq!(components::button(usize::MAX, Button::Next).into_string(), button_html(2, "⟩"));
}

#[test]
fn buttons_undo_each_other() {
    // Next from image 1 leads to 2, and Prev from 2 back to 1.
    assert_eq!(components::button(1, Button::Next).into_string(), button_html(2, "⟩"));
    assert_eq!(components::button(2, Button::Prev).into_string(), button_html(1, "⟨"));
}

fn gallery_expected(state: usize) -> String {
    let mut items = String::new();
    for (i, img) in ["one", "two", "three"].iter().enumerate() {
        items.push_str(&format!(
            "<li><img class=\"{}\" src=\"https://picsum.photos/seed/${}/1500/1000\" alt=\"{}\"></li>",
            if state == i { "shown" } else { "" },
            img,
            TITLE
        ));
    }
    format!(
        "<section id=\"gallery\"><ul>{}</ul><div class=\"buttons\">{}{}</div></section>",
        items,
        components::button(state, Button::Prev).into_string(),
        components::button(state, Button::Next).into_string()
    )
}

#[test]
fn gallery_marks_current_image() {
    for state in 0..4 {
        let g = components::gallery(state).into_string();
        assert_eq!(g, gallery_expected(state));
        let shown = g.matches("class=\"shown\"").count();
        assert_eq!(shown, if state < 3 { 1 } else { 0 });
    }
    assert!(components::gallery(1).into_string().contains("<img class=\"shown\" src=\"https://picsum.photos/seed/$two/1500/1000\""));
}

#[test]
fn gallery_of_the_first_layout() {
    assert_eq!(markup::build_gallery(2).into_string(), gallery_expected(2));
    assert_eq!(markup::button(0, markup::Button::Next).into_string(), button_html(1, "⟩"));
    assert_eq!(markup::button(0, markup::Button::Prev).into_string(), button_html(0, "⟨"));
}

#[test]
fn gallery_page_defaults_to_first() {
    assert_eq!(gallery_page(None).into_string(), gallery_expected(0));
    assert_eq!(gallery_page(Some(2)).into_string(), gallery_expected(2));
}

fn pages() -> Vec<Page> {
    vec![
        Page { slug: "about".to_string(), title: "About".to_string() },
        Page { slug: "q&a".to_string(), title: "<Q&A>".to_string() },
    ]
}

const NAV: &str = "<nav><ul class=\"flex flex-row gap-4\"><li><a href=\"/page/about\">About</a></li><li><a href=\"/page/q&amp;a\">&lt;Q&amp;A&gt;</a></li></ul></nav>";

#[test]
fn nav_links_every_page() {
    assert_eq!(nav(&pages()).into_string(), NAV);
    assert_eq!(builder::nav(&pages()).into_string(), NAV);
}

#[test]
fn nav_empty() {
    assert_eq!(nav(&[]).into_string(), "<nav><ul class=\"flex flex-row gap-4\"></ul></nav>");
}

#[test]
fn nav_of_concatenation() {
    let all = pages();
    let first = nav(&all[..1]).into_string();
    let second = nav(&all[1..]).into_string();
    let prefix = "<nav><ul class=\"flex flex-row gap-4\">";
    let suffix = "</ul></nav>";
    let items = |s: &str| s[prefix.len()..s.len() - suffix.len()].to_string();
    assert_eq!(items(&nav(&all).into_string()), items(&first) + &items(&second));
}

#[test]
fn markup_page_layout() {
    let mut nav = Markup::new();
    nav.push_raw("N");
    let mut content = Markup::new();
    content.push_raw("C");
    assert_eq!(
        markup::page(nav, content).into_string(),
        format!(
            "<!DOCTYPE html><html><head><title>Sample site</title><link rel=\"stylesheet\" href=\"/assets/css/main.css\"></head><body><a class=\"title\" href=\"/\"><h1>Sample site</h1></a><div class=\"wrapper\"><header>N</header><main>C</main></div>{}</body></html>",
            HTMX
        )
    );
}

#[test]
fn builder_page_renders_markdown() {
    assert_eq!(builder::page("# Hi Mercury!").into_string(), "<div><h1>Hi Mercury!</h1></div>");
    let html = Markup::pre_escaped("<p>x</p>".to_string());
    assert_eq!(builder::page_from_html(&html).into_string(), "<div><p>x</p></div>");
}

#[test]
fn content_links_the_editor() {
    assert_eq!(
        page::content("about", "*hi*").into_string(),
        "<div><a href=\"/about/edit\">Edit</a><p><em>hi</em></p></div>"
    );
    let html = Markup::pre_escaped("<p>raw</p>".to_string());
    assert_eq!(
        page::content_from_html("a\"b", &html).into_string(),
        "<div><a href=\"/a&quot;b/edit\">Edit</a><p>raw</p></div>"
    );
}

#[test]
fn config_page_default() {
    let c = PageConfig::default();
    assert!(!c.use_htmx && !c.use_clerk);
    let p = page::page(c).into_string();
    assert_eq!(p, document(&plain_head(), "", ""));
}

#[test]
fn config_page_with_clerk() {
    let mut nav = Markup::new();
    nav.push_raw("N");
    let mut body = Markup::new();
    body.push_raw("B");
    let config = PageConfig { nav, body, use_htmx: true, use_clerk: true, clerk: clerk() };
    let head = components::head(true, true, &[], &clerk()).into_string();
    assert_eq!(page::page(config).into_string(), document(&head, "N", "B"));
}

#[test]
fn edit_page_markup() {
    let e = page::edit_page("about", "# Hello").into_string();
    let expected = format!(
        "<h1>Editing about</h1><form action=\"/about/edit\" method=\"post\"><textarea id=\"page-data\" name=\"content\"></textarea><button>Update</button></form><script>{}# Hello{}</script>",
        page::PRE,
        page::POST
    );
    assert_eq!(e, expected);
    assert!(e.contains("document.getElementById('page-data').value = '# Hello'"));
}

#[test]
fn edit_and_single_pages() {
    let head = components::head(true, true, &[], &clerk()).into_string();
    let e = page::edit(&pages(), "about", "x", clerk()).into_string();
    assert_eq!(e, document(&head, NAV, &page::edit_page("about", "x").into_string()));
    let s = page::single(&pages(), "about", "x", clerk()).into_string();
    assert_eq!(s, document(&head, NAV, "<div><a href=\"/about/edit\">Edit</a><p>x</p></div>"));
}

#[test]
fn update_redirects_to_page() {
    assert_eq!(page::update("about"), "/about");
    assert_eq!(page::update(""), "/");
}

#[test]
fn photo_pages() {
    get_photo();
    assert_eq!(upload_photo().into_string(), document(&plain_head(), "", "<p>Hello</p>"));
}

#[test]
fn not_found_page() {
    assert_eq!(
        not_found().into_string(),
        document(
            &plain_head(),
            "",
            "<div class=\"text-center\"><p class=\"huge\">Page not found</p><a href=\"/\">Your way home</a></div>"
        )
    );
}

#[test]
fn clerk_none_is_empty() {
    let c = ClerkSettings::none();
    assert_eq!(c.frontend_api, "");
    assert_eq!(c.publishable_key, "");
}
