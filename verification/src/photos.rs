//! The photo pages.

use vstd::prelude::*;
use crate::html::{element, Markup};
use crate::page::{page, plain_page_html, PageConfig};

verus! {

/// Serves a photo; it does nothing yet.
pub fn get_photo() {
}

/// The content of the upload page.
pub open spec fn upload_body_html() -> Seq<char> {
    element("p"@, Seq::<char>::empty(), "Hello"@)
}

/// The upload page: the plain page layout around a greeting.
pub fn upload_photo() -> (m: Markup)
    ensures
        m@ == plain_page_html(upload_body_html()),
{
    let mut body = Markup::new();
    body.push_start("p");
    body.push_raw("Hello");
    body.push_end("p");
    let config = PageConfig { body, ..Default::default() };
    page(config)
}

} // verus!
