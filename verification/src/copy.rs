//! The site's fixed wording.

use vstd::prelude::*;

verus! {

/// The site's title, shown in the page header and as the gallery images' `alt`.
pub const TITLE: &'static str = "Sample site";

} // verus!
