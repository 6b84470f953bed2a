//! Server-rendered pages of a small site: HTML markup, page layouts, the
//! navigation bar and the photo gallery, built as strings whose
//! shape each function states.

pub mod copy;
pub mod html;
pub mod site;
pub mod components;
pub mod nav;
pub mod markup;
pub mod page;
pub mod builder;
pub mod photos;
