//! Feed discovery for web sites: given a site URL and its category, derive
//! the address of the site's RSS/Atom feed, either by pure construction or
//! by a layered live-probing search driven through a resolution state
//! machine.

pub mod discover;
pub mod error;
pub mod html;
pub mod rss_gen;
pub mod site_type;
pub mod text;
