//! The site classifier: maps a URL string to one of a fixed set of site
//! categories by substring matching over the lower-cased URL.

use vstd::prelude::*;
use crate::text::{contains_seq, lower_seq, to_chars, lower_chars, contains_chars};

verus! {

/// The category of a site, as recognized from its URL alone.
#[derive(Debug, PartialEq, Eq, Structural, Clone, Copy)]
pub enum SiteType {
    YouTube,
    Substack,
    Blog,
    Telegram,
    Odysee,
    Bitchute,
    Rumble,
    Unknown,
}

/// The classification of a URL, decided by the first marker substring found
/// in its lower-cased form, in a fixed priority order.
pub open spec fn spec_detect(url: Seq<char>) -> SiteType {
    let l = lower_seq(url);
    if contains_seq(l, "youtube.com"@) || contains_seq(l, "youtu.be"@) {
        SiteType::YouTube
    } else if contains_seq(l, "substack.com"@) {
        SiteType::Substack
    } else if contains_seq(l, "t.me"@) || contains_seq(l, "telegram.me"@) {
        SiteType::Telegram
    } else if contains_seq(l, "odysee.com"@) {
        SiteType::Odysee
    } else if contains_seq(l, "bitchute.com"@) {
        SiteType::Bitchute
    } else if contains_seq(l, "rumble.com"@) {
        SiteType::Rumble
    } else if contains_seq(l, "http"@) {
        SiteType::Blog
    } else {
        SiteType::Unknown
    }
}

/// Looks at a URL and returns the [`SiteType`] it belongs to.
pub fn detect(url: &str) -> (t: SiteType)
    ensures
        t == spec_detect(url@),
{
    let chars = to_chars(url);
    let l = lower_chars(&chars);
    if contains_chars(&l, &to_chars("youtube.com")) || contains_chars(&l, &to_chars("youtu.be")) {
        SiteType::YouTube
    } else if contains_chars(&l, &to_chars("substack.com")) {
        SiteType::Substack
    } else if contains_chars(&l, &to_chars("t.me")) || contains_chars(&l, &to_chars("telegram.me")) {
        SiteType::Telegram
    } else if contains_chars(&l, &to_chars("odysee.com")) {
        SiteType::Odysee
    } else if contains_chars(&l, &to_chars("bitchute.com")) {
        SiteType::Bitchute
    } else if contains_chars(&l, &to_chars("rumble.com")) {
        SiteType::Rumble
    } else if contains_chars(&l, &to_chars("http")) {
        SiteType::Blog
    } else {
        SiteType::Unknown
    }
}

} // verus!
