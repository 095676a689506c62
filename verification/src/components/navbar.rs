//! The navigation bar: translation keys of the section links.
use vstd::prelude::*;

use crate::text::chars_of;

verus! {

/// The translation key for a navigation target.
pub open spec fn navigation_key_of(href: Seq<char>) -> Seq<char> {
    if href == "#home"@ {
        "navbar.home"@
    } else if href == "#about"@ {
        "navbar.about"@
    } else if href == "#experience"@ {
        "navbar.experience"@
    } else if href == "#publications"@ {
        "navbar.publications"@
    } else if href == "#activity"@ {
        "navbar.activity"@
    } else {
        "navbar.unknown"@
    }
}

/// The translation key of a navigation link's label, chosen by its target.
pub fn navigation_key(href: &str) -> (r: &'static str)
    ensures
        r@ == navigation_key_of(href@),
{
    let h = chars_of(href);
    if crate::text::chars_equal(h.as_slice(), chars_of("#home").as_slice()) {
        "navbar.home"
    } else if crate::text::chars_equal(h.as_slice(), chars_of("#about").as_slice()) {
        "navbar.about"
    } else if crate::text::chars_equal(h.as_slice(), chars_of("#experience").as_slice()) {
        "navbar.experience"
    } else if crate::text::chars_equal(h.as_slice(), chars_of("#publications").as_slice()) {
        "navbar.publications"
    } else if crate::text::chars_equal(h.as_slice(), chars_of("#activity").as_slice()) {
        "navbar.activity"
    } else {
        "navbar.unknown"
    }
}

} // verus!
