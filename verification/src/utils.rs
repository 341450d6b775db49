//! Terminal sizes from browser sizes, and telling mobile browsers apart.

use vstd::prelude::*;
use crate::style::Size;
use crate::text::{has_substring, str_contains};

verus! {

/// The number of characters that fit in a window of the given size in
/// pixels: ten pixels per column, twenty per row.
pub fn get_window_size(raw: (u16, u16)) -> (r: Size)
    ensures
        r == (Size { width: raw.0 / 10, height: raw.1 / 20 }),
{
    Size { width: raw.0 / 10, height: raw.1 / 20 }
}

/// The number of characters that fit in a screen of the given size in
/// pixels: ten pixels per column, nineteen per row, each size first cut to
/// 16 bits.
pub fn get_screen_size(raw: (i32, i32)) -> (r: Size)
    ensures
        r == (Size { width: (raw.0 as u16) / 10, height: (raw.1 as u16) / 19 }),
{
    let w: u16 = raw.0 as u16;
    let h: u16 = raw.1 as u16;
    Size { width: w / 10, height: h / 19 }
}

/// Text in lower case, as `str::to_lowercase` gives it.
pub uninterp spec fn lowercase(s: Seq<char>) -> Seq<char>;

/// Calls `str::to_lowercase`; its result is taken to depend on the text alone
/// and is named, not described.
#[verifier::external_body]
fn to_lowercase(s: &str) -> (r: String)
    ensures
        r@ == lowercase(s@),
{
    s.to_lowercase()
}

/// Whether a lower-cased user agent names a mobile device or a tablet.
pub open spec fn mobile_agent(lowered: Seq<char>) -> bool {
    has_substring(lowered, "mobile"@) || has_substring(lowered, "tablet"@)
}

/// Whether a lower-cased user agent contains `mobile` or `tablet`.
pub fn agent_is_mobile(lowered: &str) -> (r: bool)
    ensures
        r == mobile_agent(lowered@),
{
    str_contains(lowered, "mobile") || str_contains(lowered, "tablet")
}

/// Whether the browser with this user agent, if it reported one, runs on a
/// mobile device: its lower-cased user agent contains `mobile` or `tablet`.
pub fn is_mobile(user_agent: Option<&str>) -> (r: bool)
    ensures
        r == (match user_agent {
            Some(a) => mobile_agent(lowercase(a@)),
            None => false,
        }),
{
    match user_agent {
        Some(agent) => {
            let lowered = to_lowercase(agent);
            agent_is_mobile(lowered.as_str())
        },
        None => false,
    }
}

} // verus!
