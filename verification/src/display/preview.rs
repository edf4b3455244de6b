//! The card under a message that previews a link.

use vstd::prelude::*;

verus! {

broadcast use vstd::string::group_string_axioms;

/// What the backend found at a link.
pub struct PreviewData {
    pub url: Option<String>,
    pub color: Option<String>,
    pub site_name: Option<String>,
    pub title: Option<String>,
    pub description: Option<String>,
    pub image_url: Option<String>,
    pub image_width: Option<u64>,
    pub image_height: Option<u64>,
}

/// How the preview card is laid out.
pub struct PreviewLayout {
    /// Where the card's links lead: the page's own URL, or the one in the
    /// message.
    pub link_url: String,
    /// The colour of the bar beside the card.
    pub accent: String,
    /// Whether the image sits beside the text as a thumbnail rather than
    /// below it.
    pub small_image: bool,
    /// The size given to a large image.
    pub image_size: (u64, u64),
}

pub open spec fn opt_or(o: Option<String>, d: Seq<char>) -> Seq<char> {
    match o {
        Some(s) => s@,
        None => d,
    }
}

/// Lays out the preview of the link `url` from what was found there: an
/// image narrower than 250 pixels is a thumbnail, a missing width counts
/// as 400, a missing height as 300, and the bar is white without a colour.
pub fn preview_layout(url: &String, data: &PreviewData) -> (l: PreviewLayout)
    ensures
        l.link_url@ == opt_or(data.url, url@),
        l.accent@ == opt_or(data.color, "#ffffff"@),
        l.small_image == (match data.image_width {
            Some(w) => w,
            None => 400,
        } < 250),
        l.image_size == (match data.image_width {
            Some(w) => w,
            None => 400,
        }, match data.image_height {
            Some(h) => h,
            None => 300,
        }),
{
    let link_url = match &data.url {
        Some(u) => u.clone(),
        None => url.clone(),
    };
    let accent = match &data.color {
        Some(c) => c.clone(),
        None => String::from_str("#ffffff"),
    };
    let w: u64 = match data.image_width {
        Some(w) => w,
        None => 400,
    };
    let h: u64 = match data.image_height {
        Some(h) => h,
        None => 300,
    };
    PreviewLayout { link_url, accent, small_image: w < 250, image_size: (w, h) }
}

} // verus!
