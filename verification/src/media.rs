//! The data model: one resolved, directly playable piece of media, and one
//! source section — a labelled, ordered run of media items that becomes one
//! tab of the gallery.

use vstd::prelude::*;

verus! {

/// How an item is embedded in the page: as a `video` element or as an
/// `iframe`. Adding a further kind forces the renderer's `match` to be
/// extended.
#[derive(Clone, Copy, PartialEq, Eq, Structural, Debug)]
pub enum MediaKind {
    Video,
    Embed,
}

/// One resolved media link together with the way it is embedded.
pub struct MediaItem {
    pub url: String,
    pub kind: MediaKind,
}

/// The mathematical model of a media item.
pub struct SpecMediaItem {
    pub url: Seq<char>,
    pub kind: MediaKind,
}

impl View for MediaItem {
    type V = SpecMediaItem;

    open spec fn view(&self) -> SpecMediaItem {
        SpecMediaItem { url: self.url@, kind: self.kind }
    }
}

impl DeepView for MediaItem {
    type V = SpecMediaItem;

    open spec fn deep_view(&self) -> SpecMediaItem {
        self@
    }
}

impl MediaItem {
    /// Builds an item from a resolved link and its embedding kind.
    pub fn new(url: String, kind: MediaKind) -> (r: MediaItem)
        ensures
            r@ == (SpecMediaItem { url: url@, kind: kind }),
    {
        MediaItem { url, kind }
    }
}

/// One platform query's results: the tab label and the ordered items.
pub struct Section {
    pub label: String,
    pub items: Vec<MediaItem>,
}

/// The mathematical model of a section.
pub struct SpecSection {
    pub label: Seq<char>,
    pub items: Seq<SpecMediaItem>,
}

impl View for Section {
    type V = SpecSection;

    open spec fn view(&self) -> SpecSection {
        SpecSection { label: self.label@, items: self.items.deep_view() }
    }
}

impl DeepView for Section {
    type V = SpecSection;

    open spec fn deep_view(&self) -> SpecSection {
        self@
    }
}

impl Section {
    /// Builds a section from a label and its ordered items.
    pub fn new(label: String, items: Vec<MediaItem>) -> (r: Section)
        ensures
            r@ == (SpecSection { label: label@, items: items.deep_view() }),
    {
        Section { label, items }
    }
}

/// Wraps a run of resolved links as media items of one kind, keeping order.
pub fn media_items_from_urls(urls: Vec<String>, kind: MediaKind) -> (r: Vec<MediaItem>)
    ensures
        r.deep_view() =~= urls@.map_values(|u: String| SpecMediaItem { url: u@, kind: kind }),
{
    let mut r: Vec<MediaItem> = Vec::new();
    let mut i: usize = 0;
    let n = urls.len();
    while i < n
        invariant
            n == urls@.len(),
            0 <= i <= n,
            r.deep_view() =~= urls@.subrange(0, i as int).map_values(
                |u: String| SpecMediaItem { url: u@, kind: kind },
            ),
        decreases n - i,
    {
        let url = urls[i].clone();
        r.push(MediaItem { url, kind });
        proof {
            assert(urls@.subrange(0, i + 1int).map_values(
                |u: String| SpecMediaItem { url: u@, kind: kind },
            ) =~= urls@.subrange(0, i as int).map_values(
                |u: String| SpecMediaItem { url: u@, kind: kind },
            ).push(SpecMediaItem { url: urls@[i as int]@, kind: kind }));
        }
        i = i + 1;
    }
    proof {
        assert(urls@.subrange(0, n as int) =~= urls@);
    }
    r
}

} // verus!
