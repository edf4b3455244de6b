//! The GIF picker: which rendition of a GIF is previewed and which is sent,
//! the paging of search results with stale replies ignored, and the split
//! of the results into two columns.

use vstd::prelude::*;

verus! {

broadcast use vstd::string::group_string_axioms;

/// One rendition of a GIF.
pub struct GifFile {
    pub url: String,
    pub width: u64,
    pub height: u64,
    pub size: u64,
}

/// The formats a size of a GIF comes in.
pub struct GifFormats {
    pub webp: Option<GifFile>,
    pub gif: Option<GifFile>,
}

/// The sizes a GIF comes in: small, medium and high definition.
pub struct GifSizes {
    pub sm: Option<GifFormats>,
    pub md: Option<GifFormats>,
    pub hd: Option<GifFormats>,
}

/// A GIF of the search results.
pub struct GifItem {
    pub id: u64,
    pub title: String,
    pub file: GifSizes,
}

pub open spec fn webp_of(f: Option<GifFormats>) -> Option<GifFile> {
    match f {
        Some(x) => x.webp,
        None => None,
    }
}

pub open spec fn gif_of(f: Option<GifFormats>) -> Option<GifFile> {
    match f {
        Some(x) => x.gif,
        None => None,
    }
}

/// The first rendition present.
pub open spec fn first_of(a: Option<GifFile>, b: Option<GifFile>) -> Option<GifFile> {
    if a is Some {
        a
    } else {
        b
    }
}

/// The rendition the picker previews: the smallest size present, as WebP
/// where there is one, else as GIF.
pub open spec fn preview_choice(s: GifSizes) -> Option<GifFile> {
    first_of(
        first_of(webp_of(s.sm), gif_of(s.sm)),
        first_of(first_of(webp_of(s.md), gif_of(s.md)), first_of(webp_of(s.hd), gif_of(s.hd))),
    )
}

/// The rendition that is sent: a GIF in medium, high or small size, in
/// that order, else a WebP in the same order.
pub open spec fn send_choice(s: GifSizes) -> Option<GifFile> {
    first_of(
        first_of(gif_of(s.md), first_of(gif_of(s.hd), gif_of(s.sm))),
        first_of(webp_of(s.md), first_of(webp_of(s.hd), webp_of(s.sm))),
    )
}

pub open spec fn file_view(f: Option<GifFile>) -> Option<(Seq<char>, u64, u64, u64)> {
    match f {
        Some(x) => Some((x.url@, x.width, x.height, x.size)),
        None => None,
    }
}

fn copy_file(f: &GifFile) -> (r: GifFile)
    ensures
        file_view(Some(r)) == file_view(Some(*f)),
{
    GifFile { url: f.url.clone(), width: f.width, height: f.height, size: f.size }
}

fn pick_webp(f: &Option<GifFormats>) -> (r: Option<GifFile>)
    ensures
        file_view(r) == file_view(webp_of(*f)),
{
    match f {
        Some(x) => match &x.webp {
            Some(w) => Some(copy_file(w)),
            None => None,
        },
        None => None,
    }
}

fn pick_gif_format(f: &Option<GifFormats>) -> (r: Option<GifFile>)
    ensures
        file_view(r) == file_view(gif_of(*f)),
{
    match f {
        Some(x) => match &x.gif {
            Some(g) => Some(copy_file(g)),
            None => None,
        },
        None => None,
    }
}

fn or_else(a: Option<GifFile>, b: Option<GifFile>) -> (r: Option<GifFile>)
    ensures
        r == first_of(a, b),
{
    if a.is_some() {
        a
    } else {
        b
    }
}

/// Chooses the rendition to preview.
pub fn preview_file(item: &GifItem) -> (r: Option<GifFile>)
    ensures
        file_view(r) == file_view(preview_choice(item.file)),
{
    let s = &item.file;
    let small = or_else(pick_webp(&s.sm), pick_gif_format(&s.sm));
    let medium = or_else(pick_webp(&s.md), pick_gif_format(&s.md));
    let high = or_else(pick_webp(&s.hd), pick_gif_format(&s.hd));
    or_else(small, or_else(medium, high))
}

/// Chooses the rendition to send.
pub fn send_file(item: &GifItem) -> (r: Option<GifFile>)
    ensures
        file_view(r) == file_view(send_choice(item.file)),
{
    let s = &item.file;
    let gifs = or_else(pick_gif_format(&s.md), or_else(pick_gif_format(&s.hd), pick_gif_format(&s.sm)));
    let webps = or_else(pick_webp(&s.md), or_else(pick_webp(&s.hd), pick_webp(&s.sm)));
    or_else(gifs, webps)
}

/// A search the picker asks for: the term, the page, and the number that
/// tells its reply from those of earlier searches.
pub struct GifRequest {
    pub term: String,
    pub page: u32,
    pub generation: u32,
    /// Whether the reply's GIFs go after those shown (a further page) or
    /// replace them (a new search).
    pub append: bool,
}

/// What the picker shows and waits for.
pub struct GifPager {
    pub search: String,
    pub page: u32,
    pub items: Vec<GifItem>,
    pub has_next: bool,
    pub loading: bool,
    pub generation: u32,
}

/// The reply to a search: a page of GIFs and whether more follow, or a
/// failure.
pub enum GifReply {
    Page { items: Vec<GifItem>, has_next: bool },
    Failed,
}

/// A request was made: a new request number, which the request carries,
/// and loading; the shown GIFs stay for a further page and are cleared for a
/// new search.
pub open spec fn issued(before: GifPager, after: GifPager, req: GifRequest) -> bool {
    &&& after.generation == before.generation + 1
    &&& req.generation == after.generation
    &&& after.loading
    &&& after.items@ == if req.append { before.items@ } else { Seq::empty() }
}

/// The reply to request `generation` was taken: ignored unless it answers
/// the latest request; otherwise loading ends, and a page is added after the
/// shown GIFs or replaces them, as its request asked, and tells whether more
/// follow, while a failure means no more follow.
pub open spec fn received(before: GifPager, after: GifPager, generation: u32, append: bool, reply: GifReply) -> bool {
    if generation != before.generation {
        after == before
    } else {
        &&& !after.loading
        &&& after.search == before.search
        &&& after.page == before.page
        &&& after.generation == before.generation
        &&& match reply {
            GifReply::Page { items, has_next } => {
                &&& after.has_next == has_next
                &&& after.items@ == if append { before.items@ + items@ } else { items@ }
            },
            GifReply::Failed => !after.has_next && after.items@ == before.items@,
        }
    }
}

impl GifPager {
    /// A picker that has not searched yet.
    pub fn new() -> (p: GifPager)
        ensures
            p.search@ == Seq::<char>::empty(),
            p.page == 0,
            p.items@.len() == 0,
            !p.has_next,
            !p.loading,
            p.generation == 0,
    {
        GifPager { search: String::new(), page: 0, items: Vec::new(), has_next: false, loading: false, generation: 0 }
    }

    /// Starts a search: a new request number, loading, and for a new search
    /// the shown GIFs cleared.
    fn start(&mut self, term: String, page: u32, append: bool) -> (r: GifRequest)
        requires
            old(self).generation < u32::MAX,
        ensures
            final(self).generation == old(self).generation + 1,
            final(self).loading,
            final(self).items@ == if append { old(self).items@ } else { Seq::empty() },
            final(self).search == old(self).search,
            final(self).page == old(self).page,
            final(self).has_next == old(self).has_next,
            r.term@ == term@,
            r.page == page,
            r.generation == final(self).generation,
            r.append == append,
    {
        self.generation = self.generation + 1;
        self.loading = true;
        if !append {
            self.items = Vec::new();
        }
        GifRequest { term, page, generation: self.generation, append }
    }

    /// Opening the picker clears the search and asks for the first page of
    /// trending GIFs.
    pub fn open(&mut self) -> (r: GifRequest)
        requires
            old(self).generation < u32::MAX,
        ensures
            final(self).search@ == Seq::<char>::empty(),
            final(self).page == 0,
            final(self).items@.len() == 0,
            final(self).loading,
            final(self).has_next == old(self).has_next,
            final(self).generation == old(self).generation + 1,
            r.term@ == Seq::<char>::empty() && r.page == 0 && !r.append && r.generation == final(self).generation,
            issued(*old(self), *final(self), r),
    {
        self.search = String::new();
        self.page = 0;
        self.start(String::new(), 0, false)
    }

    /// Typing in the search field changes the search term.
    pub fn set_search(&mut self, text: String)
        ensures
            final(self).search@ == text@,
            final(self).page == old(self).page,
            final(self).items@ == old(self).items@,
            final(self).has_next == old(self).has_next,
            final(self).loading == old(self).loading,
            final(self).generation == old(self).generation,
    {
        self.search = text;
    }

    /// A key pressed in the search field searches again from the first
    /// page; Escape also closes the picker, which the returned flag says.
    pub fn key_down(&mut self, escape: bool) -> (r: (bool, GifRequest))
        requires
            old(self).generation < u32::MAX,
        ensures
            r.0 == escape,
            final(self).page == 0,
            final(self).items@.len() == 0,
            final(self).loading,
            final(self).search == old(self).search,
            final(self).has_next == old(self).has_next,
            final(self).generation == old(self).generation + 1,
            r.1.term@ == old(self).search@ && r.1.page == 0 && !r.1.append && r.1.generation
                == final(self).generation,
            issued(*old(self), *final(self), r.1),
    {
        self.page = 0;
        let term = self.search.clone();
        let req = self.start(term, 0, false);
        (escape, req)
    }

    /// Scrolling to the end asks for the next page, unless a search is
    /// under way or no page follows.
    pub fn reached_end(&mut self) -> (r: Option<GifRequest>)
        requires
            old(self).generation < u32::MAX,
            old(self).page < u32::MAX,
        ensures
            match r {
                Some(req) => {
                    &&& old(self).has_next && !old(self).loading
                    &&& final(self).page == old(self).page + 1
                    &&& final(self).items@ == old(self).items@
                    &&& final(self).loading
                    &&& final(self).generation == old(self).generation + 1
                    &&& final(self).search == old(self).search
                    &&& req.term@ == old(self).search@ && req.page == final(self).page && req.append
                    &&& req.generation == final(self).generation
                    &&& issued(*old(self), *final(self), req)
                },
                None => !(old(self).has_next && !old(self).loading) && *final(self) == *old(self),
            },
    {
        if self.has_next && !self.loading {
            self.page = self.page + 1;
            let term = self.search.clone();
            let page = self.page;
            Some(self.start(term, page, true))
        } else {
            None
        }
    }

    /// Takes the reply to request `generation`. Replies to any but the
    /// latest request are ignored. A page is added after the shown GIFs or
    /// replaces them, as its request asked, and tells whether more follow;
    /// a failure means no more follow. Either way loading ends.
    pub fn receive(&mut self, generation: u32, append: bool, reply: GifReply)
        ensures
            received(*old(self), *final(self), generation, append, reply),
    {
        if generation != self.generation {
            return;
        }
        match reply {
            GifReply::Page { items, has_next } => {
                self.has_next = has_next;
                if append {
                    let mut more = items;
                    self.items.append(&mut more);
                } else {
                    self.items = items;
                }
            },
            GifReply::Failed => {
                self.has_next = false;
            },
        }
        self.loading = false;
    }

    /// Whether the picker says that no GIFs were found.
    pub fn shows_nothing_found(&self) -> (b: bool)
        ensures
            b == (self.items@.len() == 0 && !self.loading),
    {
        self.items.len() == 0 && !self.loading
    }
}

/// A reply that a later request has overtaken changes nothing: once a
/// second request is made after the first (request numbers never go down
/// in between), the first one's reply, page or failure, leaves the picker
/// as the second request left it, still loading.
pub proof fn law_overtaken_reply_ignored(
    p0: GifPager,
    p1: GifPager,
    r1: GifRequest,
    p2: GifPager,
    p3: GifPager,
    r2: GifRequest,
    reply: GifReply,
    p4: GifPager,
)
    requires
        issued(p0, p1, r1),
        p2.generation >= p1.generation,
        issued(p2, p3, r2),
        received(p3, p4, r1.generation, r1.append, reply),
    ensures
        p4 == p3,
        p4.loading,
{
}

/// The reply to the latest request is shown: its page goes after the GIFs
/// shown before a further page was asked for, or alone for a new search,
/// tells whether more follow, and ends loading.
pub proof fn law_latest_page_shown(
    p0: GifPager,
    p1: GifPager,
    r: GifRequest,
    items: Vec<GifItem>,
    has_next: bool,
    p2: GifPager,
)
    requires
        issued(p0, p1, r),
        received(p1, p2, r.generation, r.append, GifReply::Page { items, has_next }),
    ensures
        p2.items@ == if r.append { p0.items@ + items@ } else { items@ },
        p2.has_next == has_next,
        !p2.loading,
        p2.generation == p1.generation,
{
}

/// The positions of the GIFs in the left column (even) and the right
/// column (odd).
pub fn split_columns(n: usize) -> (cols: (Vec<usize>, Vec<usize>))
    ensures
        cols.0@ == Seq::new(((n + 1) / 2) as nat, |i: int| (2 * i) as usize),
        cols.1@ == Seq::new((n / 2) as nat, |i: int| (2 * i + 1) as usize),
{
    let mut left: Vec<usize> = Vec::new();
    let mut right: Vec<usize> = Vec::new();
    let mut i: usize = 0;
    while i < n
        invariant
            i <= n,
            left@ == Seq::new(((i + 1) / 2) as nat, |k: int| (2 * k) as usize),
            right@ == Seq::new((i / 2) as nat, |k: int| (2 * k + 1) as usize),
        decreases n - i,
    {
        if i % 2 == 0 {
            left.push(i);
        } else {
            right.push(i);
        }
        assert(left@ =~= Seq::new(((i + 2) / 2) as nat, |k: int| (2 * k) as usize));
        assert(right@ =~= Seq::new(((i + 1) / 2) as nat, |k: int| (2 * k + 1) as usize));
        i = i + 1;
    }
    (left, right)
}

} // verus!
