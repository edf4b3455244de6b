//! Rich-text spans of a message body: the HTML walk over a formatted body,
//! link detection in a plain body, and Matrix ID extraction from links.

use vstd::prelude::*;
use vstd::utf8::*;
use vstd::string::StringSliceAdditionalSpecFns;
use crate::outside::{find_url_links, linkify_url_links, parse_html_fragment, ranges_in_order, scraper_fragment_walk};
use crate::chars::{chars_of, find_char, first_index_of, seq_starts_with, str_eq, str_starts_with, string_from_chars};

verus! {

broadcast use vstd::string::group_string_axioms;

/// One piece of a message body as the backend hands it to the interface.
pub enum RichTextSpan {
    Plain(String),
    UserMention { user_id: String, display_name: String },
    RoomMention,
    Link { url: String, text: Option<String> },
}

/// The abstract content of a span.
pub enum SpanView {
    Plain(Seq<char>),
    UserMention(Seq<char>, Seq<char>),
    RoomMention,
    Link(Seq<char>, Option<Seq<char>>),
}

impl View for RichTextSpan {
    type V = SpanView;

    open spec fn view(&self) -> SpanView {
        match self {
            RichTextSpan::Plain(s) => SpanView::Plain(s@),
            RichTextSpan::UserMention { user_id, display_name } => SpanView::UserMention(
                user_id@,
                display_name@,
            ),
            RichTextSpan::RoomMention => SpanView::RoomMention,
            RichTextSpan::Link { url, text } => SpanView::Link(
                url@,
                match text {
                    Some(t) => Some(t@),
                    None => None,
                },
            ),
        }
    }
}

pub open spec fn spans_view(v: Seq<RichTextSpan>) -> Seq<SpanView> {
    v.map_values(|s: RichTextSpan| s@)
}

/// The Matrix ID inside a mention link: everything from the first `@` on,
/// or the whole link when it holds no `@`. A `matrix:u/alice:example.org`
/// link holds no `@`, so the whole link is taken as the ID.
pub open spec fn mxid_of(href: Seq<char>) -> Seq<char> {
    match first_index_of(href, '@') {
        Some(i) => href.skip(i),
        None => href,
    }
}

/// Copies the characters of `v` from position `from` on.
pub fn vec_skip(v: &Vec<char>, from: usize) -> (out: Vec<char>)
    requires
        from <= v@.len(),
    ensures
        out@ == v@.skip(from as int),
{
    let mut out: Vec<char> = Vec::new();
    let mut i = from;
    while i < v.len()
        invariant
            from <= i <= v@.len(),
            out@ == v@.subrange(from as int, i as int),
        decreases v.len() - i,
    {
        out.push(v[i]);
        i = i + 1;
        assert(out@ =~= v@.subrange(from as int, i as int));
    }
    out
}

/// Extracts the Matrix user ID from a mention link such as
/// `https://matrix.to/#/@alice:example.org`.
pub fn extract_mxid(href: &str) -> (id: String)
    ensures
        id@ == mxid_of(href@),
{
    let cs = chars_of(href);
    match find_char(&cs, '@') {
        Some(i) => {
            let tail = vec_skip(&cs, i);
            string_from_chars(&tail)
        },
        None => string_from_chars(&cs),
    }
}

/// One step of a depth-first walk over a parsed HTML fragment: entering a
/// node (text, element or any other node) or leaving the node entered last.
pub enum HtmlToken {
    OpenText(String),
    OpenElement { name: String, href: Option<String> },
    OpenOther,
    Close,
}

/// What the walk is doing between two tokens.
pub enum WalkMode {
    /// Producing spans from the nodes met.
    Normal,
    /// Inside a node whose content has already been accounted for; the
    /// number counts the nodes still open.
    Skip(nat),
    /// Inside a user-mention link, gathering its text.
    Capture(nat, Seq<char>, Seq<char>),
}

pub open spec fn is_user_mention_link(href: Seq<char>) -> bool {
    seq_starts_with(href, "https://matrix.to/#/@"@) || seq_starts_with(href, "matrix:u/"@)
}

pub open spec fn is_room_mention_link(href: Seq<char>) -> bool {
    seq_starts_with(href, "https://matrix.to/#/#"@)
}

/// The effect of one token on the walk's mode and on the spans produced.
pub open spec fn walk_step(mode: WalkMode, out: Seq<SpanView>, t: HtmlToken) -> (WalkMode, Seq<SpanView>) {
    match mode {
        WalkMode::Normal => match t {
            HtmlToken::OpenText(s) => if s@.len() > 0 {
                (WalkMode::Normal, out.push(SpanView::Plain(s@)))
            } else {
                (WalkMode::Normal, out)
            },
            HtmlToken::OpenElement { name, href } => if name@ == "br"@ {
                (WalkMode::Skip(1), out.push(SpanView::Plain("\n"@)))
            } else if name@ == "a"@ && href is Some {
                let h = href->0@;
                if is_user_mention_link(h) {
                    (WalkMode::Capture(1, mxid_of(h), Seq::empty()), out)
                } else if is_room_mention_link(h) {
                    (WalkMode::Skip(1), out.push(SpanView::RoomMention))
                } else {
                    (WalkMode::Skip(1), out.push(SpanView::Link(h, None)))
                }
            } else {
                (WalkMode::Normal, out)
            },
            _ => (WalkMode::Normal, out),
        },
        WalkMode::Skip(d) => match t {
            HtmlToken::Close => if d <= 1 {
                (WalkMode::Normal, out)
            } else {
                (WalkMode::Skip((d - 1) as nat), out)
            },
            _ => (WalkMode::Skip(d + 1), out),
        },
        WalkMode::Capture(d, id, text) => match t {
            HtmlToken::Close => if d <= 1 {
                (WalkMode::Normal, out.push(SpanView::UserMention(id, text)))
            } else {
                (WalkMode::Capture((d - 1) as nat, id, text), out)
            },
            HtmlToken::OpenText(s) => (WalkMode::Capture(d + 1, id, text + s@), out),
            _ => (WalkMode::Capture(d + 1, id, text), out),
        },
    }
}

/// The mode and spans after the first `k` tokens.
pub open spec fn walk_prefix(ts: Seq<HtmlToken>, k: nat) -> (WalkMode, Seq<SpanView>)
    decreases k,
{
    if k == 0 {
        (WalkMode::Normal, Seq::empty())
    } else {
        let prev = walk_prefix(ts, (k - 1) as nat);
        walk_step(prev.0, prev.1, ts[k - 1])
    }
}

/// The spans of a formatted body: those the walk produces, or the plain
/// fallback body when the walk produces none.
pub open spec fn html_spans_of(ts: Seq<HtmlToken>, fallback: Seq<char>) -> Seq<SpanView> {
    let spans = walk_prefix(ts, ts.len()).1;
    if spans.len() == 0 {
        seq![SpanView::Plain(fallback)]
    } else {
        spans
    }
}

/// The walk's mode as ordinary values.
enum ExecMode {
    Normal,
    Skip(usize),
    Capture(usize, String, Vec<char>),
}

spec fn exec_mode_view(m: ExecMode) -> WalkMode {
    match m {
        ExecMode::Normal => WalkMode::Normal,
        ExecMode::Skip(d) => WalkMode::Skip(d as nat),
        ExecMode::Capture(d, id, text) => WalkMode::Capture(d as nat, id@, text@),
    }
}

spec fn mode_depth(m: ExecMode) -> nat {
    match m {
        ExecMode::Normal => 0,
        ExecMode::Skip(d) => d as nat,
        ExecMode::Capture(d, _, _) => d as nat,
    }
}

/// Turns the walk over a formatted (HTML) body into spans: text becomes
/// plain spans, line breaks become newlines, links to users become user
/// mentions named by the link's text, links to rooms become room mentions
/// and other links become links. When nothing comes out, the plain body
/// stands in for it.
pub fn html_tokens_to_spans(tokens: &Vec<HtmlToken>, fallback_body: &str) -> (spans: Vec<RichTextSpan>)
    ensures
        spans_view(spans@) == html_spans_of(tokens@, fallback_body@),
{
    let mut out: Vec<RichTextSpan> = Vec::new();
    let mut mode = ExecMode::Normal;
    let mut i: usize = 0;
    while i < tokens.len()
        invariant
            i <= tokens@.len(),
            mode_depth(mode) <= i,
            walk_prefix(tokens@, i as nat) == (exec_mode_view(mode), spans_view(out@)),
        decreases tokens.len() - i,
    {
        let ghost before = out@;
        let ghost prev_mode = mode;
        proof {
            assert(walk_prefix(tokens@, (i + 1) as nat) == walk_step(
                exec_mode_view(mode),
                spans_view(out@),
                tokens@[i as int],
            ));
        }
        match mode {
            ExecMode::Normal => {
                match &tokens[i] {
                    HtmlToken::OpenText(s) => {
                        if !s.as_str().is_empty() {
                            out.push(RichTextSpan::Plain(s.clone()));
                        }
                    },
                    HtmlToken::OpenElement { name, href } => {
                        if str_eq(name.as_str(), "br") {
                            out.push(RichTextSpan::Plain(String::from_str("\n")));
                            mode = ExecMode::Skip(1);
                        } else if str_eq(name.as_str(), "a") && href.is_some() {
                            let h = href.as_ref().unwrap();
                            if str_starts_with(h.as_str(), "https://matrix.to/#/@")
                                || str_starts_with(h.as_str(), "matrix:u/") {
                                let id = extract_mxid(h.as_str());
                                mode = ExecMode::Capture(1, id, Vec::new());
                            } else if str_starts_with(h.as_str(), "https://matrix.to/#/#") {
                                out.push(RichTextSpan::RoomMention);
                                mode = ExecMode::Skip(1);
                            } else {
                                out.push(RichTextSpan::Link { url: h.clone(), text: None });
                                mode = ExecMode::Skip(1);
                            }
                        }
                    },
                    _ => {},
                }
            },
            ExecMode::Skip(d) => {
                match &tokens[i] {
                    HtmlToken::Close => {
                        if d <= 1 {
                            mode = ExecMode::Normal;
                        } else {
                            mode = ExecMode::Skip(d - 1);
                        }
                    },
                    _ => {
                        mode = ExecMode::Skip(d + 1);
                    },
                }
            },
            ExecMode::Capture(d, id, text) => {
                match &tokens[i] {
                    HtmlToken::Close => {
                        if d <= 1 {
                            let name = string_from_chars(&text);
                            out.push(RichTextSpan::UserMention { user_id: id, display_name: name });
                            mode = ExecMode::Normal;
                        } else {
                            mode = ExecMode::Capture(d - 1, id, text);
                        }
                    },
                    HtmlToken::OpenText(s) => {
                        let mut text = text;
                        let extra = chars_of(s.as_str());
                        let mut extra = extra;
                        text.append(&mut extra);
                        mode = ExecMode::Capture(d + 1, id, text);
                    },
                    _ => {
                        mode = ExecMode::Capture(d + 1, id, text);
                    },
                }
            },
        }
        proof {
            assert(spans_view(out@) =~= walk_prefix(tokens@, (i + 1) as nat).1);
        }
        i = i + 1;
    }
    if out.len() == 0 {
        let mut v: Vec<RichTextSpan> = Vec::new();
        v.push(RichTextSpan::Plain(fallback_body.to_owned()));
        assert(spans_view(v@) =~= seq![SpanView::Plain(fallback_body@)]);
        v
    } else {
        out
    }
}

/// Turns a formatted (HTML) body into spans, falling back to the plain body
/// when the markup yields nothing.
pub fn parse_html_to_spans(html: &str, fallback_body: &str) -> (spans: Vec<RichTextSpan>)
    ensures
        spans_view(spans@) == html_spans_of(scraper_fragment_walk(html@), fallback_body@),
{
    let tokens = parse_html_fragment(html);
    html_tokens_to_spans(&tokens, fallback_body)
}

/// A piece of a plain body, as bytes of its UTF-8 encoding.
pub enum BytePiece {
    Plain(Seq<u8>),
    Link(Seq<u8>),
}

/// The pieces produced for the first `k` links, and where the last of them
/// ends.
pub open spec fn pieces_upto(b: Seq<u8>, links: Seq<(usize, usize)>, k: nat) -> (Seq<BytePiece>, int)
    decreases k,
{
    if k == 0 {
        (Seq::empty(), 0)
    } else {
        let prev = pieces_upto(b, links, (k - 1) as nat);
        let (s, e) = links[k - 1];
        let before = if s > prev.1 {
            seq![BytePiece::Plain(b.subrange(prev.1, s as int))]
        } else {
            Seq::empty()
        };
        (prev.0 + before + seq![BytePiece::Link(b.subrange(s as int, e as int))], e as int)
    }
}

/// The pieces of a plain body `b` cut at the given links: the text between
/// links becomes plain pieces, each link a link piece. An empty result is
/// replaced by the whole body as one plain piece.
pub open spec fn plain_pieces(b: Seq<u8>, links: Seq<(usize, usize)>) -> Seq<BytePiece> {
    let (p, last) = pieces_upto(b, links, links.len());
    let all = if last < b.len() {
        p.push(BytePiece::Plain(b.subrange(last, b.len() as int)))
    } else {
        p
    };
    if all.len() == 0 {
        seq![BytePiece::Plain(b)]
    } else {
        all
    }
}

/// The bytes of a span produced from a plain body.
pub open spec fn span_piece(s: SpanView) -> BytePiece {
    match s {
        SpanView::Link(url, _) => BytePiece::Link(encode_utf8(url)),
        SpanView::Plain(t) => BytePiece::Plain(encode_utf8(t)),
        _ => BytePiece::Plain(Seq::empty()),
    }
}

proof fn lemma_boundary_in_prefix(bytes: Seq<u8>, end: int, at: int)
    requires
        valid_utf8(bytes),
        0 <= at <= end <= bytes.len(),
        is_char_boundary(bytes, end),
        is_char_boundary(bytes, at),
    ensures
        valid_utf8(bytes.subrange(0, end)),
        is_char_boundary(bytes.subrange(0, end), at),
{
    valid_utf8_split(bytes, end);
    let pre = bytes.subrange(0, end);
    if at == end {
        is_char_boundary_start_end_of_seq(pre);
    } else if at == 0 {
        is_char_boundary_start_end_of_seq(pre);
    } else {
        is_char_boundary_iff_not_is_continuation_byte(bytes, at);
        is_char_boundary_iff_not_is_continuation_byte(pre, at);
    }
}

/// The part of `text` between two byte positions on character boundaries.
fn byte_slice(text: &str, from: usize, to: usize) -> (piece: String)
    requires
        from <= to <= text.spec_bytes().len(),
        is_char_boundary(text.spec_bytes(), from as int),
        is_char_boundary(text.spec_bytes(), to as int),
    ensures
        encode_utf8(piece@) == text.spec_bytes().subrange(from as int, to as int),
{
    proof {
        encode_utf8_valid_utf8(text@);
        lemma_boundary_in_prefix(text.spec_bytes(), to as int, from as int);
    }
    let (pre, _) = text.split_at(to);
    let (_, mid) = pre.split_at(from);
    assert(mid.spec_bytes() =~= text.spec_bytes().subrange(from as int, to as int));
    mid.to_owned()
}

/// Cuts a plain message body into plain text and the URLs found in it.
pub fn parse_plain_text_to_spans(text: &str) -> (spans: Vec<RichTextSpan>)
    requires
        text.spec_bytes().len() <= usize::MAX,
    ensures
        spans_view(spans@).map_values(|s: SpanView| span_piece(s)) == plain_pieces(
            text.spec_bytes(),
            linkify_url_links(text@),
        ),
        ranges_in_order(text.spec_bytes(), linkify_url_links(text@)),
        forall|k: int| 0 <= k < spans@.len() ==> match #[trigger] spans@[k] {
            RichTextSpan::Plain(_) => true,
            RichTextSpan::Link { text, .. } => text is None,
            _ => false,
        },
{
    let links = find_url_links(text);
    spans_from_links(text, &links)
}

/// Cuts a text at the given byte ranges: the text between them becomes
/// plain spans, each range a link span showing its URL.
pub fn spans_from_links(text: &str, links: &Vec<(usize, usize)>) -> (spans: Vec<RichTextSpan>)
    requires
        text.spec_bytes().len() <= usize::MAX,
        ranges_in_order(text.spec_bytes(), links@),
    ensures
        spans_view(spans@).map_values(|s: SpanView| span_piece(s)) == plain_pieces(text.spec_bytes(), links@),
        forall|k: int| 0 <= k < spans@.len() ==> match #[trigger] spans@[k] {
            RichTextSpan::Plain(_) => true,
            RichTextSpan::Link { text, .. } => text is None,
            _ => false,
        },
{
    let ghost b = text.spec_bytes();
    let n = text.len();
    let mut spans: Vec<RichTextSpan> = Vec::new();
    let mut last: usize = 0;
    let mut i: usize = 0;
    proof {
        encode_utf8_valid_utf8(text@);
        is_char_boundary_start_end_of_seq(b);
    }
    while i < links.len()
        invariant
            n == b.len(),
            b == text.spec_bytes(),
            valid_utf8(b),
            ranges_in_order(b, links@),
            i <= links@.len(),
            last <= n,
            is_char_boundary(b, last as int),
            i > 0 ==> last == links@[i - 1].1,
            i == 0 ==> last == 0,
            pieces_upto(b, links@, i as nat) == (
                spans_view(spans@).map_values(|s: SpanView| span_piece(s)),
                last as int,
            ),
            forall|k: int| 0 <= k < spans@.len() ==> match #[trigger] spans@[k] {
                RichTextSpan::Plain(_) => true,
                RichTextSpan::Link { text, .. } => text is None,
                _ => false,
            },
        decreases links.len() - i,
    {
        let (start, end) = links[i];
        assert(links@[i as int] == (start, end));
        let ghost old_spans = spans@;
        if start > last {
            let p = byte_slice(text, last, start);
            spans.push(RichTextSpan::Plain(p));
        }
        let u = byte_slice(text, start, end);
        spans.push(RichTextSpan::Link { url: u, text: None });
        proof {
            let prev = pieces_upto(b, links@, i as nat);
            assert(spans_view(spans@).map_values(|s: SpanView| span_piece(s)) =~= pieces_upto(
                b,
                links@,
                (i + 1) as nat,
            ).0);
        }
        last = end;
        i = i + 1;
    }
    if last < n {
        let p = byte_slice(text, last, n);
        spans.push(RichTextSpan::Plain(p));
    }
    proof {
        assert(b.subrange(last as int, b.len() as int) =~= b.subrange(last as int, n as int));
        assert(spans_view(spans@).map_values(|s: SpanView| span_piece(s)) =~= {
            let (p, l) = pieces_upto(b, links@, links@.len());
            if l < b.len() {
                p.push(BytePiece::Plain(b.subrange(l, b.len() as int)))
            } else {
                p
            }
        });
    }
    if spans.len() == 0 {
        let mut v: Vec<RichTextSpan> = Vec::new();
        v.push(RichTextSpan::Plain(text.to_owned()));
        assert(spans_view(v@).map_values(|s: SpanView| span_piece(s)) =~= seq![BytePiece::Plain(b)]);
        v
    } else {
        spans
    }
}

/// The mode and spans after walking the tokens `ts` from `mode` and `out`.
pub open spec fn walk_seq(mode: WalkMode, out: Seq<SpanView>, ts: Seq<HtmlToken>) -> (WalkMode, Seq<SpanView>)
    decreases ts.len(),
{
    if ts.len() == 0 {
        (mode, out)
    } else {
        let p = walk_seq(mode, out, ts.drop_last());
        walk_step(p.0, p.1, ts.last())
    }
}

/// Nodes entered minus nodes left, over the tokens `ts`.
pub open spec fn open_depth(ts: Seq<HtmlToken>) -> int
    decreases ts.len(),
{
    if ts.len() == 0 {
        0
    } else {
        open_depth(ts.drop_last()) + if ts.last() is Close { -1int } else { 1int }
    }
}

/// The tokens of whole subtrees: every node entered is left, and none is
/// left before it is entered.
pub open spec fn balanced(ts: Seq<HtmlToken>) -> bool {
    &&& forall|k: int| 0 <= k <= ts.len() ==> open_depth(#[trigger] ts.take(k)) >= 0
    &&& open_depth(ts) == 0
}

/// A token that, met outside any link or line break, produces no span and
/// changes nothing: leaving a node, entering a node that is neither text
/// nor an element, or entering an element other than `a` and `br`.
pub open spec fn silent(t: HtmlToken) -> bool {
    match t {
        HtmlToken::OpenText(_) => false,
        HtmlToken::OpenElement { name, .. } => name@ != "br"@ && name@ != "a"@,
        _ => true,
    }
}

proof fn lemma_walk_seq_concat(mode: WalkMode, out: Seq<SpanView>, a: Seq<HtmlToken>, b: Seq<HtmlToken>)
    ensures
        walk_seq(mode, out, a + b) == walk_seq(walk_seq(mode, out, a).0, walk_seq(mode, out, a).1, b),
    decreases b.len(),
{
    if b.len() == 0 {
        assert(a + b =~= a);
    } else {
        assert((a + b).drop_last() =~= a + b.drop_last());
        assert((a + b).last() == b.last());
        lemma_walk_seq_concat(mode, out, a, b.drop_last());
    }
}

proof fn lemma_walk_prefix_seq(ts: Seq<HtmlToken>, k: nat)
    requires
        k <= ts.len(),
    ensures
        walk_prefix(ts, k) == walk_seq(WalkMode::Normal, Seq::empty(), ts.take(k as int)),
    decreases k,
{
    if k > 0 {
        lemma_walk_prefix_seq(ts, (k - 1) as nat);
        assert(ts.take(k as int).drop_last() =~= ts.take(k - 1));
        assert(ts.take(k as int).last() == ts[k - 1]);
    }
}

proof fn lemma_silent_walk(out: Seq<SpanView>, ts: Seq<HtmlToken>)
    requires
        forall|i: int| 0 <= i < ts.len() ==> silent(#[trigger] ts[i]),
    ensures
        walk_seq(WalkMode::Normal, out, ts) == (WalkMode::Normal, out),
    decreases ts.len(),
{
    if ts.len() > 0 {
        let d = ts.drop_last();
        assert forall|i: int| 0 <= i < d.len() implies silent(#[trigger] d[i]) by {
            assert(d[i] == ts[i]);
        }
        lemma_silent_walk(out, d);
        assert(silent(ts[ts.len() - 1]));
    }
}

proof fn lemma_skip_walk(out: Seq<SpanView>, inner: Seq<HtmlToken>, k: nat)
    requires
        k <= inner.len(),
        forall|j: int| 0 <= j <= inner.len() ==> open_depth(#[trigger] inner.take(j)) >= 0,
    ensures
        walk_seq(WalkMode::Skip(1), out, inner.take(k as int)) == (
        WalkMode::Skip((1 + open_depth(inner.take(k as int))) as nat),
        out,
        ),
    decreases k,
{
    if k > 0 {
        lemma_skip_walk(out, inner, (k - 1) as nat);
        let t = inner.take(k as int);
        assert(t.drop_last() =~= inner.take(k - 1));
        assert(open_depth(inner.take(k as int)) >= 0);
        assert(open_depth(inner.take(k - 1)) >= 0);
    } else {
        assert(inner.take(0) =~= Seq::<HtmlToken>::empty());
    }
}

proof fn lemma_skipped_subtree(out: Seq<SpanView>, t: HtmlToken, span: SpanView, inner: Seq<HtmlToken>)
    requires
        walk_step(WalkMode::Normal, out, t) == (WalkMode::Skip(1), out.push(span)),
        balanced(inner),
    ensures
        walk_seq(WalkMode::Normal, out, seq![t] + inner + seq![HtmlToken::Close]) == (
        WalkMode::Normal,
        out.push(span),
        ),
{
    let open = seq![t];
    assert(open.drop_last() =~= Seq::<HtmlToken>::empty());
    assert(walk_seq(WalkMode::Normal, out, open.drop_last()) == (WalkMode::Normal, out));
    assert(open.last() == t);
    assert(walk_seq(WalkMode::Normal, out, open) == (WalkMode::Skip(1), out.push(span)));
    let mid = out.push(span);
    lemma_skip_walk(mid, inner, inner.len());
    assert(inner.take(inner.len() as int) =~= inner);
    assert(walk_seq(WalkMode::Skip(1), mid, inner) == (WalkMode::Skip(1), mid));
    lemma_walk_seq_concat(WalkMode::Normal, out, open, inner);
    let close = seq![HtmlToken::Close];
    lemma_walk_seq_concat(WalkMode::Normal, out, open + inner, close);
    assert(close.drop_last() =~= Seq::<HtmlToken>::empty());
    assert(walk_seq(WalkMode::Skip(1), mid, close.drop_last()) == (WalkMode::Skip(1), mid));
    assert(close.last() == HtmlToken::Close);
}

proof fn lemma_link_kinds(h: Seq<char>)
    ensures
        is_room_mention_link(h) ==> !is_user_mention_link(h),
{
    reveal_strlit("https://matrix.to/#/@");
    reveal_strlit("matrix:u/");
    reveal_strlit("https://matrix.to/#/#");
    if is_room_mention_link(h) {
        let p = "https://matrix.to/#/#"@;
        assert(h.take(p.len() as int) == p);
        assert(h[20] == '#') by {
            assert(h.take(p.len() as int)[20] == p[20]);
        }
        if seq_starts_with(h, "https://matrix.to/#/@"@) {
            assert(h.take(21)[20] == '@');
        }
        if seq_starts_with(h, "matrix:u/"@) {
            assert(h.take(9)[0] == 'm');
            assert(h.take(p.len() as int)[0] == 'h');
        }
    }
}

/// A link to a room, met outside any other link, becomes one room mention
/// and nothing else: whatever its content (any whole subtrees), none of it
/// shows, and the walk goes on as before once the link is left.
pub proof fn law_room_link_is_one_mention(out: Seq<SpanView>, h: String, name: String, inner: Seq<HtmlToken>)
    requires
        name@ == "a"@,
        is_room_mention_link(h@),
        balanced(inner),
    ensures
        walk_seq(
            WalkMode::Normal,
            out,
            seq![HtmlToken::OpenElement { name, href: Some(h) }] + inner + seq![HtmlToken::Close],
        ) == (WalkMode::Normal, out.push(SpanView::RoomMention)),
{
    reveal_strlit("a");
    reveal_strlit("br");
    assert(name@ != "br"@) by {
        assert(name@.len() != "br"@.len());
    }
    lemma_link_kinds(h@);
    lemma_skipped_subtree(out, HtmlToken::OpenElement { name, href: Some(h) }, SpanView::RoomMention, inner);
}

/// A link to anything but a user or a room, met outside any other link,
/// becomes one link to its address, with no text of its own: its content
/// does not show.
pub proof fn law_other_link_is_one_link(out: Seq<SpanView>, h: String, name: String, inner: Seq<HtmlToken>)
    requires
        name@ == "a"@,
        !is_room_mention_link(h@),
        !is_user_mention_link(h@),
        balanced(inner),
    ensures
        walk_seq(
            WalkMode::Normal,
            out,
            seq![HtmlToken::OpenElement { name, href: Some(h) }] + inner + seq![HtmlToken::Close],
        ) == (WalkMode::Normal, out.push(SpanView::Link(h@, None))),
{
    reveal_strlit("a");
    reveal_strlit("br");
    assert(name@ != "br"@) by {
        assert(name@.len() != "br"@.len());
    }
    lemma_skipped_subtree(out, HtmlToken::OpenElement { name, href: Some(h) }, SpanView::Link(h@, None), inner);
}

/// A line break, met outside any link, becomes one newline, whatever it
/// holds.
pub proof fn law_line_break(out: Seq<SpanView>, name: String, href: Option<String>, inner: Seq<HtmlToken>)
    requires
        name@ == "br"@,
        balanced(inner),
    ensures
        walk_seq(WalkMode::Normal, out, seq![HtmlToken::OpenElement { name, href }] + inner + seq![HtmlToken::Close])
            == (WalkMode::Normal, out.push(SpanView::Plain("\n"@))),
{
    lemma_skipped_subtree(out, HtmlToken::OpenElement { name, href }, SpanView::Plain("\n"@), inner);
}

/// A link to a user holding one text, met outside any other link, becomes
/// one mention of the user named in the address (from its first `@` on),
/// labelled with that text.
pub proof fn law_user_link_is_one_mention(out: Seq<SpanView>, h: String, name: String, text: String)
    requires
        name@ == "a"@,
        is_user_mention_link(h@),
    ensures
        walk_seq(
            WalkMode::Normal,
            out,
            seq![
                HtmlToken::OpenElement { name, href: Some(h) },
                HtmlToken::OpenText(text),
                HtmlToken::Close,
                HtmlToken::Close,
            ],
        ) == (WalkMode::Normal, out.push(SpanView::UserMention(mxid_of(h@), text@))),
{
    reveal_strlit("a");
    reveal_strlit("br");
    assert(name@ != "br"@) by {
        assert(name@.len() != "br"@.len());
    }
    let ts = seq![
        HtmlToken::OpenElement { name, href: Some(h) },
        HtmlToken::OpenText(text),
        HtmlToken::Close,
        HtmlToken::Close,
    ];
    let t1 = ts.take(1);
    let t2 = ts.take(2);
    let t3 = ts.take(3);
    assert(ts.drop_last() =~= t3);
    assert(t3.drop_last() =~= t2);
    assert(t2.drop_last() =~= t1);
    assert(t1.drop_last() =~= Seq::<HtmlToken>::empty());
    assert(walk_seq(WalkMode::Normal, out, t1.drop_last()) == (WalkMode::Normal, out));
    assert(t1.last() == HtmlToken::OpenElement { name, href: Some(h) });
    assert(t2.last() == HtmlToken::OpenText(text));
    assert(t3.last() == HtmlToken::Close);
    assert(ts.last() == HtmlToken::Close);
    assert(walk_seq(WalkMode::Normal, out, t1) == (WalkMode::Capture(1, mxid_of(h@), Seq::empty()), out));
    assert(Seq::<char>::empty() + text@ =~= text@);
    assert(walk_seq(WalkMode::Normal, out, t2) == (WalkMode::Capture(2, mxid_of(h@), text@), out));
    assert(walk_seq(WalkMode::Normal, out, t3) == (WalkMode::Capture(1, mxid_of(h@), text@), out));
}

/// A formatted body whose only link is a link to a room, and which holds
/// nothing else that shows (no text, no line break), becomes exactly one
/// room mention: the link's own text is not shown.
pub proof fn law_room_link_body(
    pre: Seq<HtmlToken>,
    h: String,
    name: String,
    inner: Seq<HtmlToken>,
    post: Seq<HtmlToken>,
    fallback: Seq<char>,
)
    requires
        name@ == "a"@,
        is_room_mention_link(h@),
        balanced(inner),
        forall|i: int| 0 <= i < pre.len() ==> silent(#[trigger] pre[i]),
        forall|i: int| 0 <= i < post.len() ==> silent(#[trigger] post[i]),
    ensures
        html_spans_of(
            pre + seq![HtmlToken::OpenElement { name, href: Some(h) }] + inner + seq![HtmlToken::Close] + post,
            fallback,
        ) == seq![SpanView::RoomMention],
{
    let link = seq![HtmlToken::OpenElement { name, href: Some(h) }] + inner + seq![HtmlToken::Close];
    let ts = pre + seq![HtmlToken::OpenElement { name, href: Some(h) }] + inner + seq![HtmlToken::Close] + post;
    assert(ts =~= pre + link + post);
    lemma_walk_prefix_seq(ts, ts.len());
    assert(ts.take(ts.len() as int) =~= ts);
    let e = Seq::<SpanView>::empty();
    lemma_silent_walk(e, pre);
    law_room_link_is_one_mention(e, h, name, inner);
    lemma_walk_seq_concat(WalkMode::Normal, e, pre, link);
    lemma_walk_seq_concat(WalkMode::Normal, e, pre + link, post);
    lemma_silent_walk(e.push(SpanView::RoomMention), post);
    assert(e.push(SpanView::RoomMention) =~= seq![SpanView::RoomMention]);
}

} // verus!
