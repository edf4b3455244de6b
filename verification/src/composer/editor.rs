//! Whether the message editor is empty, judged from its markup and its
//! text, and whether leftover markup is to be cleared.

use vstd::prelude::*;
use vstd::string::StringSliceAdditionalSpecFns;
use crate::chars::{chars_of, string_from_chars, str_eq};
use crate::logs::{is_white_space, trim, trimmed, white_space_char};
use crate::outside::{find_matches, lowercase, regex_find_ranges, std_lowercase};
use crate::spans::{plain_pieces, span_piece, spans_from_links, spans_view, RichTextSpan, SpanView};

verus! {

broadcast use vstd::string::group_string_axioms;

/// The text with every occurrence of `pat` removed, scanning from the
/// left as `str::replace` does with an empty replacement.
pub open spec fn without(s: Seq<char>, pat: Seq<char>) -> Seq<char>
    decreases s.len(),
{
    if s.len() == 0 {
        s
    } else if pat.len() > 0 && s.len() >= pat.len() && s.take(pat.len() as int) == pat {
        without(s.skip(pat.len() as int), pat)
    } else {
        seq![s[0]] + without(s.skip(1), pat)
    }
}

/// The text without the character `c`.
pub open spec fn without_char(s: Seq<char>, c: char) -> Seq<char>
    decreases s.len(),
{
    if s.len() == 0 {
        s
    } else if s.last() == c {
        without_char(s.drop_last(), c)
    } else {
        without_char(s.drop_last(), c).push(s.last())
    }
}

fn remove_all(s: &Vec<char>, pat: &Vec<char>) -> (out: Vec<char>)
    requires
        pat@.len() > 0,
    ensures
        out@ == without(s@, pat@),
{
    let n = s.len();
    let m = pat.len();
    let mut out: Vec<char> = Vec::new();
    let mut i: usize = 0;
    assert(s@.skip(0) =~= s@);
    while i < n
        invariant
            n == s@.len(),
            m == pat@.len(),
            m > 0,
            i <= n,
            out@ + without(s@.skip(i as int), pat@) == without(s@, pat@),
        decreases n - i,
    {
        let ghost rest = s@.skip(i as int);
        let mut hit = n - i >= m;
        let mut k: usize = 0;
        while hit && k < m
            invariant
                n == s@.len(),
                m == pat@.len(),
                i < n,
                k <= m,
                hit ==> i + m <= n,
                hit ==> forall|j: int| 0 <= j < k ==> s@[i + j] == pat@[j],
                !hit ==> !(n - i >= m && rest.take(m as int) == pat@),
                rest == s@.skip(i as int),
            decreases (m - k) + (if hit { 1int } else { 0int }),
        {
            if s[i + k] != pat[k] {
                assert(rest.take(m as int)[k as int] == s@[i + k]);
                hit = false;
            } else {
                k = k + 1;
            }
        }
        if hit {
            assert(rest.take(m as int) =~= pat@);
            assert(rest.skip(m as int) =~= s@.skip(i + m));
            i = i + m;
        } else {
            out.push(s[i]);
            assert(rest.skip(1) =~= s@.skip(i + 1));
            assert(rest[0] == s@[i as int]);
            i = i + 1;
        }
    }
    assert(s@.skip(n as int) =~= Seq::<char>::empty());
    assert(out@ + Seq::<char>::empty() =~= out@);
    out
}

fn remove_char(s: &Vec<char>, c: char) -> (out: Vec<char>)
    ensures
        out@ == without_char(s@, c),
{
    let mut out: Vec<char> = Vec::new();
    let mut i: usize = 0;
    while i < s.len()
        invariant
            i <= s@.len(),
            out@ == without_char(s@.take(i as int), c),
        decreases s.len() - i,
    {
        assert(s@.take(i + 1).drop_last() =~= s@.take(i as int));
        if s[i] != c {
            out.push(s[i]);
        }
        i = i + 1;
    }
    assert(s@.take(s@.len() as int) =~= s@);
    out
}

/// The markup of an empty editor: nothing, or only line breaks the browser
/// leaves behind.
pub open spec fn blank_markup(clean: Seq<char>) -> bool {
    clean.len() == 0 || clean == "<br>"@ || clean == "<br><br>"@ || clean == "<br type=\"_moz\">"@
}

/// The markup compared: lower case, without empty comments and line
/// breaks, trimmed.
pub open spec fn clean_markup(html: Seq<char>) -> Seq<char> {
    trimmed(without_char(without_char(without(std_lowercase(html), "<!---->"@), '\n'), '\r'))
}

/// The editor is empty when its text is only white space and its markup is
/// blank.
pub open spec fn editor_empty(html: Seq<char>, text: Seq<char>) -> bool {
    trimmed(text).len() == 0 && blank_markup(clean_markup(html))
}

/// Judges the editor from its markup and its text. Returns whether it is
/// empty, and whether its markup is to be cleared: when it is empty but
/// holds markup other than nothing or a single line break.
pub fn editor_emptiness(html: &str, text: &str) -> (r: (bool, bool))
    ensures
        r.0 == editor_empty(html@, text@),
        r.1 == (r.0 && std_lowercase(html@).len() > 0 && std_lowercase(html@) != "<br>"@),
{
    let raw = lowercase(html);
    let raw_chars = chars_of(raw.as_str());
    proof {
        reveal_strlit("<!---->");
    }
    let comment = chars_of("<!---->");
    let no_comments = remove_all(&raw_chars, &comment);
    let no_newlines = remove_char(&no_comments, '\n');
    let no_returns = remove_char(&no_newlines, '\r');
    let joined = string_from_chars(&no_returns);
    let clean = trim(joined.as_str());
    let t = trim(text);
    let blank = clean.as_str().is_empty() || str_eq(clean.as_str(), "<br>") || str_eq(clean.as_str(), "<br><br>")
        || str_eq(clean.as_str(), "<br type=\"_moz\">");
    let empty = t.as_str().is_empty() && blank;
    let clear = empty && !raw.as_str().is_empty() && !str_eq(raw.as_str(), "<br>");
    (empty, clear)
}

/// The pattern of a URL typed into the editor: `http://` or `https://`
/// and everything up to the next white space.
pub open spec fn typed_link_pattern() -> Seq<char> {
    "(https?://[^\\s]+)"@
}

/// How a text node of the editor is cut once URLs were typed into it:
/// nothing to do when it holds none; otherwise the plain text between the
/// URLs and the URLs as links.
pub fn typed_link_pieces(text: &str) -> (pieces: Option<Vec<RichTextSpan>>)
    requires
        text.spec_bytes().len() <= usize::MAX,
    ensures
        match pieces {
            None => regex_find_ranges(typed_link_pattern(), text@).len() == 0,
            Some(p) => regex_find_ranges(typed_link_pattern(), text@).len() > 0 && spans_view(p@).map_values(
                |s: SpanView| span_piece(s),
            ) == plain_pieces(text.spec_bytes(), regex_find_ranges(typed_link_pattern(), text@)),
        },
{
    let ranges = find_matches("(https?://[^\\s]+)", text);
    if ranges.len() == 0 {
        None
    } else {
        Some(spans_from_links(text, &ranges))
    }
}

/// The text without white space at its end, as `str::trim_end` gives it.
pub open spec fn trimmed_end(s: Seq<char>) -> Seq<char>
    decreases s.len(),
{
    if s.len() > 0 && is_white_space(s.last()) {
        trimmed_end(s.drop_last())
    } else {
        s
    }
}

/// What becomes of a link of the editor as the text is edited.
pub enum LinkFix {
    /// Its text no longer is its URL: it turns back into plain text.
    Unwrap,
    /// It ends in a space: the link keeps the trimmed text as text and
    /// URL, and a non-breaking space follows it.
    MoveSpace(String),
    Keep,
}

/// Decides what becomes of a link from its text and its URL.
pub fn link_fix(text: &str, url: &str) -> (f: LinkFix)
    ensures
        text@ != url@ ==> f is Unwrap,
        text@ == url@ && text@.len() > 0 && (text@.last() == ' ' || text@.last() == '\u{a0}') ==> (f matches LinkFix::MoveSpace(t) && t@ == trimmed_end(text@)),
        text@ == url@ && !(text@.len() > 0 && (text@.last() == ' ' || text@.last() == '\u{a0}')) ==> f is Keep,
{
    if !str_eq(text, url) {
        return LinkFix::Unwrap;
    }
    let cs = chars_of(text);
    let n = cs.len();
    if n == 0 || !(cs[n - 1] == ' ' || cs[n - 1] == '\u{a0}') {
        return LinkFix::Keep;
    }
    let mut k: usize = n;
    assert(cs@.take(n as int) =~= text@);
    while k > 0 && white_space_char(cs[k - 1])
        invariant
            cs@ == text@,
            k <= n == cs@.len(),
            trimmed_end(cs@.take(k as int)) == trimmed_end(text@),
        decreases k,
    {
        assert(cs@.take(k as int).drop_last() =~= cs@.take(k - 1));
        assert(cs@.take(k as int).last() == cs@[k - 1]);
        k = k - 1;
    }
    let mut out: Vec<char> = Vec::new();
    let mut i: usize = 0;
    while i < k
        invariant
            i <= k <= n == cs@.len(),
            out@ == cs@.take(i as int),
        decreases k - i,
    {
        out.push(cs[i]);
        assert(out@ =~= cs@.take(i + 1));
        i = i + 1;
    }
    proof {
        if k > 0 {
            assert(cs@.take(k as int).last() == cs@[k - 1]);
        }
        assert(trimmed_end(cs@.take(k as int)) == cs@.take(k as int));
    }
    LinkFix::MoveSpace(string_from_chars(&out))
}

} // verus!
