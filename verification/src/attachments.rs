//! Files attached to the message being written: where they come from, their
//! media type, the badge of a file that is not an image, and their removal.

use vstd::prelude::*;
use crate::chars::{chars_of, find_char, first_index_of, str_ends_with, str_eq, str_starts_with, string_from_chars};
use crate::spans::vec_skip;
use crate::login::utf8_len;
use crate::outside::{new_random_id, std_uppercase, uppercase};

verus! {

broadcast use vstd::string::group_string_axioms;

/// Where an attachment's bytes come from.
pub enum AttachmentSource {
    LocalFile(String),
    RawBytes(Vec<u8>),
    Url(String),
}

/// A file picked by the user, as the backend describes it.
pub struct FileMetadata {
    pub source: AttachmentSource,
    pub file_name: String,
    pub mime_type: String,
    pub size: u64,
}

/// A file attached to the message being written.
pub struct Attachment {
    pub id: String,
    pub file_name: String,
    pub mime_type: String,
    pub size: u64,
    pub preview_url: Option<String>,
    pub source: AttachmentSource,
}

/// The media type of a GIF by its URL's ending.
pub open spec fn klipy_mime(url: Seq<char>) -> Seq<char> {
    if url.len() >= 5 && url.skip(url.len() - 5) == ".webp"@ {
        "image/webp"@
    } else if url.len() >= 4 && url.skip(url.len() - 4) == ".gif"@ {
        "image/gif"@
    } else {
        "application/octet-stream"@
    }
}

/// Attaches a GIF from the picker under the id `id`: linked by its URL,
/// which also previews it.
pub fn attachment_from_gif(id: String, url: String, file_name: String, size: u64) -> (a: Attachment)
    ensures
        a.id@ == id@,
        a.file_name@ == file_name@,
        a.mime_type@ == klipy_mime(url@),
        a.size == size,
        a.preview_url matches Some(p) && p@ == url@,
        a.source matches AttachmentSource::Url(u) && u@ == url@,
{
    proof {
        reveal_strlit(".webp");
        reveal_strlit(".gif");
    }
    let mime = if str_ends_with(url.as_str(), ".webp") {
        String::from_str("image/webp")
    } else if str_ends_with(url.as_str(), ".gif") {
        String::from_str("image/gif")
    } else {
        String::from_str("application/octet-stream")
    };
    let preview = url.clone();
    Attachment { id, file_name, mime_type: mime, size, preview_url: Some(preview), source: AttachmentSource::Url(url) }
}

/// Attaches a GIF from the picker under a fresh random id.
pub fn from_klipy_file(url: String, file_name: String, size: u64) -> (a: Attachment)
    ensures
        a.id@.len() == 36,
        a.file_name@ == file_name@,
        a.mime_type@ == klipy_mime(url@),
        a.size == size,
        a.preview_url matches Some(p) && p@ == url@,
        a.source matches AttachmentSource::Url(u) && u@ == url@,
{
    let id = new_random_id();
    attachment_from_gif(id, url, file_name, size)
}

/// The file description the backend takes to send an attachment.
pub fn into_file_metadata(a: Attachment) -> (m: FileMetadata)
    ensures
        m.source == a.source,
        m.file_name == a.file_name,
        m.mime_type == a.mime_type,
        m.size == a.size,
{
    FileMetadata { source: a.source, file_name: a.file_name, mime_type: a.mime_type, size: a.size }
}

/// Attaches a picked file under the id `id`. A local file is previewed
/// through the address the webview gives it (`local_preview`), a linked
/// one through its URL. Files given as raw bytes are not picked this way.
pub fn from_file_metadata(metadata: FileMetadata, id: String, local_preview: String) -> (a: Attachment)
    requires
        !(metadata.source is RawBytes),
    ensures
        a.id@ == id@,
        a.file_name == metadata.file_name,
        a.mime_type == metadata.mime_type,
        a.size == metadata.size,
        a.source == metadata.source,
        match metadata.source {
            AttachmentSource::LocalFile(_) => a.preview_url matches Some(p) && p@ == local_preview@,
            AttachmentSource::Url(u) => a.preview_url matches Some(p) && p@ == u@,
            AttachmentSource::RawBytes(_) => false,
        },
{
    let preview_url = match &metadata.source {
        AttachmentSource::LocalFile(_) => Some(local_preview),
        AttachmentSource::Url(u) => Some(u.clone()),
        AttachmentSource::RawBytes(_) => None,
    };
    Attachment {
        id,
        file_name: metadata.file_name,
        mime_type: metadata.mime_type,
        size: metadata.size,
        preview_url,
        source: metadata.source,
    }
}

/// Whether an attachment is previewed as an image.
pub fn is_image(a: &Attachment) -> (b: bool)
    ensures
        b == (a.mime_type@.len() >= 6 && a.mime_type@.take(6) == "image/"@),
{
    proof {
        reveal_strlit("image/");
    }
    str_starts_with(a.mime_type.as_str(), "image/")
}

/// What follows the last dot of a name, or `None` without a dot.
pub open spec fn extension(name: Seq<char>) -> Option<Seq<char>> {
    if exists|i: int| 0 <= i < name.len() && name[i] == '.' {
        let i = choose|i: int| 0 <= i < name.len() && name[i] == '.' && forall|j: int| i < j < name.len() ==> name[j] != '.';
        Some(name.skip(i + 1))
    } else {
        None
    }
}

/// The number of UTF-8 bytes of the first `k` characters.
pub open spec fn bytes_upto(s: Seq<char>, k: int) -> nat
    decreases k,
{
    if k <= 0 {
        0
    } else {
        bytes_upto(s, k - 1) + utf8_len(s[k - 1])
    }
}

/// The text cut to at most four bytes, which only a cut between two
/// characters allows.
pub open spec fn cut_to_four(s: Seq<char>) -> Option<Seq<char>> {
    if bytes_upto(s, s.len() as int) <= 4 {
        Some(s)
    } else if exists|k: int| 0 <= k <= s.len() && #[trigger] bytes_upto(s, k) == 4 {
        Some(s.take(choose|k: int| 0 <= k <= s.len() && #[trigger] bytes_upto(s, k) == 4))
    } else {
        None
    }
}

/// The badge text of a file that is not an image, before the cut: its
/// extension in capitals, or "FILE".
pub open spec fn badge_source(name: Seq<char>) -> Seq<char> {
    match extension(name) {
        Some(e) => std_uppercase(e),
        None => "FILE"@,
    }
}

proof fn lemma_bytes_monotone(s: Seq<char>, a: int, b: int)
    requires
        0 <= a <= b <= s.len(),
    ensures
        bytes_upto(s, a) <= bytes_upto(s, b),
        a < b ==> bytes_upto(s, a) < bytes_upto(s, b),
    decreases b,
{
    if a < b {
        lemma_bytes_monotone(s, a, b - 1);
    }
}

/// Cuts a text to at most four bytes, or gives `None` where the fourth byte
/// ends inside a character.
pub fn cut_four(s: &str) -> (r: Option<String>)
    ensures
        match r {
            Some(t) => cut_to_four(s@) == Some(t@),
            None => cut_to_four(s@) is None,
        },
{
    let cs = chars_of(s);
    let mut bytes: usize = 0;
    let mut k: usize = 0;
    while k < cs.len() && bytes < 4
        invariant
            cs@ == s@,
            k <= cs@.len(),
            bytes == bytes_upto(cs@, k as int),
            bytes <= 7,
            forall|j: int| 0 <= j < k ==> bytes_upto(cs@, j) < 4,
        decreases cs.len() - k,
    {
        let v = cs[k] as u32;
        let n: usize = if v < 0x80 {
            1
        } else if v < 0x800 {
            2
        } else if v < 0x10000 {
            3
        } else {
            4
        };
        bytes = bytes + n;
        k = k + 1;
    }
    proof {
        lemma_bytes_monotone(cs@, k as int, cs@.len() as int);
    }
    if k == cs.len() && bytes <= 4 {
        return Some(String::from_str(s));
    }
    if bytes != 4 {
        proof {
            assert(bytes > 4);
            assert forall|j: int| 0 <= j <= cs@.len() implies bytes_upto(cs@, j) != 4 by {
                if j < k {
                } else if j > k {
                    lemma_bytes_monotone(cs@, k as int, j);
                }
            }
        }
        return None;
    }
    let mut out: Vec<char> = Vec::new();
    let mut i: usize = 0;
    while i < k
        invariant
            k <= cs@.len(),
            i <= k,
            out@ == cs@.take(i as int),
        decreases k - i,
    {
        out.push(cs[i]);
        assert(out@ =~= cs@.take(i + 1));
        i = i + 1;
    }
    proof {
        lemma_bytes_monotone(cs@, k as int, cs@.len() as int);
        if k < cs@.len() {
            lemma_bytes_monotone(cs@, k as int, cs@.len() as int);
        }
        let w = choose|j: int| 0 <= j <= cs@.len() && #[trigger] bytes_upto(cs@, j) == 4;
        if w < k {
            assert(bytes_upto(cs@, w) < 4);
        } else if w > k {
            lemma_bytes_monotone(cs@, k as int, w);
        }
    }
    Some(string_from_chars(&out))
}

/// Finds what follows the last dot of a name.
pub fn file_extension(name: &str) -> (r: Option<String>)
    ensures
        match r {
            Some(e) => extension(name@) == Some(e@),
            None => extension(name@) is None,
        },
{
    let cs = chars_of(name);
    let mut i: usize = cs.len();
    while i > 0 && cs[i - 1] != '.'
        invariant
            cs@ == name@,
            i <= cs@.len(),
            forall|j: int| i <= j < cs@.len() ==> cs@[j] != '.',
        decreases i,
    {
        i = i - 1;
    }
    if i == 0 {
        return None;
    }
    proof {
        let d = (i - 1) as int;
        let w = choose|x: int| 0 <= x < name@.len() && name@[x] == '.' && forall|j: int| x < j < name@.len() ==> name@[j] != '.';
        if w < d {
            assert(name@[d] != '.');
        } else if w > d {
            assert(cs@[w] != '.');
        }
    }
    let mut out: Vec<char> = Vec::new();
    let mut k = i;
    while k < cs.len()
        invariant
            cs@ == name@,
            1 <= i <= k <= cs@.len(),
            out@ == cs@.subrange(i as int, k as int),
        decreases cs.len() - k,
    {
        out.push(cs[k]);
        assert(out@ =~= cs@.subrange(i as int, k + 1));
        k = k + 1;
    }
    assert(out@ =~= name@.skip(i as int));
    Some(string_from_chars(&out))
}

/// The badge of a file that is not an image: its extension in capitals,
/// or "FILE", cut to four bytes. The cut must fall between characters.
pub fn file_badge(name: &str) -> (badge: String)
    requires
        cut_to_four(badge_source(name@)) is Some,
    ensures
        cut_to_four(badge_source(name@)) == Some(badge@),
{
    match file_badge_checked(name) {
        Some(b) => b,
        None => String::new(),
    }
}

/// The badge of a file, or `None` where the cut to four bytes would fall
/// inside a character of the capitalised extension.
pub fn file_badge_checked(name: &str) -> (badge: Option<String>)
    ensures
        match badge {
            Some(b) => cut_to_four(badge_source(name@)) == Some(b@),
            None => cut_to_four(badge_source(name@)) is None,
        },
{
    let source = match file_extension(name) {
        Some(e) => uppercase(e.as_str()),
        None => String::from_str("FILE"),
    };
    cut_four(source.as_str())
}

/// The colour behind a file badge: red for PDF, yellow for archives, blue
/// for text and code, grey otherwise.
pub open spec fn badge_color_spec(badge: Seq<char>) -> Seq<char> {
    if badge == "PDF"@ {
        "#ED4245"@
    } else if badge == "ZIP"@ || badge == "RAR"@ || badge == "TAR"@ || badge == "GZ"@ {
        "#FEE75C"@
    } else if badge == "TXT"@ || badge == "MD"@ || badge == "RS"@ || badge == "CSS"@ {
        "#5865F2"@
    } else {
        "#4E5058"@
    }
}

pub fn badge_color(badge: &str) -> (c: String)
    ensures
        c@ == badge_color_spec(badge@),
{
    if str_eq(badge, "PDF") {
        String::from_str("#ED4245")
    } else if str_eq(badge, "ZIP") || str_eq(badge, "RAR") || str_eq(badge, "TAR") || str_eq(badge, "GZ") {
        String::from_str("#FEE75C")
    } else if str_eq(badge, "TXT") || str_eq(badge, "MD") || str_eq(badge, "RS") || str_eq(badge, "CSS") {
        String::from_str("#5865F2")
    } else {
        String::from_str("#4E5058")
    }
}

/// Removes the first attachment with the given id; nothing happens where
/// none has it.
pub fn remove_attachment(list: &mut Vec<Attachment>, id: &String)
    ensures
        (forall|i: int| 0 <= i < old(list)@.len() ==> old(list)@[i].id@ != id@) ==> final(list)@ == old(list)@,
        forall|p: int|
            0 <= p < old(list)@.len() && old(list)@[p].id@ == id@ && (forall|j: int| 0 <= j < p ==> old(list)@[j].id@ != id@)
                ==> final(list)@ == old(list)@.remove(p),
{
    let mut i: usize = 0;
    while i < list.len()
        invariant
            i <= list@.len(),
            list@ == old(list)@,
            forall|j: int| 0 <= j < i ==> list@[j].id@ != id@,
        decreases list.len() - i,
    {
        if list[i].id == *id {
            list.remove(i);
            return;
        }
        i = i + 1;
    }
}

/// The name a pasted image gets: "file." and the subtype of its media
/// type, or "png" where the type has no subtype.
pub open spec fn pasted_name_spec(mime: Seq<char>) -> Seq<char> {
    "file."@ + match first_index_of(mime, '/') {
        Some(i) => {
            let rest = mime.skip(i + 1);
            match first_index_of(rest, '/') {
                Some(j) => rest.take(j),
                None => rest,
            }
        },
        None => "png"@,
    }
}

pub fn pasted_file_name(mime: &str) -> (name: String)
    ensures
        name@ == pasted_name_spec(mime@),
{
    let cs = chars_of(mime);
    let mut name = String::from_str("file.");
    match find_char(&cs, '/') {
        Some(i) => {
            let n = cs.len();
            assert(i < n);
            let rest = vec_skip(&cs, i + 1);
            let part = match find_char(&rest, '/') {
                Some(j) => vec_take(&rest, j),
                None => rest,
            };
            let text = string_from_chars(&part);
            name.append(text.as_str());
        },
        None => name.append("png"),
    }
    name
}

fn vec_take(v: &Vec<char>, n: usize) -> (out: Vec<char>)
    requires
        n <= v@.len(),
    ensures
        out@ == v@.take(n as int),
{
    let mut out: Vec<char> = Vec::new();
    let mut i: usize = 0;
    while i < n
        invariant
            n <= v@.len(),
            i <= n,
            out@ == v@.take(i as int),
        decreases n - i,
    {
        out.push(v[i]);
        assert(out@ =~= v@.take(i + 1));
        i = i + 1;
    }
    out
}

} // verus!
