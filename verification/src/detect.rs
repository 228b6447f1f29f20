//! The detector: from what is known of a file to its MIME type.

use vstd::prelude::*;
use vstd::string::*;
use crate::mime_type::{octet_stream, text_plain, view_of, MimeType, MimeView};
use crate::text::{
    chars_of, find_last, first_pos, last_pos, lemma_first_unique, lower, lower_char, same_text,
    to_lower,
};

verus! {

/// The file extensions the detector knows, each with its type.
pub open spec fn extension_table() -> Seq<(Seq<char>, MimeView)> {
    seq![
        ("txt"@, ("text"@, "plain"@)),
        ("html"@, ("text"@, "html"@)),
        ("htm"@, ("text"@, "html"@)),
        ("css"@, ("text"@, "css"@)),
        ("csv"@, ("text"@, "csv"@)),
        ("md"@, ("text"@, "markdown"@)),
        ("js"@, ("text"@, "javascript"@)),
        ("json"@, ("application"@, "json"@)),
        ("xml"@, ("application"@, "xml"@)),
        ("pdf"@, ("application"@, "pdf"@)),
        ("zip"@, ("application"@, "zip"@)),
        ("gz"@, ("application"@, "gzip"@)),
        ("tar"@, ("application"@, "x-tar"@)),
        ("wasm"@, ("application"@, "wasm"@)),
        ("png"@, ("image"@, "png"@)),
        ("jpg"@, ("image"@, "jpeg"@)),
        ("jpeg"@, ("image"@, "jpeg"@)),
        ("gif"@, ("image"@, "gif"@)),
        ("webp"@, ("image"@, "webp"@)),
        ("bmp"@, ("image"@, "bmp"@)),
        ("svg"@, ("image"@, "svg+xml"@)),
        ("mp3"@, ("audio"@, "mpeg"@)),
        ("wav"@, ("audio"@, "wav"@)),
        ("ogg"@, ("audio"@, "ogg"@)),
        ("mp4"@, ("video"@, "mp4"@)),
        ("webm"@, ("video"@, "webm"@)),
    ]
}

/// The extensions of the table, in its order.
pub open spec fn known_extensions() -> Seq<Seq<char>> {
    Seq::new(extension_table().len(), |i: int| extension_table()[i].0)
}

/// The type the table gives an extension (already in lower case).
pub open spec fn by_extension(ext: Seq<char>) -> Option<MimeView> {
    if known_extensions().contains(ext) {
        Some(extension_table()[first_pos(known_extensions(), ext)].1)
    } else {
        None
    }
}

/// The extension of a file name, in lower case: what follows the last dot,
/// unless the name starts or ends with that dot.
pub open spec fn extension_of(name: Seq<char>) -> Option<Seq<char>> {
    if name.contains('.') {
        let i = last_pos(name, '.');
        if 0 < i && i + 1 < name.len() {
            Some(lower(name.skip(i + 1)))
        } else {
            None
        }
    } else {
        None
    }
}

/// The type a file name stands for by its extension.
pub open spec fn by_filename(name: Seq<char>) -> Option<MimeView> {
    match extension_of(name) {
        Some(ext) => by_extension(ext),
        None => None,
    }
}

/// The first two steps of the chain: a declared type that is not the
/// placeholder is trusted; else a known extension of the file name decides.
pub open spec fn without_sniffing(
    declared: Option<MimeView>,
    filename: Option<Seq<char>>,
) -> Option<MimeView> {
    if declared is Some && declared->0 != octet_stream() {
        declared
    } else if filename is Some {
        by_filename(filename->0)
    } else {
        None
    }
}

/// The whole chain: declared type, extension, sniffed type, `text/plain`.
pub open spec fn detected(
    declared: Option<MimeView>,
    filename: Option<Seq<char>>,
    sniffed: Option<MimeView>,
) -> MimeView {
    match without_sniffing(declared, filename) {
        Some(t) => t,
        None => match sniffed {
            Some(t) => t,
            None => text_plain(),
        },
    }
}

fn table() -> (t: Vec<(&'static str, &'static str, &'static str)>)
    ensures
        t@.len() == extension_table().len(),
        forall|i: int|
            0 <= i < t@.len() ==> (#[trigger] t@[i]).0@ == extension_table()[i].0 && (t@[i].1@,
                t@[i].2@) == extension_table()[i].1,
{
    let mut t: Vec<(&'static str, &'static str, &'static str)> = Vec::new();
    t.push(("txt", "text", "plain"));
    t.push(("html", "text", "html"));
    t.push(("htm", "text", "html"));
    t.push(("css", "text", "css"));
    t.push(("csv", "text", "csv"));
    t.push(("md", "text", "markdown"));
    t.push(("js", "text", "javascript"));
    t.push(("json", "application", "json"));
    t.push(("xml", "application", "xml"));
    t.push(("pdf", "application", "pdf"));
    t.push(("zip", "application", "zip"));
    t.push(("gz", "application", "gzip"));
    t.push(("tar", "application", "x-tar"));
    t.push(("wasm", "application", "wasm"));
    t.push(("png", "image", "png"));
    t.push(("jpg", "image", "jpeg"));
    t.push(("jpeg", "image", "jpeg"));
    t.push(("gif", "image", "gif"));
    t.push(("webp", "image", "webp"));
    t.push(("bmp", "image", "bmp"));
    t.push(("svg", "image", "svg+xml"));
    t.push(("mp3", "audio", "mpeg"));
    t.push(("wav", "audio", "wav"));
    t.push(("ogg", "audio", "ogg"));
    t.push(("mp4", "video", "mp4"));
    t.push(("webm", "video", "webm"));
    t
}

/// Looks an extension (already in lower case) up in the table.
pub fn type_by_extension(ext: &Vec<char>) -> (r: Option<MimeType>)
    ensures
        view_of(r) == by_extension(ext@),
{
    let t = table();
    let ghost keys = known_extensions();
    let mut i: usize = 0;
    while i < t.len()
        invariant
            i <= t.len(),
            keys == known_extensions(),
            t@.len() == extension_table().len(),
            forall|k: int|
                0 <= k < t@.len() ==> (#[trigger] t@[k]).0@ == extension_table()[k].0 && (
                t@[k].1@, t@[k].2@) == extension_table()[k].1,
            forall|k: int| 0 <= k < i ==> keys[k] != ext@,
        decreases t.len() - i,
    {
        let entry = t[i];
        let key = chars_of(entry.0);
        if same_text(&key, ext) {
            proof {
                assert(keys[i as int] == ext@);
                lemma_first_unique(keys, ext@, i as int);
            }
            return Some(MimeType::new(entry.1, entry.2));
        }
        i += 1;
    }
    assert(!keys.contains(ext@));
    None
}

/// The type a file name stands for by its extension, if the table knows it.
pub fn type_by_filename(name: &str) -> (r: Option<MimeType>)
    ensures
        view_of(r) == by_filename(name@),
{
    let chars = chars_of(name);
    match find_last(&chars, '.') {
        Some(dot) => {
            assert(dot < chars.len());
            if 0 < dot && dot + 1 < chars.len() {
                let mut ext: Vec<char> = Vec::new();
                let mut i: usize = dot + 1;
                while i < chars.len()
                    invariant
                        dot + 1 <= i <= chars.len(),
                        ext@.len() == i - (dot + 1),
                        forall|k: int|
                            0 <= k < ext@.len() ==> ext@[k] == lower_char(chars@[dot + 1 + k]),
                    decreases chars.len() - i,
                {
                    ext.push(to_lower(chars[i]));
                    i += 1;
                }
                assert(ext@ =~= lower(name@.skip(dot + 1)));
                type_by_extension(&ext)
            } else {
                None
            }
        },
        None => None,
    }
}

/// Whether the first two steps of the chain leave the type open, so that
/// the content has to be looked at.
pub fn needs_sniffing(declared: Option<&MimeType>, filename: Option<&str>) -> (r: bool)
    ensures
        r == (without_sniffing(
            match declared { Some(d) => Some(d@), None => None },
            match filename { Some(f) => Some(f@), None => None },
        ) is None),
{
    early_type(declared, filename).is_none()
}

fn early_type(declared: Option<&MimeType>, filename: Option<&str>) -> (r: Option<MimeType>)
    ensures
        view_of(r) == without_sniffing(
            match declared { Some(d) => Some(d@), None => None },
            match filename { Some(f) => Some(f@), None => None },
        ),
{
    if let Some(d) = declared {
        if !d.is_octet_stream() {
            return Some(d.duplicate());
        }
    }
    match filename {
        Some(f) => type_by_filename(f),
        None => None,
    }
}

/// Runs the detector chain. It always answers: a declared type other than
/// `application/octet-stream` wins; else a known extension of the file
/// name; else the sniffed type; else `text/plain`.
pub fn detect(
    declared: Option<&MimeType>,
    filename: Option<&str>,
    sniffed: Option<&MimeType>,
) -> (r: MimeType)
    ensures
        r@ == detected(
            match declared { Some(d) => Some(d@), None => None },
            match filename { Some(f) => Some(f@), None => None },
            match sniffed { Some(s) => Some(s@), None => None },
        ),
{
    match early_type(declared, filename) {
        Some(t) => t,
        None => match sniffed {
            Some(s) => s.duplicate(),
            None => MimeType::plain_text(),
        },
    }
}

} // verus!
