//! Telling a file's type from its content: either by the signature its
//! leading bytes carry, or by reading the answer of a classifier such as
//! `file --mime-type`.

use vstd::prelude::*;
use vstd::string::*;
use vstd::utf8::{decode_utf8, encode_utf8, valid_utf8};
use crate::detect::{detect, detected};
use crate::mime_type::{parsed, text_plain, view_of, MimeType, MimeView};
use crate::text::{chars_of, find_first, first_pos};

verus! {

/// The signatures the sniffer knows: the leading bytes, and the type they
/// mark.
pub open spec fn signatures() -> Seq<(Seq<u8>, MimeView)> {
    seq![
        (seq![0x89u8, 0x50u8, 0x4eu8, 0x47u8, 0x0du8, 0x0au8, 0x1au8, 0x0au8], ("image"@, "png"@)),
        (seq![0xffu8, 0xd8u8, 0xffu8], ("image"@, "jpeg"@)),
        (seq![0x47u8, 0x49u8, 0x46u8, 0x38u8, 0x37u8, 0x61u8], ("image"@, "gif"@)),
        (seq![0x47u8, 0x49u8, 0x46u8, 0x38u8, 0x39u8, 0x61u8], ("image"@, "gif"@)),
        (seq![0x42u8, 0x4du8], ("image"@, "bmp"@)),
        (seq![0x25u8, 0x50u8, 0x44u8, 0x46u8, 0x2du8], ("application"@, "pdf"@)),
        (seq![0x50u8, 0x4bu8, 0x03u8, 0x04u8], ("application"@, "zip"@)),
        (seq![0x1fu8, 0x8bu8], ("application"@, "gzip"@)),
        (seq![0x00u8, 0x61u8, 0x73u8, 0x6du8], ("application"@, "wasm"@)),
        (seq![0x4fu8, 0x67u8, 0x67u8, 0x53u8], ("audio"@, "ogg"@)),
    ]
}

/// `data` begins with the bytes `sig`.
pub open spec fn starts_with(data: Seq<u8>, sig: Seq<u8>) -> bool {
    sig.len() <= data.len() && data.take(sig.len() as int) == sig
}

/// The signature at position `i` is the first that `data` begins with.
pub open spec fn first_signature(data: Seq<u8>, i: int) -> bool {
    &&& 0 <= i < signatures().len()
    &&& starts_with(data, signatures()[i].0)
    &&& forall|j: int| 0 <= j < i ==> !starts_with(data, #[trigger] signatures()[j].0)
}

/// The type that the leading bytes of a file mark: that of the first
/// signature they begin with, if there is one.
pub open spec fn by_signature(data: Seq<u8>) -> Option<MimeView> {
    if exists|i: int| first_signature(data, i) {
        Some(signatures()[choose|i: int| first_signature(data, i)].1)
    } else {
        None
    }
}

/// Why the classifier gave no type.
#[derive(Clone, Copy, Debug, PartialEq, Eq, Structural)]
pub enum SniffError {
    /// It ended unsuccessfully, with this exit code (0 where it had none).
    Exit(i32),
    /// It succeeded, but its output is not UTF-8.
    NotText,
}

/// The text before the first line feed, or all of it where there is none.
pub open spec fn first_line(text: Seq<char>) -> Seq<char> {
    if text.contains('\n') {
        text.take(first_pos(text, '\n'))
    } else {
        text
    }
}

/// What the classifier's answer means. A failed run is an error, and so is
/// output that is not UTF-8. Otherwise the first line of the output is read
/// as a MIME type, and taken for `text/plain` where it is none.
pub open spec fn sniff_outcome(success: bool, code: Option<i32>, stdout: Seq<u8>) -> Result<
    MimeView,
    SniffError,
> {
    if !success {
        Err(
            SniffError::Exit(
                match code {
                    Some(c) => c,
                    None => 0,
                },
            ),
        )
    } else if !valid_utf8(stdout) {
        Err(SniffError::NotText)
    } else {
        Ok(
            match parsed(first_line(decode_utf8(stdout))) {
                Some(t) => t,
                None => text_plain(),
            },
        )
    }
}

/// What a run of the classifier leaves for the detector chain: its type
/// where it gave one, and nothing where it failed.
pub open spec fn sniffed_of(success: bool, code: Option<i32>, stdout: Seq<u8>) -> Option<MimeView> {
    match sniff_outcome(success, code, stdout) {
        Ok(t) => Some(t),
        Err(_) => None,
    }
}

/// Calls `std::str::from_utf8`. Trusted: it succeeds exactly on valid UTF-8,
/// and the text it gives has the bytes it was given.
#[verifier::external_body]
fn utf8_text(bytes: &[u8]) -> (r: Option<&str>)
    ensures
        match r {
            Some(s) => valid_utf8(bytes@) && encode_utf8(s@) == bytes@,
            None => !valid_utf8(bytes@),
        },
{
    match std::str::from_utf8(bytes) {
        Ok(s) => Some(s),
        Err(_) => None,
    }
}

fn signature_table() -> (t: Vec<(Vec<u8>, &'static str, &'static str)>)
    ensures
        t@.len() == signatures().len(),
        forall|i: int|
            0 <= i < t@.len() ==> (#[trigger] t@[i]).0@ == signatures()[i].0 && (t@[i].1@, t@[i].2@)
                == signatures()[i].1,
{
    let mut t: Vec<(Vec<u8>, &'static str, &'static str)> = Vec::new();
    t.push((vec![0x89u8, 0x50u8, 0x4eu8, 0x47u8, 0x0du8, 0x0au8, 0x1au8, 0x0au8], "image", "png"));
    t.push((vec![0xffu8, 0xd8u8, 0xffu8], "image", "jpeg"));
    t.push((vec![0x47u8, 0x49u8, 0x46u8, 0x38u8, 0x37u8, 0x61u8], "image", "gif"));
    t.push((vec![0x47u8, 0x49u8, 0x46u8, 0x38u8, 0x39u8, 0x61u8], "image", "gif"));
    t.push((vec![0x42u8, 0x4du8], "image", "bmp"));
    t.push((vec![0x25u8, 0x50u8, 0x44u8, 0x46u8, 0x2du8], "application", "pdf"));
    t.push((vec![0x50u8, 0x4bu8, 0x03u8, 0x04u8], "application", "zip"));
    t.push((vec![0x1fu8, 0x8bu8], "application", "gzip"));
    t.push((vec![0x00u8, 0x61u8, 0x73u8, 0x6du8], "application", "wasm"));
    t.push((vec![0x4fu8, 0x67u8, 0x67u8, 0x53u8], "audio", "ogg"));
    proof {
        assert forall|i: int| 0 <= i < t@.len() implies (#[trigger] t@[i]).0@ == signatures()[i].0
            && (t@[i].1@, t@[i].2@) == signatures()[i].1 by {
            assert(t@[i].0@ =~= signatures()[i].0);
        }
    }
    t
}

/// Whether `data` begins with the bytes `sig`.
pub fn has_prefix(data: &[u8], sig: &Vec<u8>) -> (r: bool)
    ensures
        r == starts_with(data@, sig@),
{
    if sig.len() > data.len() {
        return false;
    }
    let mut k: usize = 0;
    while k < sig.len()
        invariant
            k <= sig.len(),
            sig.len() <= data.len(),
            forall|j: int| 0 <= j < k ==> data@[j] == sig@[j],
        decreases sig.len() - k,
    {
        if data[k] != sig[k] {
            assert(data@.take(sig@.len() as int)[k as int] == data@[k as int]);
            return false;
        }
        k += 1;
    }
    assert(data@.take(sig@.len() as int) =~= sig@);
    true
}

/// Tells a file's type by the signature its leading bytes carry. Content
/// that carries none of the known signatures is left undecided.
pub fn sniff_magic(data: &[u8]) -> (r: Option<MimeType>)
    ensures
        view_of(r) == by_signature(data@),
{
    let t = signature_table();
    let mut i: usize = 0;
    while i < t.len()
        invariant
            i <= t.len(),
            t@.len() == signatures().len(),
            forall|k: int|
                0 <= k < t@.len() ==> (#[trigger] t@[k]).0@ == signatures()[k].0 && (t@[k].1@,
                    t@[k].2@) == signatures()[k].1,
            forall|k: int| 0 <= k < i ==> !starts_with(data@, #[trigger] signatures()[k].0),
        decreases t.len() - i,
    {
        if has_prefix(data, &t[i].0) {
            proof {
                assert(first_signature(data@, i as int));
                let c = choose|c: int| first_signature(data@, c);
                assert(first_signature(data@, c));
                assert(c == i);
            }
            return Some(MimeType::new(t[i].1, t[i].2));
        }
        i += 1;
    }
    None
}

/// Runs the detector chain with the signature sniffer as its third step.
pub fn detect_content(declared: Option<&MimeType>, filename: Option<&str>, data: &[u8]) -> (r:
    MimeType)
    ensures
        r@ == detected(
            match declared { Some(d) => Some(d@), None => None },
            match filename { Some(f) => Some(f@), None => None },
            by_signature(data@),
        ),
{
    let sniffed = sniff_magic(data);
    detect(declared, filename, sniffed.as_ref())
}

/// Reads the first line of `text`.
pub fn line_of(text: &str) -> (r: &str)
    ensures
        r@ == first_line(text@),
{
    let chars = chars_of(text);
    match find_first(&chars, '\n') {
        Some(i) => {
            assert(text@.subrange(0, i as int) == text@.take(i as int));
            text.substring_char(0, i)
        },
        None => text,
    }
}

/// Reads the classifier's answer: whether it succeeded, its exit code and
/// what it wrote.
pub fn get_mime(success: bool, code: Option<i32>, stdout: &[u8]) -> (r: Result<
    MimeType,
    SniffError,
>)
    ensures
        match r {
            Ok(t) => sniff_outcome(success, code, stdout@) == Ok::<MimeView, SniffError>(t@),
            Err(e) => sniff_outcome(success, code, stdout@) == Err::<MimeView, SniffError>(e),
        },
{
    if !success {
        return Err(
            SniffError::Exit(
                match code {
                    Some(c) => c,
                    None => 0,
                },
            ),
        );
    }
    match utf8_text(stdout) {
        Some(text) => {
            proof {
                vstd::utf8::encode_utf8_decode_utf8(text@);
            }
            match MimeType::parse(line_of(text)) {
                Some(t) => Ok(t),
                None => Ok(MimeType::plain_text()),
            }
        },
        None => Err(SniffError::NotText),
    }
}

/// What a run of the classifier leaves for the detector chain. A run that
/// failed is no error here: the file then counts as not sniffed.
pub fn sniffed_type(success: bool, code: Option<i32>, stdout: &[u8]) -> (r: Option<MimeType>)
    ensures
        view_of(r) == sniffed_of(success, code, stdout@),
{
    match get_mime(success, code, stdout) {
        Ok(t) => Some(t),
        Err(_) => None,
    }
}

/// Runs the detector chain with the classifier's answer as its third step.
/// Where the classifier failed, the chain goes on to its default.
pub fn detect_classified(
    declared: Option<&MimeType>,
    filename: Option<&str>,
    success: bool,
    code: Option<i32>,
    stdout: &[u8],
) -> (r: MimeType)
    ensures
        r@ == detected(
            match declared { Some(d) => Some(d@), None => None },
            match filename { Some(f) => Some(f@), None => None },
            sniffed_of(success, code, stdout@),
        ),
{
    let sniffed = sniffed_type(success, code, stdout);
    detect(declared, filename, sniffed.as_ref())
}

} // verus!
