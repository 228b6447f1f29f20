//! MIME types as a pair of top-level type and subtype.

use vstd::prelude::*;
use vstd::string::*;
use crate::text::{chars_of, find_first, first_pos, is_first, lemma_first_unique};

verus! {

/// What a MIME type is in contracts: its top-level type and its subtype.
pub type MimeView = (Seq<char>, Seq<char>);

/// A MIME type such as `text/plain`.
///
/// Parameters (`; charset=...`) are not part of it. A structured-syntax
/// suffix stays with the subtype: `image/svg+xml` has the subtype `svg+xml`.
#[derive(Debug)]
pub struct MimeType {
    top: String,
    sub: String,
}

impl View for MimeType {
    type V = MimeView;

    closed spec fn view(&self) -> MimeView {
        (self.top@, self.sub@)
    }
}

/// `text/plain`, the type of everything nothing better is known about.
pub open spec fn text_plain() -> MimeView {
    ("text"@, "plain"@)
}

/// `application/octet-stream`, the placeholder a client sends when it does
/// not know the type.
pub open spec fn octet_stream() -> MimeView {
    ("application"@, "octet-stream"@)
}

/// The view of an optional MIME type.
pub open spec fn view_of(m: Option<MimeType>) -> Option<MimeView> {
    match m {
        Some(t) => Some(t@),
        None => None,
    }
}

/// The text `top/sub` of a MIME type.
pub open spec fn essence_of(m: MimeView) -> Seq<char> {
    m.0 + seq!['/'] + m.1
}

/// Splits `top/sub` at its first slash; a text without a slash is no type.
pub open spec fn split_essence(e: Seq<char>) -> Option<MimeView> {
    if e.contains('/') {
        let i = first_pos(e, '/');
        Some((e.take(i), e.skip(i + 1)))
    } else {
        None
    }
}

/// Writing a type out as `top/sub` and reading that back gives the same
/// type, as long as its top-level type holds no slash.
pub proof fn lemma_essence_round_trip(m: MimeView)
    requires
        !m.0.contains('/'),
    ensures
        split_essence(essence_of(m)) == Some(m),
{
    let e = essence_of(m);
    let n = m.0.len() as int;
    assert(e[n] == '/');
    assert forall|j: int| 0 <= j < n implies e[j] != '/' by {
        assert(e[j] == m.0[j]);
        if m.0[j] == '/' {
            assert(m.0.contains('/'));
        }
    }
    assert(is_first(e, '/', n));
    lemma_first_unique(e, '/', n);
    assert(e.take(n) =~= m.0);
    assert(e.skip(n + 1) =~= m.1);
}

/// The essence (lower-cased `type/subtype`, without parameters) that the
/// `mime` crate reads out of a text, or `None` where it rejects the text.
pub uninterp spec fn mime_essence(s: Seq<char>) -> Option<Seq<char>>;

/// What parsing a text as a MIME type gives.
pub open spec fn parsed(s: Seq<char>) -> Option<MimeView> {
    match mime_essence(s) {
        Some(e) => split_essence(e),
        None => None,
    }
}

/// Parses `s` with `mime::Mime`'s `FromStr` and, where that succeeds, reads
/// the result's `essence_str`. Trusted: the outcome depends on the text alone
/// and is what `mime_essence` names.
#[verifier::external_body]
fn parse_essence(s: &str) -> (r: Option<String>)
    ensures
        match r {
            Some(e) => mime_essence(s@) == Some(e@),
            None => mime_essence(s@) is None,
        },
{
    match s.parse::<mime::Mime>() {
        Ok(m) => Some(m.essence_str().to_string()),
        Err(_) => None,
    }
}

impl MimeType {
    /// `text/plain`.
    pub fn plain_text() -> (r: MimeType)
        ensures
            r@ == text_plain(),
    {
        MimeType { top: String::from_str("text"), sub: String::from_str("plain") }
    }

    /// Builds the type `top/sub` from its two halves.
    pub fn new(top: &str, sub: &str) -> (r: MimeType)
        ensures
            r@ == (top@, sub@),
    {
        MimeType { top: String::from_str(top), sub: String::from_str(sub) }
    }

    /// Reads a type out of `top/sub`: everything before the first slash is
    /// the top-level type, everything after it the subtype.
    pub fn from_essence(e: &str) -> (r: Option<MimeType>)
        ensures
            view_of(r) == split_essence(e@),
    {
        let chars = chars_of(e);
        match find_first(&chars, '/') {
            Some(i) => {
                assert(i < chars.len());
                let top = e.substring_char(0, i);
                let sub = e.substring_char(i + 1, chars.len());
                assert(e@.subrange(0, i as int) == e@.take(i as int));
                assert(e@.subrange(i + 1, e@.len() as int) == e@.skip(i + 1));
                Some(MimeType { top: String::from_str(top), sub: String::from_str(sub) })
            },
            None => None,
        }
    }

    /// Parses a MIME type as the `mime` crate does. Letter case is folded and
    /// parameters are dropped.
    pub fn parse(s: &str) -> (r: Option<MimeType>)
        ensures
            view_of(r) == parsed(s@),
    {
        match parse_essence(s) {
            Some(e) => MimeType::from_essence(e.as_str()),
            None => None,
        }
    }

    /// The top-level type, such as `text`.
    pub fn top(&self) -> (r: &str)
        ensures
            r@ == self@.0,
    {
        self.top.as_str()
    }

    /// The subtype, such as `plain`.
    pub fn sub(&self) -> (r: &str)
        ensures
            r@ == self@.1,
    {
        self.sub.as_str()
    }

    /// The text `top/sub`.
    pub fn essence(&self) -> (r: String)
        ensures
            r@ == essence_of(self@),
    {
        let mut r = self.top.clone();
        r.append("/");
        r.append(self.sub.as_str());
        proof {
            reveal_strlit("/");
            assert("/"@ =~= seq!['/']);
        }
        r
    }

    /// A copy of this type.
    pub fn duplicate(&self) -> (r: MimeType)
        ensures
            r@ == self@,
    {
        MimeType { top: self.top.clone(), sub: self.sub.clone() }
    }

    /// Whether two types have the same top-level type and subtype.
    pub fn same_as(&self, other: &MimeType) -> (r: bool)
        ensures
            r == (self@ == other@),
    {
        self.top == other.top && self.sub == other.sub
    }

    /// Whether the top-level type is `text`.
    pub fn is_text(&self) -> (r: bool)
        ensures
            r == (self@.0 == "text"@),
    {
        let text = String::from_str("text");
        self.top == text
    }

    /// Whether this is the placeholder `application/octet-stream`.
    pub fn is_octet_stream(&self) -> (r: bool)
        ensures
            r == (self@ == octet_stream()),
    {
        let top = String::from_str("application");
        let sub = String::from_str("octet-stream");
        self.top == top && self.sub == sub
    }
}

} // verus!
