//! Serving a stored file: which type it is sent with, and whether a
//! human-friendly presentation is wanted.

use vstd::prelude::*;
use vstd::string::*;
use crate::cache::{lookup, MimeCache};
use crate::detect::{by_filename, type_by_filename};
use crate::location::{is_valid_identifier, path_of, storage_path, valid_identifier};
use crate::mime_type::{view_of, MimeType, MimeView};
use crate::text::{chars_of, contains, occurs_in};

verus! {

/// Why a file is not served.
#[derive(Clone, Copy, Debug, PartialEq, Eq, Structural)]
pub enum ServeError {
    /// The identifier cannot name an upload.
    Malformed,
    /// No file is stored under the identifier.
    NotFound,
}

/// How a stored file is sent back.
#[derive(Debug)]
pub struct Served {
    /// The path of the file to stream.
    pub path: String,
    /// The content type to send it with.
    pub mime: MimeType,
    /// Whether a human-friendly presentation is wanted.
    pub pretty: bool,
    /// Whether the content is to be shown in place rather than downloaded.
    pub inline: bool,
}

/// What marks the client-identity string of a command-line client.
pub open spec fn cli_markers() -> Seq<Seq<char>> {
    seq!["wget"@, "curl"@, "fetch"@, "powershell"@, "ansible-httpget"@]
}

/// A client-identity string is that of a command-line client if one of the
/// markers occurs in it.
pub open spec fn is_cli(agent: Seq<char>) -> bool {
    exists|k: int| 0 <= k < cli_markers().len() && occurs_in(agent, #[trigger] cli_markers()[k])
}

/// The pretty flag: set for text sent to a client that says who it is and
/// is no command-line client.
pub open spec fn pretty_for(mime: MimeView, agent: Option<Seq<char>>) -> bool {
    mime.0 == "text"@ && agent is Some && !is_cli(agent->0)
}

/// The type that the rest of the request path asks for: where it is a slash
/// and a file name with a known extension, that extension's type.
pub open spec fn override_of(rest: Seq<char>) -> Option<MimeView> {
    if rest.len() > 0 && rest[0] == '/' {
        by_filename(rest.skip(1))
    } else {
        None
    }
}

/// The type a file is served with: the one the request path asks for, else
/// the cached one, else `text/plain`.
pub open spec fn resolved(cache: Map<Seq<char>, MimeView>, id: Seq<char>, rest: Seq<char>)
    -> MimeView {
    match override_of(rest) {
        Some(t) => t,
        None => lookup(cache, id),
    }
}

/// For text, a marker in the client-identity string switches the pretty
/// flag off, and a client-identity string without any marker switches it on.
pub proof fn lemma_pretty_follows_markers(mime: MimeView, agent: Seq<char>)
    requires
        mime.0 == "text"@,
    ensures
        (exists|k: int| 0 <= k < cli_markers().len() && occurs_in(agent, #[trigger] cli_markers()[k]))
            ==> !pretty_for(mime, Some(agent)),
        (forall|k: int| 0 <= k < cli_markers().len() ==> !occurs_in(agent, #[trigger] cli_markers()[k]))
            ==> pretty_for(mime, Some(agent)),
{
}

fn markers() -> (m: Vec<&'static str>)
    ensures
        m@.len() == cli_markers().len(),
        forall|k: int| 0 <= k < m@.len() ==> (#[trigger] m@[k])@ == cli_markers()[k],
{
    let mut m: Vec<&'static str> = Vec::new();
    m.push("wget");
    m.push("curl");
    m.push("fetch");
    m.push("powershell");
    m.push("ansible-httpget");
    m
}

/// Whether a client-identity string is that of a command-line client.
pub fn is_cli_agent(agent: &str) -> (r: bool)
    ensures
        r == is_cli(agent@),
{
    let hay = chars_of(agent);
    let m = markers();
    let mut k: usize = 0;
    while k < m.len()
        invariant
            k <= m.len(),
            hay@ == agent@,
            m@.len() == cli_markers().len(),
            forall|j: int| 0 <= j < m@.len() ==> (#[trigger] m@[j])@ == cli_markers()[j],
            forall|j: int| 0 <= j < k ==> !occurs_in(agent@, #[trigger] cli_markers()[j]),
        decreases m.len() - k,
    {
        let needle = chars_of(m[k]);
        assert(needle@ == cli_markers()[k as int]);
        if contains(&hay, &needle) {
            return true;
        }
        k += 1;
    }
    false
}

/// The pretty flag for a file of type `mime` asked for by `agent`.
pub fn pretty(mime: &MimeType, agent: Option<&str>) -> (r: bool)
    ensures
        r == pretty_for(mime@, match agent { Some(a) => Some(a@), None => None }),
{
    if !mime.is_text() {
        return false;
    }
    match agent {
        Some(a) => !is_cli_agent(a),
        None => false,
    }
}

/// The type that the rest of a request path asks for, if any.
pub fn type_override(rest: &str) -> (r: Option<MimeType>)
    ensures
        view_of(r) == override_of(rest@),
{
    let n = rest.unicode_len();
    if n > 0 && rest.get_char(0) == '/' {
        assert(rest@.subrange(1, n as int) == rest@.skip(1));
        type_by_filename(rest.substring_char(1, n))
    } else {
        None
    }
}

/// Hands a file over for sending: shown in place, with the given type.
pub fn render_file(path: String, mime: MimeType, pretty: bool) -> (r: Served)
    ensures
        r.path@ == path@,
        r.mime@ == mime@,
        r.pretty == pretty,
        r.inline,
{
    Served { path, mime, pretty, inline: true }
}

/// The raw variant: the file is sent as it is, with the cached type, to
/// whoever asks. `present` says whether a file is stored at the
/// identifier's path.
pub fn serve_raw(cache: &MimeCache, root: &str, id: &str, present: bool) -> (r: Result<
    Served,
    ServeError,
>)
    ensures
        r is Ok <==> valid_identifier(id@) && present,
        r matches Ok(s) ==> {
            &&& s.path@ == path_of(root@, id@)
            &&& s.mime@ == lookup(cache@, id@)
            &&& !s.pretty
            &&& s.inline
        },
        r matches Err(e) ==> e == if valid_identifier(id@) {
            ServeError::NotFound
        } else {
            ServeError::Malformed
        },
{
    if !is_valid_identifier(id) {
        return Err(ServeError::Malformed);
    }
    if !present {
        return Err(ServeError::NotFound);
    }
    Ok(render_file(storage_path(root, id), cache.get(id), false))
}

/// The rich variant: as the raw one, but the rest of the request path may
/// name the type, and the pretty flag says whether the client is taken for
/// a person reading text.
pub fn serve_rich(
    cache: &MimeCache,
    root: &str,
    id: &str,
    rest: &str,
    agent: Option<&str>,
    present: bool,
) -> (r: Result<Served, ServeError>)
    ensures
        r is Ok <==> valid_identifier(id@) && present,
        r matches Ok(s) ==> {
            &&& s.path@ == path_of(root@, id@)
            &&& s.mime@ == resolved(cache@, id@, rest@)
            &&& s.pretty == pretty_for(s.mime@, match agent { Some(a) => Some(a@), None => None })
            &&& s.inline
        },
        r matches Err(e) ==> e == if valid_identifier(id@) {
            ServeError::NotFound
        } else {
            ServeError::Malformed
        },
{
    if !is_valid_identifier(id) {
        return Err(ServeError::Malformed);
    }
    if !present {
        return Err(ServeError::NotFound);
    }
    let mime = match type_override(rest) {
        Some(t) => t,
        None => cache.get(id),
    };
    let flag = pretty(&mime, agent);
    Ok(render_file(storage_path(root, id), mime, flag))
}

} // verus!
