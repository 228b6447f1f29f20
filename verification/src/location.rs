//! Where a file is kept and under which address it is handed out.

use vstd::prelude::*;
use vstd::string::*;
use crate::ident::{alphanumeric, in_alphabet};
use crate::text::{chars_of, find_first};

verus! {

/// Two texts with a slash between them.
pub open spec fn joined(left: Seq<char>, right: Seq<char>) -> Seq<char> {
    left + seq!['/'] + right
}

/// The path of the file that holds the upload `id` below the directory
/// `root`.
pub open spec fn path_of(root: Seq<char>, id: Seq<char>) -> Seq<char> {
    joined(root, id)
}

/// The address under which the upload `id` is handed out.
pub open spec fn url_of(base: Seq<char>, id: Seq<char>) -> Seq<char> {
    joined(base, id)
}

/// An identifier names a file directly inside the upload directory: it is
/// not empty and holds no slash.
pub open spec fn valid_identifier(id: Seq<char>) -> bool {
    id.len() > 0 && !id.contains('/')
}

/// An identifier as the generator makes it can name an upload, and holds no
/// line feed.
pub proof fn lemma_generated_identifier_is_valid(id: Seq<char>)
    requires
        alphanumeric(id),
    ensures
        valid_identifier(id),
        !id.contains('\n'),
{
    if id.contains('/') {
        let i = choose|i: int| 0 <= i < id.len() && id[i] == '/';
        assert(in_alphabet(id[i]));
    }
    if id.contains('\n') {
        let i = choose|i: int| 0 <= i < id.len() && id[i] == '\n';
        assert(in_alphabet(id[i]));
    }
}

/// The address of an identifier as the generator makes it is a single
/// line, as long as the base holds no line feed.
pub proof fn lemma_address_is_one_line(base: Seq<char>, id: Seq<char>)
    requires
        !base.contains('\n'),
        alphanumeric(id),
    ensures
        !url_of(base, id).contains('\n'),
        url_of(base, id).len() > 0,
{
    lemma_generated_identifier_is_valid(id);
    let url = url_of(base, id);
    if url.contains('\n') {
        let i = choose|i: int| 0 <= i < url.len() && url[i] == '\n';
        if i < base.len() {
            assert(base[i] == '\n');
            assert(base.contains('\n'));
        } else if i > base.len() {
            assert(id[i - base.len() - 1] == '\n');
            assert(id.contains('\n'));
        }
    }
}

fn join(left: &str, right: &str) -> (r: String)
    ensures
        r@ == joined(left@, right@),
{
    let mut r = String::from_str(left);
    r.append("/");
    r.append(right);
    proof {
        reveal_strlit("/");
        assert("/"@ =~= seq!['/']);
    }
    r
}

/// The path of the file that holds the upload `id`.
pub fn storage_path(root: &str, id: &str) -> (r: String)
    ensures
        r@ == path_of(root@, id@),
{
    join(root, id)
}

/// The address under which the upload `id` is handed out.
pub fn public_url(base: &str, id: &str) -> (r: String)
    ensures
        r@ == url_of(base@, id@),
{
    join(base, id)
}

/// Whether `id` can name an upload.
pub fn is_valid_identifier(id: &str) -> (r: bool)
    ensures
        r == valid_identifier(id@),
{
    let chars = chars_of(id);
    chars.len() > 0 && find_first(&chars, '/').is_none()
}

} // verus!
