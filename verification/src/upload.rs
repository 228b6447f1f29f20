//! Taking in a batch of uploaded files.

use vstd::prelude::*;
use vstd::string::*;
use crate::cache::MimeCache;
use crate::detect::{detect, detected};
use crate::ident::{alphanumeric, generate, is_generated, IdError};
use crate::location::{
    lemma_address_is_one_line, lemma_generated_identifier_is_valid, path_of, public_url,
    storage_path, url_of, valid_identifier,
};
use crate::mime_type::MimeType;
use crate::text::{first_pos, is_first, lemma_first_unique};

verus! {

/// Why an upload request fails.
#[derive(Clone, Copy, Debug, PartialEq, Eq, Structural)]
pub enum UploadError {
    /// The request carries no file.
    NoFiles,
    /// No identifier could be made for a file.
    Identifier,
    /// A file could not be stored. The whole request fails and no address
    /// is handed out; files stored before it stay stored and cached.
    Persist,
}

/// What the client says of one uploaded file.
#[derive(Debug)]
pub struct FilePart {
    /// The content type the client declared, if any.
    pub declared: Option<MimeType>,
    /// The file name the client gave, if any.
    pub filename: Option<String>,
}

/// What is to be done with one uploaded file.
#[derive(Debug)]
pub struct FilePlan {
    /// The identifier the file gets.
    pub id: String,
    /// The type the detector chain gives it.
    pub mime: MimeType,
    /// The path at which its bytes are to be stored.
    pub path: String,
}

/// The texts of a sequence of strings.
pub open spec fn texts(v: Seq<String>) -> Seq<Seq<char>> {
    Seq::new(v.len(), |i: int| v[i]@)
}

/// The addresses of the uploads `ids`, in their order.
pub open spec fn urls_of(base: Seq<char>, ids: Seq<Seq<char>>) -> Seq<Seq<char>> {
    Seq::new(ids.len(), |i: int| url_of(base, ids[i]))
}

/// The response body: every address followed by a line feed.
pub open spec fn body_of(urls: Seq<Seq<char>>) -> Seq<char>
    decreases urls.len(),
{
    if urls.len() == 0 {
        Seq::empty()
    } else {
        urls.first() + seq!['\n'] + body_of(urls.drop_first())
    }
}

/// The lines of a text, each without the line feed that ends it. What
/// follows the last line feed is no line.
pub open spec fn lines_of(body: Seq<char>) -> Seq<Seq<char>>
    decreases body.len(),
{
    if body.contains('\n') {
        let i = first_pos(body, '\n');
        if 0 <= i < body.len() {
            seq![body.take(i)] + lines_of(body.skip(i + 1))
        } else {
            Seq::empty()
        }
    } else {
        Seq::empty()
    }
}

/// Adding an address to the list adds its line to the end of the body.
pub proof fn lemma_body_push(urls: Seq<Seq<char>>, url: Seq<char>)
    ensures
        body_of(urls.push(url)) == body_of(urls) + url + seq!['\n'],
    decreases urls.len(),
{
    let longer = urls.push(url);
    assert(longer.len() > 0);
    if urls.len() == 0 {
        assert(longer.first() == url);
        assert(longer.drop_first() =~= Seq::<Seq<char>>::empty());
        assert(body_of(longer.drop_first()) =~= Seq::<char>::empty());
        assert(body_of(urls) =~= Seq::<char>::empty());
        assert(body_of(longer) =~= body_of(urls) + url + seq!['\n']);
    } else {
        let tail = urls.drop_first();
        lemma_body_push(tail, url);
        assert(longer.first() == urls.first());
        assert(longer.drop_first() =~= tail.push(url));
        assert(body_of(longer) == urls.first() + seq!['\n'] + body_of(tail.push(url)));
        assert(body_of(urls) == urls.first() + seq!['\n'] + body_of(tail));
        assert(body_of(longer) =~= body_of(urls) + url + seq!['\n']);
    }
}

/// The response to N files holds exactly their N addresses, one per line and
/// in the order of the files, as long as no address holds a line feed.
pub proof fn lemma_body_lists_every_url(urls: Seq<Seq<char>>)
    requires
        forall|i: int| 0 <= i < urls.len() ==> !(#[trigger] urls[i]).contains('\n'),
    ensures
        lines_of(body_of(urls)) == urls,
        lines_of(body_of(urls)).len() == urls.len(),
    decreases urls.len(),
{
    if urls.len() == 0 {
        assert(lines_of(body_of(urls)) =~= urls);
    } else {
        let head = urls.first();
        let rest = urls.drop_first();
        let body = body_of(urls);
        let n = head.len() as int;
        assert(body =~= head + seq!['\n'] + body_of(rest));
        assert(body[n] == '\n');
        assert forall|j: int| 0 <= j < n implies body[j] != '\n' by {
            assert(body[j] == head[j]);
            if head[j] == '\n' {
                assert(head.contains('\n'));
            }
        }
        assert(is_first(body, '\n', n));
        lemma_first_unique(body, '\n', n);
        assert(body.take(n) =~= head);
        assert(body.skip(n + 1) =~= body_of(rest));
        assert forall|i: int| 0 <= i < rest.len() implies !(#[trigger] rest[i]).contains('\n') by {
            assert(rest[i] == urls[i + 1]);
        }
        lemma_body_lists_every_url(rest);
        assert(seq![head] + rest =~= urls);
    }
}

/// The response to N uploads holds exactly N lines, none of them empty: the
/// address of each upload, in the order of the uploads. This holds of
/// identifiers as the generator makes them and of a base without line feed.
pub proof fn lemma_response_lists_every_upload(base: Seq<char>, ids: Seq<Seq<char>>)
    requires
        !base.contains('\n'),
        forall|i: int| 0 <= i < ids.len() ==> alphanumeric(#[trigger] ids[i]),
    ensures
        lines_of(body_of(urls_of(base, ids))).len() == ids.len(),
        forall|i: int|
            0 <= i < ids.len() ==> (#[trigger] lines_of(body_of(urls_of(base, ids)))[i]) == url_of(
                base,
                ids[i],
            ) && lines_of(body_of(urls_of(base, ids)))[i].len() > 0,
{
    let urls = urls_of(base, ids);
    assert forall|i: int| 0 <= i < urls.len() implies !(#[trigger] urls[i]).contains('\n')
        && urls[i].len() > 0 by {
        lemma_address_is_one_line(base, ids[i]);
    }
    lemma_body_lists_every_url(urls);
}

/// One upload request while its files are taken in, one after the other.
pub struct UploadBatch {
    root: String,
    base: String,
    ids: Vec<String>,
    failed: bool,
}

impl UploadBatch {
    /// The upload directory.
    pub closed spec fn root(&self) -> Seq<char> {
        self.root@
    }

    /// The base of the addresses handed out.
    pub closed spec fn base(&self) -> Seq<char> {
        self.base@
    }

    /// The identifiers of the files taken in so far, in order.
    pub closed spec fn ids(&self) -> Seq<Seq<char>> {
        texts(self.ids@)
    }

    /// Whether storing a file has failed.
    pub closed spec fn failed(&self) -> bool {
        self.failed
    }

    /// Starts a request: no file is taken in yet.
    pub fn begin(root: &str, base: &str) -> (r: UploadBatch)
        ensures
            r.root() == root@,
            r.base() == base@,
            r.ids() == Seq::<Seq<char>>::empty(),
            !r.failed(),
    {
        let r = UploadBatch {
            root: String::from_str(root),
            base: String::from_str(base),
            ids: Vec::new(),
            failed: false,
        };
        assert(r.ids() =~= Seq::<Seq<char>>::empty());
        r
    }

    /// How many files are taken in so far.
    pub fn count(&self) -> (r: usize)
        ensures
            r == self.ids().len(),
    {
        self.ids.len()
    }

    /// Plans the file that is to go under the identifier `id`: its type
    /// comes from the detector chain, its path from the identifier.
    pub fn plan(&self, id: String, part: &FilePart, sniffed: Option<&MimeType>) -> (r: FilePlan)
        ensures
            r.id@ == id@,
            r.mime@ == detected(
                match part.declared { Some(d) => Some(d@), None => None },
                match part.filename { Some(f) => Some(f@), None => None },
                match sniffed { Some(s) => Some(s@), None => None },
            ),
            r.path@ == path_of(self.root(), id@),
    {
        let filename: Option<&str> = match &part.filename {
            Some(f) => Some(f.as_str()),
            None => None,
        };
        let mime = detect(part.declared.as_ref(), filename, sniffed);
        let path = storage_path(self.root.as_str(), id.as_str());
        FilePlan { id, mime, path }
    }

    /// Plans the next file of the request, received in the second `unix`:
    /// makes its identifier, then plans the file under it.
    pub fn plan_next(&self, unix: u64, part: &FilePart, sniffed: Option<&MimeType>) -> (r: Result<
        FilePlan,
        UploadError,
    >)
        ensures
            match r {
                Ok(p) => {
                    &&& alphanumeric(p.id@)
                    &&& valid_identifier(p.id@)
                    &&& exists|random: u64| is_generated(unix, random, Ok::<String, IdError>(p.id))
                    &&& p.mime@ == detected(
                        match part.declared { Some(d) => Some(d@), None => None },
                        match part.filename { Some(f) => Some(f@), None => None },
                        match sniffed { Some(s) => Some(s@), None => None },
                    )
                    &&& p.path@ == path_of(self.root(), p.id@)
                },
                Err(e) => {
                    &&& e == UploadError::Identifier
                    &&& exists|random: u64|
                        is_generated(
                            unix,
                            random,
                            Err::<String, IdError>(IdError::Exhausted),
                        )
                },
            },
    {
        match generate(unix) {
            Ok(id) => {
                let ghost made = id;
                let p = self.plan(id, part, sniffed);
                proof {
                    let random = choose|random: u64|
                        is_generated(unix, random, Ok::<String, IdError>(made));
                    assert(is_generated(unix, random, Ok::<String, IdError>(p.id)));
                    lemma_generated_identifier_is_valid(p.id@);
                }
                Ok(p)
            },
            Err(e) => Err(UploadError::Identifier),
        }
    }

    /// Records how storing a planned file went. Where it was stored, the
    /// file's type goes into the cache under its identifier and the
    /// identifier is added to the request. Where it was not, or where an
    /// earlier file of the request was not, the request has failed and
    /// nothing else changes.
    pub fn commit(&mut self, cache: &mut MimeCache, plan: FilePlan, persisted: bool) -> (r: Result<
        (),
        UploadError,
    >)
        ensures
            final(self).root() == old(self).root(),
            final(self).base() == old(self).base(),
            r is Ok <==> persisted && !old(self).failed(),
            r is Ok ==> {
                &&& !final(self).failed()
                &&& final(self).ids() == old(self).ids().push(plan.id@)
                &&& final(cache)@ == old(cache)@.insert(plan.id@, plan.mime@)
            },
            r is Err ==> {
                &&& r == Err::<(), UploadError>(UploadError::Persist)
                &&& final(self).failed()
                &&& final(self).ids() == old(self).ids()
                &&& final(cache)@ == old(cache)@
            },
    {
        if self.failed || !persisted {
            self.failed = true;
            return Err(UploadError::Persist);
        }
        let FilePlan { id, mime, path } = plan;
        cache.insert(id.clone(), mime);
        self.ids.push(id);
        assert(self.ids() =~= old(self).ids().push(plan.id@));
        Ok(())
    }

    /// Ends the request. Where every file was stored, and there was at
    /// least one, the answer is the response body: the address of each
    /// file, in the order of the files, each followed by a line feed. Its
    /// lines are those addresses, as long as none of them holds a line feed.
    pub fn finish(&self) -> (r: Result<String, UploadError>)
        ensures
            match r {
                Ok(body) => {
                    &&& !self.failed()
                    &&& self.ids().len() > 0
                    &&& body@ == body_of(urls_of(self.base(), self.ids()))
                    &&& (forall|i: int|
                        0 <= i < self.ids().len() ==> !(#[trigger] urls_of(
                            self.base(),
                            self.ids(),
                        )[i]).contains('\n')) ==> lines_of(body@) == urls_of(
                        self.base(),
                        self.ids(),
                    )
                },
                Err(e) => e == if self.failed() {
                    UploadError::Persist
                } else {
                    UploadError::NoFiles
                } && (self.failed() || self.ids().len() == 0),
            },
    {
        if self.failed {
            return Err(UploadError::Persist);
        }
        if self.ids.len() == 0 {
            return Err(UploadError::NoFiles);
        }
        let ghost urls = urls_of(self.base(), self.ids());
        let mut body = String::new();
        let mut i: usize = 0;
        while i < self.ids.len()
            invariant
                i <= self.ids.len(),
                urls == urls_of(self.base(), self.ids()),
                body@ == body_of(urls.take(i as int)),
            decreases self.ids.len() - i,
        {
            let url = public_url(self.base.as_str(), self.ids[i].as_str());
            proof {
                reveal_strlit("\n");
                assert("\n"@ =~= seq!['\n']);
                assert(url@ == urls[i as int]);
                lemma_body_push(urls.take(i as int), url@);
                assert(urls.take(i as int).push(url@) =~= urls.take(i + 1));
            }
            body.append(url.as_str());
            body.append("\n");
            i += 1;
        }
        assert(urls.take(self.ids.len() as int) =~= urls);
        proof {
            if forall|i: int| 0 <= i < urls.len() ==> !(#[trigger] urls[i]).contains('\n') {
                lemma_body_lists_every_url(urls);
            }
        }
        Ok(body)
    }
}

} // verus!
