//! The cache of MIME types, keyed by identifier.

use vstd::prelude::*;
use vstd::string::*;
use vstd::hash_map::StringHashMap;
use crate::detect::{detect, detected, needs_sniffing, without_sniffing};
use crate::mime_type::{text_plain, MimeType, MimeView};

verus! {

/// Identifier to MIME type. Entries are added or overwritten, never removed.
pub struct MimeCache {
    inner: StringHashMap<MimeType>,
}

impl View for MimeCache {
    type V = Map<Seq<char>, MimeView>;

    closed spec fn view(&self) -> Map<Seq<char>, MimeView> {
        self.inner@.map_values(|m: MimeType| m@)
    }
}

/// What a lookup gives: the cached type, or `text/plain` where the
/// identifier has no entry.
pub open spec fn lookup(m: Map<Seq<char>, MimeView>, id: Seq<char>) -> MimeView {
    if m.contains_key(id) {
        m[id]
    } else {
        text_plain()
    }
}

/// After an insert, a lookup of the same identifier gives the inserted
/// type, and a lookup of any other identifier gives what it gave before.
pub proof fn lemma_insert_then_lookup(
    m: Map<Seq<char>, MimeView>,
    id: Seq<char>,
    mime: MimeView,
    other: Seq<char>,
)
    ensures
        lookup(m.insert(id, mime), id) == mime,
        other != id ==> lookup(m.insert(id, mime), other) == lookup(m, other),
{
}

/// One entry of the upload directory, as found when the service starts.
pub struct ScanEntry {
    /// The entry's file name.
    pub name: String,
    /// Whether it is a regular file.
    pub regular: bool,
    /// What sniffing its content gave, if it was sniffed and that succeeded.
    pub sniffed: Option<MimeType>,
}

/// The type under which a directory entry goes into the cache: none for
/// what is no regular file, nor for a file of which neither its name nor
/// its content tells the type.
pub open spec fn scanned_type(e: ScanEntry) -> Option<MimeView> {
    if !e.regular {
        None
    } else {
        match without_sniffing(None, Some(e.name@)) {
            Some(t) => Some(t),
            None => match e.sniffed {
                Some(t) => Some(t@),
                None => None,
            },
        }
    }
}

/// The cache that a scan of these entries, in this order, builds.
pub open spec fn scan_map(entries: Seq<ScanEntry>) -> Map<Seq<char>, MimeView>
    decreases entries.len(),
{
    if entries.len() == 0 {
        Map::empty()
    } else {
        let before = scan_map(entries.drop_last());
        match scanned_type(entries.last()) {
            Some(t) => before.insert(entries.last().name@, t),
            None => before,
        }
    }
}

/// After a scan, looking up a regular file's name gives the type the
/// detector chain gives that file, provided no other entry has the same
/// name.
pub proof fn lemma_scan_serves_detected(entries: Seq<ScanEntry>, i: int)
    requires
        0 <= i < entries.len(),
        entries[i].regular,
        forall|j: int| 0 <= j < entries.len() && j != i ==> entries[j].name@ != entries[i].name@,
    ensures
        lookup(scan_map(entries), entries[i].name@) == detected(
            None,
            Some(entries[i].name@),
            match entries[i].sniffed {
                Some(t) => Some(t@),
                None => None,
            },
        ),
    decreases entries.len(),
{
    let name = entries[i].name@;
    let before = entries.drop_last();
    if i == entries.len() - 1 {
        lemma_scan_keys(before, name);
        if scan_map(before).contains_key(name) {
            let j = choose|j: int|
                0 <= j < before.len() && #[trigger] before[j].name@ == name && before[j].regular;
            assert(entries[j].name@ == name);
        }
    } else {
        assert(before[i] == entries[i]);
        assert forall|j: int| 0 <= j < before.len() && j != i implies before[j].name@
            != before[i].name@ by {
            assert(before[j] == entries[j]);
        }
        lemma_scan_serves_detected(before, i);
    }
}

/// A scan makes entries only under names it has seen.
pub proof fn lemma_scan_keys(entries: Seq<ScanEntry>, name: Seq<char>)
    ensures
        scan_map(entries).contains_key(name) ==> exists|j: int|
            0 <= j < entries.len() && #[trigger] entries[j].name@ == name && entries[j].regular,
    decreases entries.len(),
{
    if entries.len() > 0 {
        lemma_scan_keys(entries.drop_last(), name);
        if scan_map(entries).contains_key(name) {
            if scan_map(entries.drop_last()).contains_key(name) {
                let j = choose|j: int|
                    0 <= j < entries.drop_last().len() && #[trigger] entries.drop_last()[j].name@
                        == name && entries.drop_last()[j].regular;
                assert(entries[j].name@ == name);
            } else {
                assert(entries[entries.len() - 1].name@ == name);
            }
        }
    }
}

impl MimeCache {
    /// An empty cache.
    pub fn new() -> (r: MimeCache)
        ensures
            r@ == Map::<Seq<char>, MimeView>::empty(),
    {
        let r = MimeCache { inner: StringHashMap::new() };
        assert(r@ =~= Map::<Seq<char>, MimeView>::empty());
        r
    }

    /// Sets the type of `id`, whether or not it had one.
    pub fn insert(&mut self, id: String, mime: MimeType)
        ensures
            final(self)@ == old(self)@.insert(id@, mime@),
    {
        self.inner.insert(id, mime);
        assert(self@ =~= old(self)@.insert(id@, mime@));
    }

    /// The type of `id`: the cached one, or `text/plain` where there is
    /// none. A lookup never fails.
    pub fn get(&self, id: &str) -> (r: MimeType)
        ensures
            r@ == lookup(self@, id@),
    {
        match self.inner.get(id) {
            Some(m) => m.duplicate(),
            None => MimeType::plain_text(),
        }
    }

    /// Whether `id` has an entry.
    pub fn contains(&self, id: &str) -> (r: bool)
        ensures
            r == self@.contains_key(id@),
    {
        self.inner.contains_key(id)
    }

    /// Builds the cache from the entries of the upload directory, taken in
    /// order. Each regular file goes in under its name, with the type the
    /// detector chain gives it; a file the chain can only guess at is left
    /// out, and so is anything that is no regular file.
    pub fn init(entries: &Vec<ScanEntry>) -> (r: MimeCache)
        ensures
            r@ == scan_map(entries@),
    {
        let mut cache = MimeCache::new();
        let mut i: usize = 0;
        while i < entries.len()
            invariant
                i <= entries.len(),
                cache@ == scan_map(entries@.take(i as int)),
            decreases entries.len() - i,
        {
            let e = &entries[i];
            proof {
                assert(entries@.take(i + 1).drop_last() =~= entries@.take(i as int));
                assert(entries@.take(i + 1).last() == entries@[i as int]);
            }
            if e.regular {
                let known = !needs_sniffing(None, Some(e.name.as_str()));
                if known || e.sniffed.is_some() {
                    let mime = detect(None, Some(e.name.as_str()), e.sniffed.as_ref());
                    cache.insert(e.name.clone(), mime);
                }
            }
            i += 1;
        }
        assert(entries@.take(entries.len() as int) =~= entries@);
        cache
    }
}

} // verus!
