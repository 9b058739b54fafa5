use vstd::prelude::*;
use crate::date::Date;
use crate::digest::{quote_string, spec_etag, spec_quoted};
use crate::error::Error;
use crate::metadata::dup_pairs;
use crate::object::Object;
use crate::text::str_eq;

verus! {

/// One stored object of the bucket model: a key, the stored bytes, and the
/// metadata recorded when the object was written.
#[derive(Debug)]
pub struct Entry {
    /// The object's key, unique within the bucket.
    pub key: String,
    /// The stored bytes.
    pub data: Vec<u8>,
    /// The content etag: the hex MD5 digest of `data`.
    pub etag: String,
    /// The opaque generation tag given to this write.
    pub version: String,
    /// The store time at which the object was written.
    pub uploaded: Date,
    /// The HTTP metadata supplied at put time.
    pub http_metadata: crate::metadata::HttpMetadata,
    /// The custom metadata pairs supplied at put time.
    pub custom_metadata: Vec<(String, String)>,
}

/// Whether the entries carry pairwise distinct keys.
pub open spec fn spec_unique_keys(entries: Seq<Entry>) -> bool {
    forall|i: int, j: int|
        0 <= i < j < entries.len() ==> (#[trigger] entries[i]).key@ != (#[trigger] entries[j]).key@
}

/// The first position of `key` among the entries, if it is present.
pub open spec fn spec_find_key(entries: Seq<Entry>, key: Seq<char>) -> Option<int>
    decreases entries.len(),
{
    if entries.len() == 0 {
        None
    } else if entries[0].key@ == key {
        Some(0)
    } else {
        match spec_find_key(entries.drop_first(), key) {
            Some(i) => Some(i + 1),
            None => None,
        }
    }
}

/// What `spec_find_key` returns: the first index holding `key`, or `None`
/// when no entry holds it.
pub proof fn lemma_find_key(entries: Seq<Entry>, key: Seq<char>)
    ensures
        match spec_find_key(entries, key) {
            Some(i) => {
                &&& 0 <= i < entries.len()
                &&& entries[i].key@ == key
                &&& forall|j: int| 0 <= j < i ==> (#[trigger] entries[j]).key@ != key
            },
            None => forall|j: int|
                0 <= j < entries.len() ==> (#[trigger] entries[j]).key@ != key,
        },
    decreases entries.len(),
{
    if entries.len() == 0 {
    } else if entries[0].key@ == key {
    } else {
        lemma_find_key(entries.drop_first(), key);
        match spec_find_key(entries.drop_first(), key) {
            Some(i) => {
                assert(entries.drop_first()[i] == entries[i + 1]);
                assert forall|j: int| 0 <= j < i + 1 implies (#[trigger] entries[j]).key@
                    != key by {
                    if j > 0 {
                        assert(entries.drop_first()[j - 1] == entries[j]);
                    }
                }
            },
            None => {
                assert forall|j: int| 0 <= j < entries.len() implies (#[trigger] entries[j]).key@
                    != key by {
                    if j > 0 {
                        assert(entries.drop_first()[j - 1] == entries[j]);
                    }
                }
            },
        }
    }
}

/// The entries after storing `e`: an entry with the same key is replaced in
/// place, and a new key is appended at the end.
pub open spec fn spec_put(entries: Seq<Entry>, e: Entry) -> Seq<Entry> {
    match spec_find_key(entries, e.key@) {
        Some(i) => entries.update(i, e),
        None => entries.push(e),
    }
}

/// The entries after deleting `key`: unchanged when the key is absent.
pub open spec fn spec_delete(entries: Seq<Entry>, key: Seq<char>) -> Seq<Entry> {
    match spec_find_key(entries, key) {
        Some(i) => entries.remove(i),
        None => entries,
    }
}

/// Whether `o` carries exactly the metadata of entry `e`, with no body and
/// no served range: the object shape that head, put and list return.
pub open spec fn spec_is_meta_object(o: Object, e: Entry) -> bool {
    &&& o.key == e.key
    &&& o.version == e.version
    &&& o.size as nat == e.data@.len()
    &&& o.etag == e.etag
    &&& o.http_etag@ == spec_quoted(e.etag@)
    &&& o.uploaded == e.uploaded
    &&& o.http_metadata == e.http_metadata
    &&& o.custom_metadata@ == e.custom_metadata@
    &&& o.range is None
    &&& o.body is None
}

/// Builds the metadata-only object describing an entry.
pub(crate) fn make_meta_object(e: &Entry) -> (o: Object)
    requires
        e.data@.len() <= u64::MAX,
    ensures
        spec_is_meta_object(o, *e),
{
    Object {
        key: e.key.clone(),
        version: e.version.clone(),
        size: e.data.len() as u64,
        etag: e.etag.clone(),
        http_etag: quote_string(&e.etag),
        uploaded: e.uploaded,
        http_metadata: e.http_metadata.dup(),
        custom_metadata: dup_pairs(&e.custom_metadata),
        range: None,
        body: None,
    }
}

/// The in-memory model of one strongly consistent bucket of keyed objects.
///
/// The state is the model of the remote store: once a put or delete
/// returns, every later head, get or list on the same value observes the
/// effect.  Listing order is the order of the `entries` vector: an
/// overwrite keeps an object's position, and a new key is appended.
/// The store's clock is an explicit field; [`Bucket::set_time`] moves it,
/// and puts stamp objects with its current value.
#[derive(Debug)]
pub struct Bucket {
    /// The stored objects, with pairwise distinct keys.
    pub entries: Vec<Entry>,
    /// The store time used to stamp the next write.
    pub now: Date,
    /// Counts the writes ever made, to mint generation tags.
    pub version_counter: u64,
}

impl Bucket {
    /// Every key occurs once, and every entry's etag is the 32-character
    /// hex MD5 digest of its data.
    pub open spec fn wf(&self) -> bool {
        &&& spec_unique_keys(self.entries@)
        &&& forall|i: int|
            0 <= i < self.entries@.len()
                ==> (#[trigger] self.entries@[i]).etag@ == spec_etag(self.entries@[i].data@)
                    && self.entries@[i].etag@.len() == 32
    }

    /// An empty bucket at time zero.
    pub fn new() -> (b: Bucket)
        ensures
            b.entries@.len() == 0,
            b.now == (Date { millis: 0 }),
            b.version_counter == 0,
            b.wf(),
    {
        Bucket { entries: Vec::new(), now: Date::from_millis(0), version_counter: 0 }
    }

    /// Moves the store's clock.  The clock only stamps future writes; it
    /// is not required to move forward.
    pub fn set_time(&mut self, now: Date)
        ensures
            final(self).entries == old(self).entries,
            final(self).version_counter == old(self).version_counter,
            final(self).now == now,
    {
        self.now = now;
    }

    /// Metadata-only lookup.  Returns `Ok(None)` when the key is absent,
    /// and the object's metadata — never a body — when it is present.
    pub fn head(&self, key: &str) -> (r: Result<Option<Object>, Error>)
        requires
            self.wf(),
        ensures
            r is Ok,
            match spec_find_key(self.entries@, key@) {
                Some(i) => r->Ok_0 is Some && spec_is_meta_object(r->Ok_0->Some_0,
                    self.entries@[i]),
                None => r->Ok_0 is None,
            },
    {
        match find_entry(&self.entries, key) {
            Some(i) => {
                proof {
                    lemma_find_key(self.entries@, key@);
                    data_len_fits(self, i as int);
                }
                Ok(Some(make_meta_object(&self.entries[i])))
            },
            None => Ok(None),
        }
    }

    /// Begins a configurable read of `key`.  Nothing touches the bucket
    /// until the builder's `execute`.
    pub fn get(&self, key: &str) -> (b: crate::builder::GetOptionsBuilder)
        ensures
            b.key@ == key@,
            b.only_if is None,
            b.range is None,
    {
        crate::builder::GetOptionsBuilder { key: key.to_owned(), only_if: None, range: None }
    }

    /// Begins a configurable write of `value` under `key`.  Nothing
    /// touches the bucket until the builder's `execute`.
    pub fn put(&self, key: &str, value: crate::data::R2Data) -> (b:
        crate::builder::PutOptionsBuilder)
        ensures
            b.key@ == key@,
            b.value == value,
            b.http_metadata is None,
            b.custom_metadata is None,
            b.md5 is None,
    {
        crate::builder::PutOptionsBuilder {
            key: key.to_owned(),
            value,
            http_metadata: None,
            custom_metadata: None,
            md5: None,
        }
    }

    /// Begins a configurable enumeration of the bucket.  Nothing touches
    /// the bucket until the builder's `execute`.
    pub fn list(&self) -> (b: crate::builder::ListOptionsBuilder)
        ensures
            b.limit is None,
            b.prefix is None,
            b.cursor is None,
            b.delimiter is None,
            b.includes is None,
    {
        crate::builder::ListOptionsBuilder {
            limit: None,
            prefix: None,
            cursor: None,
            delimiter: None,
            includes: None,
        }
    }

    /// Removes `key` and its value.  Idempotent: deleting an absent key is
    /// not an error.  Strongly consistent: afterwards no lookup on this
    /// value observes the key.
    pub fn delete(&mut self, key: &str) -> (r: Result<(), Error>)
        requires
            old(self).wf(),
        ensures
            r is Ok,
            final(self).entries@ == spec_delete(old(self).entries@, key@),
            final(self).now == old(self).now,
            final(self).version_counter == old(self).version_counter,
            final(self).wf(),
            spec_find_key(final(self).entries@, key@) is None,
    {
        let ghost pre = self.entries@;
        match find_entry(&self.entries, key) {
            Some(i) => {
                proof {
                    lemma_find_key(pre, key@);
                }
                self.entries.remove(i);
                proof {
                    lemma_find_key(pre, key@);
                    assert(forall|j: int|
                        0 <= j < self.entries@.len()
                            ==> #[trigger] self.entries@[j] == if j < i {
                                pre[j]
                            } else {
                                pre[j + 1]
                            });
                    assert(self.wf());
                    lemma_find_key(self.entries@, key@);
                    if let Some(k) = spec_find_key(self.entries@, key@) {
                        assert(self.entries@[k].key@ == key@);
                        assert(false);
                    }
                }
                Ok(())
            },
            None => {
                proof {
                    lemma_find_key(pre, key@);
                }
                Ok(())
            },
        }
    }
}

/// Finds the position of `key` among the entries.
pub(crate) fn find_entry(entries: &Vec<Entry>, key: &str) -> (r: Option<usize>)
    ensures
        match r {
            Some(i) => spec_find_key(entries@, key@) == Some(i as int),
            None => spec_find_key(entries@, key@) is None,
        },
{
    let mut i: usize = 0;
    while i < entries.len()
        invariant
            i <= entries.len(),
            forall|j: int| 0 <= j < i ==> (#[trigger] entries@[j]).key@ != key@,
        decreases entries.len() - i,
    {
        if str_eq(entries[i].key.as_str(), key) {
            proof {
                lemma_find_key(entries@, key@);
                if let Some(k) = spec_find_key(entries@, key@) {
                    assert(entries@[k].key@ == key@);
                    assert(k == i as int);
                } else {
                    assert(entries@[i as int].key@ != key@);
                }
                assert(spec_find_key(entries@, key@) == Some(i as int));
            }
            return Some(i);
        }
        i = i + 1;
    }
    proof {
        lemma_find_key(entries@, key@);
        if let Some(k) = spec_find_key(entries@, key@) {
            assert(entries@[k].key@ != key@);
            assert(false);
        }
    }
    None
}

/// An entry's data always fits a `u64` size field: a byte vector's length
/// is bounded by the machine word.
pub(crate) proof fn data_len_fits(b: &Bucket, i: int)
    requires
        0 <= i < b.entries@.len(),
    ensures
        b.entries@[i].data@.len() <= u64::MAX,
{
    crate::text::vec_len_fits(&b.entries@[i].data);
}

} // verus!
