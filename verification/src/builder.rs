use vstd::prelude::*;
use crate::bucket::{
    data_len_fits, find_entry, lemma_find_key, make_meta_object, spec_find_key,
    spec_is_meta_object, spec_put, Bucket, Entry,
};
use crate::conditional::R2Conditional;
use crate::data::{spec_payload_bytes, R2Data};
use crate::digest::{hex_encode, md5_digest, md5_of, spec_etag, spec_version, version_string};
use crate::error::Error;
use crate::metadata::{dup_pairs, HttpMetadata, Include};
use crate::object::{Object, ObjectBody, Objects};
use crate::range::Range;
use crate::text::{bytes_eq, contains_string, copy_window, find_sub, starts_with_str, str_eq};

verus! {

/// Whether the conditional of a get, if any, admits entry `e`.
pub open spec fn spec_cond_passes(only_if: Option<R2Conditional>, e: Entry) -> bool {
    match only_if {
        Some(c) => c.spec_passes(e.etag@, e.uploaded),
        None => true,
    }
}

/// The byte window a get serves out of an object of `size` bytes: the
/// whole object when no range was requested.
pub open spec fn spec_window_of(range: Option<Range>, size: nat) -> (nat, nat) {
    match range {
        Some(rg) => rg.spec_window(size),
        None => (0, size),
    }
}

/// Whether `o` is the object a successful get builds for entry `e`: the
/// entry's metadata, the served window's size and range, and a fresh
/// one-chunk body exactly when the window is non-empty.
pub open spec fn spec_is_served_object(o: Object, e: Entry, range: Option<Range>) -> bool {
    let (w0, w1) = spec_window_of(range, e.data@.len());
    &&& o.key == e.key
    &&& o.version == e.version
    &&& o.etag == e.etag
    &&& o.http_etag@ == crate::digest::spec_quoted(e.etag@)
    &&& o.uploaded == e.uploaded
    &&& o.http_metadata == e.http_metadata
    &&& o.custom_metadata@ == e.custom_metadata@
    &&& o.size as nat == w1 - w0
    &&& o.range == range
    &&& if w0 < w1 {
        o.body matches Some(b) && !b.consumed && b.chunks.deep_view() == seq![
            e.data@.subrange(w0 as int, w1 as int),
        ]
    } else {
        o.body is None
    }
}

/// A configurable read of one key.  Setters overwrite the prior value;
/// nothing touches the bucket until `execute`.
#[derive(Debug)]
pub struct GetOptionsBuilder {
    /// The key to read.
    pub key: String,
    /// A precondition gating whether the body is returned.
    pub only_if: Option<R2Conditional>,
    /// The byte window to serve instead of the whole object.
    pub range: Option<Range>,
}

impl GetOptionsBuilder {
    /// Requires the given conditional to pass for the body to be served.
    /// Overwrites any conditional set before.
    pub fn only_if(self, only_if: R2Conditional) -> (r: Self)
        ensures
            r.key == self.key,
            r.only_if == Some(only_if),
            r.range == self.range,
    {
        GetOptionsBuilder { only_if: Some(only_if), ..self }
    }

    /// Restricts the read to a byte window.  Overwrites any range set
    /// before.
    pub fn range(self, range: Range) -> (r: Self)
        ensures
            r.key == self.key,
            r.only_if == self.only_if,
            r.range == Some(range),
    {
        GetOptionsBuilder { range: Some(range), ..self }
    }

    /// Executes the read.  Returns `Ok(None)` when the key is absent.
    /// When the key is present but the conditional fails, returns the
    /// object's metadata with no body.  Otherwise serves the requested
    /// window through a fresh single-use body, absent when the window is
    /// empty.
    pub fn execute(self, bucket: &Bucket) -> (r: Result<Option<Object>, Error>)
        requires
            bucket.wf(),
        ensures
            r is Ok,
            match spec_find_key(bucket.entries@, self.key@) {
                None => r->Ok_0 is None,
                Some(i) => {
                    let e = bucket.entries@[i];
                    &&& r->Ok_0 is Some
                    &&& if spec_cond_passes(self.only_if, e) {
                        spec_is_served_object(r->Ok_0->Some_0, e, self.range)
                    } else {
                        spec_is_meta_object(r->Ok_0->Some_0, e)
                    }
                },
            },
    {
        match find_entry(&bucket.entries, self.key.as_str()) {
            None => Ok(None),
            Some(i) => {
                proof {
                    lemma_find_key(bucket.entries@, self.key@);
                    data_len_fits(bucket, i as int);
                }
                let e = &bucket.entries[i];
                let passes = match &self.only_if {
                    Some(c) => c.passes(&e.etag, e.uploaded),
                    None => true,
                };
                if !passes {
                    Ok(Some(make_meta_object(e)))
                } else {
                    let size = e.data.len();
                    let (w0, w1) = match &self.range {
                        Some(rg) => rg.window(size),
                        None => (0, size),
                    };
                    let mut o = make_meta_object(e);
                    o.size = (w1 - w0) as u64;
                    o.range = self.range;
                    if w0 < w1 {
                        let window = copy_window(&e.data, w0, w1);
                        let mut chunks: Vec<Vec<u8>> = Vec::new();
                        chunks.push(window);
                        proof {
                            assert(chunks.deep_view() =~~= seq![
                                e.data@.subrange(w0 as int, w1 as int),
                            ]);
                        }
                        o.body = Some(ObjectBody { chunks, consumed: false });
                    }
                    Ok(Some(o))
                }
            },
        }
    }
}

/// The position a put writes to: an existing key's position, or one past
/// the end for a new key.
pub open spec fn spec_put_index(entries: Seq<Entry>, key: Seq<char>) -> int {
    match spec_find_key(entries, key) {
        Some(i) => i,
        None => entries.len() as int,
    }
}

/// The write counter after minting one generation tag; it stops at the
/// largest representable count rather than wrapping.
pub open spec fn spec_bump(c: u64) -> u64 {
    if c < u64::MAX {
        (c + 1) as u64
    } else {
        c
    }
}

/// Whether `e` is the entry a put builds from its options: the flattened
/// payload bytes, their etag, a tag minted from `counter`, a stamp of
/// `now`, and the supplied metadata (empty when not supplied).
pub open spec fn spec_is_put_entry(
    e: Entry,
    key: Seq<char>,
    bytes: Seq<u8>,
    http_metadata: Option<HttpMetadata>,
    custom_metadata: Option<Vec<(String, String)>>,
    now: crate::date::Date,
    counter: u64,
) -> bool {
    &&& e.key@ == key
    &&& e.data@ == bytes
    &&& e.etag@ == spec_etag(bytes)
    &&& e.version@ == spec_version(counter)
    &&& e.uploaded == now
    &&& e.http_metadata == match http_metadata {
        Some(m) => m,
        None => HttpMetadata::spec_empty(),
    }
    &&& e.custom_metadata@ == match custom_metadata {
        Some(c) => c@,
        None => Seq::<(String, String)>::empty(),
    }
}

/// A configurable write of one key.  The payload is fixed when the
/// builder is made; setters overwrite the prior value.
#[derive(Debug)]
pub struct PutOptionsBuilder {
    /// The key to write.
    pub key: String,
    /// The payload to store.
    pub value: R2Data,
    /// HTTP metadata to store with the object.
    pub http_metadata: Option<HttpMetadata>,
    /// Custom metadata pairs to store with the object.
    pub custom_metadata: Option<Vec<(String, String)>>,
    /// An MD5 digest the stored content must hash to; the write fails
    /// and nothing commits when it does not.
    pub md5: Option<Vec<u8>>,
}

impl PutOptionsBuilder {
    /// Stores the given HTTP metadata with the object.  Overwrites any
    /// metadata set before.
    pub fn http_metadata(self, metadata: HttpMetadata) -> (r: Self)
        ensures
            r.key == self.key,
            r.value == self.value,
            r.http_metadata == Some(metadata),
            r.custom_metadata == self.custom_metadata,
            r.md5 == self.md5,
    {
        PutOptionsBuilder { http_metadata: Some(metadata), ..self }
    }

    /// Stores the given custom metadata pairs with the object.
    /// Overwrites any pairs set before.
    pub fn custom_metdata(self, metadata: Vec<(String, String)>) -> (r: Self)
        ensures
            r.key == self.key,
            r.value == self.value,
            r.http_metadata == self.http_metadata,
            r.custom_metadata == Some(metadata),
            r.md5 == self.md5,
    {
        PutOptionsBuilder { custom_metadata: Some(metadata), ..self }
    }

    /// Requires the stored content to hash to the given MD5 digest.
    /// Verification is mandatory once a digest is supplied: a mismatch
    /// fails the write with `Error::IntegrityMismatch` and commits
    /// nothing.  Overwrites any digest set before.
    pub fn md5(self, bytes: Vec<u8>) -> (r: Self)
        ensures
            r.key == self.key,
            r.value == self.value,
            r.http_metadata == self.http_metadata,
            r.custom_metadata == self.custom_metadata,
            r.md5 == Some(bytes),
    {
        PutOptionsBuilder { md5: Some(bytes), ..self }
    }

    /// Executes the write.  A streamed payload whose source fails aborts
    /// with `Error::StreamFailure`, and a supplied MD5 digest that does
    /// not match the content aborts with `Error::IntegrityMismatch`; in
    /// both cases the bucket is unchanged — a failed put never leaves a
    /// partially committed object.  On success the object is stored under
    /// its key — in place for an existing key, appended for a new one —
    /// and the returned object describes the stored item without a body.
    pub fn execute(self, bucket: &mut Bucket) -> (r: Result<Object, Error>)
        requires
            old(bucket).wf(),
        ensures
            final(bucket).now == old(bucket).now,
            match spec_payload_bytes(self.value) {
                None => {
                    &&& r == Err::<Object, Error>(Error::StreamFailure)
                    &&& *final(bucket) == *old(bucket)
                },
                Some(bytes) => {
                    if self.md5 matches Some(m) && m@ != md5_of(bytes) {
                        &&& r == Err::<Object, Error>(Error::IntegrityMismatch)
                        &&& *final(bucket) == *old(bucket)
                    } else {
                        let idx = spec_put_index(old(bucket).entries@, self.key@);
                        &&& r is Ok
                        &&& final(bucket).wf()
                        &&& final(bucket).version_counter
                            == spec_bump(old(bucket).version_counter)
                        &&& final(bucket).entries@
                            == spec_put(old(bucket).entries@, final(bucket).entries@[idx])
                        &&& spec_is_put_entry(
                            final(bucket).entries@[idx],
                            self.key@,
                            bytes,
                            self.http_metadata,
                            self.custom_metadata,
                            old(bucket).now,
                            old(bucket).version_counter,
                        )
                        &&& spec_is_meta_object(r->Ok_0, final(bucket).entries@[idx])
                    }
                },
            },
    {
        let ghost orig = self;
        let PutOptionsBuilder { key, value, http_metadata, custom_metadata, md5 } = self;
        let bytes = match value.into_bytes() {
            Ok(b) => b,
            Err(e) => {
                return Err(e);
            },
        };
        let digest = md5_digest(&bytes);
        match &md5 {
            Some(m) => {
                if !bytes_eq(m, &digest) {
                    return Err(Error::IntegrityMismatch);
                }
            },
            None => {},
        }
        let etag = hex_encode(&digest);
        let version = version_string(bucket.version_counter);
        let entry = Entry {
            key,
            data: bytes,
            etag,
            version,
            uploaded: bucket.now,
            http_metadata: match http_metadata {
                Some(m) => m,
                None => HttpMetadata::empty(),
            },
            custom_metadata: match custom_metadata {
                Some(c) => c,
                None => Vec::new(),
            },
        };
        proof {
            crate::text::vec_len_fits(&entry.data);
        }
        let returned = make_meta_object(&entry);
        let ghost pre = bucket.entries@;
        match find_entry(&bucket.entries, entry.key.as_str()) {
            Some(i) => {
                proof {
                    lemma_find_key(pre, entry.key@);
                }
                bucket.entries.remove(i);
                bucket.entries.insert(i, entry);
                proof {
                    assert(bucket.entries@ =~= pre.update(i as int, bucket.entries@[i as int]));
                }
            },
            None => {
                bucket.entries.push(entry);
            },
        }
        bucket.version_counter = if bucket.version_counter < u64::MAX {
            bucket.version_counter + 1
        } else {
            bucket.version_counter
        };
        proof {
            let idx = spec_put_index(pre, orig.key@);
            lemma_find_key(pre, orig.key@);
            assert(bucket.entries@ == spec_put(pre, bucket.entries@[idx]));
            assert(bucket.wf());
        }
        Ok(returned)
    }
}

/// The character view of an optional string.
pub open spec fn spec_opt_view(o: Option<String>) -> Option<Seq<char>> {
    match o {
        Some(s) => Some(s@),
        None => None,
    }
}

/// How many characters the requested prefix has; zero when none was set.
pub open spec fn spec_prefix_len(prefix: Option<Seq<char>>) -> int {
    match prefix {
        Some(p) => p.len() as int,
        None => 0,
    }
}

/// Whether `key` falls under the requested prefix.
pub open spec fn spec_has_prefix(key: Seq<char>, prefix: Option<Seq<char>>) -> bool {
    match prefix {
        Some(p) => p.is_prefix_of(key),
        None => true,
    }
}

/// Whether a delimiter was requested and occurs in `key` after the
/// prefix, so that the key is grouped under a delimited prefix instead of
/// being listed.
pub open spec fn spec_grouped(key: Seq<char>, prefix: Option<Seq<char>>, delim: Option<
    Seq<char>,
>) -> bool {
    match delim {
        Some(d) => crate::text::spec_find_from(
            key.skip(spec_prefix_len(prefix)),
            d,
            0,
        ) is Some,
        None => false,
    }
}

/// The delimited prefix a grouped key contributes: the key up to, and
/// excluding, the first occurrence of the delimiter after the prefix.
pub open spec fn spec_delim_prefix(key: Seq<char>, prefix: Option<Seq<char>>, d: Seq<
    char,
>) -> Seq<char> {
    let plen = spec_prefix_len(prefix);
    match crate::text::spec_find_from(key.skip(plen), d, 0) {
        Some(i) => key.subrange(0, plen + i),
        None => key,
    }
}

/// Whether a listing returns `e` as an object: it falls under the prefix
/// and is not grouped away by the delimiter.
pub open spec fn spec_visible(e: Entry, prefix: Option<Seq<char>>, delim: Option<
    Seq<char>,
>) -> bool {
    spec_has_prefix(e.key@, prefix) && !spec_grouped(e.key@, prefix, delim)
}

/// The entries a listing returns as objects, in store order.
pub open spec fn spec_filtered(
    entries: Seq<Entry>,
    prefix: Option<Seq<char>>,
    delim: Option<Seq<char>>,
) -> Seq<Entry>
    decreases entries.len(),
{
    if entries.len() == 0 {
        Seq::empty()
    } else {
        let pre = spec_filtered(entries.drop_last(), prefix, delim);
        if spec_visible(entries.last(), prefix, delim) {
            pre.push(entries.last())
        } else {
            pre
        }
    }
}

/// The delimited prefixes the grouped entries contribute, in store order,
/// with repeats kept.
pub open spec fn spec_grouped_prefixes(
    entries: Seq<Entry>,
    prefix: Option<Seq<char>>,
    d: Seq<char>,
) -> Seq<Seq<char>>
    decreases entries.len(),
{
    if entries.len() == 0 {
        Seq::empty()
    } else {
        let pre = spec_grouped_prefixes(entries.drop_last(), prefix, d);
        let e = entries.last();
        if spec_has_prefix(e.key@, prefix) && spec_grouped(e.key@, prefix, Some(d)) {
            pre.push(spec_delim_prefix(e.key@, prefix, d))
        } else {
            pre
        }
    }
}

/// `s` with every element after its first occurrence dropped, keeping the
/// order of first occurrences.
pub open spec fn spec_dedup(s: Seq<Seq<char>>) -> Seq<Seq<char>>
    decreases s.len(),
{
    if s.len() == 0 {
        Seq::empty()
    } else {
        let pre = spec_dedup(s.drop_last());
        if pre.contains(s.last()) {
            pre
        } else {
            pre.push(s.last())
        }
    }
}

/// Where a page ends that starts at `start` in a listing of `n` entries
/// with the given limit: `start + lim`, capped at the listing's end.
pub open spec fn spec_page_end(n: int, start: int, lim: int) -> int {
    if start + lim < n {
        start + lim
    } else {
        n
    }
}

/// Where a listing resumes: at the front without a cursor, just past the
/// cursor's key when it is found among the listed entries, and at the end
/// — an empty final page — when the cursor matches nothing.
pub open spec fn spec_list_start(fo: Seq<Entry>, cursor: Option<Seq<char>>) -> int {
    match cursor {
        None => 0,
        Some(c) => match spec_find_key(fo, c) {
            Some(i) => i + 1,
            None => fo.len() as int,
        },
    }
}

/// The page size a listing uses: 1000 when none was asked for, and the
/// requested value clamped into `1 ..= 1000` otherwise.
pub open spec fn spec_limit_of(limit: Option<u32>) -> int {
    match limit {
        Some(l) => if l < 1 {
            1
        } else if l > 1000 {
            1000
        } else {
            l as int
        },
        None => 1000,
    }
}

/// Whether the listing was asked to carry the given metadata class.
pub open spec fn spec_has_include(includes: Option<Vec<Include>>, which: Include) -> bool {
    match includes {
        Some(v) => v@.contains(which),
        None => false,
    }
}

/// Whether `o` is the object a listing page builds for entry `e`:
/// metadata only, with each metadata class carried exactly when its
/// includes flag asked for it.
pub open spec fn spec_is_list_object(o: Object, e: Entry, inc_http: bool, inc_custom: bool) -> bool {
    &&& o.key == e.key
    &&& o.version == e.version
    &&& o.size as nat == e.data@.len()
    &&& o.etag == e.etag
    &&& o.http_etag@ == crate::digest::spec_quoted(e.etag@)
    &&& o.uploaded == e.uploaded
    &&& o.http_metadata == if inc_http {
        e.http_metadata
    } else {
        HttpMetadata::spec_empty()
    }
    &&& o.custom_metadata@ == if inc_custom {
        e.custom_metadata@
    } else {
        Seq::<(String, String)>::empty()
    }
    &&& o.range is None
    &&& o.body is None
}

/// Whether the listing flags ask for the given metadata class.
fn has_include(includes: &Option<Vec<Include>>, which: Include) -> (r: bool)
    ensures
        r == spec_has_include(*includes, which),
{
    match includes {
        None => false,
        Some(v) => {
            let mut i: usize = 0;
            while i < v.len()
                invariant
                    i <= v@.len(),
                    *includes matches Some(vv) && vv@ == v@,
                    forall|j: int| 0 <= j < i ==> v@[j] != which,
                decreases v@.len() - i,
            {
                if v[i] == which {
                    proof {
                        assert(v@[i as int] == which);
                        assert(v@.contains(which));
                    }
                    return true;
                }
                i = i + 1;
            }
            proof {
                assert(forall|j: int| 0 <= j < v@.len() ==> v@[j] != which);
            }
            false
        },
    }
}

/// Whether a listing with the given prefix and delimiter returns `e` as
/// an object.
fn entry_visible(e: &Entry, prefix: &Option<String>, delimiter: &Option<String>) -> (r: bool)
    ensures
        r == spec_visible(*e, spec_opt_view(*prefix), spec_opt_view(*delimiter)),
{
    let key = e.key.as_str();
    let plen: usize = match prefix {
        Some(p) => {
            if !starts_with_str(key, p.as_str()) {
                return false;
            }
            p.as_str().unicode_len()
        },
        None => 0,
    };
    match delimiter {
        None => true,
        Some(d) => {
            let klen = key.unicode_len();
            let rest = key.substring_char(plen, klen);
            proof {
                assert(rest@ =~= e.key@.skip(spec_prefix_len(spec_opt_view(*prefix))));
            }
            find_sub(rest, d.as_str()).is_none()
        },
    }
}

/// Builds the metadata-only object a listing page shows for an entry.
fn make_list_object(e: &Entry, inc_http: bool, inc_custom: bool) -> (o: Object)
    requires
        e.data@.len() <= u64::MAX,
    ensures
        spec_is_list_object(o, *e, inc_http, inc_custom),
{
    Object {
        key: e.key.clone(),
        version: e.version.clone(),
        size: e.data.len() as u64,
        etag: e.etag.clone(),
        http_etag: crate::digest::quote_string(&e.etag),
        uploaded: e.uploaded,
        http_metadata: if inc_http {
            e.http_metadata.dup()
        } else {
            HttpMetadata::empty()
        },
        custom_metadata: if inc_custom {
            dup_pairs(&e.custom_metadata)
        } else {
            Vec::new()
        },
        range: None,
        body: None,
    }
}

/// A configurable enumeration of the bucket.  Setters overwrite the
/// prior value; nothing touches the bucket until `execute`.
#[derive(Debug)]
pub struct ListOptionsBuilder {
    /// The page size to use; clamped into `1 ..= 1000`, defaults to 1000.
    pub limit: Option<u32>,
    /// Only keys starting with this prefix are returned.
    pub prefix: Option<String>,
    /// A continuation token from an earlier listing to resume after.
    pub cursor: Option<String>,
    /// The string to group keys on after the prefix.
    pub delimiter: Option<String>,
    /// The metadata classes the returned objects should carry.
    pub includes: Option<Vec<Include>>,
}

impl ListOptionsBuilder {
    /// Asks for at most `limit` objects per page.  Values outside
    /// `1 ..= 1000` are clamped into that interval at execution.
    /// Overwrites any limit set before.
    pub fn limit(self, limit: u32) -> (r: Self)
        ensures
            r == (ListOptionsBuilder { limit: Some(limit), ..self }),
    {
        ListOptionsBuilder { limit: Some(limit), ..self }
    }

    /// Returns only keys that start with `prefix`.  Overwrites any prefix
    /// set before.
    pub fn prefix(self, prefix: String) -> (r: Self)
        ensures
            r == (ListOptionsBuilder { prefix: Some(prefix), ..self }),
    {
        ListOptionsBuilder { prefix: Some(prefix), ..self }
    }

    /// Resumes listing after the page that produced `cursor`.  Overwrites
    /// any cursor set before.
    pub fn cursor(self, cursor: String) -> (r: Self)
        ensures
            r == (ListOptionsBuilder { cursor: Some(cursor), ..self }),
    {
        ListOptionsBuilder { cursor: Some(cursor), ..self }
    }

    /// Groups keys on the given string after the prefix.  Overwrites any
    /// delimiter set before.
    pub fn delimiter(self, delimiter: String) -> (r: Self)
        ensures
            r == (ListOptionsBuilder { delimiter: Some(delimiter), ..self }),
    {
        ListOptionsBuilder { delimiter: Some(delimiter), ..self }
    }

    /// Asks the returned objects to carry the given metadata classes;
    /// classes not named stay absent on them.  Overwrites any flags set
    /// before.
    pub fn includes(self, includes: Vec<Include>) -> (r: Self)
        ensures
            r == (ListOptionsBuilder { includes: Some(includes), ..self }),
    {
        ListOptionsBuilder { includes: Some(includes), ..self }
    }

    /// Executes the enumeration and returns one page.
    ///
    /// The page holds the entries under the prefix that the delimiter
    /// does not group away, in store order, starting just past the
    /// cursor's key and at most `limit` long.  `truncated` says whether
    /// entries remain after the page, and exactly then a cursor — the
    /// last returned key — is present.  Delimited prefixes are computed
    /// over the whole filtered listing, deduplicated in order of first
    /// occurrence.
    pub fn execute(self, bucket: &Bucket) -> (r: Result<Objects, Error>)
        requires
            bucket.wf(),
        ensures
            r is Ok,
            ({
                let prefix = spec_opt_view(self.prefix);
                let delim = spec_opt_view(self.delimiter);
                let fo = spec_filtered(bucket.entries@, prefix, delim);
                let start = spec_list_start(fo, spec_opt_view(self.cursor));
                let lim = spec_limit_of(self.limit);
                let end = spec_page_end(fo.len() as int, start, lim);
                let inc_http = spec_has_include(self.includes, Include::HttpMetadata);
                let inc_custom = spec_has_include(self.includes, Include::CustomMetadata);
                let o = r->Ok_0;
                &&& o.objects@.len() == end - start
                &&& (forall|k: int|
                    0 <= k < end - start ==> spec_is_list_object(
                        #[trigger] o.objects@[k],
                        fo[start + k],
                        inc_http,
                        inc_custom,
                    ))
                &&& o.truncated == (end < fo.len())
                &&& (o.truncated ==> (o.cursor matches Some(c) && c@ == fo[end - 1].key@))
                &&& (!o.truncated ==> o.cursor is None)
                &&& o.delimited_prefixes.deep_view() == (match delim {
                    Some(d) => spec_dedup(spec_grouped_prefixes(bucket.entries@, prefix, d)),
                    None => Seq::<Seq<char>>::empty(),
                })
            }),
    {
        let ghost prefix = spec_opt_view(self.prefix);
        let ghost delim = spec_opt_view(self.delimiter);

        // Collect the positions of the visible entries, in store order.
        let mut vis: Vec<usize> = Vec::new();
        let mut i: usize = 0;
        while i < bucket.entries.len()
            invariant
                i <= bucket.entries@.len(),
                prefix == spec_opt_view(self.prefix),
                delim == spec_opt_view(self.delimiter),
                vis@.len() == spec_filtered(
                    bucket.entries@.subrange(0, i as int),
                    prefix,
                    delim,
                ).len(),
                forall|k: int|
                    0 <= k < vis@.len() ==> (#[trigger] vis@[k]) < i
                        && bucket.entries@[vis@[k] as int] == spec_filtered(
                        bucket.entries@.subrange(0, i as int),
                        prefix,
                        delim,
                    )[k],
            decreases bucket.entries@.len() - i,
        {
            let ghost sub = bucket.entries@.subrange(0, i as int);
            let ghost sub1 = bucket.entries@.subrange(0, i + 1 as int);
            let visible = entry_visible(&bucket.entries[i], &self.prefix, &self.delimiter);
            proof {
                assert(sub1.drop_last() =~= sub);
                assert(sub1.last() == bucket.entries@[i as int]);
            }
            if visible {
                vis.push(i);
            }
            i = i + 1;
        }
        proof {
            assert(bucket.entries@.subrange(0, bucket.entries@.len() as int)
                =~= bucket.entries@);
        }
        let ghost fo = spec_filtered(bucket.entries@, prefix, delim);

        // Resume point from the cursor.
        let start: usize = match &self.cursor {
            None => 0,
            Some(c) => cursor_start(&bucket.entries, &vis, c, Ghost(fo)),
        };

        // Page bounds from the clamped limit.
        let lim: usize = match self.limit {
            Some(l) => if l < 1 {
                1
            } else if l > 1000 {
                1000
            } else {
                l as usize
            },
            None => 1000,
        };
        let end: usize = if vis.len() - start > lim {
            start + lim
        } else {
            vis.len()
        };

        // Build the page of metadata-only objects.
        let inc_http = has_include(&self.includes, Include::HttpMetadata);
        let inc_custom = has_include(&self.includes, Include::CustomMetadata);
        let mut page: Vec<Object> = Vec::new();
        let mut k: usize = start;
        while k < end
            invariant
                start <= k <= end,
                end <= vis@.len(),
                fo.len() == vis@.len(),
                inc_http == spec_has_include(self.includes, Include::HttpMetadata),
                inc_custom == spec_has_include(self.includes, Include::CustomMetadata),
                forall|m: int|
                    0 <= m < vis@.len() ==> (#[trigger] vis@[m]) < bucket.entries@.len()
                        && bucket.entries@[vis@[m] as int] == fo[m],
                page@.len() == k - start,
                forall|m: int|
                    0 <= m < k - start ==> spec_is_list_object(
                        #[trigger] page@[m],
                        fo[start + m],
                        inc_http,
                        inc_custom,
                    ),
            decreases end - k,
        {
            let idx = vis[k];
            proof {
                data_len_fits(bucket, idx as int);
            }
            page.push(make_list_object(&bucket.entries[idx], inc_http, inc_custom));
            k = k + 1;
        }

        // Pagination state.
        let truncated = end < vis.len();
        let cursor_out: Option<String> = if truncated {
            let idx = vis[end - 1];
            Some(bucket.entries[idx].key.clone())
        } else {
            None
        };

        // Delimited prefixes over the whole filtered listing.
        let mut dps: Vec<String> = Vec::new();
        match &self.delimiter {
            None => {},
            Some(d) => {
                let mut i: usize = 0;
                while i < bucket.entries.len()
                    invariant
                        i <= bucket.entries@.len(),
                        prefix == spec_opt_view(self.prefix),
                        self.delimiter matches Some(dd) && dd@ == d@,
                        dps.deep_view() == spec_dedup(
                            spec_grouped_prefixes(
                                bucket.entries@.subrange(0, i as int),
                                prefix,
                                d@,
                            ),
                        ),
                    decreases bucket.entries@.len() - i,
                {
                    let ghost sub = bucket.entries@.subrange(0, i as int);
                    let ghost sub1 = bucket.entries@.subrange(0, i + 1 as int);
                    proof {
                        assert(sub1.drop_last() =~= sub);
                        assert(sub1.last() == bucket.entries@[i as int]);
                    }
                    let e = &bucket.entries[i];
                    let key = e.key.as_str();
                    let mut matched = true;
                    let mut plen: usize = 0;
                    match &self.prefix {
                        Some(p) => {
                            if starts_with_str(key, p.as_str()) {
                                plen = p.as_str().unicode_len();
                            } else {
                                matched = false;
                            }
                        },
                        None => {},
                    }
                    if matched {
                        let klen = key.unicode_len();
                        let rest = key.substring_char(plen, klen);
                        proof {
                            assert(rest@ =~= e.key@.skip(spec_prefix_len(prefix)));
                        }
                        match find_sub(rest, d.as_str()) {
                            Some(di) => {
                                proof {
                                    crate::text::lemma_find_from(rest@, d@, 0);
                                }
                                let dp_slice = key.substring_char(0, plen + di);
                                let dp = dp_slice.to_owned();
                                proof {
                                    assert(dp@ == spec_delim_prefix(e.key@, prefix, d@));
                                }
                                if !contains_string(&dps, dp.as_str()) {
                                    let ghost prevdeep = dps.deep_view();
                                    let ghost prevraw = dps@;
                                    dps.push(dp);
                                    proof {
                                        assert(dps@.len() == prevraw.len() + 1);
                                        assert forall|j: int|
                                            0 <= j < prevraw.len() implies dps.deep_view()[j]
                                            == prevdeep[j] by {
                                            assert(dps@[j] == prevraw[j]);
                                        }
                                        assert(dps.deep_view() =~~= prevdeep.push(
                                            spec_delim_prefix(e.key@, prefix, d@),
                                        ));
                                    }
                                }
                            },
                            None => {},
                        }
                    }
                    proof {
                        let gp = spec_grouped_prefixes(sub, prefix, d@);
                        let gp1 = spec_grouped_prefixes(sub1, prefix, d@);
                        let eg = bucket.entries@[i as int];
                        if spec_has_prefix(eg.key@, prefix) && spec_grouped(
                            eg.key@,
                            prefix,
                            Some(d@),
                        ) {
                            let dpv = spec_delim_prefix(eg.key@, prefix, d@);
                            assert(gp1 == gp.push(dpv));
                            assert(gp1.drop_last() =~= gp);
                            assert(gp1.last() == dpv);
                            assert(spec_dedup(gp1) == if spec_dedup(gp).contains(dpv) {
                                spec_dedup(gp)
                            } else {
                                spec_dedup(gp).push(dpv)
                            });
                        } else {
                            assert(gp1 == gp);
                        }
                    }
                    i = i + 1;
                }
                proof {
                    assert(bucket.entries@.subrange(0, bucket.entries@.len() as int)
                        =~= bucket.entries@);
                }
            },
        }

        Ok(Objects { objects: page, truncated, cursor: cursor_out, delimited_prefixes: dps })
    }
}

/// The page position just past the cursor's key among the visible
/// entries, or the end when the cursor matches none of them.
fn cursor_start(
    entries: &Vec<Entry>,
    vis: &Vec<usize>,
    c: &String,
    Ghost(fo): Ghost<Seq<Entry>>,
) -> (r: usize)
    requires
        fo.len() == vis@.len(),
        forall|m: int|
            0 <= m < vis@.len() ==> (#[trigger] vis@[m]) < entries@.len()
                && entries@[vis@[m] as int] == fo[m],
    ensures
        r as int == spec_list_start(fo, Some(c@)),
        r <= vis@.len(),
{
    let mut k: usize = 0;
    while k < vis.len()
        invariant
            k <= vis@.len(),
            fo.len() == vis@.len(),
            forall|m: int|
                0 <= m < vis@.len() ==> (#[trigger] vis@[m]) < entries@.len()
                    && entries@[vis@[m] as int] == fo[m],
            forall|j: int| 0 <= j < k ==> (#[trigger] fo[j]).key@ != c@,
        decreases vis@.len() - k,
    {
        let idx = vis[k];
        if str_eq(entries[idx].key.as_str(), c.as_str()) {
            proof {
                lemma_find_key(fo, c@);
                if let Some(f) = spec_find_key(fo, c@) {
                    assert(fo[f].key@ == c@);
                    assert(f == k as int);
                } else {
                    assert(fo[k as int].key@ != c@);
                }
            }
            return k + 1;
        }
        k = k + 1;
    }
    proof {
        lemma_find_key(fo, c@);
        if let Some(f) = spec_find_key(fo, c@) {
            assert(fo[f].key@ != c@);
            assert(false);
        }
    }
    vis.len()
}

} // verus!
