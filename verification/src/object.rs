use vstd::prelude::*;
use crate::date::Date;
use crate::error::Error;
use crate::metadata::{dup_pairs, HttpMetadata};
use crate::range::Range;
use crate::text::dup_bytes;

verus! {

/// The concatenation of a sequence of byte chunks.
pub open spec fn spec_concat(chunks: Seq<Seq<u8>>) -> Seq<u8>
    decreases chunks.len(),
{
    if chunks.len() == 0 {
        Seq::empty()
    } else {
        spec_concat(chunks.drop_last()) + chunks.last()
    }
}

/// A lazy, finite, forward-only sequence of byte chunks read out of an
/// object's body.  Chunks are yielded in order and cannot be rewound;
/// dropping the stream part-way through is allowed.
#[derive(Debug)]
pub struct ByteStream {
    /// The chunks of the stream, in yield order.
    pub chunks: Vec<Vec<u8>>,
    /// How many leading chunks have already been yielded.
    pub pos: usize,
}

impl ByteStream {
    /// The chunks that remain to be yielded.
    pub open spec fn spec_remaining(&self) -> Seq<Seq<u8>> {
        if self.pos <= self.chunks@.len() {
            self.chunks.deep_view().subrange(self.pos as int, self.chunks@.len() as int)
        } else {
            Seq::empty()
        }
    }

    /// Yields the next chunk, or `None` once the stream is exhausted.
    pub fn next_chunk(&mut self) -> (r: Option<Vec<u8>>)
        ensures
            match r {
                Some(c) => {
                    &&& old(self).spec_remaining().len() > 0
                    &&& c@ == old(self).spec_remaining()[0]
                    &&& final(self).spec_remaining() == old(self).spec_remaining().drop_first()
                },
                None => {
                    &&& old(self).spec_remaining().len() == 0
                    &&& *final(self) == *old(self)
                },
            },
            final(self).chunks == old(self).chunks,
    {
        if self.pos < self.chunks.len() {
            let c = dup_bytes(&self.chunks[self.pos]);
            self.pos = self.pos + 1;
            proof {
                assert(final(self).spec_remaining()
                    =~~= old(self).spec_remaining().drop_first());
            }
            Some(c)
        } else {
            None
        }
    }

    /// Reads the whole remainder of the stream as one byte vector.
    pub fn read_all(&mut self) -> (r: Vec<u8>)
        ensures
            r@ == spec_concat(old(self).spec_remaining()),
            final(self).spec_remaining().len() == 0,
    {
        let ghost rem = old(self).spec_remaining();
        let ghost mut k: int = 0;
        let mut out: Vec<u8> = Vec::new();
        loop
            invariant
                0 <= k <= rem.len(),
                rem == old(self).spec_remaining(),
                self.spec_remaining() == rem.skip(k),
                out@ == spec_concat(rem.take(k)),
            decreases rem.len() - k,
        {
            match self.next_chunk() {
                Some(c) => {
                    proof {
                        assert(rem.skip(k)[0] == rem[k]);
                        assert(rem.skip(k).drop_first() =~= rem.skip(k + 1));
                        assert(rem.take(k + 1).drop_last() =~= rem.take(k));
                        assert(rem.take(k + 1).last() == rem[k]);
                    }
                    push_bytes(&mut out, &c);
                    proof {
                        k = k + 1;
                    }
                },
                None => {
                    proof {
                        assert(rem.skip(k).len() == 0);
                        assert(rem.take(k) =~= rem);
                    }
                    return out;
                },
            }
        }
    }
}

/// Appends the bytes of `c` to `out`.
pub(crate) fn push_bytes(out: &mut Vec<u8>, c: &Vec<u8>)
    ensures
        final(out)@ == old(out)@ + c@,
{
    let mut i: usize = 0;
    while i < c.len()
        invariant
            i <= c.len(),
            out@ == old(out)@ + c@.subrange(0, i as int),
        decreases c.len() - i,
    {
        out.push(c[i]);
        proof {
            assert(out@ =~= old(out)@ + c@.subrange(0, i + 1 as int));
        }
        i = i + 1;
    }
    proof {
        assert(old(out)@ + c@.subrange(0, c@.len() as int) =~= old(out)@ + c@);
    }
}

/// Duplicates a chunk list, chunk for chunk.
pub(crate) fn dup_chunks(v: &Vec<Vec<u8>>) -> (r: Vec<Vec<u8>>)
    ensures
        r.deep_view() == v.deep_view(),
{
    let mut r: Vec<Vec<u8>> = Vec::new();
    let mut i: usize = 0;
    while i < v.len()
        invariant
            i <= v.len(),
            r@.len() == i,
            r.deep_view() == v.deep_view().subrange(0, i as int),
        decreases v.len() - i,
    {
        let c = dup_bytes(&v[i]);
        proof {
            assert(c.deep_view() =~= v.deep_view()[i as int]);
        }
        let ghost prev = r.deep_view();
        let ghost prevraw = r@;
        r.push(c);
        proof {
            assert(r@.len() == i + 1);
            assert forall|j: int| 0 <= j < i implies r.deep_view()[j] == prev[j] by {
                assert(r@[j] == prevraw[j]);
            }
            assert(r.deep_view()[i as int] == c.deep_view());
            assert(r.deep_view() =~~= v.deep_view().subrange(0, i + 1 as int));
        }
        i = i + 1;
    }
    proof {
        assert(v.deep_view().subrange(0, v.deep_view().len() as int) =~~= v.deep_view());
    }
    r
}

/// What one call of [`ObjectBody::stream`] does: on a fresh handle it
/// yields a stream of exactly the body's chunks and marks the handle
/// consumed; on a consumed handle it fails with
/// `Error::BodyAlreadyConsumed` and changes nothing.
pub open spec fn spec_stream_step(
    before: ObjectBody,
    r: Result<ByteStream, Error>,
    after: ObjectBody,
) -> bool {
    if before.consumed {
        &&& r == Err::<ByteStream, Error>(Error::BodyAlreadyConsumed)
        &&& after == before
    } else {
        &&& r is Ok
        &&& r->Ok_0.spec_remaining() == before.chunks.deep_view()
        &&& after.consumed
        &&& after.chunks == before.chunks
    }
}

/// The single-consumption handle to an object's stored bytes.  The handle
/// may be turned into a [`ByteStream`] at most once: the `consumed` flag is
/// set before the first byte is yielded, and a second attempt fails with
/// [`Error::BodyAlreadyConsumed`] rather than silently yielding empty data.
#[derive(Debug)]
pub struct ObjectBody {
    /// The byte chunks of the body, in order.
    pub chunks: Vec<Vec<u8>>,
    /// Whether the body has already been turned into a stream.
    pub consumed: bool,
}

impl ObjectBody {
    /// The bytes of the body: the concatenation of its chunks.
    pub open spec fn spec_bytes(&self) -> Seq<u8> {
        spec_concat(self.chunks.deep_view())
    }

    /// Turns the body into a byte stream.  The first call succeeds and
    /// marks the body consumed; every later call fails with
    /// `Error::BodyAlreadyConsumed` and leaves the body unchanged.
    pub fn stream(&mut self) -> (r: Result<ByteStream, Error>)
        ensures
            spec_stream_step(*old(self), r, *final(self)),
    {
        if self.consumed {
            return Err(Error::BodyAlreadyConsumed);
        }
        self.consumed = true;
        let chunks = dup_chunks(&self.chunks);
        let s = ByteStream { chunks, pos: 0 };
        proof {
            assert(s.spec_remaining()
                =~~= old(self).chunks.deep_view());
        }
        Ok(s)
    }
}

/// The stored-item metadata returned by head/get/put/list operations,
/// optionally paired with a single-use body.  Objects are constructed only
/// as operation results and never mutated afterwards, except for taking
/// the body out.
#[derive(Debug)]
pub struct Object {
    /// The object's key, unique within its bucket.
    pub key: String,
    /// An opaque tag for the stored generation of the object.
    pub version: String,
    /// The size in bytes of the served content: the full stored size, or
    /// the served window's length when a range was applied.
    pub size: u64,
    /// The content etag: the hex MD5 digest of the stored bytes.
    pub etag: String,
    /// The etag wrapped in double quotes, as it appears in an HTTP header.
    pub http_etag: String,
    /// When the object was uploaded.
    pub uploaded: Date,
    /// The HTTP metadata supplied when the object was stored.
    pub http_metadata: HttpMetadata,
    /// The custom metadata pairs supplied when the object was stored.
    pub custom_metadata: Vec<(String, String)>,
    /// The range that was served, when the get requested one.
    pub range: Option<Range>,
    /// The body handle, present only when the operation attached one.
    pub body: Option<ObjectBody>,
}

impl Object {
    /// Takes the body handle out of the object, if one was attached and
    /// has not been taken yet.  The handle exists at most once; the
    /// single-consumption guard lives on the handle itself.
    pub fn body(&mut self) -> (r: Option<ObjectBody>)
        ensures
            r == old(self).body,
            final(self).body is None,
            final(self).key == old(self).key,
            final(self).version == old(self).version,
            final(self).size == old(self).size,
            final(self).etag == old(self).etag,
            final(self).http_etag == old(self).http_etag,
            final(self).uploaded == old(self).uploaded,
            final(self).http_metadata == old(self).http_metadata,
            final(self).custom_metadata == old(self).custom_metadata,
            final(self).range == old(self).range,
    {
        self.body.take()
    }

    /// Whether two objects carry the same metadata, bodies aside.
    pub open spec fn spec_same_meta(a: Object, b: Object) -> bool {
        &&& a.key == b.key
        &&& a.version == b.version
        &&& a.size == b.size
        &&& a.etag == b.etag
        &&& a.http_etag == b.http_etag
        &&& a.uploaded == b.uploaded
        &&& a.http_metadata == b.http_metadata
        &&& a.custom_metadata@ == b.custom_metadata@
        &&& a.range == b.range
    }

    /// A copy of the object's metadata, with no body attached.
    pub fn meta_dup(&self) -> (r: Object)
        ensures
            r.key == self.key,
            r.version == self.version,
            r.size == self.size,
            r.etag == self.etag,
            r.http_etag == self.http_etag,
            r.uploaded == self.uploaded,
            r.http_metadata == self.http_metadata,
            r.custom_metadata@ == self.custom_metadata@,
            r.range == self.range,
            r.body is None,
    {
        Object {
            key: self.key.clone(),
            version: self.version.clone(),
            size: self.size,
            etag: self.etag.clone(),
            http_etag: self.http_etag.clone(),
            uploaded: self.uploaded,
            http_metadata: self.http_metadata.dup(),
            custom_metadata: dup_pairs(&self.custom_metadata),
            range: self.range,
            body: None,
        }
    }
}

/// The result of one listing call: a page of metadata-only objects plus
/// pagination state.  A cursor is present exactly when the page is
/// truncated, and delimited prefixes are present only when a delimiter
/// was requested.
#[derive(Debug)]
pub struct Objects {
    /// The objects of this page, metadata only, in listing order.
    pub objects: Vec<Object>,
    /// Whether more results remain after this page.
    pub truncated: bool,
    /// The continuation token for the next page, present iff `truncated`.
    pub cursor: Option<String>,
    /// The delimited prefixes grouped out of the listing, in order of
    /// first occurrence, when a delimiter was requested.
    pub delimited_prefixes: Vec<String>,
}

impl Objects {
    /// The objects of this page, metadata only, in listing order.
    pub fn objects(&self) -> (r: Vec<Object>)
        ensures
            r@.len() == self.objects@.len(),
            forall|k: int|
                0 <= k < r@.len() ==> Object::spec_same_meta(#[trigger] r@[k], self.objects@[k])
                    && r@[k].body is None,
    {
        let mut r: Vec<Object> = Vec::new();
        let mut i: usize = 0;
        while i < self.objects.len()
            invariant
                i <= self.objects@.len(),
                r@.len() == i,
                forall|k: int|
                    0 <= k < i ==> Object::spec_same_meta(#[trigger] r@[k], self.objects@[k])
                        && r@[k].body is None,
            decreases self.objects@.len() - i,
        {
            r.push(self.objects[i].meta_dup());
            i = i + 1;
        }
        r
    }

    /// Whether more results remain for this listing after this page.
    pub fn truncated(&self) -> (r: bool)
        ensures
            r == self.truncated,
    {
        self.truncated
    }

    /// The token a later listing can resume from; present iff the page
    /// is truncated.
    pub fn cursor(&self) -> (r: Option<String>)
        ensures
            r == self.cursor,
    {
        crate::text::dup_opt_string(&self.cursor)
    }

    /// The prefixes grouped by the requested delimiter, in order of first
    /// occurrence.
    pub fn delimited_prefixes(&self) -> (r: Vec<String>)
        ensures
            r@ == self.delimited_prefixes@,
    {
        crate::text::dup_strings(&self.delimited_prefixes)
    }
}

} // verus!
