use vstd::prelude::*;
use vstd::utf8::encode_utf8;
use crate::error::Error;

verus! {

/// One pull from a streamed upload source: either a block of bytes or the
/// source's own failure, which aborts the upload before commit.
#[derive(Debug)]
pub enum StreamChunk {
    Bytes(Vec<u8>),
    Failure,
}

/// An upload payload.  Exactly one variant is active per put; the variant
/// determines how the payload reaches the store, not the result shape.
#[derive(Debug)]
pub enum R2Data {
    /// A lazy, fallible, finite sequence of byte chunks.
    Stream(Vec<StreamChunk>),
    /// Text, transmitted as its UTF-8 bytes.
    Text(String),
    /// In-memory bytes.
    Bytes(Vec<u8>),
    /// An explicit empty write: a valid write of zero bytes.
    Empty,
}

/// Whether no chunk of a streamed payload is a failure.
pub open spec fn spec_chunks_ok(chunks: Seq<StreamChunk>) -> bool {
    forall|i: int| 0 <= i < chunks.len() ==> !(#[trigger] chunks[i] is Failure)
}

/// The concatenated bytes of a streamed payload, ignoring failures.
pub open spec fn spec_chunks_flat(chunks: Seq<StreamChunk>) -> Seq<u8>
    decreases chunks.len(),
{
    if chunks.len() == 0 {
        Seq::empty()
    } else {
        spec_chunks_flat(chunks.drop_last()) + match chunks.last() {
            StreamChunk::Bytes(b) => b@,
            StreamChunk::Failure => Seq::empty(),
        }
    }
}

/// The bytes a payload writes, or `None` when a streamed source fails.
pub open spec fn spec_payload_bytes(d: R2Data) -> Option<Seq<u8>> {
    match d {
        R2Data::Stream(chunks) => if spec_chunks_ok(chunks@) {
            Some(spec_chunks_flat(chunks@))
        } else {
            None
        },
        R2Data::Text(s) => Some(encode_utf8(s@)),
        R2Data::Bytes(b) => Some(b@),
        R2Data::Empty => Some(Seq::empty()),
    }
}

impl From<String> for R2Data {
    /// A string converts into the text payload.
    fn from(value: String) -> (r: R2Data) {
        R2Data::Text(value)
    }
}

impl vstd::std_specs::convert::FromSpecImpl<String> for R2Data {
    open spec fn obeys_from_spec() -> bool {
        true
    }

    open spec fn from_spec(value: String) -> R2Data {
        R2Data::Text(value)
    }
}

impl From<Vec<u8>> for R2Data {
    /// A byte vector converts into the in-memory bytes payload.
    fn from(value: Vec<u8>) -> (r: R2Data) {
        R2Data::Bytes(value)
    }
}

impl vstd::std_specs::convert::FromSpecImpl<Vec<u8>> for R2Data {
    open spec fn obeys_from_spec() -> bool {
        true
    }

    open spec fn from_spec(value: Vec<u8>) -> R2Data {
        R2Data::Bytes(value)
    }
}

impl R2Data {
    /// Wraps a finite sequence of chunk pulls as a streamed payload.
    pub fn from_stream(chunks: Vec<StreamChunk>) -> (d: R2Data)
        ensures
            d == R2Data::Stream(chunks),
    {
        R2Data::Stream(chunks)
    }

    /// Flattens the payload into the bytes it writes.  A streamed payload
    /// whose source fails mid-transfer yields `Err(Error::StreamFailure)`
    /// instead, and the failing put must not commit.
    #[verifier::loop_isolation(false)]
    pub fn into_bytes(self) -> (r: Result<Vec<u8>, Error>)
        ensures
            match spec_payload_bytes(self) {
                Some(b) => r is Ok && r->Ok_0@ == b,
                None => r == Err::<Vec<u8>, Error>(Error::StreamFailure),
            },
    {
        let ghost orig = self;
        match self {
            R2Data::Stream(chunks) => {
                let ghost all = chunks@;
                proof {
                    assert(orig == R2Data::Stream(chunks));
                }
                let mut acc: Vec<u8> = Vec::new();
                let mut i: usize = 0;
                while i < chunks.len()
                    invariant
                        i <= chunks.len(),
                        chunks@ == all,
                        orig == R2Data::Stream(chunks),
                        spec_chunks_ok(all.subrange(0, i as int)),
                        acc@ == spec_chunks_flat(all.subrange(0, i as int)),
                    decreases chunks.len() - i,
                {
                    match &chunks[i] {
                        StreamChunk::Bytes(b) => {
                            let mut j: usize = 0;
                            while j < b.len()
                                invariant
                                    j <= b.len(),
                                    chunks@ == all,
                                    i < all.len(),
                                    chunks[i as int] == all[i as int],
                                    acc@ == spec_chunks_flat(all.subrange(0, i as int))
                                        + b@.subrange(0, j as int),
                                    all[i as int] matches StreamChunk::Bytes(bb) && bb@ == b@,
                                decreases b.len() - j,
                            {
                                acc.push(b[j]);
                                proof {
                                    assert(acc@ =~= spec_chunks_flat(all.subrange(0, i as int))
                                        + b@.subrange(0, j + 1 as int));
                                }
                                j = j + 1;
                            }
                            proof {
                                assert(all.subrange(0, i + 1 as int).drop_last()
                                    =~= all.subrange(0, i as int));
                                assert(b@.subrange(0, b@.len() as int) =~= b@);
                                assert(acc@ =~= spec_chunks_flat(all.subrange(0, i + 1 as int)));
                                assert(spec_chunks_ok(all.subrange(0, i + 1 as int)));
                            }
                        },
                        StreamChunk::Failure => {
                            proof {
                                assert(!spec_chunks_ok(all));
                            }
                            return Err(Error::StreamFailure);
                        },
                    }
                    i = i + 1;
                }
                proof {
                    assert(all.subrange(0, all.len() as int) =~= all);
                }
                Ok(acc)
            },
            R2Data::Text(s) => {
                Ok(s.as_str().as_bytes_vec())
            },
            R2Data::Bytes(b) => Ok(b),
            R2Data::Empty => Ok(Vec::new()),
        }
    }
}

} // verus!
