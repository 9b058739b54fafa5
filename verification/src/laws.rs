//! The laws the store model obeys, stated over the same spec functions
//! that the operations' contracts use, and proved from them.

use vstd::prelude::*;
use crate::bucket::{
    lemma_find_key, spec_delete, spec_find_key, spec_put, spec_unique_keys, Bucket, Entry,
};
use crate::builder::{
    spec_cond_passes, spec_filtered, spec_is_put_entry, spec_is_served_object, spec_page_end,
    spec_put_index, spec_visible,
};
use crate::conditional::R2Conditional;
use crate::date::Date;
use crate::error::Error;
use crate::metadata::HttpMetadata;
use crate::object::{spec_concat, spec_stream_step, ByteStream, Object, ObjectBody};
use crate::range::spec_raw_range_valid;

verus! {

/// `spec_find_key` returns exactly the position of a key that is known
/// to sit at `j` with no earlier occurrence.
pub proof fn lemma_find_key_at(entries: Seq<Entry>, key: Seq<char>, j: int)
    requires
        0 <= j < entries.len(),
        entries[j].key@ == key,
        forall|m: int| 0 <= m < j ==> (#[trigger] entries[m]).key@ != key,
    ensures
        spec_find_key(entries, key) == Some(j),
{
    lemma_find_key(entries, key);
    match spec_find_key(entries, key) {
        Some(i) => {
            if i < j {
                assert(entries[i].key@ != key);
            }
            if i > j {
                assert(entries[j].key@ != key);
            }
        },
        None => {
            assert(entries[j].key@ != key);
        },
    }
}

/// Storing an entry makes it the one that lookups on its key find: after
/// `spec_put`, the key resolves to the put position and the entry there
/// is the stored one.
pub proof fn lemma_put_stores(entries: Seq<Entry>, e: Entry)
    requires
        spec_unique_keys(entries),
    ensures
        ({
            let after = spec_put(entries, e);
            let idx = spec_put_index(entries, e.key@);
            &&& 0 <= idx < after.len()
            &&& after[idx] == e
            &&& spec_find_key(after, e.key@) == Some(idx)
        }),
{
    lemma_find_key(entries, e.key@);
    let after = spec_put(entries, e);
    let idx = spec_put_index(entries, e.key@);
    match spec_find_key(entries, e.key@) {
        Some(i) => {
            assert(after == entries.update(i, e));
            assert(after[i] == e);
            assert forall|m: int| 0 <= m < i implies (#[trigger] after[m]).key@ != e.key@ by {
                assert(after[m] == entries[m]);
            }
            lemma_find_key_at(after, e.key@, i);
        },
        None => {
            assert(after == entries.push(e));
            assert(after[entries.len() as int] == e);
            assert forall|m: int| 0 <= m < entries.len() implies (#[trigger] after[m]).key@
                != e.key@ by {
                assert(after[m] == entries[m]);
            }
            lemma_find_key_at(after, e.key@, entries.len() as int);
        },
    }
}

/// Round trip: the body a whole-object get serves for an entry — no
/// conditional, no range — concatenates to exactly the stored bytes, and
/// is absent exactly when the stored value is empty.  Together with
/// `lemma_put_stores` and the put contract, a put of any payload followed
/// by a get of the same key yields the payload's bytes back.
pub proof fn lemma_served_body_bytes(o: Object, e: Entry)
    requires
        spec_is_served_object(o, e, None),
    ensures
        e.data@.len() > 0 ==> (o.body matches Some(b) && !b.consumed
            && b.spec_bytes() == e.data@),
        e.data@.len() == 0 ==> o.body is None,
{
    if e.data@.len() > 0 {
        let whole = e.data@.subrange(0, e.data@.len() as int);
        let chunks = seq![whole];
        assert(chunks.drop_last() =~= Seq::<Seq<u8>>::empty());
        assert(spec_concat(chunks.drop_last()) == Seq::<u8>::empty());
        assert(spec_concat(chunks) =~= whole);
        assert(whole =~= e.data@);
    }
}

/// Round trip, end to end: after storing an entry, a whole-object get of
/// its key — no conditional, no range — serves a body whose bytes are
/// exactly the stored data, and no body when the stored data is empty.
/// The put contract makes the stored data the flattened payload, for
/// every payload encoding.
pub proof fn lemma_put_get_round_trip(entries: Seq<Entry>, e: Entry, o: Object)
    requires
        spec_unique_keys(entries),
        ({
            let after = spec_put(entries, e);
            match spec_find_key(after, e.key@) {
                Some(i) => spec_is_served_object(o, after[i], None),
                None => false,
            }
        }),
    ensures
        e.data@.len() > 0 ==> (o.body matches Some(b) && !b.consumed
            && b.spec_bytes() == e.data@),
        e.data@.len() == 0 ==> o.body is None,
{
    lemma_put_stores(entries, e);
    lemma_served_body_bytes(o, e);
}

/// Metadata round trip: the entry a put stores carries exactly the
/// supplied HTTP and custom metadata — or the empty defaults — and any
/// object that echoes that entry returns them field for field.
pub proof fn lemma_metadata_round_trip(
    e: Entry,
    o: Object,
    key: Seq<char>,
    bytes: Seq<u8>,
    http_metadata: Option<HttpMetadata>,
    custom_metadata: Option<Vec<(String, String)>>,
    now: Date,
    counter: u64,
)
    requires
        spec_is_put_entry(e, key, bytes, http_metadata, custom_metadata, now, counter),
        spec_is_served_object(o, e, None),
    ensures
        o.http_metadata == match http_metadata {
            Some(m) => m,
            None => HttpMetadata::spec_empty(),
        },
        o.custom_metadata@ == match custom_metadata {
            Some(c) => c@,
            None => Seq::<(String, String)>::empty(),
        },
        o.uploaded == now,
{
}

/// One-shot body: on a fresh body handle, the first stream call
/// succeeds, and a second call — whatever state the first left — fails
/// with `BodyAlreadyConsumed` and changes nothing.
pub proof fn lemma_body_one_shot(
    ob0: ObjectBody,
    r1: Result<ByteStream, Error>,
    ob1: ObjectBody,
    r2: Result<ByteStream, Error>,
    ob2: ObjectBody,
)
    requires
        !ob0.consumed,
        spec_stream_step(ob0, r1, ob1),
        spec_stream_step(ob1, r2, ob2),
    ensures
        r1 is Ok,
        r2 == Err::<ByteStream, Error>(Error::BodyAlreadyConsumed),
        ob2 == ob1,
{
}

/// A listing without prefix and delimiter filters nothing: it lists the
/// entries as they stand.
pub proof fn lemma_filtered_all(entries: Seq<Entry>)
    ensures
        spec_filtered(entries, None, None) == entries,
    decreases entries.len(),
{
    if entries.len() == 0 {
        assert(spec_filtered(entries, None, None) =~= entries);
    } else {
        lemma_filtered_all(entries.drop_last());
        assert(spec_visible(entries.last(), None, None));
        assert(spec_filtered(entries, None, None) =~= entries);
    }
}

/// Delete visibility, first half: after a put, an unfiltered listing
/// contains the stored key.
pub proof fn lemma_put_then_list_includes(entries: Seq<Entry>, e: Entry)
    requires
        spec_unique_keys(entries),
    ensures
        ({
            let listed = spec_filtered(spec_put(entries, e), None, None);
            exists|k: int| 0 <= k < listed.len() && (#[trigger] listed[k]).key@ == e.key@
        }),
{
    lemma_put_stores(entries, e);
    lemma_filtered_all(spec_put(entries, e));
    let idx = spec_put_index(entries, e.key@);
    let listed = spec_filtered(spec_put(entries, e), None, None);
    assert(listed[idx].key@ == e.key@);
}

/// Delete visibility, second half: after a delete, no listing contains
/// the deleted key.
pub proof fn lemma_delete_then_list_excludes(entries: Seq<Entry>, key: Seq<char>)
    requires
        spec_unique_keys(entries),
    ensures
        ({
            let listed = spec_filtered(spec_delete(entries, key), None, None);
            forall|k: int| 0 <= k < listed.len() ==> (#[trigger] listed[k]).key@ != key
        }),
{
    let after = spec_delete(entries, key);
    lemma_filtered_all(after);
    lemma_find_key(entries, key);
    match spec_find_key(entries, key) {
        Some(i) => {
            assert forall|k: int| 0 <= k < after.len() implies (#[trigger] after[k]).key@
                != key by {
                if k < i {
                    assert(after[k] == entries[k]);
                } else {
                    assert(after[k] == entries[k + 1]);
                    assert(entries[i].key@ == key);
                    assert(entries[k + 1].key@ != entries[i].key@);
                }
            }
        },
        None => {
            assert(after == entries);
        },
    }
}

/// The smaller of two integers.
pub open spec fn spec_min(a: int, b: int) -> int {
    if a < b {
        a
    } else {
        b
    }
}

/// Where the p-th page starts when pages are read in order, each resumed
/// where the one before ended.
pub open spec fn spec_nth_start(n: int, lim: int, p: int) -> int
    decreases p,
{
    if p <= 0 {
        0
    } else {
        spec_page_end(n, spec_nth_start(n, lim, p - 1), lim)
    }
}

/// The listed entries of the first `p` pages, concatenated in order.
pub open spec fn spec_pages_concat(fo: Seq<Entry>, lim: int, p: int) -> Seq<Entry>
    decreases p,
{
    if p <= 0 {
        Seq::empty()
    } else {
        let n = fo.len() as int;
        let s = spec_nth_start(n, lim, p - 1);
        spec_pages_concat(fo, lim, p - 1) + fo.subrange(s, spec_page_end(n, s, lim))
    }
}

/// Page starts stay inside the listing and never move backwards.
pub proof fn lemma_nth_start_bounds(n: int, lim: int, p: int)
    requires
        0 <= n,
        1 <= lim,
        0 <= p,
    ensures
        0 <= spec_nth_start(n, lim, p) <= n,
        spec_nth_start(n, lim, p) <= spec_nth_start(n, lim, p + 1),
    decreases p,
{
    if p > 0 {
        lemma_nth_start_bounds(n, lim, p - 1);
    }
}

/// The p-th page starts at `min(p·lim, n)`: pages advance by exactly the
/// limit until the listing is exhausted.
pub proof fn lemma_nth_start_value(n: int, lim: int, p: int)
    requires
        0 <= n,
        1 <= lim,
        0 <= p,
    ensures
        spec_nth_start(n, lim, p) == spec_min(p * lim, n),
    decreases p,
{
    if p == 0 {
    } else {
        lemma_nth_start_value(n, lim, p - 1);
        assert(p * lim == (p - 1) * lim + lim) by (nonlinear_arith);
        assert((p - 1) * lim >= 0) by (nonlinear_arith)
            requires
                p >= 1 && lim >= 1,
        ;
    }
}

/// Resuming from a truncated page's cursor — the key of its last entry —
/// continues exactly at the position where the page ended: no entry is
/// repeated and none is skipped.
pub proof fn lemma_cursor_resumes(fo: Seq<Entry>, start: int, lim: int)
    requires
        spec_unique_keys(fo),
        0 <= start <= fo.len(),
        1 <= lim,
        spec_page_end(fo.len() as int, start, lim) < fo.len(),
    ensures
        ({
            let end = spec_page_end(fo.len() as int, start, lim);
            crate::builder::spec_list_start(fo, Some(fo[end - 1].key@)) == end
        }),
{
    let end = spec_page_end(fo.len() as int, start, lim);
    lemma_find_key_at(fo, fo[end - 1].key@, end - 1);
}

/// The first `p` pages, concatenated, are exactly the listing up to the
/// p-th page's start: nothing is repeated and nothing is dropped.
pub proof fn lemma_pages_concat_covers(fo: Seq<Entry>, lim: int, p: int)
    requires
        1 <= lim,
        0 <= p,
    ensures
        spec_pages_concat(fo, lim, p) == fo.take(spec_nth_start(fo.len() as int, lim, p)),
    decreases p,
{
    let n = fo.len() as int;
    if p == 0 {
        assert(spec_pages_concat(fo, lim, 0) =~= fo.take(0));
    } else {
        lemma_pages_concat_covers(fo, lim, p - 1);
        lemma_nth_start_bounds(n, lim, p - 1);
        let s = spec_nth_start(n, lim, p - 1);
        let e = spec_page_end(n, s, lim);
        assert(fo.take(s) + fo.subrange(s, e) =~= fo.take(e));
    }
}

/// Pagination completeness: reading a listing of `n ≥ 1` entries page by
/// page with limit `lim`, each page resumed from the cursor of the one
/// before, takes exactly `⌈n / lim⌉` pages.  Their concatenation is the
/// whole listing — no entry repeated, none omitted — every page before
/// the last is truncated, the last is not, and each truncated page's
/// cursor resumes exactly at the next page's start.
pub proof fn lemma_pagination_completeness(fo: Seq<Entry>, lim: int)
    requires
        spec_unique_keys(fo),
        1 <= fo.len(),
        1 <= lim,
    ensures
        ({
            let n = fo.len() as int;
            let pc = (n + lim - 1) / lim;
            &&& 1 <= pc
            &&& spec_pages_concat(fo, lim, pc) == fo
            &&& forall|p: int|
                0 <= p < pc ==> #[trigger] spec_nth_start(n, lim, p) < spec_page_end(
                    n,
                    spec_nth_start(n, lim, p),
                    lim,
                )
            &&& forall|p: int|
                0 <= p < pc - 1 ==> #[trigger] spec_page_end(n, spec_nth_start(n, lim, p), lim)
                    < n
            &&& spec_page_end(n, spec_nth_start(n, lim, pc - 1), lim) == n
            &&& forall|p: int|
                0 <= p < pc - 1 ==> crate::builder::spec_list_start(
                    fo,
                    Some(
                        fo[spec_page_end(n, #[trigger] spec_nth_start(n, lim, p), lim)
                            - 1].key@,
                    ),
                ) == spec_nth_start(n, lim, p + 1)
        }),
{
    let n = fo.len() as int;
    let pc = (n + lim - 1) / lim;
    broadcast use vstd::arithmetic::div_mod::lemma_fundamental_div_mod;
    broadcast use vstd::arithmetic::div_mod::lemma_mod_bound;

    let r = (n + lim - 1) % lim;
    assert(n + lim - 1 == lim * pc + r);
    assert(0 <= r < lim);
    assert(pc * lim == lim * pc) by (nonlinear_arith);
    assert(pc * lim >= n);
    assert((pc - 1) * lim == lim * pc - lim) by (nonlinear_arith);
    assert((pc - 1) * lim < n);
    assert(pc >= 1) by (nonlinear_arith)
        requires
            (pc - 1) * lim < n && pc * lim >= n && lim >= 1 && n >= 1,
    ;

    lemma_nth_start_value(n, lim, pc);
    assert(spec_nth_start(n, lim, pc) == n);
    lemma_nth_start_value(n, lim, pc - 1);
    lemma_pages_concat_covers(fo, lim, pc);
    assert(fo.take(n) =~= fo);

    assert forall|p: int| 0 <= p < pc implies #[trigger] spec_nth_start(n, lim, p)
        < spec_page_end(n, spec_nth_start(n, lim, p), lim) by {
        lemma_nth_start_value(n, lim, p);
        assert(p * lim <= (pc - 1) * lim) by (nonlinear_arith)
            requires
                p <= pc - 1 && lim >= 1,
        ;
    }
    assert forall|p: int| 0 <= p < pc - 1 implies #[trigger] spec_page_end(
        n,
        spec_nth_start(n, lim, p),
        lim,
    ) < n by {
        lemma_nth_start_value(n, lim, p);
        lemma_nth_start_value(n, lim, p + 1);
        assert((p + 1) * lim == p * lim + lim) by (nonlinear_arith);
        assert((p + 1) * lim <= (pc - 1) * lim) by (nonlinear_arith)
            requires
                p + 1 <= pc - 1 && lim >= 1,
        ;
    }
    assert(spec_page_end(n, spec_nth_start(n, lim, pc - 1), lim) == n) by {
        lemma_nth_start_value(n, lim, pc - 1);
    }
    assert forall|p: int| 0 <= p < pc - 1 implies crate::builder::spec_list_start(
        fo,
        Some(fo[spec_page_end(n, #[trigger] spec_nth_start(n, lim, p), lim) - 1].key@),
    ) == spec_nth_start(n, lim, p + 1) by {
        lemma_nth_start_bounds(n, lim, p);
        lemma_nth_start_value(n, lim, p);
        lemma_nth_start_value(n, lim, p + 1);
        assert((p + 1) * lim == p * lim + lim) by (nonlinear_arith);
        assert((p + 1) * lim <= (pc - 1) * lim) by (nonlinear_arith)
            requires
                p + 1 <= pc - 1 && lim >= 1,
        ;
        lemma_cursor_resumes(fo, spec_nth_start(n, lim, p), lim);
    }
}

/// Conditional exclusion: on a well-formed bucket every stored etag has
/// 32 characters, so a conditional demanding an etag match of any other
/// length fails, and a get under it returns metadata with no body.
pub proof fn lemma_conditional_excluded(b: Bucket, i: int, c: R2Conditional)
    requires
        b.wf(),
        0 <= i < b.entries@.len(),
        (c.etag_matches matches Some(s) && s@.len() != 32),
    ensures
        !spec_cond_passes(Some(c), b.entries@[i]),
{
    assert(b.entries@[i].etag@.len() == 32);
}

/// Range validity: a raw byte-range triple that sets a suffix beside an
/// offset or a length, or sets no field at all, resolves to no canonical
/// form and is rejected at construction.
pub proof fn lemma_range_validity(
    offset: Option<u32>,
    length: Option<u32>,
    suffix: Option<u32>,
)
    ensures
        length is Some && suffix is Some ==> !spec_raw_range_valid(offset, length, suffix),
        offset is Some && suffix is Some ==> !spec_raw_range_valid(offset, length, suffix),
        offset is None && length is None && suffix is None ==> !spec_raw_range_valid(
            offset,
            length,
            suffix,
        ),
{
}

/// A valid raw range survives the trip through its canonical form: what
/// construction accepts, encoding sends back out unchanged.
pub proof fn lemma_range_raw_round_trip(
    offset: Option<u32>,
    length: Option<u32>,
    suffix: Option<u32>,
)
    requires
        spec_raw_range_valid(offset, length, suffix),
    ensures
        crate::range::spec_raw_of_range(crate::range::spec_range_of_raw(offset, length, suffix))
            == (offset, length, suffix),
{
}

} // verus!
