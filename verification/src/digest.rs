use vstd::prelude::*;

verus! {

/// The sixteen-byte MD5 digest of a byte sequence.  The store derives an
/// object's content etag from this digest and checks supplied upload
/// checksums against it.
pub uninterp spec fn md5_of(data: Seq<u8>) -> Seq<u8>;

/// Relies on md5::compute: the digest depends on the input bytes alone and
/// is always sixteen bytes long.
#[verifier::external_body]
pub(crate) fn md5_digest(data: &Vec<u8>) -> (r: Vec<u8>)
    ensures
        r@ == md5_of(data@),
        r@.len() == 16,
{
    md5::compute(data.as_slice()).0.to_vec()
}

/// The lowercase hex digit for a value below sixteen.
pub open spec fn spec_hex_digit(d: int) -> char {
    "0123456789abcdef"@[d]
}

/// The lowercase hex rendering of a byte sequence, two digits per byte.
pub open spec fn spec_hex(bytes: Seq<u8>) -> Seq<char> {
    Seq::new(
        2 * bytes.len(),
        |i: int| if i % 2 == 0 {
            spec_hex_digit(bytes[i / 2] as int / 16)
        } else {
            spec_hex_digit(bytes[i / 2] as int % 16)
        },
    )
}

/// The content etag of stored data: the hex rendering of its MD5 digest.
pub open spec fn spec_etag(data: Seq<u8>) -> Seq<char> {
    spec_hex(md5_of(data))
}

/// Renders bytes as lowercase hex, two digits per byte.
pub fn hex_encode(bytes: &Vec<u8>) -> (r: String)
    ensures
        r@ == spec_hex(bytes@),
{
    let digits = "0123456789abcdef";
    proof {
        reveal_strlit("0123456789abcdef");
    }
    let mut out = String::new();
    let mut i: usize = 0;
    while i < bytes.len()
        invariant
            i <= bytes.len(),
            digits@.len() == 16,
            digits@ == "0123456789abcdef"@,
            out@ == spec_hex(bytes@.subrange(0, i as int)),
        decreases bytes.len() - i,
    {
        let b = bytes[i];
        let hi = (b / 16) as usize;
        let lo = (b % 16) as usize;
        let hi_piece = digits.substring_char(hi, hi + 1);
        out.append(hi_piece);
        let lo_piece = digits.substring_char(lo, lo + 1);
        out.append(lo_piece);
        proof {
            assert(hi_piece@ =~= seq![spec_hex_digit(b as int / 16)]);
            assert(lo_piece@ =~= seq![spec_hex_digit(b as int % 16)]);
            assert(out@ =~= spec_hex(bytes@.subrange(0, i + 1 as int)));
        }
        i = i + 1;
    }
    proof {
        assert(bytes@.subrange(0, bytes@.len() as int) =~= bytes@);
    }
    out
}

/// Byte `i` of `v` in big-endian order.
pub open spec fn spec_u64_byte(v: u64, i: int) -> u8 {
    ((v >> (((7 - i) * 8) as u64)) & 0xff) as u8
}

/// The eight bytes of `v`, big-endian.
pub open spec fn spec_u64_bytes(v: u64) -> Seq<u8> {
    Seq::new(8, |i: int| spec_u64_byte(v, i))
}

/// The generation tag minted for the `counter`-th write: the hex rendering
/// of the counter's eight bytes.
pub open spec fn spec_version(counter: u64) -> Seq<char> {
    spec_hex(spec_u64_bytes(counter))
}

/// Renders a write counter as its sixteen-character generation tag.
pub fn version_string(counter: u64) -> (r: String)
    ensures
        r@ == spec_version(counter),
{
    let mut bytes: Vec<u8> = Vec::new();
    bytes.push(((counter >> 56u64) & 0xff) as u8);
    bytes.push(((counter >> 48u64) & 0xff) as u8);
    bytes.push(((counter >> 40u64) & 0xff) as u8);
    bytes.push(((counter >> 32u64) & 0xff) as u8);
    bytes.push(((counter >> 24u64) & 0xff) as u8);
    bytes.push(((counter >> 16u64) & 0xff) as u8);
    bytes.push(((counter >> 8u64) & 0xff) as u8);
    bytes.push(((counter >> 0u64) & 0xff) as u8);
    proof {
        assert(bytes@ =~= spec_u64_bytes(counter));
    }
    hex_encode(&bytes)
}

/// A string wrapped in double quotes, as an etag appears in an HTTP header.
pub open spec fn spec_quoted(s: Seq<char>) -> Seq<char> {
    seq!['"'] + s + seq!['"']
}

/// Wraps a string in double quotes.
pub fn quote_string(s: &String) -> (r: String)
    ensures
        r@ == spec_quoted(s@),
{
    proof {
        reveal_strlit("\"");
    }
    let mut r = String::from_str("\"");
    r.append(s.as_str());
    r.append("\"");
    proof {
        assert("\""@ =~= seq!['"']);
        assert(r@ =~= spec_quoted(s@));
    }
    r
}

} // verus!
