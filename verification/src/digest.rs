//! Content digests used to name tickets.
use vstd::prelude::*;
use crate::text::push_char;

verus! {

/// The SHA-256 digest of a byte sequence.
pub uninterp spec fn sha256_of(data: Seq<u8>) -> Seq<u8>;

/// SHA-256 of `data`, through `sha2::Sha256` (`Digest::digest`).
/// Trusted: the digest is `sha256_of(data)`, and it is 32 bytes long
/// (the output size of `Sha256` is `U32`).
#[verifier::external_body]
fn sha256(data: &[u8]) -> (d: Vec<u8>)
    ensures
        d@ == sha256_of(data@),
        d@.len() == 32,
{
    <sha2::Sha256 as sha2::Digest>::digest(data).to_vec()
}

/// Lower-case hexadecimal digit for a value below 16.
pub open spec fn hex_digit(n: int) -> char {
    if n < 10 {
        (('0' as int) + n) as char
    } else {
        (('a' as int) + n - 10) as char
    }
}

/// Two lower-case hexadecimal digits per byte, most significant first.
pub open spec fn lower_hex(bytes: Seq<u8>) -> Seq<char>
    decreases bytes.len(),
{
    if bytes.len() == 0 {
        Seq::empty()
    } else {
        let b = bytes.last();
        lower_hex(bytes.drop_last()) + seq![hex_digit((b / 16) as int), hex_digit((b % 16) as int)]
    }
}

const HEX_LOWER: [char; 16] = ['0', '1', '2', '3', '4', '5', '6', '7', '8', '9', 'a', 'b', 'c', 'd', 'e', 'f'];

pub(crate) fn hex_digit_of(n: u8) -> (c: char)
    requires
        n < 16,
    ensures
        c == hex_digit(n as int),
{
    proof {
        assert(HEX_LOWER@ =~= seq!['0', '1', '2', '3', '4', '5', '6', '7', '8', '9', 'a', 'b', 'c', 'd', 'e', 'f']);
    }
    HEX_LOWER[n as usize]
}

/// Appends the lower-case hexadecimal form of `bytes[..count]` to `out`.
pub fn push_lower_hex(out: &mut String, bytes: &[u8], count: usize)
    requires
        count <= bytes@.len(),
    ensures
        final(out)@ == old(out)@ + lower_hex(bytes@.take(count as int)),
{
    let ghost start = out@;
    for i in 0..count
        invariant
            count <= bytes@.len(),
            out@ == start + lower_hex(bytes@.take(i as int)),
    {
        let b = bytes[i];
        push_char(out, hex_digit_of(b / 16));
        push_char(out, hex_digit_of(b % 16));
        proof {
            let t = bytes@.take(i + 1);
            assert(t.drop_last() =~= bytes@.take(i as int));
            assert(t.last() == b);
            assert(start + lower_hex(t) =~= start + lower_hex(bytes@.take(i as int)) + seq![hex_digit((b / 16) as int), hex_digit((b % 16) as int)]);
        }
    }
}

/// The identifier text of serialized content: the first sixteen lower-case hex
/// digits of its SHA-256 digest.
pub open spec fn content_id(serialized: Seq<char>) -> Seq<char> {
    lower_hex(sha256_of(vstd::utf8::encode_utf8(serialized)).take(8))
}

/// Computes `content_id` of a string.
pub fn content_id_of(serialized: &str) -> (r: String)
    ensures
        r@ == content_id(serialized@),
        r@.len() == 16,
{
    let d = sha256(serialized.as_bytes());
    let mut r = String::new();
    push_lower_hex(&mut r, d.as_slice(), 8);
    proof {
        lemma_lower_hex_len(d@.take(8));
        assert(Seq::<char>::empty() + lower_hex(d@.take(8)) =~= lower_hex(d@.take(8)));
    }
    r
}

/// Hex text is twice as long as its bytes.
pub proof fn lemma_lower_hex_len(bytes: Seq<u8>)
    ensures
        lower_hex(bytes).len() == 2 * bytes.len(),
    decreases bytes.len(),
{
    if bytes.len() > 0 {
        lemma_lower_hex_len(bytes.drop_last());
    }
}

} // verus!
