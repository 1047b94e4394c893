//! Content identifiers: a 64-bit digest of a payload, written as sixteen
//! lowercase hexadecimal digits.
use std::collections::hash_map::DefaultHasher;
use std::hash::Hasher;
use vstd::prelude::*;
use vstd::std_specs::hash::DefaultHasherAdditionalSpecFns;
use vstd::string::StrSliceExecFns;
use vstd::string::StringExecFns;
use vstd::utf8::encode_utf8;

verus! {

/// A content identifier, as text.
pub type CID = String;

/// The hexadecimal digits, in the order of their values.
pub open spec fn hex_alphabet() -> Seq<char> {
    seq!['0', '1', '2', '3', '4', '5', '6', '7', '8', '9', 'a', 'b', 'c', 'd', 'e', 'f']
}

/// The value of the `i`-th group of four bits of `v`, counted from the most
/// significant group.
pub open spec fn nibble(v: u64, i: int) -> int
    recommends
        0 <= i < 16,
{
    ((v >> ((60 - 4 * i) as u64)) & 0xf) as int
}

/// `v` written as sixteen lowercase hexadecimal digits, most significant
/// digit first, with leading zeros kept.
pub open spec fn hex16(v: u64) -> Seq<char> {
    Seq::new(16, |i: int| hex_alphabet()[nibble(v, i)])
}

/// The bytes that are hashed for a payload: its UTF-8 encoding, then one byte
/// `0xff`, which no encoding contains and which therefore marks the end.
pub open spec fn hashed_writes(payload: Seq<char>) -> Seq<Seq<u8>> {
    seq![encode_utf8(payload), seq![0xffu8]]
}

/// The 64-bit digest of a payload.
pub open spec fn digest(payload: Seq<char>) -> u64 {
    DefaultHasher::spec_finish(hashed_writes(payload))
}

/// The content identifier of a payload.
pub open spec fn content_id(payload: Seq<char>) -> Seq<char> {
    hex16(digest(payload))
}

/// Hashes a payload with the standard library's default hasher.
pub fn digest_of(data: &str) -> (d: u64)
    ensures
        d == digest(data@),
{
    let mut hasher = DefaultHasher::new();
    hasher.write(data.as_bytes());
    let end: [u8; 1] = [0xffu8];
    let tail = end.as_slice();
    assert(tail@ =~= seq![0xffu8]);
    hasher.write(tail);
    assert(hasher@ =~= hashed_writes(data@));
    hasher.finish()
}

/// Writes `v` as sixteen lowercase hexadecimal digits.
pub fn hex16_of(v: u64) -> (s: String)
    ensures
        s@ == hex16(v),
{
    let alphabet = "0123456789abcdef";
    proof {
        reveal_strlit("0123456789abcdef");
    }
    let mut out = String::new();
    let mut i: usize = 0;
    while i < 16
        invariant
            i <= 16,
            alphabet@ == hex_alphabet(),
            alphabet.is_ascii(),
            out@.len() == i,
            forall|j: int| 0 <= j < i ==> out@[j] == hex_alphabet()[nibble(v, j)],
        decreases 16 - i,
    {
        let shift: u64 = 60 - 4 * (i as u64);
        let n: usize = ((v >> shift) & 0xf) as usize;
        assert(((v >> shift) & 0xf) < 16) by (bit_vector);
        let digit = alphabet.substring_ascii(n, n + 1);
        out.append(digit);
        i += 1;
    }
    out
}

/// A content identifier has sixteen characters, each a lowercase hexadecimal
/// digit.
pub proof fn lemma_content_id_shape(payload: Seq<char>)
    ensures
        content_id(payload).len() == 16,
        forall|i: int|
            0 <= i < 16 ==> hex_alphabet().contains(#[trigger] content_id(payload)[i]),
{
    let v = digest(payload);
    assert forall|i: int| 0 <= i < 16 implies hex_alphabet().contains(
        #[trigger] content_id(payload)[i],
    ) by {
        let shift = (60 - 4 * i) as u64;
        assert(((v >> shift) & 0xf) < 16) by (bit_vector);
    }
}

} // verus!
