//! SHA-1 digests through `ring` and lowercase hex through `hex`.

use vstd::prelude::*;

verus! {

#[verifier::external_type_specification]
#[verifier::external_body]
pub struct ExContext(ring::digest::Context);

/// The SHA-1 digest of a byte sequence.
pub uninterp spec fn sha1_of(m: Seq<u8>) -> Seq<u8>;

/// What a SHA-1 context has been fed so far; `None` for a context of
/// another algorithm.
pub uninterp spec fn sha1_input(c: ring::digest::Context) -> Option<Seq<u8>>;

/// Largest number of bytes whose bit length `ring` can count in a `u64`.
pub const MAX_DIGEST_INPUT: u64 = 0x1fff_ffff_ffff_ffff;

/// The lowercase hexadecimal digits.
pub open spec fn hex_digits() -> Seq<char> {
    seq!['0', '1', '2', '3', '4', '5', '6', '7', '8', '9', 'a', 'b', 'c', 'd', 'e', 'f']
}

/// Two lowercase hex digits for each byte, high nibble first.
pub open spec fn hex_spec(b: Seq<u8>) -> Seq<char>
    decreases b.len(),
{
    if b.len() == 0 {
        Seq::empty()
    } else {
        hex_spec(b.drop_last()) + seq![
            hex_digits()[(b.last() / 16) as int],
            hex_digits()[(b.last() % 16) as int],
        ]
    }
}

/// Hex notation has two digits for each byte.
pub proof fn lemma_hex_len(b: Seq<u8>)
    ensures
        hex_spec(b).len() == 2 * b.len(),
    decreases b.len(),
{
    if b.len() > 0 {
        lemma_hex_len(b.drop_last());
    }
}

/// Relies on ring::digest::Context::new with SHA1_FOR_LEGACY_USE_ONLY:
/// a fresh SHA-1 context that has absorbed nothing.
#[verifier::external_body]
pub(crate) fn sha1_context() -> (r: ring::digest::Context)
    ensures
        sha1_input(r) == Some(Seq::<u8>::empty()),
{
    ring::digest::Context::new(&ring::digest::SHA1_FOR_LEGACY_USE_ONLY)
}

/// Relies on ring::digest::Context::update: the data is appended to what
/// the context has absorbed, and its algorithm stays.
#[verifier::external_body]
pub(crate) fn digest_update(c: &mut ring::digest::Context, data: &[u8])
    ensures
        sha1_input(*old(c)) is Some ==> sha1_input(*final(c)) == Some(
            sha1_input(*old(c))->Some_0 + data@,
        ),
{
    c.update(data)
}

/// Relies on ring::digest::Context::finish: the SHA-1 digest (20 bytes) of
/// all the absorbed data. It panics when the bit length overflows a `u64`.
#[verifier::external_body]
pub(crate) fn digest_finish(c: ring::digest::Context) -> (r: Vec<u8>)
    requires
        sha1_input(c) is Some,
        sha1_input(c)->Some_0.len() <= MAX_DIGEST_INPUT,
    ensures
        r@ == sha1_of(sha1_input(c)->Some_0),
        r@.len() == 20,
{
    c.finish().as_ref().to_vec()
}

/// Relies on hex::encode: two lowercase digits for each byte.
#[verifier::external_body]
pub(crate) fn to_hex(b: &[u8]) -> (r: String)
    ensures
        r@ == hex_spec(b@),
{
    hex::encode(b)
}

} // verus!
