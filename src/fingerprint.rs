//! The partial-content fingerprint of a video file.
//!
//! A file shorter than [`FULL_READ_LIMIT`] is hashed whole. A longer one is
//! hashed over three windows of [`WINDOW_LEN`] bytes: at its start, at a
//! third of its size, and at its end. The file is read by the caller, by
//! [`read_plan`]; [`calc_cid_hash`] folds what was read into the digest.

use crate::digest::{
    digest_finish, digest_update, hex_spec, lemma_hex_len, sha1_context, sha1_input, sha1_of, to_hex,
    MAX_DIGEST_INPUT,
};
use crate::error::{result_view, Error};
use vstd::prelude::*;

verus! {

/// Files of at least this many bytes are sampled rather than read whole.
pub const FULL_READ_LIMIT: u64 = 0xf000;

/// The size of each sampled window.
pub const WINDOW_LEN: u64 = 0x5000;

/// How a file of a given size is to be read.
#[derive(Clone, Copy, Debug, PartialEq, Eq, Structural)]
pub enum ReadPlan {
    /// Read all of the file, in any number of pieces.
    WholeFile,
    /// Read exactly [`WINDOW_LEN`] bytes at each of the three offsets, in order.
    Windows(u64, u64, u64),
}

/// The offsets of the three windows of a file of `n` bytes.
pub open spec fn window_offsets(n: nat) -> Seq<nat> {
    seq![0, n / 3, (n - WINDOW_LEN) as nat]
}

/// The bytes of one window of `content`.
pub open spec fn window(content: Seq<u8>, start: nat) -> Seq<u8> {
    content.subrange(start as int, start + WINDOW_LEN)
}

/// The bytes that the fingerprint of `content` is computed over.
pub open spec fn sampled_bytes(content: Seq<u8>) -> Seq<u8> {
    if content.len() < FULL_READ_LIMIT {
        content
    } else {
        let w = window_offsets(content.len());
        window(content, w[0]) + window(content, w[1]) + window(content, w[2])
    }
}

/// The fingerprint of a file whose bytes are `content`.
pub open spec fn fingerprint_spec(content: Seq<u8>) -> Seq<char> {
    hex_spec(sha1_of(sampled_bytes(content)))
}

/// The views of the pieces that were read.
pub open spec fn pieces_view(pieces: Seq<Vec<u8>>) -> Seq<Seq<u8>> {
    pieces.map_values(|p: Vec<u8>| p@)
}

/// Whether the pieces read are the three full windows that sampling asks for.
pub open spec fn full_windows(pieces: Seq<Vec<u8>>) -> bool {
    &&& pieces.len() == 3
    &&& forall|i: int| 0 <= i < 3 ==> #[trigger] pieces[i]@.len() == WINDOW_LEN
}

/// What [`calc_cid_hash`] returns for a file of `file_size` bytes of which
/// `pieces` were read as [`read_plan`] says.
pub open spec fn cid_hash_result(file_size: nat, pieces: Seq<Vec<u8>>) -> Result<Seq<char>, Error> {
    if file_size < FULL_READ_LIMIT || full_windows(pieces) {
        Ok(hex_spec(sha1_of(pieces_view(pieces).flatten())))
    } else {
        Err(Error::Io)
    }
}

proof fn lemma_flatten_three(v: Seq<Seq<u8>>)
    requires
        v.len() == 3,
    ensures
        v.flatten() == v[0] + v[1] + v[2],
{
    v.lemma_flatten_and_flatten_alt_are_equivalent();
    assert(v.drop_last() =~= seq![v[0], v[1]]);
    assert(v.drop_last().drop_last() =~= seq![v[0]]);
    assert(v.drop_last().drop_last().drop_last() =~= Seq::<Seq<u8>>::empty());
    reveal_with_fuel(Seq::flatten_alt, 4);
}

/// Says which bytes of a file of `file_size` bytes are to be read.
pub fn read_plan(file_size: u64) -> (r: ReadPlan)
    ensures
        file_size < FULL_READ_LIMIT ==> r == ReadPlan::WholeFile,
        file_size >= FULL_READ_LIMIT ==> r == ReadPlan::Windows(
            window_offsets(file_size as nat)[0] as u64,
            window_offsets(file_size as nat)[1] as u64,
            window_offsets(file_size as nat)[2] as u64,
        ),
{
    if file_size < FULL_READ_LIMIT {
        ReadPlan::WholeFile
    } else {
        ReadPlan::Windows(0, file_size / 3, file_size - WINDOW_LEN)
    }
}

/// The fingerprint of a file of `file_size` bytes from the pieces read of it
/// as [`read_plan`] says: the lowercase hex SHA-1 digest of the pieces in
/// order. For a sampled file each of the three windows must be complete,
/// else the read fell short and the result is [`Error::Io`].
pub fn calc_cid_hash(file_size: u64, pieces: &Vec<Vec<u8>>) -> (r: Result<String, Error>)
    requires
        file_size < FULL_READ_LIMIT ==> pieces_view(pieces@).flatten().len() <= MAX_DIGEST_INPUT,
    ensures
        result_view(r) == cid_hash_result(file_size as nat, pieces@),
        r is Ok ==> r->Ok_0@.len() == 40,
{
    if file_size >= FULL_READ_LIMIT {
        if pieces.len() != 3 {
            return Err(Error::Io);
        }
        let mut k: usize = 0;
        while k < 3
            invariant
                pieces@.len() == 3,
                file_size >= FULL_READ_LIMIT,
                0 <= k <= 3,
                forall|i: int| 0 <= i < k ==> #[trigger] pieces@[i]@.len() == WINDOW_LEN,
            decreases 3 - k,
        {
            if pieces[k].len() as u64 != WINDOW_LEN {
                assert(!full_windows(pieces@)) by {
                    assert(pieces@[k as int]@.len() != WINDOW_LEN);
                }
                return Err(Error::Io);
            }
            k = k + 1;
        }
        proof {
            assert(full_windows(pieces@));
            lemma_flatten_three(pieces_view(pieces@));
        }
    }
    let mut ctx = sha1_context();
    let mut i: usize = 0;
    while i < pieces.len()
        invariant
            0 <= i <= pieces@.len(),
            sha1_input(ctx) == Some(pieces_view(pieces@).subrange(0, i as int).flatten()),
        decreases pieces@.len() - i,
    {
        proof {
            let v = pieces_view(pieces@);
            v.subrange(0, i as int).lemma_flatten_push(v[i as int]);
            assert(v.subrange(0, i as int).push(v[i as int]) =~= v.subrange(0, i + 1));
        }
        digest_update(&mut ctx, pieces[i].as_slice());
        i = i + 1;
    }
    proof {
        let v = pieces_view(pieces@);
        assert(v.subrange(0, i as int) =~= v);
        if file_size >= FULL_READ_LIMIT {
            assert(v.flatten().len() == 3 * WINDOW_LEN);
        }
    }
    let digest = digest_finish(ctx);
    let hex = to_hex(digest.as_slice());
    proof {
        lemma_hex_len(digest@);
    }
    Ok(hex)
}

/// Whether `pieces` is a complete reading of a file whose bytes are
/// `content`, made as [`read_plan`] says.
pub open spec fn is_reading_of(content: Seq<u8>, pieces: Seq<Vec<u8>>) -> bool {
    if content.len() < FULL_READ_LIMIT {
        pieces_view(pieces).flatten() == content
    } else {
        let w = window_offsets(content.len());
        &&& pieces.len() == 3
        &&& forall|i: int| 0 <= i < 3 ==> #[trigger] pieces[i]@ == window(content, w[i])
    }
}

/// Whether byte `i` of a file of `n` bytes lies in one of its windows.
pub open spec fn in_window(n: nat, i: int) -> bool {
    let w = window_offsets(n);
    ||| w[0] <= i < w[0] + WINDOW_LEN
    ||| w[1] <= i < w[1] + WINDOW_LEN
    ||| w[2] <= i < w[2] + WINDOW_LEN
}

/// Each window of a file that is sampled lies inside the file.
pub proof fn lemma_windows_inside(n: nat)
    requires
        n >= FULL_READ_LIMIT,
    ensures
        forall|i: int| 0 <= i < 3 ==> #[trigger] window_offsets(n)[i] + WINDOW_LEN <= n,
{
    assert(n / 3 + WINDOW_LEN <= n) by (nonlinear_arith)
        requires
            n >= FULL_READ_LIMIT,
    ;
}

/// A complete reading of a file gives its fingerprint.
pub proof fn lemma_reading_gives_fingerprint(content: Seq<u8>, pieces: Seq<Vec<u8>>)
    requires
        is_reading_of(content, pieces),
    ensures
        cid_hash_result(content.len(), pieces) == Ok::<Seq<char>, Error>(fingerprint_spec(content)),
{
    if content.len() >= FULL_READ_LIMIT {
        lemma_windows_inside(content.len());
        let w = window_offsets(content.len());
        let v = pieces_view(pieces);
        assert(pieces[0]@ == window(content, w[0]));
        assert(pieces[1]@ == window(content, w[1]));
        assert(pieces[2]@ == window(content, w[2]));
        assert(full_windows(pieces));
        lemma_flatten_three(v);
        assert(v.flatten() == sampled_bytes(content));
    }
}

/// A file shorter than [`FULL_READ_LIMIT`] is hashed whole: its fingerprint
/// is the hex SHA-1 digest of all its bytes, however it was split into
/// pieces when read.
pub proof fn lemma_short_file_hashed_whole(content: Seq<u8>, pieces: Seq<Vec<u8>>)
    requires
        content.len() < FULL_READ_LIMIT,
        pieces_view(pieces).flatten() == content,
    ensures
        fingerprint_spec(content) == hex_spec(sha1_of(content)),
        cid_hash_result(content.len(), pieces) == Ok::<Seq<char>, Error>(hex_spec(sha1_of(content))),
{
}

/// The fingerprint of a file of at least [`FULL_READ_LIMIT`] bytes depends
/// only on its size and the bytes of its three windows: two files of one
/// size that agree inside the windows have the same fingerprint.
pub proof fn lemma_sampled_file_depends_on_windows(a: Seq<u8>, b: Seq<u8>)
    requires
        a.len() == b.len(),
        a.len() >= FULL_READ_LIMIT,
        forall|i: int| 0 <= i < a.len() && in_window(a.len(), i) ==> #[trigger] a[i] == b[i],
    ensures
        fingerprint_spec(a) == fingerprint_spec(b),
{
    let n = a.len();
    let w = window_offsets(n);
    lemma_windows_inside(n);
    assert forall|k: int| 0 <= k < 3 implies window(a, #[trigger] w[k]) =~= window(b, w[k]) by {
        assert forall|j: int| 0 <= j < WINDOW_LEN implies #[trigger] window(a, w[k])[j] == window(b, w[k])[j] by {
            assert(in_window(n, w[k] + j));
        }
    }
    assert(sampled_bytes(a) == sampled_bytes(b));
}

/// Changing a byte inside a window of a sampled file changes the bytes
/// that are digested.
pub proof fn lemma_window_byte_is_digested(a: Seq<u8>, k: int, j: int, x: u8)
    requires
        a.len() >= FULL_READ_LIMIT,
        0 <= k < 3,
        0 <= j < WINDOW_LEN,
        a[window_offsets(a.len())[k] + j] != x,
    ensures
        sampled_bytes(a.update(window_offsets(a.len())[k] + j, x)) != sampled_bytes(a),
{
    let n = a.len();
    let w = window_offsets(n);
    let b = a.update(w[k] + j, x);
    lemma_windows_inside(n);
    let p = k * WINDOW_LEN + j;
    assert(window(b, w[k])[j] != window(a, w[k])[j]);
    if k == 0 {
        assert(sampled_bytes(b)[p] == window(b, w[0])[j]);
        assert(sampled_bytes(a)[p] == window(a, w[0])[j]);
    } else if k == 1 {
        assert(sampled_bytes(b)[p] == window(b, w[1])[j]);
        assert(sampled_bytes(a)[p] == window(a, w[1])[j]);
    } else {
        assert(sampled_bytes(b)[p] == window(b, w[2])[j]);
        assert(sampled_bytes(a)[p] == window(a, w[2])[j]);
    }
}

/// Fingerprinting is deterministic: any two complete readings of the same
/// bytes give the same result.
pub proof fn lemma_fingerprint_deterministic(content: Seq<u8>, first: Seq<Vec<u8>>, second: Seq<Vec<u8>>)
    requires
        is_reading_of(content, first),
        is_reading_of(content, second),
    ensures
        cid_hash_result(content.len(), first) == cid_hash_result(content.len(), second),
{
    lemma_reading_gives_fingerprint(content, first);
    lemma_reading_gives_fingerprint(content, second);
}

} // verus!
