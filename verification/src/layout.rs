//! The fixed slot byte layout.
//!
//! A live slot's image is
//! `[owner: 32 bytes][title_len: 4 bytes][title][message_len: 4 bytes][message]`,
//! with both length prefixes little-endian and the two variable fields
//! bounded by their note field bounds. No partially populated image is
//! valid: decoding either yields a fully populated, well-formed note or
//! rejects the bytes.

use vstd::prelude::*;
use crate::bytes::append_bytes;
use crate::identity::{Identity, IDENTITY_LEN};
use crate::note::{Note, MAX_MESSAGE_LEN, MAX_TITLE_LEN};

verus! {

/// Fixed capacity in bytes of a slot: the layout at full field bounds.
pub const SLOT_CAPACITY: usize = 32 + 4 + 50 + 4 + 1000;

/// The four little-endian bytes of a 32-bit length prefix.
pub open spec fn u32_le_bytes(n: u32) -> Seq<u8> {
    seq![
        (n & 0xff) as u8,
        ((n >> 8) & 0xff) as u8,
        ((n >> 16) & 0xff) as u8,
        ((n >> 24) & 0xff) as u8,
    ]
}

/// The 32-bit value held by four little-endian bytes.
pub open spec fn u32_from_le(b: Seq<u8>) -> u32
    recommends
        b.len() == 4,
{
    (b[0] as u32) | ((b[1] as u32) << 8) | ((b[2] as u32) << 16) | ((b[3] as u32) << 24)
}

/// Writing a 32-bit length prefix and reading it back is the identity.
pub proof fn lemma_u32_le_round_trip(n: u32)
    ensures
        u32_from_le(u32_le_bytes(n)) == n,
{
    let b = u32_le_bytes(n);
    assert(b[0] == (n & 0xff) as u8);
    assert(b[1] == ((n >> 8) & 0xff) as u8);
    assert(b[2] == ((n >> 16) & 0xff) as u8);
    assert(b[3] == ((n >> 24) & 0xff) as u8);
    assert(((((n & 0xff) as u8) as u32) | ((((n >> 8) & 0xff) as u8) as u32) << 8
        | ((((n >> 16) & 0xff) as u8) as u32) << 16 | ((((n >> 24) & 0xff) as u8) as u32) << 24)
        == n) by (bit_vector);
}

/// Reading four bytes as a length prefix and writing that prefix back is the
/// identity.
pub proof fn lemma_u32_from_le_round_trip(s: Seq<u8>)
    requires
        s.len() == 4,
    ensures
        u32_le_bytes(u32_from_le(s)) == s,
{
    let b0 = s[0];
    let b1 = s[1];
    let b2 = s[2];
    let b3 = s[3];
    let n = u32_from_le(s);
    assert(n == (b0 as u32) | ((b1 as u32) << 8) | ((b2 as u32) << 16) | ((b3 as u32) << 24));
    assert(
        (((((b0 as u32) | ((b1 as u32) << 8) | ((b2 as u32) << 16) | ((b3 as u32) << 24)) & 0xff) as u8) == b0)
        && ((((((b0 as u32) | ((b1 as u32) << 8) | ((b2 as u32) << 16) | ((b3 as u32) << 24)) >> 8) & 0xff) as u8) == b1)
        && ((((((b0 as u32) | ((b1 as u32) << 8) | ((b2 as u32) << 16) | ((b3 as u32) << 24)) >> 16) & 0xff) as u8) == b2)
        && ((((((b0 as u32) | ((b1 as u32) << 8) | ((b2 as u32) << 16) | ((b3 as u32) << 24)) >> 24) & 0xff) as u8) == b3)
    ) by (bit_vector);
    assert(u32_le_bytes(n) =~= s);
}

/// The slot image of a note.
pub open spec fn note_bytes(n: Note) -> Seq<u8> {
    n.owner@ + u32_le_bytes(n.title@.len() as u32) + n.title@
        + u32_le_bytes(n.message@.len() as u32) + n.message@
}

/// The title length prefix of a slot image.
pub open spec fn spec_title_len(b: Seq<u8>) -> u32 {
    u32_from_le(b.subrange(32, 36))
}

/// The message length prefix of a slot image.
pub open spec fn spec_message_len(b: Seq<u8>) -> u32 {
    u32_from_le(b.subrange(36 + spec_title_len(b) as int, 40 + spec_title_len(b) as int))
}

/// Whether a byte string is a valid slot image: long enough for the fixed
/// parts, both length prefixes within their field bounds, and the total
/// length exactly accounted for.
pub open spec fn valid_encoding(b: Seq<u8>) -> bool {
    &&& b.len() >= 40
    &&& spec_title_len(b) <= MAX_TITLE_LEN
    &&& b.len() >= 40 + spec_title_len(b)
    &&& spec_message_len(b) <= MAX_MESSAGE_LEN
    &&& b.len() == 40 + spec_title_len(b) + spec_message_len(b)
}

/// How a note's slot image splits into its five segments.
pub proof fn lemma_note_bytes_slices(n: Note)
    requires
        n.owner@.len() == IDENTITY_LEN,
    ensures
        note_bytes(n).len() == 40 + n.title@.len() + n.message@.len(),
        note_bytes(n).subrange(0, 32) == n.owner@,
        note_bytes(n).subrange(32, 36) == u32_le_bytes(n.title@.len() as u32),
        note_bytes(n).subrange(36, 36 + n.title@.len() as int) == n.title@,
        note_bytes(n).subrange(36 + n.title@.len() as int, 40 + n.title@.len() as int)
            == u32_le_bytes(n.message@.len() as u32),
        note_bytes(n).subrange(40 + n.title@.len() as int, note_bytes(n).len() as int)
            == n.message@,
{
    let o = n.owner@;
    let lt = u32_le_bytes(n.title@.len() as u32);
    let t = n.title@;
    let lm = u32_le_bytes(n.message@.len() as u32);
    let m = n.message@;
    let b = note_bytes(n);
    assert((o + lt).len() == 36);
    assert((o + lt + t).len() == 36 + t.len());
    assert((o + lt + t + lm).len() == 40 + t.len());
    assert(b.len() == 40 + t.len() + m.len());
    assert(b.subrange(0, 32) =~= o);
    assert(b.subrange(32, 36) =~= lt);
    assert(b.subrange(36, 36 + t.len() as int) =~= t);
    assert(b.subrange(36 + t.len() as int, 40 + t.len() as int) =~= lm);
    assert(b.subrange(40 + t.len() as int, b.len() as int) =~= m);
}

/// A byte string whose five segments hold a note's fields is exactly that
/// note's slot image.
pub proof fn lemma_encoding_from_slices(n: Note, b: Seq<u8>)
    requires
        n.owner@.len() == IDENTITY_LEN,
        b.len() == 40 + n.title@.len() + n.message@.len(),
        b.subrange(0, 32) == n.owner@,
        b.subrange(32, 36) == u32_le_bytes(n.title@.len() as u32),
        b.subrange(36, 36 + n.title@.len() as int) == n.title@,
        b.subrange(36 + n.title@.len() as int, 40 + n.title@.len() as int)
            == u32_le_bytes(n.message@.len() as u32),
        b.subrange(40 + n.title@.len() as int, b.len() as int) == n.message@,
    ensures
        b == note_bytes(n),
{
    lemma_note_bytes_slices(n);
    let tl = n.title@.len() as int;
    assert forall|k: int| 0 <= k < b.len() implies b[k] == note_bytes(n)[k] by {
        if k < 32 {
            assert(b.subrange(0, 32)[k] == b[k]);
            assert(note_bytes(n).subrange(0, 32)[k] == note_bytes(n)[k]);
        } else if k < 36 {
            assert(b.subrange(32, 36)[k - 32] == b[k]);
            assert(note_bytes(n).subrange(32, 36)[k - 32] == note_bytes(n)[k]);
        } else if k < 36 + tl {
            assert(b.subrange(36, 36 + tl)[k - 36] == b[k]);
            assert(note_bytes(n).subrange(36, 36 + tl)[k - 36] == note_bytes(n)[k]);
        } else if k < 40 + tl {
            assert(b.subrange(36 + tl, 40 + tl)[k - 36 - tl] == b[k]);
            assert(note_bytes(n).subrange(36 + tl, 40 + tl)[k - 36 - tl] == note_bytes(n)[k]);
        } else {
            assert(b.subrange(40 + tl, b.len() as int)[k - 40 - tl] == b[k]);
            assert(note_bytes(n).subrange(40 + tl, note_bytes(n).len() as int)[k - 40 - tl]
                == note_bytes(n)[k]);
        }
    }
    assert(b =~= note_bytes(n));
}

/// Law: every well-formed note's slot image is a valid
/// encoding, and its segments hold exactly the note's fields, so decoding
/// the image recovers the note.
pub proof fn lemma_note_bytes_round_trip(n: Note)
    requires
        n.wf(),
    ensures
        valid_encoding(note_bytes(n)),
        note_bytes(n).subrange(0, 32) == n.owner@,
        spec_title_len(note_bytes(n)) == n.title@.len(),
        note_bytes(n).subrange(36, 36 + n.title@.len() as int) == n.title@,
        spec_message_len(note_bytes(n)) == n.message@.len(),
        note_bytes(n).subrange(40 + n.title@.len() as int, note_bytes(n).len() as int)
            == n.message@,
{
    let b = note_bytes(n);
    lemma_note_bytes_slices(n);
    lemma_u32_le_round_trip(n.title@.len() as u32);
    assert(spec_title_len(b) == n.title@.len());
    lemma_u32_le_round_trip(n.message@.len() as u32);
    assert(spec_message_len(b) == n.message@.len());
}

/// Serializes a note into its slot image.
pub fn encode_note(note: &Note) -> (r: Vec<u8>)
    requires
        note.wf(),
    ensures
        r@ == note_bytes(*note),
        valid_encoding(r@),
{
    let mut r: Vec<u8> = Vec::new();
    append_bytes(&mut r, note.owner.as_bytes());
    push_u32_le(&mut r, note.title.len() as u32);
    append_bytes(&mut r, &note.title);
    push_u32_le(&mut r, note.message.len() as u32);
    append_bytes(&mut r, &note.message);
    proof {
        assert(r@ =~= note_bytes(*note));
        lemma_note_bytes_round_trip(*note);
    }
    r
}

/// Parses a slot image. Returns the fully populated note exactly when the
/// bytes are a valid encoding; any other byte string is rejected whole.
pub fn decode_note(bytes: &Vec<u8>) -> (r: Option<Note>)
    ensures
        r is Some <==> valid_encoding(bytes@),
        r matches Some(n) ==> n.wf() && note_bytes(n) == bytes@,
{
    if bytes.len() < 40 {
        return None;
    }
    let tl32 = read_u32_le(bytes, 32);
    let tl = tl32 as usize;
    if tl > MAX_TITLE_LEN {
        return None;
    }
    if bytes.len() < 40 + tl {
        return None;
    }
    let ml32 = read_u32_le(bytes, 36 + tl);
    let ml = ml32 as usize;
    if ml > MAX_MESSAGE_LEN {
        return None;
    }
    if bytes.len() != 40 + tl + ml {
        return None;
    }
    let owner_bytes = copy_range(bytes, 0, 32);
    let owner = Identity::from_exact(owner_bytes);
    let title = copy_range(bytes, 36, 36 + tl);
    let message = copy_range(bytes, 40 + tl, bytes.len());
    let n = Note { owner, title, message };
    proof {
        assert(spec_title_len(bytes@) == tl32);
        assert(spec_message_len(bytes@) == ml32);
        assert(valid_encoding(bytes@));
        lemma_u32_from_le_round_trip(bytes@.subrange(32, 36));
        lemma_u32_from_le_round_trip(bytes@.subrange(36 + tl as int, 40 + tl as int));
        assert(n.title@.len() as u32 == tl32);
        assert(n.message@.len() as u32 == ml32);
        lemma_encoding_from_slices(n, bytes@);
    }
    Some(n)
}

/// Appends the four little-endian bytes of a length prefix.
fn push_u32_le(dst: &mut Vec<u8>, n: u32)
    ensures
        final(dst)@ == old(dst)@ + u32_le_bytes(n),
{
    proof {
        assert((n & 0xff) < 256 && ((n >> 8) & 0xff) < 256 && ((n >> 16) & 0xff) < 256
            && ((n >> 24) & 0xff) < 256) by (bit_vector);
    }
    dst.push((n & 0xff) as u8);
    dst.push(((n >> 8) & 0xff) as u8);
    dst.push(((n >> 16) & 0xff) as u8);
    dst.push(((n >> 24) & 0xff) as u8);
    proof {
        assert(dst@ =~= old(dst)@ + u32_le_bytes(n));
    }
}

/// Reads a four-byte little-endian length prefix at `off`.
fn read_u32_le(src: &Vec<u8>, off: usize) -> (r: u32)
    requires
        off + 4 <= src@.len(),
    ensures
        r == u32_from_le(src@.subrange(off as int, off as int + 4)),
{
    proof {
        assert(src.len() == src@.len());
    }
    let b0 = src[off] as u32;
    let b1 = src[off + 1] as u32;
    let b2 = src[off + 2] as u32;
    let b3 = src[off + 3] as u32;
    let r = b0 | (b1 << 8) | (b2 << 16) | (b3 << 24);
    proof {
        let s = src@.subrange(off as int, off as int + 4);
        assert(s[0] == src@[off as int]);
        assert(s[1] == src@[off as int + 1]);
        assert(s[2] == src@[off as int + 2]);
        assert(s[3] == src@[off as int + 3]);
    }
    r
}

/// Copies the bytes of `src` from `start` (inclusive) to `end` (exclusive).
fn copy_range(src: &Vec<u8>, start: usize, end: usize) -> (r: Vec<u8>)
    requires
        start <= end,
        end <= src@.len(),
    ensures
        r@ == src@.subrange(start as int, end as int),
{
    let mut r: Vec<u8> = Vec::new();
    let mut i: usize = start;
    while i < end
        invariant
            start <= i <= end,
            end <= src@.len(),
            r@ == src@.subrange(start as int, i as int),
        decreases end - i,
    {
        r.push(src[i]);
        proof {
            assert(src@.subrange(start as int, i + 1) =~= src@.subrange(start as int, i as int).push(src@[i as int]));
        }
        i = i + 1;
    }
    proof {
        assert(r@ =~= src@.subrange(start as int, end as int));
    }
    r
}

} // verus!
