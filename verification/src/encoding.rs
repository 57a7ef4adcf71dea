//! The canonical (RLP) byte form used for roots, hashing and the wire.
//!
//! The byte-level rules are stated as spec functions; producing the bytes is
//! delegated to the `rlp` crate through trusted wrappers whose contracts state
//! exactly those rules.

use vstd::prelude::*;

verus! {

/// Minimal big-endian byte form of a number: empty for zero, no leading
/// zero byte otherwise.
pub open spec fn be_bytes(n: nat) -> Seq<u8>
    decreases n,
{
    if n == 0 {
        Seq::empty()
    } else {
        be_bytes(n / 256).push((n % 256) as u8)
    }
}

/// RLP encoding of a byte string: a single byte below 0x80 is its own
/// encoding; otherwise a length prefix precedes the bytes.
pub open spec fn rlp_str(payload: Seq<u8>) -> Seq<u8> {
    if payload.len() == 1 && payload[0] < 0x80 {
        payload
    } else if payload.len() <= 55 {
        seq![(0x80 + payload.len()) as u8] + payload
    } else {
        seq![(0xb7 + be_bytes(payload.len() as nat).len()) as u8] + be_bytes(payload.len() as nat)
            + payload
    }
}

/// RLP list framing: a list header derived from the payload length, followed
/// by the payload (the concatenated encodings of the list's items).
pub open spec fn rlp_list(payload: Seq<u8>) -> Seq<u8> {
    if payload.len() <= 55 {
        seq![(0xc0 + payload.len()) as u8] + payload
    } else {
        seq![(0xf7 + be_bytes(payload.len() as nat).len()) as u8] + be_bytes(payload.len() as nat)
            + payload
    }
}

/// RLP encoding of an unsigned number: its minimal big-endian bytes, encoded
/// as a byte string.
pub open spec fn rlp_u64(n: u64) -> Seq<u8> {
    rlp_str(be_bytes(n as nat))
}

/// The concatenation of a sequence of already-encoded items.
pub open spec fn concat_encodings(items: Seq<Seq<u8>>) -> Seq<u8>
    decreases items.len(),
{
    if items.len() == 0 {
        Seq::empty()
    } else {
        concat_encodings(items.drop_last()) + items.last()
    }
}

/// The canonical encoding of a list of items: the concatenated item
/// encodings, framed as an RLP list.
pub open spec fn rlp_list_of(items: Seq<Seq<u8>>) -> Seq<u8> {
    rlp_list(concat_encodings(items))
}

/// 256 to the power `k`: the count of byte strings of length `k`.
pub open spec fn pow256(k: nat) -> nat
    decreases k,
{
    if k == 0 {
        1
    } else {
        256 * pow256((k - 1) as nat)
    }
}

/// A number below `pow256(k)` has at most `k` minimal big-endian bytes.
pub proof fn lemma_be_bytes_len(n: nat, k: nat)
    requires
        n < pow256(k),
    ensures
        be_bytes(n).len() <= k,
    decreases k,
{
    if n > 0 {
        lemma_be_bytes_len(n / 256, (k - 1) as nat)
    }
}

/// Distinct numbers have distinct minimal big-endian byte forms.
pub proof fn lemma_be_bytes_injective(a: nat, b: nat)
    requires
        be_bytes(a) == be_bytes(b),
    ensures
        a == b,
    decreases a,
{
    reveal_with_fuel(be_bytes, 2);
    if a == 0 || b == 0 {
        if a != b {
            assert(be_bytes(a).len() != be_bytes(b).len());
        }
    } else {
        assert(be_bytes(a).last() == a % 256);
        assert(be_bytes(a).drop_last() =~= be_bytes(a / 256));
        assert(be_bytes(b).drop_last() =~= be_bytes(b / 256));
        lemma_be_bytes_injective(a / 256, b / 256);
        assert(a == 256 * (a / 256) + a % 256);
        assert(b == 256 * (b / 256) + b % 256);
    }
}

/// A number's RLP encoding is at most nine bytes: one prefix byte and the
/// at most eight minimal big-endian bytes of a 64-bit value.
pub proof fn lemma_rlp_u64_len(n: u64)
    ensures
        rlp_u64(n).len() <= 9,
{
    reveal_with_fuel(pow256, 9);
    assert(pow256(8) == 0x10000000000000000);
    lemma_be_bytes_len(n as nat, 8);
}

/// No item of a concatenation is longer than the concatenation.
pub proof fn lemma_concat_element_len(items: Seq<Seq<u8>>, i: int)
    requires
        0 <= i < items.len(),
    ensures
        items[i].len() <= concat_encodings(items).len(),
    decreases items.len(),
{
    if i < items.len() - 1 {
        lemma_concat_element_len(items.drop_last(), i);
    }
}

/// A framed list determines its own extent: where two framed lists start a
/// byte string, the frames and what follows them agree. The frame's first
/// bytes carry the payload length, so no frame is a proper prefix of
/// another.
pub proof fn lemma_rlp_list_prefix_free(p1: Seq<u8>, r1: Seq<u8>, p2: Seq<u8>, r2: Seq<u8>)
    requires
        rlp_list(p1) + r1 == rlp_list(p2) + r2,
        p1.len() < pow256(8),
        p2.len() < pow256(8),
    ensures
        p1 == p2,
        r1 == r2,
{
    let s = rlp_list(p1) + r1;
    lemma_be_bytes_len(p1.len(), 8);
    lemma_be_bytes_len(p2.len(), 8);
    assert(s[0] == rlp_list(p1)[0]);
    assert(s[0] == rlp_list(p2)[0]);
    if p1.len() <= 55 && p2.len() <= 55 {
        assert(rlp_list(p1)[0] == 0xc0 + p1.len());
        assert(rlp_list(p2)[0] == 0xc0 + p2.len());
        assert(p1.len() == p2.len());
        assert forall|i: int| 0 <= i < p1.len() implies p1[i] == p2[i] by {
            assert(s[1 + i] == p1[i]);
            assert(s[1 + i] == p2[i]);
        }
        assert(p1 =~= p2);
        assert(rlp_list(p1).len() == 1 + p1.len());
        assert(rlp_list(p2).len() == 1 + p2.len());
        assert(s.len() == rlp_list(p1).len() + r1.len());
        assert((rlp_list(p2) + r2).len() == rlp_list(p2).len() + r2.len());
        assert(r1.len() == r2.len());
        assert forall|j: int| 0 <= j < r1.len() implies r1[j] == r2[j] by {
            assert(s[1 + p1.len() + j] == r1[j]);
            assert(s[1 + p2.len() + j] == r2[j]);
        }
        assert(r1 =~= r2);
    } else if p1.len() > 55 && p2.len() > 55 {
        let len1 = be_bytes(p1.len()).len() as int;
        let len2 = be_bytes(p2.len()).len() as int;
        assert(be_bytes(p1.len()).len() >= 1);
        assert(be_bytes(p2.len()).len() >= 1);
        assert(rlp_list(p1)[0] == 0xf7 + len1);
        assert(rlp_list(p2)[0] == 0xf7 + len2);
        assert(len1 == len2);
        assert forall|i: int| 0 <= i < len1 implies be_bytes(p1.len())[i] == be_bytes(
            p2.len(),
        )[i] by {
            assert(s[1 + i] == be_bytes(p1.len())[i]);
            assert(s[1 + i] == be_bytes(p2.len())[i]);
        }
        assert(be_bytes(p1.len()) =~= be_bytes(p2.len()));
        lemma_be_bytes_injective(p1.len(), p2.len());
        assert forall|i: int| 0 <= i < p1.len() implies p1[i] == p2[i] by {
            assert(s[1 + len1 + i] == p1[i]);
            assert(s[1 + len2 + i] == p2[i]);
        }
        assert(p1 =~= p2);
        assert(rlp_list(p1).len() == 1 + len1 + p1.len());
        assert(rlp_list(p2).len() == 1 + len2 + p2.len());
        assert(s.len() == rlp_list(p1).len() + r1.len());
        assert((rlp_list(p2) + r2).len() == rlp_list(p2).len() + r2.len());
        assert(r1.len() == r2.len());
        assert forall|j: int| 0 <= j < r1.len() implies r1[j] == r2[j] by {
            assert(s[1 + len1 + p1.len() + j] == r1[j]);
            assert(s[1 + len2 + p2.len() + j] == r2[j]);
        }
        assert(r1 =~= r2);
    } else {
        if p1.len() <= 55 {
            assert(rlp_list(p1)[0] == 0xc0 + p1.len());
            assert(be_bytes(p2.len()).len() >= 1);
            assert(rlp_list(p2)[0] == 0xf7 + be_bytes(p2.len()).len());
            assert(false);
        } else {
            assert(be_bytes(p1.len()).len() >= 1);
            assert(rlp_list(p1)[0] == 0xf7 + be_bytes(p1.len()).len());
            assert(rlp_list(p2)[0] == 0xc0 + p2.len());
            assert(false);
        }
    }
}

/// Equal framed lists hold equal payloads.
pub proof fn lemma_rlp_list_injective(p1: Seq<u8>, p2: Seq<u8>)
    requires
        rlp_list(p1) == rlp_list(p2),
        p1.len() < pow256(8),
        p2.len() < pow256(8),
    ensures
        p1 == p2,
{
    assert(rlp_list(p1) + Seq::<u8>::empty() =~= rlp_list(p1));
    assert(rlp_list(p2) + Seq::<u8>::empty() =~= rlp_list(p2));
    lemma_rlp_list_prefix_free(p1, Seq::empty(), p2, Seq::empty());
}

/// Relies on `rlp::encode` for `Vec<u8>`: a byte string is encoded as itself
/// when it is a single byte below 0x80, and with a length prefix otherwise.
/// The crate writes long length prefixes through a 32-bit size, so only
/// inputs shorter than `pow256(4)` bytes are encoded faithfully; the
/// precondition keeps every call below that.
#[verifier::external_body]
pub fn rlp_encode_bytes(bytes: &Vec<u8>) -> (r: Vec<u8>)
    requires
        bytes@.len() < pow256(4),
    ensures
        r@ == rlp_str(bytes@),
{
    rlp::encode(bytes).to_vec()
}

/// Relies on `rlp::encode` for `u64`: a number is encoded as the byte string
/// of its minimal big-endian bytes.
#[verifier::external_body]
pub fn rlp_encode_u64(n: u64) -> (r: Vec<u8>)
    ensures
        r@ == rlp_u64(n),
{
    rlp::encode(&n).to_vec()
}

/// Relies on `rlp::RlpStream`: `append_raw` inserts the payload bytes as
/// given, and completing the list prepends a header derived from the payload
/// length alone. The crate writes long length prefixes through a 32-bit
/// size, so only payloads shorter than `pow256(4)` bytes are framed
/// faithfully; the precondition keeps every call below that.
#[verifier::external_body]
pub fn rlp_wrap_in_list(payload: &Vec<u8>) -> (r: Vec<u8>)
    requires
        payload@.len() < pow256(4),
    ensures
        r@ == rlp_list(payload@),
{
    let mut stream = rlp::RlpStream::new_list(1);
    stream.append_raw(payload.as_slice(), 1);
    stream.out().to_vec()
}

/// Appends `src` to `dst` without consuming `src`.
pub fn append_bytes(dst: &mut Vec<u8>, src: &Vec<u8>)
    ensures
        final(dst)@ == old(dst)@ + src@,
{
    let mut i: usize = 0;
    while i < src.len()
        invariant
            i <= src@.len(),
            dst@ == old(dst)@ + src@.subrange(0, i as int),
        decreases src@.len() - i,
    {
        dst.push(src[i]);
        proof {
            assert(dst@ =~= old(dst)@ + src@.subrange(0, i + 1));
        }
        i = i + 1;
    }
    proof {
        assert(dst@ =~= old(dst)@ + src@);
    }
}

/// Copies a byte string.
pub fn copy_bytes(src: &Vec<u8>) -> (r: Vec<u8>)
    ensures
        r@ == src@,
{
    let mut r: Vec<u8> = Vec::new();
    append_bytes(&mut r, src);
    proof {
        assert(r@ =~= src@);
    }
    r
}

/// The byte strings a vector of byte vectors holds, in order.
pub open spec fn byte_views(items: Seq<Vec<u8>>) -> Seq<Seq<u8>> {
    items.map_values(|v: Vec<u8>| v@)
}

/// Concatenates a sequence of already-encoded items into one list payload.
pub fn concat_all(items: &Vec<Vec<u8>>) -> (r: Vec<u8>)
    ensures
        r@ == concat_encodings(byte_views(items@)),
{
    let mut r: Vec<u8> = Vec::new();
    let mut i: usize = 0;
    while i < items.len()
        invariant
            i <= items@.len(),
            r@ == concat_encodings(byte_views(items@).take(i as int)),
        decreases items@.len() - i,
    {
        append_bytes(&mut r, &items[i]);
        proof {
            let views = byte_views(items@);
            assert(views.take(i + 1).drop_last() =~= views.take(i as int));
            assert(views.take(i + 1).last() == views[i as int]);
        }
        i = i + 1;
    }
    proof {
        assert(byte_views(items@).take(items@.len() as int) =~= byte_views(items@));
    }
    r
}

/// Encodes a sequence of already-encoded items as an RLP list.
pub fn encode_as_list(items: &Vec<Vec<u8>>) -> (r: Vec<u8>)
    requires
        concat_encodings(byte_views(items@)).len() < pow256(4),
    ensures
        r@ == rlp_list_of(byte_views(items@)),
{
    let payload = concat_all(items);
    rlp_wrap_in_list(&payload)
}

} // verus!
