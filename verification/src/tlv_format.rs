//! The byte-level model of the three TLV formats: big-endian numbers, the
//! encodings that the record constructors produce, and the facts about them
//! that the parsers and the round-trip laws rest on.

use vstd::prelude::*;

verus! {

/// `256` raised to `k`.
pub open spec fn pow256(k: nat) -> nat
    decreases k,
{
    if k == 0 {
        1
    } else {
        256 * pow256((k - 1) as nat)
    }
}

/// The number that the bytes `s` spell in big-endian order.
pub open spec fn be_value(s: Seq<u8>) -> nat
    decreases s.len(),
{
    if s.len() == 0 {
        0
    } else {
        be_value(s.drop_last()) * 256 + s.last() as nat
    }
}

/// The shortest big-endian spelling of `n`: no leading zero byte, and no
/// byte at all for zero.
pub open spec fn min_be_bytes(n: nat) -> Seq<u8>
    decreases n,
{
    if n == 0 {
        Seq::empty()
    } else {
        min_be_bytes(n / 256).push((n % 256) as u8)
    }
}

/// The BER length field for a value of `len` bytes: the short form below 128,
/// otherwise `0x80` plus the byte count, then the shortest big-endian length.
pub open spec fn ber_length_field(len: nat) -> Seq<u8> {
    if len < 128 {
        seq![len as u8]
    } else {
        seq![(128 + min_be_bytes(len).len()) as u8] + min_be_bytes(len)
    }
}

/// The BER-TLV encoding of `value` under `tag`.
pub open spec fn ber_data(tag: u64, value: Seq<u8>) -> Seq<u8> {
    min_be_bytes(tag as nat) + ber_length_field(value.len()) + value
}

/// The SIMPLE-TLV encoding of `value` under `tag`: one length byte below
/// 255, otherwise `0xFF` and two big-endian length bytes.
pub open spec fn simple_data(tag: u8, value: Seq<u8>) -> Seq<u8> {
    if value.len() < 255 {
        seq![tag, value.len() as u8] + value
    } else {
        seq![tag, 0xFFu8, (value.len() / 256) as u8, (value.len() % 256) as u8] + value
    }
}

/// The COMPACT-TLV encoding of `value` under `tag`: the tag in the high and
/// the length in the low nibble of one header byte.
pub open spec fn compact_data(tag: u8, value: Seq<u8>) -> Seq<u8> {
    seq![(tag * 16 + value.len()) as u8] + value
}

pub proof fn lemma_pow256_8()
    ensures
        pow256(8) == 0x1_0000_0000_0000_0000,
{
    reveal_with_fuel(pow256, 9);
}

pub proof fn lemma_pow256_mono(j: nat, k: nat)
    requires
        j <= k,
    ensures
        pow256(j) <= pow256(k),
    decreases k,
{
    if j < k {
        lemma_pow256_mono(j, (k - 1) as nat);
    }
}

pub proof fn lemma_min_be_bytes_len(n: nat, k: nat)
    requires
        n < pow256(k),
    ensures
        min_be_bytes(n).len() <= k,
        n > 0 ==> min_be_bytes(n).len() >= 1,
    decreases k,
{
    if n > 0 {
        assert(k > 0);
        lemma_min_be_bytes_len(n / 256, (k - 1) as nat);
    }
}

pub proof fn lemma_min_be_bytes_u64(n: u64)
    ensures
        min_be_bytes(n as nat).len() <= 8,
        n > 0 ==> min_be_bytes(n as nat).len() >= 1,
{
    lemma_pow256_8();
    lemma_min_be_bytes_len(n as nat, 8);
}

pub proof fn lemma_be_value_of_min_be_bytes(n: nat)
    ensures
        be_value(min_be_bytes(n)) == n,
    decreases n,
{
    if n > 0 {
        lemma_be_value_of_min_be_bytes(n / 256);
        let m = min_be_bytes(n / 256);
        assert(min_be_bytes(n).drop_last() =~= m);
    }
}

pub proof fn lemma_be_value_bound(s: Seq<u8>)
    ensures
        be_value(s) < pow256(s.len()),
    decreases s.len(),
{
    if s.len() > 0 {
        lemma_be_value_bound(s.drop_last());
    }
}

pub proof fn lemma_be_value_step(s: Seq<u8>, a: int, i: int)
    requires
        0 <= a <= i < s.len(),
    ensures
        be_value(s.subrange(a, i + 1)) == be_value(s.subrange(a, i)) * 256 + s[i] as nat,
{
    assert(s.subrange(a, i + 1).drop_last() =~= s.subrange(a, i));
}

} // verus!
