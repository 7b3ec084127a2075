//! Fixed-order wire primitives: big-endian unsigned fields, single-byte
//! booleans, and strings carried as a varint byte count followed by their
//! UTF-8 bytes.

use vstd::prelude::*;

verus! {

use vstd::arithmetic::div_mod::lemma_fundamental_div_mod;
use vstd::slice::{slice_subrange, slice_to_vec, slice_index_get};
use vstd::utf8::{encode_utf8, decode_utf8, valid_utf8, encode_utf8_valid_utf8,
    encode_utf8_decode_utf8, is_ascii_chars, is_ascii_chars_encode_utf8};
use crate::varint::{varint_bytes, decode_varint, pow128, encode_varint_u32,
    decode_varint_prefix, lemma_varint_round_trip};

pub open spec fn pow256(n: nat) -> nat
    decreases n,
{
    if n == 0 {
        1
    } else {
        256 * pow256((n - 1) as nat)
    }
}

/// `v` written as `n` bytes, most significant byte first.
pub open spec fn be_bytes(v: nat, n: nat) -> Seq<u8>
    decreases n,
{
    if n == 0 {
        Seq::empty()
    } else {
        be_bytes(v / 256, (n - 1) as nat).push((v % 256) as u8)
    }
}

/// The value a big-endian byte sequence stands for.
pub open spec fn be_val(bytes: Seq<u8>) -> nat
    decreases bytes.len(),
{
    if bytes.len() == 0 {
        0
    } else {
        be_val(bytes.drop_last()) * 256 + bytes.last() as nat
    }
}

pub proof fn lemma_be_bytes_len(v: nat, n: nat)
    ensures
        be_bytes(v, n).len() == n,
    decreases n,
{
    if n > 0 {
        lemma_be_bytes_len(v / 256, (n - 1) as nat);
    }
}

/// Reading back `n` big-endian bytes of a value below `256^n` yields the value.
pub proof fn lemma_be_round_trip(v: nat, n: nat)
    requires
        v < pow256(n),
    ensures
        be_val(be_bytes(v, n)) == v,
    decreases n,
{
    if n == 0 {
    } else {
        let pre = be_bytes(v / 256, (n - 1) as nat);
        lemma_be_bytes_len(v / 256, (n - 1) as nat);
        assert(be_bytes(v, n).drop_last() =~= pre);
        assert(be_bytes(v, n).last() == (v % 256) as u8);
        assert(v / 256 < pow256((n - 1) as nat)) by {
            lemma_fundamental_div_mod(v as int, 256);
        };
        lemma_be_round_trip(v / 256, (n - 1) as nat);
        lemma_fundamental_div_mod(v as int, 256);
    }
}

/// Appends `n` big-endian bytes of `v` to `out`.
fn encode_be(v: u128, n: usize, out: &mut Vec<u8>)
    ensures
        final(out)@ == old(out)@ + be_bytes(v as nat, n as nat),
    decreases n,
{
    if n == 0 {
        assert(out@ =~= old(out)@ + be_bytes(v as nat, 0));
    } else {
        encode_be(v / 256, n - 1, out);
        out.push((v % 256) as u8);
        assert((v / 256) as nat == (v as nat) / 256);
        assert(out@ =~= old(out)@ + be_bytes(v as nat, n as nat));
    }
}

/// Appends the 16-byte big-endian form of a 128-bit identifier.
pub fn encode_u128_be(v: u128, out: &mut Vec<u8>)
    ensures
        final(out)@ == old(out)@ + be_bytes(v as nat, 16),
{
    encode_be(v, 16, out);
}

/// Reads a 16-byte big-endian 128-bit value off the front of `bytes`.
pub open spec fn decode_u128(bytes: Seq<u8>) -> Option<(nat, Seq<u8>)> {
    if bytes.len() < 16 {
        None
    } else {
        Some((be_val(bytes.take(16)), bytes.skip(16)))
    }
}

pub proof fn lemma_pow256_16()
    ensures
        pow256(16) == 0x100000000000000000000000000000000,
{
    reveal_with_fuel(pow256, 17);
}

proof fn lemma_pow256_mono(a: nat, b: nat)
    requires
        a <= b,
    ensures
        pow256(a) <= pow256(b),
    decreases b,
{
    if a < b {
        lemma_pow256_mono(a, (b - 1) as nat);
    }
}

/// A 128-bit identifier written big-endian reads back unchanged.
pub proof fn lemma_u128_round_trip(v: u128, rest: Seq<u8>)
    ensures
        decode_u128(be_bytes(v as nat, 16) + rest) == Some((v as nat, rest)),
{
    lemma_be_bytes_len(v as nat, 16);
    let bytes = be_bytes(v as nat, 16) + rest;
    assert(bytes.take(16) =~= be_bytes(v as nat, 16));
    assert(bytes.skip(16) =~= rest);
    lemma_pow256_16();
    lemma_be_round_trip(v as nat, 16);
}

pub fn decode_u128_prefix<'a>(bytes: &'a [u8]) -> (r: Option<(u128, &'a [u8])>)
    ensures
        match r {
            Some(p) => decode_u128(bytes@) == Some((p.0 as nat, p.1@)),
            None => decode_u128(bytes@) is None,
        },
{
    if bytes.len() < 16 {
        None
    } else {
        let mut acc: u128 = 0;
        let mut i: usize = 0;
        proof {
            assert(bytes@.take(0) =~= Seq::<u8>::empty());
        }
        while i < 16
            invariant
                i <= 16,
                bytes@.len() >= 16,
                acc as nat == be_val(bytes@.take(i as int)),
                (acc as nat) < pow256(i as nat),
            decreases 16 - i,
        {
            let b = *slice_index_get(bytes, i);
            proof {
                lemma_pow256_mono((i + 1) as nat, 16);
                lemma_pow256_16();
                assert(pow256((i + 1) as nat) == 256 * pow256(i as nat));
                assert(bytes@.take(i + 1).drop_last() =~= bytes@.take(i as int));
                assert(bytes@.take(i + 1).last() == bytes@[i as int]);
            }
            acc = acc * 256 + (b as u128);
            i = i + 1;
        }
        proof {
            assert(bytes@.take(16) == bytes@.take(16int));
        }
        Some((acc, slice_subrange(bytes, 16, bytes.len())))
    }
}

pub open spec fn bool_bytes(b: bool) -> Seq<u8> {
    if b {
        seq![1u8]
    } else {
        seq![0u8]
    }
}

/// Reads a single-byte boolean; anything but 0 or 1 is rejected.
pub open spec fn decode_bool(bytes: Seq<u8>) -> Option<(bool, Seq<u8>)> {
    if bytes.len() == 0 {
        None
    } else if bytes[0] == 1u8 {
        Some((true, bytes.skip(1)))
    } else if bytes[0] == 0u8 {
        Some((false, bytes.skip(1)))
    } else {
        None
    }
}

pub proof fn lemma_bool_round_trip(b: bool, rest: Seq<u8>)
    ensures
        decode_bool(bool_bytes(b) + rest) == Some((b, rest)),
{
    assert((bool_bytes(b) + rest).skip(1) =~= rest);
}

pub fn encode_bool(b: bool, out: &mut Vec<u8>)
    ensures
        final(out)@ == old(out)@ + bool_bytes(b),
{
    if b {
        out.push(1u8);
    } else {
        out.push(0u8);
    }
    assert(out@ =~= old(out)@ + bool_bytes(b));
}

pub fn decode_bool_prefix<'a>(bytes: &'a [u8]) -> (r: Option<(bool, &'a [u8])>)
    ensures
        match r {
            Some(p) => decode_bool(bytes@) == Some((p.0, p.1@)),
            None => decode_bool(bytes@) is None,
        },
{
    if bytes.len() == 0 {
        None
    } else {
        let b = *slice_index_get(bytes, 0);
        let tail = slice_subrange(bytes, 1, bytes.len());
        assert(tail@ =~= bytes@.skip(1));
        if b == 1 {
            Some((true, tail))
        } else if b == 0 {
            Some((false, tail))
        } else {
            None
        }
    }
}

/// The UTF-8 bytes of `s`, length-prefixed with a varint byte count.
#[verifier::opaque]
pub open spec fn string_bytes(s: Seq<char>) -> Seq<u8> {
    varint_bytes(encode_utf8(s).len()) + encode_utf8(s)
}

/// A string's byte count must fit the wire's signed 32-bit varint field.
#[verifier::opaque]
pub open spec fn wf_string(s: Seq<char>) -> bool {
    encode_utf8(s).len() <= 0x7fffffff
}

/// Reads a varint byte count, then that many bytes of valid UTF-8.
#[verifier::opaque]
pub open spec fn decode_string(bytes: Seq<u8>) -> Option<(Seq<char>, Seq<u8>)> {
    match decode_varint(bytes) {
        None => None,
        Some(p) => {
            let l = p.0;
            let rest = p.1;
            if rest.len() < l {
                None
            } else if !valid_utf8(rest.take(l as int)) {
                None
            } else {
                Some((decode_utf8(rest.take(l as int)), rest.skip(l as int)))
            }
        },
    }
}

/// A length-prefixed string written at the front of any byte sequence reads
/// back as the same characters.
pub proof fn lemma_string_round_trip(s: Seq<char>, rest: Seq<u8>)
    requires
        wf_string(s),
    ensures
        decode_string(string_bytes(s) + rest) == Some((s, rest)),
{
    reveal(string_bytes);
    reveal(wf_string);
    reveal(decode_string);
    let enc = encode_utf8(s);
    let l = enc.len();
    assert(string_bytes(s) + rest =~= varint_bytes(l) + (enc + rest));
    assert(l < pow128(5)) by {
        reveal_with_fuel(pow128, 6);
    };
    lemma_varint_round_trip(l, enc + rest);
    assert((enc + rest).take(l as int) =~= enc);
    assert((enc + rest).skip(l as int) =~= rest);
    encode_utf8_valid_utf8(s);
    encode_utf8_decode_utf8(s);
}

/// Appends the length-prefixed UTF-8 form of `s` to `out`.
pub fn encode_string(s: &str, out: &mut Vec<u8>)
    requires
        wf_string(s@),
    ensures
        final(out)@ == old(out)@ + string_bytes(s@),
{
    proof {
        reveal(string_bytes);
        reveal(wf_string);
    }
    let bs = s.as_bytes();
    encode_varint_u32(bs.len() as u32, out);
    let ghost mid = out@;
    let mut i: usize = 0;
    while i < bs.len()
        invariant
            i <= bs@.len(),
            bs@ == encode_utf8(s@),
            out@ == mid + bs@.take(i as int),
        decreases bs@.len() - i,
    {
        let b = *slice_index_get(bs, i);
        out.push(b);
        proof {
            assert(mid + bs@.take(i + 1) =~= (mid + bs@.take(i as int)).push(bs@[i as int]));
        }
        i = i + 1;
    }
    proof {
        assert(bs@.take(bs@.len() as int) =~= bs@);
        assert(out@ =~= old(out)@ + string_bytes(s@));
    }
}

/// Whether `s` fits the wire's string field, decidable at run time: a
/// string's byte count is exactly the length of its UTF-8 encoding.
pub fn check_wire_string(s: &str) -> (r: bool)
    ensures
        r == wf_string(s@),
{
    proof {
        reveal(wf_string);
    }
    let b = s.as_bytes();
    b.len() <= 0x7fffffff
}

/// A short ASCII string always fits the wire's string field.
pub proof fn lemma_ascii_wf_string(s: Seq<char>)
    requires
        is_ascii_chars(s),
        s.len() <= 0x7fffffff,
    ensures
        wf_string(s),
        encode_utf8(s).len() == s.len(),
{
    reveal(wf_string);
    is_ascii_chars_encode_utf8(s);
}

/// Relies on `String::from_utf8`: it succeeds exactly on valid UTF-8 input,
/// and the returned string's UTF-8 encoding is the input bytes.
#[verifier::external_body]
fn string_from_utf8(bytes: Vec<u8>) -> (r: Option<String>)
    ensures
        r is Some <==> valid_utf8(bytes@),
        r matches Some(s) ==> encode_utf8(s@) == bytes@,
{
    String::from_utf8(bytes).ok()
}

/// Reads one length-prefixed string off the front of `bytes`, exactly as
/// [`decode_string`] describes.
pub fn decode_string_prefix<'a>(bytes: &'a [u8]) -> (r: Option<(String, &'a [u8])>)
    ensures
        match r {
            Some(p) => decode_string(bytes@) matches Some(q) && p.0@ == q.0 && p.1@ == q.1,
            None => decode_string(bytes@) is None,
        },
{
    proof {
        reveal(decode_string);
    }
    match decode_varint_prefix(bytes) {
        None => None,
        Some((l, rest)) => {
            if (rest.len() as u64) < l {
                None
            } else {
                let l_us = l as usize;
                let taken = slice_subrange(rest, 0, l_us);
                assert(taken@ =~= rest@.take(l as int));
                let body = slice_to_vec(taken);
                match string_from_utf8(body) {
                    None => None,
                    Some(s) => {
                        proof {
                            encode_utf8_decode_utf8(s@);
                        }
                        Some((s, slice_subrange(rest, l_us, rest.len())))
                    },
                }
            }
        },
    }
}

} // verus!
