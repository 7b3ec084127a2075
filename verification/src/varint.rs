//! Variable-length integers: 7-bit groups, least significant group first,
//! with the high bit of every byte but the last set as a continuation mark.

use vstd::prelude::*;

verus! {

use vstd::arithmetic::div_mod::lemma_fundamental_div_mod;
use vstd::slice::slice_subrange;

/// Largest value a five-byte group sequence can carry, `128^5`.
pub open spec fn pow128(n: nat) -> nat
    decreases n,
{
    if n == 0 {
        1
    } else {
        128 * pow128((n - 1) as nat)
    }
}

/// The varint encoding of `v`: least significant 7-bit group first, the high
/// bit marking that another group follows.
pub open spec fn varint_bytes(v: nat) -> Seq<u8>
    decreases v,
{
    if v < 128 {
        seq![v as u8]
    } else {
        seq![(128 + v % 128) as u8] + varint_bytes(v / 128)
    }
}

/// A decoder limited to `fuel` bytes; the protocol caps a varint at five.
pub open spec fn decode_varint_fuel(bytes: Seq<u8>, fuel: nat) -> Option<(nat, Seq<u8>)>
    decreases fuel,
{
    if fuel == 0 || bytes.len() == 0 {
        None
    } else if bytes[0] < 128 {
        Some((bytes[0] as nat, bytes.skip(1)))
    } else {
        match decode_varint_fuel(bytes.skip(1), (fuel - 1) as nat) {
            Some(p) => Some(((bytes[0] - 128) as nat + 128 * p.0, p.1)),
            None => None,
        }
    }
}

/// Reads one varint (at most five bytes) off the front of `bytes` and yields
/// the value and the remaining bytes.
pub open spec fn decode_varint(bytes: Seq<u8>) -> Option<(nat, Seq<u8>)> {
    decode_varint_fuel(bytes, 5)
}

pub proof fn lemma_varint_bytes_len(v: nat)
    ensures
        1 <= varint_bytes(v).len(),
        v < pow128(varint_bytes(v).len()),
        v >= 128 ==> varint_bytes(v).len() >= 2,
    decreases v,
{
    if v < 128 {
        assert(pow128(1) == 128) by {
            reveal_with_fuel(pow128, 2);
        };
    } else {
        lemma_varint_bytes_len(v / 128);
        let n = varint_bytes(v / 128).len();
        assert(varint_bytes(v).len() == n + 1);
        assert(v / 128 < pow128(n));
        assert(v < 128 * pow128(n)) by {
            lemma_fundamental_div_mod(v as int, 128);
        };
    }
}

proof fn lemma_varint_round_trip_fuel(v: nat, rest: Seq<u8>, fuel: nat)
    requires
        varint_bytes(v).len() <= fuel,
    ensures
        decode_varint_fuel(varint_bytes(v) + rest, fuel) == Some((v, rest)),
    decreases v,
{
    let bytes = varint_bytes(v) + rest;
    if v < 128 {
        assert(bytes[0] == v as u8);
        assert(bytes.skip(1) =~= rest);
    } else {
        let b: u8 = (128 + v % 128) as u8;
        assert(bytes[0] == b);
        assert(b >= 128);
        assert(bytes.skip(1) =~= varint_bytes(v / 128) + rest);
        lemma_varint_round_trip_fuel(v / 128, rest, (fuel - 1) as nat);
        lemma_fundamental_div_mod(v as int, 128);
        assert((b - 128) as nat + 128 * (v / 128) == v);
    }
}

/// Decoding undoes encoding: a varint written at the front of any byte
/// sequence reads back as the same value, leaving the rest untouched.
pub proof fn lemma_varint_round_trip(v: nat, rest: Seq<u8>)
    requires
        v < pow128(5),
    ensures
        decode_varint(varint_bytes(v) + rest) == Some((v, rest)),
{
    lemma_varint_bytes_len_bound(v, 5);
    lemma_varint_round_trip_fuel(v, rest, 5);
}

pub proof fn lemma_varint_bytes_len_bound(v: nat, n: nat)
    requires
        v < pow128(n),
        n >= 1,
    ensures
        varint_bytes(v).len() <= n,
    decreases n,
{
    if v < 128 {
    } else {
        assert(pow128(n) == 128 * pow128((n - 1) as nat));
        assert(v / 128 < pow128((n - 1) as nat)) by {
            lemma_fundamental_div_mod(v as int, 128);
        };
        lemma_varint_bytes_len(v);
        assert(varint_bytes(v).len() >= 2);
        lemma_varint_bytes_len_bound(v / 128, (n - 1) as nat);
    }
}

/// Appends the varint encoding of `v` to `out`.
pub fn encode_varint_u32(v: u32, out: &mut Vec<u8>)
    ensures
        final(out)@ == old(out)@ + varint_bytes(v as nat),
    decreases v,
{
    if v < 128 {
        out.push(v as u8);
        assert(out@ =~= old(out)@ + varint_bytes(v as nat));
    } else {
        let b: u8 = (128 + (v % 128)) as u8;
        let ghost mid = out@;
        out.push(b);
        encode_varint_u32(v / 128, out);
        assert((v / 128) as nat == (v as nat) / 128);
        assert(b == (128 + (v as nat) % 128) as u8);
        assert(out@ =~= old(out)@ + varint_bytes(v as nat));
    }
}

#[verifier::rlimit(50)]
fn decode_varint_prefix_fuel<'a>(bytes: &'a [u8], fuel: u8) -> (r: Option<(u64, &'a [u8])>)
    requires
        fuel <= 5,
    ensures
        match r {
            Some(p) => decode_varint_fuel(bytes@, fuel as nat) == Some((p.0 as nat, p.1@))
                && (p.0 as nat) < pow128(fuel as nat),
            None => decode_varint_fuel(bytes@, fuel as nat) is None,
        },
    decreases fuel,
{
    if fuel == 0 || bytes.len() == 0 {
        None
    } else {
        let b = *vstd::slice::slice_index_get(bytes, 0);
        let tail = slice_subrange(bytes, 1, bytes.len());
        assert(tail@ =~= bytes@.skip(1));
        if b < 128 {
            proof {
                assert(pow128(fuel as nat) >= pow128(1)) by {
                    lemma_pow128_mono(1, fuel as nat);
                };
                reveal_with_fuel(pow128, 2);
                assert(decode_varint_fuel(bytes@, fuel as nat) == Some((b as nat, tail@)));
            }
            Some((b as u64, tail))
        } else {
            match decode_varint_prefix_fuel(tail, fuel - 1) {
                Some((v, rest)) => {
                    proof {
                        lemma_pow128_mono((fuel - 1) as nat, 4);
                        assert(pow128(4) == 128 * 128 * 128 * 128) by {
                            reveal_with_fuel(pow128, 5);
                        };
                        assert(v < 128 * 128 * 128 * 128);
                        assert(decode_varint_fuel(tail@, (fuel - 1) as nat) == Some(
                            (v as nat, rest@),
                        ));
                        assert(decode_varint_fuel(bytes@, fuel as nat) == Some(
                            ((b - 128) as nat + 128 * (v as nat), rest@),
                        ));
                        assert(pow128(fuel as nat) == 128 * pow128((fuel - 1) as nat));
                    }
                    let value: u64 = (b - 128) as u64 + 128 * v;
                    assert((value as nat) == (b - 128) as nat + 128 * (v as nat));
                    assert((value as nat) < pow128(fuel as nat));
                    Some((value, rest))
                },
                None => None,
            }
        }
    }
}

proof fn lemma_pow128_mono(a: nat, b: nat)
    requires
        a <= b,
    ensures
        pow128(a) <= pow128(b),
    decreases b,
{
    if a < b {
        lemma_pow128_mono(a, (b - 1) as nat);
    }
}

/// A 32-bit integer carried on the wire in varint form.
#[derive(Clone, Copy, Debug, PartialEq, Eq, Structural)]
pub struct VarInt {
    pub val: i32,
}

impl VarInt {
    pub fn new(value: i32) -> (r: VarInt)
        ensures
            r.val == value,
    {
        VarInt { val: value }
    }
}

/// Reads one varint off the front of `bytes`, exactly as [`decode_varint`]
/// describes; the result always fits in 35 bits.
pub fn decode_varint_prefix<'a>(bytes: &'a [u8]) -> (r: Option<(u64, &'a [u8])>)
    ensures
        match r {
            Some(p) => decode_varint(bytes@) == Some((p.0 as nat, p.1@)) && (p.0 as nat) < pow128(
                5,
            ),
            None => decode_varint(bytes@) is None,
        },
{
    decode_varint_prefix_fuel(bytes, 5)
}

} // verus!
