//! Varints: numbers of up to 64 bits, seven bits to a byte.

use vstd::prelude::*;

verus! {

/// The longest varint that is read, in bytes.
pub const MAX_VARINT_LEN: usize = 10;

/// What the last `len` of the ten bytes of a varint can hold stays below
/// this: the tenth byte carries one bit, every byte before it seven. For
/// all ten bytes it is two to the power of 64.
pub open spec fn varint_limit(len: nat) -> nat
    decreases len,
{
    if len == 0 {
        1
    } else if len == 1 {
        2
    } else {
        128 * varint_limit((len - 1) as nat)
    }
}

/// The canonical varint encoding of `v`: seven bits to a byte, least
/// significant group first, the top bit set on every byte but the last.
pub open spec fn varint_encoding(v: nat) -> Seq<u8>
    decreases v,
{
    if v < 128 {
        seq![v as u8]
    } else {
        seq![(128 + v % 128) as u8] + varint_encoding(v / 128)
    }
}

/// The value and length of the varint that `s` starts with, where `budget`
/// of the ten bytes of a varint are still to be read. The tenth byte, which
/// is read with a budget of one, may carry one bit only.
pub open spec fn varint_prefix(s: Seq<u8>, budget: nat) -> Option<(nat, nat)>
    decreases budget,
{
    if budget == 0 || s.len() == 0 {
        None
    } else if s[0] < 128 {
        if budget == 1 && s[0] >= 2 {
            None
        } else {
            Some((s[0] as nat, 1nat))
        }
    } else {
        match varint_prefix(s.skip(1), (budget - 1) as nat) {
            Some((v, n)) => Some((((s[0] - 128) + 128 * v) as nat, n + 1)),
            None => None,
        }
    }
}

/// The varint that `s` starts with and the number of bytes it takes, or
/// `None` where `s` starts with none of at most ten bytes that fits 64 bits.
/// Encodings padded with zero groups are read like the canonical one.
pub open spec fn parse_varint(s: Seq<u8>) -> Option<(u64, nat)> {
    match varint_prefix(s, MAX_VARINT_LEN as nat) {
        Some((v, n)) => Some((v as u64, n)),
        None => None,
    }
}

/// A varint read within `budget` bytes is below the limit of that length
/// and takes between one byte and `budget` bytes, all of them in `s`.
pub proof fn lemma_varint_prefix_bounds(s: Seq<u8>, budget: nat)
    requires
        budget <= MAX_VARINT_LEN,
    ensures
        varint_prefix(s, budget) matches Some((v, n)) ==> v < varint_limit(budget) && 1 <= n
            <= budget && n <= s.len() && v < 0x1_0000_0000_0000_0000,
    decreases budget,
{
    reveal_with_fuel(varint_limit, 11);
    if budget > 0 && s.len() > 0 && s[0] >= 128 {
        lemma_varint_prefix_bounds(s.skip(1), (budget - 1) as nat);
    }
}

/// The canonical encoding of a number below the limit of `budget` bytes is
/// read back as that number, whatever follows it.
pub proof fn lemma_varint_round_trip(v: nat, t: Seq<u8>, budget: nat)
    requires
        1 <= budget <= MAX_VARINT_LEN,
        v < varint_limit(budget),
    ensures
        varint_prefix(varint_encoding(v) + t, budget) == Some((v, varint_encoding(v).len())),
        1 <= varint_encoding(v).len() <= budget,
    decreases budget,
{
    reveal_with_fuel(varint_limit, 11);
    let e = varint_encoding(v);
    if v < 128 {
        assert((e + t)[0] == v as u8);
    } else {
        let rest = varint_encoding(v / 128);
        assert((e + t)[0] == (128 + v % 128) as u8);
        assert((e + t).skip(1) =~= rest + t);
        lemma_varint_round_trip(v / 128, t, (budget - 1) as nat);
    }
}

/// Reads the varint that starts at `pos`: its value and the position behind it.
pub fn decode_varint(bytes: &[u8], pos: usize) -> (r: Option<(u64, usize)>)
    requires
        pos <= bytes.len(),
    ensures
        match r {
            Some((v, next)) => pos < next <= bytes.len() && parse_varint(bytes@.skip(pos as int))
                == Some((v, (next - pos) as nat)),
            None => parse_varint(bytes@.skip(pos as int)) is None,
        },
{
    let ghost s = bytes@.skip(pos as int);
    let avail: usize = bytes.len() - pos;
    let mut value: u64 = 0;
    let mut scale: u64 = 1;
    let mut i: usize = 0;
    proof {
        reveal_with_fuel(varint_limit, 11);
        assert(s.skip(0) =~= s);
    }
    while i < MAX_VARINT_LEN - 1
        invariant
            i <= MAX_VARINT_LEN - 1,
            pos <= bytes.len(),
            avail == bytes.len() - pos,
            i <= avail,
            s == bytes@.skip(pos as int),
            2 * scale == varint_limit((i + 1) as nat),
            value < scale,
            varint_prefix(s, MAX_VARINT_LEN as nat) == match varint_prefix(
                s.skip(i as int),
                (MAX_VARINT_LEN - i) as nat,
            ) {
                Some((v, n)) => Some(((value + scale * v) as nat, (n + i) as nat)),
                None => None,
            },
        decreases MAX_VARINT_LEN - i,
    {
        if i >= avail {
            return None;
        }
        let b: u8 = bytes[pos + i];
        let ghost tail = varint_prefix(s.skip(i as int + 1), (MAX_VARINT_LEN - i - 1) as nat);
        proof {
            reveal_with_fuel(varint_limit, 11);
            assert(s.skip(i as int)[0] == b);
            assert(s.skip(i as int).skip(1) =~= s.skip(i as int + 1));
            assert(scale <= 0x100_0000_0000_0000);
        }
        if b < 128 {
            assert(scale * b <= scale * 127) by (nonlinear_arith)
                requires
                    b <= 127,
            ;
            proof {
                lemma_varint_prefix_bounds(s, MAX_VARINT_LEN as nat);
            }
            return Some((value + scale * (b as u64), pos + i + 1));
        }
        let low: u64 = (b - 128) as u64;
        assert(scale * low <= scale * 127) by (nonlinear_arith)
            requires
                low <= 127,
        ;
        proof {
            if let Some((v2, n2)) = tail {
                assert(scale * (low + 128 * v2) == scale * low + (scale * 128) * v2)
                    by (nonlinear_arith);
            }
        }
        value = value + scale * low;
        scale = scale * 128;
        i = i + 1;
    }
    if i >= avail {
        return None;
    }
    let b: u8 = bytes[pos + i];
    proof {
        reveal_with_fuel(varint_limit, 11);
        assert(s.skip(i as int)[0] == b);
        lemma_varint_prefix_bounds(s, MAX_VARINT_LEN as nat);
    }
    if b < 2 {
        assert(scale * b <= scale) by (nonlinear_arith)
            requires
                b <= 1,
        ;
        assert(varint_prefix(s.skip(i as int), 1) == Some((b as nat, 1nat)));
        Some((value + scale * (b as u64), pos + i + 1))
    } else {
        assert(varint_prefix(s.skip(i as int), 1) is None) by {
            assert(varint_prefix(s.skip(i as int).skip(1), 0) is None);
        }
        None
    }
}

/// Appends the canonical varint encoding of `v` to `out`.
pub fn encode_varint(v: u64, out: &mut Vec<u8>)
    ensures
        final(out)@ == old(out)@ + varint_encoding(v as nat),
{
    let ghost start = out@;
    let mut rest: u64 = v;
    while rest >= 128
        invariant
            out@ + varint_encoding(rest as nat) == start + varint_encoding(v as nat),
        decreases rest,
    {
        let ghost before = out@;
        out.push((128 + rest % 128) as u8);
        proof {
            assert(out@ + varint_encoding((rest / 128) as nat) =~= before + varint_encoding(
                rest as nat,
            ));
        }
        rest = rest / 128;
    }
    let ghost before = out@;
    out.push(rest as u8);
    assert(out@ =~= before + varint_encoding(rest as nat));
}

} // verus!
