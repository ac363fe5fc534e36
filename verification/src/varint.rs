//! Variable-length integers: seven bits to a byte, lowest group first, a
//! set top bit on every byte but the last. Only the shortest form of a
//! number is read back.

use vstd::prelude::*;

verus! {

/// Length of the longest encoding of a 64-bit number.
pub const MAX_VARINT_LEN: usize = 10;

/// The bytes that stand for `v`.
pub open spec fn varint(v: nat) -> Seq<u8>
    decreases v,
{
    if v < 128 {
        seq![v as u8]
    } else {
        seq![(128 + v % 128) as u8] + varint(v / 128)
    }
}

/// Reads one number in shortest form from `s` at `pos`, looking at no more
/// than `limit` bytes. Gives the number and the position behind it.
pub open spec fn parse_varint(s: Seq<u8>, pos: int, limit: nat) -> Option<(nat, int)>
    decreases limit,
{
    if limit == 0 || pos < 0 || pos >= s.len() {
        None
    } else if s[pos] < 128 {
        Some((s[pos] as nat, pos + 1))
    } else {
        match parse_varint(s, pos + 1, (limit - 1) as nat) {
            Some((high, next)) => if high > 0 {
                Some(((s[pos] - 128 + 128 * high) as nat, next))
            } else {
                None
            },
            None => None,
        }
    }
}

/// Reads one 64-bit number from `s` at `pos`.
pub open spec fn parse_u64(s: Seq<u8>, pos: int) -> Option<(u64, int)> {
    bounded(parse_varint(s, pos, MAX_VARINT_LEN as nat))
}

/// Keeps a parsed number only where it fits 64 bits.
pub open spec fn bounded(r: Option<(nat, int)>) -> Option<(u64, int)> {
    match r {
        Some((v, next)) => if v <= u64::MAX {
            Some((v as u64, next))
        } else {
            None
        },
        None => None,
    }
}

/// Where the bytes of `s` at `pos` spell `v`, the parser finds `v` there.
pub proof fn lemma_parse_of_varint(s: Seq<u8>, pos: int, v: nat, limit: nat)
    requires
        0 <= pos,
        pos + varint(v).len() <= s.len(),
        s.subrange(pos, pos + varint(v).len()) == varint(v),
        varint(v).len() <= limit,
    ensures
        parse_varint(s, pos, limit) == Some((v, pos + varint(v).len())),
    decreases v,
{
    let code = varint(v);
    assert(s[pos] == s.subrange(pos, pos + code.len())[0]);
    if v >= 128 {
        let rest = varint(v / 128);
        assert(code =~= seq![(128 + v % 128) as u8] + rest);
        assert(s.subrange(pos + 1, pos + 1 + rest.len()) =~= rest) by {
            assert forall|i: int| 0 <= i < rest.len() implies s.subrange(
                pos + 1,
                pos + 1 + rest.len(),
            )[i] == rest[i] by {
                assert(s[pos + 1 + i] == s.subrange(pos, pos + code.len())[i + 1]);
                assert(code[i + 1] == rest[i]);
            }
        }
        lemma_parse_of_varint(s, pos + 1, v / 128, (limit - 1) as nat);
    }
}

/// What the parser finds is spelled by the bytes it went over.
pub proof fn lemma_varint_of_parse(s: Seq<u8>, pos: int, limit: nat)
    requires
        parse_varint(s, pos, limit) is Some,
    ensures
        ({
            let (v, next) = parse_varint(s, pos, limit).unwrap();
            &&& 0 <= pos < next <= s.len()
            &&& next - pos <= limit
            &&& s.subrange(pos, next) == varint(v)
        }),
    decreases limit,
{
    let (v, next) = parse_varint(s, pos, limit).unwrap();
    if s[pos] < 128 {
        assert(s.subrange(pos, next) =~= varint(v));
    } else {
        lemma_varint_of_parse(s, pos + 1, (limit - 1) as nat);
        let (high, _) = parse_varint(s, pos + 1, (limit - 1) as nat).unwrap();
        let low = s[pos] - 128;
        assert(v == low + 128 * high);
        assert(v % 128 == low && v / 128 == high);
        assert(s.subrange(pos, next) =~= seq![s[pos]] + s.subrange(pos + 1, next));
    }
}

/// An encoding is never empty.
pub proof fn lemma_varint_nonempty(v: nat)
    ensures
        varint(v).len() >= 1,
    decreases v,
{
    if v >= 128 {
        lemma_varint_nonempty(v / 128);
    }
}

/// A 64-bit number takes at most ten bytes.
pub proof fn lemma_varint_len_u64(v: nat)
    requires
        v <= u64::MAX,
    ensures
        1 <= varint(v).len() <= MAX_VARINT_LEN,
{
    lemma_varint_nonempty(v);
    reveal_with_fuel(varint, 11);
    let v1 = v / 128;
    let v2 = v1 / 128;
    let v3 = v2 / 128;
    let v4 = v3 / 128;
    let v5 = v4 / 128;
    let v6 = v5 / 128;
    let v7 = v6 / 128;
    let v8 = v7 / 128;
    let v9 = v8 / 128;
    assert(v9 < 128);
}

/// Appends the encoding of `v` to `out`.
pub fn put_varint(out: &mut Vec<u8>, v: u64)
    ensures
        final(out)@ == old(out)@ + varint(v as nat),
{
    let ghost start = out@;
    let mut rest: u64 = v;
    while rest >= 128
        invariant
            out@ + varint(rest as nat) == start + varint(v as nat),
        decreases rest,
    {
        let ghost before = out@;
        let low: u8 = (rest % 128) as u8;
        out.push(low + 128);
        proof {
            assert(varint(rest as nat) =~= seq![(128 + rest % 128) as u8] + varint(
                (rest / 128) as nat,
            ));
            assert(out@ + varint((rest / 128) as nat) =~= before + varint(rest as nat));
        }
        rest = rest / 128;
    }
    let ghost before = out@;
    out.push(rest as u8);
    proof {
        assert(out@ =~= before + varint(rest as nat));
    }
}

/// Reads one number from `bytes` at `pos`, looking at no more than `limit`
/// bytes; `None` where there is no number in shortest form or it does not
/// fit 64 bits.
pub fn take_varint(bytes: &[u8], pos: usize, limit: usize) -> (r: Option<(u64, usize)>)
    ensures
        match r {
            Some((v, next)) => bounded(parse_varint(bytes@, pos as int, limit as nat)) == Some(
                (v, next as int),
            ),
            None => bounded(parse_varint(bytes@, pos as int, limit as nat)) is None,
        },
    decreases limit,
{
    if limit == 0 || pos >= bytes.len() {
        return None;
    }
    let first: u8 = bytes[pos];
    if first < 128 {
        return Some((first as u64, pos + 1));
    }
    let low: u64 = (first - 128) as u64;
    match take_varint(bytes, pos + 1, limit - 1) {
        None => None,
        Some((high, next)) => {
            if high == 0 || high > (u64::MAX - low) / 128 {
                None
            } else {
                Some((low + 128 * high, next))
            }
        },
    }
}

/// Reads one 64-bit number from `bytes` at `pos`.
pub fn take_u64(bytes: &[u8], pos: usize) -> (r: Option<(u64, usize)>)
    ensures
        match r {
            Some((v, next)) => parse_u64(bytes@, pos as int) == Some((v, next as int)),
            None => parse_u64(bytes@, pos as int) is None,
        },
{
    take_varint(bytes, pos, MAX_VARINT_LEN)
}

} // verus!
