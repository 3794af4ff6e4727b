//! Parameters of control sequences, and the decimal numbers of the replies.

use vstd::prelude::*;

verus! {

/// An ASCII decimal digit.
pub open spec fn is_digit(b: u8) -> bool {
    0x30 <= b && b <= 0x39
}

/// `x` saturated to the range of `u16`.
pub open spec fn sat_u16(x: int) -> u16 {
    if x > 65535 {
        65535
    } else if x < 0 {
        0
    } else {
        x as u16
    }
}

/// The number a parameter field holds: its digits read left to right as a
/// decimal number that saturates at 65535; other bytes are skipped.
pub open spec fn field_value(p: Seq<u8>) -> u16
    decreases p.len(),
{
    if p.len() == 0 {
        0
    } else {
        let acc = field_value(p.drop_last());
        let b = p.last();
        if is_digit(b) {
            sat_u16(sat_u16(acc * 10) + (b - 0x30))
        } else {
            acc
        }
    }
}

/// The fields of `s` between semicolons: one more field than there are
/// semicolons, as slice `split` gives them.
pub open spec fn split_fields(s: Seq<u8>) -> Seq<Seq<u8>>
    decreases s.len(),
{
    if s.len() == 0 {
        seq![Seq::empty()]
    } else {
        let p = split_fields(s.drop_last());
        if s.last() == 0x3b {
            p.push(Seq::empty())
        } else {
            p.update(p.len() - 1, p.last().push(s.last()))
        }
    }
}

pub proof fn lemma_split_fields_len(s: Seq<u8>)
    ensures
        split_fields(s).len() >= 1,
    decreases s.len(),
{
    if s.len() > 0 {
        lemma_split_fields_len(s.drop_last());
    }
}

/// A control sequence whose parameters start with `?` (a private mode).
pub open spec fn csi_private(buf: Seq<u8>) -> bool {
    buf.len() > 0 && buf[0] == 0x3f
}

/// The numeric parameters of a control sequence: its fields after the
/// optional `?`, each read by `field_value`; none when nothing follows.
pub open spec fn csi_params(buf: Seq<u8>) -> Seq<u16> {
    let start: int = if csi_private(buf) { 1 } else { 0 };
    if start >= buf.len() {
        seq![]
    } else {
        split_fields(buf.skip(start)).map_values(|p: Seq<u8>| field_value(p))
    }
}

/// Splits the parameter bytes of a control sequence into its private flag
/// and its numeric parameters.
pub fn parse_csi_params(buf: &Vec<u8>) -> (res: (bool, Vec<u16>))
    ensures
        res.0 == csi_private(buf@),
        res.1@ == csi_params(buf@),
{
    let private = buf.len() > 0 && buf[0] == 0x3f;
    let start: usize = if private { 1 } else { 0 };
    let mut params: Vec<u16> = Vec::new();
    if start >= buf.len() {
        return (private, params);
    }
    let ghost t = buf@.skip(start as int);
    let mut acc: u16 = 0;
    let mut j = start;
    proof {
        assert(t.take(0) =~= Seq::<u8>::empty());
        assert(split_fields(t.take(0)) =~= seq![Seq::<u8>::empty()]);
    }
    while j < buf.len()
        invariant
            start <= j <= buf@.len(),
            t == buf@.skip(start as int),
            split_fields(t.take(j - start)).len() >= 1,
            params@ == split_fields(t.take(j - start)).drop_last().map_values(
                |p: Seq<u8>| field_value(p),
            ),
            acc == field_value(split_fields(t.take(j - start)).last()),
        decreases buf@.len() - j,
    {
        let b = buf[j];
        let ghost before = t.take(j - start);
        let ghost after = t.take(j + 1 - start);
        assert(after.drop_last() =~= before);
        assert(after.last() == b);
        let ghost p = split_fields(before);
        if b == 0x3b {
            params.push(acc);
            acc = 0;
            assert(split_fields(after) == p.push(Seq::<u8>::empty()));
            assert(params@ =~= split_fields(after).drop_last().map_values(
                |p: Seq<u8>| field_value(p),
            ));
        } else {
            let ghost last = p.last();
            assert(split_fields(after) == p.update(p.len() - 1, last.push(b)));
            assert(last.push(b).drop_last() =~= last);
            if 0x30 <= b && b <= 0x39 {
                let m: u32 = acc as u32 * 10;
                let m16: u16 = if m > 65535 { 65535 } else { m as u16 };
                let s: u32 = m16 as u32 + (b - 0x30) as u32;
                acc = if s > 65535 { 65535 } else { s as u16 };
            }
            assert(acc == field_value(last.push(b)));
            assert(params@ =~= split_fields(after).drop_last().map_values(
                |p: Seq<u8>| field_value(p),
            ));
        }
        j += 1;
    }
    params.push(acc);
    proof {
        assert(t.take(buf@.len() - start) =~= t);
        let s = split_fields(t);
        assert(s.drop_last().push(s.last()) =~= s);
        assert(params@ =~= split_fields(t).map_values(|p: Seq<u8>| field_value(p)));
    }
    (private, params)
}

/// The decimal digits of `n`, most significant first.
pub open spec fn decimal(n: nat) -> Seq<u8>
    decreases n,
{
    if n < 10 {
        seq![(0x30 + n) as u8]
    } else {
        decimal(n / 10).push((0x30 + n % 10) as u8)
    }
}

/// Appends the decimal digits of `n`.
pub fn push_decimal(out: &mut Vec<u8>, n: u32)
    ensures
        final(out)@ == old(out)@ + decimal(n as nat),
    decreases n,
{
    if n < 10 {
        out.push((0x30 + n) as u8);
        assert(out@ =~= old(out)@ + decimal(n as nat));
    } else {
        push_decimal(out, n / 10);
        out.push((0x30 + n % 10) as u8);
        assert(out@ =~= old(out)@ + decimal(n as nat));
    }
}

} // verus!
