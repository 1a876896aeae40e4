//! Rendering of metric names and values to text lines.
use vstd::prelude::*;
use crate::name::{Kind, Name};

verus! {

/// The byte that separates name segments, `.`.
pub const DOT: u8 = 46;

/// The byte of the digit zero, `0`.
pub const ZERO: u8 = 48;

/// The byte between a name and its value, a space.
pub const SPACE: u8 = 32;

/// The byte that ends a line.
pub const NEWLINE: u8 = 10;

/// The segments of a name joined by dots.
pub open spec fn dotted(n: Seq<Seq<u8>>) -> Seq<u8>
    decreases n.len(),
{
    if n.len() == 0 {
        Seq::empty()
    } else if n.len() == 1 {
        n[0]
    } else {
        dotted(n.drop_last()) + seq![DOT] + n.last()
    }
}

/// Rendering two non-empty names one after the other puts a dot between
/// their renderings.
pub proof fn lemma_dotted_concat(a: Seq<Seq<u8>>, b: Seq<Seq<u8>>)
    requires
        a.len() > 0,
        b.len() > 0,
    ensures
        dotted(a + b) == dotted(a) + seq![DOT] + dotted(b),
    decreases b.len(),
{
    if b.len() == 1 {
        assert((a + b).drop_last() =~= a);
        assert((a + b).last() == b[0]);
    } else {
        assert((a + b).drop_last() =~= a + b.drop_last());
        lemma_dotted_concat(a, b.drop_last());
        assert(dotted(a + b) =~= dotted(a) + seq![DOT] + dotted(b));
    }
}

/// The decimal digits of `v`, most significant first.
pub open spec fn decimal(v: nat) -> Seq<u8>
    decreases v,
{
    if v < 10 {
        seq![(ZERO + v) as u8]
    } else {
        decimal(v / 10).push((ZERO + v % 10) as u8)
    }
}

/// The line that reports `value` under the rendered name `template`:
/// the name, a space, the value in decimal and a newline.
pub open spec fn line_of(template: Seq<u8>, value: nat) -> Seq<u8> {
    template + seq![SPACE] + decimal(value) + seq![NEWLINE]
}

/// Renders a name once, to be reused for every value written under it.
/// Every kind is rendered the same way.
pub fn format_name(name: &Name, kind: Kind) -> (r: Vec<u8>)
    ensures
        r@ == dotted(name@),
{
    let mut r: Vec<u8> = Vec::new();
    let mut i: usize = 0;
    while i < name.len()
        invariant
            i <= name@.len(),
            r@ == dotted(name@.subrange(0, i as int)),
        decreases name@.len() - i,
    {
        let seg = name.segment(i);
        proof {
            let next = name@.subrange(0, i + 1);
            assert(next.drop_last() =~= name@.subrange(0, i as int));
            assert(next.last() == name@[i as int]);
        }
        if i > 0 {
            r.push(DOT);
        }
        let mut k: usize = 0;
        let ghost before = r@;
        while k < seg.len()
            invariant
                k <= seg@.len(),
                r@ == before + seg@.subrange(0, k as int),
            decreases seg@.len() - k,
        {
            r.push(seg[k]);
            proof {
                assert(before + seg@.subrange(0, k + 1) =~= (before + seg@.subrange(0, k as int)).push(seg@[k as int]));
            }
            k = k + 1;
        }
        proof {
            assert(seg@.subrange(0, k as int) =~= seg@);
            if i == 0 {
                assert(before =~= Seq::<u8>::empty());
                assert(r@ =~= name@.subrange(0, 1)[0]);
            }
        }
        i = i + 1;
    }
    assert(name@.subrange(0, i as int) =~= name@);
    r
}

/// Appends the decimal digits of `v` to `out`.
pub fn push_decimal(out: &mut Vec<u8>, v: u64)
    ensures
        final(out)@ == old(out)@ + decimal(v as nat),
    decreases v,
{
    if v >= 10 {
        push_decimal(out, v / 10);
    }
    out.push(ZERO + (v % 10) as u8);
    proof {
        if v >= 10 {
            assert(final(out)@ =~= old(out)@ + decimal((v / 10) as nat).push((ZERO + v % 10) as u8));
        } else {
            assert(final(out)@ =~= old(out)@ + decimal(v as nat));
        }
    }
}

/// Renders one value under a rendered name, as one line of text.
pub fn print_name_value_line(template: &Vec<u8>, value: u64) -> (r: Vec<u8>)
    ensures
        r@ == line_of(template@, value as nat),
{
    let mut r = crate::name::copy_bytes(template);
    r.push(SPACE);
    push_decimal(&mut r, value);
    r.push(NEWLINE);
    assert(r@ =~= line_of(template@, value as nat));
    r
}

} // verus!
