//! The configuration carried by outputs and scopes: a name prefix and
//! whether written values are buffered until a flush.
use vstd::prelude::*;
use vstd::string::StringSliceAdditionalSpecFns;
use crate::name::Name;
use crate::text::{dotted, lemma_dotted_concat, DOT};

verus! {

/// Configuration shared by value between an output and the scopes it opens.
/// Decorating never changes an existing value: it builds a new one.
#[derive(Debug)]
pub struct Attributes {
    pub prefix: Name,
    pub buffered: bool,
}

impl Attributes {
    /// No prefix, no buffering.
    pub fn new() -> (r: Attributes)
        ensures
            r.prefix@ == Seq::<Seq<u8>>::empty(),
            !r.buffered,
    {
        Attributes { prefix: Name::empty(), buffered: false }
    }

    /// A copy of these attributes.
    pub fn copy(&self) -> (r: Attributes)
        ensures
            r.prefix@ == self.prefix@,
            r.buffered == self.buffered,
    {
        Attributes { prefix: self.prefix.copy(), buffered: self.buffered }
    }

    /// These attributes with `segment` appended to the prefix.
    pub fn with_prefix(&self, segment: &str) -> (r: Attributes)
        ensures
            r.prefix@ == self.prefix@.push(segment.spec_bytes()),
            r.buffered == self.buffered,
    {
        Attributes { prefix: self.prefix.with_segment(segment), buffered: self.buffered }
    }

    /// These attributes with buffering set to `buffered`.
    pub fn with_buffering(&self, buffered: bool) -> (r: Attributes)
        ensures
            r.prefix@ == self.prefix@,
            r.buffered == buffered,
    {
        Attributes { prefix: self.prefix.copy(), buffered }
    }

    /// Whether values written under these attributes are held until a flush.
    pub fn is_buffering(&self) -> (r: bool)
        ensures
            r == self.buffered,
    {
        self.buffered
    }

    /// The fully qualified form of `name`: the prefix, then the name.
    pub fn qualified_name(&self, name: &Name) -> (r: Name)
        ensures
            r@ == self.prefix@ + name@,
    {
        self.prefix.concat(name)
    }
}

/// Prefixing with `x` and then with `y` qualifies a name exactly as the
/// prefix followed by the two segments `x`, `y` does, and the rendered name
/// reads the prefix, `x`, `y` and the name, separated by dots.
pub proof fn prefix_composition(p: Seq<Seq<u8>>, x: Seq<u8>, y: Seq<u8>, n: Seq<Seq<u8>>)
    ensures
        p.push(x).push(y) + n == p + (seq![x, y] + n),
        p.len() > 0 && n.len() > 0 ==> dotted(p.push(x).push(y) + n) == dotted(p) + seq![DOT]
            + x + seq![DOT] + y + seq![DOT] + dotted(n),
{
    assert(p.push(x).push(y) + n =~= p + (seq![x, y] + n));
    if p.len() > 0 && n.len() > 0 {
        let xy: Seq<Seq<u8>> = seq![x, y];
        lemma_dotted_concat(xy, n);
        lemma_dotted_concat(p, xy + n);
        assert(xy.drop_last() =~= seq![x]);
        assert(dotted(seq![x]) == x);
        assert(dotted(xy) == x + seq![DOT] + y);
        assert(dotted(p.push(x).push(y) + n) =~= dotted(p) + seq![DOT] + x + seq![DOT] + y
            + seq![DOT] + dotted(n));
    }
}

} // verus!
