//! Metric identity: a path of name segments and a kind.
use vstd::prelude::*;
use vstd::string::StringSliceAdditionalSpecFns;

verus! {

/// The category of a metric.
#[derive(Clone, Copy, Debug, PartialEq, Eq, Structural)]
pub enum Kind {
    Marker,
    Counter,
    Gauge,
    Timer,
}

/// Copies a byte string.
pub fn copy_bytes(b: &Vec<u8>) -> (r: Vec<u8>)
    ensures
        r@ == b@,
{
    let mut r: Vec<u8> = Vec::new();
    let mut i: usize = 0;
    while i < b.len()
        invariant
            i <= b@.len(),
            r@ == b@.subrange(0, i as int),
        decreases b@.len() - i,
    {
        r.push(b[i]);
        i = i + 1;
    }
    assert(r@ =~= b@);
    r
}

/// Copies the bytes of a string slice.
pub fn bytes_of(s: &str) -> (r: Vec<u8>)
    ensures
        r@ == s.spec_bytes(),
{
    vstd::slice::slice_to_vec(s.as_bytes())
}

/// An ordered sequence of path segments, such as `process` then `uptime`.
/// A name is never changed in place: prefixing builds a new one.
#[derive(Debug)]
pub struct Name {
    segments: Vec<Vec<u8>>,
}

impl View for Name {
    type V = Seq<Seq<u8>>;

    closed spec fn view(&self) -> Seq<Seq<u8>> {
        self.segments@.map_values(|s: Vec<u8>| s@)
    }
}

impl Name {
    /// The name with no segment.
    pub fn empty() -> (r: Name)
        ensures
            r@ == Seq::<Seq<u8>>::empty(),
    {
        let r = Name { segments: Vec::new() };
        assert(r@ =~= Seq::<Seq<u8>>::empty());
        r
    }

    /// The name made of one segment, the bytes of `s`.
    pub fn from_str(s: &str) -> (r: Name)
        ensures
            r@ == seq![s.spec_bytes()],
    {
        let mut segments: Vec<Vec<u8>> = Vec::new();
        segments.push(bytes_of(s));
        let r = Name { segments };
        assert(r@ =~= seq![s.spec_bytes()]);
        r
    }

    /// Number of segments.
    pub fn len(&self) -> (r: usize)
        ensures
            r == self@.len(),
    {
        self.segments.len()
    }

    /// A copy of the segment at `i`.
    pub fn segment(&self, i: usize) -> (r: Vec<u8>)
        requires
            i < self@.len(),
        ensures
            r@ == self@[i as int],
    {
        copy_bytes(&self.segments[i])
    }

    /// A copy of this name.
    pub fn copy(&self) -> (r: Name)
        ensures
            r@ == self@,
    {
        self.concat(&Name::empty())
    }

    /// This name followed by the segments of `other`.
    pub fn concat(&self, other: &Name) -> (r: Name)
        ensures
            r@ == self@ + other@,
    {
        let mut segments: Vec<Vec<u8>> = Vec::new();
        let mut i: usize = 0;
        while i < self.segments.len()
            invariant
                i <= self@.len(),
                segments@.len() == i,
                forall|k: int| 0 <= k < i ==> #[trigger] segments@[k]@ == self@[k],
            decreases self@.len() - i,
        {
            segments.push(copy_bytes(&self.segments[i]));
            i = i + 1;
        }
        let mut j: usize = 0;
        while j < other.segments.len()
            invariant
                i == self@.len(),
                j <= other@.len(),
                segments@.len() == i + j,
                forall|k: int| 0 <= k < i ==> #[trigger] segments@[k]@ == self@[k],
                forall|k: int| 0 <= k < j ==> #[trigger] segments@[i + k]@ == other@[k],
            decreases other@.len() - j,
        {
            segments.push(copy_bytes(&other.segments[j]));
            j = j + 1;
        }
        let r = Name { segments };
        assert forall|k: int| 0 <= k < r@.len() implies r@[k] == (self@ + other@)[k] by {
            if k >= i {
                assert(segments@[i + (k - i)]@ == other@[k - i]);
            }
        }
        assert(r@ =~= self@ + other@);
        r
    }

    /// This name with one more segment, the bytes of `s`, at its end.
    pub fn with_segment(&self, s: &str) -> (r: Name)
        ensures
            r@ == self@.push(s.spec_bytes()),
    {
        let r = self.concat(&Name::from_str(s));
        assert(r@ =~= self@.push(s.spec_bytes()));
        r
    }

    /// Whether the two names have the same segments.
    pub fn same_as(&self, other: &Name) -> (r: bool)
        ensures
            r == (self@ == other@),
    {
        if self.segments.len() != other.segments.len() {
            return false;
        }
        let mut i: usize = 0;
        while i < self.segments.len()
            invariant
                self@.len() == other@.len(),
                i <= self@.len(),
                forall|k: int| 0 <= k < i ==> self@[k] == other@[k],
            decreases self@.len() - i,
        {
            if !bytes_equal(&self.segments[i], &other.segments[i]) {
                assert(self@[i as int] != other@[i as int]);
                return false;
            }
            i = i + 1;
        }
        assert(self@ =~= other@);
        true
    }
}

/// Whether two byte strings are equal.
pub fn bytes_equal(a: &Vec<u8>, b: &Vec<u8>) -> (r: bool)
    ensures
        r == (a@ == b@),
{
    if a.len() != b.len() {
        return false;
    }
    let mut i: usize = 0;
    while i < a.len()
        invariant
            a@.len() == b@.len(),
            i <= a@.len(),
            forall|k: int| 0 <= k < i ==> a@[k] == b@[k],
        decreases a@.len() - i,
    {
        if a[i] != b[i] {
            return false;
        }
        i = i + 1;
    }
    assert(a@ =~= b@);
    true
}

} // verus!

verus! {

/// What a sequence of byte strings holds, as sequences of bytes.
pub open spec fn views(s: Seq<Vec<u8>>) -> Seq<Seq<u8>> {
    s.map_values(|v: Vec<u8>| v@)
}

} // verus!
