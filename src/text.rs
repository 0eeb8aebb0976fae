use vstd::prelude::*;
use vstd::string::StringSliceAdditionalSpecFns;

verus! {

/// Byte-wise comparison of two texts.
pub fn bytes_equal(a: &[u8], b: &[u8]) -> (r: bool)
    ensures
        r == (a@ == b@),
{
    if a.len() != b.len() {
        return false;
    }
    let mut i: usize = 0;
    while i < a.len()
        invariant
            a@.len() == b@.len(),
            i <= a@.len(),
            a@.subrange(0, i as int) == b@.subrange(0, i as int),
        decreases a@.len() - i,
    {
        if a[i] != b[i] {
            assert(a@[i as int] != b@[i as int]);
            return false;
        }
        assert(a@.subrange(0, i + 1) == a@.subrange(0, i as int).push(a@[i as int]));
        assert(b@.subrange(0, i + 1) == b@.subrange(0, i as int).push(b@[i as int]));
        i = i + 1;
    }
    assert(a@ == a@.subrange(0, a@.len() as int));
    assert(b@ == b@.subrange(0, b@.len() as int));
    true
}

/// Appends the bytes of `b` to `out`.
pub fn append_bytes(out: &mut Vec<u8>, b: &[u8])
    ensures
        final(out)@ == old(out)@ + b@,
{
    let mut i: usize = 0;
    while i < b.len()
        invariant
            i <= b@.len(),
            out@ == old(out)@ + b@.subrange(0, i as int),
        decreases b@.len() - i,
    {
        out.push(b[i]);
        assert(b@.subrange(0, i + 1) == b@.subrange(0, i as int).push(b@[i as int]));
        i = i + 1;
    }
    assert(b@ == b@.subrange(0, b@.len() as int));
}

/// A fresh copy of the bytes `b[start..end]`.
pub fn copy_range(b: &[u8], start: usize, end: usize) -> (r: Vec<u8>)
    requires
        start <= end <= b@.len(),
    ensures
        r@ == b@.subrange(start as int, end as int),
{
    let mut out: Vec<u8> = Vec::new();
    let mut i: usize = start;
    while i < end
        invariant
            start <= i <= end <= b@.len(),
            out@ == b@.subrange(start as int, i as int),
        decreases end - i,
    {
        out.push(b[i]);
        assert(b@.subrange(start as int, i + 1) == b@.subrange(start as int, i as int).push(
            b@[i as int],
        ));
        i = i + 1;
    }
    out
}

/// The decimal digits of `n`, most significant first.
pub open spec fn decimal_spec(n: nat) -> Seq<u8>
    decreases n,
{
    if n < 10 {
        seq![(48 + n) as u8]
    } else {
        decimal_spec(n / 10).push((48 + n % 10) as u8)
    }
}

/// The bytes of a message text.
pub fn message(s: &str) -> (r: Vec<u8>)
    ensures
        r@ == s.spec_bytes(),
{
    let b = s.as_bytes();
    copy_range(b, 0, b.len())
}

/// Writes `n` in decimal.
pub fn decimal(n: usize) -> (r: Vec<u8>)
    ensures
        r@ == decimal_spec(n as nat),
    decreases n,
{
    if n < 10 {
        let mut v: Vec<u8> = Vec::new();
        v.push((48 + n) as u8);
        assert(v@ == seq![(48 + n) as u8]);
        v
    } else {
        let mut v = decimal(n / 10);
        v.push((48 + n % 10) as u8);
        v
    }
}

/// The texts of an interner, as byte sequences.
pub open spec fn texts_view(texts: Seq<Vec<u8>>) -> Seq<Seq<u8>> {
    texts.map_values(|t: Vec<u8>| t@)
}

/// A table of distinct texts. A handle is an index into it, so two handles are
/// equal exactly when their texts are.
pub struct Interner {
    pub texts: Vec<Vec<u8>>,
}

impl Interner {
    pub open spec fn view(&self) -> Seq<Seq<u8>> {
        texts_view(self.texts@)
    }

    /// No text appears twice.
    pub open spec fn wf(&self) -> bool {
        forall|i: int, j: int|
            0 <= i < self.texts@.len() && 0 <= j < self.texts@.len() && i != j
                ==> #[trigger] self.texts@[i]@ != #[trigger] self.texts@[j]@
    }

    pub fn new() -> (r: Interner)
        ensures
            r.wf(),
            r.view().len() == 0,
    {
        Interner { texts: Vec::new() }
    }

    /// The handle of `text`: the one it already has, or a new one at the end.
    /// Earlier handles keep their texts.
    pub fn intern(&mut self, text: &[u8]) -> (r: usize)
        requires
            old(self).wf(),
        ensures
            final(self).wf(),
            r < final(self).view().len(),
            final(self).view()[r as int] == text@,
            old(self).view().is_prefix_of(final(self).view()),
            old(self).view().contains(text@) ==> final(self).view() == old(self).view(),
            !old(self).view().contains(text@) ==> final(self).view() == old(self).view().push(
                text@,
            ),
    {
        let mut i: usize = 0;
        while i < self.texts.len()
            invariant
                self.wf(),
                self.view() == old(self).view(),
                i <= self.texts@.len(),
                forall|j: int| 0 <= j < i ==> #[trigger] self.texts@[j]@ != text@,
            decreases self.texts@.len() - i,
        {
            if bytes_equal(self.texts[i].as_slice(), text) {
                assert(self.view()[i as int] == text@);
                return i;
            }
            i = i + 1;
        }
        assert(!self.view().contains(text@)) by {
            if self.view().contains(text@) {
                let k = choose|k: int| 0 <= k < self.view().len() && self.view()[k] == text@;
                assert(self.texts@[k]@ == text@);
            }
        }
        let n = self.texts.len();
        let copy = copy_range(text, 0, text.len());
        assert(copy@ == text@);
        self.texts.push(copy);
        assert(self.view() =~= old(self).view().push(text@));
        n
    }

    /// The text of a handle; `None` for a handle that the table does not hold.
    pub fn text(&self, handle: usize) -> (r: Option<&Vec<u8>>)
        ensures
            handle < self.view().len() ==> r is Some && r->Some_0@ == self.view()[handle as int],
            handle >= self.view().len() ==> r is None,
    {
        if handle < self.texts.len() {
            Some(&self.texts[handle])
        } else {
            None
        }
    }
}

} // verus!
