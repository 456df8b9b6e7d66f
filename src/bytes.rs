//! Byte-sequence helpers: case folding, comparison and the sub-slice relation.
use vstd::prelude::*;

verus! {

pub open spec fn spec_lower_byte(c: u8) -> u8 {
    if 0x41u8 <= c && c <= 0x5Au8 {
        (c + 0x20u8) as u8
    } else {
        c
    }
}

/// ASCII lower case of every octet.
pub open spec fn spec_lower(s: Seq<u8>) -> Seq<u8> {
    s.map_values(|c: u8| spec_lower_byte(c))
}

/// `s` is a contiguous part of `b`.
pub open spec fn is_slice_of(s: Seq<u8>, b: Seq<u8>) -> bool {
    exists|i: int, j: int| 0 <= i <= j <= b.len() && s == #[trigger] b.subrange(i, j)
}

/// `s` is what is left of `b` after a prefix of it.
pub open spec fn is_suffix_of(s: Seq<u8>, b: Seq<u8>) -> bool {
    s.len() <= b.len() && s == b.subrange(b.len() - s.len(), b.len() as int)
}

pub proof fn lemma_slice_of_sub(b: Seq<u8>, i: int, j: int)
    requires
        0 <= i <= j <= b.len(),
    ensures
        is_slice_of(b.subrange(i, j), b),
{
}

pub proof fn lemma_slice_trans(s: Seq<u8>, v: Seq<u8>, b: Seq<u8>)
    requires
        is_slice_of(s, v),
        is_slice_of(v, b),
    ensures
        is_slice_of(s, b),
{
    let (i, j) = choose|i: int, j: int| 0 <= i <= j <= v.len() && s == #[trigger] v.subrange(i, j);
    let (k, l) = choose|k: int, l: int| 0 <= k <= l <= b.len() && v == #[trigger] b.subrange(k, l);
    assert(s =~= b.subrange(k + i, k + j));
}

pub proof fn lemma_single(l: Seq<u8>, c: u8)
    requires
        l.len() == 1,
        l[0] == c,
    ensures
        l == seq![c],
{
    assert(l =~= seq![c]);
}

pub fn lower_byte(c: u8) -> (r: u8)
    ensures
        r == spec_lower_byte(c),
{
    if 0x41u8 <= c && c <= 0x5Au8 {
        c + 0x20u8
    } else {
        c
    }
}

pub fn ascii_lower(s: &[u8]) -> (r: Vec<u8>)
    ensures
        r@ == spec_lower(s@),
{
    let mut r: Vec<u8> = Vec::new();
    let mut i: usize = 0;
    while i < s.len()
        invariant
            i <= s.len(),
            r@ =~= spec_lower(s@.subrange(0, i as int)),
        decreases s.len() - i,
    {
        let c = lower_byte(s[i]);
        r.push(c);
        i += 1;
        assert(spec_lower(s@.subrange(0, i as int)) =~= spec_lower(s@.subrange(0, i - 1)).push(c));
    }
    assert(s@.subrange(0, s@.len() as int) =~= s@);
    r
}

pub fn bytes_eq(a: &[u8], b: &[u8]) -> (r: bool)
    ensures
        r == (a@ == b@),
{
    if a.len() != b.len() {
        return false;
    }
    let mut i: usize = 0;
    while i < a.len()
        invariant
            a.len() == b.len(),
            i <= a.len(),
            forall|k: int| 0 <= k < i ==> a@[k] == b@[k],
        decreases a.len() - i,
    {
        if a[i] != b[i] {
            return false;
        }
        i += 1;
    }
    assert(a@ =~= b@);
    true
}

/// Compares two byte strings, ignoring ASCII case.
pub fn eq_ignore_case(a: &[u8], b: &[u8]) -> (r: bool)
    ensures
        r == (spec_lower(a@) == spec_lower(b@)),
{
    if a.len() != b.len() {
        assert(spec_lower(a@).len() != spec_lower(b@).len());
        return false;
    }
    let mut i: usize = 0;
    while i < a.len()
        invariant
            a.len() == b.len(),
            i <= a.len(),
            forall|k: int| 0 <= k < i ==> spec_lower_byte(a@[k]) == spec_lower_byte(b@[k]),
        decreases a.len() - i,
    {
        if lower_byte(a[i]) != lower_byte(b[i]) {
            assert(spec_lower(a@)[i as int] != spec_lower(b@)[i as int]);
            return false;
        }
        i += 1;
    }
    assert(spec_lower(a@) =~= spec_lower(b@));
    true
}

} // verus!
