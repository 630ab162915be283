//! Byte-string user keys and inclusive key ranges, ordered
//! lexicographically. Every overlap decision made by the compaction
//! pickers reduces to this ordering.

use vstd::prelude::*;

verus! {

/// Lexicographic order on byte strings: `a` is less than or equal to
/// `b` when `a` is a prefix of `b` or the first differing byte of `a`
/// is smaller.
pub open spec fn lex_le(a: Seq<u8>, b: Seq<u8>) -> bool
    decreases a.len(),
{
    if a.len() == 0 {
        true
    } else if b.len() == 0 {
        false
    } else if a[0] < b[0] {
        true
    } else if a[0] > b[0] {
        false
    } else {
        lex_le(a.skip(1), b.skip(1))
    }
}

/// The order is total: any two byte strings compare one way or the other.
pub proof fn lex_le_total(a: Seq<u8>, b: Seq<u8>)
    ensures
        lex_le(a, b) || lex_le(b, a),
    decreases a.len(),
{
    if a.len() != 0 && b.len() != 0 && a[0] == b[0] {
        lex_le_total(a.skip(1), b.skip(1));
    }
}

/// The order is reflexive.
pub proof fn lex_le_reflexive(a: Seq<u8>)
    ensures
        lex_le(a, a),
    decreases a.len(),
{
    if a.len() != 0 {
        lex_le_reflexive(a.skip(1));
    }
}

/// The order is antisymmetric: mutual `lex_le` means equality.
pub proof fn lex_le_antisymmetric(a: Seq<u8>, b: Seq<u8>)
    requires
        lex_le(a, b),
        lex_le(b, a),
    ensures
        a == b,
    decreases a.len(),
{
    if a.len() == 0 {
        assert(b.len() == 0);
        assert(a =~= b);
    } else {
        assert(b.len() != 0);
        assert(a[0] == b[0]);
        lex_le_antisymmetric(a.skip(1), b.skip(1));
        assert(a =~= seq![a[0]] + a.skip(1));
        assert(b =~= seq![b[0]] + b.skip(1));
    }
}

/// The order is transitive.
pub proof fn lex_le_transitive(a: Seq<u8>, b: Seq<u8>, c: Seq<u8>)
    requires
        lex_le(a, b),
        lex_le(b, c),
    ensures
        lex_le(a, c),
    decreases a.len(),
{
    if a.len() != 0 && b.len() != 0 && c.len() != 0 && a[0] == b[0] && b[0] == c[0] {
        lex_le_transitive(a.skip(1), b.skip(1), c.skip(1));
    }
}

/// Compares two byte strings in lexicographic order.
pub fn bytes_le(a: &Vec<u8>, b: &Vec<u8>) -> (r: bool)
    ensures
        r == lex_le(a@, b@),
{
    let mut i: usize = 0;
    assert(a@.skip(0) =~= a@);
    assert(b@.skip(0) =~= b@);
    loop
        invariant
            i <= a.len(),
            i <= b.len(),
            a@.skip(i as int).len() == a@.len() - i,
            b@.skip(i as int).len() == b@.len() - i,
            lex_le(a@, b@) == lex_le(a@.skip(i as int), b@.skip(i as int)),
            lex_le(b@, a@) == lex_le(b@.skip(i as int), a@.skip(i as int)),
        decreases a.len() - i,
    {
        if i >= a.len() {
            return true;
        }
        if i >= b.len() {
            return false;
        }
        let x = a[i];
        let y = b[i];
        assert(a@.skip(i as int)[0] == a@[i as int]);
        assert(b@.skip(i as int)[0] == b@[i as int]);
        if x < y {
            return true;
        }
        if x > y {
            return false;
        }
        assert(a@.skip(i as int).skip(1) =~= a@.skip(i + 1));
        assert(b@.skip(i as int).skip(1) =~= b@.skip(i + 1));
        i = i + 1;
    }
}

/// An inclusive range of user keys, `left` through `right`.
#[derive(Debug)]
pub struct KeyRange {
    pub left: Vec<u8>,
    pub right: Vec<u8>,
}

impl Clone for KeyRange {
    /// A cloned range covers exactly the same keys.
    fn clone(&self) -> (r: KeyRange)
        ensures
            r.left@ == self.left@,
            r.right@ == self.right@,
    {
        let left = self.left.clone();
        let right = self.right.clone();
        proof {
            assert(left@ =~= self.left@);
            assert(right@ =~= self.right@);
        }
        KeyRange { left, right }
    }
}

impl KeyRange {
    /// A range is well formed when its bounds are ordered.
    pub open spec fn wf(self) -> bool {
        lex_le(self.left@, self.right@)
    }

    pub fn new(left: Vec<u8>, right: Vec<u8>) -> (r: KeyRange)
        requires
            lex_le(left@, right@),
        ensures
            r.wf(),
            r.left@ == left@,
            r.right@ == right@,
    {
        KeyRange { left, right }
    }
}

/// Two inclusive ranges share at least one key exactly when each one
/// starts at or before the other ends.
pub open spec fn ranges_overlap(a: KeyRange, b: KeyRange) -> bool {
    lex_le(a.left@, b.right@) && lex_le(b.left@, a.right@)
}

/// Decides whether two key ranges overlap.
pub fn key_ranges_overlap(a: &KeyRange, b: &KeyRange) -> (r: bool)
    ensures
        r == ranges_overlap(*a, *b),
{
    bytes_le(&a.left, &b.right) && bytes_le(&b.left, &a.right)
}

} // verus!
