//! Chain-agnostic 32-byte identities and membership in identity lists.
//!
//! Identities name traders, receivers, authorities, orchestrators and
//! tokens.  Contracts compare them through their byte views.

use vstd::prelude::*;

verus! {

broadcast use vstd::array::group_array_axioms;

/// A 32-byte chain-agnostic identity (an account, authority or token).
pub type AccountId = [u8; 32];

/// Whether the identity list `s` holds the identity with byte view `x`.
pub open spec fn id_in(s: Seq<AccountId>, x: Seq<u8>) -> bool {
    exists|i: int| 0 <= i < s.len() && s[i]@ == x
}

/// An identity list without duplicates.
pub open spec fn ids_unique(s: Seq<AccountId>) -> bool {
    forall|i: int, j: int| 0 <= i < j < s.len() ==> s[i]@ != s[j]@
}

/// Appending a fresh identity keeps the list duplicate-free and adds
/// exactly that identity to the membership.
pub proof fn lemma_push_id(s: Seq<AccountId>, e: AccountId)
    requires
        ids_unique(s),
        !id_in(s, e@),
    ensures
        ids_unique(s.push(e)),
        id_in(s.push(e), e@),
        forall|x: Seq<u8>| x != e@ ==> id_in(s.push(e), x) == id_in(s, x),
{
    let s2 = s.push(e);
    assert(s2[s.len() as int]@ == e@);
    assert forall|i: int, j: int| 0 <= i < j < s2.len() implies s2[i]@ != s2[j]@ by {
        if j < s.len() {
            assert(s[i]@ != s[j]@);
        } else {
            if s2[i]@ == e@ {
                assert(id_in(s, e@));
            }
        }
    }
    assert forall|x: Seq<u8>| x != e@ implies id_in(s2, x) == id_in(s, x) by {
        if id_in(s, x) {
            let i = choose|i: int| 0 <= i < s.len() && s[i]@ == x;
            assert(s2[i]@ == x);
        }
        if id_in(s2, x) {
            let i = choose|i: int| 0 <= i < s2.len() && s2[i]@ == x;
            assert(i < s.len());
            assert(id_in(s, x));
        }
    }
}

/// Removing the only occurrence of an identity removes exactly it from the
/// membership.
pub proof fn lemma_remove_id(s: Seq<AccountId>, i: int)
    requires
        ids_unique(s),
        0 <= i < s.len(),
    ensures
        ids_unique(s.remove(i)),
        !id_in(s.remove(i), s[i]@),
        forall|x: Seq<u8>| x != s[i]@ ==> id_in(s.remove(i), x) == id_in(s, x),
{
    let s2 = s.remove(i);
    assert forall|a: int, b: int| 0 <= a < b < s2.len() implies s2[a]@ != s2[b]@ by {
        let a0 = if a < i { a } else { a + 1 };
        let b0 = if b < i { b } else { b + 1 };
        assert(s2[a] == s[a0] && s2[b] == s[b0]);
        assert(s[a0]@ != s[b0]@);
    }
    assert forall|k: int| 0 <= k < s2.len() implies s2[k]@ != s[i]@ by {
        let k0 = if k < i { k } else { k + 1 };
        assert(s2[k] == s[k0]);
        if k0 < i {
            assert(s[k0]@ != s[i]@);
        } else {
            assert(s[i]@ != s[k0]@);
        }
    }
    assert forall|x: Seq<u8>| x != s[i]@ implies id_in(s2, x) == id_in(s, x) by {
        if id_in(s, x) {
            let k = choose|k: int| 0 <= k < s.len() && s[k]@ == x;
            if k < i {
                assert(s2[k]@ == x);
            } else {
                assert(k > i);
                assert(s2[k - 1]@ == x);
            }
        }
        if id_in(s2, x) {
            let k = choose|k: int| 0 <= k < s2.len() && s2[k]@ == x;
            let k0 = if k < i { k } else { k + 1 };
            assert(s[k0]@ == x);
        }
    }
}

/// Byte-wise equality of two identities.
pub fn id_eq(a: &AccountId, b: &AccountId) -> (r: bool)
    ensures
        r == (a@ == b@),
{
    let mut i: usize = 0;
    while i < 32
        invariant
            0 <= i <= 32,
            forall|j: int| 0 <= j < i ==> a@[j] == b@[j],
        decreases 32 - i,
    {
        if a[i] != b[i] {
            assert(a@[i as int] != b@[i as int]);
            return false;
        }
        i += 1;
    }
    proof {
        assert(a@ =~= b@);
    }
    true
}

/// Whether the identity `x` occurs in the list `s`.
pub fn contains_id(s: &Vec<AccountId>, x: &AccountId) -> (r: bool)
    ensures
        r == id_in(s@, x@),
{
    let mut i: usize = 0;
    while i < s.len()
        invariant
            0 <= i <= s@.len(),
            forall|j: int| 0 <= j < i ==> s@[j]@ != x@,
        decreases s@.len() - i,
    {
        if id_eq(&s[i], x) {
            assert(id_in(s@, x@));
            return true;
        }
        i += 1;
    }
    false
}

/// The index of the identity `x` in the list `s`, if it occurs.
pub fn find_id(s: &Vec<AccountId>, x: &AccountId) -> (r: Option<usize>)
    ensures
        match r {
            Some(i) => i < s@.len() && s@[i as int]@ == x@ && (forall|j: int|
                0 <= j < i ==> s@[j]@ != x@),
            None => !id_in(s@, x@),
        },
{
    let mut i: usize = 0;
    while i < s.len()
        invariant
            0 <= i <= s@.len(),
            forall|j: int| 0 <= j < i ==> s@[j]@ != x@,
        decreases s@.len() - i,
    {
        if id_eq(&s[i], x) {
            return Some(i);
        }
        i += 1;
    }
    None
}

} // verus!
