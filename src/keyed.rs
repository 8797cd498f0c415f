//! Sequences of records keyed by a unique identifier: lookup, insert-or-replace
//! and removal by identifier.

use vstd::prelude::*;
use crate::models::Keyed;

verus! {

/// Some element of `s` carries identifier `id`.
pub open spec fn has_key<T: Keyed>(s: Seq<T>, id: u128) -> bool {
    exists|i: int| 0 <= i < s.len() && (#[trigger] s[i]).key() == id
}

/// No two elements of `s` share an identifier.
pub open spec fn keys_unique<T: Keyed>(s: Seq<T>) -> bool {
    forall|i: int, j: int|
        0 <= i < s.len() && 0 <= j < s.len() && (#[trigger] s[i]).key() == (#[trigger] s[j]).key()
            ==> i == j
}

/// The position of the element with identifier `id` (meaningful when there is one).
pub open spec fn key_index<T: Keyed>(s: Seq<T>, id: u128) -> int {
    choose|i: int| 0 <= i < s.len() && (#[trigger] s[i]).key() == id
}

/// Insert-or-replace by identifier: an element with the same identifier is
/// overwritten in place; otherwise `x` is appended.
pub open spec fn upserted<T: Keyed>(s: Seq<T>, x: T) -> Seq<T> {
    if has_key(s, x.key()) {
        s.update(key_index(s, x.key()), x)
    } else {
        s.push(x)
    }
}

/// `s` without the element carrying identifier `id` (unchanged when there is none).
pub open spec fn without_key<T: Keyed>(s: Seq<T>, id: u128) -> Seq<T> {
    if has_key(s, id) {
        s.remove(key_index(s, id))
    } else {
        s
    }
}

/// With unique identifiers, the element found at `i` is the one `key_index` names.
pub proof fn lemma_key_index_unique<T: Keyed>(s: Seq<T>, i: int)
    requires
        keys_unique(s),
        0 <= i < s.len(),
    ensures
        has_key(s, s[i].key()),
        key_index(s, s[i].key()) == i,
{
    let id = s[i].key();
    assert(has_key(s, id));
    let j = key_index(s, id);
    assert(s[j].key() == id);
}

/// Insert-or-replace keeps identifiers unique and makes `x` present.
pub proof fn lemma_upserted_unique<T: Keyed>(s: Seq<T>, x: T)
    requires
        keys_unique(s),
    ensures
        keys_unique(upserted(s, x)),
        has_key(upserted(s, x), x.key()),
        upserted(s, x)[key_index(upserted(s, x), x.key())] == x,
{
    let r = upserted(s, x);
    if has_key(s, x.key()) {
        let k = key_index(s, x.key());
        assert(s[k].key() == x.key());
        assert(r[k] == x);
        assert(keys_unique(r)) by {
            assert forall|i: int, j: int|
                0 <= i < r.len() && 0 <= j < r.len() && (#[trigger] r[i]).key() == (#[trigger] r[j]).key()
                implies i == j by {
                if i != k && j != k {
                    assert(s[i] == r[i] && s[j] == r[j]);
                } else if i == k && j != k {
                    assert(s[j] == r[j]);
                    assert(s[k].key() == s[j].key());
                } else if j == k && i != k {
                    assert(s[i] == r[i]);
                    assert(s[k].key() == s[i].key());
                }
            }
        }
        lemma_key_index_unique(r, k);
    } else {
        let n = s.len() as int;
        assert(r[n] == x);
        assert(keys_unique(r)) by {
            assert forall|i: int, j: int|
                0 <= i < r.len() && 0 <= j < r.len() && (#[trigger] r[i]).key() == (#[trigger] r[j]).key()
                implies i == j by {
                if i < n && j < n {
                    assert(s[i] == r[i] && s[j] == r[j]);
                } else if i < n {
                    assert(s[i] == r[i]);
                    assert(s[i].key() == x.key());
                } else if j < n {
                    assert(s[j] == r[j]);
                    assert(s[j].key() == x.key());
                }
            }
        }
        lemma_key_index_unique(r, n);
    }
}

/// Removal by identifier keeps identifiers unique and leaves no element with that identifier.
pub proof fn lemma_without_key_unique<T: Keyed>(s: Seq<T>, id: u128)
    requires
        keys_unique(s),
    ensures
        keys_unique(without_key(s, id)),
        !has_key(without_key(s, id), id),
{
    let r = without_key(s, id);
    if has_key(s, id) {
        let k = key_index(s, id);
        assert(s[k].key() == id);
        assert forall|i: int| 0 <= i < r.len() implies #[trigger] r[i] == (if i < k { s[i] } else { s[i + 1] }) by {}
        assert(keys_unique(r)) by {
            assert forall|i: int, j: int|
                0 <= i < r.len() && 0 <= j < r.len() && (#[trigger] r[i]).key() == (#[trigger] r[j]).key()
                implies i == j by {
                let si = if i < k { i } else { i + 1 };
                let sj = if j < k { j } else { j + 1 };
                assert(r[i] == s[si] && r[j] == s[sj]);
            }
        }
        if has_key(r, id) {
            let j = choose|j: int| 0 <= j < r.len() && (#[trigger] r[j]).key() == id;
            let sj = if j < k { j } else { j + 1 };
            assert(r[j] == s[sj]);
        }
    }
}

/// The position of the element with identifier `id`, if any.
pub fn find_key<T: Keyed>(v: &Vec<T>, id: u128) -> (r: Option<usize>)
    ensures
        match r {
            Some(i) => i < v@.len() && v@[i as int].key() == id,
            None => !has_key(v@, id),
        },
{
    let mut i: usize = 0;
    while i < v.len()
        invariant
            i <= v@.len(),
            forall|j: int| 0 <= j < i ==> (#[trigger] v@[j]).key() != id,
        decreases v@.len() - i,
    {
        if v[i].id_of() == id {
            return Some(i);
        }
        i += 1;
    }
    None
}

/// Insert-or-replace `x` by identifier.
pub fn upsert_into<T: Keyed>(v: &mut Vec<T>, x: T)
    requires
        keys_unique(old(v)@),
    ensures
        final(v)@ == upserted(old(v)@, x),
        keys_unique(final(v)@),
{
    let id = x.id_of();
    proof {
        lemma_upserted_unique(v@, x);
    }
    match find_key(v, id) {
        Some(i) => {
            proof {
                lemma_key_index_unique(v@, i as int);
            }
            v.set(i, x);
        },
        None => {
            v.push(x);
        },
    }
}

/// Remove the element carrying identifier `id`, if any.
pub fn remove_key<T: Keyed>(v: &mut Vec<T>, id: u128)
    requires
        keys_unique(old(v)@),
    ensures
        final(v)@ == without_key(old(v)@, id),
        keys_unique(final(v)@),
{
    proof {
        lemma_without_key_unique(v@, id);
    }
    match find_key(v, id) {
        Some(i) => {
            proof {
                lemma_key_index_unique(v@, i as int);
            }
            v.remove(i);
        },
        None => {},
    }
}

} // verus!
