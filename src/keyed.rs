use vstd::prelude::*;

verus! {

/// A record identified by a string key.
pub trait Keyed {
    spec fn spec_key(&self) -> Seq<char>;

    fn key(&self) -> (r: &String)
        ensures
            r@ == self.spec_key(),
    ;
}

/// No two entries share a key.
pub open spec fn unique_keys<T: Keyed>(s: Seq<T>) -> bool {
    forall|i: int, j: int|
        0 <= i < s.len() && 0 <= j < s.len() && i != j ==> #[trigger] s[i].spec_key()
            != #[trigger] s[j].spec_key()
}

pub open spec fn has_key<T: Keyed>(s: Seq<T>, k: Seq<char>) -> bool {
    exists|i: int| 0 <= i < s.len() && #[trigger] s[i].spec_key() == k
}

/// The entries as a map from key to entry.
pub open spec fn key_map<T: Keyed>(s: Seq<T>) -> Map<Seq<char>, T> {
    Map::new(
        |k: Seq<char>| has_key(s, k),
        |k: Seq<char>| s[choose|i: int| 0 <= i < s.len() && #[trigger] s[i].spec_key() == k],
    )
}

/// Position of the entry with key `k`, if any.
pub fn find_key<T: Keyed>(v: &Vec<T>, k: &String) -> (r: Option<usize>)
    ensures
        match r {
            Some(i) => i < v.len() && v@[i as int].spec_key() == k@,
            None => !has_key(v@, k@),
        },
{
    let mut i: usize = 0;
    while i < v.len()
        invariant
            0 <= i <= v.len(),
            forall|j: int| 0 <= j < i ==> #[trigger] v@[j].spec_key() != k@,
        decreases v.len() - i,
    {
        if v[i].key().eq(k) {
            return Some(i);
        }
        i += 1;
    }
    None
}

/// Puts `x` in place of the entry with its key, or appends it.
pub fn upsert<T: Keyed>(v: &mut Vec<T>, x: T)
    requires
        unique_keys(old(v)@),
    ensures
        unique_keys(final(v)@),
        key_map(final(v)@) == key_map(old(v)@).insert(x.spec_key(), x),
        forall|i: int|
            0 <= i < final(v)@.len() ==> #[trigger] final(v)@[i] == x || old(v)@.contains(
                final(v)@[i],
            ),
{
    let k = x.key().clone();
    match find_key(v, &k) {
        Some(i) => {
            proof {
                lemma_key_map_update(v@, i as int, x);
            }
            let ghost before = v@;
            v.set(i, x);
            assert forall|j: int| 0 <= j < v@.len() implies #[trigger] v@[j] == x || before.contains(v@[j]) by {
                if j != i {
                    assert(v@[j] == before[j]);
                }
            }
        },
        None => {
            proof {
                lemma_key_map_push(v@, x);
            }
            let ghost before = v@;
            v.push(x);
            assert forall|j: int| 0 <= j < v@.len() implies #[trigger] v@[j] == x || before.contains(v@[j]) by {
                if j < before.len() {
                    assert(v@[j] == before[j]);
                }
            }
        },
    }
}

/// Takes out the entry with key `k`, if any.
pub fn remove_key<T: Keyed>(v: &mut Vec<T>, k: &String) -> (r: Option<T>)
    requires
        unique_keys(old(v)@),
    ensures
        unique_keys(final(v)@),
        key_map(final(v)@) == key_map(old(v)@).remove(k@),
        match r {
            Some(x) => key_map(old(v)@).contains_key(k@) && x == key_map(old(v)@)[k@],
            None => !key_map(old(v)@).contains_key(k@),
        },
        forall|i: int| 0 <= i < final(v)@.len() ==> old(v)@.contains(#[trigger] final(v)@[i]),
        r is None ==> final(v)@ == old(v)@,
{
    match find_key(v, k) {
        Some(i) => {
            proof {
                lemma_key_map_remove(v@, i as int);
                lemma_key_map_at(v@, i as int);
            }
            let ghost before = v@;
            let x = v.remove(i);
            assert forall|j: int| 0 <= j < v@.len() implies before.contains(#[trigger] v@[j]) by {
                if j < i {
                    assert(v@[j] == before[j]);
                } else {
                    assert(v@[j] == before[j + 1]);
                }
            }
            Some(x)
        },
        None => {
            assert(key_map(v@).remove(k@) =~= key_map(v@));
            assert forall|j: int| 0 <= j < v@.len() implies v@.contains(#[trigger] v@[j]) by {}
            None
        },
    }
}

/// Rewriting each entry by a key-preserving `f` rewrites the map the same way.
pub proof fn lemma_key_map_pointwise<T: Keyed>(s: Seq<T>, t: Seq<T>, f: spec_fn(T) -> T)
    requires
        unique_keys(s),
        s.len() == t.len(),
        forall|i: int| 0 <= i < s.len() ==> #[trigger] t[i] == f(s[i]),
        forall|x: T| #[trigger] f(x).spec_key() == x.spec_key(),
    ensures
        unique_keys(t),
        key_map(t) == key_map(s).map_values(f),
{
    assert forall|a: int, b: int|
        0 <= a < t.len() && 0 <= b < t.len() && a != b implies #[trigger] t[a].spec_key()
        != #[trigger] t[b].spec_key() by {
        assert(f(s[a]).spec_key() == s[a].spec_key());
        assert(f(s[b]).spec_key() == s[b].spec_key());
    }
    let m = key_map(s).map_values(f);
    assert forall|k: Seq<char>| #[trigger] key_map(t).contains_key(k) <==> m.contains_key(k) by {
        if has_key(t, k) {
            let j = choose|j: int| 0 <= j < t.len() && #[trigger] t[j].spec_key() == k;
            assert(f(s[j]).spec_key() == s[j].spec_key());
        }
        if has_key(s, k) {
            let j = choose|j: int| 0 <= j < s.len() && #[trigger] s[j].spec_key() == k;
            assert(f(s[j]).spec_key() == s[j].spec_key());
            assert(t[j] == f(s[j]));
        }
    }
    assert forall|k: Seq<char>| key_map(t).contains_key(k) implies #[trigger] key_map(t)[k]
        == m[k] by {
        let j = choose|j: int| 0 <= j < t.len() && #[trigger] t[j].spec_key() == k;
        lemma_key_map_at(t, j);
        assert(f(s[j]).spec_key() == s[j].spec_key());
        lemma_key_map_at(s, j);
    }
    assert(key_map(t) =~= m);
}

pub proof fn lemma_key_map_at<T: Keyed>(s: Seq<T>, i: int)
    requires
        unique_keys(s),
        0 <= i < s.len(),
    ensures
        key_map(s).contains_key(s[i].spec_key()),
        key_map(s)[s[i].spec_key()] == s[i],
{
    let k = s[i].spec_key();
    assert(has_key(s, k));
    let j = choose|j: int| 0 <= j < s.len() && #[trigger] s[j].spec_key() == k;
    assert(j == i);
}

pub proof fn lemma_key_map_push<T: Keyed>(s: Seq<T>, x: T)
    requires
        unique_keys(s),
        !has_key(s, x.spec_key()),
    ensures
        unique_keys(s.push(x)),
        key_map(s.push(x)) == key_map(s).insert(x.spec_key(), x),
{
    let t = s.push(x);
    assert forall|i: int, j: int|
        0 <= i < t.len() && 0 <= j < t.len() && i != j implies #[trigger] t[i].spec_key()
        != #[trigger] t[j].spec_key() by {
        if i < s.len() && j < s.len() {
            assert(t[i] == s[i] && t[j] == s[j]);
        } else if i < s.len() {
            assert(t[i] == s[i]);
        } else {
            assert(t[j] == s[j]);
        }
    }
    let m = key_map(s).insert(x.spec_key(), x);
    assert forall|k: Seq<char>| #[trigger] key_map(t).contains_key(k) <==> m.contains_key(k) by {
        if has_key(t, k) {
            let j = choose|j: int| 0 <= j < t.len() && #[trigger] t[j].spec_key() == k;
            if j < s.len() {
                assert(s[j] == t[j]);
            }
        }
        if has_key(s, k) {
            let j = choose|j: int| 0 <= j < s.len() && #[trigger] s[j].spec_key() == k;
            assert(s[j] == t[j]);
        }
        if k == x.spec_key() {
            assert(t[s.len() as int] == x);
        }
    }
    assert forall|k: Seq<char>| key_map(t).contains_key(k) implies #[trigger] key_map(t)[k]
        == m[k] by {
        let j = choose|j: int| 0 <= j < t.len() && #[trigger] t[j].spec_key() == k;
        lemma_key_map_at(t, j);
        if j < s.len() {
            assert(s[j] == t[j]);
            lemma_key_map_at(s, j);
        }
    }
    assert(key_map(t) =~= m);
}

pub proof fn lemma_key_map_update<T: Keyed>(s: Seq<T>, i: int, x: T)
    requires
        unique_keys(s),
        0 <= i < s.len(),
        x.spec_key() == s[i].spec_key(),
    ensures
        unique_keys(s.update(i, x)),
        key_map(s.update(i, x)) == key_map(s).insert(x.spec_key(), x),
{
    let t = s.update(i, x);
    assert forall|a: int, b: int|
        0 <= a < t.len() && 0 <= b < t.len() && a != b implies #[trigger] t[a].spec_key()
        != #[trigger] t[b].spec_key() by {
        assert(s[a].spec_key() == t[a].spec_key());
        assert(s[b].spec_key() == t[b].spec_key());
    }
    let m = key_map(s).insert(x.spec_key(), x);
    assert forall|k: Seq<char>| #[trigger] key_map(t).contains_key(k) <==> m.contains_key(k) by {
        if has_key(t, k) {
            let j = choose|j: int| 0 <= j < t.len() && #[trigger] t[j].spec_key() == k;
            assert(s[j].spec_key() == t[j].spec_key());
        }
        if has_key(s, k) {
            let j = choose|j: int| 0 <= j < s.len() && #[trigger] s[j].spec_key() == k;
            assert(s[j].spec_key() == t[j].spec_key());
        }
        if k == x.spec_key() {
            assert(t[i] == x);
        }
    }
    assert forall|k: Seq<char>| key_map(t).contains_key(k) implies #[trigger] key_map(t)[k]
        == m[k] by {
        let j = choose|j: int| 0 <= j < t.len() && #[trigger] t[j].spec_key() == k;
        lemma_key_map_at(t, j);
        if j != i {
            assert(s[j] == t[j]);
            lemma_key_map_at(s, j);
        }
    }
    assert(key_map(t) =~= m);
}

pub proof fn lemma_key_map_remove<T: Keyed>(s: Seq<T>, i: int)
    requires
        unique_keys(s),
        0 <= i < s.len(),
    ensures
        unique_keys(s.remove(i)),
        key_map(s.remove(i)) == key_map(s).remove(s[i].spec_key()),
{
    let t = s.remove(i);
    let gone = s[i].spec_key();
    assert forall|a: int, b: int|
        0 <= a < t.len() && 0 <= b < t.len() && a != b implies #[trigger] t[a].spec_key()
        != #[trigger] t[b].spec_key() by {
        let sa = if a < i { a } else { a + 1 };
        let sb = if b < i { b } else { b + 1 };
        assert(t[a] == s[sa] && t[b] == s[sb]);
    }
    let m = key_map(s).remove(gone);
    assert forall|k: Seq<char>| #[trigger] key_map(t).contains_key(k) <==> m.contains_key(k) by {
        if has_key(t, k) {
            let j = choose|j: int| 0 <= j < t.len() && #[trigger] t[j].spec_key() == k;
            let sj = if j < i { j } else { j + 1 };
            assert(t[j] == s[sj]);
        }
        if has_key(s, k) && k != gone {
            let j = choose|j: int| 0 <= j < s.len() && #[trigger] s[j].spec_key() == k;
            let tj = if j < i { j } else { j - 1 };
            assert(t[tj] == s[j]);
        }
    }
    assert forall|k: Seq<char>| key_map(t).contains_key(k) implies #[trigger] key_map(t)[k]
        == m[k] by {
        let j = choose|j: int| 0 <= j < t.len() && #[trigger] t[j].spec_key() == k;
        let sj = if j < i { j } else { j + 1 };
        assert(t[j] == s[sj]);
        lemma_key_map_at(t, j);
        lemma_key_map_at(s, sj);
    }
    assert(key_map(t) =~= m);
}

} // verus!
