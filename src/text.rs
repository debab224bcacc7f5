use vstd::prelude::*;
use vstd::string::*;

verus! {

/// `needle` occurs in `hay` starting at position `i`.
pub open spec fn occurs_at(hay: Seq<char>, needle: Seq<char>, i: int) -> bool {
    &&& 0 <= i
    &&& i + needle.len() <= hay.len()
    &&& hay.subrange(i, i + needle.len()) == needle
}

pub open spec fn contains_seq(hay: Seq<char>, needle: Seq<char>) -> bool {
    exists|i: int| occurs_at(hay, needle, i)
}

/// `t` is the part of `s` before the first `sep`, or all of `s` without one.
pub open spec fn is_leading_token(t: Seq<char>, s: Seq<char>, sep: char) -> bool {
    &&& t.len() <= s.len()
    &&& t == s.subrange(0, t.len() as int)
    &&& !t.contains(sep)
    &&& (t.len() == s.len() || s[t.len() as int] == sep)
}

/// The lowercase form of a string, as std's `str::to_lowercase` gives it.
pub uninterp spec fn lower_of(s: Seq<char>) -> Seq<char>;

/// Relies on std's `str::to_lowercase`: the result is a function of the
/// characters alone.
#[verifier::external_body]
pub(crate) fn lowercase(s: &str) -> (r: String)
    ensures
        r@ == lower_of(s@),
{
    s.to_lowercase()
}

/// `prefix`, `middle` and `suffix` joined.
pub fn joined(prefix: &str, middle: &str, suffix: &str) -> (r: String)
    ensures
        r@ == prefix@ + middle@ + suffix@,
{
    let mut r = prefix.to_owned();
    r.append(middle);
    r.append(suffix);
    r
}

/// Character-wise equality.
pub fn same_text(a: &str, b: &str) -> (r: bool)
    ensures
        r == (a@ == b@),
{
    let n = a.unicode_len();
    if n != b.unicode_len() {
        return false;
    }
    let mut i: usize = 0;
    while i < n
        invariant
            n == a@.len(),
            n == b@.len(),
            i <= n,
            forall|j: int| 0 <= j < i ==> a@[j] == b@[j],
        decreases n - i,
    {
        if a.get_char(i) != b.get_char(i) {
            return false;
        }
        i += 1;
    }
    assert(a@ =~= b@);
    true
}

/// Whether `needle` occurs in `hay`.
pub fn contains_text(hay: &str, needle: &str) -> (r: bool)
    ensures
        r == contains_seq(hay@, needle@),
{
    let h = hay.unicode_len();
    let n = needle.unicode_len();
    if n > h {
        assert forall|i: int| !occurs_at(hay@, needle@, i) by {}
        return false;
    }
    let mut start: usize = 0;
    while start <= h - n
        invariant
            h == hay@.len(),
            n == needle@.len(),
            n <= h,
            start <= h - n + 1,
            forall|i: int| 0 <= i < start ==> !occurs_at(hay@, needle@, i),
        decreases h - n + 1 - start,
    {
        let mut j: usize = 0;
        let mut matched = true;
        while j < n
            invariant
                h == hay@.len(),
                n == needle@.len(),
                start + n <= h,
                j <= n,
                matched ==> forall|k: int| 0 <= k < j ==> hay@[start + k] == needle@[k],
                !matched ==> !occurs_at(hay@, needle@, start as int),
            decreases n - j,
        {
            if matched && hay.get_char(start + j) != needle.get_char(j) {
                assert(hay@.subrange(start as int, start + n)[j as int] != needle@[j as int]);
                matched = false;
            }
            j += 1;
        }
        if matched {
            assert(hay@.subrange(start as int, start + n) =~= needle@);
            assert(occurs_at(hay@, needle@, start as int));
            return true;
        }
        if start == h - n {
            assert forall|i: int| !occurs_at(hay@, needle@, i) by {
                if 0 <= i && i + n <= h {
                    assert(i <= start);
                }
            }
            return false;
        }
        start += 1;
    }
    assert forall|i: int| !occurs_at(hay@, needle@, i) by {
        if 0 <= i && i + n <= h {
            assert(i < start);
        }
    }
    false
}

/// The part of `s` before the first `sep`.
pub fn leading_token(s: &str, sep: char) -> (r: String)
    ensures
        is_leading_token(r@, s@, sep),
{
    let n = s.unicode_len();
    let mut i: usize = 0;
    while i < n && s.get_char(i) != sep
        invariant
            n == s@.len(),
            i <= n,
            forall|j: int| 0 <= j < i ==> s@[j] != sep,
        decreases n - i,
    {
        i += 1;
    }
    let part = s.substring_char(0, i);
    let r = part.to_owned();
    assert(!r@.contains(sep)) by {
        assert forall|j: int| 0 <= j < r@.len() implies r@[j] != sep by {
            assert(r@[j] == s@[j]);
        }
    }
    r
}

} // verus!
