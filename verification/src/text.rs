//! Character-sequence helpers shared by the whole crate: searching,
//! comparing, and joining the `/`-separated path strings that the remote
//! tree listing and the local install layout are made of.

use vstd::prelude::*;

verus! {

/// Index of the first occurrence of `c` in `s` at or after `from`.
pub open spec fn find_from_spec(s: Seq<char>, from: int, c: char) -> Option<int>
    decreases s.len() - from,
{
    if from < 0 || from >= s.len() {
        None
    } else if s[from] == c {
        Some(from)
    } else {
        find_from_spec(s, from + 1, c)
    }
}

pub proof fn lemma_find_from_spec(s: Seq<char>, from: int, c: char)
    requires
        0 <= from <= s.len(),
    ensures
        match find_from_spec(s, from, c) {
            Some(i) => from <= i < s.len() && s[i] == c && (forall|j: int|
                from <= j < i ==> s[j] != c),
            None => forall|j: int| from <= j < s.len() ==> s[j] != c,
        },
    decreases s.len() - from,
{
    if from < s.len() && s[from] != c {
        lemma_find_from_spec(s, from + 1, c);
    }
}

/// Index of the last occurrence of `c` in `s`.
pub open spec fn find_last_spec(s: Seq<char>, c: char) -> Option<int>
    decreases s.len(),
{
    if s.len() == 0 {
        None
    } else if s.last() == c {
        Some(s.len() - 1)
    } else {
        find_last_spec(s.drop_last(), c)
    }
}

pub proof fn lemma_find_last_spec(s: Seq<char>, c: char)
    ensures
        match find_last_spec(s, c) {
            Some(i) => 0 <= i < s.len() && s[i] == c && (forall|j: int|
                i < j < s.len() ==> s[j] != c),
            None => forall|j: int| 0 <= j < s.len() ==> s[j] != c,
        },
    decreases s.len(),
{
    if s.len() > 0 && s.last() != c {
        lemma_find_last_spec(s.drop_last(), c);
        assert forall|j: int| 0 <= j < s.len() - 1 implies s.drop_last()[j] == s[j] by {}
    }
}

/// `n` stands at the start of `h`.
pub open spec fn is_prefix(h: Seq<char>, n: Seq<char>) -> bool {
    n.len() <= h.len() && h.subrange(0, n.len() as int) == n
}

/// `n` stands in `h` at position `i`.
pub open spec fn contains_at(h: Seq<char>, n: Seq<char>, i: int) -> bool {
    0 <= i && i + n.len() <= h.len() && h.subrange(i, i + n.len()) == n
}

/// `n` occurs somewhere in `h`.
pub open spec fn contains_seq(h: Seq<char>, n: Seq<char>) -> bool {
    exists|i: int| contains_at(h, n, i)
}

/// `a`, a separator `/`, then `b`: how a child path is built from its
/// parent directory and a relative path.
pub open spec fn join_slash_view(a: Seq<char>, b: Seq<char>) -> Seq<char> {
    a + seq!['/'] + b
}

pub fn find_from(s: &str, from: usize, c: char) -> (r: Option<usize>)
    requires
        from <= s@.len(),
    ensures
        match r {
            Some(i) => find_from_spec(s@, from as int, c) == Some(i as int),
            None => find_from_spec(s@, from as int, c) is None,
        },
{
    let len: usize = s.unicode_len();
    let mut i: usize = from;
    while i < len
        invariant
            from <= i <= s@.len(),
            len == s@.len(),
            find_from_spec(s@, from as int, c) == find_from_spec(s@, i as int, c),
        decreases s@.len() - i,
    {
        if s.get_char(i) == c {
            return Some(i);
        }
        i = i + 1;
    }
    None
}

pub fn find_last(s: &str, c: char) -> (r: Option<usize>)
    ensures
        match r {
            Some(i) => find_last_spec(s@, c) == Some(i as int),
            None => find_last_spec(s@, c) is None,
        },
{
    let len: usize = s.unicode_len();
    let mut i: usize = 0;
    let mut found: Option<usize> = None;
    proof {
        assert(s@.take(0) =~= Seq::<char>::empty());
    }
    while i < len
        invariant
            0 <= i <= len,
            len == s@.len(),
            match found {
                Some(k) => find_last_spec(s@.take(i as int), c) == Some(k as int),
                None => find_last_spec(s@.take(i as int), c) is None,
            },
        decreases len - i,
    {
        proof {
            assert(s@.take(i + 1).drop_last() =~= s@.take(i as int));
            assert(s@.take(i + 1).last() == s@[i as int]);
        }
        if s.get_char(i) == c {
            found = Some(i);
        }
        i = i + 1;
    }
    proof {
        assert(s@.take(len as int) =~= s@);
    }
    found
}

pub fn str_eq(a: &str, b: &str) -> (r: bool)
    ensures
        r == (a@ == b@),
{
    let alen: usize = a.unicode_len();
    let blen: usize = b.unicode_len();
    if alen != blen {
        return false;
    }
    let mut i: usize = 0;
    while i < alen
        invariant
            0 <= i <= alen,
            alen == a@.len(),
            alen == b@.len(),
            forall|j: int| 0 <= j < i ==> a@[j] == b@[j],
        decreases alen - i,
    {
        if a.get_char(i) != b.get_char(i) {
            return false;
        }
        i = i + 1;
    }
    proof {
        assert(a@ =~= b@);
    }
    true
}

pub fn str_starts_with(h: &str, n: &str) -> (r: bool)
    ensures
        r == is_prefix(h@, n@),
{
    let hlen: usize = h.unicode_len();
    let nlen: usize = n.unicode_len();
    if nlen > hlen {
        return false;
    }
    let mut i: usize = 0;
    while i < nlen
        invariant
            0 <= i <= nlen,
            hlen == h@.len(),
            nlen == n@.len(),
            nlen <= hlen,
            forall|j: int| 0 <= j < i ==> h@[j] == n@[j],
        decreases nlen - i,
    {
        if h.get_char(i) != n.get_char(i) {
            proof {
                if is_prefix(h@, n@) {
                    assert(h@.subrange(0, n@.len() as int)[i as int] == h@[i as int]);
                }
            }
            return false;
        }
        i = i + 1;
    }
    proof {
        assert(h@.subrange(0, n@.len() as int) =~= n@);
    }
    true
}

pub fn str_contains(h: &str, n: &str) -> (r: bool)
    ensures
        r == contains_seq(h@, n@),
{
    let hlen: usize = h.unicode_len();
    let nlen: usize = n.unicode_len();
    if nlen > hlen {
        proof {
            assert forall|i: int| !contains_at(h@, n@, i) by {}
        }
        return false;
    }
    if nlen == 0 {
        proof {
            assert(h@.subrange(0, 0) =~= n@);
            assert(contains_at(h@, n@, 0));
        }
        return true;
    }
    let last_start: usize = hlen - nlen;
    let mut i: usize = 0;
    loop
        invariant
            0 <= i <= last_start + 1,
            hlen == h@.len(),
            nlen == n@.len(),
            1 <= nlen <= hlen,
            last_start == hlen - nlen,
            forall|ii: int| 0 <= ii < i ==> !contains_at(h@, n@, ii),
        decreases last_start + 1 - i,
    {
        if i > last_start {
            proof {
                assert forall|ii: int| !contains_at(h@, n@, ii) by {
                    if ii >= i {
                        assert(ii + n@.len() > h@.len());
                    }
                }
            }
            return false;
        }
        let mut j: usize = 0;
        let mut matched: bool = true;
        while j < nlen
            invariant
                0 <= j <= nlen,
                i <= last_start,
                hlen == h@.len(),
                nlen == n@.len(),
                last_start == hlen - nlen,
                matched ==> forall|jj: int| 0 <= jj < j ==> h@[i + jj] == n@[jj],
                !matched ==> !contains_at(h@, n@, i as int),
            decreases nlen - j,
        {
            if matched && h.get_char(i + j) != n.get_char(j) {
                proof {
                    if contains_at(h@, n@, i as int) {
                        assert(h@.subrange(i as int, i + n@.len())[j as int] == h@[i + j]);
                    }
                }
                matched = false;
            }
            j = j + 1;
        }
        if matched {
            proof {
                assert(h@.subrange(i as int, i + n@.len()) =~= n@);
                assert(contains_at(h@, n@, i as int));
            }
            return true;
        }
        i = i + 1;
    }
}

/// Relies on `String::push`: appends one character at the end of the string.
#[verifier::external_body]
pub fn push_char(s: &mut String, c: char)
    ensures
        final(s)@ == old(s)@.push(c),
{
    s.push(c);
}

pub fn join_slash(a: &str, b: &str) -> (r: String)
    ensures
        r@ == join_slash_view(a@, b@),
{
    let mut s = a.to_owned();
    push_char(&mut s, '/');
    s.append(b);
    proof {
        assert(s@ =~= join_slash_view(a@, b@));
    }
    s
}

} // verus!
