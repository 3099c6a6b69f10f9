use vstd::prelude::*;

verus! {

/// `p` occurs in `s` starting at position `at`.
pub open spec fn occurs_at(s: Seq<char>, at: int, p: Seq<char>) -> bool {
    0 <= at && at + p.len() <= s.len() && s.subrange(at, at + p.len()) == p
}

/// `p` occurs somewhere in `s`.
pub open spec fn occurs_in(s: Seq<char>, p: Seq<char>) -> bool {
    exists|at: int| occurs_at(s, at, p)
}

/// Whether `p` occurs in `s` starting at character position `at`.
pub fn has_prefix_at(s: &str, at: usize, p: &str) -> (r: bool)
    ensures
        r == occurs_at(s@, at as int, p@),
{
    let n = s.unicode_len();
    let m = p.unicode_len();
    if at > n || m > n - at {
        return false;
    }
    let mut i: usize = 0;
    while i < m
        invariant
            i <= m,
            at + m <= n,
            n == s@.len(),
            m == p@.len(),
            forall|j: int| 0 <= j < i ==> s@[at + j] == p@[j],
        decreases m - i,
    {
        if s.get_char(at + i) != p.get_char(i) {
            assert(s@.subrange(at as int, at + m)[i as int] != p@[i as int]);
            return false;
        }
        i += 1;
    }
    assert(s@.subrange(at as int, at + m) =~= p@);
    true
}

/// Whether `p` occurs anywhere in `s`.
pub fn contains_str(s: &str, p: &str) -> (r: bool)
    ensures
        r == occurs_in(s@, p@),
{
    let n = s.unicode_len();
    let m = p.unicode_len();
    if m > n {
        return false;
    }
    let mut at: usize = 0;
    while at < n - m
        invariant
            m <= n,
            at <= n - m,
            n == s@.len(),
            m == p@.len(),
            forall|k: int| 0 <= k < at ==> !occurs_at(s@, k, p@),
        decreases n - m - at,
    {
        if has_prefix_at(s, at, p) {
            return true;
        }
        at += 1;
    }
    if has_prefix_at(s, at, p) {
        return true;
    }
    assert forall|k: int| !occurs_at(s@, k, p@) by {
        if 0 <= k && k + m <= n {
            if k != at {
                assert(k < at);
            }
        }
    }
    false
}

/// The first position at or after `from` that holds the ASCII character `c`.
pub fn find_ascii(s: &str, from: usize, c: char) -> (r: Option<usize>)
    requires
        s.is_ascii(),
        c <= '\u{7f}',
    ensures
        match r {
            Some(k) => from <= k < s@.len() && s@[k as int] == c && forall|j: int|
                from <= j < k ==> s@[j] != c,
            None => forall|j: int| from <= j < s@.len() ==> s@[j] != c,
        },
{
    let n = s.unicode_len();
    let b = c as u8;
    let mut i: usize = from;
    while i < n
        invariant
            s.is_ascii(),
            n == s@.len(),
            c <= '\u{7f}',
            b == c as u8,
            from <= i,
            forall|j: int| from <= j < i ==> s@[j] != c,
        decreases n - i,
    {
        let x = s.get_ascii(i);
        assert(s@[i as int] <= '\u{7f}');
        if x == b {
            assert(s@[i as int] as u32 == c as u32);
            return Some(i);
        }
        i += 1;
    }
    None
}

} // verus!
