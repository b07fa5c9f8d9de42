//! Character-level helpers over strings: positions, digits and comparison.
use vstd::prelude::*;
use vstd::string::*;

verus! {

/// Position of the last `c` in `s`, or -1 when `s` holds none.
pub open spec fn last_pos(s: Seq<char>, c: char) -> int
    decreases s.len(),
{
    if s.len() == 0 {
        -1
    } else if s.last() == c {
        s.len() - 1
    } else {
        last_pos(s.drop_last(), c)
    }
}

/// A decimal digit.
pub open spec fn is_digit(c: char) -> bool {
    '0' <= c <= '9'
}

/// The value of a decimal digit.
pub open spec fn digit_value(c: char) -> int {
    (c as u32) - ('0' as u32)
}

/// `last_pos` is the position after which `c` no longer occurs.
pub proof fn lemma_last_pos(s: Seq<char>, c: char, k: int)
    requires
        k == -1 || (0 <= k < s.len() && s[k] == c),
        forall|j: int| k < j < s.len() ==> s[j] != c,
    ensures
        last_pos(s, c) == k,
    decreases s.len(),
{
    if s.len() > 0 && s.last() != c {
        assert(k < s.len() - 1);
        let t = s.drop_last();
        assert forall|j: int| k < j < t.len() implies t[j] != c by {
            assert(t[j] == s[j]);
        }
        lemma_last_pos(t, c, k);
    }
}

/// What `last_pos` returns: a position holding `c` (or -1), with no `c` after it.
pub proof fn lemma_last_pos_facts(s: Seq<char>, c: char)
    ensures
        -1 <= last_pos(s, c) < s.len(),
        last_pos(s, c) >= 0 ==> s[last_pos(s, c)] == c,
        forall|j: int| last_pos(s, c) < j < s.len() ==> s[j] != c,
    decreases s.len(),
{
    if s.len() > 0 && s.last() != c {
        let t = s.drop_last();
        lemma_last_pos_facts(t, c);
        assert forall|j: int| last_pos(s, c) < j < s.len() implies s[j] != c by {
            if j < t.len() {
                assert(s[j] == t[j]);
            }
        }
    }
}

/// The characters of `s`, one per element.
pub fn chars_of(s: &str) -> (r: Vec<char>)
    ensures
        r@ == s@,
{
    let n = s.unicode_len();
    let mut r: Vec<char> = Vec::new();
    let mut i: usize = 0;
    while i < n
        invariant
            n == s@.len(),
            i <= n,
            r@ == s@.subrange(0, i as int),
        decreases n - i,
    {
        r.push(s.get_char(i));
        i = i + 1;
    }
    assert(r@ =~= s@);
    r
}

/// Position of the last `c` among `v[lo..hi]`, counted from `lo`.
pub fn last_index(v: &Vec<char>, lo: usize, hi: usize, c: char) -> (r: Option<usize>)
    requires
        lo <= hi <= v@.len(),
    ensures
        match r {
            Some(k) => lo <= k < hi && last_pos(v@.subrange(lo as int, hi as int), c) == k - lo,
            None => last_pos(v@.subrange(lo as int, hi as int), c) == -1,
        },
{
    let ghost sub = v@.subrange(lo as int, hi as int);
    let mut i: usize = hi;
    while i > lo
        invariant
            lo <= i <= hi <= v@.len(),
            sub == v@.subrange(lo as int, hi as int),
            forall|j: int| i <= j < hi ==> v@[j] != c,
        decreases i - lo,
    {
        if v[i - 1] == c {
            proof {
                assert forall|j: int| (i - 1 - lo) < j < sub.len() implies sub[j] != c by {
                    assert(sub[j] == v@[j + lo]);
                }
                lemma_last_pos(sub, c, i - 1 - lo);
            }
            return Some(i - 1);
        }
        i = i - 1;
    }
    proof {
        assert forall|j: int| -1 < j < sub.len() implies sub[j] != c by {
            assert(sub[j] == v@[j + lo]);
        }
        lemma_last_pos(sub, c, -1);
    }
    None
}

/// Whether two strings hold the same characters.
pub fn same_text(a: &str, b: &str) -> (r: bool)
    ensures
        r == (a@ == b@),
{
    let n = a.unicode_len();
    if n != b.unicode_len() {
        return false;
    }
    let mut i: usize = 0;
    while i < n
        invariant
            n == a@.len(),
            n == b@.len(),
            i <= n,
            forall|j: int| 0 <= j < i ==> a@[j] == b@[j],
        decreases n - i,
    {
        if a.get_char(i) != b.get_char(i) {
            return false;
        }
        i = i + 1;
    }
    assert(a@ =~= b@);
    true
}

} // verus!
