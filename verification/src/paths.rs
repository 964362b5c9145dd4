//! Character-level helpers on path strings: suffix tests and base names.

use vstd::prelude::*;
use vstd::string::StrSliceExecFns;

verus! {

/// `suffix` stands at the end of `s`.
pub open spec fn suffix_of(s: Seq<char>, suffix: Seq<char>) -> bool {
    suffix.len() <= s.len() && s.subrange(s.len() - suffix.len(), s.len() as int) == suffix
}

/// Case-sensitive suffix test, character by character.
pub fn str_ends_with(s: &str, suffix: &str) -> (r: bool)
    ensures
        r == suffix_of(s@, suffix@),
{
    let n = s.unicode_len();
    let m = suffix.unicode_len();
    if m > n {
        return false;
    }
    let mut i: usize = 0;
    while i < m
        invariant
            i <= m,
            m <= n,
            n == s@.len(),
            m == suffix@.len(),
            forall|j: int| 0 <= j < i ==> s@[n - m + j] == suffix@[j],
        decreases m - i,
    {
        if s.get_char(n - m + i) != suffix.get_char(i) {
            proof {
                if suffix_of(s@, suffix@) {
                    assert(s@.subrange(s@.len() - suffix@.len(), s@.len() as int)[i as int]
                        == suffix@[i as int]);
                }
            }
            return false;
        }
        i += 1;
    }
    proof {
        assert(s@.subrange(s@.len() - suffix@.len(), s@.len() as int) =~= suffix@);
    }
    true
}

/// What follows the last `/` of `s`; all of `s` when it has none, and
/// empty when `s` ends with a `/`.
pub open spec fn base_name_of(s: Seq<char>) -> Seq<char>
    decreases s.len(),
{
    if s.len() == 0 {
        s
    } else if s[s.len() - 1] == '/' {
        Seq::<char>::empty()
    } else {
        base_name_of(s.drop_last()).push(s[s.len() - 1])
    }
}

/// When every character from `i` on differs from `/`, and `i` is either the
/// start of `s` or just past a `/`, the base name is the tail of `s` from `i`.
proof fn lemma_base_name_tail(s: Seq<char>, i: int)
    requires
        0 <= i <= s.len(),
        forall|j: int| i <= j < s.len() ==> s[j] != '/',
        i == 0 || s[i - 1] == '/',
    ensures
        base_name_of(s) =~= s.subrange(i, s.len() as int),
    decreases s.len(),
{
    if i < s.len() {
        let s0 = s.drop_last();
        assert forall|j: int| i <= j < s0.len() implies s0[j] != '/' by {
            assert(s0[j] == s[j]);
        }
        lemma_base_name_tail(s0, i);
        assert(base_name_of(s) =~= s.subrange(i, s.len() as int));
    }
}

/// The base name of `path`: what follows its last `/`.
pub fn base_name(path: &str) -> (r: &str)
    ensures
        r@ == base_name_of(path@),
{
    let n = path.unicode_len();
    let mut i: usize = n;
    while i > 0 && path.get_char(i - 1) != '/'
        invariant
            i <= n,
            n == path@.len(),
            forall|j: int| i <= j < n ==> path@[j] != '/',
        decreases i,
    {
        i -= 1;
    }
    proof {
        lemma_base_name_tail(path@, i as int);
    }
    path.substring_char(i, n)
}

} // verus!
