use vstd::prelude::*;

verus! {

/// The first index at or after `i` whose element satisfies `p`.
pub open spec fn first_from<T>(s: Seq<T>, p: spec_fn(T) -> bool, i: int) -> Option<int>
    decreases s.len() - i,
{
    if i < 0 || i >= s.len() {
        None
    } else if p(s[i]) {
        Some(i)
    } else {
        first_from(s, p, i + 1)
    }
}

/// What `first_from` finds satisfies the predicate, and nothing before it
/// does; when it finds nothing, nothing from `i` on satisfies it.
pub proof fn lemma_first_from<T>(s: Seq<T>, p: spec_fn(T) -> bool, i: int)
    requires
        0 <= i,
    ensures
        match first_from(s, p, i) {
            Some(k) => i <= k < s.len() && p(s[k]) && forall|j: int| i <= j < k ==> !p(#[trigger] s[j]),
            None => forall|j: int| i <= j < s.len() ==> !p(#[trigger] s[j]),
        },
    decreases s.len() - i,
{
    if i < s.len() && !p(s[i]) {
        lemma_first_from(s, p, i + 1);
    }
}

/// Whether two strings hold the same characters.
pub fn str_eq(a: &str, b: &str) -> (r: bool)
    ensures
        r == (a@ == b@),
{
    let n = a.unicode_len();
    let m = b.unicode_len();
    if n != m {
        return false;
    }
    let mut i: usize = 0;
    while i < n
        invariant
            n == a@.len(),
            m == b@.len(),
            n == m,
            i <= n,
            forall|j: int| 0 <= j < i ==> a@[j] == b@[j],
        decreases n - i,
    {
        if a.get_char(i) != b.get_char(i) {
            return false;
        }
        i = i + 1;
    }
    assert(a@ =~= b@);
    true
}

} // verus!
