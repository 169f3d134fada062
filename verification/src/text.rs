//! Small verified helpers over strings: equality, character search, and
//! dot-separated segment extraction as used for broker identities.

use vstd::prelude::*;
use vstd::string::StrSliceExecFns;

verus! {

/// Equality of two string slices, decided by content.
pub fn str_eq(a: &str, b: &str) -> (r: bool)
    ensures
        r == (a@ == b@),
{
    let sa: String = a.to_owned();
    let sb: String = b.to_owned();
    sa == sb
}

/// The first occurrence of `c` in `s` at or after position `from`.
pub fn find_char_from(s: &str, c: char, from: usize) -> (r: Option<usize>)
    requires
        from <= s@.len(),
    ensures
        match r {
            Some(i) => from <= i < s@.len() && s@[i as int] == c && (forall|j: int|
                from <= j < i ==> s@[j] != c),
            None => forall|j: int| from <= j < s@.len() ==> s@[j] != c,
        },
{
    let n: usize = s.unicode_len();
    let mut i: usize = from;
    while i < n
        invariant
            n == s@.len(),
            from <= i <= n,
            forall|j: int| from <= j < i ==> s@[j] != c,
        decreases n - i,
    {
        if s.get_char(i) == c {
            return Some(i);
        }
        i = i + 1;
    }
    None
}

/// Whether `s` holds a dot at all.
pub open spec fn has_dot(s: Seq<char>) -> bool {
    exists|i: int| 0 <= i < s.len() && s[i] == '.'
}

/// Everything after the first dot; empty when there is no dot.
pub open spec fn tail_after_dot(s: Seq<char>) -> Seq<char>
    decreases s.len(),
{
    if s.len() == 0 {
        Seq::empty()
    } else if s[0] == '.' {
        s.drop_first()
    } else {
        tail_after_dot(s.drop_first())
    }
}

/// Everything before the first dot (the whole of `s` when there is none).
pub open spec fn take_until_dot(s: Seq<char>) -> Seq<char>
    decreases s.len(),
{
    if s.len() == 0 {
        Seq::empty()
    } else if s[0] == '.' {
        Seq::empty()
    } else {
        seq![s[0]].add(take_until_dot(s.drop_first()))
    }
}

/// The second dot-separated segment: what stands between the first dot and
/// the next one (or the end).
pub open spec fn second_seg(s: Seq<char>) -> Seq<char> {
    take_until_dot(tail_after_dot(s))
}

/// With the first dot at `i`, the tail after the dot is the suffix from `i + 1`.
pub proof fn lemma_tail_after_dot_at(s: Seq<char>, i: int)
    requires
        0 <= i < s.len(),
        s[i] == '.',
        forall|k: int| 0 <= k < i ==> s[k] != '.',
    ensures
        tail_after_dot(s) == s.subrange(i + 1, s.len() as int),
    decreases i,
{
    if i == 0 {
        assert(s.drop_first() =~= s.subrange(1, s.len() as int));
    } else {
        lemma_tail_after_dot_at(s.drop_first(), i - 1);
        assert(s.drop_first().subrange(i, s.len() - 1) =~= s.subrange(i + 1, s.len() as int));
    }
}

/// Without any dot, the tail after the dot is empty.
pub proof fn lemma_tail_after_dot_none(s: Seq<char>)
    requires
        forall|k: int| 0 <= k < s.len() ==> s[k] != '.',
    ensures
        tail_after_dot(s) == Seq::<char>::empty(),
    decreases s.len(),
{
    if s.len() > 0 {
        lemma_tail_after_dot_none(s.drop_first());
    }
}

/// With the first dot at `j` (or no dot and `j` the length), the part before
/// the dot is the prefix up to `j`.
pub proof fn lemma_take_until_dot_at(s: Seq<char>, j: int)
    requires
        0 <= j <= s.len(),
        forall|k: int| 0 <= k < j ==> s[k] != '.',
        j == s.len() || s[j] == '.',
    ensures
        take_until_dot(s) == s.subrange(0, j),
    decreases j,
{
    if j == 0 {
        assert(take_until_dot(s) =~= s.subrange(0, 0));
    } else {
        lemma_take_until_dot_at(s.drop_first(), j - 1);
        assert(s.drop_first().subrange(0, j - 1) =~= s.subrange(1, j));
        assert(seq![s[0]].add(s.subrange(1, j)) =~= s.subrange(0, j));
    }
}

/// The site name inside a qualified origin identity `app.SITE.broker`: the
/// second dot-separated segment, or `None` when the identity holds no dot.
pub fn site_of_origin(origin: &str) -> (r: Option<String>)
    ensures
        match r {
            Some(site) => has_dot(origin@) && site@ == second_seg(origin@),
            None => !has_dot(origin@),
        },
{
    match find_char_from(origin, '.', 0) {
        Some(i) => {
            let n: usize = origin.unicode_len();
            let j: usize = match find_char_from(origin, '.', i + 1) {
                Some(j) => j,
                None => n,
            };
            let seg: String = origin.substring_char(i + 1, j).to_owned();
            proof {
                let s = origin@;
                let gi = i as int;
                let gj = j as int;
                lemma_tail_after_dot_at(s, gi);
                let t = s.subrange(gi + 1, s.len() as int);
                lemma_take_until_dot_at(t, gj - (gi + 1));
                assert(t.subrange(0, gj - (gi + 1)) =~= s.subrange(gi + 1, gj));
            }
            Some(seg)
        },
        None => None,
    }
}

} // verus!
