use vstd::prelude::*;
use vstd::string::*;

verus! {

/// Position of the first `:` in `s`, if any.
pub open spec fn colon_index(s: Seq<char>) -> Option<int>
    decreases s.len(),
{
    if s.len() == 0 {
        None
    } else if s[0] == ':' {
        Some(0)
    } else {
        match colon_index(s.drop_first()) {
            Some(i) => Some(i + 1),
            None => None,
        }
    }
}

/// `s` split at its first `:`, without the `:` itself.
pub open spec fn split_once_colon(s: Seq<char>) -> Option<(Seq<char>, Seq<char>)> {
    match colon_index(s) {
        Some(i) => Some((s.take(i), s.skip(i + 1))),
        None => None,
    }
}

/// What `colon_index` finds: the first `:`, or that there is none.
pub proof fn lemma_colon_index(s: Seq<char>)
    ensures
        match colon_index(s) {
            Some(i) => 0 <= i < s.len() && s[i] == ':' && forall|j: int| 0 <= j < i ==> s[j] != ':',
            None => forall|j: int| 0 <= j < s.len() ==> s[j] != ':',
        },
    decreases s.len(),
{
    if s.len() > 0 && s[0] != ':' {
        lemma_colon_index(s.drop_first());
        match colon_index(s.drop_first()) {
            Some(i) => {
                assert forall|j: int| 0 <= j < i + 1 implies s[j] != ':' by {
                    if j > 0 {
                        assert(s[j] == s.drop_first()[j - 1]);
                    }
                }
            },
            None => {
                assert forall|j: int| 0 <= j < s.len() implies s[j] != ':' by {
                    if j > 0 {
                        assert(s[j] == s.drop_first()[j - 1]);
                    }
                }
            },
        }
    }
}

/// A `:` at `i` with none before it is the first one.
pub proof fn lemma_colon_at(s: Seq<char>, i: int)
    requires
        0 <= i < s.len(),
        s[i] == ':',
        forall|j: int| 0 <= j < i ==> s[j] != ':',
    ensures
        colon_index(s) == Some(i),
{
    lemma_colon_index(s);
}

/// Whether two texts are the same.
pub fn same_text(a: &str, b: &str) -> (r: bool)
    ensures
        r == (a@ == b@),
{
    let n = a.unicode_len();
    if n != b.unicode_len() {
        return false;
    }
    let mut i: usize = 0;
    while i < n
        invariant
            n == a@.len(),
            n == b@.len(),
            i <= n,
            forall|j: int| 0 <= j < i ==> a@[j] == b@[j],
        decreases n - i,
    {
        if a.get_char(i) != b.get_char(i) {
            return false;
        }
        i = i + 1;
    }
    assert(a@ =~= b@);
    true
}

/// Position of the first `:` in `s`, if any.
pub fn find_colon(s: &str) -> (r: Option<usize>)
    ensures
        colon_index(s@) == match r {
            Some(i) => Some(i as int),
            None => None,
        },
{
    proof {
        lemma_colon_index(s@);
    }
    let n = s.unicode_len();
    let mut i: usize = 0;
    while i < n
        invariant
            n == s@.len(),
            i <= n,
            forall|j: int| 0 <= j < i ==> s@[j] != ':',
        decreases n - i,
    {
        if s.get_char(i) == ':' {
            proof {
                lemma_colon_at(s@, i as int);
            }
            return Some(i);
        }
        i = i + 1;
    }
    None
}

} // verus!
