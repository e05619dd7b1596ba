use vstd::prelude::*;

verus! {

/// The elements of `s` whose flag in `keep` is set, in their order.
pub open spec fn keep_where<T>(s: Seq<T>, keep: Seq<bool>) -> Seq<T>
    decreases s.len(),
{
    if s.len() == 0 {
        Seq::empty()
    } else {
        let rest = keep_where(s.drop_last(), keep.take(s.len() - 1));
        if keep[s.len() - 1] {
            rest.push(s.last())
        } else {
            rest
        }
    }
}

/// `keep` records one answer of `f` for each element of `s`.
pub open spec fn answers_of<T, F: Fn(&T) -> bool>(f: F, s: Seq<T>, keep: Seq<bool>) -> bool {
    &&& keep.len() == s.len()
    &&& forall|i: int| 0 <= i < s.len() ==> f.ensures((&s[i],), #[trigger] keep[i])
}

/// `after` is `before` with the elements dropped on which `f` answered `false`.
pub open spec fn filtered_by<T, F: Fn(&T) -> bool>(f: F, before: Seq<T>, after: Seq<T>) -> bool {
    exists|keep: Seq<bool>| answers_of(f, before, keep) && after == keep_where(before, keep)
}

/// Where an element taken out at `from` is put back so that it lands before
/// the element that stood at `to`.
pub open spec fn insert_position(from: int, to: int) -> int {
    if to > from {
        to - 1
    } else {
        to
    }
}

/// `s` with the element at `from` moved to just before the element that stood at `to`.
pub open spec fn moved<T>(s: Seq<T>, from: int, to: int) -> Seq<T> {
    s.remove(from).insert(insert_position(from, to), s[from])
}

/// Whether `from` and `to` name a move within a sequence of length `len`.
pub open spec fn valid_move(len: nat, from: int, to: int) -> bool {
    0 <= from < len && 0 <= to <= len
}

pub proof fn lemma_keep_where_push<T>(s: Seq<T>, keep: Seq<bool>, x: T, b: bool)
    requires
        keep.len() == s.len(),
    ensures
        keep_where(s.push(x), keep.push(b)) == if b {
            keep_where(s, keep).push(x)
        } else {
            keep_where(s, keep)
        },
{
    assert(s.push(x).drop_last() =~= s);
    assert(keep.push(b).take(s.len() as int) =~= keep);
}

pub proof fn lemma_keep_where_len<T>(s: Seq<T>, keep: Seq<bool>)
    ensures
        keep_where(s, keep).len() <= s.len(),
    decreases s.len(),
{
    if s.len() > 0 {
        lemma_keep_where_len(s.drop_last(), keep.take(s.len() - 1));
    }
}

/// A filtered sequence is never longer than the original.
pub proof fn lemma_filtered_len<T, F: Fn(&T) -> bool>(f: F, before: Seq<T>, after: Seq<T>)
    requires
        filtered_by(f, before, after),
    ensures
        after.len() <= before.len(),
{
    let keep = choose|keep: Seq<bool>| answers_of(f, before, keep) && after == keep_where(before, keep);
    lemma_keep_where_len(before, keep);
}

/// Moving an element keeps the length and the elements, and puts the moved
/// element where the move says.
pub proof fn lemma_moved<T>(s: Seq<T>, from: int, to: int)
    requires
        valid_move(s.len(), from, to),
    ensures
        moved(s, from, to).len() == s.len(),
        moved(s, from, to).to_multiset() == s.to_multiset(),
        moved(s, from, to)[insert_position(from, to)] == s[from],
{
    broadcast use vstd::multiset::group_multiset_axioms;
    vstd::seq_lib::to_multiset_remove(s, from);
    vstd::seq_lib::to_multiset_insert(s.remove(from), insert_position(from, to), s[from]);
    vstd::seq_lib::to_multiset_contains(s, s[from]);
    assert(s.to_multiset().remove(s[from]).insert(s[from]) =~= s.to_multiset());
}

proof fn lemma_keep_where_facts<T>(s: Seq<T>, keep: Seq<bool>)
    requires
        keep.len() == s.len(),
    ensures
        keep_where(s, keep).len() <= s.len(),
        forall|j: int|
            0 <= j < keep_where(s, keep).len() ==> exists|i: int|
                0 <= i < s.len() && keep[i] && s[i] == #[trigger] keep_where(s, keep)[j],
        (forall|i: int| 0 <= i < s.len() ==> #[trigger] keep[i]) ==> keep_where(s, keep) == s,
        (forall|i: int| 0 <= i < s.len() ==> !#[trigger] keep[i]) ==> keep_where(s, keep).len() == 0,
    decreases s.len(),
{
    if s.len() > 0 {
        let n = s.len() - 1;
        let s0 = s.drop_last();
        let k0 = keep.take(n as int);
        lemma_keep_where_facts(s0, k0);
        let r = keep_where(s0, k0);
        let kw = keep_where(s, keep);
        assert forall|j: int| 0 <= j < kw.len() implies exists|i: int|
            0 <= i < s.len() && keep[i] && s[i] == #[trigger] kw[j] by {
            if j < r.len() {
                assert(kw[j] == r[j]);
                let i = choose|i: int| 0 <= i < s0.len() && k0[i] && s0[i] == r[j];
                assert(keep[i] && s[i] == kw[j]);
            } else {
                assert(keep[n as int] && s[n as int] == kw[j]);
            }
        }
        if forall|i: int| 0 <= i < s.len() ==> #[trigger] keep[i] {
            assert forall|i: int| 0 <= i < s0.len() implies #[trigger] k0[i] by {
                assert(keep[i]);
            }
            assert(s0.push(s.last()) =~= s);
        }
        if forall|i: int| 0 <= i < s.len() ==> !#[trigger] keep[i] {
            assert forall|i: int| 0 <= i < s0.len() implies !#[trigger] k0[i] by {
                assert(!keep[i]);
            }
            assert(!keep[n as int]);
        }
    }
}

/// What filtering keeps: only elements of the original on which `f`
/// answered `true`, never more than there were; all of them where `f` could
/// not answer `false`, none where it could not answer `true`.
pub proof fn law_filtered_by<T, F: Fn(&T) -> bool>(f: F, before: Seq<T>, after: Seq<T>)
    requires
        filtered_by(f, before, after),
    ensures
        after.len() <= before.len(),
        forall|j: int|
            0 <= j < after.len() ==> before.contains(#[trigger] after[j]) && f.ensures(
                (&after[j],),
                true,
            ),
        (forall|i: int| 0 <= i < before.len() ==> !f.ensures((&#[trigger] before[i],), false))
            ==> after == before,
        (forall|i: int| 0 <= i < before.len() ==> !f.ensures((&#[trigger] before[i],), true))
            ==> after.len() == 0,
{
    let keep = choose|keep: Seq<bool>| answers_of(f, before, keep) && after == keep_where(before, keep);
    lemma_keep_where_facts(before, keep);
    assert forall|j: int| 0 <= j < after.len() implies before.contains(#[trigger] after[j])
        && f.ensures((&after[j],), true) by {
        let i = choose|i: int| 0 <= i < before.len() && keep[i] && before[i] == after[j];
        assert(f.ensures((&before[i],), keep[i]));
    }
    if forall|i: int| 0 <= i < before.len() ==> !f.ensures((&#[trigger] before[i],), false) {
        assert forall|i: int| 0 <= i < before.len() implies #[trigger] keep[i] by {
            assert(f.ensures((&before[i],), keep[i]));
        }
    }
    if forall|i: int| 0 <= i < before.len() ==> !f.ensures((&#[trigger] before[i],), true) {
        assert forall|i: int| 0 <= i < before.len() implies !#[trigger] keep[i] by {
            assert(f.ensures((&before[i],), keep[i]));
        }
    }
}

/// Where a moved element lands, by index: at `to` when it moves up or stays,
/// at `to - 1` when it moves down past rows that close the gap it left; taking
/// it out again gives the sequence without it.
pub proof fn lemma_moved_lands<T>(s: Seq<T>, from: int, to: int)
    requires
        0 <= from < s.len(),
        0 <= to <= s.len(),
    ensures
        moved(s, from, to).len() == s.len(),
        moved(s, from, to).to_multiset() == s.to_multiset(),
        to <= from ==> moved(s, from, to)[to] == s[from] && moved(s, from, to).remove(to)
            == s.remove(from),
        to > from ==> moved(s, from, to)[to - 1] == s[from] && moved(s, from, to).remove(to - 1)
            == s.remove(from),
{
    lemma_moved(s, from, to);
    let p = insert_position(from, to);
    let r = s.remove(from);
    assert(r.insert(p, s[from]).remove(p) =~= r);
}

/// Keeps the elements of `v` on which `f` answers `true`, in order.
pub fn retain_vec<T, F: Fn(&T) -> bool>(v: &mut Vec<T>, f: &F)
    requires
        forall|x: &T| f.requires((x,)),
    ensures
        filtered_by(*f, old(v)@, final(v)@),
{
    let ghost before = v@;
    let all = v.split_off(0);
    let ghost mut keep: Seq<bool> = Seq::empty();
    assert(all@ == before);
    for x in it: all.into_iter()
        invariant
            forall|x: &T| f.requires((x,)),
            it.seq() == before,
            answers_of(*f, before.take(it.index() as int), keep),
            v@ == keep_where(before.take(it.index() as int), keep),
    {
        let ghost i = it.index();
        let b = f(&x);
        proof {
            lemma_keep_where_push(before.take(i as int), keep, x, b);
            assert(before.take(i as int).push(x) =~= before.take(i + 1));
            keep = keep.push(b);
        }
        if b {
            v.push(x);
        }
    }
    assert(before.take(before.len() as int) =~= before);
}

/// Moves the element at `from` to just before the element at `to`.
pub fn move_element<T>(v: &mut Vec<T>, from: usize, to: usize)
    requires
        valid_move(old(v)@.len(), from as int, to as int),
    ensures
        final(v)@ == moved(old(v)@, from as int, to as int),
        final(v)@.len() == old(v)@.len(),
        final(v)@.to_multiset() == old(v)@.to_multiset(),
        to <= from ==> final(v)@[to as int] == old(v)@[from as int] && final(v)@.remove(to as int)
            == old(v)@.remove(from as int),
        to > from ==> final(v)@[to - 1] == old(v)@[from as int] && final(v)@.remove(to - 1)
            == old(v)@.remove(from as int),
{
    proof {
        lemma_moved_lands(old(v)@, from as int, to as int);
    }
    let item = v.remove(from);
    let insert_at = if to > from {
        to - 1
    } else {
        to
    };
    let at = if insert_at < v.len() {
        insert_at
    } else {
        v.len()
    };
    v.insert(at, item);
}

} // verus!
