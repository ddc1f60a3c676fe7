use vstd::prelude::*;

verus! {

/// The sequence of views of a sequence of values.
pub open spec fn views_of<T: View>(s: Seq<T>) -> Seq<T::V> {
    s.map_values(|x: T| x@)
}

pub proof fn lemma_views_of_push<T: View>(s: Seq<T>, x: T)
    ensures
        views_of(s.push(x)) =~= views_of(s).push(x@),
{
    assert forall|i: int| 0 <= i < s.len() + 1 implies views_of(s.push(x))[i]
        == views_of(s).push(x@)[i] by {
        if i < s.len() {
            assert(s.push(x)[i] == s[i]);
        } else {
            assert(s.push(x)[i] == x);
        }
    }
}

pub proof fn lemma_views_of_update<T: View>(s: Seq<T>, i: int, x: T)
    requires
        0 <= i < s.len(),
    ensures
        views_of(s.update(i, x)) =~= views_of(s).update(i, x@),
{
    assert forall|j: int| 0 <= j < s.len() implies views_of(s.update(i, x))[j]
        == views_of(s).update(i, x@)[j] by {
        if j != i {
            assert(s.update(i, x)[j] == s[j]);
        }
    }
}

/// A prefix never holds more copies of an element than the whole.
pub proof fn lemma_take_le_multiset<T>(s: Seq<T>, k: int)
    requires
        0 <= k <= s.len(),
    ensures
        forall|x: T| s.take(k).to_multiset().count(x) <= #[trigger] s.to_multiset().count(x),
{
    broadcast use vstd::seq_lib::group_to_multiset_ensures;

    assert(s.take(k) + s.skip(k) =~= s);
    vstd::seq_lib::lemma_multiset_commutative(s.take(k), s.skip(k));
    assert forall|x: T|
        s.take(k).to_multiset().count(x) <= #[trigger] s.to_multiset().count(x) by {
        assert(s.to_multiset().count(x) == s.take(k).to_multiset().count(x) + s.skip(
            k,
        ).to_multiset().count(x));
    }
}

/// Two positions holding the same value put at least two copies of it in
/// the multiset.
pub proof fn lemma_dup_count<T>(s: Seq<T>, a: int, b: int)
    requires
        0 <= a < b < s.len(),
        s[a] == s[b],
    ensures
        s.to_multiset().count(s[a]) >= 2,
{
    broadcast use vstd::seq_lib::group_to_multiset_ensures;

    let rest = s.remove(a);
    assert(rest.to_multiset() == s.to_multiset().remove(s[a]));
    assert(rest[b - 1] == s[b]);
    assert(rest.contains(s[a]));
    assert(rest.to_multiset().count(s[a]) >= 1);
    assert(s.to_multiset().count(s[a]) == rest.to_multiset().count(s[a]) + 1);
}

/// At least two copies in the multiset come from two distinct positions.
pub proof fn lemma_count_two_indexes<T>(s: Seq<T>, x: T)
    requires
        s.to_multiset().count(x) >= 2,
    ensures
        exists|a: int, b: int|
            #![trigger s[a], s[b]]
            0 <= a < s.len() && 0 <= b < s.len() && a != b && s[a] == x && s[b] == x,
{
    broadcast use vstd::seq_lib::group_to_multiset_ensures;

    assert(s.contains(x));
    let a = choose|a: int| 0 <= a < s.len() && s[a] == x;
    let rest = s.remove(a);
    assert(rest.to_multiset() == s.to_multiset().remove(s[a]));
    assert(rest.to_multiset().count(x) >= 1);
    assert(rest.contains(x));
    let c = choose|c: int| 0 <= c < rest.len() && rest[c] == x;
    let b = if c < a {
        c
    } else {
        c + 1
    };
    assert(s[b] == rest[c]);
    assert(0 <= a < s.len() && 0 <= b < s.len() && a != b && s[a] == x && s[b] == x);
}

pub proof fn lemma_views_of_take<T: View>(s: Seq<T>, k: int)
    requires
        0 <= k <= s.len(),
    ensures
        views_of(s.take(k)) =~= views_of(s).take(k),
{
    assert forall|j: int| 0 <= j < k implies views_of(s.take(k))[j] == views_of(s).take(k)[j] by {
        assert(s.take(k)[j] == s[j]);
    }
}

pub proof fn lemma_views_of_remove<T: View>(s: Seq<T>, i: int)
    requires
        0 <= i < s.len(),
    ensures
        views_of(s.remove(i)) =~= views_of(s).remove(i),
{
    assert forall|j: int| 0 <= j < s.len() - 1 implies views_of(s.remove(i))[j]
        == views_of(s).remove(i)[j] by {
        if j < i {
            assert(s.remove(i)[j] == s[j]);
        } else {
            assert(s.remove(i)[j] == s[j + 1]);
        }
    }
}

} // verus!
