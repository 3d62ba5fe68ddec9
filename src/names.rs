use crate::models::Partner;
use vstd::multiset::Multiset;
use vstd::prelude::*;
use vstd::seq_lib::group_to_multiset_ensures;

verus! {

/// Lexicographic order of names by character code: `a` comes first when it
/// is a prefix of `b`, or at the first difference its character is lower.
/// This is the order of Rust's `str`.
pub open spec fn name_le(a: Seq<char>, b: Seq<char>) -> bool {
    ||| (a.len() <= b.len() && a == b.take(a.len() as int))
    ||| exists|i: int|
        0 <= i < a.len() && i < b.len() && a.take(i) == b.take(i) && #[trigger] a[i] < b[i]
}

/// Partners ordered by display name.
pub open spec fn sorted_by_name(ps: Seq<Partner>) -> bool {
    forall|i: int, j: int|
        0 <= i < j < ps.len() ==> name_le(#[trigger] ps[i].display_name@, #[trigger] ps[j].display_name@)
}

proof fn lemma_take_agree(a: Seq<char>, b: Seq<char>, i: int, k: int)
    requires
        0 <= k <= i <= a.len(),
        i <= b.len(),
        a.take(i) == b.take(i),
    ensures
        a.take(k) == b.take(k),
        k < i ==> a[k] == b[k],
{
    assert(a.take(k) =~= a.take(i).take(k));
    assert(b.take(k) =~= b.take(i).take(k));
    if k < i {
        assert(a[k] == a.take(i)[k]);
        assert(b[k] == b.take(i)[k]);
    }
}

proof fn lemma_name_le_total_from(a: Seq<char>, b: Seq<char>, k: int)
    requires
        0 <= k <= a.len(),
        k <= b.len(),
        a.take(k) == b.take(k),
    ensures
        name_le(a, b) || name_le(b, a),
    decreases a.len() - k,
{
    if k < a.len() && k < b.len() {
        if a[k] == b[k] {
            assert(a.take(k + 1) =~= a.take(k).push(a[k]));
            assert(b.take(k + 1) =~= b.take(k).push(b[k]));
            lemma_name_le_total_from(a, b, k + 1);
        } else if a[k] < b[k] {
            assert(name_le(a, b));
        } else {
            assert(b[k] < a[k]);
            assert(name_le(b, a));
        }
    } else if a.len() <= b.len() {
        assert(a.take(a.len() as int) =~= a);
        assert(name_le(a, b));
    } else {
        assert(b.take(b.len() as int) =~= b);
        assert(name_le(b, a));
    }
}

/// Any two names are ordered one way or the other.
pub proof fn lemma_name_le_total(a: Seq<char>, b: Seq<char>)
    ensures
        name_le(a, b) || name_le(b, a),
{
    assert(a.take(0) =~= b.take(0));
    lemma_name_le_total_from(a, b, 0);
}

/// The order is transitive.
pub proof fn lemma_name_le_transitive(a: Seq<char>, b: Seq<char>, c: Seq<char>)
    requires
        name_le(a, b),
        name_le(b, c),
    ensures
        name_le(a, c),
{
    if a.len() <= b.len() && a == b.take(a.len() as int) {
        if b.len() <= c.len() && b == c.take(b.len() as int) {
            assert(a =~= c.take(a.len() as int));
        } else {
            let j = choose|j: int|
                0 <= j < b.len() && j < c.len() && b.take(j) == c.take(j) && #[trigger] b[j] < c[j];
            if j < a.len() {
                lemma_take_agree(b, c, j, j);
                assert(a.take(j) =~= b.take(j));
                assert(a[j] == b[j]);
                assert(name_le(a, c));
            } else {
                assert(a =~= b.take(a.len() as int));
                lemma_take_agree(b, c, j, a.len() as int);
                assert(a =~= c.take(a.len() as int));
            }
        }
    } else {
        let i = choose|i: int|
            0 <= i < a.len() && i < b.len() && a.take(i) == b.take(i) && #[trigger] a[i] < b[i];
        if b.len() <= c.len() && b == c.take(b.len() as int) {
            assert(b.take(i) =~= c.take(i));
            assert(b[i] == c[i]);
            assert(name_le(a, c));
        } else {
            let j = choose|j: int|
                0 <= j < b.len() && j < c.len() && b.take(j) == c.take(j) && #[trigger] b[j] < c[j];
            if i < j {
                lemma_take_agree(b, c, j, i);
                assert(a.take(i) == c.take(i));
                assert(name_le(a, c));
            } else if j < i {
                lemma_take_agree(a, b, i, j);
                assert(a.take(j) == c.take(j));
                assert(a[j] == b[j]);
                assert(name_le(a, c));
            } else {
                assert(a.take(i) == c.take(i));
                assert(name_le(a, c));
            }
        }
    }
}

/// Compares two names in the order of `name_le`.
pub fn name_le_exec(a: &str, b: &str) -> (r: bool)
    ensures
        r == name_le(a@, b@),
{
    let la = a.unicode_len();
    let lb = b.unicode_len();
    let mut i: usize = 0;
    while i < la && i < lb
        invariant
            la == a@.len(),
            lb == b@.len(),
            i <= la,
            i <= lb,
            a@.take(i as int) == b@.take(i as int),
        decreases la - i,
    {
        let ca = a.get_char(i);
        let cb = b.get_char(i);
        if ca != cb {
            proof {
                if ca > cb {
                    assert forall|j: int|
                        0 <= j < a@.len() && j < b@.len() && a@.take(j) == b@.take(j) implies !(
                    #[trigger] a@[j] < b@[j]) by {
                        if j > i {
                            lemma_take_agree(a@, b@, j, i as int);
                        } else if j < i {
                            lemma_take_agree(a@, b@, i as int, j);
                        }
                    }
                    if a@.len() <= b@.len() && a@ == b@.take(a@.len() as int) {
                        assert(a@[i as int] == b@[i as int]);
                    }
                }
            }
            return ca < cb;
        }
        proof {
            assert(a@.take(i + 1) =~= a@.take(i as int).push(ca));
            assert(b@.take(i + 1) =~= b@.take(i as int).push(cb));
        }
        i = i + 1;
    }
    proof {
        assert forall|j: int|
            0 <= j < a@.len() && j < b@.len() && a@.take(j) == b@.take(j) implies !(
        #[trigger] a@[j] < b@[j]) by {
            lemma_take_agree(a@, b@, i as int, j);
        }
        if la <= lb {
            assert(a@ =~= a@.take(i as int));
        } else {
            assert(b@ =~= b@.take(i as int));
            assert(a@.len() > b@.len());
        }
    }
    la <= lb
}

/// Orders partners by display name; the result holds the same partners.
pub fn sort_by_display_name(partners: Vec<Partner>) -> (r: Vec<Partner>)
    ensures
        sorted_by_name(r@),
        r@.to_multiset() == partners@.to_multiset(),
{
    broadcast use group_to_multiset_ensures;

    let ghost all = partners@;
    let mut rest = partners;
    let mut out: Vec<Partner> = Vec::new();
    while rest.len() > 0
        invariant
            sorted_by_name(out@),
            out@.to_multiset().add(rest@.to_multiset()) == all.to_multiset(),
        decreases rest.len(),
    {
        let ghost rest_before = rest@;
        let x = rest.pop().unwrap();
        proof {
            assert(rest_before =~= rest@.push(x));
            rest@.to_multiset_ensures();
            assert(rest_before.to_multiset() =~= rest@.to_multiset().insert(x));
        }
        let mut pos: usize = 0;
        while pos < out.len() && name_le_exec(
            out[pos].display_name.as_str(),
            x.display_name.as_str(),
        )
            invariant
                pos <= out@.len(),
                forall|k: int| 0 <= k < pos ==> name_le(#[trigger] out@[k].display_name@, x.display_name@),
            decreases out@.len() - pos,
        {
            pos = pos + 1;
        }
        let ghost before = out@;
        proof {
            if pos < before.len() {
                lemma_name_le_total(before[pos as int].display_name@, x.display_name@);
            }
        }
        out.insert(pos, x);
        proof {
            assert forall|i: int, j: int| 0 <= i < j < out@.len() implies name_le(
                #[trigger] out@[i].display_name@,
                #[trigger] out@[j].display_name@,
            ) by {
                if j < pos {
                    assert(out@[i] == before[i] && out@[j] == before[j]);
                } else if j == pos {
                    assert(out@[i] == before[i]);
                } else if i == pos {
                    assert(out@[j] == before[j - 1]);
                    assert(name_le(x.display_name@, before[pos as int].display_name@));
                    if j - 1 > pos {
                        lemma_name_le_transitive(
                            x.display_name@,
                            before[pos as int].display_name@,
                            before[j - 1].display_name@,
                        );
                    }
                } else if i < pos {
                    assert(out@[i] == before[i] && out@[j] == before[j - 1]);
                } else {
                    assert(out@[i] == before[i - 1] && out@[j] == before[j - 1]);
                }
            }
            let inserted = out@;
            inserted.to_multiset_ensures();
            assert(inserted.remove(pos as int) =~= before);
            assert(inserted[pos as int] == x);
            assert(inserted.remove(pos as int).to_multiset() == inserted.to_multiset().remove(
                inserted[pos as int],
            ));
            assert(inserted.contains(x));
            assert(inserted.to_multiset().count(x) > 0);
            assert(inserted.to_multiset() =~= before.to_multiset().insert(x));
            assert(out@.to_multiset().add(rest@.to_multiset()) =~= before.to_multiset().add(
                rest_before.to_multiset(),
            ));
        }
    }
    proof {
        assert(rest@.to_multiset() =~= Multiset::<Partner>::empty()) by {
            assert(rest@ =~= Seq::<Partner>::empty());
        }
        assert(out@.to_multiset().add(rest@.to_multiset()) =~= out@.to_multiset());
    }
    out
}

} // verus!
