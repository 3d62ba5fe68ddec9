use vstd::prelude::*;

verus! {

/// Splits a sequence, front to back, into runs of ten; only the last run
/// may be shorter, and no run is empty.
///
/// The external platform takes at most ten blocks per message and the
/// listing keeps at most ten partners per field, so both go through this.
pub open spec fn groups_of_ten<A>(s: Seq<A>) -> Seq<Seq<A>>
    decreases s.len(),
{
    if s.len() == 0 {
        Seq::empty()
    } else if s.len() <= 10 {
        seq![s]
    } else {
        seq![s.take(10)] + groups_of_ten(s.skip(10))
    }
}

/// Grouping, then flattening, gives back the sequence; there are
/// `ceil(len / 10)` groups, every one full but the last, and none empty.
pub proof fn lemma_groups_of_ten<A>(s: Seq<A>)
    ensures
        groups_of_ten(s).flatten() == s,
        groups_of_ten(s).len() == (s.len() + 9) / 10,
        forall|i: int|
            0 <= i < groups_of_ten(s).len() ==> 0 < #[trigger] groups_of_ten(s)[i].len() <= 10,
        forall|i: int|
            0 <= i < groups_of_ten(s).len() ==> #[trigger] groups_of_ten(s)[i].len() == if i + 1
                < groups_of_ten(s).len() {
                10
            } else {
                s.len() - 10 * i
            },
        forall|i: int|
            0 <= i < groups_of_ten(s).len() ==> #[trigger] groups_of_ten(s)[i] == s.subrange(
                10 * i,
                if 10 * i + 10 < s.len() {
                    10 * i + 10
                } else {
                    s.len() as int
                },
            ),
    decreases s.len(),
{
    let g = groups_of_ten(s);
    if s.len() == 0 {
        assert(g.flatten() =~= s);
    } else if s.len() <= 10 {
        g.lemma_flatten_singleton();
    } else {
        let rest = s.skip(10);
        lemma_groups_of_ten(rest);
        let gr = groups_of_ten(rest);
        assert(g.first() == s.take(10));
        assert(g.drop_first() =~= gr);
        assert(g.flatten() == s.take(10) + gr.flatten());
        assert(s.take(10) + rest =~= s);
        assert forall|i: int| 0 < i < g.len() implies #[trigger] g[i] == gr[i - 1] by {}
        assert forall|i: int| 0 <= i < g.len() implies #[trigger] g[i] == s.subrange(
            10 * i,
            if 10 * i + 10 < s.len() {
                10 * i + 10
            } else {
                s.len() as int
            },
        ) by {
            if i == 0 {
                assert(g[0] =~= s.subrange(0, 10));
            } else {
                assert(g[i] == gr[i - 1]);
                assert(gr[i - 1] =~= s.subrange(
                    10 * i,
                    if 10 * i + 10 < s.len() {
                        10 * i + 10
                    } else {
                        s.len() as int
                    },
                ));
            }
        }
    }
}

/// Grouping commutes with mapping every element.
pub proof fn lemma_groups_of_ten_map<A, B>(s: Seq<A>, f: spec_fn(A) -> B)
    ensures
        groups_of_ten(s.map_values(f)) == groups_of_ten(s).map_values(
            |g: Seq<A>| g.map_values(f),
        ),
    decreases s.len(),
{
    let m = s.map_values(f);
    let lhs = groups_of_ten(m);
    let rhs = groups_of_ten(s).map_values(|g: Seq<A>| g.map_values(f));
    if s.len() == 0 {
        assert(lhs =~= rhs);
    } else if s.len() <= 10 {
        assert(lhs =~= rhs);
    } else {
        lemma_groups_of_ten_map(s.skip(10), f);
        assert(m.take(10) =~= s.take(10).map_values(f));
        assert(m.skip(10) =~= s.skip(10).map_values(f));
        assert(lhs =~= rhs);
    }
}

/// Moves the items into runs of ten, in order.
pub fn group_in_tens<T>(items: Vec<T>) -> (r: Vec<Vec<T>>)
    ensures
        r@.map_values(|g: Vec<T>| g@) == groups_of_ten(items@),
{
    let ghost all = items@;
    let mut rest = items;
    let mut groups: Vec<Vec<T>> = Vec::new();
    while rest.len() > 0
        invariant
            groups@.map_values(|g: Vec<T>| g@) + groups_of_ten(rest@) == groups_of_ten(all),
        decreases rest.len(),
    {
        let ghost before = rest@;
        let tail = if rest.len() > 10 {
            rest.split_off(10)
        } else {
            Vec::new()
        };
        let ghost old_groups = groups@;
        let ghost head = rest@;
        groups.push(rest);
        proof {
            assert(groups@.map_values(|g: Vec<T>| g@) =~= old_groups.map_values(|g: Vec<T>| g@).push(
                head,
            ));
            if before.len() <= 10 {
                assert(before.take(before.len() as int) =~= before);
                assert(tail@ =~= Seq::<T>::empty());
                assert(groups_of_ten(tail@) =~= Seq::<Seq<T>>::empty());
            } else {
                assert(tail@ =~= before.skip(10));
            }
            assert(groups@.map_values(|g: Vec<T>| g@) + groups_of_ten(tail@) =~= old_groups.map_values(
                |g: Vec<T>| g@,
            ) + groups_of_ten(before));
        }
        rest = tail;
    }
    proof {
        assert(groups_of_ten(rest@) =~= Seq::<Seq<T>>::empty());
        assert(groups@.map_values(|g: Vec<T>| g@) + groups_of_ten(rest@) =~= groups@.map_values(
            |g: Vec<T>| g@,
        ));
    }
    groups
}

} // verus!
