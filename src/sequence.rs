use crate::models::EmbedData;
use vstd::prelude::*;

verus! {

/// The sequence numbers of a community's definitions are exactly
/// `1..=n`, in list order.
pub open spec fn is_dense(defs: Seq<EmbedData>) -> bool {
    forall|i: int| 0 <= i < defs.len() ==> #[trigger] defs[i].embed_part_sequence_number == i + 1
}

/// The definitions, in the same order, numbered `1..=n`.
pub open spec fn renumbered(defs: Seq<EmbedData>) -> Seq<EmbedData> {
    Seq::new(
        defs.len(),
        |i: int| EmbedData { embed_part_sequence_number: (i + 1) as i32, ..defs[i] },
    )
}

/// The definitions with their sequence numbers left out, to compare order.
pub open spec fn ids_in_order(defs: Seq<EmbedData>) -> Seq<Seq<char>> {
    defs.map_values(|d: EmbedData| d.id@)
}

/// Numbers the definitions `1..=n` in their current order, changing nothing
/// else.
pub fn renumber(defs: &mut Vec<EmbedData>)
    requires
        old(defs)@.len() <= i32::MAX,
    ensures
        final(defs)@ == renumbered(old(defs)@),
{
    let ghost start = defs@;
    let mut i: usize = 0;
    while i < defs.len()
        invariant
            i <= defs@.len(),
            defs@.len() == start.len(),
            start.len() <= i32::MAX,
            forall|k: int|
                0 <= k < i ==> #[trigger] defs@[k] == renumbered(start)[k],
            forall|k: int| i <= k < defs@.len() ==> #[trigger] defs@[k] == start[k],
        decreases defs@.len() - i,
    {
        defs[i].embed_part_sequence_number = (i + 1) as i32;
        i = i + 1;
    }
    proof {
        assert(defs@ =~= renumbered(start));
    }
}

/// Removes the definition at `position` and numbers the rest `1..=n-1`,
/// keeping their order. Returns the removed definition.
pub fn remove_definition(defs: &mut Vec<EmbedData>, position: usize) -> (r: EmbedData)
    requires
        position < old(defs)@.len(),
        old(defs)@.len() <= i32::MAX,
    ensures
        r == old(defs)@[position as int],
        final(defs)@ == renumbered(old(defs)@.remove(position as int)),
{
    let removed = defs.remove(position);
    renumber(defs);
    removed
}

/// The number of a new definition: one past the highest in use, `1` for a
/// community's first; `None` when the highest is already `i32::MAX`.
pub fn next_sequence_number(highest: Option<i32>) -> (r: Option<i32>)
    ensures
        r == match highest {
            None => Some(1i32),
            Some(n) => if n < i32::MAX {
                Some((n + 1) as i32)
            } else {
                None
            },
        },
{
    match highest {
        None => Some(1),
        Some(n) => n.checked_add(1),
    }
}

/// In a dense list the highest number is the count, so a new definition
/// numbered by `next_sequence_number` goes last and keeps the list dense.
pub proof fn lemma_append_keeps_sequence_dense(defs: Seq<EmbedData>, new_def: EmbedData)
    requires
        is_dense(defs),
        new_def.embed_part_sequence_number == defs.len() + 1,
    ensures
        defs.len() > 0 ==> defs.last().embed_part_sequence_number == defs.len(),
        forall|i: int|
            0 <= i < defs.len() ==> #[trigger] defs[i].embed_part_sequence_number <= defs.len(),
        is_dense(defs.push(new_def)),
{
    assert forall|i: int| 0 <= i < defs.push(new_def).len() implies #[trigger] defs.push(
        new_def,
    )[i].embed_part_sequence_number == i + 1 by {
        if i < defs.len() {
            assert(defs.push(new_def)[i] == defs[i]);
        }
    }
}

/// Renumbering yields dense sequence numbers and keeps the order, so after
/// deleting the definition numbered `k` of a dense list, the rest are
/// numbered `1..=n-1` in their old relative order.
pub proof fn lemma_delete_keeps_sequence_dense(defs: Seq<EmbedData>, k: int)
    requires
        is_dense(defs),
        1 <= k <= defs.len(),
        defs.len() <= i32::MAX,
    ensures
        defs[k - 1].embed_part_sequence_number == k,
        is_dense(renumbered(defs.remove(k - 1))),
        renumbered(defs.remove(k - 1)).len() == defs.len() - 1,
        ids_in_order(renumbered(defs.remove(k - 1))) == ids_in_order(defs).remove(k - 1),
        forall|i: int|
            0 <= i < defs.len() - 1 ==> #[trigger] renumbered(defs.remove(k - 1))[i].embed_part_sequence_number
                == i + 1,
{
    let rest = renumbered(defs.remove(k - 1));
    assert(ids_in_order(rest) =~= ids_in_order(defs).remove(k - 1));
}

} // verus!
