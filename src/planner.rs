use crate::grouping::{group_in_tens, groups_of_ten, lemma_groups_of_ten, lemma_groups_of_ten_map};
use crate::models::{EmbedData, Partner};
use crate::names::{sort_by_display_name, sorted_by_name};
use vstd::prelude::*;
use vstd::string::*;

verus! {

/// One renderable block of the listing.
#[derive(Clone, Debug, PartialEq, Eq)]
pub struct EmbedBlock {
    pub description: Option<String>,
    pub image: Option<String>,
    pub color: Option<i32>,
    /// The texts of the partner-list fields, ten partners at most each.
    pub fields: Vec<String>,
}

/// What a block shows.
pub struct BlockView {
    pub description: Option<Seq<char>>,
    pub image: Option<Seq<char>>,
    pub color: Option<i32>,
    pub fields: Seq<Seq<char>>,
}

pub open spec fn string_view(s: Option<String>) -> Option<Seq<char>> {
    match s {
        Some(t) => Some(t@),
        None => None,
    }
}

impl View for EmbedBlock {
    type V = BlockView;

    open spec fn view(&self) -> BlockView {
        BlockView {
            description: string_view(self.description),
            image: string_view(self.image),
            color: self.color,
            fields: self.fields@.map_values(|f: String| f@),
        }
    }
}

/// The line that lists one partner: `- [name](https://discord.gg/code)`.
pub open spec fn partner_line(p: Partner) -> Seq<char> {
    "- ["@ + p.display_name@ + "](https://discord.gg/"@ + p.invite_code@ + ")"@
}

/// Lines joined by newlines, without a trailing one.
pub open spec fn join_lines(lines: Seq<Seq<char>>) -> Seq<char>
    decreases lines.len(),
{
    if lines.len() == 0 {
        Seq::empty()
    } else if lines.len() == 1 {
        lines[0]
    } else {
        join_lines(lines.drop_last()) + "\n"@ + lines.last()
    }
}

/// The partner-list fields of a block: the partners' lines, ten to a field.
pub open spec fn partner_fields(partners: Seq<Partner>) -> Seq<Seq<char>> {
    groups_of_ten(partners.map_values(|p: Partner| partner_line(p))).map_values(
        |g: Seq<Seq<char>>| join_lines(g),
    )
}

/// The block that a definition renders to, given the partners of its
/// category. Empty text and an empty image address are left out; a
/// definition bound to no category has no fields.
pub open spec fn block_of(def: EmbedData, partners: Seq<Partner>) -> BlockView {
    BlockView {
        description: if def.embed_text@.len() == 0 {
            None
        } else {
            Some(def.embed_text@)
        },
        image: if def.image_url@.len() == 0 {
            None
        } else {
            Some(def.image_url@)
        },
        color: def.color,
        fields: if def.partner_category_list is Some {
            partner_fields(partners)
        } else {
            Seq::empty()
        },
    }
}

/// A definition paired with the partners of the category it is bound to.
pub type PlanEntry = (EmbedData, Vec<Partner>);

/// The blocks of the listing, one for each definition, in order.
pub open spec fn planned_blocks(entries: Seq<PlanEntry>) -> Seq<BlockView> {
    entries.map_values(|e: PlanEntry| block_of(e.0, e.1@))
}

/// What a list of pages shows.
pub open spec fn page_views(pages: Seq<Vec<EmbedBlock>>) -> Seq<Seq<BlockView>> {
    pages.map_values(|p: Vec<EmbedBlock>| p@.map_values(|b: EmbedBlock| b@))
}

/// Each definition gives exactly one block, so `n` definitions fill
/// `ceil(n / 10)` pages, and reading the pages in order gives back the
/// blocks in the order of the definitions.
pub proof fn lemma_pages_follow_definitions(entries: Seq<PlanEntry>)
    ensures
        groups_of_ten(planned_blocks(entries)).len() == (entries.len() + 9) / 10,
        groups_of_ten(planned_blocks(entries)).flatten() == planned_blocks(entries),
        planned_blocks(entries).len() == entries.len(),
        forall|i: int|
            0 <= i < entries.len() ==> #[trigger] planned_blocks(entries)[i] == block_of(
                entries[i].0,
                entries[i].1@,
            ),
        forall|i: int|
            0 <= i < groups_of_ten(planned_blocks(entries)).len() ==> 0 < #[trigger] groups_of_ten(
                planned_blocks(entries),
            )[i].len() <= 10,
{
    lemma_groups_of_ten(planned_blocks(entries));
}

/// `n` partners fill `ceil(n / 10)` fields; field `i` lists partners
/// `10 i` up to `10 i + 10` (or the end), in the order given, so every field
/// holds ten partners but the last.
pub proof fn lemma_partner_fields(partners: Seq<Partner>)
    ensures
        partner_fields(partners).len() == (partners.len() + 9) / 10,
        forall|i: int|
            0 <= i < partner_fields(partners).len() ==> #[trigger] partner_fields(partners)[i]
                == join_lines(
                partners.subrange(
                    10 * i,
                    if 10 * i + 10 < partners.len() {
                        10 * i + 10
                    } else {
                        partners.len() as int
                    },
                ).map_values(|p: Partner| partner_line(p)),
            ),
{
    let lines = partners.map_values(|p: Partner| partner_line(p));
    lemma_groups_of_ten(lines);
    assert forall|i: int| 0 <= i < partner_fields(partners).len() implies #[trigger] partner_fields(
        partners,
    )[i] == join_lines(
        partners.subrange(
            10 * i,
            if 10 * i + 10 < partners.len() {
                10 * i + 10
            } else {
                partners.len() as int
            },
        ).map_values(|p: Partner| partner_line(p)),
    ) by {
        let hi = if 10 * i + 10 < partners.len() {
            10 * i + 10
        } else {
            partners.len() as int
        };
        assert(groups_of_ten(lines)[i] == lines.subrange(10 * i, hi));
        assert(lines.subrange(10 * i, hi) =~= partners.subrange(10 * i, hi).map_values(
            |p: Partner| partner_line(p),
        ));
    }
}

/// Formats the line that lists one partner.
pub fn format_partner_line(p: &Partner) -> (r: String)
    ensures
        r@ == partner_line(*p),
{
    let mut line = String::from_str("- [");
    line.append(p.display_name.as_str());
    line.append("](https://discord.gg/");
    line.append(p.invite_code.as_str());
    line.append(")");
    line
}

/// Joins lines with newlines.
pub fn join_with_newlines(lines: &Vec<String>) -> (r: String)
    ensures
        r@ == join_lines(lines@.map_values(|s: String| s@)),
{
    let ghost views = lines@.map_values(|s: String| s@);
    let mut joined = String::new();
    let mut i: usize = 0;
    while i < lines.len()
        invariant
            i <= lines.len(),
            views == lines@.map_values(|s: String| s@),
            joined@ == join_lines(views.take(i as int)),
        decreases lines.len() - i,
    {
        proof {
            let next = views.take(i + 1);
            assert(next.drop_last() =~= views.take(i as int));
            assert(next.last() == lines@[i as int]@);
            if i == 0 {
                assert(join_lines(views.take(0)) =~= Seq::<char>::empty());
            }
        }
        if i > 0 {
            joined.append("\n");
        }
        joined.append(lines[i].as_str());
        proof {
            if i == 0 {
                assert(joined@ =~= lines@[0]@);
            }
        }
        i = i + 1;
    }
    proof {
        assert(views.take(lines.len() as int) =~= views);
    }
    joined
}

/// The partner-list fields for a list of partners, in the given order.
pub fn format_partner_fields(partners: &Vec<Partner>) -> (r: Vec<String>)
    ensures
        r@.map_values(|f: String| f@) == partner_fields(partners@),
{
    let mut lines: Vec<String> = Vec::new();
    let mut i: usize = 0;
    while i < partners.len()
        invariant
            i <= partners.len(),
            lines@.map_values(|s: String| s@) == partners@.take(i as int).map_values(
                |p: Partner| partner_line(p),
            ),
        decreases partners.len() - i,
    {
        let line = format_partner_line(&partners[i]);
        let ghost before = lines@;
        lines.push(line);
        proof {
            assert(partners@.take(i + 1) =~= partners@.take(i as int).push(partners@[i as int]));
            assert(lines@.map_values(|s: String| s@) =~= before.map_values(|s: String| s@).push(
                line@,
            ));
            assert(partners@.take(i + 1).map_values(|p: Partner| partner_line(p))
                =~= partners@.take(i as int).map_values(|p: Partner| partner_line(p)).push(
                partner_line(partners@[i as int]),
            ));
        }
        i = i + 1;
    }
    proof {
        assert(partners@.take(i as int) =~= partners@);
    }
    let ghost line_views = lines@;
    let groups = group_in_tens(lines);
    proof {
        lemma_groups_of_ten_map(line_views, |s: String| s@);
    }
    let mut fields: Vec<String> = Vec::new();
    let mut k: usize = 0;
    while k < groups.len()
        invariant
            k <= groups.len(),
            groups@.map_values(|g: Vec<String>| g@) == groups_of_ten(line_views),
            groups_of_ten(line_views.map_values(|s: String| s@)) == groups_of_ten(
                line_views,
            ).map_values(|g: Seq<String>| g.map_values(|s: String| s@)),
            line_views.map_values(|s: String| s@) == partners@.map_values(
                |p: Partner| partner_line(p),
            ),
            fields@.map_values(|f: String| f@) == partner_fields(partners@).take(k as int),
        decreases groups.len() - k,
    {
        let field = join_with_newlines(&groups[k]);
        proof {
            assert(groups@.map_values(|g: Vec<String>| g@)[k as int] == groups@[k as int]@);
        }
        let ghost before = fields@;
        fields.push(field);
        proof {
            assert(fields@.map_values(|f: String| f@) =~= before.map_values(|f: String| f@).push(
                field@,
            ));
            assert(partner_fields(partners@).take(k + 1) =~= partner_fields(partners@).take(
                k as int,
            ).push(partner_fields(partners@)[k as int]));
        }
        k = k + 1;
    }
    proof {
        assert(groups@.map_values(|g: Vec<String>| g@).len() == groups.len());
        assert(partner_fields(partners@).take(k as int) =~= partner_fields(partners@));
    }
    fields
}

/// Renders one definition, with the partners of its category in the order
/// given.
pub fn render_block(def: &EmbedData, partners: &Vec<Partner>) -> (r: EmbedBlock)
    ensures
        r@ == block_of(*def, partners@),
{
    let description = if def.embed_text.as_str().is_empty() {
        None
    } else {
        Some(def.embed_text.clone())
    };
    let image = if def.image_url.as_str().is_empty() {
        None
    } else {
        Some(def.image_url.clone())
    };
    let fields = if def.partner_category_list.is_some() {
        format_partner_fields(partners)
    } else {
        Vec::new()
    };
    let r = EmbedBlock { description, image, color: def.color, fields };
    proof {
        if def.partner_category_list is None {
            assert(r.fields@.map_values(|f: String| f@) =~= Seq::<Seq<char>>::empty());
        }
    }
    r
}

/// Orders the partners of every entry by display name, leaving the
/// definitions and their order as they are.
pub fn sort_partner_lists(entries: Vec<PlanEntry>) -> (r: Vec<PlanEntry>)
    ensures
        r@.len() == entries@.len(),
        forall|i: int|
            0 <= i < r@.len() ==> {
                &&& (#[trigger] r@[i]).0 == entries@[i].0
                &&& sorted_by_name(r@[i].1@)
                &&& r@[i].1@.to_multiset() == entries@[i].1@.to_multiset()
            },
{
    let ghost all = entries@;
    let mut rest = entries;
    let mut out: Vec<PlanEntry> = Vec::new();
    while rest.len() > 0
        invariant
            out@.len() + rest@.len() == all.len(),
            rest@ == all.skip(out@.len() as int),
            forall|i: int|
                0 <= i < out@.len() ==> {
                    &&& (#[trigger] out@[i]).0 == all[i].0
                    &&& sorted_by_name(out@[i].1@)
                    &&& out@[i].1@.to_multiset() == all[i].1@.to_multiset()
                },
        decreases rest.len(),
    {
        let ghost k = out@.len() as int;
        let (def, partners) = rest.remove(0);
        proof {
            assert(all[k] == (def, partners));
            assert(rest@ =~= all.skip(k + 1));
        }
        let sorted = sort_by_display_name(partners);
        out.push((def, sorted));
    }
    out
}

/// Plans the listing: one block for each definition, in order, grouped into
/// pages of at most ten blocks. No definitions give no pages.
pub fn plan_pages(entries: &Vec<PlanEntry>) -> (r: Vec<Vec<EmbedBlock>>)
    ensures
        page_views(r@) == groups_of_ten(planned_blocks(entries@)),
{
    let mut blocks: Vec<EmbedBlock> = Vec::new();
    let mut i: usize = 0;
    while i < entries.len()
        invariant
            i <= entries.len(),
            blocks@.map_values(|b: EmbedBlock| b@) == planned_blocks(entries@).take(i as int),
        decreases entries.len() - i,
    {
        let block = render_block(&entries[i].0, &entries[i].1);
        let ghost before = blocks@;
        blocks.push(block);
        proof {
            assert(blocks@.map_values(|b: EmbedBlock| b@) =~= before.map_values(|b: EmbedBlock| b@).push(
                block@,
            ));
            assert(planned_blocks(entries@).take(i + 1) =~= planned_blocks(entries@).take(
                i as int,
            ).push(planned_blocks(entries@)[i as int]));
        }
        i = i + 1;
    }
    proof {
        assert(planned_blocks(entries@).take(i as int) =~= planned_blocks(entries@));
    }
    let ghost block_items = blocks@;
    let pages = group_in_tens(blocks);
    proof {
        lemma_groups_of_ten_map(block_items, |b: EmbedBlock| b@);
        assert(page_views(pages@) =~= pages@.map_values(|g: Vec<EmbedBlock>| g@).map_values(
            |g: Seq<EmbedBlock>| g.map_values(|b: EmbedBlock| b@),
        ));
    }
    pages
}

} // verus!
