use crate::models::Partner;
use vstd::prelude::*;
use vstd::string::*;

verus! {

/// How many partners one page of a selection list shows.
pub const PARTNER_PAGE_LEN: usize = 20;

/// One entry of a selection list.
#[derive(Clone, Debug, PartialEq, Eq)]
pub struct SelectOption {
    pub label: String,
    pub value: String,
    pub default_selection: bool,
}

impl View for SelectOption {
    type V = (Seq<char>, Seq<char>, bool);

    open spec fn view(&self) -> (Seq<char>, Seq<char>, bool) {
        (self.label@, self.value@, self.default_selection)
    }
}

/// The last page number of a list of `len` partners (an empty list has
/// page 0).
pub open spec fn max_page_of(len: nat) -> nat {
    if len % 20 == 0 {
        if len / 20 == 0 {
            0
        } else {
            (len / 20 - 1) as nat
        }
    } else {
        len / 20
    }
}

/// Where page `page` starts in a list of `len` partners.
pub open spec fn page_start(len: nat, page: nat) -> nat {
    if page * 20 < len {
        page * 20
    } else {
        len
    }
}

pub open spec fn page_end(len: nat, page: nat) -> nat {
    if page_start(len, page) + 20 < len {
        page_start(len, page) + 20
    } else {
        len
    }
}

/// The option that stands for one partner.
pub open spec fn partner_option(p: Partner, default_id: Seq<char>) -> (Seq<char>, Seq<char>, bool) {
    (p.display_name@, p.partnership_id@, p.partnership_id@ == default_id)
}

/// The options of one page: a "previous" entry past the first page, the
/// page's partners, and a "next" entry before the last page.
pub open spec fn page_options(partners: Seq<Partner>, page: nat, default_id: Seq<char>) -> Seq<
    (Seq<char>, Seq<char>, bool),
> {
    if partners.len() == 0 {
        Seq::empty()
    } else {
        let prev: Seq<(Seq<char>, Seq<char>, bool)> = if page > 0 {
            seq![("Previous Page"@, "<"@, false)]
        } else {
            Seq::empty()
        };
        let next: Seq<(Seq<char>, Seq<char>, bool)> = if page < max_page_of(partners.len()) {
            seq![("Next Page"@, ">"@, false)]
        } else {
            Seq::empty()
        };
        prev + partners.subrange(
            page_start(partners.len(), page) as int,
            page_end(partners.len(), page) as int,
        ).map_values(|p: Partner| partner_option(p, default_id)) + next
    }
}

/// The highest page number of a partner list.
pub fn max_partner_page(partners: &[Partner]) -> (r: usize)
    ensures
        r == max_page_of(partners@.len()),
{
    let mut max_page = partners.len() / PARTNER_PAGE_LEN;
    if partners.len() % PARTNER_PAGE_LEN == 0 && max_page > 0 {
        max_page = max_page - 1;
    }
    max_page
}

/// The options of one page of a partner list; the partner whose id is
/// `default_selection_id` is preselected.
pub fn get_partners_for_page(partners: &[Partner], page_number: usize, default_selection_id: &str) -> (r:
    Vec<SelectOption>)
    ensures
        r@.map_values(|o: SelectOption| o@) == page_options(
            partners@,
            page_number as nat,
            default_selection_id@,
        ),
{
    if partners.len() == 0 {
        let r: Vec<SelectOption> = Vec::new();
        proof {
            assert(r@.map_values(|o: SelectOption| o@) =~= Seq::<(Seq<char>, Seq<char>, bool)>::empty());
        }
        return r;
    }
    let len = partners.len();
    let start = if page_number > len / PARTNER_PAGE_LEN {
        len
    } else if page_number * PARTNER_PAGE_LEN < len {
        page_number * PARTNER_PAGE_LEN
    } else {
        len
    };
    let end = if len - start > PARTNER_PAGE_LEN {
        start + PARTNER_PAGE_LEN
    } else {
        len
    };
    assert(start == page_start(len as nat, page_number as nat)) by (nonlinear_arith)
        requires
            start == (if page_number > len / 20 {
                len
            } else if page_number * 20 < len {
                (page_number * 20) as usize
            } else {
                len
            }),
    ;
    let default_id = String::from_str(default_selection_id);
    let mut options: Vec<SelectOption> = Vec::new();
    let ghost prev: Seq<(Seq<char>, Seq<char>, bool)> = if page_number > 0 {
        seq![("Previous Page"@, "<"@, false)]
    } else {
        Seq::empty()
    };
    if page_number > 0 {
        options.push(
            SelectOption {
                label: String::from_str("Previous Page"),
                value: String::from_str("<"),
                default_selection: false,
            },
        );
    }
    proof {
        assert(options@.map_values(|o: SelectOption| o@) =~= prev);
    }
    let mut i: usize = start;
    while i < end
        invariant
            start <= i <= end,
            end == page_end(len as nat, page_number as nat),
            start == page_start(len as nat, page_number as nat),
            len == partners@.len(),
            default_id@ == default_selection_id@,
            options@.map_values(|o: SelectOption| o@) == prev + partners@.subrange(
                start as int,
                i as int,
            ).map_values(|p: Partner| partner_option(p, default_selection_id@)),
        decreases end - i,
    {
        let ghost before = options@;
        let option = SelectOption {
            label: partners[i].display_name.clone(),
            value: partners[i].partnership_id.clone(),
            default_selection: partners[i].partnership_id == default_id,
        };
        options.push(option);
        proof {
            assert(options@.map_values(|o: SelectOption| o@) =~= before.map_values(
                |o: SelectOption| o@,
            ).push(option@));
            assert(partners@.subrange(start as int, i + 1).map_values(
                |p: Partner| partner_option(p, default_selection_id@),
            ) =~= partners@.subrange(start as int, i as int).map_values(
                |p: Partner| partner_option(p, default_selection_id@),
            ).push(partner_option(partners@[i as int], default_selection_id@)));
        }
        i = i + 1;
    }
    let ghost middle = options@.map_values(|o: SelectOption| o@);
    if page_number < max_partner_page(partners) {
        options.push(
            SelectOption {
                label: String::from_str("Next Page"),
                value: String::from_str(">"),
                default_selection: false,
            },
        );
    }
    proof {
        assert(options@.map_values(|o: SelectOption| o@) =~= page_options(
            partners@,
            page_number as nat,
            default_selection_id@,
        ));
    }
    options
}

} // verus!
