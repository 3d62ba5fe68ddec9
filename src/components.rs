use crate::decimal::{decimal, decimal_string};
use crate::models::Partner;
use crate::pagination::{get_partners_for_page, page_options, SelectOption};
use vstd::prelude::*;
use vstd::string::*;

verus! {

/// How a button looks.
#[derive(Clone, Copy, Debug, PartialEq, Eq, Structural)]
pub enum ButtonStyle {
    Primary,
    Secondary,
    Danger,
}

/// A button of a message.
#[derive(Clone, Debug, PartialEq, Eq)]
pub struct Button {
    pub custom_id: String,
    pub label: String,
    pub style: ButtonStyle,
    pub disabled: bool,
}

/// A row of interactive components under a message.
#[derive(Clone, Debug, PartialEq, Eq)]
pub enum ActionRow {
    SelectMenu { custom_id: String, placeholder: String, options: Vec<SelectOption> },
    Buttons(Vec<Button>),
}

/// What a row shows.
pub enum RowView {
    SelectMenu {
        custom_id: Seq<char>,
        placeholder: Seq<char>,
        options: Seq<(Seq<char>, Seq<char>, bool)>,
    },
    Buttons(Seq<(Seq<char>, Seq<char>, ButtonStyle, bool)>),
}

impl View for Button {
    type V = (Seq<char>, Seq<char>, ButtonStyle, bool);

    open spec fn view(&self) -> (Seq<char>, Seq<char>, ButtonStyle, bool) {
        (self.custom_id@, self.label@, self.style, self.disabled)
    }
}

impl View for ActionRow {
    type V = RowView;

    open spec fn view(&self) -> RowView {
        match self {
            ActionRow::SelectMenu { custom_id, placeholder, options } => RowView::SelectMenu {
                custom_id: custom_id@,
                placeholder: placeholder@,
                options: options@.map_values(|o: SelectOption| o@),
            },
            ActionRow::Buttons(buttons) => RowView::Buttons(
                buttons@.map_values(|b: Button| b@),
            ),
        }
    }
}

/// The state of the form that removes a representative from a partner.
pub struct ComponentsData<'a> {
    pub partners: &'a [Partner],
    /// The representatives of the chosen partner: user and name.
    pub reps: &'a [(u64, String)],
    pub current_partner_page: usize,
    pub current_partner_id: &'a str,
    pub current_user_id: &'a str,
    pub partner_select_id: &'a str,
    pub rep_select_id: &'a str,
    pub submit_button_id: &'a str,
    pub cancel_button_id: &'a str,
}

/// The option that stands for one representative.
pub open spec fn rep_option(rep: (u64, String), current_user_id: Seq<char>) -> (
    Seq<char>,
    Seq<char>,
    bool,
) {
    (rep.1@, decimal(rep.0 as nat), decimal(rep.0 as nat) == current_user_id)
}

/// The rows of the form: the partner menu; the representative menu when
/// the chosen partner has representatives; then Submit, disabled until both
/// are chosen, and Cancel.
pub open spec fn form_rows(data: ComponentsData) -> Seq<RowView> {
    let partner_row = RowView::SelectMenu {
        custom_id: data.partner_select_id@,
        placeholder: "Partner"@,
        options: page_options(
            data.partners@,
            data.current_partner_page as nat,
            data.current_partner_id@,
        ),
    };
    let rep_row = RowView::SelectMenu {
        custom_id: data.rep_select_id@,
        placeholder: "Representative user"@,
        options: data.reps@.map_values(|r: (u64, String)| rep_option(r, data.current_user_id@)),
    };
    let buttons = RowView::Buttons(
        seq![
            (
                data.submit_button_id@,
                "Submit"@,
                ButtonStyle::Danger,
                data.current_partner_id@.len() == 0 || data.current_user_id@.len() == 0,
            ),
            (data.cancel_button_id@, "Cancel"@, ButtonStyle::Secondary, false),
        ],
    );
    if data.reps@.len() == 0 {
        seq![partner_row, buttons]
    } else {
        seq![partner_row, rep_row, buttons]
    }
}

/// Builds the rows of the representative-removal form.
pub fn components_to_display(component_data: ComponentsData) -> (r: Vec<ActionRow>)
    ensures
        r@.map_values(|row: ActionRow| row@) == form_rows(component_data),
{
    let ComponentsData {
        partners,
        reps,
        current_partner_page,
        current_partner_id,
        current_user_id,
        partner_select_id,
        rep_select_id,
        submit_button_id,
        cancel_button_id,
    } = component_data;

    let partner_select_options = get_partners_for_page(
        partners,
        current_partner_page,
        current_partner_id,
    );
    let current_user = String::from_str(current_user_id);
    let mut rep_select_options: Vec<SelectOption> = Vec::new();
    let mut i: usize = 0;
    while i < reps.len()
        invariant
            i <= reps@.len(),
            current_user@ == current_user_id@,
            rep_select_options@.map_values(|o: SelectOption| o@) == reps@.take(i as int).map_values(
                |r: (u64, String)| rep_option(r, current_user_id@),
            ),
        decreases reps@.len() - i,
    {
        let value = decimal_string(reps[i].0);
        let selected = value == current_user;
        let option = SelectOption { label: reps[i].1.clone(), value, default_selection: selected };
        let ghost before = rep_select_options@;
        rep_select_options.push(option);
        proof {
            assert(rep_select_options@.map_values(|o: SelectOption| o@) =~= before.map_values(
                |o: SelectOption| o@,
            ).push(option@));
            assert(reps@.take(i + 1).map_values(|r: (u64, String)| rep_option(r, current_user_id@))
                =~= reps@.take(i as int).map_values(
                |r: (u64, String)| rep_option(r, current_user_id@),
            ).push(rep_option(reps@[i as int], current_user_id@)));
        }
        i = i + 1;
    }
    proof {
        assert(reps@.take(i as int) =~= reps@);
    }

    let partner_row = ActionRow::SelectMenu {
        custom_id: String::from_str(partner_select_id),
        placeholder: String::from_str("Partner"),
        options: partner_select_options,
    };
    let submit_button = Button {
        custom_id: String::from_str(submit_button_id),
        label: String::from_str("Submit"),
        style: ButtonStyle::Danger,
        disabled: current_partner_id.is_empty() || current_user_id.is_empty(),
    };
    let cancel_button = Button {
        custom_id: String::from_str(cancel_button_id),
        label: String::from_str("Cancel"),
        style: ButtonStyle::Secondary,
        disabled: false,
    };
    let buttons_row = ActionRow::Buttons(vec![submit_button, cancel_button]);

    let mut components: Vec<ActionRow> = Vec::new();
    components.push(partner_row);
    if reps.len() > 0 {
        let rep_row = ActionRow::SelectMenu {
            custom_id: String::from_str(rep_select_id),
            placeholder: String::from_str("Representative user"),
            options: rep_select_options,
        };
        components.push(rep_row);
    }
    components.push(buttons_row);
    proof {
        let rows = components@.map_values(|row: ActionRow| row@);
        assert(rows =~= form_rows(component_data)) by {
            let bs = seq![submit_button, cancel_button];
            assert(bs.map_values(|b: Button| b@) =~= seq![submit_button@, cancel_button@]);
        }
    }
    components
}

} // verus!
