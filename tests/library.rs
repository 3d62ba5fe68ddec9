use partner_sync::{
    components_to_display, db_url, decimal_string, get_partners_for_page, guild_is_set_up,
    max_partner_page, name_le_exec, next_sequence_number, remove_definition, renumber, ActionRow, ButtonStyle,
    CommandErrorValue, ComponentsData, ConfigDocument, DatabaseArgs, EmbedData, Partner,
};

fn definition(id: &str, seq: i32) -> EmbedData {
    EmbedData {
        id: id.to_string(),
        guild: 1,
        embed_part_sequence_number: seq,
        embed_name: format!("name {}", id),
        partner_category_list: None,
        embed_text: "t".to_string(),
        image_url: String::new(),
        color: Some(3),
    }
}

#[test]
fn deleting_sequence_two_of_four_renumbers_one_to_three() {
    let mut defs = vec![definition("a", 1), definition("b", 2), definition("c", 3), definition("d", 4)];
    let removed = remove_definition(&mut defs, 1);
    assert_eq!(removed.id, "b");
    let seqs: Vec<i32> = defs.iter().map(|d| d.embed_part_sequence_number).collect();
    assert_eq!(seqs, vec![1, 2, 3]);
    let ids: Vec<&str> = defs.iter().map(|d| d.id.as_str()).collect();
    assert_eq!(ids, vec!["a", "c", "d"]);
    assert_eq!(defs[1].embed_name, "name c");
}

#[test]
fn renumber_follows_list_order() {
    let mut defs = vec![definition("x", 3), definition("y", 1), definition("z", 2)];
    renumber(&mut defs);
    let seqs: Vec<i32> = defs.iter().map(|d| d.embed_part_sequence_number).collect();
    assert_eq!(seqs, vec![1, 2, 3]);
    assert_eq!(defs[0].id, "x");
    let mut empty: Vec<EmbedData> = Vec::new();
    renumber(&mut empty);
    assert!(empty.is_empty());
}

fn partners(n: usize) -> Vec<Partner> {
    (0..n)
        .map(|i| Partner {
            partnership_id: format!("id{}", i),
            guild: 1,
            category: "c".to_string(),
            partner_guild: 0,
            display_name: format!("Partner {}", i),
            invite_code: "x".to_string(),
        })
        .collect()
}

#[test]
fn last_page_numbers() {
    assert_eq!(max_partner_page(&partners(0)), 0);
    assert_eq!(max_partner_page(&partners(1)), 0);
    assert_eq!(max_partner_page(&partners(20)), 0);
    assert_eq!(max_partner_page(&partners(21)), 1);
    assert_eq!(max_partner_page(&partners(40)), 1);
    assert_eq!(max_partner_page(&partners(41)), 2);
}

#[test]
fn page_options_with_navigation() {
    let list = partners(25);
    let first = get_partners_for_page(&list, 0, "id3");
    assert_eq!(first.len(), 21);
    assert_eq!(first[0].label, "Partner 0");
    assert_eq!(first[0].value, "id0");
    assert!(first[3].default_selection);
    assert!(!first[4].default_selection);
    assert_eq!(first[20].label, "Next Page");
    assert_eq!(first[20].value, ">");

    let second = get_partners_for_page(&list, 1, "");
    assert_eq!(second.len(), 6);
    assert_eq!(second[0].label, "Previous Page");
    assert_eq!(second[0].value, "<");
    assert_eq!(second[1].value, "id20");
    assert_eq!(second[5].value, "id24");

    let beyond = get_partners_for_page(&list, 7, "");
    assert_eq!(beyond.len(), 1);
    assert_eq!(beyond[0].value, "<");

    assert!(get_partners_for_page(&[], 0, "").is_empty());
}

#[test]
fn removal_form_rows() {
    let list = partners(3);
    let reps = vec![(42u64, "Alice".to_string()), (7u64, "Bob".to_string())];
    let rows = components_to_display(ComponentsData {
        partners: &list,
        reps: &reps,
        current_partner_page: 0,
        current_partner_id: "id1",
        current_user_id: "7",
        partner_select_id: "ps",
        rep_select_id: "rs",
        submit_button_id: "sb",
        cancel_button_id: "cb",
    });
    assert_eq!(rows.len(), 3);
    match &rows[1] {
        ActionRow::SelectMenu { custom_id, placeholder, options } => {
            assert_eq!(custom_id, "rs");
            assert_eq!(placeholder, "Representative user");
            assert_eq!(options[0].value, "42");
            assert!(!options[0].default_selection);
            assert_eq!(options[1].label, "Bob");
            assert!(options[1].default_selection);
        }
        other => panic!("unexpected row {:?}", other),
    }
    match &rows[2] {
        ActionRow::Buttons(buttons) => {
            assert_eq!(buttons[0].custom_id, "sb");
            assert_eq!(buttons[0].style, ButtonStyle::Danger);
            assert!(!buttons[0].disabled);
            assert_eq!(buttons[1].label, "Cancel");
        }
        other => panic!("unexpected row {:?}", other),
    }

    let no_reps: Vec<(u64, String)> = Vec::new();
    let rows = components_to_display(ComponentsData {
        partners: &list,
        reps: &no_reps,
        current_partner_page: 0,
        current_partner_id: "",
        current_user_id: "",
        partner_select_id: "ps",
        rep_select_id: "rs",
        submit_button_id: "sb",
        cancel_button_id: "cb",
    });
    assert_eq!(rows.len(), 2);
    match &rows[0] {
        ActionRow::SelectMenu { placeholder, options, .. } => {
            assert_eq!(placeholder, "Partner");
            assert_eq!(options.len(), 3);
        }
        other => panic!("unexpected row {:?}", other),
    }
    match &rows[1] {
        ActionRow::Buttons(buttons) => assert!(buttons[0].disabled),
        other => panic!("unexpected row {:?}", other),
    }
}

fn config(port: Option<u16>) -> ConfigDocument {
    ConfigDocument {
        discord_bot_token: "token".to_string(),
        database: DatabaseArgs {
            host: "db.local".to_string(),
            port,
            username: "bot".to_string(),
            password: "pw".to_string(),
            database: "partners".to_string(),
        },
    }
}

#[test]
fn database_url_with_and_without_port() {
    assert_eq!(db_url(&config(Some(5432))), "postgres://bot:pw@db.local:5432/partners");
    assert_eq!(db_url(&config(None)), "postgres://bot:pw@db.local/partners");
    assert_eq!(db_url(&config(Some(0))), "postgres://bot:pw@db.local:0/partners");
}

#[test]
fn decimal_digits() {
    assert_eq!(decimal_string(0), "0");
    assert_eq!(decimal_string(7), "7");
    assert_eq!(decimal_string(10), "10");
    assert_eq!(decimal_string(1234567890), "1234567890");
    assert_eq!(decimal_string(u64::MAX), u64::MAX.to_string());
}

#[test]
fn set_up_check_and_error_texts() {
    assert!(guild_is_set_up(1));
    assert!(!guild_is_set_up(0));
    assert_eq!(CommandErrorValue::BadGuild.message(), "expected guild in command data");
    assert_eq!(CommandErrorValue::WrongGuild.message(), "value was for the wrong guild");
}

#[test]
fn name_order() {
    assert!(name_le_exec("abc", "abd"));
    assert!(!name_le_exec("abd", "abc"));
    assert!(name_le_exec("ab", "abc"));
    assert!(!name_le_exec("abc", "ab"));
    assert!(name_le_exec("", ""));
    assert!(name_le_exec("Z", "a"));
    assert!(name_le_exec("é", "ê"));
}

#[test]
fn new_definition_number_follows_the_highest() {
    assert_eq!(next_sequence_number(None), Some(1));
    assert_eq!(next_sequence_number(Some(4)), Some(5));
    assert_eq!(next_sequence_number(Some(i32::MAX)), None);
}
