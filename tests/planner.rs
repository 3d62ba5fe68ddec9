use partner_sync::{
    format_partner_line, group_in_tens, plan_pages, render_block, sort_by_display_name,
    sort_partner_lists, EmbedData, Partner, PlanEntry,
};

fn definition(n: i32, text: &str, category: Option<&str>) -> EmbedData {
    EmbedData {
        id: format!("def{}", n),
        guild: 1,
        embed_part_sequence_number: n,
        embed_name: format!("name{}", n),
        partner_category_list: category.map(|c| c.to_string()),
        embed_text: text.to_string(),
        image_url: String::new(),
        color: None,
    }
}

fn partner(name: &str, code: &str) -> Partner {
    Partner {
        partnership_id: format!("id-{}", name),
        guild: 1,
        category: "cat".to_string(),
        partner_guild: 99,
        display_name: name.to_string(),
        invite_code: code.to_string(),
    }
}

#[test]
fn page_count_is_ceiling_of_tenths_and_order_is_kept() {
    for n in [1usize, 9, 10, 11, 20, 25] {
        let entries: Vec<PlanEntry> = (1..=n as i32)
            .map(|i| (definition(i, &format!("text {}", i), None), Vec::new()))
            .collect();
        let pages = plan_pages(&entries);
        assert_eq!(pages.len(), (n + 9) / 10);
        let texts: Vec<String> = pages
            .iter()
            .flatten()
            .map(|b| b.description.clone().unwrap())
            .collect();
        let expected: Vec<String> = (1..=n).map(|i| format!("text {}", i)).collect();
        assert_eq!(texts, expected);
        for page in &pages {
            assert!(!page.is_empty() && page.len() <= 10);
        }
    }
}

#[test]
fn twenty_five_definitions_fill_pages_of_ten_ten_five() {
    let entries: Vec<PlanEntry> = (1..=25)
        .map(|i| (definition(i, "x", None), Vec::new()))
        .collect();
    let sizes: Vec<usize> = plan_pages(&entries).iter().map(|p| p.len()).collect();
    assert_eq!(sizes, vec![10, 10, 5]);
}

#[test]
fn no_definitions_plan_no_pages() {
    let entries: Vec<PlanEntry> = Vec::new();
    assert!(plan_pages(&entries).is_empty());
}

#[test]
fn partner_line_format() {
    let line = format_partner_line(&partner("Cool Server", "abc123"));
    assert_eq!(line, "- [Cool Server](https://discord.gg/abc123)");
}

#[test]
fn twenty_five_partners_give_fields_of_ten_ten_five_in_name_order() {
    // Names inserted in a scrambled order.
    let mut partners: Vec<Partner> = Vec::new();
    for i in [7, 3, 24, 0, 12, 18, 1, 9, 22, 15, 4, 11, 20, 2, 16, 6, 23, 13, 8, 19, 5, 21, 10, 14, 17] {
        partners.push(partner(&format!("Server {:02}", i), &format!("c{}", i)));
    }
    let entries = sort_partner_lists(vec![(definition(1, "Partners", Some("cat")), partners)]);
    let block = render_block(&entries[0].0, &entries[0].1);
    assert_eq!(block.fields.len(), 3);
    let counts: Vec<usize> = block.fields.iter().map(|f| f.lines().count()).collect();
    assert_eq!(counts, vec![10, 10, 5]);
    let all_lines: Vec<String> = block.fields.iter().flat_map(|f| f.lines().map(|l| l.to_string())).collect();
    let expected: Vec<String> = (0..25)
        .map(|i| format!("- [Server {:02}](https://discord.gg/c{})", i, i))
        .collect();
    assert_eq!(all_lines, expected);
    assert!(!block.fields[0].ends_with('\n'));
}

#[test]
fn block_leaves_out_empty_text_and_image() {
    let mut def = definition(1, "", None);
    def.color = Some(0x00ff00);
    let block = render_block(&def, &Vec::new());
    assert_eq!(block.description, None);
    assert_eq!(block.image, None);
    assert_eq!(block.color, Some(0x00ff00));
    assert!(block.fields.is_empty());

    let mut def = definition(2, "hello", None);
    def.image_url = "https://example.com/a.png".to_string();
    let block = render_block(&def, &vec![partner("A", "a")]);
    assert_eq!(block.description.as_deref(), Some("hello"));
    assert_eq!(block.image.as_deref(), Some("https://example.com/a.png"));
    // Without a category, partners are not listed.
    assert!(block.fields.is_empty());
}

#[test]
fn bound_category_without_partners_has_no_fields() {
    let block = render_block(&definition(1, "t", Some("cat")), &Vec::new());
    assert!(block.fields.is_empty());
}

#[test]
fn sort_orders_by_character_code() {
    let sorted = sort_by_display_name(vec![
        partner("beta", "1"),
        partner("Alpha", "2"),
        partner("alpha", "3"),
        partner("al", "4"),
    ]);
    let names: Vec<&str> = sorted.iter().map(|p| p.display_name.as_str()).collect();
    assert_eq!(names, vec!["Alpha", "al", "alpha", "beta"]);
}

#[test]
fn groups_of_ten_keep_items_in_order() {
    let groups = group_in_tens((0..21).collect::<Vec<u32>>());
    assert_eq!(groups.len(), 3);
    assert_eq!(groups[0], (0..10).collect::<Vec<u32>>());
    assert_eq!(groups[1], (10..20).collect::<Vec<u32>>());
    assert_eq!(groups[2], vec![20]);
    assert!(group_in_tens(Vec::<u32>::new()).is_empty());
}
