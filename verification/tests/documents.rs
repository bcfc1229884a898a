use lurelands_server::document::{
    extract_json_number, get_progress_count, parse_item_reward, read_array_of_objects,
    read_nested_object, set_progress_count, validate_quest_requirements,
};

#[test]
fn number_is_read_by_key() {
    assert_eq!(extract_json_number("{\"gold\": 50}", "gold"), Some(50));
    assert_eq!(extract_json_number("{\"gold\":50}", "gold"), Some(50));
    assert_eq!(extract_json_number("{\"a\":1,\"b\":22,\"c\":333}", "b"), Some(22));
    assert_eq!(extract_json_number("{\"gold\":   7 }", "gold"), Some(7));
    assert_eq!(extract_json_number("{\"gold\":007}", "gold"), Some(7));
    assert_eq!(extract_json_number("{\"gold\":0}", "gold"), Some(0));
}

#[test]
fn number_is_absent_where_key_or_digits_are_missing() {
    assert_eq!(extract_json_number("{}", "gold"), None);
    assert_eq!(extract_json_number("", "gold"), None);
    assert_eq!(extract_json_number("{\"gold\": \"50\"}", "gold"), None);
    assert_eq!(extract_json_number("{\"gold\": -5}", "gold"), None);
    assert_eq!(extract_json_number("{\"gold\"}", "gold"), None);
    assert_eq!(extract_json_number("{\"silver\": 5}", "gold"), None);
    assert_eq!(extract_json_number("{gold: 5}", "gold"), None);
}

#[test]
fn number_beyond_u32_is_absent() {
    assert_eq!(extract_json_number("{\"n\":4294967295}", "n"), Some(u32::MAX));
    assert_eq!(extract_json_number("{\"n\":4294967296}", "n"), None);
    assert_eq!(extract_json_number("{\"n\":99999999999999999999999}", "n"), None);
}

#[test]
fn number_follows_the_first_colon_after_the_first_key() {
    assert_eq!(extract_json_number("{\"a\" x : 3}", "a"), Some(3));
    assert_eq!(extract_json_number("{\"a\":1,\"a\":2}", "a"), Some(1));
    assert_eq!(extract_json_number("{\"fish\": {\"a\": 4}}", "fish"), None);
    assert_eq!(extract_json_number("{\"total_fish\": 2}", "fish"), None);
}

#[test]
fn progress_count_is_zero_on_miss() {
    assert_eq!(get_progress_count("{}", "total"), 0);
    assert_eq!(get_progress_count("{\"total\":3}", "total"), 3);
    assert_eq!(get_progress_count("{\"total\":\"x\"}", "total"), 0);
    assert_eq!(get_progress_count("garbage", "total"), 0);
}

#[test]
fn number_is_added_to_the_empty_document() {
    assert_eq!(set_progress_count("{}", "total", 1), "{\"total\":1}");
    assert_eq!(set_progress_count("{}", "fish_pond_1", 0), "{\"fish_pond_1\":0}");
}

#[test]
fn number_is_appended_before_the_closing_brace() {
    assert_eq!(set_progress_count("{\"a\":1}", "b", 2), "{\"a\":1,\"b\":2}");
    assert_eq!(
        set_progress_count("{\"a\":1,\"b\":2}", "max_rarity", 3),
        "{\"a\":1,\"b\":2,\"max_rarity\":3}"
    );
}

#[test]
fn number_is_replaced_in_place() {
    assert_eq!(set_progress_count("{\"a\":1,\"b\":2}", "a", 10), "{\"a\":10,\"b\":2}");
    assert_eq!(set_progress_count("{\"a\":1,\"b\":2}", "b", 4294967295), "{\"a\":1,\"b\":4294967295}");
    assert_eq!(set_progress_count("{\"a\" :  12 ,\"b\":2}", "a", 3), "{\"a\":3 ,\"b\":2}");
    assert_eq!(set_progress_count("{\"a\":\"x\"}", "a", 3), "{\"a\":3\"x\"}");
}

#[test]
fn document_without_closing_brace_is_left_alone() {
    assert_eq!(set_progress_count("", "a", 1), "");
    assert_eq!(set_progress_count("{\"b\":1", "a", 1), "{\"b\":1");
    assert_eq!(set_progress_count("{\"a\"}", "a", 1), "{\"a\",\"a\":1}");
}

#[test]
fn written_number_reads_back() {
    let mut doc = String::from("{}");
    for (key, value) in [("fish_pond_1", 1u32), ("total", 1), ("max_rarity", 2), ("total", 2), ("fish_pond_1", 40)] {
        doc = set_progress_count(&doc, key, value);
        assert_eq!(extract_json_number(&doc, key), Some(value));
    }
    assert_eq!(doc, "{\"fish_pond_1\":40,\"total\":2,\"max_rarity\":2}");
}

#[test]
fn nested_object_is_read_up_to_the_first_closing_brace() {
    assert_eq!(
        read_nested_object("{\"fish\": {\"fish_pond_1\": 2}, \"total_fish\": 5}", "fish"),
        Some("\"fish_pond_1\": 2".to_string())
    );
    assert_eq!(read_nested_object("{\"fish\": {}}", "fish"), Some(String::new()));
    assert_eq!(read_nested_object("{\"fish\": {\"a\": {\"b\": 1}}}", "fish"), Some("\"a\": {\"b\": 1".to_string()));
    assert_eq!(read_nested_object("{\"total_fish\": 5}", "fish"), None);
    assert_eq!(read_nested_object("\"fish\": 3", "fish"), None);
    assert_eq!(read_nested_object("\"fish\": {", "fish"), None);
}

#[test]
fn array_of_objects_is_read_by_brace_depth() {
    let doc = "{\"gold\": 100, \"items\": [{\"item_id\": \"pole_2\", \"quantity\": 1}, {\"item_id\": \"lure_1\", \"meta\": {\"x\": 1}}]}";
    assert_eq!(
        read_array_of_objects(doc, "items"),
        vec![
            "{\"item_id\": \"pole_2\", \"quantity\": 1}".to_string(),
            "{\"item_id\": \"lure_1\", \"meta\": {\"x\": 1}}".to_string(),
        ]
    );
    assert_eq!(read_array_of_objects("{\"items\": []}", "items"), Vec::<String>::new());
    assert_eq!(read_array_of_objects("{\"gold\": 1}", "items"), Vec::<String>::new());
    assert_eq!(read_array_of_objects("{\"items\": [{\"a\":1}", "items"), Vec::<String>::new());
    assert_eq!(read_array_of_objects("{\"items\": [}{\"a\":1}{{\"b\":2}}]}", "items"), vec!["{\"b\":2}".to_string()]);
}

#[test]
fn reward_item_is_parsed() {
    assert_eq!(
        parse_item_reward("{\"item_id\": \"pole_2\", \"quantity\": 3}"),
        (Some("pole_2".to_string()), 3)
    );
    assert_eq!(parse_item_reward("{\"item_id\":\"lure_1\"}"), (Some("lure_1".to_string()), 1));
    assert_eq!(parse_item_reward("{\"quantity\": 3}"), (None, 3));
    assert_eq!(parse_item_reward("{\"item_id\": 7}"), (None, 1));
    assert_eq!(parse_item_reward("{\"item_id\": \"open"), (None, 1));
    assert_eq!(parse_item_reward("{\"item_id\": \"\"}"), (Some(String::new()), 1));
}

#[test]
fn empty_requirements_are_always_met() {
    for progress in ["{}", "", "garbage", "{\"total\":0}", "{\"fish\": {\"a\": 1}}"] {
        assert!(validate_quest_requirements("{}", progress), "{}", progress);
    }
}

#[test]
fn gate_closes_on_missing_data() {
    assert!(!validate_quest_requirements("{\"total_fish\":5}", "{}"));
    assert!(!validate_quest_requirements("{\"min_rarity\": 3}", "{}"));
    assert!(!validate_quest_requirements("{\"fish\": {\"fish_pond_1\": 1}}", "{}"));
    assert!(!validate_quest_requirements("{\"total_fish\":5}", "{\"total\":\"many\"}"));
}

#[test]
fn total_and_rarity_clauses() {
    assert!(validate_quest_requirements("{\"total_fish\": 2}", "{\"total\":2}"));
    assert!(validate_quest_requirements("{\"total_fish\": 2}", "{\"total\":3}"));
    assert!(!validate_quest_requirements("{\"total_fish\": 2}", "{\"total\":1}"));
    assert!(validate_quest_requirements("{\"min_rarity\": 3}", "{\"max_rarity\":3}"));
    assert!(!validate_quest_requirements("{\"min_rarity\": 3}", "{\"max_rarity\":2}"));
    assert!(validate_quest_requirements("{\"total_fish\": 5, \"min_rarity\": 2}", "{\"total\":5,\"max_rarity\":2}"));
    assert!(!validate_quest_requirements("{\"total_fish\": 5, \"min_rarity\": 2}", "{\"total\":5,\"max_rarity\":1}"));
    assert!(!validate_quest_requirements("{\"total_fish\": 5, \"min_rarity\": 2}", "{\"total\":4,\"max_rarity\":3}"));
}

#[test]
fn fish_clause() {
    let requirements = "{\"fish\": {\"fish_pond_1\": 1, \"fish_pond_2\": 2}}";
    assert!(validate_quest_requirements(requirements, "{\"fish_pond_1\":1,\"fish_pond_2\":2,\"total\":3}"));
    assert!(validate_quest_requirements(requirements, "{\"fish_pond_1\":4,\"fish_pond_2\":2}"));
    assert!(!validate_quest_requirements(requirements, "{\"fish_pond_1\":1,\"fish_pond_2\":1}"));
    assert!(!validate_quest_requirements(requirements, "{\"fish_pond_2\":2}"));
    assert!(validate_quest_requirements("{\"fish\": {}}", "{}"));
    assert!(validate_quest_requirements("{\"fish\": {\"fish_pond_1\": x}}", "{}"));
    assert!(validate_quest_requirements("{\"fish\": {\"fish_pond_1\": +1}}", "{\"fish_pond_1\":1}"));
    assert!(validate_quest_requirements("{\"fish\": {fish_pond_1, ,}}", "{}"));
}

#[test]
fn stored_number_changes_no_other_key() {
    let one = set_progress_count("{}", "fish_pond_1", 3);
    let two = set_progress_count(&one, "total", 5);
    let three = set_progress_count(&two, "max_rarity", 2);
    assert_eq!(three, "{\"fish_pond_1\":3,\"total\":5,\"max_rarity\":2}");
    let first = set_progress_count(&three, "fish_pond_1", 10);
    assert_eq!(first, "{\"fish_pond_1\":10,\"total\":5,\"max_rarity\":2}");
    let middle = set_progress_count(&first, "total", 4_000_000_000);
    assert_eq!(middle, "{\"fish_pond_1\":10,\"total\":4000000000,\"max_rarity\":2}");
    let last = set_progress_count(&middle, "max_rarity", 0);
    assert_eq!(last, "{\"fish_pond_1\":10,\"total\":4000000000,\"max_rarity\":0}");
    assert_eq!(get_progress_count(&last, "fish_pond_1"), 10);
    assert_eq!(get_progress_count(&last, "total"), 4_000_000_000);
    assert_eq!(get_progress_count(&last, "max_rarity"), 0);
    assert_eq!(extract_json_number(&last, "fish_pond_2"), None);
}

#[test]
fn key_inside_a_longer_key_is_told_apart() {
    let doc = set_progress_count(&set_progress_count("{}", "fish_pond_10", 7), "fish_pond_1", 2);
    assert_eq!(doc, "{\"fish_pond_10\":7,\"fish_pond_1\":2}");
    assert_eq!(get_progress_count(&doc, "fish_pond_1"), 2);
    assert_eq!(get_progress_count(&doc, "fish_pond_10"), 7);
    assert_eq!(get_progress_count(&doc, "pond_1"), 0);
    assert_eq!(get_progress_count(&doc, "fish_pond"), 0);
}
