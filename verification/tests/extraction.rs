use libcurt::cut_yaml_ident_strings;
use libcurt::IdentRange;
use libcurt::Indicators;
use libcurt::YogurtYaml;

fn tokens(names: &[&str]) -> Vec<String> {
    names.iter().map(|s| s.to_string()).collect()
}

#[test]
fn test_cut_yaml() {
    let result = cut_yaml_ident_strings(tokens(&["ID"]), &"ID[Test]".to_string());
    assert_eq!(result.len(), 1);
}

#[test]
fn test_cut_yaml_distraction() {
    let result = cut_yaml_ident_strings(
        tokens(&["ID"]),
        &"other stuff ID[Test, TestContent: 3] more stuff".to_string(),
    );
    assert_eq!(result.len(), 1);
    assert_eq!(result[0].get_text().as_str(), "{ID: Test, TestContent: 3}");
    assert_eq!(result[0].get_start(), 12);
    assert_eq!(result[0].get_end(), 35);
}

#[test]
fn test_cut_yaml_ident_strings_distraction() {
    let result = cut_yaml_ident_strings(
        tokens(&["ID"]),
        &"other stuff ID[Test, TestContent: 3] more stuff".to_string(),
    );
    assert_eq!(result.len(), 1);
    assert_eq!(result[0].get_text().as_str(), "{ID: Test, TestContent: 3}");
    assert_eq!(result[0].get_start(), 12);
    assert_eq!(result[0].get_end(), 35);
}

#[test]
fn test_cut_yaml_multiple_entries() {
    let result = cut_yaml_ident_strings(tokens(&["ID"]), &"other stuff ID[Test, TestContent: 3] more\n ID[Test2, TestContent: 4] stuID[Test3, TestContent: a7ad]ff".to_string());
    assert_eq!(result.len(), 3);
    assert_eq!(result[0].get_text().as_str(), "{ID: Test, TestContent: 3}");
    assert_eq!(result[1].get_text().as_str(), "{ID: Test2, TestContent: 4}");
    assert_eq!(result[2].get_text().as_str(), "{ID: Test3, TestContent: a7ad}");
}

#[test]
fn test_cut_yaml_multiple_entries2() {
    let result = cut_yaml_ident_strings(tokens(&["ID"]), &"other stuff ID[Test, TestContent: 3] more\n ID[Test2, TestContent: 4] stuID[Test3, TestContent: a7ad]ff".to_string());
    assert_eq!(result.len(), 3);
    assert_eq!(result[0].get_text().as_str(), "{ID: Test, TestContent: 3}");
    assert_eq!(result[1].get_text().as_str(), "{ID: Test2, TestContent: 4}");
    assert_eq!(result[2].get_text().as_str(), "{ID: Test3, TestContent: a7ad}");
}

#[test]
fn test_cut_yaml_multiple_lines() {
    let result = cut_yaml_ident_strings(tokens(&["ID"]), &"other stuff ID[Test, \nTestContent: 3] more\n ID[Test2, \nTestContent: 4\n] stuID[Test3, TestContent: a7ad]ff".to_string());
    assert_eq!(result.len(), 3);
    assert_eq!(result[0].get_text().as_str(), "{ID: Test, \nTestContent: 3}");
    assert_eq!(result[0].get_start(), 12);
    assert_eq!(result[0].get_end(), 36);
    assert_eq!(result[1].get_text().as_str(), "{ID: Test2, \nTestContent: 4\n}");
    assert_eq!(result[2].get_text().as_str(), "{ID: Test3, TestContent: a7ad}");
}

#[test]
fn test_cut_yaml_many_id_multiple_entries() {
    let result = cut_yaml_ident_strings(tokens(&["ID", "REF", "ADD"]), &"other stuff ID[Test, TestContent: 3] more\n REF[Test, TestContent: 4] stuADD[Test3, TestContent: a7ad]ff".to_string());
    assert_eq!(result.len(), 3);
    assert_eq!(result[0].get_text().as_str(), "{ID: Test, TestContent: 3}");
    assert_eq!(result[1].get_text().as_str(), "{REF: Test, TestContent: 4}");
    assert_eq!(result[2].get_text().as_str(), "{ADD: Test3, TestContent: a7ad}");
}

#[test]
fn test_cut_yaml_nested() {
    let result = cut_yaml_ident_strings(tokens(&["ID", "REF", "ADD"]), &"other stuff ID[Test, \nTestContent: 3] more\n REF[Test2, \nTestContent: [4]\n] stuADD[Test3, TestContent: [[a,7],[a,d]]]ff".to_string());
    assert_eq!(result.len(), 3);
    assert_eq!(result[0].get_text().as_str(), "{ID: Test, \nTestContent: 3}");
    assert_eq!(result[1].get_text().as_str(), "{REF: Test2, \nTestContent: [4]\n}");
    assert_eq!(result[2].get_text().as_str(), "{ADD: Test3, TestContent: [[a,7],[a,d]]}");
}

#[test]
fn test_cut_yaml_escaped() {
    let result = cut_yaml_ident_strings(tokens(&["ID", "REF", "ADD"]), &r#"other stuff ID[Test, \nTestContent: ']3]]'] more\n REF[Test2, \nTestContent: [4]\n] stuADD[Test3, TestContent: [[a,7],[a,d]]]ff"#.to_string());
    assert_eq!(result.len(), 3);
    assert_eq!(result[0].get_text().as_str(), r#"{ID: Test, \nTestContent: ']3]]'}"#);
    assert_eq!(result[1].get_text().as_str(), r#"{REF: Test2, \nTestContent: [4]\n}"#);
    assert_eq!(result[2].get_text().as_str(), r#"{ADD: Test3, TestContent: [[a,7],[a,d]]}"#);
}

#[test]
fn test_cut_yaml_ident_strings_escaped() {
    let result = cut_yaml_ident_strings(tokens(&["ID", "REF", "ADD"]), &"other stuff ID[Test, \nTestContent: ']3]]'] more\n REF[Test2, \nTestContent: [\"4\"]\n] stuADD[Test3, TestContent: [[a,7],[a,d]]]ff".to_string());
    assert_eq!(result.len(), 3);
    assert_eq!(result[0].get_text().as_str(), "{ID: Test, \nTestContent: ']3]]'}");
    assert_eq!(result[1].get_text().as_str(), "{REF: Test2, \nTestContent: [\"4\"]\n}");
    assert_eq!(result[2].get_text().as_str(), r#"{ADD: Test3, TestContent: [[a,7],[a,d]]}"#);
}

#[test]
fn test_cut_yaml_ident_strings_fix() {
    let result = cut_yaml_ident_strings(
        tokens(&["ID", "REF"]),
        &r#"- ID[REQ, caption: "Requirements"]"#.to_string(),
    );
    assert_eq!(result.len(), 1);
    assert_eq!(result[0].get_text().as_str(), r#"{ID: REQ, caption: "Requirements"}"#);
}

#[test]
fn test_curt() {
    let test_data = &mut r#"other stuff ID[Test, \nTestContent: ']3]]'] more\n REF[Test2, \nTestContent: ["4"]\n] stuADD[Test3, TestContent: [[a,7],[a,d]]]"#.to_string();
    let mut curt = YogurtYaml::new_from_str(tokens(&["ID", "REF", "ADD"]));
    let result = curt.get_results();
    assert_eq!(result.len(), 0);
    curt.curt_clear(test_data);
    let result = curt.get_results();
    assert_eq!(result[0].get_text().as_str(), r#"{ID: Test, \nTestContent: ']3]]'}"#);
    assert_eq!(result[1].get_text().as_str(), r#"{REF: Test2, \nTestContent: ["4"]\n}"#);
    assert_eq!(result[2].get_text().as_str(), r#"{ADD: Test3, TestContent: [[a,7],[a,d]]}"#);
}

#[test]
fn test_tags() {
    let test_data =
        &mut "other stuff #Test,\n @more\n\n #Test2 @TestContent: more content\n".to_string();
    let mut indicator_lists = Vec::new();
    indicator_lists.push(Indicators::new(tokens(&["#", "@"]), IdentRange::Tag));
    let mut curt = YogurtYaml::new(&indicator_lists);
    let result = curt.get_results();
    assert_eq!(result.len(), 0);
    curt.curt_clear(test_data);
    let result = curt.get_results();
    assert_eq!(result.len(), 4);
    assert_eq!(result[0].get_text().as_str(), r#"{#Test}"#);
    assert_eq!(result[1].get_text().as_str(), r#"{@more}"#);
    assert_eq!(result[2].get_text().as_str(), r#"{#Test2}"#);
    assert_eq!(result[3].get_text().as_str(), r#"{@TestContent:  more content}"#);
}

#[test]
fn test_tags_empty() {
    let test_data =
        &mut "other stuff # Test,\n @ more\n\n ## Test2 @@ TestContent: more content\n".to_string();
    let mut indicator_lists = Vec::new();
    indicator_lists.push(Indicators::new(tokens(&["#", "@"]), IdentRange::Tag));
    let mut curt = YogurtYaml::new(&indicator_lists);
    curt.curt_clear(test_data);
    let result = curt.get_results();
    assert_eq!(result.len(), 0);
}

#[test]
fn test_curt_aggregate() {
    let test_data_part_a = &mut r#"other stuff ID[Test, \nTestContent: ']3]]'] more\n"#.to_string();
    let test_data_part_b = &mut r#"REF[Test2, \nTestContent: ["4"]\n] stuADD[Test3, TestContent: [[a,7],[a,d]]]ff"#.to_string();
    let mut curt = YogurtYaml::new_from_str(tokens(&["ID", "REF", "ADD"]));
    let result = curt.get_results();
    assert_eq!(result.len(), 0);
    curt.curt(test_data_part_a);
    let result = curt.get_results();
    assert_eq!(result.len(), 1);
    curt.curt_clear(test_data_part_b);
    let result = curt.get_results();
    assert_eq!(result[0].get_text().as_str(), r#"{ID: Test, \nTestContent: ']3]]'}"#);
    assert_eq!(result[1].get_text().as_str(), r#"{REF: Test2, \nTestContent: ["4"]\n}"#);
    assert_eq!(result[2].get_text().as_str(), r#"{ADD: Test3, TestContent: [[a,7],[a,d]]}"#);
}

#[test]
fn test_curt_aggregate_multiline_id() {
    let test_data_part_a = &mut r#"other stuff ID[Test, \n"#.to_string();
    let test_data_part_b = &mut r#"TestContent: ']3]]'] more\n"#.to_string();
    let test_data_part_c = &mut r#"REF[Test2, \nTestContent: ["4"]\n] stuADD[Test3, TestContent: [[a,7],[a,d]]]ff"#.to_string();
    let mut curt = YogurtYaml::new_from_str(tokens(&["ID", "REF", "ADD"]));
    let result = curt.get_results();
    assert_eq!(result.len(), 0);
    curt.curt_clear(test_data_part_a);
    let mut data = test_data_part_a.to_owned() + test_data_part_b;
    curt.curt_clear(&mut data);
    let result = curt.get_results();
    assert_eq!(result.len(), 1);
    curt.curt_clear(test_data_part_c);
    let result = curt.get_results();
    assert_eq!(result[0].get_text().as_str(), r#"{ID: Test, \nTestContent: ']3]]'}"#);
    assert_eq!(result[1].get_text().as_str(), r#"{REF: Test2, \nTestContent: ["4"]\n}"#);
    assert_eq!(result[2].get_text().as_str(), r#"{ADD: Test3, TestContent: [[a,7],[a,d]]}"#);
}
