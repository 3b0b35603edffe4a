use libcurt::cut_yaml_ident_strings;
use libcurt::IdentRange;
use libcurt::Indicators;
use libcurt::Result;
use libcurt::YogurtYaml;

fn tokens(names: &[&str]) -> Vec<String> {
    names.iter().map(|s| s.to_string()).collect()
}

#[test]
fn test_determinism() {
    let text = "a ID[x, y: [1,2]] b ID[z] c";
    let first = cut_yaml_ident_strings(tokens(&["ID"]), text);
    let second = cut_yaml_ident_strings(tokens(&["ID"]), text);
    assert_eq!(first.len(), second.len());
    for (a, b) in first.iter().zip(second.iter()) {
        assert_eq!(a.get_text(), b.get_text());
        assert_eq!(a.get_start(), b.get_start());
        assert_eq!(a.get_end(), b.get_end());
    }
}

#[test]
fn test_nesting_balance() {
    let result = cut_yaml_ident_strings(tokens(&["ID"]), "ID[a[b]c]");
    assert_eq!(result.len(), 1);
    assert_eq!(result[0].get_text().as_str(), "{ID: a[b]c}");
}

#[test]
fn test_quote_insensitivity() {
    let result = cut_yaml_ident_strings(tokens(&["ID"]), "ID[a, x: ']3]]']");
    assert_eq!(result.len(), 1);
    assert_eq!(result[0].get_text().as_str(), "{ID: a, x: ']3]]'}");
}

#[test]
fn test_escape_inside_quote() {
    let result = cut_yaml_ident_strings(tokens(&["ID"]), r#"ID[a: '\'x']"#);
    assert_eq!(result.len(), 1);
    assert_eq!(result[0].get_text().as_str(), r#"{ID: a: '\'x'}"#);
}

#[test]
fn test_non_match_rejection() {
    let result = cut_yaml_ident_strings(tokens(&["ID"]), "ID stuff IDx then ID[ok] end");
    assert_eq!(result.len(), 1);
    assert_eq!(result[0].get_text().as_str(), "{ID: ok}");

    let none = cut_yaml_ident_strings(tokens(&["ID"]), "a bare ID occurrence");
    assert_eq!(none.len(), 0);
}

#[test]
fn test_empty_input() {
    let result = cut_yaml_ident_strings(tokens(&["ID"]), "");
    assert_eq!(result.len(), 0);
}

#[test]
fn test_overlapping_token_restart() {
    // The mismatching character may itself start a new match: in "IIDx ID[a]"
    // the second 'I' restarts the token after the first partial match fails.
    let result = cut_yaml_ident_strings(tokens(&["ID"]), "IID[a]");
    assert_eq!(result.len(), 1);
    assert_eq!(result[0].get_text().as_str(), "{ID: a}");
}

#[test]
fn test_other_delimiter_kinds() {
    let mut lists = Vec::new();
    lists.push(Indicators::new(tokens(&["A"]), IdentRange::Closures));
    lists.push(Indicators::new(tokens(&["B"]), IdentRange::Crickets));
    lists.push(Indicators::new(tokens(&["C"]), IdentRange::Rounds));
    let mut curt = YogurtYaml::new(&lists);
    let mut data = "x A{k: v} y B<1<2>3> z C(w) end".to_string();
    curt.curt_clear(&mut data);
    let result = curt.get_results();
    assert_eq!(result.len(), 3);
    assert_eq!(result[0].get_text().as_str(), "{A: k: v}");
    assert_eq!(result[1].get_text().as_str(), "{B: 1<2>3}");
    assert_eq!(result[2].get_text().as_str(), "{C: w}");
    assert_eq!(data.as_str(), "");
}

#[test]
fn test_tag_minimum_length() {
    let mut lists = Vec::new();
    lists.push(Indicators::new(tokens(&["#"]), IdentRange::Tag));
    let mut curt = YogurtYaml::new(&lists);
    let mut data = "x #ab, y # c\n".to_string();
    curt.curt_clear(&mut data);
    let result = curt.get_results();
    assert_eq!(result.len(), 1);
    assert_eq!(result[0].get_text().as_str(), "{#ab}");
}

#[test]
fn test_get_print_offsets() {
    let result = cut_yaml_ident_strings(
        tokens(&["ID"]),
        "other stuff ID[Test, TestContent: 3] more stuff",
    );
    assert_eq!(result.len(), 1);
    assert_eq!(result[0].get_print().as_str(), "{ID: Test, TestContent: 3} at 12 -> 35");
}

#[test]
fn test_result_accessors() {
    let result = Result::new("{ID: x}".to_string(), 4, 10);
    assert_eq!(result.get_text().as_str(), "{ID: x}");
    assert_eq!(result.get_start(), 4);
    assert_eq!(result.get_end(), 10);
    assert_eq!(result.get_print().as_str(), "{ID: x} at 4 -> 10");
}

#[test]
fn test_is_open_and_reset_open() {
    let mut curt = YogurtYaml::new_from_str(tokens(&["ID"]));
    assert!(!curt.is_open());
    curt.curt("stuff ID[not closed yet");
    assert!(curt.is_open());
    assert!(curt.reset_open());
    assert!(!curt.is_open());
    assert!(!curt.reset_open());
    curt.curt("ID[done] ");
    assert!(!curt.is_open());
    assert_eq!(curt.get_results().len(), 1);
    assert_eq!(curt.get_results()[0].get_text().as_str(), "{ID: done}");
}

#[test]
fn test_reset_and_clear_results() {
    let mut curt = YogurtYaml::new_from_str(tokens(&["ID"]));
    curt.curt("ID[a] and ID[unfinished");
    assert_eq!(curt.get_results().len(), 1);
    assert!(curt.is_open());
    curt.reset();
    assert_eq!(curt.get_results().len(), 0);
    assert!(!curt.is_open());
    curt.curt("ID[b] ");
    assert_eq!(curt.get_results().len(), 1);
    curt.clear_results();
    assert_eq!(curt.get_results().len(), 0);
}

#[test]
fn test_curt_clear_retains_open_text() {
    let mut curt = YogurtYaml::new_from_str(tokens(&["ID"]));
    let mut open_data = "tail ID[still open".to_string();
    curt.curt_clear(&mut open_data);
    assert_eq!(open_data.as_str(), "tail ID[still open");
    assert_eq!(curt.get_results().len(), 0);

    curt.reset_open();
    let mut closed_data = "head ID[done] tail".to_string();
    curt.curt_clear(&mut closed_data);
    assert_eq!(closed_data.as_str(), "");
    assert_eq!(curt.get_results().len(), 1);
    assert_eq!(curt.get_results()[0].get_text().as_str(), "{ID: done}");
}

#[test]
fn test_chunk_invariance_concrete() {
    // One call over the whole text...
    let text = "pre ID[alpha, k: [1]] mid ID[beta] post";
    let whole = cut_yaml_ident_strings(tokens(&["ID"]), text);
    // ...and the streaming protocol: feed a chunk, keep the text while a
    // match is open, extend it and feed the running text again.
    let mut curt = YogurtYaml::new_from_str(tokens(&["ID"]));
    let mut buffer = "pre ID[alpha, k: [1".to_string();
    curt.curt_clear(&mut buffer);
    assert_eq!(buffer.as_str(), "pre ID[alpha, k: [1");
    buffer.push_str("]] mid ID[beta] post");
    curt.curt_clear(&mut buffer);
    let streamed = curt.get_results();
    assert_eq!(whole.len(), streamed.len());
    for (a, b) in whole.iter().zip(streamed.iter()) {
        assert_eq!(a.get_text(), b.get_text());
        assert_eq!(a.get_start(), b.get_start());
        assert_eq!(a.get_end(), b.get_end());
    }
}
