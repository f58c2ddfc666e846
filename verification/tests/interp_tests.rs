use panda::interp::{format_vec_to_regex, get_variables, replace_variables, variables_to_hashmap, VarMap};

fn map_of(pairs: &[(&str, &str)]) -> VarMap {
    let mut vm = VarMap::new();
    for (k, v) in pairs {
        vm.insert(k.to_string(), v.to_string());
    }
    vm
}

#[test]
fn no_tokens_is_identity() {
    let vars = map_of(&[("BASE_URL", "example.com")]);
    let text = "plain text, no markers at all: http://host/path?q=1";
    assert_eq!(replace_variables(text, &vars), text);
}

#[test]
fn unknown_token_left_verbatim() {
    let vars = map_of(&[("BASE_URL", "example.com")]);
    let text = "https://_.MISSING/x";
    assert_eq!(replace_variables(text, &vars), "https://_.MISSING/x");
}

#[test]
fn round_trip_base_url() {
    let vars = map_of(&[("BASE_URL", "example.com")]);
    assert_eq!(
        replace_variables("https://_.BASE_URL/x", &vars),
        "https://example.com/x"
    );
}

#[test]
fn several_tokens_replaced() {
    let vars = map_of(&[("BASE_URL", "example.com"), ("API_KEY", "api_1230202")]);
    assert_eq!(
        replace_variables("https://_.BASE_URL/api/_.API_KEY?redirect=_.BASE_URL", &vars),
        "https://example.com/api/api_1230202?redirect=example.com"
    );
}

#[test]
fn lower_case_two_word_token() {
    let vars = map_of(&[("auth_token", "s3cret")]);
    assert_eq!(
        replace_variables("Authorization = \"Bearer _.auth_token\"", &vars),
        "Authorization = \"Bearer s3cret\""
    );
}

#[test]
fn token_name_is_greedy_two_words_at_most() {
    // the name takes at most one underscore-joined second word, greedily
    let vars = map_of(&[("A_B", "x"), ("A_B_C", "never")]);
    assert_eq!(replace_variables("_.A_B_C", &vars), "x_C");
}

#[test]
fn empty_input_stays_empty() {
    let vars = map_of(&[("BASE_URL", "example.com")]);
    assert_eq!(replace_variables("", &vars), "");
}

#[test]
fn marker_without_name_left_alone() {
    let vars = map_of(&[("BASE_URL", "example.com")]);
    assert_eq!(replace_variables("_. and _ and .", &vars), "_. and _ and .");
}

#[test]
fn later_binding_overrides_earlier() {
    let mut vars = VarMap::new();
    vars.insert("HOST".to_string(), "first".to_string());
    vars.insert("HOST".to_string(), "second".to_string());
    assert_eq!(replace_variables("_.HOST", &vars), "second");
}

#[test]
fn get_variables_collects_distinct_names() {
    let mut names = get_variables("https://_.BASE_URL/api/_.API_KEY?x=_.BASE_URL");
    names.sort();
    assert_eq!(names, vec!["API_KEY".to_string(), "BASE_URL".to_string()]);
}

#[test]
fn get_variables_empty_when_no_tokens() {
    let names = get_variables("nothing here");
    assert_eq!(names.len(), 0);
}

#[test]
fn format_vec_joins_with_alternation() {
    let joined = format_vec_to_regex(vec!["BASE_URL".to_string(), "API_KEY".to_string()]);
    assert_eq!(joined, "_.BASE_URL|_.API_KEY");
}

#[test]
fn format_vec_single_name() {
    assert_eq!(format_vec_to_regex(vec!["HOST".to_string()]), "_.HOST");
}

#[test]
fn format_vec_empty() {
    assert_eq!(format_vec_to_regex(Vec::new()), "");
}

#[test]
fn variables_from_json_object() {
    let vm = variables_to_hashmap("{\"BASE_URL\": \"example.com\", \"limit\": 5}").unwrap();
    assert_eq!(vm.get(&"BASE_URL".to_string()).unwrap().as_str(), "example.com");
    assert_eq!(vm.get(&"limit".to_string()).unwrap().as_str(), "5");
    assert!(vm.get(&"missing".to_string()).is_none());
}

#[test]
fn variables_from_bad_json_is_rejected() {
    let err = variables_to_hashmap("not json at all").unwrap_err();
    assert_eq!(err, "Failed to parse JSON");
}

#[test]
fn variables_from_non_object_json_is_rejected() {
    let err = variables_to_hashmap("[1, 2, 3]").unwrap_err();
    assert_eq!(err, "Failed to parse JSON");
}

#[test]
fn variables_feed_interpolation() {
    let vm = variables_to_hashmap("{\"BASE_URL\": \"example.com\"}").unwrap();
    assert_eq!(
        replace_variables("https://_.BASE_URL/x", &vm),
        "https://example.com/x"
    );
}
