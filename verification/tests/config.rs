use minigrep::ArgumentError;
use minigrep::Config;
use std::cell::Cell;

fn unset(_name: &str) -> Option<String> {
    None
}

fn set(_name: &str) -> Option<String> {
    Some(String::from("1"))
}

fn set_to_nothing(_name: &str) -> Option<String> {
    Some(String::new())
}

fn args_of(words: &[&str]) -> Vec<String> {
    words.iter().map(|word| String::from(*word)).collect()
}

#[test]
fn confignew_passing_proper_args_crates_config() {
    let args = [
        String::from("exe"),
        String::from("query"),
        String::from("filename"),
    ];
    let config = Config::new(args.to_vec(), unset).unwrap();

    assert_eq!("query", config.query);
    assert_eq!("filename", config.filename)
}

#[test]
fn confignew_passing_too_little_arguments_returns_error() {
    let args = [String::from("exe"), String::from("query")];
    let result = Config::new(args.to_vec(), unset);

    if let Ok(_) = result {
        panic!("The returned result should be invalid");
    }
}

#[test]
fn three_arguments_without_the_variable_count_case() {
    let config = Config::new(args_of(&["exe", "needle", "haystack.txt"]), unset).unwrap();
    assert_eq!(config.query, "needle");
    assert_eq!(config.filename, "haystack.txt");
    assert!(config.case_sensitive);
}

#[test]
fn three_arguments_with_the_variable_ignore_case() {
    let config = Config::new(args_of(&["exe", "needle", "haystack.txt"]), set).unwrap();
    assert_eq!(config.query, "needle");
    assert_eq!(config.filename, "haystack.txt");
    assert!(!config.case_sensitive);
}

#[test]
fn the_value_of_the_variable_does_not_matter() {
    let config = Config::new(args_of(&["exe", "needle", "haystack.txt"]), set_to_nothing).unwrap();
    assert!(!config.case_sensitive);
    let zero = |_: &str| Some(String::from("0"));
    let config = Config::new(args_of(&["exe", "needle", "haystack.txt"]), zero).unwrap();
    assert!(!config.case_sensitive);
}

#[test]
fn the_flag_ignores_case_whatever_the_environment() {
    let config = Config::new(args_of(&["exe", "needle", "haystack.txt", "-c"]), unset).unwrap();
    assert_eq!(config.query, "needle");
    assert_eq!(config.filename, "haystack.txt");
    assert!(!config.case_sensitive);
    let config = Config::new(args_of(&["exe", "needle", "haystack.txt", "-c"]), set).unwrap();
    assert_eq!(config.query, "needle");
    assert_eq!(config.filename, "haystack.txt");
    assert!(!config.case_sensitive);
}

#[test]
fn the_variable_is_looked_up_under_its_name() {
    let asked = Cell::new(String::new());
    let lookup = |name: &str| {
        asked.set(String::from(name));
        None
    };
    Config::new(args_of(&["exe", "needle", "haystack.txt"]), lookup).unwrap();
    assert_eq!(asked.take(), "CASE_INSENSITIVE");
    assert_eq!(minigrep::config::CASE_INSENSITIVE_VAR, "CASE_INSENSITIVE");
    assert_eq!(minigrep::config::CASE_FLAG, "-c");
}

#[test]
fn the_environment_is_asked_once_where_the_flag_is_absent() {
    let calls = Cell::new(0u32);
    let lookup = |_: &str| {
        calls.set(calls.get() + 1);
        None
    };
    Config::new(args_of(&["exe", "needle", "haystack.txt"]), lookup).unwrap();
    assert_eq!(calls.get(), 1);
}

#[test]
fn the_environment_is_not_asked_where_the_flag_is_given() {
    let calls = Cell::new(0u32);
    let lookup = |_: &str| {
        calls.set(calls.get() + 1);
        Some(String::from("1"))
    };
    let config = Config::new(args_of(&["exe", "needle", "haystack.txt", "-c"]), lookup).unwrap();
    assert!(!config.case_sensitive);
    assert_eq!(calls.get(), 0);
}

#[test]
fn the_environment_is_not_asked_where_arguments_are_missing() {
    let calls = Cell::new(0u32);
    let lookup = |_: &str| {
        calls.set(calls.get() + 1);
        None
    };
    assert!(Config::new(args_of(&["exe", "needle"]), &lookup).is_err());
    assert!(Config::new(args_of(&["exe"]), &lookup).is_err());
    assert!(Config::new(args_of(&[]), &lookup).is_err());
    assert_eq!(calls.get(), 0);
}

#[test]
fn no_arguments_miss_the_query() {
    assert_eq!(Config::new(args_of(&[]), unset).err(), Some(ArgumentError::MissingQuery));
    assert_eq!(Config::new(args_of(&[]), set).err(), Some(ArgumentError::MissingQuery));
}

#[test]
fn the_program_name_alone_misses_the_query() {
    assert_eq!(Config::new(args_of(&["exe"]), unset).err(), Some(ArgumentError::MissingQuery));
}

#[test]
fn a_query_alone_misses_the_filename() {
    assert_eq!(
        Config::new(args_of(&["exe", "needle"]), unset).err(),
        Some(ArgumentError::MissingFilename)
    );
    assert_eq!(
        Config::new(args_of(&["exe", "needle"]), set).err(),
        Some(ArgumentError::MissingFilename)
    );
}

#[test]
fn the_reasons_in_words() {
    assert_eq!(ArgumentError::MissingQuery.reason(), "missing query");
    assert_eq!(ArgumentError::MissingFilename.reason(), "missing filename");
}

#[test]
fn an_empty_query_is_accepted() {
    let config = Config::new(args_of(&["exe", "", "haystack.txt"]), unset).unwrap();
    assert_eq!(config.query, "");
    assert_eq!(config.filename, "haystack.txt");
    assert!(config.case_sensitive);
}

#[test]
fn the_program_name_is_skipped() {
    let config = Config::new(args_of(&["-c", "needle", "haystack.txt"]), unset).unwrap();
    assert_eq!(config.query, "needle");
    assert!(config.case_sensitive);
}

#[test]
fn another_fourth_argument_is_no_flag() {
    let config = Config::new(args_of(&["exe", "needle", "haystack.txt", "-C"]), unset).unwrap();
    assert!(config.case_sensitive);
    let config = Config::new(args_of(&["exe", "needle", "haystack.txt", "-cc"]), unset).unwrap();
    assert!(config.case_sensitive);
    let config = Config::new(args_of(&["exe", "needle", "haystack.txt", ""]), unset).unwrap();
    assert!(config.case_sensitive);
    let config = Config::new(args_of(&["exe", "needle", "haystack.txt", "-C"]), set).unwrap();
    assert!(!config.case_sensitive);
}

#[test]
fn the_flag_counts_in_fourth_place_only() {
    let config =
        Config::new(args_of(&["exe", "needle", "haystack.txt", "more", "-c"]), unset).unwrap();
    assert!(config.case_sensitive);
    let config = Config::new(args_of(&["exe", "-c", "haystack.txt"]), unset).unwrap();
    assert_eq!(config.query, "-c");
    assert!(config.case_sensitive);
    let config =
        Config::new(args_of(&["exe", "needle", "haystack.txt", "-c", "more"]), unset).unwrap();
    assert_eq!(config.query, "needle");
    assert_eq!(config.filename, "haystack.txt");
    assert!(!config.case_sensitive);
}

#[test]
fn resolving_with_a_value_looked_up_before() {
    let config =
        Config::resolve_with(args_of(&["exe", "needle", "haystack.txt"]), None).unwrap();
    assert!(config.case_sensitive);
    let config = Config::resolve_with(
        args_of(&["exe", "needle", "haystack.txt"]),
        Some(String::from("yes")),
    )
    .unwrap();
    assert_eq!(config.query, "needle");
    assert_eq!(config.filename, "haystack.txt");
    assert!(!config.case_sensitive);
    let config =
        Config::resolve_with(args_of(&["exe", "needle", "haystack.txt", "-c"]), None).unwrap();
    assert!(!config.case_sensitive);
    assert_eq!(
        Config::resolve_with(args_of(&["exe"]), Some(String::from("yes"))).err(),
        Some(ArgumentError::MissingQuery)
    );
    assert_eq!(
        Config::resolve_with(args_of(&["exe", "needle"]), None).err(),
        Some(ArgumentError::MissingFilename)
    );
}

#[test]
fn resolving_twice_gives_the_same_settings() {
    let first = Config::new(args_of(&["exe", "needle", "haystack.txt"]), set).unwrap();
    let second = Config::new(args_of(&["exe", "needle", "haystack.txt"]), set).unwrap();
    assert_eq!(first.query, second.query);
    assert_eq!(first.filename, second.filename);
    assert_eq!(first.case_sensitive, second.case_sensitive);
}

#[test]
fn case_counts_without_flag_and_variable_only() {
    let plain = args_of(&["exe", "needle", "haystack.txt"]);
    let flagged = args_of(&["exe", "needle", "haystack.txt", "-c"]);
    assert!(Config::is_case_sensitive(&plain, &None));
    assert!(!Config::is_case_sensitive(&plain, &Some(String::from("1"))));
    assert!(!Config::is_case_sensitive(&flagged, &None));
    assert!(!Config::is_case_sensitive(&flagged, &Some(String::from("1"))));
}
