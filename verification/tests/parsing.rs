use assume_role_profile::config::Config;
use assume_role_profile::error::ChainError;
use assume_role_profile::parser::{parse_config_file, parse_lines, readable_lines, ConfigFile};

fn lines(text: &[&str]) -> Vec<String> {
    text.iter().map(|line| line.to_string()).collect()
}

fn parse(text: &[&str]) -> Config {
    parse_lines(&lines(text))
}

fn value(config: &Config, profile: &str, key: &str) -> Option<String> {
    config.get(profile).and_then(|found| found.get(key)).cloned()
}

fn text(value: &str) -> Option<String> {
    Some(value.to_string())
}

#[test]
fn profile_with_two_properties() {
    let config = parse(&[
        "[profile foo]",
        "role_arn = arn:aws:iam::123:role/x",
        "source_profile=bar",
    ]);
    assert_eq!(config.len(), 1);
    let foo = config.get("foo").expect("profile foo");
    assert_eq!(foo.name(), "foo");
    assert_eq!(foo.len(), 2);
    assert_eq!(foo.get("role_arn"), Some(&"arn:aws:iam::123:role/x".to_string()));
    assert_eq!(foo.get("source_profile"), Some(&"bar".to_string()));
    assert_eq!(foo.get("region"), None);
    assert!(config.get("profile foo").is_none());
    assert!(config.get("bar").is_none());
}

#[test]
fn an_empty_file_has_no_profiles() {
    let config = parse(&[]);
    assert_eq!(config.len(), 0);
    assert!(config.get("default").is_none());
}

#[test]
fn a_new_configuration_is_empty() {
    let config = Config::new();
    assert_eq!(config.len(), 0);
    assert!(config.get("").is_none());
}

#[test]
fn set_adds_and_overwrites() {
    let mut config = Config::new();
    config.set("a".to_string(), "k".to_string(), "1".to_string());
    assert_eq!(config.len(), 1);
    assert_eq!(value(&config, "a", "k"), text("1"));
    config.set("a".to_string(), "l".to_string(), "2".to_string());
    assert_eq!(config.len(), 1);
    assert_eq!(config.get("a").unwrap().len(), 2);
    config.set("b".to_string(), "k".to_string(), "3".to_string());
    assert_eq!(config.len(), 2);
    config.set("a".to_string(), "k".to_string(), "4".to_string());
    assert_eq!(config.len(), 2);
    assert_eq!(config.get("a").unwrap().len(), 2);
    assert_eq!(value(&config, "a", "k"), text("4"));
    assert_eq!(value(&config, "a", "l"), text("2"));
    assert_eq!(value(&config, "b", "k"), text("3"));
    assert_eq!(value(&config, "b", "l"), None);
}

#[test]
fn a_header_alone_creates_no_profile() {
    let config = parse(&["[foo]", "[profile bar]", "", "# nothing"]);
    assert_eq!(config.len(), 0);
    assert!(config.get("foo").is_none());
    assert!(config.get("bar").is_none());
}

#[test]
fn lines_before_the_first_header_are_ignored() {
    let config = parse(&["region = nowhere", "output=text", "[foo]", "region = here"]);
    assert_eq!(config.len(), 1);
    assert!(config.get("").is_none());
    assert_eq!(value(&config, "foo", "region"), text("here"));
    assert_eq!(value(&config, "foo", "output"), None);
    let without = parse(&["[foo]", "region = here"]);
    assert_eq!(without.len(), 1);
    assert_eq!(value(&without, "foo", "region"), text("here"));
    assert_eq!(without.get("foo").unwrap().len(), 1);
    assert_eq!(config.get("foo").unwrap().len(), 1);
}

#[test]
fn a_file_without_headers_has_no_profiles() {
    let config = parse(&["a = b", "c = d", "# e", "f"]);
    assert_eq!(config.len(), 0);
}

#[test]
fn comments_and_blank_lines_change_nothing() {
    let config = parse(&[
        "# first",
        "",
        "[foo]",
        "# about foo",
        "a = 1",
        "",
        "     ",
        "#[bar]",
        "   # [bar]",
        "b = 2",
        "#c = 3",
    ]);
    assert_eq!(config.len(), 1);
    let foo = config.get("foo").expect("profile foo");
    assert_eq!(foo.len(), 2);
    assert_eq!(foo.get("a"), Some(&"1".to_string()));
    assert_eq!(foo.get("b"), Some(&"2".to_string()));
    assert_eq!(foo.get("c"), None);
    assert_eq!(foo.get("#c"), None);
    assert!(config.get("bar").is_none());
}

#[test]
fn a_comment_is_no_key() {
    let config =
        parse(&["[bar]", "region = us-east-4", "# comments", "# comments = yes", "output = json"]);
    let bar = config.get("bar").expect("profile bar");
    assert_eq!(bar.get("region"), Some(&"us-east-4".to_string()));
    assert_eq!(bar.get("output"), Some(&"json".to_string()));
    assert_eq!(bar.get("# comments"), None);
    assert_eq!(bar.len(), 2);
}

#[test]
fn the_later_of_two_values_stays() {
    let config = parse(&["[foo]", "key = first", "key = second"]);
    assert_eq!(config.len(), 1);
    assert_eq!(config.get("foo").unwrap().len(), 1);
    assert_eq!(value(&config, "foo", "key"), text("second"));
}

#[test]
fn the_later_value_stays_with_lines_between() {
    let config = parse(&[
        "[foo]",
        "key = first",
        "other = x",
        "# note",
        "",
        "key=second",
        "other = y",
        "key = third",
    ]);
    assert_eq!(config.get("foo").unwrap().len(), 2);
    assert_eq!(value(&config, "foo", "key"), text("third"));
    assert_eq!(value(&config, "foo", "other"), text("y"));
}

#[test]
fn a_profile_may_be_taken_up_again() {
    let config = parse(&["[a]", "k = 1", "m = 1", "[b]", "k = 2", "[profile a]", "k = 3", "n = 3"]);
    assert_eq!(config.len(), 2);
    assert_eq!(value(&config, "a", "k"), text("3"));
    assert_eq!(value(&config, "a", "m"), text("1"));
    assert_eq!(value(&config, "a", "n"), text("3"));
    assert_eq!(value(&config, "b", "k"), text("2"));
    assert_eq!(config.get("a").unwrap().len(), 3);
    assert_eq!(config.get("b").unwrap().len(), 1);
}

#[test]
fn profiles_do_not_share_properties() {
    let config = parse(&["[default]", "region = us-east-2", "[profile foo]", "output = json"]);
    assert_eq!(config.len(), 2);
    assert_eq!(value(&config, "default", "region"), text("us-east-2"));
    assert_eq!(value(&config, "default", "output"), None);
    assert_eq!(value(&config, "foo", "output"), text("json"));
    assert_eq!(value(&config, "foo", "region"), None);
}

#[test]
fn several_profiles() {
    let config = parse(&[
        "[default]",
        "region = us-east-2",
        "output = json",
        "",
        "[profile foo]",
        "region = us-east-3",
        "output = json",
        "",
        "[profile bar]",
        "# comments",
        "region = us-east-4",
        "output = json",
    ]);
    assert_eq!(config.len(), 3);
    assert_eq!(value(&config, "default", "region"), text("us-east-2"));
    assert_eq!(value(&config, "foo", "region"), text("us-east-3"));
    assert_eq!(value(&config, "bar", "region"), text("us-east-4"));
    assert_eq!(value(&config, "bar", "output"), text("json"));
}

#[test]
fn malformed_lines_are_skipped() {
    let config = parse(&[
        "[foo]",
        "no equals sign",
        "= value",
        "key =",
        "[broken",
        "ok = 1",
        "[a]b]",
        "fine=2",
    ]);
    assert_eq!(config.len(), 1);
    let foo = config.get("foo").unwrap();
    assert_eq!(foo.len(), 2);
    assert_eq!(foo.get("ok"), Some(&"1".to_string()));
    assert_eq!(foo.get("fine"), Some(&"2".to_string()));
}

#[test]
fn names_are_taken_as_they_stand() {
    let config = parse(&["[ foo ]", "a = 1", "[profile ]", "b = 2", "[Foo]", "c = 3"]);
    assert_eq!(config.len(), 3);
    assert_eq!(value(&config, " foo ", "a"), text("1"));
    assert_eq!(value(&config, "profile ", "b"), text("2"));
    assert_eq!(value(&config, "Foo", "c"), text("3"));
    assert!(config.get("foo").is_none());
}

#[test]
fn keys_differ_by_case() {
    let config = parse(&["[foo]", "Key = 1", "key = 2"]);
    assert_eq!(config.get("foo").unwrap().len(), 2);
    assert_eq!(value(&config, "foo", "Key"), text("1"));
    assert_eq!(value(&config, "foo", "key"), text("2"));
}

#[test]
fn no_file_is_no_configuration() {
    assert_eq!(parse_config_file(&ConfigFile::Missing).map(|found| found.is_none()), Ok(true));
    assert_eq!(parse_config_file(&ConfigFile::NotAFile).map(|found| found.is_none()), Ok(true));
}

#[test]
fn a_file_that_cannot_be_opened_is_a_failure() {
    let result = parse_config_file(&ConfigFile::Unreadable);
    assert_eq!(result.err(), Some(ChainError::ConfigUnreadable));
}

#[test]
fn a_regular_file_is_a_configuration() {
    let empty = parse_config_file(&ConfigFile::Lines(Vec::new())).unwrap().unwrap();
    assert_eq!(empty.len(), 0);
    let file = ConfigFile::Lines(vec![
        Some("[profile foo]".to_string()),
        Some("role_arn = arn:aws:iam::123:role/x".to_string()),
        Some("source_profile=bar".to_string()),
    ]);
    let config = parse_config_file(&file).unwrap().unwrap();
    assert_eq!(config.len(), 1);
    assert_eq!(value(&config, "foo", "source_profile"), text("bar"));
    assert_eq!(value(&config, "foo", "role_arn"), text("arn:aws:iam::123:role/x"));
}

#[test]
fn lines_that_are_not_text_are_left_out() {
    let some = |line: &str| Some(line.to_string());
    assert_eq!(readable_lines(&Vec::new()), Vec::<String>::new());
    assert_eq!(readable_lines(&vec![None, None]), Vec::<String>::new());
    assert_eq!(
        readable_lines(&vec![some("a"), None, some(""), some("b"), None]),
        lines(&["a", "", "b"])
    );
    let file = ConfigFile::Lines(vec![
        None,
        some("[foo]"),
        some("a = 1"),
        None,
        some("b = 2"),
        None,
    ]);
    let config = parse_config_file(&file).unwrap().unwrap();
    assert_eq!(config.len(), 1);
    assert_eq!(config.get("foo").unwrap().len(), 2);
    assert_eq!(value(&config, "foo", "a"), text("1"));
    assert_eq!(value(&config, "foo", "b"), text("2"));
}
