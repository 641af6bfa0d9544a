use rs_clone::config::{Config, ConfigError, Mapping, Settings};

fn settings(source: &str, destination: &str) -> Settings {
    Settings {
        source_dir: source.to_string(),
        destination_dir: destination.to_string(),
    }
}

#[test]
fn errors_are_reported_in_fixed_words() {
    assert_eq!(
        ConfigError::SourceDirEmpty.message(),
        "settings.source_dir is empty"
    );
    assert_eq!(
        ConfigError::SourceDirMissing.message(),
        "settings.source_dir doesn't exist"
    );
    assert_eq!(
        ConfigError::DestinationDirEmpty.message(),
        "settings.destination_dir is empty"
    );
    assert_eq!(
        ConfigError::DestinationDirMissing.message(),
        "settings.destination_dir doesn't exist"
    );
}

#[test]
fn settings_with_both_directories_present_pass() {
    assert_eq!(settings("src", "dst").check(true, true), Ok(()));
}

#[test]
fn empty_source_is_refused_first() {
    assert_eq!(
        settings("", "").check(false, false),
        Err(ConfigError::SourceDirEmpty)
    );
    assert_eq!(
        settings("", "dst").check(true, true),
        Err(ConfigError::SourceDirEmpty)
    );
}

#[test]
fn missing_source_is_refused_before_the_destination() {
    assert_eq!(
        settings("src", "").check(false, false),
        Err(ConfigError::SourceDirMissing)
    );
    assert_eq!(
        settings("src", "dst").check(false, true),
        Err(ConfigError::SourceDirMissing)
    );
}

#[test]
fn empty_destination_is_refused() {
    assert_eq!(
        settings("src", "").check(true, true),
        Err(ConfigError::DestinationDirEmpty)
    );
    assert_eq!(
        settings("src", "").check(true, false),
        Err(ConfigError::DestinationDirEmpty)
    );
}

#[test]
fn missing_destination_is_refused() {
    assert_eq!(
        settings("src", "dst").check(true, false),
        Err(ConfigError::DestinationDirMissing)
    );
}

#[test]
fn configuration_with_existing_directories_is_valid() {
    let config = Config::new(".".to_string(), ".".to_string());
    assert_eq!(config.is_valid(), Ok(()));
}

#[test]
fn configuration_is_checked_against_the_file_system() {
    let nowhere = "./no-such-directory-for-this-test/at-all".to_string();
    assert_eq!(
        Config::new(String::new(), ".".to_string()).is_valid(),
        Err(ConfigError::SourceDirEmpty)
    );
    assert_eq!(
        Config::new(nowhere.clone(), ".".to_string()).is_valid(),
        Err(ConfigError::SourceDirMissing)
    );
    assert_eq!(
        Config::new(".".to_string(), String::new()).is_valid(),
        Err(ConfigError::DestinationDirEmpty)
    );
    assert_eq!(
        Config::new(".".to_string(), nowhere.clone()).is_valid(),
        Err(ConfigError::DestinationDirMissing)
    );
    assert_eq!(
        Config::new(nowhere, String::new()).is_valid(),
        Err(ConfigError::SourceDirMissing)
    );
}

#[test]
fn new_configuration_has_no_names() {
    let config = Config::new("a".to_string(), "b".to_string());
    assert_eq!(config.settings, settings("a", "b"));
    assert!(config.mapping.entries().is_empty());
}

#[test]
fn new_mapping_is_empty() {
    let mapping = Mapping::new();
    assert!(mapping.entries().is_empty());
    assert!(!mapping.contains_key("a"));
    assert_eq!(mapping.get("a"), None);
}

#[test]
fn inserted_name_is_found() {
    let mut mapping = Mapping::new();
    mapping.insert("Show.Name.2020".to_string(), "Show Name".to_string());
    assert!(mapping.contains_key("Show.Name.2020"));
    assert_eq!(
        mapping.get("Show.Name.2020"),
        Some(&"Show Name".to_string())
    );
    assert!(!mapping.contains_key("Show Name"));
    assert_eq!(mapping.get("show.name.2020"), None);
}

#[test]
fn insert_replaces_the_name_of_a_known_folder() {
    let mut mapping = Mapping::new();
    mapping.insert("a".to_string(), "1".to_string());
    mapping.insert("b".to_string(), "2".to_string());
    mapping.insert("a".to_string(), "3".to_string());
    assert_eq!(mapping.get("a"), Some(&"3".to_string()));
    assert_eq!(mapping.get("b"), Some(&"2".to_string()));
    assert_eq!(mapping.entries().len(), 2);
}

#[test]
fn remove_takes_one_folder_out() {
    let mut mapping = Mapping::new();
    mapping.insert("a".to_string(), "1".to_string());
    mapping.insert("b".to_string(), "2".to_string());
    mapping.insert("c".to_string(), "3".to_string());
    mapping.remove("b");
    assert_eq!(mapping.get("b"), None);
    assert_eq!(mapping.get("a"), Some(&"1".to_string()));
    assert_eq!(mapping.get("c"), Some(&"3".to_string()));
    mapping.remove("b");
    mapping.remove("zzz");
    assert_eq!(mapping.entries().len(), 2);
}

#[test]
fn entries_list_each_folder_once() {
    let mut mapping = Mapping::new();
    mapping.insert("a".to_string(), "1".to_string());
    mapping.insert("b".to_string(), "2".to_string());
    mapping.insert("a".to_string(), "9".to_string());
    let mut pairs = mapping.entries();
    pairs.sort();
    assert_eq!(
        pairs,
        vec![
            ("a".to_string(), "9".to_string()),
            ("b".to_string(), "2".to_string()),
        ]
    );
}

#[test]
fn copy_of_a_configuration_holds_the_same() {
    let mut config = Config::new("src".to_string(), "dst".to_string());
    config.mapping.insert("a".to_string(), "1".to_string());
    let copy = config.clone();
    config.mapping.insert("a".to_string(), "2".to_string());
    assert_eq!(copy.settings, settings("src", "dst"));
    assert_eq!(copy.mapping.get("a"), Some(&"1".to_string()));
    assert_eq!(config.mapping.get("a"), Some(&"2".to_string()));
}

#[test]
fn mapping_from_pairs_keeps_the_later_of_two() {
    let mapping = Mapping::from_entries(vec![
        ("a".to_string(), "1".to_string()),
        ("b".to_string(), "2".to_string()),
        ("a".to_string(), "3".to_string()),
    ]);
    assert_eq!(mapping.get("a"), Some(&"3".to_string()));
    assert_eq!(mapping.get("b"), Some(&"2".to_string()));
    assert_eq!(mapping.entries().len(), 2);
    assert!(Mapping::from_entries(Vec::new()).entries().is_empty());
}

#[test]
fn mapping_from_its_own_entries_is_the_same_mapping() {
    let mut mapping = Mapping::new();
    mapping.insert("Show.Name.2020".to_string(), "Show Name".to_string());
    mapping.insert("x".to_string(), "".to_string());
    mapping.insert("y".to_string(), "Y".to_string());
    mapping.remove("x");
    let again = Mapping::from_entries(mapping.entries());
    let mut before = mapping.entries();
    let mut after = again.entries();
    before.sort();
    after.sort();
    assert_eq!(before, after);
}

#[test]
fn mapping_plays_no_part_in_validation() {
    let nowhere = "./no-such-directory-for-this-test/at-all".to_string();
    let cases = [
        (".".to_string(), ".".to_string()),
        (String::new(), ".".to_string()),
        (nowhere.clone(), ".".to_string()),
        (".".to_string(), String::new()),
        (".".to_string(), nowhere.clone()),
    ];
    for (source, destination) in cases {
        let plain = Config::new(source.clone(), destination.clone());
        let mut mapped = Config::new(source, destination);
        mapped.mapping.insert(nowhere.clone(), nowhere.clone());
        mapped.mapping.insert("a".to_string(), String::new());
        assert_eq!(plain.is_valid(), mapped.is_valid());
        assert_eq!(mapped.mapping.entries().len(), 2);
    }
}

#[test]
fn refusal_names_the_field_that_is_wrong() {
    let nowhere = "./no-such-directory-for-this-test/at-all".to_string();
    let source_wrong = [
        Config::new(String::new(), String::new()),
        Config::new(String::new(), nowhere.clone()),
        Config::new(nowhere.clone(), String::new()),
        Config::new(nowhere.clone(), nowhere.clone()),
    ];
    for config in source_wrong {
        let words = config.is_valid().unwrap_err().message();
        assert!(words.contains("source_dir"), "{}", words);
        assert!(!words.contains("destination_dir"), "{}", words);
    }
    let destination_wrong = [
        Config::new(".".to_string(), String::new()),
        Config::new(".".to_string(), nowhere),
    ];
    for config in destination_wrong {
        let words = config.is_valid().unwrap_err().message();
        assert!(words.contains("destination_dir"), "{}", words);
        assert!(!words.contains("source_dir"), "{}", words);
    }
}
