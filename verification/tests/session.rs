use rs_clone::config::{Config, ConfigError};
use rs_clone::filter::{filter_options, FilterCategory};
use rs_clone::session::{
    menu_labels, Action, Event, Failure, LoadFault, Outcome, Session,
};

fn config() -> Config {
    Config::new("/media/in".to_string(), "/media/out".to_string())
}

fn config_with(folder: &str, name: &str) -> Config {
    let mut config = config();
    config.mapping.insert(folder.to_string(), name.to_string());
    config
}

fn names(list: &[&str]) -> Vec<String> {
    list.iter().map(|s| s.to_string()).collect()
}

fn line(text: &str) -> Event {
    Event::Line(text.to_string())
}

fn exit(outcome: Outcome) -> Action {
    Action::Exit { outcome }
}

fn mapped(session: &Session, folder: &str) -> Option<String> {
    session
        .config()
        .and_then(|c| c.mapping.get(folder))
        .cloned()
}

/// Runs a session up to the prompt for the destination name of the folder
/// picked by `pick`.
fn until_naming(config: Config, sources: &[&str], pick: &str) -> (Session, Action) {
    let (session, action) = Session::start();
    assert_eq!(action, Action::LoadConfig);
    let (session, _) = session.step(Event::ConfigLoaded(config));
    let (session, _) = session.step(Event::Listed(names(sources)));
    session.step(line(pick))
}

#[test]
fn session_begins_by_loading_the_configuration() {
    let (session, action) = Session::start();
    assert!(matches!(session, Session::Loading));
    assert_eq!(action, Action::LoadConfig);
    assert!(session.config().is_none());
}

#[test]
fn loaded_configuration_leads_to_listing_the_source() {
    let (session, _) = Session::start();
    let (session, action) = session.step(Event::ConfigLoaded(config()));
    assert!(matches!(session, Session::Listing { .. }));
    assert_eq!(
        action,
        Action::ListSources {
            dir: "/media/in".to_string()
        }
    );
}

#[test]
fn failed_load_ends_with_exit_code_one() {
    let faults = [
        LoadFault::Unreadable,
        LoadFault::Malformed,
        LoadFault::Invalid(ConfigError::SourceDirEmpty),
        LoadFault::Invalid(ConfigError::DestinationDirMissing),
    ];
    for fault in faults {
        let (session, _) = Session::start();
        let (session, action) = session.step(Event::ConfigFailed(fault));
        let outcome = Outcome::Failed(Failure::Config(fault));
        assert_eq!(action, exit(outcome));
        assert!(matches!(session, Session::Finished { outcome: o } if o == outcome));
        assert_eq!(outcome.exit_code(), 1);
    }
    let (session, _) = Session::start();
    let (_, action) = session.step(Event::Failed);
    assert_eq!(
        action,
        exit(Outcome::Failed(Failure::Config(LoadFault::Unreadable)))
    );
}

#[test]
fn empty_source_directory_ends_the_session_with_success() {
    let (session, _) = Session::start();
    let (session, _) = session.step(Event::ConfigLoaded(config()));
    let (session, action) = session.step(Event::Listed(Vec::new()));
    assert_eq!(action, exit(Outcome::NoSources));
    assert!(matches!(
        session,
        Session::Finished {
            outcome: Outcome::NoSources
        }
    ));
    assert_eq!(Outcome::NoSources.exit_code(), 0);
}

#[test]
fn unreadable_source_directory_fails() {
    let (session, _) = Session::start();
    let (session, _) = session.step(Event::ConfigLoaded(config()));
    let (_, action) = session.step(Event::Failed);
    assert_eq!(action, exit(Outcome::Failed(Failure::DirectoryRead)));
    assert_eq!(Outcome::Failed(Failure::DirectoryRead).exit_code(), 1);
}

#[test]
fn source_folders_are_offered_in_ascending_order() {
    let (session, _) = Session::start();
    let (session, _) = session.step(Event::ConfigLoaded(config_with("b", "B Title")));
    let (session, action) = session.step(Event::Listed(names(&["c", "a", "b"])));
    assert_eq!(
        action,
        Action::ChooseFolder {
            labels: names(&["a", "*b (B Title)", "c"])
        }
    );
    match session {
        Session::Choosing { sources, .. } => assert_eq!(sources, names(&["a", "b", "c"])),
        other => panic!("{:?}", other),
    }
}

#[test]
fn menu_marks_the_folders_that_have_a_name() {
    let mut config = config();
    config.mapping.insert("same".to_string(), "same".to_string());
    config.mapping.insert("other".to_string(), "Other".to_string());
    let labels = menu_labels(&names(&["new", "other", "same"]), &config);
    assert_eq!(labels, names(&["new", "*other (Other)", "*same"]));
    assert!(menu_labels(&Vec::new(), &config).is_empty());
}

#[test]
fn zero_and_other_input_cancel_at_the_folder_menu() {
    for input in ["0", "", "x", "3", "-1", "1 2"] {
        let (session, action) = until_naming(config(), &["a", "b"], input);
        assert_eq!(action, exit(Outcome::Cancelled), "{:?}", input);
        assert!(matches!(
            session,
            Session::Finished {
                outcome: Outcome::Cancelled
            }
        ));
    }
    assert_eq!(Outcome::Cancelled.exit_code(), 0);
}

#[test]
fn interrupted_folder_menu_cancels() {
    let (session, _) = Session::start();
    let (session, _) = session.step(Event::ConfigLoaded(config()));
    let (session, _) = session.step(Event::Listed(names(&["a"])));
    let (_, action) = session.step(Event::NoLine);
    assert_eq!(action, exit(Outcome::Cancelled));
}

#[test]
fn missing_prompt_fails_the_session() {
    let (session, _) = Session::start();
    let (session, _) = session.step(Event::ConfigLoaded(config()));
    let (session, _) = session.step(Event::Listed(names(&["a"])));
    let (_, action) = session.step(Event::Failed);
    assert_eq!(action, exit(Outcome::Failed(Failure::Prompt)));

    let (session, _) = until_naming(config(), &["a"], "1");
    let (_, action) = session.step(Event::Failed);
    assert_eq!(action, exit(Outcome::Failed(Failure::Prompt)));
}

#[test]
fn picked_folder_follows_the_sorted_order() {
    let (session, action) = until_naming(config(), &["zeta", "alpha"], "1");
    assert_eq!(
        action,
        Action::AskDestination {
            folder: "alpha".to_string(),
            initial: "Alpha".to_string()
        }
    );
    match session {
        Session::Naming {
            folder, current, ..
        } => {
            assert_eq!(folder, "alpha");
            assert_eq!(current, None);
        }
        other => panic!("{:?}", other),
    }
}

#[test]
fn accepted_suggestion_is_mapped_and_saved() {
    let (session, action) = until_naming(config(), &["Show.Name.2020"], "1");
    assert_eq!(
        action,
        Action::AskDestination {
            folder: "Show.Name.2020".to_string(),
            initial: "Show Name".to_string()
        }
    );
    let (session, action) = session.step(line("Show Name"));
    assert_eq!(action, Action::SaveConfig);
    assert!(matches!(session, Session::Saving { .. }));
    assert_eq!(
        mapped(&session, "Show.Name.2020"),
        Some("Show Name".to_string())
    );
    let saved = session.config().cloned().unwrap();

    let (session, action) = session.step(Event::Done);
    assert_eq!(
        action,
        Action::ListContents {
            base: "/media/in".to_string(),
            folder: "Show.Name.2020".to_string()
        }
    );
    assert!(matches!(session, Session::Inspecting { .. }));

    let (_, action) = until_naming(saved, &["Show.Name.2020"], "1");
    assert_eq!(
        action,
        Action::AskDestination {
            folder: "Show.Name.2020".to_string(),
            initial: "Show Name".to_string()
        }
    );
}

#[test]
fn edited_suggestion_is_what_gets_mapped() {
    let (session, _) = until_naming(config(), &["Show.Name.2020"], "1");
    let (session, action) = session.step(line("Another Name"));
    assert_eq!(action, Action::SaveConfig);
    assert_eq!(
        mapped(&session, "Show.Name.2020"),
        Some("Another Name".to_string())
    );
}

#[test]
fn interrupted_name_prompt_gives_the_empty_name() {
    let (session, _) = until_naming(config(), &["a"], "1");
    let (session, action) = session.step(Event::NoLine);
    assert_eq!(action, Action::SaveConfig);
    assert_eq!(mapped(&session, "a"), Some(String::new()));
}

#[test]
fn failed_save_ends_the_session() {
    let (session, _) = until_naming(config(), &["a"], "1");
    let (session, _) = session.step(line("A"));
    let (session, action) = session.step(Event::Failed);
    assert_eq!(action, exit(Outcome::Failed(Failure::ConfigWrite)));
    assert!(session.config().is_none());
    assert_eq!(Outcome::Failed(Failure::ConfigWrite).exit_code(), 1);
}

#[test]
fn changed_name_renames_the_destination_before_the_mapping_changes() {
    let start = config_with("Show.Name.2020", "Show Name");
    let (session, action) = until_naming(start, &["Show.Name.2020"], "1");
    assert_eq!(
        action,
        Action::AskDestination {
            folder: "Show.Name.2020".to_string(),
            initial: "Show Name".to_string()
        }
    );
    let (session, action) = session.step(line("Show Name (2020)"));
    assert_eq!(
        action,
        Action::Rename {
            base: "/media/out".to_string(),
            from: "Show Name".to_string(),
            to: "Show Name (2020)".to_string()
        }
    );
    assert!(matches!(session, Session::Renaming { .. }));
    assert_eq!(
        mapped(&session, "Show.Name.2020"),
        Some("Show Name".to_string())
    );

    let (session, action) = session.step(Event::Done);
    assert_eq!(action, Action::SaveConfig);
    assert_eq!(
        mapped(&session, "Show.Name.2020"),
        Some("Show Name (2020)".to_string())
    );
    assert_eq!(session.config().unwrap().mapping.entries().len(), 1);

    let (_, action) = session.step(Event::Done);
    assert_eq!(
        action,
        Action::ListContents {
            base: "/media/in".to_string(),
            folder: "Show.Name.2020".to_string()
        }
    );
}

#[test]
fn failed_rename_ends_the_session() {
    let start = config_with("a", "A");
    let (session, _) = until_naming(start, &["a"], "1");
    let (session, _) = session.step(line("B"));
    let (session, action) = session.step(Event::Failed);
    assert_eq!(action, exit(Outcome::Failed(Failure::Rename)));
    assert!(matches!(session, Session::Finished { .. }));
    assert_eq!(Outcome::Failed(Failure::Rename).exit_code(), 1);
}

#[test]
fn unchanged_name_needs_no_rename_and_no_save() {
    let start = config_with("a", "A");
    let (session, _) = until_naming(start, &["a"], "1");
    let (session, action) = session.step(line("A"));
    assert_eq!(
        action,
        Action::ListContents {
            base: "/media/in".to_string(),
            folder: "a".to_string()
        }
    );
    assert!(matches!(session, Session::Inspecting { .. }));
    assert_eq!(mapped(&session, "a"), Some("A".to_string()));
}

/// Runs a session up to the filter menu for folder `a` with name `A`.
fn until_filter() -> Session {
    let (session, _) = until_naming(config_with("a", "A"), &["a"], "1");
    let (session, _) = session.step(line("A"));
    let (session, action) = session.step(Event::Listed(names(&["x.mkv", "y.srt"])));
    assert_eq!(
        action,
        Action::ChooseFilter {
            contents: names(&["x.mkv", "y.srt"]),
            labels: filter_options()
        }
    );
    assert!(matches!(session, Session::Filtering { .. }));
    session
}

fn copy_with(filter: FilterCategory) -> Action {
    Action::Copy {
        source_base: "/media/in".to_string(),
        folder: "a".to_string(),
        destination_base: "/media/out".to_string(),
        name: "A".to_string(),
        filter,
    }
}

#[test]
fn unreadable_folder_fails() {
    let (session, _) = until_naming(config_with("a", "A"), &["a"], "1");
    let (session, _) = session.step(line("A"));
    let (_, action) = session.step(Event::Failed);
    assert_eq!(action, exit(Outcome::Failed(Failure::DirectoryRead)));
}

#[test]
fn filter_menu_picks_the_filter() {
    let picks = [
        ("1", FilterCategory::Video),
        ("2", FilterCategory::Subtitles),
        ("3", FilterCategory::Both),
        ("4", FilterCategory::Any),
        (" 2 ", FilterCategory::Subtitles),
    ];
    for (input, filter) in picks {
        let (session, action) = until_filter().step(line(input));
        assert_eq!(action, copy_with(filter), "{:?}", input);
        assert!(matches!(session, Session::Copying));
    }
}

#[test]
fn filter_menu_falls_back_to_any() {
    for input in ["0", "5", "", "video", "-1"] {
        let (_, action) = until_filter().step(line(input));
        assert_eq!(action, copy_with(FilterCategory::Any), "{:?}", input);
    }
    let (_, action) = until_filter().step(Event::NoLine);
    assert_eq!(action, copy_with(FilterCategory::Any));
    let (_, action) = until_filter().step(Event::Failed);
    assert_eq!(action, exit(Outcome::Failed(Failure::Prompt)));
}

#[test]
fn finished_copy_ends_the_session_with_success() {
    let (session, _) = until_filter().step(line("1"));
    let (session, action) = session.step(Event::Done);
    assert_eq!(action, exit(Outcome::Copied));
    assert!(matches!(
        session,
        Session::Finished {
            outcome: Outcome::Copied
        }
    ));
    assert_eq!(Outcome::Copied.exit_code(), 0);
}

#[test]
fn failed_copy_ends_the_session_with_failure() {
    let (session, _) = until_filter().step(line("1"));
    let (_, action) = session.step(Event::Failed);
    assert_eq!(action, exit(Outcome::Failed(Failure::CopyIo)));
    assert_eq!(Outcome::Failed(Failure::CopyIo).exit_code(), 1);
}

#[test]
fn finished_session_stays_finished() {
    let (session, _) = Session::start();
    let (session, _) = session.step(Event::ConfigLoaded(config()));
    let (session, _) = session.step(Event::Listed(Vec::new()));
    let (session, action) = session.step(Event::Done);
    assert_eq!(action, exit(Outcome::NoSources));
    let (_, action) = session.step(line("1"));
    assert_eq!(action, exit(Outcome::NoSources));
}

#[test]
fn event_that_answers_nothing_counts_as_failure() {
    let (session, _) = Session::start();
    let (_, action) = session.step(line("1"));
    assert_eq!(
        action,
        exit(Outcome::Failed(Failure::Config(LoadFault::Unreadable)))
    );

    let (session, _) = Session::start();
    let (session, _) = session.step(Event::ConfigLoaded(config()));
    let (_, action) = session.step(Event::Done);
    assert_eq!(action, exit(Outcome::Failed(Failure::DirectoryRead)));

    let (session, _) = until_naming(config_with("a", "A"), &["a"], "1");
    let (session, _) = session.step(line("B"));
    let (_, action) = session.step(line("again"));
    assert_eq!(action, exit(Outcome::Failed(Failure::Rename)));
}

#[test]
fn configuration_read_from_a_file_is_validated() {
    let valid = Config::new(".".to_string(), ".".to_string());
    assert!(matches!(Event::of_config(valid), Event::ConfigLoaded(_)));

    let unnamed = Config::new(String::new(), ".".to_string());
    assert!(matches!(
        Event::of_config(unnamed),
        Event::ConfigFailed(LoadFault::Invalid(ConfigError::SourceDirEmpty))
    ));

    let missing = Config::new(".".to_string(), "./no-such-directory/at-all".to_string());
    let (session, _) = Session::start();
    let (_, action) = session.step(Event::of_config(missing));
    assert_eq!(
        action,
        exit(Outcome::Failed(Failure::Config(LoadFault::Invalid(
            ConfigError::DestinationDirMissing
        ))))
    );
}
