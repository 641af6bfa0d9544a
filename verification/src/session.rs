//! The interactive session as a state machine.
//!
//! The session decides; its caller acts. The caller performs the action
//! that the session hands out (reads a file, lists a directory, shows a
//! menu and reads a line, renames, copies) and reports what came of it as
//! an event. `Session::step` takes the event and gives the next state and
//! the next action. An event that does not answer the pending action counts
//! as that action's failure.

use vstd::prelude::*;
use crate::config::{verdict, Config, ConfigError, ConfigView};
use crate::filter::{
    any_label, both_label, filter_options, subtitles_label, video_label, FilterCategory,
};
use crate::menu::{choice_of, label_of, menu_label, parse_choice};
use crate::normalize::{clean_filename, cleaned};
use crate::text::{contents, sort_names, sorted_texts};

verus! {

/// Why no configuration could be had.
#[derive(Clone, Copy, Debug, PartialEq, Eq, Structural)]
pub enum LoadFault {
    /// The file could not be read.
    Unreadable,
    /// The file does not hold a configuration.
    Malformed,
    /// The configuration was refused.
    Invalid(ConfigError),
}

/// What made a session fail.
#[derive(Clone, Copy, Debug, PartialEq, Eq, Structural)]
pub enum Failure {
    /// No configuration could be had.
    Config(LoadFault),
    /// The configuration could not be written back.
    ConfigWrite,
    /// A directory could not be listed.
    DirectoryRead,
    /// The destination folder could not be renamed.
    Rename,
    /// The copy stopped on an error.
    CopyIo,
    /// No prompt could be shown.
    Prompt,
}

/// How a session ended.
#[derive(Clone, Copy, Debug, PartialEq, Eq, Structural)]
pub enum Outcome {
    /// The files were copied.
    Copied,
    /// The source directory holds no folder.
    NoSources,
    /// The user picked no folder.
    Cancelled,
    /// The session failed.
    Failed(Failure),
}

impl Outcome {
    /// The exit code that reports the outcome: 0 unless the session failed.
    pub open spec fn code(self) -> int {
        match self {
            Outcome::Failed(_) => 1,
            _ => 0,
        }
    }

    /// The exit code that reports the outcome.
    pub fn exit_code(&self) -> (code: i32)
        ensures
            code == self.code(),
    {
        match self {
            Outcome::Failed(_) => 1,
            _ => 0,
        }
    }
}

/// What the caller reports of the action it performed.
#[derive(Debug)]
pub enum Event {
    /// The configuration was read and found valid.
    ConfigLoaded(Config),
    /// No configuration could be had.
    ConfigFailed(LoadFault),
    /// The names found in the directory that was listed.
    Listed(Vec<String>),
    /// The line that the user entered.
    Line(String),
    /// The prompt ended without a line: the user interrupted it, the input
    /// is at its end, or reading failed.
    NoLine,
    /// The action succeeded.
    Done,
    /// The action failed.
    Failed,
}

impl Event {
    /// The event that reports a configuration read from its file. The
    /// configuration is validated first: it is handed on where it is
    /// valid, and refused with the error found where it is not.
    pub fn of_config(config: Config) -> (event: Event)
        ensures
            match event {
                Event::ConfigLoaded(held) => held@ == config@ && config@.source_dir.len() > 0
                    && config@.destination_dir.len() > 0,
                Event::ConfigFailed(LoadFault::Invalid(error)) => exists|
                    source_exists: bool,
                    destination_exists: bool,
                |
                    #[trigger] verdict(
                        config@.source_dir,
                        source_exists,
                        config@.destination_dir,
                        destination_exists,
                    ) == Err::<(), ConfigError>(error),
                _ => false,
            },
            config@.source_dir.len() == 0 ==> event@ == EventView::ConfigFailed(
                LoadFault::Invalid(ConfigError::SourceDirEmpty),
            ),
    {
        match config.is_valid() {
            Ok(()) => Event::ConfigLoaded(config),
            Err(error) => {
                proof {
                    let refused = Err::<(), ConfigError>(error);
                    let (source_exists, destination_exists) = choose|
                        source_exists: bool,
                        destination_exists: bool,
                    |
                        refused == #[trigger] verdict(
                            config@.source_dir,
                            source_exists,
                            config@.destination_dir,
                            destination_exists,
                        );
                    assert(verdict(
                        config@.source_dir,
                        source_exists,
                        config@.destination_dir,
                        destination_exists,
                    ) == refused);
                }
                Event::ConfigFailed(LoadFault::Invalid(error))
            },
        }
    }
}

/// What the caller is to do next.
#[derive(Debug, PartialEq, Eq)]
pub enum Action {
    /// Read the configuration and validate it.
    LoadConfig,
    /// List the folders in `dir`.
    ListSources { dir: String },
    /// Show `labels` as a numbered menu and read a line.
    ChooseFolder { labels: Vec<String> },
    /// Ask for the destination name of `folder`, with `initial` to edit.
    AskDestination { folder: String, initial: String },
    /// Rename the folder `from` in `base` to `to`.
    Rename { base: String, from: String, to: String },
    /// Write the session's configuration back.
    SaveConfig,
    /// List what the folder `folder` in `base` holds.
    ListContents { base: String, folder: String },
    /// Show `contents`, then `labels` as a numbered menu, and read a line.
    ChooseFilter { contents: Vec<String>, labels: Vec<String> },
    /// Copy what `filter` selects from `folder` in `source_base` to `name`
    /// in `destination_base`.
    Copy {
        source_base: String,
        folder: String,
        destination_base: String,
        name: String,
        filter: FilterCategory,
    },
    /// Leave, reporting `outcome`.
    Exit { outcome: Outcome },
}

/// Where a session stands. Each state but the last waits for the event
/// that answers the action handed out on entering it.
#[derive(Debug)]
pub enum Session {
    /// Waiting for the configuration.
    Loading,
    /// Waiting for the list of source folders.
    Listing { config: Config },
    /// Waiting for the user's pick among `sources`.
    Choosing { config: Config, sources: Vec<String> },
    /// Waiting for the destination name of `folder`, which so far has the
    /// name `current`, if any.
    Naming { config: Config, folder: String, current: Option<String> },
    /// Waiting for the destination folder to be renamed to `name`.
    Renaming { config: Config, folder: String, name: String },
    /// Waiting for the configuration to be written.
    Saving { config: Config, folder: String, name: String },
    /// Waiting for the list of what `folder` holds.
    Inspecting { config: Config, folder: String, name: String },
    /// Waiting for the user's pick of a filter.
    Filtering { config: Config, folder: String, name: String },
    /// Waiting for the copy to end.
    Copying,
    /// The session has ended.
    Finished { outcome: Outcome },
}

/// What an event holds.
pub enum EventView {
    ConfigLoaded(ConfigView),
    ConfigFailed(LoadFault),
    Listed(Seq<Seq<char>>),
    Line(Seq<char>),
    NoLine,
    Done,
    Failed,
}

/// What an action holds.
pub enum ActionView {
    LoadConfig,
    ListSources { dir: Seq<char> },
    ChooseFolder { labels: Seq<Seq<char>> },
    AskDestination { folder: Seq<char>, initial: Seq<char> },
    Rename { base: Seq<char>, from: Seq<char>, to: Seq<char> },
    SaveConfig,
    ListContents { base: Seq<char>, folder: Seq<char> },
    ChooseFilter { contents: Seq<Seq<char>>, labels: Seq<Seq<char>> },
    Copy {
        source_base: Seq<char>,
        folder: Seq<char>,
        destination_base: Seq<char>,
        name: Seq<char>,
        filter: FilterCategory,
    },
    Exit { outcome: Outcome },
}

/// What a state holds.
pub enum SessionView {
    Loading,
    Listing { config: ConfigView },
    Choosing { config: ConfigView, sources: Seq<Seq<char>> },
    Naming { config: ConfigView, folder: Seq<char>, current: Option<Seq<char>> },
    Renaming { config: ConfigView, folder: Seq<char>, name: Seq<char> },
    Saving { config: ConfigView, folder: Seq<char>, name: Seq<char> },
    Inspecting { config: ConfigView, folder: Seq<char>, name: Seq<char> },
    Filtering { config: ConfigView, folder: Seq<char>, name: Seq<char> },
    Copying,
    Finished { outcome: Outcome },
}

/// What an optional string holds.
pub open spec fn text_of(value: Option<String>) -> Option<Seq<char>> {
    match value {
        Some(s) => Some(s@),
        None => None,
    }
}

impl View for Event {
    type V = EventView;

    open spec fn view(&self) -> EventView {
        match self {
            Event::ConfigLoaded(config) => EventView::ConfigLoaded(config@),
            Event::ConfigFailed(fault) => EventView::ConfigFailed(*fault),
            Event::Listed(names) => EventView::Listed(contents(names@)),
            Event::Line(line) => EventView::Line(line@),
            Event::NoLine => EventView::NoLine,
            Event::Done => EventView::Done,
            Event::Failed => EventView::Failed,
        }
    }
}

impl View for Action {
    type V = ActionView;

    open spec fn view(&self) -> ActionView {
        match self {
            Action::LoadConfig => ActionView::LoadConfig,
            Action::ListSources { dir } => ActionView::ListSources { dir: dir@ },
            Action::ChooseFolder { labels } => ActionView::ChooseFolder {
                labels: contents(labels@),
            },
            Action::AskDestination { folder, initial } => ActionView::AskDestination {
                folder: folder@,
                initial: initial@,
            },
            Action::Rename { base, from, to } => ActionView::Rename {
                base: base@,
                from: from@,
                to: to@,
            },
            Action::SaveConfig => ActionView::SaveConfig,
            Action::ListContents { base, folder } => ActionView::ListContents {
                base: base@,
                folder: folder@,
            },
            Action::ChooseFilter { contents: held, labels } => ActionView::ChooseFilter {
                contents: contents(held@),
                labels: contents(labels@),
            },
            Action::Copy { source_base, folder, destination_base, name, filter } => ActionView::Copy {
                source_base: source_base@,
                folder: folder@,
                destination_base: destination_base@,
                name: name@,
                filter: *filter,
            },
            Action::Exit { outcome } => ActionView::Exit { outcome: *outcome },
        }
    }
}

impl View for Session {
    type V = SessionView;

    open spec fn view(&self) -> SessionView {
        match self {
            Session::Loading => SessionView::Loading,
            Session::Listing { config } => SessionView::Listing { config: config@ },
            Session::Choosing { config, sources } => SessionView::Choosing {
                config: config@,
                sources: contents(sources@),
            },
            Session::Naming { config, folder, current } => SessionView::Naming {
                config: config@,
                folder: folder@,
                current: text_of(*current),
            },
            Session::Renaming { config, folder, name } => SessionView::Renaming {
                config: config@,
                folder: folder@,
                name: name@,
            },
            Session::Saving { config, folder, name } => SessionView::Saving {
                config: config@,
                folder: folder@,
                name: name@,
            },
            Session::Inspecting { config, folder, name } => SessionView::Inspecting {
                config: config@,
                folder: folder@,
                name: name@,
            },
            Session::Filtering { config, folder, name } => SessionView::Filtering {
                config: config@,
                folder: folder@,
                name: name@,
            },
            Session::Copying => SessionView::Copying,
            Session::Finished { outcome } => SessionView::Finished { outcome: *outcome },
        }
    }
}

/// The menu lines for `sources` under the destination names of `config`.
pub open spec fn labels_of(sources: Seq<Seq<char>>, config: ConfigView) -> Seq<Seq<char>> {
    Seq::new(sources.len(), |i: int| label_of(sources[i], config.name_of(sources[i])))
}

/// The four lines of the filter menu.
pub open spec fn filter_labels() -> Seq<Seq<char>> {
    seq![video_label(), subtitles_label(), both_label(), any_label()]
}

/// The end of a session with `outcome`.
pub open spec fn stop(outcome: Outcome) -> (SessionView, ActionView) {
    (SessionView::Finished { outcome }, ActionView::Exit { outcome })
}

/// What follows the user's pick `choice` among `sources`: 0 cancels; a
/// folder is asked a destination name for, with the name it has to start
/// from, or its cleaned name where it has none.
pub open spec fn picked(config: ConfigView, sources: Seq<Seq<char>>, choice: u32) -> (
    SessionView,
    ActionView,
) {
    if choice == 0 || choice > sources.len() {
        stop(Outcome::Cancelled)
    } else {
        let folder = sources[choice - 1];
        let current = config.name_of(folder);
        let initial = match current {
            Some(name) => name,
            None => cleaned(folder),
        };
        (
            SessionView::Naming { config, folder, current },
            ActionView::AskDestination { folder, initial },
        )
    }
}

/// The state in which what `folder` holds is about to be listed.
pub open spec fn inspect(config: ConfigView, folder: Seq<char>, name: Seq<char>) -> (
    SessionView,
    ActionView,
) {
    (
        SessionView::Inspecting { config, folder, name },
        ActionView::ListContents { base: config.source_dir, folder },
    )
}

/// The state in which the configuration, now with `name` for `folder`, is
/// about to be written.
pub open spec fn save(config: ConfigView, folder: Seq<char>, name: Seq<char>) -> (
    SessionView,
    ActionView,
) {
    (
        SessionView::Saving { config: config.with_name(folder, name), folder, name },
        ActionView::SaveConfig,
    )
}

/// What follows the destination name `name` that the user gave `folder`. A
/// folder without a name gets it, and the configuration is saved. A folder
/// that keeps its name needs nothing. A folder whose name changes has its
/// destination folder renamed first; the configuration is untouched until
/// that has succeeded.
pub open spec fn named(
    config: ConfigView,
    folder: Seq<char>,
    current: Option<Seq<char>>,
    name: Seq<char>,
) -> (SessionView, ActionView) {
    match current {
        None => save(config, folder, name),
        Some(old) => if old == name {
            inspect(config, folder, name)
        } else {
            (
                SessionView::Renaming { config, folder, name },
                ActionView::Rename { base: config.destination_dir, from: old, to: name },
            )
        },
    }
}

/// The copy that `choice` of the filter menu asks for.
pub open spec fn copy(config: ConfigView, folder: Seq<char>, name: Seq<char>, choice: u32) -> (
    SessionView,
    ActionView,
) {
    (
        SessionView::Copying,
        ActionView::Copy {
            source_base: config.source_dir,
            folder,
            destination_base: config.destination_dir,
            name,
            filter: FilterCategory::of_choice(choice),
        },
    )
}

/// The session's transitions: the state and the action that follow `event`
/// in `state`.
pub open spec fn next(state: SessionView, event: EventView) -> (SessionView, ActionView) {
    match state {
        SessionView::Loading => match event {
            EventView::ConfigLoaded(config) => (
                SessionView::Listing { config },
                ActionView::ListSources { dir: config.source_dir },
            ),
            EventView::ConfigFailed(fault) => stop(Outcome::Failed(Failure::Config(fault))),
            _ => stop(Outcome::Failed(Failure::Config(LoadFault::Unreadable))),
        },
        SessionView::Listing { config } => match event {
            EventView::Listed(names) => if names.len() == 0 {
                stop(Outcome::NoSources)
            } else {
                let sources = sorted_texts(names);
                (
                    SessionView::Choosing { config, sources },
                    ActionView::ChooseFolder { labels: labels_of(sources, config) },
                )
            },
            _ => stop(Outcome::Failed(Failure::DirectoryRead)),
        },
        SessionView::Choosing { config, sources } => match event {
            EventView::Line(line) => picked(config, sources, choice_of(line, sources.len())),
            EventView::NoLine => stop(Outcome::Cancelled),
            _ => stop(Outcome::Failed(Failure::Prompt)),
        },
        SessionView::Naming { config, folder, current } => match event {
            EventView::Line(line) => named(config, folder, current, line),
            EventView::NoLine => named(config, folder, current, Seq::empty()),
            _ => stop(Outcome::Failed(Failure::Prompt)),
        },
        SessionView::Renaming { config, folder, name } => match event {
            EventView::Done => save(config, folder, name),
            _ => stop(Outcome::Failed(Failure::Rename)),
        },
        SessionView::Saving { config, folder, name } => match event {
            EventView::Done => inspect(config, folder, name),
            _ => stop(Outcome::Failed(Failure::ConfigWrite)),
        },
        SessionView::Inspecting { config, folder, name } => match event {
            EventView::Listed(held) => (
                SessionView::Filtering { config, folder, name },
                ActionView::ChooseFilter { contents: held, labels: filter_labels() },
            ),
            _ => stop(Outcome::Failed(Failure::DirectoryRead)),
        },
        SessionView::Filtering { config, folder, name } => match event {
            EventView::Line(line) => copy(config, folder, name, choice_of(line, 4)),
            EventView::NoLine => copy(config, folder, name, 0),
            _ => stop(Outcome::Failed(Failure::Prompt)),
        },
        SessionView::Copying => match event {
            EventView::Done => stop(Outcome::Copied),
            _ => stop(Outcome::Failed(Failure::CopyIo)),
        },
        SessionView::Finished { outcome } => stop(outcome),
    }
}

/// Where the source directory holds no folder, the session ends at once.
/// It reports success and asks for nothing to be changed on disk.
pub proof fn lemma_no_sources_ends(config: ConfigView)
    ensures
        next(SessionView::Listing { config }, EventView::Listed(Seq::empty())) == stop(
            Outcome::NoSources,
        ),
        Outcome::NoSources.code() == 0,
{
}

/// A folder without a destination name gets the name that the user enters.
/// The configuration that is then saved holds that name for the folder and
/// what it held for every other folder, and when the folder is picked
/// again, the prompt starts from that name.
pub proof fn lemma_new_name_is_kept(
    config: ConfigView,
    folder: Seq<char>,
    name: Seq<char>,
    sources: Seq<Seq<char>>,
    choice: u32,
)
    requires
        1 <= choice <= sources.len(),
        sources[choice - 1] == folder,
    ensures
        next(SessionView::Naming { config, folder, current: None }, EventView::Line(name)) == (
            SessionView::Saving { config: config.with_name(folder, name), folder, name },
            ActionView::SaveConfig,
        ),
        config.with_name(folder, name).name_of(folder) == Some(name),
        forall|other: Seq<char>|
            other != folder ==> config.with_name(folder, name).name_of(other) == config.name_of(
                other,
            ),
        picked(config.with_name(folder, name), sources, choice).1 == (ActionView::AskDestination {
            folder,
            initial: name,
        }),
{
}

/// Where the user changes the destination name of a folder, the destination
/// folder is renamed first, from the old name to the new one, and the
/// configuration is as it was. Only when the renaming has succeeded does
/// the folder get the new name, and the configuration is saved. When it
/// has failed, the session ends with that failure.
pub proof fn lemma_rename_comes_first(
    config: ConfigView,
    folder: Seq<char>,
    old: Seq<char>,
    name: Seq<char>,
)
    requires
        old != name,
    ensures
        next(
            SessionView::Naming { config, folder, current: Some(old) },
            EventView::Line(name),
        ) == (
            SessionView::Renaming { config, folder, name },
            ActionView::Rename { base: config.destination_dir, from: old, to: name },
        ),
        next(SessionView::Renaming { config, folder, name }, EventView::Done) == (
            SessionView::Saving { config: config.with_name(folder, name), folder, name },
            ActionView::SaveConfig,
        ),
        next(SessionView::Renaming { config, folder, name }, EventView::Failed) == stop(
            Outcome::Failed(Failure::Rename),
        ),
{
}

/// Where the user leaves the destination name of a folder as it is, nothing
/// is renamed and nothing is saved.
pub proof fn lemma_same_name_changes_nothing(config: ConfigView, folder: Seq<char>, old: Seq<char>)
    ensures
        next(
            SessionView::Naming { config, folder, current: Some(old) },
            EventView::Line(old),
        ) == inspect(config, folder, old),
{
}

/// The menu lines for `sources` under the destination names of `config`.
pub fn menu_labels(sources: &Vec<String>, config: &Config) -> (labels: Vec<String>)
    ensures
        contents(labels@) == labels_of(contents(sources@), config@),
{
    let mut labels: Vec<String> = Vec::new();
    let mut i: usize = 0;
    while i < sources.len()
        invariant
            i <= sources.len(),
            labels@.len() == i,
            forall|k: int|
                0 <= k < i ==> (#[trigger] labels@[k])@ == label_of(
                    sources@[k]@,
                    config@.name_of(sources@[k]@),
                ),
        decreases sources.len() - i,
    {
        let name = sources[i].as_str();
        let label = match config.mapping.get(name) {
            Some(dest) => menu_label(name, Some(dest.as_str())),
            None => menu_label(name, None),
        };
        labels.push(label);
        i += 1;
    }
    assert(contents(labels@) =~= labels_of(contents(sources@), config@));
    labels
}

/// Ends the session with `outcome`.
fn finish(outcome: Outcome) -> (end: (Session, Action))
    ensures
        (end.0@, end.1@) == stop(outcome),
{
    (Session::Finished { outcome }, Action::Exit { outcome })
}

/// Acts on the user's pick among the source folders.
fn do_pick(config: Config, sources: Vec<String>, choice: u32) -> (then: (Session, Action))
    ensures
        (then.0@, then.1@) == picked(config@, contents(sources@), choice),
{
    if choice == 0 || choice as usize > sources.len() {
        return finish(Outcome::Cancelled);
    }
    let folder = sources[choice as usize - 1].clone();
    assert(folder@ == contents(sources@)[choice - 1]);
    let (current, initial) = match config.mapping.get(folder.as_str()) {
        Some(name) => (Some(name.clone()), name.clone()),
        None => (None, clean_filename(folder.as_str())),
    };
    let shown = folder.clone();
    (Session::Naming { config, folder, current }, Action::AskDestination { folder: shown, initial })
}

/// Goes on to list what the folder holds.
fn do_inspect(config: Config, folder: String, name: String) -> (then: (Session, Action))
    ensures
        (then.0@, then.1@) == inspect(config@, folder@, name@),
{
    let base = config.settings.source_dir.clone();
    let listed = folder.clone();
    (Session::Inspecting { config, folder, name }, Action::ListContents { base, folder: listed })
}

/// Gives the folder its name and goes on to save the configuration.
fn do_save(config: Config, folder: String, name: String) -> (then: (Session, Action))
    ensures
        (then.0@, then.1@) == save(config@, folder@, name@),
{
    let mut config = config;
    config.mapping.insert(folder.clone(), name.clone());
    (Session::Saving { config, folder, name }, Action::SaveConfig)
}

/// Acts on the destination name that the user gave the folder.
fn do_name(config: Config, folder: String, current: Option<String>, name: String) -> (then: (
    Session,
    Action,
))
    ensures
        (then.0@, then.1@) == named(config@, folder@, text_of(current), name@),
{
    match current {
        None => do_save(config, folder, name),
        Some(old) => {
            if old == name {
                do_inspect(config, folder, name)
            } else {
                let base = config.settings.destination_dir.clone();
                let to = name.clone();
                (
                    Session::Renaming { config, folder, name },
                    Action::Rename { base, from: old, to },
                )
            }
        },
    }
}

/// Goes on to copy under the filter that the user picked.
fn do_copy(config: Config, folder: String, name: String, choice: u32) -> (then: (Session, Action))
    ensures
        (then.0@, then.1@) == copy(config@, folder@, name@, choice),
{
    let Config { settings, mapping: _ } = config;
    (
        Session::Copying,
        Action::Copy {
            source_base: settings.source_dir,
            folder,
            destination_base: settings.destination_dir,
            name,
            filter: FilterCategory::from_choice(choice),
        },
    )
}

impl Session {
    /// The state in which a session begins, and its first action.
    pub fn start() -> (begin: (Session, Action))
        ensures
            begin.0@ == SessionView::Loading,
            begin.1@ == ActionView::LoadConfig,
    {
        (Session::Loading, Action::LoadConfig)
    }

    /// The configuration that the session holds, in the states that hold
    /// one.
    pub fn config(&self) -> (held: Option<&Config>)
        ensures
            match held {
                Some(config) => match self@ {
                    SessionView::Listing { config: c }
                    | SessionView::Choosing { config: c, .. }
                    | SessionView::Naming { config: c, .. }
                    | SessionView::Renaming { config: c, .. }
                    | SessionView::Saving { config: c, .. }
                    | SessionView::Inspecting { config: c, .. }
                    | SessionView::Filtering { config: c, .. } => config@ == c,
                    _ => false,
                },
                None => self@ is Loading || self@ is Copying || self@ is Finished,
            },
    {
        match self {
            Session::Listing { config } => Some(config),
            Session::Choosing { config, .. } => Some(config),
            Session::Naming { config, .. } => Some(config),
            Session::Renaming { config, .. } => Some(config),
            Session::Saving { config, .. } => Some(config),
            Session::Inspecting { config, .. } => Some(config),
            Session::Filtering { config, .. } => Some(config),
            _ => None,
        }
    }

    /// Takes what the caller reports of the pending action and gives the
    /// next state with the next action.
    pub fn step(self, event: Event) -> (then: (Session, Action))
        ensures
            (then.0@, then.1@) == next(self@, event@),
    {
        match self {
            Session::Loading => match event {
                Event::ConfigLoaded(config) => {
                    let dir = config.settings.source_dir.clone();
                    (Session::Listing { config }, Action::ListSources { dir })
                },
                Event::ConfigFailed(fault) => finish(Outcome::Failed(Failure::Config(fault))),
                _ => finish(Outcome::Failed(Failure::Config(LoadFault::Unreadable))),
            },
            Session::Listing { config } => match event {
                Event::Listed(names) => {
                    if names.len() == 0 {
                        assert(contents(names@).len() == 0);
                        finish(Outcome::NoSources)
                    } else {
                        let mut sources = names;
                        sort_names(&mut sources);
                        let labels = menu_labels(&sources, &config);
                        (Session::Choosing { config, sources }, Action::ChooseFolder { labels })
                    }
                },
                _ => finish(Outcome::Failed(Failure::DirectoryRead)),
            },
            Session::Choosing { config, sources } => match event {
                Event::Line(line) => {
                    let choice = parse_choice(line.as_str(), sources.len());
                    do_pick(config, sources, choice)
                },
                Event::NoLine => finish(Outcome::Cancelled),
                _ => finish(Outcome::Failed(Failure::Prompt)),
            },
            Session::Naming { config, folder, current } => match event {
                Event::Line(line) => do_name(config, folder, current, line),
                Event::NoLine => do_name(config, folder, current, String::new()),
                _ => finish(Outcome::Failed(Failure::Prompt)),
            },
            Session::Renaming { config, folder, name } => match event {
                Event::Done => {
                    let ghost before = config@;
                    let mut config = config;
                    config.mapping.remove(folder.as_str());
                    assert(config@.with_name(folder@, name@).mapping =~= before.with_name(
                        folder@,
                        name@,
                    ).mapping);
                    do_save(config, folder, name)
                },
                _ => finish(Outcome::Failed(Failure::Rename)),
            },
            Session::Saving { config, folder, name } => match event {
                Event::Done => do_inspect(config, folder, name),
                _ => finish(Outcome::Failed(Failure::ConfigWrite)),
            },
            Session::Inspecting { config, folder, name } => match event {
                Event::Listed(held) => {
                    let labels = filter_options();
                    assert(contents(labels@) =~= filter_labels());
                    (
                        Session::Filtering { config, folder, name },
                        Action::ChooseFilter { contents: held, labels },
                    )
                },
                _ => finish(Outcome::Failed(Failure::DirectoryRead)),
            },
            Session::Filtering { config, folder, name } => match event {
                Event::Line(line) => {
                    let choice = parse_choice(line.as_str(), 4);
                    do_copy(config, folder, name, choice)
                },
                Event::NoLine => do_copy(config, folder, name, 0),
                _ => finish(Outcome::Failed(Failure::Prompt)),
            },
            Session::Copying => match event {
                Event::Done => finish(Outcome::Copied),
                _ => finish(Outcome::Failed(Failure::CopyIo)),
            },
            Session::Finished { outcome } => finish(outcome),
        }
    }
}

} // verus!
