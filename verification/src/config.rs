//! The configuration: the two root directories and the mapping from source
//! folder names to the destination names chosen for them.

use vstd::prelude::*;
use vstd::string::StringExecFns;
use crate::text::same_text;

verus! {

/// Why a configuration is refused.
#[derive(Clone, Copy, Debug, PartialEq, Eq, Structural)]
pub enum ConfigError {
    /// The source directory is the empty string.
    SourceDirEmpty,
    /// Nothing is at the path of the source directory.
    SourceDirMissing,
    /// The destination directory is the empty string.
    DestinationDirEmpty,
    /// Nothing is at the path of the destination directory.
    DestinationDirMissing,
}

impl ConfigError {
    /// The words in which the error is reported.
    pub open spec fn text(self) -> Seq<char> {
        match self {
            ConfigError::SourceDirEmpty => "settings.source_dir is empty"@,
            ConfigError::SourceDirMissing => "settings.source_dir doesn't exist"@,
            ConfigError::DestinationDirEmpty => "settings.destination_dir is empty"@,
            ConfigError::DestinationDirMissing => "settings.destination_dir doesn't exist"@,
        }
    }

    /// The words in which the error is reported.
    pub fn message(&self) -> (words: String)
        ensures
            words@ == self.text(),
    {
        match self {
            ConfigError::SourceDirEmpty => String::from_str("settings.source_dir is empty"),
            ConfigError::SourceDirMissing => String::from_str("settings.source_dir doesn't exist"),
            ConfigError::DestinationDirEmpty => String::from_str(
                "settings.destination_dir is empty",
            ),
            ConfigError::DestinationDirMissing => String::from_str(
                "settings.destination_dir doesn't exist",
            ),
        }
    }
}

/// The verdict on two directory settings, given whether something exists at
/// each path. The source directory is judged first, and of each directory
/// first whether it is named at all.
pub open spec fn verdict(
    source_dir: Seq<char>,
    source_exists: bool,
    destination_dir: Seq<char>,
    destination_exists: bool,
) -> Result<(), ConfigError> {
    if source_dir.len() == 0 {
        Err(ConfigError::SourceDirEmpty)
    } else if !source_exists {
        Err(ConfigError::SourceDirMissing)
    } else if destination_dir.len() == 0 {
        Err(ConfigError::DestinationDirEmpty)
    } else if !destination_exists {
        Err(ConfigError::DestinationDirMissing)
    } else {
        Ok(())
    }
}

/// `std::path::Path::exists` asks the file system whether anything is at
/// `path`. The answer depends on what is on disk at the time of the call,
/// so nothing is stated of it.
#[verifier::external_body]
fn path_exists(path: &str) -> bool {
    std::path::Path::new(path).exists()
}

/// The two root directories.
#[derive(Debug, PartialEq, Eq)]
pub struct Settings {
    /// The directory that holds one folder per candidate item.
    pub source_dir: String,
    /// The directory under which chosen items are filed.
    pub destination_dir: String,
}

impl Clone for Settings {
    fn clone(&self) -> (copy: Self)
        ensures
            copy.source_dir@ == self.source_dir@,
            copy.destination_dir@ == self.destination_dir@,
    {
        Settings {
            source_dir: self.source_dir.clone(),
            destination_dir: self.destination_dir.clone(),
        }
    }
}

impl Settings {
    /// Judges the settings, given whether something exists at each of the
    /// two paths.
    pub fn check(&self, source_exists: bool, destination_exists: bool) -> (outcome: Result<
        (),
        ConfigError,
    >)
        ensures
            outcome == verdict(
                self.source_dir@,
                source_exists,
                self.destination_dir@,
                destination_exists,
            ),
    {
        if self.source_dir.as_str().is_empty() {
            Err(ConfigError::SourceDirEmpty)
        } else if !source_exists {
            Err(ConfigError::SourceDirMissing)
        } else if self.destination_dir.as_str().is_empty() {
            Err(ConfigError::DestinationDirEmpty)
        } else if !destination_exists {
            Err(ConfigError::DestinationDirMissing)
        } else {
            Ok(())
        }
    }
}

/// The map that a list of pairs stands for, where no key occurs twice.
pub open spec fn map_of(entries: Seq<(String, String)>) -> Map<Seq<char>, Seq<char>> {
    Map::new(
        |key: Seq<char>| exists|i: int| 0 <= i < entries.len() && #[trigger] entries[i].0@ == key,
        |key: Seq<char>|
            entries[choose|i: int| 0 <= i < entries.len() && #[trigger] entries[i].0@ == key].1@,
    )
}

/// No key occurs twice in `entries`.
pub open spec fn keys_distinct(entries: Seq<(String, String)>) -> bool {
    forall|i: int, j: int|
        0 <= i < j < entries.len() ==> #[trigger] entries[i].0@ != #[trigger] entries[j].0@
}

/// The map that inserting `pairs` one after the other into an empty map
/// gives: of two pairs with the same key, the later one stays.
pub open spec fn inserted_all(pairs: Seq<(String, String)>) -> Map<Seq<char>, Seq<char>>
    decreases pairs.len(),
{
    if pairs.len() == 0 {
        Map::empty()
    } else {
        inserted_all(pairs.drop_last()).insert(pairs.last().0@, pairs.last().1@)
    }
}

/// The destination names chosen so far, by source folder name. A folder
/// name has at most one destination name.
#[derive(Debug)]
pub struct Mapping {
    entries: Vec<(String, String)>,
}

impl View for Mapping {
    type V = Map<Seq<char>, Seq<char>>;

    closed spec fn view(&self) -> Map<Seq<char>, Seq<char>> {
        map_of(self.entries@)
    }
}

impl Clone for Mapping {
    fn clone(&self) -> (copy: Self)
        ensures
            copy@ == self@,
    {
        Mapping { entries: self.entries() }
    }
}

impl Mapping {
    #[verifier::type_invariant]
    closed spec fn inv(&self) -> bool {
        keys_distinct(self.entries@)
    }

    /// A mapping without entries.
    pub fn new() -> (mapping: Mapping)
        ensures
            mapping@ == Map::<Seq<char>, Seq<char>>::empty(),
    {
        let mapping = Mapping { entries: Vec::new() };
        assert(mapping@ =~= Map::<Seq<char>, Seq<char>>::empty());
        mapping
    }

    /// The mapping that holds `pairs`, inserted one after the other.
    pub fn from_entries(pairs: Vec<(String, String)>) -> (mapping: Mapping)
        ensures
            mapping@ == inserted_all(pairs@),
    {
        let mut mapping = Mapping::new();
        let mut i: usize = 0;
        while i < pairs.len()
            invariant
                i <= pairs.len(),
                mapping@ == inserted_all(pairs@.take(i as int)),
            decreases pairs.len() - i,
        {
            assert(pairs@.take(i + 1).drop_last() =~= pairs@.take(i as int));
            mapping.insert(pairs[i].0.clone(), pairs[i].1.clone());
            i += 1;
        }
        assert(pairs@.take(pairs.len() as int) =~= pairs@);
        mapping
    }

    /// Where `key` stands in the list, if it has an entry.
    fn position(&self, key: &str) -> (found: Option<usize>)
        ensures
            match found {
                Some(i) => i < self.entries@.len() && self.entries@[i as int].0@ == key@,
                None => forall|i: int| 0 <= i < self.entries@.len() ==> self.entries@[i].0@ != key@,
            },
    {
        let mut i: usize = 0;
        while i < self.entries.len()
            invariant
                i <= self.entries@.len(),
                forall|k: int| 0 <= k < i ==> self.entries@[k].0@ != key@,
            decreases self.entries@.len() - i,
        {
            if same_text(self.entries[i].0.as_str(), key) {
                return Some(i);
            }
            i += 1;
        }
        None
    }

    /// Whether the folder `key` has a destination name.
    pub fn contains_key(&self, key: &str) -> (found: bool)
        ensures
            found == self@.contains_key(key@),
    {
        self.position(key).is_some()
    }

    /// The destination name of the folder `key`, if it has one.
    pub fn get(&self, key: &str) -> (found: Option<&String>)
        ensures
            match found {
                Some(name) => self@.contains_key(key@) && self@[key@] == name@,
                None => !self@.contains_key(key@),
            },
    {
        proof {
            use_type_invariant(self);
        }
        match self.position(key) {
            Some(i) => {
                let ghost picked = choose|k: int|
                    0 <= k < self.entries@.len() && #[trigger] self.entries@[k].0@ == key@;
                assert(picked == i);
                Some(&self.entries[i].1)
            },
            None => None,
        }
    }

    /// Gives the folder `key` the destination name `value`, in place of the
    /// one it had, if any. Every other folder keeps its name.
    pub fn insert(&mut self, key: String, value: String)
        ensures
            final(self)@ == old(self)@.insert(key@, value@),
    {
        proof {
            use_type_invariant(&*self);
        }
        let ghost before = self.entries@;
        let place = self.position(key.as_str());
        let ghost (name, dest) = (key@, value@);
        let mut entries: Vec<(String, String)> = Vec::new();
        std::mem::swap(&mut self.entries, &mut entries);
        match place {
            Some(i) => {
                entries.set(i, (key, value));
            },
            None => {
                entries.push((key, value));
            },
        }
        proof {
            lemma_map_of_insert(before, entries@, name, dest);
        }
        self.entries = entries;
    }

    /// Takes the destination name of the folder `key` away, if it has one.
    /// Every other folder keeps its name.
    pub fn remove(&mut self, key: &str)
        ensures
            final(self)@ == old(self)@.remove(key@),
    {
        proof {
            use_type_invariant(&*self);
        }
        let ghost before = self.entries@;
        match self.position(key) {
            Some(i) => {
                let mut entries: Vec<(String, String)> = Vec::new();
                std::mem::swap(&mut self.entries, &mut entries);
                entries.remove(i);
                proof {
                    lemma_map_of_remove(before, i as int);
                }
                self.entries = entries;
            },
            None => {
                assert(self@ =~= self@.remove(key@));
            },
        }
    }

    /// The folder names with their destination names, each folder once.
    pub fn entries(&self) -> (pairs: Vec<(String, String)>)
        ensures
            keys_distinct(pairs@),
            map_of(pairs@) == self@,
    {
        proof {
            use_type_invariant(self);
        }
        let mut pairs: Vec<(String, String)> = Vec::new();
        let mut i: usize = 0;
        while i < self.entries.len()
            invariant
                i <= self.entries@.len(),
                pairs@.len() == i,
                forall|k: int|
                    0 <= k < i ==> (#[trigger] pairs@[k]).0@ == self.entries@[k].0@ && pairs@[k].1@
                        == self.entries@[k].1@,
            decreases self.entries@.len() - i,
        {
            let key = self.entries[i].0.clone();
            let value = self.entries[i].1.clone();
            pairs.push((key, value));
            i += 1;
        }
        proof {
            lemma_map_of_same(self.entries@, pairs@);
        }
        pairs
    }
}

/// Lists with the same keys and values at the same places stand for the
/// same map.
proof fn lemma_map_of_same(a: Seq<(String, String)>, b: Seq<(String, String)>)
    requires
        keys_distinct(a),
        a.len() == b.len(),
        forall|k: int| 0 <= k < a.len() ==> (#[trigger] b[k]).0@ == a[k].0@ && b[k].1@ == a[k].1@,
    ensures
        keys_distinct(b),
        map_of(b) == map_of(a),
{
    assert forall|i: int, j: int| 0 <= i < j < b.len() implies #[trigger] b[i].0@
        != #[trigger] b[j].0@ by {
        assert(a[i].0@ != a[j].0@);
    }
    assert forall|key: Seq<char>| #[trigger] map_of(a).contains_key(key) implies map_of(
        b,
    ).contains_key(key) && map_of(b)[key] == map_of(a)[key] by {
        let i = choose|i: int| 0 <= i < a.len() && #[trigger] a[i].0@ == key;
        assert(b[i].0@ == key);
        let j = choose|j: int| 0 <= j < b.len() && #[trigger] b[j].0@ == key;
        assert(i == j) by {
            if i < j {
                assert(b[i].0@ != b[j].0@);
            } else if j < i {
                assert(b[j].0@ != b[i].0@);
            }
        }
    }
    assert forall|key: Seq<char>| #[trigger] map_of(b).contains_key(key) implies map_of(
        a,
    ).contains_key(key) by {
        let j = choose|j: int| 0 <= j < b.len() && #[trigger] b[j].0@ == key;
        assert(a[j].0@ == key);
    }
    assert(map_of(b) =~= map_of(a));
}

/// In a list without a repeated key, the value under a key is the one that
/// stands beside it.
proof fn lemma_map_of_at(entries: Seq<(String, String)>, i: int)
    requires
        keys_distinct(entries),
        0 <= i < entries.len(),
    ensures
        map_of(entries).contains_key(entries[i].0@),
        map_of(entries)[entries[i].0@] == entries[i].1@,
{
    let key = entries[i].0@;
    let j = choose|j: int| 0 <= j < entries.len() && #[trigger] entries[j].0@ == key;
    if i < j {
        assert(entries[i].0@ != entries[j].0@);
    } else if j < i {
        assert(entries[j].0@ != entries[i].0@);
    }
}

/// Replacing the entry of a key, or adding one for a key that has none,
/// inserts into the map.
proof fn lemma_map_of_insert(
    before: Seq<(String, String)>,
    after: Seq<(String, String)>,
    key: Seq<char>,
    value: Seq<char>,
)
    requires
        keys_distinct(before),
        ({
            ||| exists|i: int|
                0 <= i < before.len() && before[i].0@ == key && after.len() == before.len()
                    && after[i].0@ == key && after[i].1@ == value && (forall|k: int|
                    0 <= k < before.len() && k != i ==> #[trigger] after[k] == before[k])
            ||| {
                &&& forall|i: int| 0 <= i < before.len() ==> #[trigger] before[i].0@ != key
                &&& after.len() == before.len() + 1
                &&& after.last().0@ == key
                &&& after.last().1@ == value
                &&& forall|k: int| 0 <= k < before.len() ==> #[trigger] after[k] == before[k]
            }
        }),
    ensures
        keys_distinct(after),
        map_of(after) == map_of(before).insert(key, value),
{
    assert forall|i: int, j: int| 0 <= i < j < after.len() implies #[trigger] after[i].0@
        != #[trigger] after[j].0@ by {
        if i < before.len() && j < before.len() {
            assert(before[i].0@ != before[j].0@);
        }
    }
    let want = map_of(before).insert(key, value);
    assert forall|k: Seq<char>| #[trigger] map_of(after).contains_key(k) implies want.contains_key(
        k,
    ) && want[k] == map_of(after)[k] by {
        let j = choose|j: int| 0 <= j < after.len() && #[trigger] after[j].0@ == k;
        lemma_map_of_at(after, j);
        if k != key {
            assert(j < before.len());
            assert(after[j] == before[j]);
            lemma_map_of_at(before, j);
        }
    }
    assert forall|k: Seq<char>| #[trigger] want.contains_key(k) implies map_of(after).contains_key(
        k,
    ) by {
        if k == key {
            if after.len() == before.len() + 1 {
                assert(after[after.len() - 1].0@ == key);
            } else {
                let i = choose|i: int|
                    0 <= i < before.len() && before[i].0@ == key && after.len() == before.len()
                        && after[i].0@ == key;
                assert(after[i].0@ == key);
            }
        } else {
            let j = choose|j: int| 0 <= j < before.len() && #[trigger] before[j].0@ == k;
            assert(after[j] == before[j]);
            assert(after[j].0@ == k);
        }
    }
    assert(map_of(after) =~= want);
}

/// Where no key occurs twice, pairs inserted one after the other give the
/// map that the list stands for. So the mapping made from the entries of a
/// mapping is that mapping again.
pub proof fn lemma_entries_give_the_mapping_back(pairs: Seq<(String, String)>)
    requires
        keys_distinct(pairs),
    ensures
        inserted_all(pairs) == map_of(pairs),
    decreases pairs.len(),
{
    if pairs.len() == 0 {
        assert(map_of(pairs) =~= Map::<Seq<char>, Seq<char>>::empty());
    } else {
        let front = pairs.drop_last();
        assert forall|i: int, j: int| 0 <= i < j < front.len() implies #[trigger] front[i].0@
            != #[trigger] front[j].0@ by {
            assert(pairs[i].0@ != pairs[j].0@);
        }
        lemma_entries_give_the_mapping_back(front);
        assert forall|i: int| 0 <= i < front.len() implies #[trigger] front[i].0@
            != pairs.last().0@ by {
            assert(pairs[i].0@ != pairs[pairs.len() - 1].0@);
        }
        lemma_map_of_insert(front, pairs, pairs.last().0@, pairs.last().1@);
    }
}

/// Taking an entry out of the list removes its key from the map.
proof fn lemma_map_of_remove(before: Seq<(String, String)>, i: int)
    requires
        keys_distinct(before),
        0 <= i < before.len(),
    ensures
        keys_distinct(before.remove(i)),
        map_of(before.remove(i)) == map_of(before).remove(before[i].0@),
{
    let after = before.remove(i);
    let key = before[i].0@;
    assert forall|a: int, b: int| 0 <= a < b < after.len() implies #[trigger] after[a].0@
        != #[trigger] after[b].0@ by {
        let a0 = if a < i { a } else { a + 1 };
        let b0 = if b < i { b } else { b + 1 };
        assert(before[a0].0@ != before[b0].0@);
    }
    let want = map_of(before).remove(key);
    assert forall|k: Seq<char>| #[trigger] map_of(after).contains_key(k) implies want.contains_key(
        k,
    ) && want[k] == map_of(after)[k] by {
        let j = choose|j: int| 0 <= j < after.len() && #[trigger] after[j].0@ == k;
        lemma_map_of_at(after, j);
        let j0 = if j < i { j } else { j + 1 };
        assert(after[j] == before[j0]);
        lemma_map_of_at(before, j0);
        if j0 < i {
            assert(before[j0].0@ != before[i].0@);
        } else {
            assert(before[i].0@ != before[j0].0@);
        }
    }
    assert forall|k: Seq<char>| #[trigger] want.contains_key(k) implies map_of(after).contains_key(
        k,
    ) by {
        let j0 = choose|j: int| 0 <= j < before.len() && #[trigger] before[j].0@ == k;
        let j = if j0 < i { j0 } else { j0 - 1 };
        assert(after[j] == before[j0]);
        assert(after[j].0@ == k);
    }
    assert(map_of(after) =~= want);
}

/// What a configuration holds.
pub struct ConfigView {
    /// The path of the source directory.
    pub source_dir: Seq<char>,
    /// The path of the destination directory.
    pub destination_dir: Seq<char>,
    /// The destination names, by source folder name.
    pub mapping: Map<Seq<char>, Seq<char>>,
}

impl ConfigView {
    /// The destination name of `folder`, if it has one.
    pub open spec fn name_of(self, folder: Seq<char>) -> Option<Seq<char>> {
        if self.mapping.contains_key(folder) {
            Some(self.mapping[folder])
        } else {
            None
        }
    }

    /// The configuration in which `folder` has the destination name `name`.
    pub open spec fn with_name(self, folder: Seq<char>, name: Seq<char>) -> ConfigView {
        ConfigView { mapping: self.mapping.insert(folder, name), ..self }
    }
}

/// The configuration that the tool keeps between its runs.
#[derive(Debug)]
pub struct Config {
    /// The two root directories.
    pub settings: Settings,
    /// The destination names chosen so far.
    pub mapping: Mapping,
}

impl View for Config {
    type V = ConfigView;

    open spec fn view(&self) -> ConfigView {
        ConfigView {
            source_dir: self.settings.source_dir@,
            destination_dir: self.settings.destination_dir@,
            mapping: self.mapping@,
        }
    }
}

impl Clone for Config {
    fn clone(&self) -> (copy: Self)
        ensures
            copy@ == self@,
    {
        Config { settings: self.settings.clone(), mapping: self.mapping.clone() }
    }
}

impl Config {
    /// A configuration with the two directories and no destination names.
    pub fn new(source_dir: String, destination_dir: String) -> (config: Config)
        ensures
            config.settings.source_dir@ == source_dir@,
            config.settings.destination_dir@ == destination_dir@,
            config.mapping@ == Map::<Seq<char>, Seq<char>>::empty(),
    {
        Config { settings: Settings { source_dir, destination_dir }, mapping: Mapping::new() }
    }

    /// Validates the configuration: both directories must be named, and
    /// something must exist at each path. The file system is asked for a
    /// directory only once the checks before it have passed. Its answers
    /// go to `Settings::check`, which decides; the mapping plays no part.
    pub fn is_valid(&self) -> (outcome: Result<(), ConfigError>)
        ensures
            exists|source_exists: bool, destination_exists: bool|
                outcome == #[trigger] verdict(
                    self.settings.source_dir@,
                    source_exists,
                    self.settings.destination_dir@,
                    destination_exists,
                ),
            self.settings.source_dir@.len() == 0 <==> outcome == Err::<(), ConfigError>(
                ConfigError::SourceDirEmpty,
            ),
            outcome == Err::<(), ConfigError>(ConfigError::DestinationDirEmpty)
                ==> self.settings.source_dir@.len() > 0 && self.settings.destination_dir@.len()
                == 0,
            outcome == Err::<(), ConfigError>(ConfigError::DestinationDirMissing)
                ==> self.settings.source_dir@.len() > 0 && self.settings.destination_dir@.len()
                > 0,
            outcome is Ok ==> self.settings.source_dir@.len() > 0
                && self.settings.destination_dir@.len() > 0,
    {
        let source = self.settings.source_dir.as_str();
        let destination = self.settings.destination_dir.as_str();
        let source_exists = !source.is_empty() && path_exists(source);
        let destination_exists = source_exists && !destination.is_empty() && path_exists(
            destination,
        );
        self.settings.check(source_exists, destination_exists)
    }
}

} // verus!
