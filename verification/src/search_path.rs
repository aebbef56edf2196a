//! The search path resolver: a snapshot of the directories that the loader
//! looks into, and the order in which it does.

use vstd::prelude::*;

use vstd::utf8::{decode_utf8, valid_utf8};

use crate::text::{
    decode_strict, lowercase, pattern_matches, regex_compiles, regex_is_match, to_lowercase,
    trim_end_nul, trim_end_nul_chars,
};
use crate::DllType;

verus! {

/// The pattern by which a forwarding module is recognised. A name matches
/// if it holds, at any place, `api` or `ext`, a hyphen, anything, `-l` and
/// three numbers with hyphens between them, any one character and `dll`.
pub const UMBRELLA_DLL_PATTERN: &'static str = r"(api|ext)-.*-l\d+-\d+-\d+.dll";

/// Whether a name is that of a forwarding module.
pub open spec fn is_umbrella_name(key: Seq<char>) -> bool {
    regex_compiles(UMBRELLA_DLL_PATTERN@) && regex_is_match(UMBRELLA_DLL_PATTERN@, key)
}

/// The value that the last of the entries with the key `key` gives.
pub open spec fn lookup<V>(entries: Seq<(Seq<char>, V)>, key: Seq<char>) -> Option<V>
    decreases entries.len(),
{
    if entries.len() == 0 {
        None
    } else if entries.last().0 == key {
        Some(entries.last().1)
    } else {
        lookup(entries.drop_last(), key)
    }
}

/// An entry with another key does not change what a key gives.
pub proof fn lemma_lookup_push<V>(
    entries: Seq<(Seq<char>, V)>,
    key: Seq<char>,
    value: V,
    other: Seq<char>,
)
    ensures
        lookup(entries.push((key, value)), other) == if other == key {
            Some(value)
        } else {
            lookup(entries, other)
        },
{
    assert(entries.push((key, value)).drop_last() == entries);
}

/// A key that the entries give a value has an entry.
pub proof fn lemma_lookup_index<V>(entries: Seq<(Seq<char>, V)>, key: Seq<char>) -> (index: int)
    requires
        lookup(entries, key) is Some,
    ensures
        0 <= index < entries.len(),
        entries[index].0 == key,
        lookup(entries, key) == Some(entries[index].1),
    decreases entries.len(),
{
    if entries.last().0 == key {
        entries.len() - 1
    } else {
        lemma_lookup_index(entries.drop_last(), key)
    }
}

/// A key that has no value has no entry.
pub proof fn lemma_lookup_none<V>(entries: Seq<(Seq<char>, V)>, key: Seq<char>)
    requires
        lookup(entries, key) is None,
    ensures
        forall|i: int| 0 <= i < entries.len() ==> (#[trigger] entries[i]).0 != key,
    decreases entries.len(),
{
    if entries.len() > 0 {
        lemma_lookup_none(entries.drop_last(), key);
        assert forall|i: int| 0 <= i < entries.len() implies (#[trigger] entries[i]).0 != key by {
            if i < entries.len() - 1 {
                assert(entries[i] == entries.drop_last()[i]);
            }
        }
    }
}

/// The location that the first of the listings with the key `key` gives,
/// from the listing at `start` on.
pub open spec fn lookup_first(
    listings: Seq<Seq<(Seq<char>, Seq<char>)>>,
    key: Seq<char>,
    start: int,
) -> Option<Seq<char>>
    decreases listings.len() - start,
{
    if start < 0 || start >= listings.len() {
        None
    } else if lookup(listings[start], key) is Some {
        lookup(listings[start], key)
    } else {
        lookup_first(listings, key, start + 1)
    }
}

/// The listings of the directories that could be read, among the first
/// `count` of `directories`, in their order.
pub open spec fn readable(directories: Seq<Option<DirectoryListing>>, count: int) -> Seq<
    Seq<(Seq<char>, Seq<char>)>,
>
    decreases count,
{
    if count <= 0 {
        Seq::empty()
    } else {
        match directories[count - 1] {
            Some(listing) => readable(directories, count - 1).push(listing@),
            None => readable(directories, count - 1),
        }
    }
}

/// Whether safe search is on, given the value of the setting where it
/// could be read: on unless the value is zero.
pub open spec fn safe_search_of(setting: Option<u32>) -> bool {
    match setting {
        Some(value) => value != 0,
        None => true,
    }
}

/// The path of a directory that the operating system wrote into a buffer:
/// what the buffer decodes to as UTF-8, without the zero characters at its
/// end. There is none if the buffer is not UTF-8.
pub fn directory_from_buffer(buffer: &[u8]) -> (path: Option<String>)
    ensures
        path is Some <==> valid_utf8(buffer@),
        path matches Some(text) ==> text@ == trim_end_nul(decode_utf8(buffer@)),
{
    match decode_strict(buffer) {
        Some(text) => Some(trim_end_nul_chars(text).to_owned()),
        None => None,
    }
}

/// The files of one directory: the lower-case name of each file with its
/// location. Where a name is entered twice, the later entry counts.
#[derive(Debug)]
pub struct DirectoryListing {
    entries: Vec<(String, String)>,
}

impl View for DirectoryListing {
    type V = Seq<(Seq<char>, Seq<char>)>;

    closed spec fn view(&self) -> Seq<(Seq<char>, Seq<char>)> {
        Seq::new(self.entries@.len(), |i: int| (self.entries@[i].0@, self.entries@[i].1@))
    }
}

impl DirectoryListing {
    /// A listing without files.
    pub fn new() -> (listing: Self)
        ensures
            listing@ == Seq::<(Seq<char>, Seq<char>)>::empty(),
    {
        let listing = DirectoryListing { entries: Vec::new() };
        assert(listing@ =~= Seq::<(Seq<char>, Seq<char>)>::empty());
        listing
    }

    /// The number of entries.
    pub fn len(&self) -> (count: usize)
        ensures
            count == self@.len(),
    {
        self.entries.len()
    }

    /// Enters the file `name` with its location under the lower-case form of
    /// the name.
    pub fn insert(&mut self, name: &str, location: &str)
        ensures
            final(self)@ == old(self)@.push((lowercase(name@), location@)),
    {
        let ghost before = self@;
        self.entries.push((to_lowercase(name), location.to_owned()));
        assert(self@ =~= before.push((lowercase(name@), location@)));
    }

    /// The location of the file whose lower-case name is `key`.
    pub fn get(&self, key: &String) -> (location: Option<&String>)
        ensures
            match location {
                Some(found) => lookup(self@, key@) == Some(found@),
                None => lookup(self@, key@) is None,
            },
    {
        let mut index: usize = self.entries.len();
        assert(self@.take(index as int) == self@);
        while index > 0
            invariant
                index <= self.entries@.len(),
                lookup(self@, key@) == lookup(self@.take(index as int), key@),
            decreases index,
        {
            assert(self@.take(index as int).drop_last() == self@.take(index - 1));
            index = index - 1;
            if self.entries[index].0 == *key {
                return Some(&self.entries[index].1);
            }
        }
        None
    }
}

/// The directory without which no snapshot can be made.
#[derive(Clone, Copy, Debug, PartialEq, Eq, Structural)]
pub enum SnapshotError {
    /// The directory of the program could not be read.
    BaseDirectory,
    /// The system directory could not be read.
    SystemDirectory,
    /// The directory of the operating system could not be read.
    WindowsDirectory,
    /// The current directory could not be read.
    CurrentDirectory,
}

/// A snapshot of what the loader would look at: the listings of the
/// directories it searches, the modules that always load from one place,
/// and whether safe search is on.
#[derive(Debug)]
pub struct SearchPath {
    safe_search_enabled: bool,
    base_directory_files: DirectoryListing,
    known_dll_files: DirectoryListing,
    system_directory_files: DirectoryListing,
    windows_directory_files: DirectoryListing,
    path_directory_files: Vec<DirectoryListing>,
    current_directory_files: DirectoryListing,
}

/// A snapshot as a mathematical value.
pub struct SearchPathModel {
    pub safe_search_enabled: bool,
    pub base: Seq<(Seq<char>, Seq<char>)>,
    pub known: Seq<(Seq<char>, Seq<char>)>,
    pub system: Seq<(Seq<char>, Seq<char>)>,
    pub windows: Seq<(Seq<char>, Seq<char>)>,
    pub path: Seq<Seq<(Seq<char>, Seq<char>)>>,
    pub current: Seq<(Seq<char>, Seq<char>)>,
}

impl SearchPathModel {
    /// Where the directories that the safe search mode reorders have the
    /// key: with safe search the system directory, the directory of the
    /// operating system, then the current directory; without it the current
    /// directory comes first.
    pub open spec fn locate_in_directories(self, key: Seq<char>) -> Option<(Seq<char>, DllType)> {
        let system = match lookup(self.system, key) {
            Some(location) => Some((location, DllType::System)),
            None => match lookup(self.windows, key) {
                Some(location) => Some((location, DllType::System)),
                None => None,
            },
        };
        let current = match lookup(self.current, key) {
            Some(location) => Some((location, DllType::User)),
            None => None,
        };
        if self.safe_search_enabled {
            if system is Some {
                system
            } else {
                current
            }
        } else {
            if current is Some {
                current
            } else {
                system
            }
        }
    }

    /// Where the module with the lower-case name `key` is found, and as
    /// what: the first of the trusted modules, the directory of the program,
    /// the directories that the safe search mode orders, and the directories
    /// of the search path in their order. A key that none of them has, and
    /// that is the name of a forwarding module, is found without a location.
    pub open spec fn locate(self, key: Seq<char>) -> Option<(Seq<char>, DllType)> {
        match lookup(self.known, key) {
            Some(location) => Some((location, DllType::Known)),
            None => match lookup(self.base, key) {
                Some(location) => Some((location, DllType::User)),
                None => match self.locate_in_directories(key) {
                    Some(found) => Some(found),
                    None => match lookup_first(self.path, key, 0) {
                        Some(location) => Some((location, DllType::Path)),
                        None => if is_umbrella_name(key) {
                            Some((Seq::empty(), DllType::Umbrella))
                        } else {
                            None
                        },
                    },
                },
            },
        }
    }

    /// Where the module `name` is found: names are compared in lower case.
    pub open spec fn search(self, name: Seq<char>) -> Option<(Seq<char>, DllType)> {
        self.locate(lowercase(name))
    }

    /// Whether one of the listings has the key.
    pub open spec fn lists(self, key: Seq<char>) -> bool {
        ||| lookup(self.known, key) is Some
        ||| lookup(self.base, key) is Some
        ||| lookup(self.system, key) is Some
        ||| lookup(self.windows, key) is Some
        ||| lookup(self.current, key) is Some
        ||| lookup_first(self.path, key, 0) is Some
    }

    /// The keys that the listings have: the modules that can be found at a
    /// location.
    pub open spec fn listed(self) -> Set<Seq<char>> {
        Set::new(|key: Seq<char>| self.lists(key))
    }
}

/// Names that differ only in the case of their letters are found alike.
pub proof fn lemma_search_ignores_case(
    snapshot: SearchPathModel,
    first: Seq<char>,
    second: Seq<char>,
)
    requires
        lowercase(first) == lowercase(second),
    ensures
        snapshot.search(first) == snapshot.search(second),
{
}

/// A module that is neither trusted nor in the directory of the program,
/// and that both the current directory and the system directory have, is
/// found in the system directory with safe search and in the current
/// directory without it.
pub proof fn lemma_safe_search_order(snapshot: SearchPathModel, key: Seq<char>)
    requires
        lookup(snapshot.known, key) is None,
        lookup(snapshot.base, key) is None,
        lookup(snapshot.system, key) is Some,
        lookup(snapshot.current, key) is Some,
    ensures
        snapshot.safe_search_enabled ==> snapshot.locate(key) == Some(
            (lookup(snapshot.system, key).unwrap(), DllType::System),
        ),
        !snapshot.safe_search_enabled ==> snapshot.locate(key) == Some(
            (lookup(snapshot.current, key).unwrap(), DllType::User),
        ),
{
}

/// A trusted module is found at its trusted location, whatever the
/// directories hold.
pub proof fn lemma_known_first(snapshot: SearchPathModel, key: Seq<char>)
    requires
        lookup(snapshot.known, key) is Some,
    ensures
        snapshot.locate(key) == Some((lookup(snapshot.known, key).unwrap(), DllType::Known)),
{
}

/// The name of a forwarding module that no listing has is found without a
/// location; another name that no listing has is not found.
pub proof fn lemma_umbrella_last(snapshot: SearchPathModel, key: Seq<char>)
    requires
        lookup(snapshot.known, key) is None,
        lookup(snapshot.base, key) is None,
        lookup(snapshot.system, key) is None,
        lookup(snapshot.windows, key) is None,
        lookup(snapshot.current, key) is None,
        lookup_first(snapshot.path, key, 0) is None,
    ensures
        is_umbrella_name(key) ==> snapshot.locate(key) == Some(
            (Seq::<char>::empty(), DllType::Umbrella),
        ),
        !is_umbrella_name(key) ==> snapshot.locate(key) is None,
{
}

/// The keys of the entries, in their order.
spec fn key_seq<V>(entries: Seq<(Seq<char>, V)>) -> Seq<Seq<char>> {
    Seq::new(entries.len(), |i: int| entries[i].0)
}

/// The keys of the first `count` listings, one listing after the other.
spec fn path_key_seq(path: Seq<Seq<(Seq<char>, Seq<char>)>>, count: int) -> Seq<Seq<char>>
    decreases count,
{
    if count <= 0 {
        Seq::empty()
    } else {
        path_key_seq(path, count - 1) + key_seq(path[count - 1])
    }
}

/// The keys of all listings of a snapshot.
spec fn all_keys(snapshot: SearchPathModel) -> Seq<Seq<char>> {
    key_seq(snapshot.known) + key_seq(snapshot.base) + key_seq(snapshot.system) + key_seq(
        snapshot.windows,
    ) + key_seq(snapshot.current) + path_key_seq(snapshot.path, snapshot.path.len() as int)
}

proof fn lemma_lookup_in_keys<V>(entries: Seq<(Seq<char>, V)>, key: Seq<char>)
    requires
        lookup(entries, key) is Some,
    ensures
        key_seq(entries).contains(key),
{
    let index = lemma_lookup_index(entries, key);
    assert(key_seq(entries)[index] == key);
}

proof fn lemma_path_keys_hold(
    path: Seq<Seq<(Seq<char>, Seq<char>)>>,
    key: Seq<char>,
    index: int,
    count: int,
)
    requires
        0 <= index < count <= path.len(),
        key_seq(path[index]).contains(key),
    ensures
        path_key_seq(path, count).contains(key),
    decreases count,
{
    broadcast use vstd::seq_lib::lemma_seq_concat_contains_all_elements;

    if index < count - 1 {
        lemma_path_keys_hold(path, key, index, count - 1);
    }
}

proof fn lemma_lookup_first_in_keys(
    path: Seq<Seq<(Seq<char>, Seq<char>)>>,
    key: Seq<char>,
    start: int,
)
    requires
        0 <= start,
        lookup_first(path, key, start) is Some,
    ensures
        path_key_seq(path, path.len() as int).contains(key),
    decreases path.len() - start,
{
    if lookup(path[start], key) is Some {
        lemma_lookup_in_keys(path[start], key);
        lemma_path_keys_hold(path, key, start, path.len() as int);
    } else {
        lemma_lookup_first_in_keys(path, key, start + 1);
    }
}

/// A snapshot lists finitely many keys.
pub proof fn lemma_listed_finite(snapshot: SearchPathModel)
    ensures
        snapshot.listed().finite(),
{
    broadcast use vstd::seq_lib::lemma_seq_concat_contains_all_elements;
    broadcast use vstd::seq_lib::seq_to_set_is_finite;

    let keys = all_keys(snapshot);
    assert forall|key: Seq<char>| snapshot.listed().contains(key) implies keys.to_set().contains(
        key,
    ) by {
        if lookup(snapshot.known, key) is Some {
            lemma_lookup_in_keys(snapshot.known, key);
        } else if lookup(snapshot.base, key) is Some {
            lemma_lookup_in_keys(snapshot.base, key);
        } else if lookup(snapshot.system, key) is Some {
            lemma_lookup_in_keys(snapshot.system, key);
        } else if lookup(snapshot.windows, key) is Some {
            lemma_lookup_in_keys(snapshot.windows, key);
        } else if lookup(snapshot.current, key) is Some {
            lemma_lookup_in_keys(snapshot.current, key);
        } else {
            lemma_lookup_first_in_keys(snapshot.path, key, 0);
        }
        assert(keys.contains(key));
    }
    vstd::set_lib::lemma_len_subset(snapshot.listed(), keys.to_set());
}

/// A module that is found at a location is listed: apart from the listed
/// keys only forwarding modules are found.
pub proof fn lemma_located_is_listed(snapshot: SearchPathModel, key: Seq<char>)
    ensures
        snapshot.locate(key) matches Some((_, dll_type)) ==> dll_type == DllType::Umbrella
            || snapshot.lists(key),
{
}

impl View for SearchPath {
    type V = SearchPathModel;

    closed spec fn view(&self) -> SearchPathModel {
        SearchPathModel {
            safe_search_enabled: self.safe_search_enabled,
            base: self.base_directory_files@,
            known: self.known_dll_files@,
            system: self.system_directory_files@,
            windows: self.windows_directory_files@,
            path: Seq::new(
                self.path_directory_files@.len(),
                |i: int| self.path_directory_files@[i]@,
            ),
            current: self.current_directory_files@,
        }
    }
}

/// What the search finds for a name that no listing has, given what the
/// match of the pattern against the name came to: a forwarding module
/// without a location if the pattern matched, and nothing if it did not
/// match or could not be compiled.
pub fn umbrella_module(matched: Option<bool>) -> (found: Option<(String, DllType)>)
    ensures
        match found {
            Some((path, kind)) => matched == Some(true) && path@ == Seq::<char>::empty() && kind
                == DllType::Umbrella,
            None => matched != Some(true),
        },
{
    match matched {
        Some(true) => Some((String::new(), DllType::Umbrella)),
        _ => None,
    }
}

/// The found location with its kind, if there is a location.
fn classify(location: Option<&String>, dll_type: DllType) -> (found: Option<(String, DllType)>)
    ensures
        match found {
            Some((path, kind)) => location matches Some(given) && path@ == given@ && kind
                == dll_type,
            None => location is None,
        },
{
    match location {
        Some(path) => Some((path.clone(), dll_type)),
        None => None,
    }
}

impl SearchPath {
    /// Makes the snapshot of what the collaborators could read. `None`
    /// stands for what could not be read. Without the setting, safe search
    /// is on; without the list of trusted modules, none is trusted; a
    /// directory of the search path that could not be read is left out. The
    /// four other directories are needed: the first of them that is missing,
    /// in the order of the parameters, is the error.
    pub fn new(
        safe_search_mode: Option<u32>,
        known_dlls: Option<DirectoryListing>,
        base_directory: Option<DirectoryListing>,
        system_directory: Option<DirectoryListing>,
        windows_directory: Option<DirectoryListing>,
        path_directories: Vec<Option<DirectoryListing>>,
        current_directory: Option<DirectoryListing>,
    ) -> (snapshot: Result<SearchPath, SnapshotError>)
        ensures
            match snapshot {
                Ok(search_path) => {
                    &&& base_directory matches Some(base)
                    &&& system_directory matches Some(system)
                    &&& windows_directory matches Some(windows)
                    &&& current_directory matches Some(current)
                    &&& search_path@ == (SearchPathModel {
                        safe_search_enabled: safe_search_of(safe_search_mode),
                        base: base@,
                        known: match known_dlls {
                            Some(known) => known@,
                            None => Seq::empty(),
                        },
                        system: system@,
                        windows: windows@,
                        path: readable(path_directories@, path_directories@.len() as int),
                        current: current@,
                    })
                },
                Err(SnapshotError::BaseDirectory) => base_directory is None,
                Err(SnapshotError::SystemDirectory) => base_directory is Some && system_directory
                    is None,
                Err(SnapshotError::WindowsDirectory) => base_directory is Some && system_directory
                    is Some && windows_directory is None,
                Err(SnapshotError::CurrentDirectory) => base_directory is Some && system_directory
                    is Some && windows_directory is Some && current_directory is None,
            },
    {
        let safe_search_enabled = match safe_search_mode {
            Some(value) => value != 0,
            None => true,
        };
        let known_dll_files = match known_dlls {
            Some(known) => known,
            None => DirectoryListing::new(),
        };
        let base_directory_files = match base_directory {
            Some(listing) => listing,
            None => {
                return Err(SnapshotError::BaseDirectory);
            },
        };
        let system_directory_files = match system_directory {
            Some(listing) => listing,
            None => {
                return Err(SnapshotError::SystemDirectory);
            },
        };
        let windows_directory_files = match windows_directory {
            Some(listing) => listing,
            None => {
                return Err(SnapshotError::WindowsDirectory);
            },
        };
        let current_directory_files = match current_directory {
            Some(listing) => listing,
            None => {
                return Err(SnapshotError::CurrentDirectory);
            },
        };
        let ghost given = path_directories@;
        let mut remaining = path_directories;
        let mut path_directory_files: Vec<DirectoryListing> = Vec::new();
        let ghost mut taken: int = 0;
        while remaining.len() > 0
            invariant
                0 <= taken <= given.len(),
                remaining@ == given.skip(taken),
                Seq::new(path_directory_files@.len(), |i: int| path_directory_files@[i]@)
                    == readable(given, taken),
            decreases remaining@.len(),
        {
            let ghost before = Seq::new(
                path_directory_files@.len(),
                |i: int| path_directory_files@[i]@,
            );
            let directory = remaining.remove(0);
            proof {
                assert(directory == given[taken]);
                assert(remaining@ == given.skip(taken + 1));
                taken = taken + 1;
            }
            match directory {
                Some(listing) => {
                    path_directory_files.push(listing);
                    assert(Seq::new(
                        path_directory_files@.len(),
                        |i: int| path_directory_files@[i]@,
                    ) == before.push(listing@));
                },
                None => {},
            }
        }
        let search_path = SearchPath {
            safe_search_enabled,
            base_directory_files,
            known_dll_files,
            system_directory_files,
            windows_directory_files,
            path_directory_files,
            current_directory_files,
        };
        Ok(search_path)
    }

    /// Whether the current directory is searched after the system
    /// directories.
    pub fn safe_search_enabled(&self) -> (enabled: bool)
        ensures
            enabled == self@.safe_search_enabled,
    {
        self.safe_search_enabled
    }

    /// Looks in the directories of the search path, in their order.
    fn find_in_path(&self, key: &String) -> (location: Option<&String>)
        ensures
            match location {
                Some(found) => lookup_first(self@.path, key@, 0) == Some(found@),
                None => lookup_first(self@.path, key@, 0) is None,
            },
    {
        let mut index: usize = 0;
        while index < self.path_directory_files.len()
            invariant
                index <= self.path_directory_files@.len(),
                lookup_first(self@.path, key@, 0) == lookup_first(self@.path, key@, index as int),
            decreases self.path_directory_files@.len() - index,
        {
            let found = self.path_directory_files[index].get(key);
            if found.is_some() {
                return found;
            }
            index = index + 1;
        }
        None
    }

    /// Finds the module whose lower-case name is `key`.
    pub fn search_key(&self, key: &String) -> (found: Option<(String, DllType)>)
        ensures
            match found {
                Some((path, kind)) => self@.locate(key@) == Some((path@, kind)),
                None => self@.locate(key@) is None,
            },
    {
        let known = classify(self.known_dll_files.get(key), DllType::Known);
        if known.is_some() {
            return known;
        }
        let base = classify(self.base_directory_files.get(key), DllType::User);
        if base.is_some() {
            return base;
        }
        let current = classify(self.current_directory_files.get(key), DllType::User);
        if !self.safe_search_enabled && current.is_some() {
            return current;
        }
        let system = classify(self.system_directory_files.get(key), DllType::System);
        if system.is_some() {
            return system;
        }
        let windows = classify(self.windows_directory_files.get(key), DllType::System);
        if windows.is_some() {
            return windows;
        }
        if current.is_some() {
            return current;
        }
        let path = classify(self.find_in_path(key), DllType::Path);
        if path.is_some() {
            return path;
        }
        umbrella_module(pattern_matches(UMBRELLA_DLL_PATTERN, key.as_str()))
    }

    /// Finds the module `name`, whatever the case of its letters.
    pub fn search(&self, name: &str) -> (found: Option<(String, DllType)>)
        ensures
            match found {
                Some((path, kind)) => self@.search(name@) == Some((path@, kind)),
                None => self@.search(name@) is None,
            },
    {
        let key = to_lowercase(name);
        self.search_key(&key)
    }
}

} // verus!
