//! The catalog of resolved modules: each name is located and parsed once,
//! and what came of it is kept.

use vstd::prelude::*;

use crate::pe::file::File;
use crate::search_path::{
    lemma_lookup_none, lemma_lookup_push, lookup, SearchPath, SearchPathModel,
};
use crate::text::{lowercase, to_lowercase};
use crate::DllType;

verus! {

/// A module that was found and read.
#[derive(Debug)]
pub struct DllInfo {
    pub path: String,
    pub dll_type: DllType,
    pub file: File,
}

/// A resolved module as a mathematical value.
pub struct DllInfoModel {
    pub path: Seq<char>,
    pub dll_type: DllType,
    pub imports: Seq<Seq<char>>,
}

impl View for DllInfo {
    type V = DllInfoModel;

    open spec fn view(&self) -> DllInfoModel {
        DllInfoModel { path: self.path@, dll_type: self.dll_type, imports: self.file@ }
    }
}

/// The bytes of a file, where it could be read.
pub open spec fn contents_of(contents: Option<&[u8]>) -> Option<Seq<u8>> {
    match contents {
        Some(data) => Some(data@),
        None => None,
    }
}

/// What becomes of a module that the search found at `path` as `dll_type`,
/// given the contents of the file there: a forwarding module has no file and
/// imports nothing; another module is what its file parses to, and nothing
/// if the file could not be read or is no image.
pub open spec fn parsed(path: Seq<char>, dll_type: DllType, contents: Option<Seq<u8>>) -> Option<
    DllInfoModel,
> {
    if dll_type == DllType::Umbrella {
        Some(DllInfoModel { path, dll_type, imports: Seq::empty() })
    } else {
        match contents {
            None => None,
            Some(data) => match File::decode(data) {
                Ok(imports) => Some(DllInfoModel { path, dll_type, imports }),
                Err(_) => None,
            },
        }
    }
}

/// What becomes of a module, given what the search found for it.
pub open spec fn resolved(found: Option<(Seq<char>, DllType)>, contents: Option<Seq<u8>>) -> Option<
    DllInfoModel,
> {
    match found {
        Some((path, dll_type)) => parsed(path, dll_type, contents),
        None => None,
    }
}

/// The catalog as a mathematical value: the snapshot it searches, and the
/// keys that were resolved, in the order in which they were, each with what
/// came of it.
pub struct DatabaseModel {
    pub search_path: SearchPathModel,
    pub entries: Seq<(Seq<char>, Option<DllInfoModel>)>,
}

impl DatabaseModel {
    /// Whether the key was resolved before.
    pub open spec fn has(self, key: Seq<char>) -> bool {
        lookup(self.entries, key) is Some
    }

    /// What the catalog holds for the key: the module, if it was resolved
    /// and found.
    pub open spec fn get(self, key: Seq<char>) -> Option<DllInfoModel> {
        match lookup(self.entries, key) {
            Some(entry) => entry,
            None => None,
        }
    }

    /// The path of the file that has to be read before the key can be
    /// resolved: there is one if the key was not resolved before and the
    /// search finds it at a location.
    pub open spec fn file_needed(self, key: Seq<char>) -> Option<Seq<char>> {
        if self.has(key) {
            None
        } else {
            match self.search_path.locate(key) {
                Some((path, dll_type)) => if dll_type == DllType::Umbrella {
                    None
                } else {
                    Some(path)
                },
                None => None,
            }
        }
    }

    /// The catalog after the key was asked for: as it was if the key was
    /// resolved before, and else with one entry more.
    pub open spec fn after(self, key: Seq<char>, contents: Option<Seq<u8>>) -> DatabaseModel {
        if self.has(key) {
            self
        } else {
            DatabaseModel {
                search_path: self.search_path,
                entries: self.entries.push(
                    (key, resolved(self.search_path.locate(key), contents)),
                ),
            }
        }
    }

    /// No key stands twice, and every module in the catalog is what the
    /// search finds for its key.
    pub open spec fn wf(self) -> bool {
        &&& forall|i: int, j: int|
            0 <= i < j < self.entries.len() ==> (#[trigger] self.entries[i]).0
                != (#[trigger] self.entries[j]).0
        &&& forall|i: int|
            0 <= i < self.entries.len() ==> self.agrees(
                (#[trigger] self.entries[i]).0,
                self.entries[i].1,
            )
    }

    /// Whether an entry is what the search finds for its key: a module that
    /// was found stands at the location and is of the kind that the search
    /// gives, and a forwarding module imports nothing.
    pub open spec fn agrees(self, key: Seq<char>, entry: Option<DllInfoModel>) -> bool {
        match entry {
            Some(info) => {
                &&& self.search_path.locate(key) == Some((info.path, info.dll_type))
                &&& info.dll_type == DllType::Umbrella ==> info.imports.len() == 0
            },
            None => true,
        }
    }
}

/// Asking for a key keeps the catalog well formed.
pub proof fn lemma_after_wf(model: DatabaseModel, key: Seq<char>, contents: Option<Seq<u8>>)
    requires
        model.wf(),
    ensures
        model.after(key, contents).wf(),
{
    if !model.has(key) {
        lemma_lookup_none(model.entries, key);
    }
}

/// A key that was asked for is resolved, and asking for it again changes
/// nothing, whatever is handed in as the contents of its file.
pub proof fn lemma_after_twice(
    model: DatabaseModel,
    key: Seq<char>,
    first: Option<Seq<u8>>,
    second: Option<Seq<u8>>,
)
    ensures
        model.after(key, first).has(key),
        model.after(key, first).after(key, second) == model.after(key, first),
        model.after(key, first).file_needed(key) is None,
{
    if !model.has(key) {
        lemma_lookup_push(
            model.entries,
            key,
            resolved(model.search_path.locate(key), first),
            key,
        );
    }
}

/// A key that is asked for the first time, and that is not found, or whose
/// file could not be read or is no image, is kept as failed: the catalog
/// then holds no module for it, and so nothing that it imports.
pub proof fn lemma_failure_is_kept(model: DatabaseModel, key: Seq<char>, contents: Option<Seq<u8>>)
    requires
        !model.has(key),
        model.search_path.locate(key) matches Some((_, dll_type)) ==> dll_type
            != DllType::Umbrella,
        model.search_path.locate(key) is Some ==> (contents matches Some(data) ==> File::decode(
            data,
        ) is Err),
    ensures
        model.after(key, contents).has(key),
        model.after(key, contents).get(key) is None,
{
    lemma_lookup_push(
        model.entries,
        key,
        resolved(model.search_path.locate(key), contents),
        key,
    );
}

/// Asking for a key leaves what the catalog holds for every key that was
/// resolved before.
pub proof fn lemma_after_keeps(
    model: DatabaseModel,
    key: Seq<char>,
    contents: Option<Seq<u8>>,
    other: Seq<char>,
)
    requires
        model.has(other),
    ensures
        model.after(key, contents).has(other),
        model.after(key, contents).get(other) == model.get(other),
{
    if !model.has(key) {
        lemma_lookup_push(
            model.entries,
            key,
            resolved(model.search_path.locate(key), contents),
            other,
        );
    }
}

/// The catalog: the snapshot it searches and what was resolved so far.
#[derive(Debug)]
pub struct DllDatabase {
    files: Vec<(String, Option<DllInfo>)>,
    search_path: SearchPath,
}

impl View for DllDatabase {
    type V = DatabaseModel;

    closed spec fn view(&self) -> DatabaseModel {
        DatabaseModel {
            search_path: self.search_path@,
            entries: Seq::new(
                self.files@.len(),
                |i: int|
                    (
                        self.files@[i].0@,
                        match self.files@[i].1 {
                            Some(info) => Some(info@),
                            None => None,
                        },
                    ),
            ),
        }
    }
}

impl DllDatabase {
    /// An empty catalog over a snapshot.
    pub fn new(search_path: SearchPath) -> (database: Self)
        ensures
            database@.search_path == search_path@,
            database@.entries.len() == 0,
            database@.wf(),
    {
        DllDatabase { files: Vec::new(), search_path }
    }

    /// The snapshot that the catalog searches.
    pub fn search_path(&self) -> (search_path: &SearchPath)
        ensures
            search_path@ == self@.search_path,
    {
        &self.search_path
    }

    /// The index of the entry that counts for the key.
    fn position(&self, key: &String) -> (index: Option<usize>)
        ensures
            match index {
                Some(i) => i < self@.entries.len() && self@.entries[i as int].0 == key@ && lookup(
                    self@.entries,
                    key@,
                ) == Some(self@.entries[i as int].1),
                None => lookup(self@.entries, key@) is None,
            },
    {
        let mut index: usize = self.files.len();
        assert(self@.entries.take(index as int) == self@.entries);
        while index > 0
            invariant
                index <= self.files@.len(),
                lookup(self@.entries, key@) == lookup(self@.entries.take(index as int), key@),
            decreases index,
        {
            assert(self@.entries.take(index as int).drop_last() == self@.entries.take(index - 1));
            index = index - 1;
            if self.files[index].0 == *key {
                return Some(index);
            }
        }
        None
    }

    /// The module that the catalog holds for the lower-case name `key`.
    pub fn get_by_key(&self, key: &String) -> (info: Option<&DllInfo>)
        ensures
            match info {
                Some(found) => self@.get(key@) == Some(found@),
                None => self@.get(key@) is None,
            },
    {
        match self.position(key) {
            Some(index) => self.files[index].1.as_ref(),
            None => None,
        }
    }

    /// The module that the catalog holds for `name`: one that was resolved
    /// and found.
    pub fn get_dll_info(&self, name: &str) -> (info: Option<&DllInfo>)
        ensures
            match info {
                Some(found) => self@.get(lowercase(name@)) == Some(found@),
                None => self@.get(lowercase(name@)) is None,
            },
    {
        let key = to_lowercase(name);
        self.get_by_key(&key)
    }

    /// Whether the lower-case name `key` was resolved before.
    pub fn is_resolved(&self, key: &String) -> (known: bool)
        ensures
            known == self@.has(key@),
    {
        self.position(key).is_some()
    }

    /// The path of the file whose contents `search_by_key` needs for `key`.
    pub fn file_needed_by_key(&self, key: &String) -> (path: Option<String>)
        ensures
            match path {
                Some(found) => self@.file_needed(key@) == Some(found@),
                None => self@.file_needed(key@) is None,
            },
    {
        if self.position(key).is_some() {
            return None;
        }
        match self.search_path.search_key(key) {
            Some((path, dll_type)) => {
                if dll_type == DllType::Umbrella {
                    None
                } else {
                    Some(path)
                }
            },
            None => None,
        }
    }

    /// The path of the file whose contents `search_dll` needs for `name`:
    /// there is none if the name was resolved before, is not found, or is
    /// that of a forwarding module.
    pub fn file_needed(&self, name: &str) -> (path: Option<String>)
        ensures
            match path {
                Some(found) => self@.file_needed(lowercase(name@)) == Some(found@),
                None => self@.file_needed(lowercase(name@)) is None,
            },
    {
        let key = to_lowercase(name);
        self.file_needed_by_key(&key)
    }

    /// Makes the module that was found at `path` as `dll_type` of the
    /// contents of the file there, where it could be read.
    pub fn parse_dll(path: String, dll_type: DllType, contents: Option<&[u8]>) -> (info: Option<
        DllInfo,
    >)
        ensures
            match info {
                Some(made) => parsed(path@, dll_type, contents_of(contents)) == Some(made@),
                None => parsed(path@, dll_type, contents_of(contents)) is None,
            },
    {
        if dll_type == DllType::Umbrella {
            return Some(DllInfo { path, dll_type, file: File::new() });
        }
        match contents {
            Some(data) => match File::parse(data) {
                Ok((_, file)) => Some(DllInfo { path, dll_type, file }),
                Err(_) => None,
            },
            None => None,
        }
    }

    /// Resolves the lower-case name `key`, unless it was resolved before,
    /// and returns the module that the catalog then holds for it.
    /// `contents` are the bytes of the file that `file_needed_by_key` names,
    /// or `None` if there is no such file or it could not be read.
    pub fn search_by_key(&mut self, key: &String, contents: Option<&[u8]>) -> (info: Option<
        &DllInfo,
    >)
        requires
            old(self)@.wf(),
        ensures
            final(self)@ == old(self)@.after(key@, contents_of(contents)),
            final(self)@.wf(),
            match info {
                Some(found) => final(self)@.get(key@) == Some(found@),
                None => final(self)@.get(key@) is None,
            },
    {
        proof {
            lemma_after_wf(self@, key@, contents_of(contents));
        }
        if self.position(key).is_none() {
            let info = match self.search_path.search_key(key) {
                Some((path, dll_type)) => Self::parse_dll(path, dll_type, contents),
                None => None,
            };
            let ghost before = self@;
            let ghost entry = resolved(before.search_path.locate(key@), contents_of(contents));
            self.files.push((key.clone(), info));
            assert(self@.entries =~= before.entries.push((key@, entry)));
        }
        self.get_by_key(key)
    }

    /// Resolves `name`, unless it was resolved before, and returns the
    /// module that the catalog then holds for it. A name is located and its
    /// file parsed once: what came of it is kept, also where nothing was
    /// found. `contents` are the bytes of the file that `file_needed` names,
    /// or `None` if there is no such file or it could not be read.
    pub fn search_dll(&mut self, name: &str, contents: Option<&[u8]>) -> (info: Option<&DllInfo>)
        requires
            old(self)@.wf(),
        ensures
            final(self)@ == old(self)@.after(lowercase(name@), contents_of(contents)),
            final(self)@.wf(),
            match info {
                Some(found) => final(self)@.get(lowercase(name@)) == Some(found@),
                None => final(self)@.get(lowercase(name@)) is None,
            },
    {
        let key = to_lowercase(name);
        self.search_by_key(&key, contents)
    }

    /// The lower-case names that were resolved, in the order in which they
    /// were.
    pub fn get_all_dlls(&self) -> (names: Vec<String>)
        ensures
            names@.len() == self@.entries.len(),
            forall|i: int| 0 <= i < names@.len() ==> (#[trigger] names@[i])@ == self@.entries[i].0,
    {
        let mut names: Vec<String> = Vec::new();
        let mut index: usize = 0;
        while index < self.files.len()
            invariant
                index <= self.files@.len(),
                names@.len() == index,
                forall|i: int| 0 <= i < index ==> (#[trigger] names@[i])@ == self@.entries[i].0,
            decreases self.files@.len() - index,
        {
            names.push(self.files[index].0.clone());
            index = index + 1;
        }
        names
    }
}

} // verus!
