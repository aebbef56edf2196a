//! The graph walker: from one module to all modules that it imports,
//! directly or through others, each visited once.

use vstd::prelude::*;

use crate::dll_database::{
    contents_of, lemma_after_keeps, lemma_after_twice, lemma_after_wf, resolved, DatabaseModel,
    DllDatabase,
};
use crate::search_path::{
    lemma_listed_finite, lemma_located_is_listed, lemma_lookup_index, lemma_lookup_push, lookup,
    SearchPathModel,
};
use crate::text::{lowercase, to_lowercase};
use crate::DllType;

verus! {

/// The names that the catalog knows the module `key` to import.
pub open spec fn imports_of(database: DatabaseModel, key: Seq<char>) -> Seq<Seq<char>> {
    match database.get(key) {
        Some(info) => info.imports,
        None => Seq::empty(),
    }
}

/// The work list after the first `count` of `names` were looked at, in
/// their order: the key of a name is put on the list unless it was visited
/// or is on the list.
pub open spec fn enqueue(
    visited: Seq<Seq<char>>,
    pending: Seq<Seq<char>>,
    names: Seq<Seq<char>>,
    count: int,
) -> Seq<Seq<char>>
    decreases count,
{
    if count <= 0 {
        pending
    } else {
        let before = enqueue(visited, pending, names, count - 1);
        let key = lowercase(names[count - 1]);
        if visited.contains(key) || before.contains(key) {
            before
        } else {
            before.push(key)
        }
    }
}

/// The state of a walk as a mathematical value: the keys that wait on the
/// work list, of which the last is the next, and the keys that were visited,
/// in the order of the visits.
pub struct WalkModel {
    pub pending: Seq<Seq<char>>,
    pub visited: Seq<Seq<char>>,
}

impl WalkModel {
    /// The walk that starts at the module `name`.
    pub open spec fn start(name: Seq<char>) -> WalkModel {
        WalkModel { pending: seq![lowercase(name)], visited: Seq::empty() }
    }

    /// No key was visited twice, waits twice, or waits after its visit.
    pub open spec fn wf(self) -> bool {
        (self.visited + self.pending).no_duplicates()
    }

    /// Whether the key was visited or waits.
    pub open spec fn seen(self, key: Seq<char>) -> bool {
        self.visited.contains(key) || self.pending.contains(key)
    }

    /// The walk after the visit of the next key, whose module imports
    /// `imports`.
    pub open spec fn after(self, imports: Seq<Seq<char>>) -> WalkModel
        recommends
            self.pending.len() > 0,
    {
        let visited = self.visited.push(self.pending.last());
        WalkModel {
            pending: enqueue(visited, self.pending.drop_last(), imports, imports.len() as int),
            visited,
        }
    }

    /// The number of listed keys that were not visited.
    pub open spec fn unexplored(self, snapshot: SearchPathModel) -> nat {
        snapshot.listed().difference(self.visited.to_set()).len()
    }

    /// Whether the walk went out from the key `root` along imports only:
    /// `root` stands in the first place, every other visited module is
    /// imported by one that was visited before it, and every module that
    /// waits by one that was visited.
    pub open spec fn traces(self, database: DatabaseModel, root: Seq<char>) -> bool {
        &&& starts_at(self, root)
        &&& forall|n: int|
            0 < n < self.visited.len() ==> imported_before(
                self.visited,
                database,
                #[trigger] self.visited[n],
                n,
            )
        &&& self.visited.len() > 0 ==> forall|p: int|
            0 <= p < self.pending.len() ==> imported_before(
                self.visited,
                database,
                #[trigger] self.pending[p],
                self.visited.len() as int,
            )
    }

    /// Every visited key was resolved, and every module that a visited
    /// module imports was visited or waits.
    pub open spec fn covers(self, database: DatabaseModel) -> bool {
        forall|i: int|
            0 <= i < self.visited.len() ==> {
                &&& database.has(#[trigger] self.visited[i])
                &&& forall|j: int|
                    0 <= j < imports_of(database, self.visited[i]).len() ==> self.seen(
                        lowercase(#[trigger] imports_of(database, self.visited[i])[j]),
                    )
            }
    }
}

/// Whether one of the first `bound` visited modules imports the module
/// `key`.
pub open spec fn imported_before(
    visited: Seq<Seq<char>>,
    database: DatabaseModel,
    key: Seq<char>,
    bound: int,
) -> bool {
    exists|i: int, j: int|
        0 <= i < bound && i < visited.len() && 0 <= j < imports_of(database, visited[i]).len()
            && lowercase(#[trigger] imports_of(database, visited[i])[j]) == key
}

/// What `enqueue` makes of a work list: the list stays at the front, what
/// is added was not seen and stands once, and the key of each name that was
/// looked at is then seen.
pub proof fn lemma_enqueue(
    visited: Seq<Seq<char>>,
    pending: Seq<Seq<char>>,
    names: Seq<Seq<char>>,
    count: int,
)
    requires
        0 <= count <= names.len(),
        (visited + pending).no_duplicates(),
    ensures
        (visited + enqueue(visited, pending, names, count)).no_duplicates(),
        pending.len() <= enqueue(visited, pending, names, count).len(),
        enqueue(visited, pending, names, count).take(pending.len() as int) == pending,
        forall|j: int|
            0 <= j < count ==> visited.contains(lowercase(#[trigger] names[j])) || enqueue(
                visited,
                pending,
                names,
                count,
            ).contains(lowercase(names[j])),
        forall|key: Seq<char>|
            enqueue(visited, pending, names, count).contains(key) ==> pending.contains(key)
                || exists|j: int| 0 <= j < count && lowercase(#[trigger] names[j]) == key,
    decreases count,
{
    let after = enqueue(visited, pending, names, count);
    if count > 0 {
        lemma_enqueue(visited, pending, names, count - 1);
        let before = enqueue(visited, pending, names, count - 1);
        let key = lowercase(names[count - 1]);
        if visited.contains(key) || before.contains(key) {
        } else {
            assert(visited + after == (visited + before).push(key));
            assert forall|a: int, b: int|
                0 <= a < b < (visited + after).len() implies (visited + after)[a] != (visited
                + after)[b] by {
                if b == (visited + before).len() {
                    if a < visited.len() {
                        assert(visited[a] == (visited + after)[a]);
                    } else {
                        assert(before[a - visited.len()] == (visited + after)[a]);
                    }
                } else {
                    assert((visited + before)[a] != (visited + before)[b]);
                }
            }
            assert(after.take(pending.len() as int) == before.take(pending.len() as int));
            assert(after[after.len() - 1] == key);
        }
        assert forall|j: int| 0 <= j < count implies visited.contains(
            lowercase(#[trigger] names[j]),
        ) || after.contains(lowercase(names[j])) by {
            if j < count - 1 {
                if before.contains(lowercase(names[j])) {
                    let at = choose|at: int|
                        0 <= at < before.len() && before[at] == lowercase(names[j]);
                    assert(after[at] == lowercase(names[j]));
                }
            } else {
                if before.contains(key) {
                    let at = choose|at: int| 0 <= at < before.len() && before[at] == key;
                    assert(after[at] == key);
                }
            }
        }
        assert forall|key: Seq<char>| after.contains(key) implies pending.contains(key)
            || exists|j: int| 0 <= j < count && lowercase(#[trigger] names[j]) == key by {
            if before.contains(key) {
                if !pending.contains(key) {
                    let j = choose|j: int| 0 <= j < count - 1 && lowercase(#[trigger] names[j]) == key;
                    assert(0 <= j < count && lowercase(names[j]) == key);
                }
            } else {
                assert(lowercase(names[count - 1]) == key);
            }
        }
    } else {
        assert(pending.take(pending.len() as int) == pending);
    }
}

/// The next key can move from the work list to the visited keys without
/// a key standing twice.
proof fn lemma_visit_keeps_distinct(visited: Seq<Seq<char>>, pending: Seq<Seq<char>>)
    requires
        (visited + pending).no_duplicates(),
        pending.len() > 0,
    ensures
        (visited.push(pending.last()) + pending.drop_last()).no_duplicates(),
{
    let before = visited + pending;
    let after = visited.push(pending.last()) + pending.drop_last();
    let place = |i: int|
        if i < visited.len() {
            i
        } else if i == visited.len() {
            before.len() - 1
        } else {
            i - 1
        };
    assert forall|a: int, b: int| 0 <= a < b < after.len() implies after[a] != after[b] by {
        assert(after[a] == before[place(a)]);
        assert(after[b] == before[place(b)]);
        assert(place(a) != place(b));
    }
}

/// A visit keeps a walk well formed.
pub proof fn lemma_step_wf(walk: WalkModel, imports: Seq<Seq<char>>)
    requires
        walk.wf(),
        walk.pending.len() > 0,
    ensures
        walk.after(imports).wf(),
        forall|key: Seq<char>| walk.seen(key) ==> walk.after(imports).seen(key),
{
    let visited = walk.visited.push(walk.pending.last());
    let rest = walk.pending.drop_last();
    lemma_visit_keeps_distinct(walk.visited, walk.pending);
    lemma_enqueue(visited, rest, imports, imports.len() as int);
    let next = walk.after(imports);
    assert forall|key: Seq<char>| walk.seen(key) implies next.seen(key) by {
        if walk.visited.contains(key) {
            let at = choose|at: int| 0 <= at < walk.visited.len() && walk.visited[at] == key;
            assert(visited[at] == key);
        } else {
            let at = choose|at: int| 0 <= at < walk.pending.len() && walk.pending[at] == key;
            if at == walk.pending.len() - 1 {
                assert(visited[visited.len() - 1] == key);
            } else {
                assert(next.pending.take(rest.len() as int)[at] == key);
            }
        }
    }
}

/// A module that is not listed imports nothing in a well-formed catalog.
proof fn lemma_unlisted_is_leaf(database: DatabaseModel, key: Seq<char>)
    requires
        database.wf(),
        !database.search_path.lists(key),
    ensures
        imports_of(database, key).len() == 0,
{
    if database.get(key) is Some {
        let index = lemma_lookup_index(database.entries, key);
        assert(database.agrees(database.entries[index].0, database.entries[index].1));
        lemma_located_is_listed(database.search_path, key);
    }
}

/// Every visit brings a walk nearer to its end: it lowers the number of
/// listed keys that were not visited, or it leaves that number and shortens
/// the work list. So a walk ends, whatever the modules import.
pub proof fn lemma_step_decreases(
    walk: WalkModel,
    database: DatabaseModel,
    contents: Option<Seq<u8>>,
)
    requires
        walk.wf(),
        walk.pending.len() > 0,
        database.wf(),
    ensures
        ({
            let key = walk.pending.last();
            let grown = database.after(key, contents);
            let next = walk.after(imports_of(grown, key));
            let snapshot = database.search_path;
            ||| next.unexplored(snapshot) < walk.unexplored(snapshot)
            ||| next.unexplored(snapshot) == walk.unexplored(snapshot) && next.pending.len()
                < walk.pending.len()
        }),
{
    broadcast use vstd::seq::Seq::lemma_push_to_set_commute;

    let key = walk.pending.last();
    let grown = database.after(key, contents);
    let next = walk.after(imports_of(grown, key));
    let snapshot = database.search_path;
    let listed = snapshot.listed();
    lemma_listed_finite(snapshot);
    let all = walk.visited + walk.pending;
    assert(all[all.len() - 1] == key);
    assert forall|i: int| 0 <= i < walk.visited.len() implies walk.visited[i] != key by {
        assert(all[i] == walk.visited[i]);
    }
    assert(!walk.visited.to_set().contains(key));
    assert(next.visited.to_set() == walk.visited.to_set().insert(key));
    if snapshot.lists(key) {
        assert(listed.contains(key));
        assert(listed.difference(next.visited.to_set()) == listed.difference(
            walk.visited.to_set(),
        ).remove(key));
    } else {
        assert(listed.difference(next.visited.to_set()) == listed.difference(
            walk.visited.to_set(),
        ));
        lemma_after_wf(database, key, contents);
        lemma_unlisted_is_leaf(grown, key);
    }
}

/// A visit keeps what a walk covers: the visited key was resolved, and what
/// its module imports was visited or waits.
pub proof fn lemma_step_covers(
    walk: WalkModel,
    database: DatabaseModel,
    contents: Option<Seq<u8>>,
)
    requires
        walk.wf(),
        walk.pending.len() > 0,
        walk.covers(database),
    ensures
        ({
            let key = walk.pending.last();
            let grown = database.after(key, contents);
            walk.after(imports_of(grown, key)).covers(grown)
        }),
{
    let key = walk.pending.last();
    let grown = database.after(key, contents);
    let imports = imports_of(grown, key);
    let next = walk.after(imports);
    lemma_step_wf(walk, imports);
    lemma_after_twice(database, key, contents, contents);
    lemma_visit_keeps_distinct(walk.visited, walk.pending);
    lemma_enqueue(next.visited, walk.pending.drop_last(), imports, imports.len() as int);
    assert forall|i: int| 0 <= i < next.visited.len() implies {
        &&& grown.has(#[trigger] next.visited[i])
        &&& forall|j: int|
            0 <= j < imports_of(grown, next.visited[i]).len() ==> next.seen(
                lowercase(#[trigger] imports_of(grown, next.visited[i])[j]),
            )
    } by {
        if i < walk.visited.len() {
            let earlier = walk.visited[i];
            assert(next.visited[i] == earlier);
            lemma_after_keeps(database, key, contents, earlier);
            assert(imports_of(grown, earlier) == imports_of(database, earlier));
            assert forall|j: int| 0 <= j < imports_of(grown, earlier).len() implies next.seen(
                lowercase(#[trigger] imports_of(grown, earlier)[j]),
            ) by {
                assert(walk.seen(lowercase(imports_of(database, earlier)[j])));
            }
        } else {
            assert(next.visited[i] == key);
        }
    }
}

/// A visit keeps a walk on the imports that lead out from its root.
pub proof fn lemma_step_traces(
    walk: WalkModel,
    database: DatabaseModel,
    contents: Option<Seq<u8>>,
    root: Seq<char>,
)
    requires
        walk.wf(),
        walk.pending.len() > 0,
        walk.covers(database),
        walk.traces(database, root),
    ensures
        ({
            let key = walk.pending.last();
            let grown = database.after(key, contents);
            walk.after(imports_of(grown, key)).traces(grown, root)
        }),
{
    let key = walk.pending.last();
    let grown = database.after(key, contents);
    let imports = imports_of(grown, key);
    let next = walk.after(imports);
    let rest = walk.pending.drop_last();
    let count = walk.visited.len() as int;
    lemma_visit_keeps_distinct(walk.visited, walk.pending);
    lemma_enqueue(next.visited, rest, imports, imports.len() as int);
    assert(next.visited[count] == key);
    assert forall|i: int| 0 <= i < count implies next.visited[i] == walk.visited[i] && imports_of(
        grown,
        walk.visited[i],
    ) == imports_of(database, walk.visited[i]) by {
        lemma_after_keeps(database, key, contents, walk.visited[i]);
    }
    assert forall|other: Seq<char>, bound: int|
        bound <= count && imported_before(
            walk.visited,
            database,
            other,
            bound,
        ) implies imported_before(next.visited, grown, other, bound) by {
        let (i, j) = choose|i: int, j: int|
            0 <= i < bound && i < walk.visited.len() && 0 <= j < imports_of(
                database,
                walk.visited[i],
            ).len() && lowercase(#[trigger] imports_of(database, walk.visited[i])[j]) == other;
        assert(next.visited[i] == walk.visited[i]);
        assert(lowercase(imports_of(grown, next.visited[i])[j]) == other);
    }
    assert forall|n: int| 0 < n < next.visited.len() implies imported_before(
        next.visited,
        grown,
        #[trigger] next.visited[n],
        n,
    ) by {
        if n < count {
            assert(imported_before(walk.visited, database, walk.visited[n], n));
        } else {
            assert(walk.pending[walk.pending.len() - 1] == key);
            assert(imported_before(walk.visited, database, key, count));
        }
    }
    assert forall|p: int| 0 <= p < next.pending.len() implies imported_before(
        next.visited,
        grown,
        #[trigger] next.pending[p],
        next.visited.len() as int,
    ) by {
        let waiting = next.pending[p];
        assert(next.pending.contains(waiting));
        if rest.contains(waiting) {
            let at = choose|at: int| 0 <= at < rest.len() && rest[at] == waiting;
            assert(walk.pending[at] == waiting);
            assert(count > 0);
            assert(imported_before(walk.visited, database, waiting, count));
            let (i, j) = choose|i: int, j: int|
                0 <= i < count && i < next.visited.len() && 0 <= j < imports_of(
                    grown,
                    next.visited[i],
                ).len() && lowercase(#[trigger] imports_of(grown, next.visited[i])[j])
                    == waiting;
            assert(0 <= i < next.visited.len() && lowercase(
                imports_of(grown, next.visited[i])[j],
            ) == waiting);
        } else {
            let j = choose|j: int|
                0 <= j < imports.len() && lowercase(#[trigger] imports[j]) == waiting;
            assert(lowercase(imports_of(grown, next.visited[count])[j]) == waiting);
        }
    }
}

/// The characters of each of the strings.
pub open spec fn keys_of(strings: Seq<String>) -> Seq<Seq<char>> {
    Seq::new(strings.len(), |i: int| strings[i]@)
}

/// Whether the list holds the key.
fn holds(list: &Vec<String>, key: &String) -> (found: bool)
    ensures
        found == keys_of(list@).contains(key@),
{
    let mut index: usize = 0;
    while index < list.len()
        invariant
            index <= list@.len(),
            forall|i: int| 0 <= i < index ==> keys_of(list@)[i] != key@,
        decreases list@.len() - index,
    {
        if list[index] == *key {
            assert(keys_of(list@)[index as int] == key@);
            return true;
        }
        index = index + 1;
    }
    false
}

/// A walk over the modules that one module imports, directly or through
/// others. The walk says which key is next; its owner reads the file that
/// the catalog needs for that key and hands the contents to `step`.
#[derive(Debug)]
pub struct Walker {
    pending: Vec<String>,
    visited: Vec<String>,
}

impl View for Walker {
    type V = WalkModel;

    closed spec fn view(&self) -> WalkModel {
        WalkModel { pending: keys_of(self.pending@), visited: keys_of(self.visited@) }
    }
}

impl Walker {
    /// The walk that starts at the module `name`.
    pub fn new(name: &str) -> (walker: Self)
        ensures
            walker@ == WalkModel::start(name@),
            walker@.wf(),
    {
        let mut pending: Vec<String> = Vec::new();
        pending.push(to_lowercase(name));
        let walker = Walker { pending, visited: Vec::new() };
        assert(walker@.pending =~= seq![lowercase(name@)]);
        assert(walker@.visited =~= Seq::<Seq<char>>::empty());
        assert(walker@.visited + walker@.pending =~= seq![lowercase(name@)]);
        walker
    }

    /// The key that the next step visits, if the walk is not at its end.
    pub fn next(&self) -> (key: Option<&String>)
        ensures
            match key {
                Some(next) => self@.pending.len() > 0 && next@ == self@.pending.last(),
                None => self@.pending.len() == 0,
            },
    {
        if self.pending.len() == 0 {
            None
        } else {
            Some(&self.pending[self.pending.len() - 1])
        }
    }

    /// The keys that were visited, in the order of the visits.
    pub fn visited(&self) -> (keys: &Vec<String>)
        ensures
            keys_of(keys@) == self@.visited,
    {
        &self.visited
    }

    /// Visits the next key: resolves it in the catalog, unless it was
    /// resolved before, and puts the modules that it imports on the work
    /// list, unless they were visited or wait there. `contents` are the bytes
    /// of the file that the catalog needs for the key, or `None` if it needs
    /// none or the file could not be read. Returns whether there was a key
    /// to visit.
    pub fn step(&mut self, database: &mut DllDatabase, contents: Option<&[u8]>) -> (moved: bool)
        requires
            old(self)@.wf(),
            old(database)@.wf(),
        ensures
            moved == (old(self)@.pending.len() > 0),
            !moved ==> final(self)@ == old(self)@ && final(database)@ == old(database)@,
            moved ==> final(database)@ == old(database)@.after(
                old(self)@.pending.last(),
                contents_of(contents),
            ),
            moved ==> final(self)@ == old(self)@.after(
                imports_of(final(database)@, old(self)@.pending.last()),
            ),
            final(self)@.wf(),
            final(database)@.wf(),
    {
        let ghost before = self@;
        let key = match self.pending.pop() {
            Some(key) => key,
            None => {
                assert(self@.pending =~= before.pending);
                return false;
            },
        };
        assert(self@.pending =~= before.pending.drop_last());
        assert(key@ == before.pending.last());
        database.search_by_key(&key, contents);
        let info = database.get_by_key(&key);
        self.visited.push(key);
        assert(self@.visited =~= before.visited.push(before.pending.last()));
        let ghost names = imports_of(database@, before.pending.last());
        proof {
            lemma_step_wf(before, names);
        }
        match info {
            Some(found) => {
                assert(names == found.file@);
                let imports = &found.file.imports;
                let mut index: usize = 0;
                while index < imports.len()
                    invariant
                        index <= imports@.len(),
                        names.len() == imports@.len(),
                        forall|i: int| 0 <= i < names.len() ==> names[i] == imports@[i].name@,
                        self@.visited == before.visited.push(before.pending.last()),
                        self@.pending == enqueue(
                            self@.visited,
                            before.pending.drop_last(),
                            names,
                            index as int,
                        ),
                    decreases imports@.len() - index,
                {
                    let ghost waiting = self@.pending;
                    let import_key = to_lowercase(imports[index].name.as_str());
                    if !holds(&self.visited, &import_key) && !holds(&self.pending, &import_key) {
                        self.pending.push(import_key);
                        assert(self@.pending =~= waiting.push(lowercase(names[index as int])));
                    }
                    index = index + 1;
                }
            },
            None => {
                assert(names.len() == 0);
            },
        }
        true
    }
}

/// Whether a walk that started at the key `root` has it in the first
/// place: as the first of the visited keys, or as the one key that waits.
pub open spec fn starts_at(walk: WalkModel, root: Seq<char>) -> bool {
    if walk.visited.len() == 0 {
        walk.pending == seq![root]
    } else {
        walk.visited[0] == root
    }
}

/// The bytes of the contents of a file, where it could be read.
pub open spec fn bytes_of(contents: Option<Vec<u8>>) -> Option<Seq<u8>> {
    match contents {
        Some(data) => Some(data@),
        None => None,
    }
}

/// Whether `contents` is what reading gave for a module that the search
/// found as `found`: for a module at a location, what `read_file` handed out
/// when it was asked for the path of that location; for a forwarding module
/// and for a module that was not found, nothing, as no file is read for them.
pub open spec fn reads<F: Fn(&String) -> Option<Vec<u8>>>(
    read_file: F,
    found: Option<(Seq<char>, DllType)>,
    contents: Option<Vec<u8>>,
) -> bool {
    match found {
        Some((path, dll_type)) => if dll_type == DllType::Umbrella {
            contents is None
        } else {
            exists|asked: &String|
                asked@ == path && #[trigger] read_file.ensures((asked,), contents)
        },
        None => contents is None,
    }
}

/// Whether every key that `after` has and `before` has not was resolved
/// from what `read_file` handed out: its entry is what the search result for
/// the key and the contents of the file that was read for it make.
pub open spec fn resolved_by<F: Fn(&String) -> Option<Vec<u8>>>(
    read_file: F,
    before: DatabaseModel,
    after: DatabaseModel,
) -> bool {
    forall|key: Seq<char>|
        #[trigger] after.has(key) && !before.has(key) ==> exists|contents: Option<Vec<u8>>|
            #[trigger] reads(read_file, before.search_path.locate(key), contents) && lookup(
                after.entries,
                key,
            ) == Some(resolved(before.search_path.locate(key), bytes_of(contents)))
}

/// Walks from the module `name` over all modules that it imports, directly
/// or through others, resolves each in the catalog and returns the keys that
/// were visited, in the order of the visits. `read_file` hands out the
/// contents of the file at a path, or `None` where it cannot be read. It is
/// asked for the file of each module that is found at a location and was not
/// resolved before, and what it hands out decides what the catalog holds for
/// that module. A module whose file cannot be read, or is no image, is kept
/// as failed and imports nothing; the walk goes on with the others.
pub fn walk_dlls<F: Fn(&String) -> Option<Vec<u8>>>(
    database: &mut DllDatabase,
    name: &str,
    read_file: F,
) -> (visited: Vec<String>)
    requires
        old(database)@.wf(),
        forall|path: &String| read_file.requires((path,)),
    ensures
        final(database)@.wf(),
        final(database)@.search_path == old(database)@.search_path,
        forall|key: Seq<char>|
            old(database)@.has(key) ==> final(database)@.has(key) && final(database)@.get(key)
                == old(database)@.get(key),
        keys_of(visited@).no_duplicates(),
        keys_of(visited@).len() > 0,
        keys_of(visited@)[0] == lowercase(name@),
        (WalkModel { pending: Seq::empty(), visited: keys_of(visited@) }).covers(
            final(database)@,
        ),
        forall|n: int|
            0 < n < visited@.len() ==> imported_before(
                keys_of(visited@),
                final(database)@,
                #[trigger] keys_of(visited@)[n],
                n,
            ),
        forall|key: Seq<char>|
            final(database)@.has(key) ==> old(database)@.has(key) || keys_of(visited@).contains(
                key,
            ),
        resolved_by(read_file, old(database)@, final(database)@),
{
    let ghost given = database@;
    let mut walker = Walker::new(name);
    loop
        invariant
            walker@.wf(),
            database@.wf(),
            walker@.covers(database@),
            walker@.traces(database@, lowercase(name@)),
            database@.search_path == given.search_path,
            forall|key: Seq<char>|
                database@.has(key) ==> given.has(key) || walker@.visited.contains(key),
            forall|key: Seq<char>|
                given.has(key) ==> database@.has(key) && database@.get(key) == given.get(key),
            forall|path: &String| read_file.requires((path,)),
            resolved_by(read_file, given, database@),
        ensures
            walker@.pending.len() == 0,
        decreases walker@.unexplored(database@.search_path), walker@.pending.len(),
    {
        let path = match walker.next() {
            Some(key) => database.file_needed_by_key(key),
            None => {
                break ;
            },
        };
        let contents: Option<Vec<u8>> = match &path {
            Some(path) => read_file(path),
            None => None,
        };
        let bytes: Option<&[u8]> = match &contents {
            Some(data) => Some(data.as_slice()),
            None => None,
        };
        proof {
            let key = walker@.pending.last();
            lemma_step_decreases(walker@, database@, contents_of(bytes));
            lemma_step_covers(walker@, database@, contents_of(bytes));
            lemma_step_traces(walker@, database@, contents_of(bytes), lowercase(name@));
            let visited = walker@.visited.push(key);
            assert(visited[visited.len() - 1] == key);
            assert forall|other: Seq<char>|
                database@.after(key, contents_of(bytes)).has(other) implies given.has(other)
                || visited.contains(other) by {
                if !database@.has(key) {
                    lemma_lookup_push(
                        database@.entries,
                        key,
                        resolved(database@.search_path.locate(key), contents_of(bytes)),
                        other,
                    );
                }
                if walker@.visited.contains(other) {
                    let at = choose|at: int|
                        0 <= at < walker@.visited.len() && walker@.visited[at] == other;
                    assert(visited[at] == other);
                }
            }
            assert forall|other: Seq<char>| given.has(other) implies database@.after(
                key,
                contents_of(bytes),
            ).has(other) && database@.after(key, contents_of(bytes)).get(other) == given.get(
                other,
            ) by {
                lemma_after_keeps(database@, key, contents_of(bytes), other);
            }
            let grown = database@.after(key, contents_of(bytes));
            let found = given.search_path.locate(key);
            assert(bytes_of(contents) == contents_of(bytes));
            if !database@.has(key) {
                match path {
                    Some(asked) => {
                        assert(read_file.ensures((&asked,), contents));
                    },
                    None => {},
                }
                assert(reads(read_file, found, contents));
            }
            assert forall|other: Seq<char>| #[trigger]
                grown.has(other) && !given.has(other) implies exists|read: Option<Vec<u8>>|
                #[trigger] reads(read_file, given.search_path.locate(other), read) && lookup(
                    grown.entries,
                    other,
                ) == Some(resolved(given.search_path.locate(other), bytes_of(read))) by {
                if !database@.has(key) {
                    lemma_lookup_push(
                        database@.entries,
                        key,
                        resolved(database@.search_path.locate(key), contents_of(bytes)),
                        other,
                    );
                }
                if database@.has(other) {
                    let read = choose|read: Option<Vec<u8>>|
                        #[trigger] reads(read_file, given.search_path.locate(other), read)
                            && lookup(database@.entries, other) == Some(
                            resolved(given.search_path.locate(other), bytes_of(read)),
                        );
                    assert(reads(read_file, given.search_path.locate(other), read));
                } else {
                    assert(other == key);
                }
            }
        }
        walker.step(database, bytes);
    }
    let visited = walker.visited;
    assert(keys_of(visited@) + Seq::<Seq<char>>::empty() =~= keys_of(visited@));
    visited
}

} // verus!
