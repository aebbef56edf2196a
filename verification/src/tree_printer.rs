//! The two texts in which a catalog is shown: the tree of the imports of a
//! module, and the list of all modules.

use vstd::prelude::*;
use vstd::string::StringExecFns;

use crate::dll_database::{DatabaseModel, DllDatabase};
use crate::text::lowercase;
use crate::walker::imports_of;

verus! {

/// What stands in front of a name for each level above its parent.
pub const TRUNK: &'static str = "│   ";

/// What stands in front of the name of a child that has later siblings.
pub const BRANCH: &'static str = "├── ";

/// What stands in front of the name of the last child.
pub const LAST_BRANCH: &'static str = "└── ";

/// The end of a line.
pub const LINE_END: &'static str = "\n";

/// `count` times the trunk.
pub open spec fn trunks(count: int) -> Seq<char>
    decreases count,
{
    if count <= 0 {
        Seq::empty()
    } else {
        trunks(count - 1) + TRUNK@
    }
}

/// What stands in front of a name at the given depth: nothing at depth 0,
/// else a trunk for each level but one and then a branch.
pub open spec fn prefix(depth: int, last_child: bool) -> Seq<char> {
    if depth <= 0 {
        Seq::empty()
    } else {
        trunks(depth - 1) + if last_child {
            LAST_BRANCH@
        } else {
            BRANCH@
        }
    }
}

/// The line that names a module: its name, or with absolute paths the path
/// at which it was found, and the name where that path is empty. With
/// absolute paths a module that was not found gets no line.
pub open spec fn name_line(database: DatabaseModel, absolute_path: bool, name: Seq<char>) -> Seq<
    char,
> {
    if absolute_path {
        match database.get(lowercase(name)) {
            Some(info) => if info.path.len() == 0 {
                name + LINE_END@
            } else {
                info.path + LINE_END@
            },
            None => Seq::empty(),
        }
    } else {
        name + LINE_END@
    }
}

/// The text of the tree below and with the module `name` at `depth`, to
/// the depth `max_depth`.
pub open spec fn tree_text(
    database: DatabaseModel,
    max_depth: int,
    absolute_path: bool,
    name: Seq<char>,
    depth: int,
    last_child: bool,
) -> Seq<char>
    decreases max_depth - depth, 0int,
{
    let own = prefix(depth, last_child) + name_line(database, absolute_path, name);
    if depth < max_depth {
        let children = imports_of(database, lowercase(name));
        own + children_text(
            database,
            max_depth,
            absolute_path,
            children,
            depth + 1,
            children.len() as int,
        )
    } else {
        own
    }
}

/// The text of the trees of the first `count` of the modules `names`, which
/// are the children of one module and stand at `depth`.
pub open spec fn children_text(
    database: DatabaseModel,
    max_depth: int,
    absolute_path: bool,
    names: Seq<Seq<char>>,
    depth: int,
    count: int,
) -> Seq<char>
    decreases max_depth - depth, count + 1,
{
    if count <= 0 || depth > max_depth {
        Seq::empty()
    } else {
        children_text(database, max_depth, absolute_path, names, depth, count - 1) + tree_text(
            database,
            max_depth,
            absolute_path,
            names[count - 1],
            depth,
            count == names.len(),
        )
    }
}

/// The line that names the module with the lower-case name `key` in the
/// list: as in the tree, with the key in place of the name.
pub open spec fn key_line(database: DatabaseModel, absolute_path: bool, key: Seq<char>) -> Seq<
    char,
> {
    if absolute_path {
        match database.get(key) {
            Some(info) => if info.path.len() == 0 {
                key + LINE_END@
            } else {
                info.path + LINE_END@
            },
            None => Seq::empty(),
        }
    } else {
        key + LINE_END@
    }
}

/// The text of the list of the first `count` resolved keys, one line each.
pub open spec fn list_text(database: DatabaseModel, absolute_path: bool, count: int) -> Seq<char>
    decreases count,
{
    if count <= 0 {
        Seq::empty()
    } else {
        list_text(database, absolute_path, count - 1) + key_line(
            database,
            absolute_path,
            database.entries[count - 1].0,
        )
    }
}

/// Shows the imports of a module as a tree.
#[derive(Clone, Copy, Debug)]
pub struct TreePrinter {
    max_depth: Option<u32>,
    absolute_path: bool,
}

impl TreePrinter {
    /// A printer that goes down to `max_depth`, or without a limit, and
    /// shows names or absolute paths.
    pub fn new(max_depth: Option<u32>, absolute_path: bool) -> (printer: Self)
        ensures
            printer.max_depth() == max_depth,
            printer.absolute_path() == absolute_path,
    {
        Self { max_depth, absolute_path }
    }

    /// The depth below which nothing is shown.
    pub closed spec fn max_depth(&self) -> Option<u32> {
        self.max_depth
    }

    /// Whether paths are shown in place of names.
    pub closed spec fn absolute_path(&self) -> bool {
        self.absolute_path
    }

    /// The depth limit as a number: without a limit, the largest depth.
    pub open spec fn limit(&self) -> int {
        match self.max_depth() {
            Some(depth) => depth as int,
            None => u32::MAX as int,
        }
    }

    /// The text of the tree of the imports of the module `name`, which
    /// stands at `depth` and is or is not the last child of its parent: a
    /// line for the module, then the trees of the modules that it imports,
    /// one level deeper, unless the depth limit is reached.
    pub fn render(&self, database: &DllDatabase, name: &str, depth: u32, last_child: bool) -> (text:
        String)
        ensures
            text@ == tree_text(
                database@,
                self.limit(),
                self.absolute_path(),
                name@,
                depth as int,
                last_child,
            ),
    {
        let mut text = String::new();
        self.render_into(database, name, depth, last_child, &mut text);
        assert(text@ =~= tree_text(
            database@,
            self.limit(),
            self.absolute_path(),
            name@,
            depth as int,
            last_child,
        ));
        text
    }

    /// Writes the tree of the module `name` behind `out`.
    fn render_into(
        &self,
        database: &DllDatabase,
        name: &str,
        depth: u32,
        last_child: bool,
        out: &mut String,
    )
        ensures
            final(out)@ == old(out)@ + tree_text(
                database@,
                self.limit(),
                self.absolute_path(),
                name@,
                depth as int,
                last_child,
            ),
        decreases self.limit() - depth,
    {
        let ghost start = out@;
        let ghost own = prefix(depth as int, last_child) + name_line(
            database@,
            self.absolute_path,
            name@,
        );
        write_prefix(depth, last_child, out);
        write_name_line(database, self.absolute_path, name, out);
        assert(out@ =~= start + own);
        let limit: u32 = match self.max_depth {
            Some(depth) => depth,
            None => u32::MAX,
        };
        let ghost names = imports_of(database@, lowercase(name@));
        if depth < limit {
            match database.get_dll_info(name) {
                Some(info) => {
                    let imports = &info.file.imports;
                    assert(names == info.file@);
                    let mut index: usize = 0;
                    while index < imports.len()
                        invariant
                            index <= imports@.len(),
                            names.len() == imports@.len(),
                            forall|i: int| 0 <= i < names.len() ==> names[i] == imports@[i].name@,
                            depth < limit,
                            limit == self.limit(),
                            out@ == start + own + children_text(
                                database@,
                                self.limit(),
                                self.absolute_path(),
                                names,
                                depth + 1,
                                index as int,
                            ),
                        decreases imports@.len() - index,
                    {
                        let ghost written = out@;
                        self.render_into(
                            database,
                            imports[index].name.as_str(),
                            depth + 1,
                            index == imports.len() - 1,
                            out,
                        );
                        index = index + 1;
                        assert(out@ =~= start + own + children_text(
                            database@,
                            self.limit(),
                            self.absolute_path(),
                            names,
                            depth + 1,
                            index as int,
                        ));
                    }
                },
                None => {
                    assert(names.len() == 0);
                },
            }
            assert(out@ =~= start + (own + children_text(
                database@,
                self.limit(),
                self.absolute_path(),
                names,
                depth + 1,
                names.len() as int,
            )));
        }
    }
}

/// Writes what stands in front of a name at the given depth behind `out`.
pub fn write_prefix(depth: u32, last_child: bool, out: &mut String)
    ensures
        final(out)@ == old(out)@ + prefix(depth as int, last_child),
{
    let ghost start = out@;
    if depth > 0 {
        let mut level: u32 = 1;
        assert(out@ =~= start + trunks(0));
        while level < depth
            invariant
                1 <= level <= depth,
                out@ == start + trunks(level - 1),
            decreases depth - level,
        {
            out.append(TRUNK);
            level = level + 1;
            assert(out@ =~= start + trunks(level - 1));
        }
        if last_child {
            out.append(LAST_BRANCH);
        } else {
            out.append(BRANCH);
        }
        assert(out@ =~= start + prefix(depth as int, last_child));
    } else {
        assert(out@ =~= start + prefix(depth as int, last_child));
    }
}

/// Writes the line that names a module behind `out`.
pub fn write_name_line(database: &DllDatabase, absolute_path: bool, name: &str, out: &mut String)
    ensures
        final(out)@ == old(out)@ + name_line(database@, absolute_path, name@),
{
    let ghost start = out@;
    if absolute_path {
        match database.get_dll_info(name) {
            Some(info) => {
                if info.path.as_str().is_empty() {
                    out.append(name);
                } else {
                    out.append(info.path.as_str());
                }
                out.append(LINE_END);
            },
            None => {},
        }
    } else {
        out.append(name);
        out.append(LINE_END);
    }
    assert(out@ =~= start + name_line(database@, absolute_path, name@));
}

/// The text of the list of all modules that were resolved, in the order in
/// which they were: a line for each, as in the tree.
pub fn render_list(database: &DllDatabase, absolute_path: bool) -> (text: String)
    ensures
        text@ == list_text(database@, absolute_path, database@.entries.len() as int),
{
    let names = database.get_all_dlls();
    let mut text = String::new();
    let mut index: usize = 0;
    assert(text@ =~= list_text(database@, absolute_path, 0));
    while index < names.len()
        invariant
            index <= names@.len(),
            names@.len() == database@.entries.len(),
            forall|i: int| 0 <= i < names@.len() ==> (#[trigger] names@[i])@ == database@.entries[i].0,
            text@ == list_text(database@, absolute_path, index as int),
        decreases names@.len() - index,
    {
        write_key_line(database, absolute_path, &names[index], &mut text);
        index = index + 1;
    }
    text
}

/// Writes the line that names the module with the lower-case name `key`
/// behind `out`.
fn write_key_line(database: &DllDatabase, absolute_path: bool, key: &String, out: &mut String)
    ensures
        final(out)@ == old(out)@ + key_line(database@, absolute_path, key@),
{
    let ghost start = out@;
    if absolute_path {
        match database.get_by_key(key) {
            Some(info) => {
                if info.path.as_str().is_empty() {
                    out.append(key.as_str());
                } else {
                    out.append(info.path.as_str());
                }
                out.append(LINE_END);
            },
            None => {},
        }
    } else {
        out.append(key.as_str());
        out.append(LINE_END);
    }
    assert(out@ =~= start + key_line(database@, absolute_path, key@));
}

} // verus!
