//! Static resolution of the modules that a native executable image links
//! against: a parser for the image's import table, a model of the loader's
//! module search order, and a memoizing catalog with a graph walker on top.

use vstd::prelude::*;

pub mod dll_database;
pub mod pe;
pub mod registry;
pub mod search_path;
pub mod text;
pub mod tree_printer;
pub mod walker;

verus! {

/// How a module was found.
#[derive(Clone, Copy, Debug, PartialEq, Eq, Structural)]
pub enum DllType {
    /// Found in the directory of the program or in the current directory.
    User,
    /// Found in a directory of the search-path variable.
    Path,
    /// Found in the system directory or in the directory of the operating system.
    System,
    /// Registered as a module that always loads from one trusted location.
    Known,
    /// A forwarding module that is recognised by its name and has no file.
    Umbrella,
}

impl DllType {
    /// The label of each kind, as a sequence of characters.
    pub open spec fn label_chars(self) -> Seq<char> {
        match self {
            DllType::User => "user-dll"@,
            DllType::Path => "path-dll"@,
            DllType::System => "system-dll"@,
            DllType::Known => "known-dll"@,
            DllType::Umbrella => "umbrella-dll"@,
        }
    }

    /// The label under which this kind is shown.
    pub fn label(&self) -> (text: &'static str)
        ensures
            text@ == self.label_chars(),
    {
        match self {
            DllType::User => "user-dll",
            DllType::Path => "path-dll",
            DllType::System => "system-dll",
            DllType::Known => "known-dll",
            DllType::Umbrella => "umbrella-dll",
        }
    }
}

} // verus!
