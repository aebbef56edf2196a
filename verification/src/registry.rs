//! What the reader of the configuration store shares with its callers: the
//! names of the root keys and the error that a failed read gives.

use vstd::prelude::*;
use vstd::slice::slice_subrange;
use vstd::string::StringExecFns;

use crate::text::{decode_utf16_lossy, trim_end_nul, trim_end_nul_chars, utf16_lossy};

verus! {

/// The root keys of the configuration store.
#[derive(Clone, Copy, Debug, PartialEq, Eq, Structural)]
pub enum RootKey {
    LocalMachine,
    CurrentConfig,
    ClassesRoot,
    CurrentUser,
    Users,
}

/// A read of the configuration store that failed.
#[derive(Debug)]
pub struct RegistryError {
    message: String,
}

impl View for RegistryError {
    type V = Seq<char>;

    /// The message of the error.
    closed spec fn view(&self) -> Seq<char> {
        self.message@
    }
}

impl RegistryError {
    /// An error with the given message.
    pub fn new(message: &str) -> (error: Self)
        ensures
            error@ == message@,
    {
        RegistryError { message: message.to_owned() }
    }

    /// The message of the error.
    pub fn message(&self) -> (message: &str)
        ensures
            message@ == self@,
    {
        self.message.as_str()
    }

    /// The error as a line of text: its message behind the name of the
    /// error.
    pub fn to_text(&self) -> (text: String)
        ensures
            text@ == "RegistryError: "@ + self@,
    {
        let mut text = "RegistryError: ".to_owned();
        text.append(self.message.as_str());
        text
    }
}

/// The code with which a call into the store says that it succeeded.
pub const ERROR_SUCCESS: u32 = 0;

/// The code with which a call says that its buffer was too short.
pub const ERROR_MORE_DATA: u32 = 234;

/// The code with which an enumeration says that it is at its end.
pub const ERROR_NO_MORE_ITEMS: u32 = 259;

/// The number of units of the buffer with which an enumeration starts.
pub const INITIAL_BUFFER_LEN: usize = 256;

/// The text of a string value that was read as UTF-16 units: what the units
/// decode to, without the zero characters at its end.
pub fn string_value(units: &[u16]) -> (text: String)
    ensures
        text@ == trim_end_nul(utf16_lossy(units@)),
{
    let decoded = decode_utf16_lossy(units);
    trim_end_nul_chars(decoded.as_str()).to_owned()
}

/// What the reader of the names of a key does next.
#[derive(Clone, Copy, Debug, PartialEq, Eq, Structural)]
pub enum EnumerationStep {
    /// Ask the store for the name at the index of the enumeration, with a
    /// buffer of the length of the enumeration.
    Read,
    /// All names were read.
    Done,
    /// The enumeration failed.
    Failed,
}

/// The enumeration of the names of the values of a key, as a mathematical
/// value: the names that were read, each once and in the order in which it
/// was first read, the index of the next name, and the length of the buffer
/// for it.
pub struct ValueNamesModel {
    pub names: Seq<Seq<char>>,
    pub index: int,
    pub buffer_len: int,
}

impl ValueNamesModel {
    /// What is done after the store answered a read with `code` and, where
    /// it succeeded, put `size` units into `buffer`.
    pub open spec fn step(self, code: u32, buffer: Seq<u16>, size: u32) -> EnumerationStep {
        if code == ERROR_SUCCESS {
            if size <= buffer.len() && self.index < u32::MAX {
                EnumerationStep::Read
            } else {
                EnumerationStep::Failed
            }
        } else if code == ERROR_MORE_DATA {
            if 2 * self.buffer_len <= usize::MAX {
                EnumerationStep::Read
            } else {
                EnumerationStep::Failed
            }
        } else if code == ERROR_NO_MORE_ITEMS {
            EnumerationStep::Done
        } else {
            EnumerationStep::Failed
        }
    }

    /// The enumeration after that answer: a name that was read is kept and
    /// the next name is asked for; after a buffer that was too short the same
    /// name is asked for with a buffer of twice the length; else nothing
    /// changes.
    pub open spec fn after(self, code: u32, buffer: Seq<u16>, size: u32) -> ValueNamesModel {
        if self.step(code, buffer, size) != EnumerationStep::Read {
            self
        } else if code == ERROR_SUCCESS {
            let name = utf16_lossy(buffer.take(size as int));
            ValueNamesModel {
                names: if self.names.contains(name) {
                    self.names
                } else {
                    self.names.push(name)
                },
                index: self.index + 1,
                buffer_len: self.buffer_len,
            }
        } else {
            ValueNamesModel {
                names: self.names,
                index: self.index,
                buffer_len: 2 * self.buffer_len,
            }
        }
    }
}

/// The enumeration of the names of the values of a key. Its owner asks the
/// store for one name after the other and hands each answer to `advance`.
#[derive(Debug)]
pub struct ValueNames {
    names: Vec<String>,
    index: u32,
    buffer_len: usize,
}

impl View for ValueNames {
    type V = ValueNamesModel;

    closed spec fn view(&self) -> ValueNamesModel {
        ValueNamesModel {
            names: Seq::new(self.names@.len(), |i: int| self.names@[i]@),
            index: self.index as int,
            buffer_len: self.buffer_len as int,
        }
    }
}

impl ValueNames {
    /// An enumeration at its start.
    pub fn new() -> (enumeration: Self)
        ensures
            enumeration@ == (ValueNamesModel {
                names: Seq::empty(),
                index: 0,
                buffer_len: INITIAL_BUFFER_LEN as int,
            }),
    {
        let enumeration = ValueNames { names: Vec::new(), index: 0, buffer_len: INITIAL_BUFFER_LEN };
        assert(enumeration@.names =~= Seq::<Seq<char>>::empty());
        enumeration
    }

    /// The index of the name to ask for.
    pub fn index(&self) -> (index: u32)
        ensures
            index == self@.index,
    {
        self.index
    }

    /// The number of units of the buffer to ask with.
    pub fn buffer_len(&self) -> (len: usize)
        ensures
            len == self@.buffer_len,
    {
        self.buffer_len
    }

    /// Takes the answer of the store to a read: its code and, where the
    /// read succeeded, the `size` units of the name in `buffer`. Returns what
    /// to do next.
    pub fn advance(&mut self, code: u32, buffer: &[u16], size: u32) -> (step: EnumerationStep)
        ensures
            step == old(self)@.step(code, buffer@, size),
            final(self)@ == old(self)@.after(code, buffer@, size),
    {
        let ghost before = self@;
        if code == ERROR_SUCCESS {
            if size as usize > buffer.len() || self.index == u32::MAX {
                return EnumerationStep::Failed;
            }
            let name = decode_utf16_lossy(slice_subrange(buffer, 0, size as usize));
            if !self.holds(&name) {
                self.names.push(name);
                assert(self@.names =~= before.names.push(utf16_lossy(buffer@.take(size as int))));
            }
            self.index = self.index + 1;
            EnumerationStep::Read
        } else if code == ERROR_MORE_DATA {
            if self.buffer_len > usize::MAX / 2 {
                return EnumerationStep::Failed;
            }
            self.buffer_len = 2 * self.buffer_len;
            EnumerationStep::Read
        } else if code == ERROR_NO_MORE_ITEMS {
            EnumerationStep::Done
        } else {
            EnumerationStep::Failed
        }
    }

    /// Whether the name was read before.
    fn holds(&self, name: &String) -> (found: bool)
        ensures
            found == self@.names.contains(name@),
    {
        let mut index: usize = 0;
        while index < self.names.len()
            invariant
                index <= self.names@.len(),
                forall|i: int| 0 <= i < index ==> self@.names[i] != name@,
            decreases self.names@.len() - index,
        {
            if self.names[index] == *name {
                assert(self@.names[index as int] == name@);
                return true;
            }
            index = index + 1;
        }
        false
    }

    /// The names that were read.
    pub fn into_names(self) -> (names: Vec<String>)
        ensures
            names@.len() == self@.names.len(),
            forall|i: int| 0 <= i < names@.len() ==> (#[trigger] names@[i])@ == self@.names[i],
    {
        self.names
    }
}

} // verus!
