//! Application configuration and the records of completed store operations.

use vstd::prelude::*;

use crate::codec::CompressType;

verus! {

/// Smallest compression level either backend accepts.
pub const MIN_LEVEL: i32 = 0;

/// Largest compression level either backend accepts.
pub const MAX_LEVEL: i32 = 9;

/// True of the compression levels that both backends accept.
pub open spec fn level_in_range(level: i32) -> bool {
    MIN_LEVEL <= level <= MAX_LEVEL
}

/// Which direction the next operation runs in.
#[derive(Clone, Copy, Debug, PartialEq, Eq, Structural)]
pub enum Mode {
    Store,
    Retrieve,
}

/// A named, retrievable backup set: the original source paths that one
/// successful store operation packaged.
#[derive(Clone, Debug)]
pub struct Storage {
    pub name: String,
    pub files: Vec<String>,
}

impl Storage {
    pub fn new(name: String, files: Vec<String>) -> (r: Storage)
        ensures
            r.name == name,
            r.files == files,
    {
        Storage { name, files }
    }
}

/// Whether the owner may start a store operation: it needs a name for the
/// record, at least one input, and a non-empty access token.
pub fn store_request_ready(name: &String, input_count: usize, token: &String) -> (r: bool)
    ensures
        r == (name@.len() > 0 && input_count > 0 && token@.len() > 0),
{
    !name.as_str().is_empty() && input_count > 0 && !token.as_str().is_empty()
}

/// The owner-side configuration handed into each operation.
#[derive(Clone, Debug)]
pub struct Config {
    pub token: String,
    pub compression_level: i32,
    pub compress_type: CompressType,
    pub mode: Mode,
    pub storage: Vec<Storage>,
}

impl Default for Config {
    fn default() -> (r: Config)
        ensures
            r.token@.len() == 0,
            r.compression_level == MAX_LEVEL,
            r.compress_type == CompressType::LZMA,
            r.mode == Mode::Store,
            r.storage@.len() == 0,
    {
        Config {
            token: String::new(),
            compression_level: MAX_LEVEL,
            compress_type: CompressType::LZMA,
            mode: Mode::Store,
            storage: Vec::new(),
        }
    }
}

impl Config {
    /// Appends the record of a completed store operation.
    ///
    /// Names are not checked against existing records: a later record with
    /// the same name stands beside the earlier one, and access by index
    /// stays unambiguous.
    pub fn add_record(&mut self, record: Storage)
        ensures
            final(self).storage@ == old(self).storage@.push(record),
            final(self).token == old(self).token,
            final(self).compression_level == old(self).compression_level,
            final(self).compress_type == old(self).compress_type,
            final(self).mode == old(self).mode,
    {
        self.storage.push(record);
    }

    /// Deletes one stored record; later records shift down by one.
    pub fn remove_record(&mut self, i: usize) -> (r: Storage)
        requires
            i < old(self).storage@.len(),
        ensures
            final(self).storage@ == old(self).storage@.remove(i as int),
            r == old(self).storage@[i as int],
            final(self).token == old(self).token,
            final(self).compression_level == old(self).compression_level,
            final(self).compress_type == old(self).compress_type,
            final(self).mode == old(self).mode,
    {
        self.storage.remove(i)
    }

    /// Empties the file list of one stored record, keeping its name.
    pub fn clear_record_files(&mut self, i: usize)
        requires
            i < old(self).storage@.len(),
        ensures
            final(self).storage@.len() == old(self).storage@.len(),
            final(self).storage@[i as int].name@ == old(self).storage@[i as int].name@,
            final(self).storage@[i as int].files@.len() == 0,
            forall|j: int|
                0 <= j < old(self).storage@.len() && j != i ==> final(self).storage@[j]
                    == old(self).storage@[j],
            final(self).token == old(self).token,
            final(self).compression_level == old(self).compression_level,
            final(self).compress_type == old(self).compress_type,
            final(self).mode == old(self).mode,
    {
        let name = self.storage[i].name.clone();
        self.storage.set(i, Storage { name, files: Vec::new() });
    }
}

} // verus!
