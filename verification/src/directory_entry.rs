//! Directory entries of the service-locator tree that sits beside the
//! runtime: a category, a numeric id and a display name, ordered and
//! compared by id alone.

use vstd::prelude::*;

verus! {

/// What a directory entry stands for.
#[derive(Clone, Copy, Debug, PartialEq, Eq, Structural)]
pub enum DirectoryCategory {
    Unset,
    Account,
    Directory,
}

impl Default for DirectoryCategory {
    /// The default category: not set.
    fn default() -> (r: Self)
        ensures
            r == DirectoryCategory::Unset,
    {
        DirectoryCategory::Unset
    }
}

/// One entry of the service-locator directory. Identity is the numeric id:
/// equality and order ignore the category and the name.
#[derive(Clone, Debug)]
pub struct DirectoryEntry {
    pub category: DirectoryCategory,
    pub id: u32,
    pub name: String,
}

impl DirectoryEntry {
    /// The root account entry, with the fixed id 1.
    pub fn root_directory() -> (r: Self)
        ensures
            r.category == DirectoryCategory::Account,
            r.id == 1,
            r.name@ == "root"@,
    {
        DirectoryEntry::new(DirectoryCategory::Account, 1, "root".to_owned())
    }

    /// The star entry, id 0, that stands for every directory.
    pub fn star_directory() -> (r: Self)
        ensures
            r.category == DirectoryCategory::Directory,
            r.id == 0,
            r.name@ == "0"@,
    {
        DirectoryEntry::new(DirectoryCategory::Directory, 0, "0".to_owned())
    }

    pub fn new(category: DirectoryCategory, id: u32, name: String) -> (r: Self)
        ensures
            r.category == category,
            r.id == id,
            r.name == name,
    {
        DirectoryEntry { category, id, name }
    }

    /// An account entry with the given id and name.
    pub fn new_account(id: u32, name: String) -> (r: Self)
        ensures
            r.category == DirectoryCategory::Account,
            r.id == id,
            r.name == name,
    {
        DirectoryEntry::new(DirectoryCategory::Account, id, name)
    }

    /// A directory entry with the given id and name.
    pub fn new_directory(id: u32, name: String) -> (r: Self)
        ensures
            r.category == DirectoryCategory::Directory,
            r.id == id,
            r.name == name,
    {
        DirectoryEntry::new(DirectoryCategory::Directory, id, name)
    }
}

impl Default for DirectoryEntry {
    /// The default entry: no category, the largest id, an empty name.
    fn default() -> (r: Self)
        ensures
            r.category == DirectoryCategory::Unset,
            r.id == u32::MAX,
            r.name@ == Seq::<char>::empty(),
    {
        DirectoryEntry::new(DirectoryCategory::Unset, u32::MAX, String::new())
    }
}

impl PartialEq for DirectoryEntry {
    /// Entries are the same entry exactly when their ids agree.
    fn eq(&self, other: &Self) -> (r: bool) {
        self.id == other.id
    }
}

impl vstd::std_specs::cmp::PartialEqSpecImpl for DirectoryEntry {
    open spec fn obeys_eq_spec() -> bool {
        true
    }

    open spec fn eq_spec(&self, other: &Self) -> bool {
        self.id == other.id
    }
}

impl Eq for DirectoryEntry {

}

impl PartialOrd for DirectoryEntry {
    /// Entries order by id alone.
    fn partial_cmp(&self, other: &Self) -> (r: Option<core::cmp::Ordering>) {
        if self.id < other.id {
            Some(core::cmp::Ordering::Less)
        } else if self.id == other.id {
            Some(core::cmp::Ordering::Equal)
        } else {
            Some(core::cmp::Ordering::Greater)
        }
    }
}

impl vstd::std_specs::cmp::PartialOrdSpecImpl for DirectoryEntry {
    open spec fn obeys_partial_cmp_spec() -> bool {
        true
    }

    open spec fn partial_cmp_spec(&self, other: &Self) -> Option<core::cmp::Ordering> {
        if self.id < other.id {
            Some(core::cmp::Ordering::Less)
        } else if self.id == other.id {
            Some(core::cmp::Ordering::Equal)
        } else {
            Some(core::cmp::Ordering::Greater)
        }
    }
}

} // verus!
