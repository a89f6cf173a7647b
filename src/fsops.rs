use vstd::prelude::*;

use crate::error::VaultError;

verus! {

/// What the file system holds at a path, as observed by the caller.
#[derive(Debug, Clone, Copy, PartialEq, Eq, Structural)]
pub enum EntryKind {
    /// Nothing exists at the path.
    Missing,
    /// A regular file (or anything else that is not a directory).
    File,
    /// A directory.
    Directory,
}

/// The outcome of creating an entry named in `parent`, where `target` is
/// what the new entry's path holds now.
pub open spec fn create_outcome(parent: EntryKind, target: EntryKind) -> Result<(), VaultError> {
    if parent == EntryKind::Missing {
        Err(VaultError::ParentNotFound)
    } else if parent == EntryKind::File {
        Err(VaultError::WrongKind)
    } else if target != EntryKind::Missing {
        Err(VaultError::AlreadyExists)
    } else {
        Ok(())
    }
}

/// Decides whether a new file or folder may be created: the parent must be
/// an existing directory and the new entry's name must be free.
pub fn check_create(parent: EntryKind, target: EntryKind) -> (r: Result<(), VaultError>)
    ensures
        r == create_outcome(parent, target),
{
    match parent {
        EntryKind::Missing => Err(VaultError::ParentNotFound),
        EntryKind::File => Err(VaultError::WrongKind),
        EntryKind::Directory => match target {
            EntryKind::Missing => Ok(()),
            _ => Err(VaultError::AlreadyExists),
        },
    }
}

/// The outcome of an operation that needs an existing entry of kind `want`.
pub open spec fn existing_outcome(target: EntryKind, want: EntryKind) -> Result<(), VaultError> {
    if target == EntryKind::Missing {
        Err(VaultError::NotFound)
    } else if target != want {
        Err(VaultError::WrongKind)
    } else {
        Ok(())
    }
}

/// Decides whether a file may be deleted or read: it must exist and must not
/// be a directory.
pub fn check_existing_file(target: EntryKind) -> (r: Result<(), VaultError>)
    ensures
        r == existing_outcome(target, EntryKind::File),
{
    match target {
        EntryKind::Missing => Err(VaultError::NotFound),
        EntryKind::Directory => Err(VaultError::WrongKind),
        EntryKind::File => Ok(()),
    }
}

/// Decides whether a folder may be deleted: it must exist and be a
/// directory.
pub fn check_existing_folder(target: EntryKind) -> (r: Result<(), VaultError>)
    ensures
        r == existing_outcome(target, EntryKind::Directory),
{
    match target {
        EntryKind::Missing => Err(VaultError::NotFound),
        EntryKind::File => Err(VaultError::WrongKind),
        EntryKind::Directory => Ok(()),
    }
}

/// Decides whether a file may be written: anything but a directory is
/// written (a missing file is created).
pub fn check_writable(target: EntryKind) -> (r: Result<(), VaultError>)
    ensures
        r is Err <==> target == EntryKind::Directory,
        r is Err ==> r->Err_0 == VaultError::WrongKind,
{
    match target {
        EntryKind::Directory => Err(VaultError::WrongKind),
        _ => Ok(()),
    }
}

/// Decides whether an entry may be renamed: it must exist and its new name
/// must be free in the same directory.
pub fn check_rename(source: EntryKind, target: EntryKind) -> (r: Result<(), VaultError>)
    ensures
        r == (if source == EntryKind::Missing {
            Err(VaultError::NotFound)
        } else if target != EntryKind::Missing {
            Err(VaultError::AlreadyExists)
        } else {
            Ok(())
        }),
{
    if source == EntryKind::Missing {
        Err(VaultError::NotFound)
    } else if target != EntryKind::Missing {
        Err(VaultError::AlreadyExists)
    } else {
        Ok(())
    }
}

/// Decides whether an entry may be copied or moved into `dest_dir`: the
/// source must exist and the destination must be a directory.
pub fn check_relocate(source: EntryKind, dest_dir: EntryKind) -> (r: Result<(), VaultError>)
    ensures
        r == (if source == EntryKind::Missing {
            Err(VaultError::SourceNotFound)
        } else if dest_dir != EntryKind::Directory {
            Err(VaultError::DestinationNotFound)
        } else {
            Ok(())
        }),
{
    if source == EntryKind::Missing {
        Err(VaultError::SourceNotFound)
    } else if dest_dir != EntryKind::Directory {
        Err(VaultError::DestinationNotFound)
    } else {
        Ok(())
    }
}

} // verus!
