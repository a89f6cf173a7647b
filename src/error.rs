use vstd::prelude::*;

verus! {

/// Every way in which a vault operation can fail.
#[derive(Debug, Clone, Copy, PartialEq, Eq, Structural)]
pub enum VaultError {
    /// A path that the operation reads or removes does not exist.
    NotFound,
    /// The source of a copy, move or import does not exist.
    SourceNotFound,
    /// The destination directory of a copy or move is missing or not a directory.
    DestinationNotFound,
    /// The named workspace has no directory.
    WorkspaceNotFound,
    /// The parent directory of a new entry does not exist.
    ParentNotFound,
    /// A file was expected and a directory found, or the other way round.
    WrongKind,
    /// The name that an entry would take is already in use.
    AlreadyExists,
    /// A workspace name is empty.
    EmptyName,
    /// A workspace name holds a path separator or a colon.
    InvalidName,
    /// A path inside a workspace is absolute or climbs out of the workspace.
    PathEscape,
    /// A file meant to be read as text is not valid UTF-8.
    BinaryContent,
    /// A document could not be encoded.
    SerializationFailed,
    /// A stored document could not be decoded.
    DeserializationFailed,
    /// The platform reports no home directory.
    HomeDirectoryUnavailable,
    /// The operating system refused an operation.
    Io,
}

} // verus!
