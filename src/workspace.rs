use vstd::prelude::*;
use vstd::string::*;

use crate::error::VaultError;
use crate::fsops::EntryKind;

verus! {

/// The directory, under the user's home, that holds every workspace.
pub const ROOT_DIR_NAME: &'static str = "hackxindia26";

/// The directory, inside a workspace, that holds its annotation sidecars.
pub const VAULT_DIR_NAME: &'static str = ".vault";

/// A workspace found under the root directory.
#[derive(Debug, Clone)]
pub struct Workspace {
    /// The workspace's name, which is its directory's name.
    pub name: String,
    /// The full path of the workspace's directory.
    pub path: String,
}

/// One entry of a directory listing, with what the caller observed of it.
#[derive(Debug, Clone)]
pub struct DirEntryInfo {
    /// The entry's own name.
    pub name: String,
    /// The entry's full path.
    pub path: String,
    /// What kind of entry it is.
    pub kind: EntryKind,
    /// Whether the entry is a directory holding a vault directory.
    pub has_vault: bool,
}

/// A character that a workspace name may not hold: a path separator, or the
/// colon of a drive letter.
pub open spec fn is_forbidden_name_char(c: char) -> bool {
    c == '/' || c == '\\' || c == ':'
}

/// The verdict on a proposed workspace name.
pub open spec fn name_verdict(name: Seq<char>) -> Result<(), VaultError> {
    if name.len() == 0 {
        Err(VaultError::EmptyName)
    } else if exists|i: int| 0 <= i < name.len() && is_forbidden_name_char(name[i]) {
        Err(VaultError::InvalidName)
    } else {
        Ok(())
    }
}

/// Checks a proposed workspace name: it must be non-empty and hold no `/`,
/// `\` or `:`.
pub fn validate_workspace_name(name: &String) -> (r: Result<(), VaultError>)
    ensures
        r == name_verdict(name@),
{
    let s = name.as_str();
    let n = s.unicode_len();
    if n == 0 {
        return Err(VaultError::EmptyName);
    }
    let mut i: usize = 0;
    while i < n
        invariant
            n == name@.len(),
            s@ == name@,
            i <= n,
            forall|j: int| 0 <= j < i ==> !is_forbidden_name_char(#[trigger] name@[j]),
        decreases n - i,
    {
        let c = s.get_char(i);
        if c == '/' || c == '\\' || c == ':' {
            return Err(VaultError::InvalidName);
        }
        i = i + 1;
    }
    Ok(())
}

/// Decides whether a workspace may be created under `name`, where `existing`
/// is what the workspace's directory path holds now.
pub fn check_create_workspace(name: &String, existing: EntryKind) -> (r: Result<(), VaultError>)
    ensures
        r == (match name_verdict(name@) {
            Err(e) => Err(e),
            Ok(_) => if existing == EntryKind::Missing {
                Ok(())
            } else {
                Err(VaultError::AlreadyExists)
            },
        }),
{
    validate_workspace_name(name)?;
    if existing == EntryKind::Missing {
        Ok(())
    } else {
        Err(VaultError::AlreadyExists)
    }
}

/// Decides whether a file may be imported into a workspace: the workspace
/// directory and the source must both exist.
pub fn check_import(workspace: EntryKind, source: EntryKind) -> (r: Result<(), VaultError>)
    ensures
        r == (if workspace == EntryKind::Missing {
            Err(VaultError::WorkspaceNotFound)
        } else if source == EntryKind::Missing {
            Err(VaultError::SourceNotFound)
        } else {
            Ok(())
        }),
{
    if workspace == EntryKind::Missing {
        Err(VaultError::WorkspaceNotFound)
    } else if source == EntryKind::Missing {
        Err(VaultError::SourceNotFound)
    } else {
        Ok(())
    }
}

/// Decides whether a workspace's files may be listed or read: its directory
/// must exist.
pub fn check_workspace(workspace: EntryKind) -> (r: Result<(), VaultError>)
    ensures
        r is Err <==> workspace == EntryKind::Missing,
        r is Err ==> r->Err_0 == VaultError::WorkspaceNotFound,
{
    if workspace == EntryKind::Missing {
        Err(VaultError::WorkspaceNotFound)
    } else {
        Ok(())
    }
}

/// The name of the JSON file in a vault that holds the annotations of the
/// content file `file_name`.
pub open spec fn sidecar_name(file_name: Seq<char>) -> Seq<char> {
    file_name + seq!['.', 'j', 's', 'o', 'n']
}

/// Names the sidecar file of `file_name`: `file_name` followed by `.json`.
pub fn sidecar_file_name(file_name: &String) -> (r: String)
    ensures
        r@ == sidecar_name(file_name@),
{
    proof {
        reveal_strlit(".json");
    }
    let mut r = file_name.clone();
    r.append(".json");
    r
}

/// Whether a listed entry of the root directory is a workspace.
pub open spec fn is_workspace_entry(e: DirEntryInfo) -> bool {
    e.kind == EntryKind::Directory && e.has_vault
}

/// The entries of a root directory listing that are workspaces, in order.
pub open spec fn workspace_entries(es: Seq<DirEntryInfo>) -> Seq<DirEntryInfo>
    decreases es.len(),
{
    if es.len() == 0 {
        Seq::empty()
    } else {
        let init = workspace_entries(es.drop_last());
        if is_workspace_entry(es.last()) {
            init.push(es.last())
        } else {
            init
        }
    }
}

/// Whether a listed entry of a workspace directory is a visible file: a
/// regular file whose name does not start with a dot.
pub open spec fn is_visible_file(e: DirEntryInfo) -> bool {
    e.kind == EntryKind::File && !(e.name@.len() > 0 && e.name@[0] == '.')
}

/// The entries of a workspace directory listing that are visible files.
pub open spec fn visible_files(es: Seq<DirEntryInfo>) -> Seq<DirEntryInfo>
    decreases es.len(),
{
    if es.len() == 0 {
        Seq::empty()
    } else {
        let init = visible_files(es.drop_last());
        if is_visible_file(es.last()) {
            init.push(es.last())
        } else {
            init
        }
    }
}

/// How many entries of `es` are named `n`.
pub open spec fn count_named(es: Seq<DirEntryInfo>, n: Seq<char>) -> nat
    decreases es.len(),
{
    if es.len() == 0 {
        0
    } else {
        count_named(es.drop_last(), n) + if es.last().name@ == n {
            1nat
        } else {
            0nat
        }
    }
}

/// No two entries of `es` share a name, as in any directory listing.
pub open spec fn names_distinct(es: Seq<DirEntryInfo>) -> bool {
    forall|i: int, j: int| 0 <= i < j < es.len() ==> es[i].name@ != es[j].name@
}

proof fn lemma_absent_not_listed(es: Seq<DirEntryInfo>, n: Seq<char>)
    requires
        forall|i: int| 0 <= i < es.len() ==> es[i].name@ != n,
    ensures
        count_named(workspace_entries(es), n) == 0,
    decreases es.len(),
{
    if es.len() > 0 {
        let init = es.drop_last();
        lemma_absent_not_listed(init, n);
        if is_workspace_entry(es.last()) {
            assert(workspace_entries(es).drop_last() =~= workspace_entries(init));
            assert(es.last().name@ != n);
        }
    }
}

/// A directory with a vault among the root's entries (which is what creating
/// a workspace leaves behind) is listed as a workspace exactly once.
pub proof fn lemma_created_workspace_listed_once(es: Seq<DirEntryInfo>, k: int)
    requires
        names_distinct(es),
        0 <= k < es.len(),
        es[k].kind == EntryKind::Directory,
        es[k].has_vault,
    ensures
        count_named(workspace_entries(es), es[k].name@) == 1,
    decreases es.len(),
{
    let init = es.drop_last();
    let n = es[k].name@;
    if k == es.len() - 1 {
        lemma_absent_not_listed(init, n);
        assert(workspace_entries(es) == workspace_entries(init).push(es.last()));
        assert(workspace_entries(es).drop_last() =~= workspace_entries(init));
    } else {
        lemma_created_workspace_listed_once(init, k);
        assert(es.last().name@ != n);
        if is_workspace_entry(es.last()) {
            assert(workspace_entries(es).drop_last() =~= workspace_entries(init));
        }
    }
}

/// Picks the workspaces out of a listing of the root directory: the
/// directories that hold a vault, in listing order.
pub fn select_workspaces(entries: &Vec<DirEntryInfo>) -> (r: Vec<Workspace>)
    ensures
        r@.len() == workspace_entries(entries@).len(),
        forall|i: int|
            0 <= i < r@.len() ==> r@[i].name@ == (#[trigger] workspace_entries(entries@)[i]).name@
                && r@[i].path@ == workspace_entries(entries@)[i].path@,
{
    let mut r: Vec<Workspace> = Vec::new();
    let mut i: usize = 0;
    while i < entries.len()
        invariant
            i <= entries.len(),
            r@.len() == workspace_entries(entries@.take(i as int)).len(),
            forall|k: int|
                0 <= k < r@.len() ==> r@[k].name@ == (#[trigger] workspace_entries(
                    entries@.take(i as int),
                )[k]).name@ && r@[k].path@ == workspace_entries(entries@.take(i as int))[k].path@,
        decreases entries.len() - i,
    {
        let e = &entries[i];
        assert(entries@.take(i + 1).drop_last() =~= entries@.take(i as int));
        if e.kind == EntryKind::Directory && e.has_vault {
            r.push(Workspace { name: e.name.clone(), path: e.path.clone() });
        }
        i = i + 1;
    }
    assert(entries@.take(entries.len() as int) =~= entries@);
    r
}

/// Picks the visible files out of a listing of a workspace directory: the
/// regular files whose names do not start with a dot, in listing order. The
/// vault directory and other hidden entries are left out.
pub fn select_visible_files(entries: &Vec<DirEntryInfo>) -> (r: Vec<String>)
    ensures
        r@.len() == visible_files(entries@).len(),
        forall|i: int| 0 <= i < r@.len() ==> r@[i]@ == (#[trigger] visible_files(entries@)[i]).name@,
{
    let mut r: Vec<String> = Vec::new();
    let mut i: usize = 0;
    while i < entries.len()
        invariant
            i <= entries.len(),
            r@.len() == visible_files(entries@.take(i as int)).len(),
            forall|k: int|
                0 <= k < r@.len() ==> r@[k]@ == (#[trigger] visible_files(
                    entries@.take(i as int),
                )[k]).name@,
        decreases entries.len() - i,
    {
        let e = &entries[i];
        assert(entries@.take(i + 1).drop_last() =~= entries@.take(i as int));
        let hidden = e.name.as_str().unicode_len() > 0 && e.name.as_str().get_char(0) == '.';
        if e.kind == EntryKind::File && !hidden {
            r.push(e.name.clone());
        }
        i = i + 1;
    }
    assert(entries@.take(entries.len() as int) =~= entries@);
    r
}

} // verus!
