use doc_vault::fsops::EntryKind;
use doc_vault::workspace::{
    check_create_workspace, check_import, check_workspace, select_visible_files, select_workspaces,
    sidecar_file_name, validate_workspace_name, DirEntryInfo,
};
use doc_vault::VaultError;

fn entry(name: &str, kind: EntryKind, has_vault: bool) -> DirEntryInfo {
    DirEntryInfo {
        name: name.to_string(),
        path: format!("/home/u/root/{}", name),
        kind,
        has_vault,
    }
}

#[test]
fn empty_workspace_name_is_refused() {
    assert_eq!(validate_workspace_name(&String::new()), Err(VaultError::EmptyName));
    assert_eq!(check_create_workspace(&String::new(), EntryKind::Missing), Err(VaultError::EmptyName));
}

#[test]
fn workspace_name_with_separator_is_refused() {
    assert_eq!(validate_workspace_name(&"a/b".to_string()), Err(VaultError::InvalidName));
    assert_eq!(validate_workspace_name(&"a\\b".to_string()), Err(VaultError::InvalidName));
    assert_eq!(validate_workspace_name(&"c:".to_string()), Err(VaultError::InvalidName));
    assert_eq!(check_create_workspace(&"a/b".to_string(), EntryKind::Missing), Err(VaultError::InvalidName));
}

#[test]
fn valid_workspace_name_is_accepted() {
    assert_eq!(validate_workspace_name(&"Thesis 2024".to_string()), Ok(()));
    assert_eq!(check_create_workspace(&"Thesis".to_string(), EntryKind::Missing), Ok(()));
}

#[test]
fn existing_workspace_is_not_recreated() {
    assert_eq!(
        check_create_workspace(&"Thesis".to_string(), EntryKind::Directory),
        Err(VaultError::AlreadyExists)
    );
    assert_eq!(check_create_workspace(&"Thesis".to_string(), EntryKind::File), Err(VaultError::AlreadyExists));
}

#[test]
fn created_workspace_is_listed_once() {
    let entries = vec![
        entry("notes.txt", EntryKind::File, false),
        entry("Thesis", EntryKind::Directory, true),
        entry("plain-dir", EntryKind::Directory, false),
        entry("Other", EntryKind::Directory, true),
    ];
    let ws = select_workspaces(&entries);
    assert_eq!(ws.len(), 2);
    assert_eq!(ws.iter().filter(|w| w.name == "Thesis").count(), 1);
    assert_eq!(ws[0].name, "Thesis");
    assert_eq!(ws[0].path, "/home/u/root/Thesis");
    assert_eq!(ws[1].name, "Other");
}

#[test]
fn empty_root_lists_nothing() {
    assert!(select_workspaces(&Vec::new()).is_empty());
}

#[test]
fn visible_files_skip_dotfiles_and_directories() {
    let entries = vec![
        entry(".vault", EntryKind::Directory, false),
        entry(".DS_Store", EntryKind::File, false),
        entry("paper.pdf", EntryKind::File, false),
        entry("figures", EntryKind::Directory, false),
        entry("book.epub", EntryKind::File, false),
    ];
    assert_eq!(
        select_visible_files(&entries),
        vec!["paper.pdf".to_string(), "book.epub".to_string()]
    );
}

#[test]
fn sidecar_name_appends_json() {
    assert_eq!(sidecar_file_name(&"report.pdf".to_string()), "report.pdf.json");
    assert_eq!(sidecar_file_name(&String::new()), ".json");
}

#[test]
fn import_checks() {
    assert_eq!(check_import(EntryKind::Missing, EntryKind::File), Err(VaultError::WorkspaceNotFound));
    assert_eq!(check_import(EntryKind::Directory, EntryKind::Missing), Err(VaultError::SourceNotFound));
    assert_eq!(check_import(EntryKind::Directory, EntryKind::File), Ok(()));
}

#[test]
fn workspace_presence_check() {
    assert_eq!(check_workspace(EntryKind::Missing), Err(VaultError::WorkspaceNotFound));
    assert_eq!(check_workspace(EntryKind::Directory), Ok(()));
}
