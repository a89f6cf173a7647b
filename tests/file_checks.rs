use doc_vault::fsops::{
    check_create, check_existing_file, check_existing_folder, check_relocate, check_rename,
    check_writable, EntryKind,
};
use doc_vault::VaultError;

#[test]
fn deleting_missing_file_is_not_found() {
    assert_eq!(check_existing_file(EntryKind::Missing), Err(VaultError::NotFound));
}

#[test]
fn deleting_directory_as_file_is_wrong_kind() {
    assert_eq!(check_existing_file(EntryKind::Directory), Err(VaultError::WrongKind));
}

#[test]
fn deleting_existing_file_is_allowed() {
    assert_eq!(check_existing_file(EntryKind::File), Ok(()));
}

#[test]
fn folder_checks() {
    assert_eq!(check_existing_folder(EntryKind::Missing), Err(VaultError::NotFound));
    assert_eq!(check_existing_folder(EntryKind::File), Err(VaultError::WrongKind));
    assert_eq!(check_existing_folder(EntryKind::Directory), Ok(()));
}

#[test]
fn create_checks() {
    assert_eq!(check_create(EntryKind::Missing, EntryKind::Missing), Err(VaultError::ParentNotFound));
    assert_eq!(check_create(EntryKind::File, EntryKind::Missing), Err(VaultError::WrongKind));
    assert_eq!(check_create(EntryKind::Directory, EntryKind::File), Err(VaultError::AlreadyExists));
    assert_eq!(check_create(EntryKind::Directory, EntryKind::Directory), Err(VaultError::AlreadyExists));
    assert_eq!(check_create(EntryKind::Directory, EntryKind::Missing), Ok(()));
}

#[test]
fn write_checks() {
    assert_eq!(check_writable(EntryKind::Directory), Err(VaultError::WrongKind));
    assert_eq!(check_writable(EntryKind::Missing), Ok(()));
    assert_eq!(check_writable(EntryKind::File), Ok(()));
}

#[test]
fn rename_checks() {
    assert_eq!(check_rename(EntryKind::Missing, EntryKind::Missing), Err(VaultError::NotFound));
    assert_eq!(check_rename(EntryKind::File, EntryKind::File), Err(VaultError::AlreadyExists));
    assert_eq!(check_rename(EntryKind::Directory, EntryKind::Missing), Ok(()));
}

#[test]
fn relocate_checks() {
    assert_eq!(check_relocate(EntryKind::Missing, EntryKind::Directory), Err(VaultError::SourceNotFound));
    assert_eq!(check_relocate(EntryKind::File, EntryKind::Missing), Err(VaultError::DestinationNotFound));
    assert_eq!(check_relocate(EntryKind::File, EntryKind::File), Err(VaultError::DestinationNotFound));
    assert_eq!(check_relocate(EntryKind::Directory, EntryKind::Directory), Ok(()));
}
