use doc_vault::paths::resolve_workspace_path;
use doc_vault::VaultError;

fn resolve(s: &str) -> Result<Vec<String>, VaultError> {
    resolve_workspace_path(&s.to_string())
}

#[test]
fn traversal_probe_is_refused() {
    assert_eq!(resolve("../../etc/passwd"), Err(VaultError::PathEscape));
}

#[test]
fn absolute_path_is_refused() {
    assert_eq!(resolve("/etc/passwd"), Err(VaultError::PathEscape));
    assert_eq!(resolve("\\windows\\system32"), Err(VaultError::PathEscape));
}

#[test]
fn climbing_out_after_descending_is_refused() {
    assert_eq!(resolve("a/../../x"), Err(VaultError::PathEscape));
    assert_eq!(resolve("a\\..\\..\\x"), Err(VaultError::PathEscape));
}

#[test]
fn plain_name_resolves_to_itself() {
    assert_eq!(resolve("report.pdf"), Ok(vec!["report.pdf".to_string()]));
}

#[test]
fn dot_components_are_dropped() {
    assert_eq!(
        resolve("a/./b//c"),
        Ok(vec!["a".to_string(), "b".to_string(), "c".to_string()])
    );
}

#[test]
fn climbing_inside_the_workspace_is_kept() {
    assert_eq!(resolve("a/../b.pdf"), Ok(vec!["b.pdf".to_string()]));
}

#[test]
fn backslash_separates_too() {
    assert_eq!(resolve("sub\\file.pdf"), Ok(vec!["sub".to_string(), "file.pdf".to_string()]));
}

#[test]
fn empty_name_is_the_root() {
    assert_eq!(resolve(""), Ok(vec![]));
    assert_eq!(resolve("."), Ok(vec![]));
}

#[test]
fn dotted_names_are_ordinary() {
    assert_eq!(resolve("...").unwrap(), vec!["...".to_string()]);
    assert_eq!(resolve("..a").unwrap(), vec!["..a".to_string()]);
}
