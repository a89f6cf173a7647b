use doc_vault::names::{choose_destination_name, decimal_string, numbered_name_string, split_name};

fn names(v: &[&str]) -> Vec<String> {
    v.iter().map(|s| s.to_string()).collect()
}

#[test]
fn free_name_is_kept() {
    let r = choose_destination_name(&"report.txt".to_string(), &names(&["other.txt"]));
    assert_eq!(r, "report.txt");
}

#[test]
fn first_conflict_gets_counter_one() {
    let r = choose_destination_name(&"report.txt".to_string(), &names(&["report.txt"]));
    assert_eq!(r, "report (1).txt");
}

#[test]
fn second_conflict_gets_counter_two() {
    let mut existing = names(&["report.txt"]);
    let first = choose_destination_name(&"report.txt".to_string(), &existing);
    existing.push(first);
    let second = choose_destination_name(&"report.txt".to_string(), &existing);
    assert_eq!(second, "report (2).txt");
}

#[test]
fn gap_in_counters_is_filled() {
    let existing = names(&["report.txt", "report (2).txt"]);
    let r = choose_destination_name(&"report.txt".to_string(), &existing);
    assert_eq!(r, "report (1).txt");
}

#[test]
fn many_conflicts_reach_two_digit_counter() {
    let mut existing = names(&["a.pdf"]);
    for i in 1..=11 {
        existing.push(format!("a ({}).pdf", i));
    }
    let r = choose_destination_name(&"a.pdf".to_string(), &existing);
    assert_eq!(r, "a (12).pdf");
}

#[test]
fn name_without_extension() {
    let r = choose_destination_name(&"notes".to_string(), &names(&["notes"]));
    assert_eq!(r, "notes (1)");
}

#[test]
fn hidden_name_has_no_extension() {
    let r = choose_destination_name(&".bashrc".to_string(), &names(&[".bashrc"]));
    assert_eq!(r, ".bashrc (1)");
}

#[test]
fn only_last_extension_moves() {
    let r = choose_destination_name(&"archive.tar.gz".to_string(), &names(&["archive.tar.gz"]));
    assert_eq!(r, "archive.tar (1).gz");
}

#[test]
fn trailing_dot_counts_as_no_extension() {
    let r = choose_destination_name(&"draft.".to_string(), &names(&["draft."]));
    assert_eq!(r, "draft (1)");
}

#[test]
fn split_name_cases() {
    assert_eq!(split_name(&"report.txt".to_string()), ("report".to_string(), "txt".to_string()));
    assert_eq!(split_name(&"notes".to_string()), ("notes".to_string(), String::new()));
    assert_eq!(split_name(&".vault".to_string()), (".vault".to_string(), String::new()));
    assert_eq!(split_name(&"a.b.c".to_string()), ("a.b".to_string(), "c".to_string()));
    assert_eq!(split_name(&String::new()), (String::new(), String::new()));
}

#[test]
fn decimal_string_values() {
    assert_eq!(decimal_string(0), "0");
    assert_eq!(decimal_string(7), "7");
    assert_eq!(decimal_string(120), "120");
    assert_eq!(decimal_string(u128::MAX), u128::MAX.to_string());
}

#[test]
fn numbered_name_values() {
    assert_eq!(numbered_name_string(&"x".to_string(), &"md".to_string(), 3), "x (3).md");
    assert_eq!(numbered_name_string(&"x".to_string(), &String::new(), 10), "x (10)");
}

#[test]
fn unicode_names_are_handled() {
    let r = choose_destination_name(&"résumé.pdf".to_string(), &names(&["résumé.pdf"]));
    assert_eq!(r, "résumé (1).pdf");
}
