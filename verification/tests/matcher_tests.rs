use table_grep::matcher::{resolve_column_indices, row_matches};
use table_grep::pattern::Pattern;

fn re(pattern: &str) -> Pattern {
    Pattern::compile(pattern, false).unwrap()
}

#[test]
fn test_row_matches_basic() {
    let row = vec![
        "Alice".to_string(),
        "30".to_string(),
        "Engineer".to_string(),
    ];

    // Positive match — pattern present in row
    assert!(row_matches(&row, &re("Alice"), &None, false));

    // No match — pattern absent
    assert!(!row_matches(&row, &re("Bob"), &None, false));

    // Inverted: absent pattern → true
    assert!(row_matches(&row, &re("Bob"), &None, true));

    // Inverted: present pattern → false
    assert!(!row_matches(&row, &re("Alice"), &None, true));

    // Column filter: match only in column 1 (age), pattern matches
    assert!(row_matches(&row, &re("30"), &Some(vec![1]), false));

    // Column filter: restrict to column 0 (name), numeric pattern should not match
    assert!(!row_matches(&row, &re("30"), &Some(vec![0]), false));

    // Regex: match on partial word
    assert!(row_matches(&row, &re("Eng.*"), &None, false));

    // Case sensitivity: lowercase should not match "Alice" by default
    assert!(!row_matches(&row, &re("alice"), &None, false));

    // Case insensitive via regex flag
    assert!(row_matches(&row, &re("(?i)alice"), &None, false));
}

#[test]
fn invert_flips_the_verdict() {
    let rows = vec![
        vec!["Alice".to_string(), "30".to_string()],
        vec!["Bob".to_string(), "25".to_string()],
        vec![String::new()],
    ];
    for row in &rows {
        for pat in ["Alice", "o", "zzz", "^$", "[0-9]+"] {
            let p = re(pat);
            assert_eq!(
                row_matches(row, &p, &None, false),
                !row_matches(row, &p, &None, true)
            );
        }
    }
}

#[test]
fn empty_restriction_never_matches_unless_inverted() {
    let row = vec!["Alice".to_string(), "30".to_string()];
    let empty: Option<Vec<usize>> = Some(Vec::new());
    assert!(!row_matches(&row, &re("Alice"), &empty, false));
    assert!(row_matches(&row, &re("Alice"), &empty, true));
    assert!(!row_matches(&row, &re(""), &empty, false));
    assert!(row_matches(&row, &re(""), &empty, true));
}

#[test]
fn out_of_range_indices_are_skipped() {
    let row = vec!["Alice".to_string()];
    assert!(!row_matches(&row, &re("Alice"), &Some(vec![5]), false));
    assert!(row_matches(&row, &re("Alice"), &Some(vec![5, 0]), false));
}

#[test]
fn resolver_maps_names_in_request_order() {
    let headers = vec!["name".to_string(), "age".to_string(), "role".to_string()];
    let filter = Some(vec!["role".to_string(), "name".to_string()]);
    let (ix, warnings) = resolve_column_indices(&headers, &filter);
    assert_eq!(ix, Some(vec![2, 0]));
    assert!(warnings.is_empty());
}

#[test]
fn resolver_keeps_duplicates_and_warns_on_unknown() {
    let headers = vec!["name".to_string(), "age".to_string()];
    let filter = Some(vec![
        "age".to_string(),
        "missing".to_string(),
        "age".to_string(),
    ]);
    let (ix, warnings) = resolve_column_indices(&headers, &filter);
    assert_eq!(ix, Some(vec![1, 1]));
    assert_eq!(warnings, vec!["missing".to_string()]);
}

#[test]
fn resolver_unrestricted_when_no_filter() {
    let headers = vec!["name".to_string()];
    let (ix, warnings) = resolve_column_indices(&headers, &None);
    assert_eq!(ix, None);
    assert!(warnings.is_empty());
}

#[test]
fn resolver_all_unknown_gives_empty_set() {
    let headers = vec!["name".to_string()];
    let filter = Some(vec!["x".to_string(), "y".to_string()]);
    let (ix, warnings) = resolve_column_indices(&headers, &filter);
    assert_eq!(ix, Some(Vec::new()));
    assert_eq!(warnings, vec!["x".to_string(), "y".to_string()]);
}

#[test]
fn resolver_takes_first_exact_match_case_sensitively() {
    let headers = vec!["Name".to_string(), "name".to_string(), "name".to_string()];
    let filter = Some(vec!["name".to_string(), "Name".to_string()]);
    let (ix, warnings) = resolve_column_indices(&headers, &filter);
    assert_eq!(ix, Some(vec![1, 0]));
    assert!(warnings.is_empty());
}

#[test]
fn pattern_compile_rejects_invalid_expressions() {
    assert!(Pattern::compile("([", false).is_err());
    assert!(Pattern::compile("(", true).is_err());
    assert!(Pattern::compile("a|b", false).is_ok());
}

#[test]
fn pattern_is_match_is_a_substring_search() {
    let p = re("ng");
    assert!(p.is_match("Engineer"));
    assert!(!p.is_match("Analyst"));
}
