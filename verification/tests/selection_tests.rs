use convergio_autoresearch::stats::{list_window, summarize_outcomes, ResultsSummary};
use convergio_autoresearch::targets::choose_target;

fn files(v: &[(&str, usize)]) -> Vec<(String, usize)> {
    v.iter().map(|(p, n)| (p.to_string(), *n)).collect()
}

#[test]
fn picks_longest_file_under_limit() {
    let f = files(&[("a.rs", 10), ("b.rs", 249), ("c.rs", 250), ("d.rs", 300), ("e.rs", 100)]);
    assert_eq!(choose_target(&f), Ok("b.rs".to_string()));
}

#[test]
fn first_of_equal_files_wins() {
    let f = files(&[("a.rs", 40), ("b.rs", 40), ("c.rs", 12)]);
    assert_eq!(choose_target(&f), Ok("a.rs".to_string()));
}

#[test]
fn no_target_when_all_empty_or_too_long() {
    assert_eq!(choose_target(&files(&[])), Err("no suitable target found".to_string()));
    let f = files(&[("a.rs", 0), ("b.rs", 250), ("c.rs", 1000)]);
    assert_eq!(choose_target(&f), Err("no suitable target found".to_string()));
}

#[test]
fn results_with_experiments() {
    let outcomes = vec![
        Some("kept".to_string()),
        Some("kept".to_string()),
        Some("discarded".to_string()),
        Some("error".to_string()),
    ];
    let s = summarize_outcomes(&outcomes);
    assert_eq!(s, ResultsSummary { total: 4, kept: 2, discarded: 1, errors: 1 });
}

#[test]
fn results_empty_db() {
    let s = summarize_outcomes(&Vec::new());
    assert_eq!(s, ResultsSummary { total: 0, kept: 0, discarded: 0, errors: 0 });
}

#[test]
fn pending_and_missing_outcomes_count_in_total_only() {
    let outcomes = vec![Some("pending".to_string()), None, Some("Kept".to_string())];
    let s = summarize_outcomes(&outcomes);
    assert_eq!(s, ResultsSummary { total: 3, kept: 0, discarded: 0, errors: 0 });
}

#[test]
fn experiments_pagination_window() {
    assert_eq!(list_window(None, None), (20, 0));
    assert_eq!(list_window(Some(2), Some(3)), (2, 3));
    assert_eq!(list_window(Some(500), Some(50_000)), (100, 10_000));
    let (l, o) = list_window(Some(500), Some(50_000));
    assert_eq!(list_window(Some(l), Some(o)), (l, o));
}
