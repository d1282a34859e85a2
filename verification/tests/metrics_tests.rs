use convergio_autoresearch::extension::migrations;
use convergio_autoresearch::text::{count_lines, split_lines};
use convergio_autoresearch::tool_output::{
    candidate_files, candidate_files_in, count_listed_tests, count_listed_tests_in,
};

#[test]
fn insert_metrics_with_valid_pool() {
    let conn = rusqlite::Connection::open_in_memory().unwrap();
    for mig in migrations() {
        conn.execute_batch(&mig.up).unwrap();
    }
    conn.execute(
        "INSERT INTO autoresearch_metrics \
         (test_count, test_duration_secs, binary_size_bytes, \
          total_rust_lines, crate_count) VALUES (100, 5.5, 1000000, 50000, 28)",
        [],
    )
    .unwrap();
    let count: i64 = conn
        .query_row("SELECT COUNT(*) FROM autoresearch_metrics", [], |r| {
            r.get(0)
        })
        .unwrap();
    assert_eq!(count, 1);
}

#[test]
fn lines_match_str_lines() {
    let samples = [
        "",
        "a",
        "a\n",
        "a\nb",
        "a\r\nb\r\n",
        "\n\n",
        "x\r",
        "x\ry\n",
        "é\nü\r\n€",
        "\r\n",
    ];
    for s in samples {
        let expected: Vec<String> = s.lines().map(String::from).collect();
        assert_eq!(split_lines(s), expected, "input {:?}", s);
        assert_eq!(count_lines(s), s.lines().count(), "input {:?}", s);
    }
}

#[test]
fn counts_listed_tests() {
    let listing = "a::one: test\na::two: test\nsome bench: bench\n\n2 tests, 1 benchmark\n";
    assert_eq!(count_listed_tests_in(listing), 2);
    assert_eq!(count_listed_tests(listing.as_bytes()), 2);
    assert_eq!(count_listed_tests(b""), 0);
    assert_eq!(count_listed_tests(b"x: test\r\ny: test"), 2);
}

#[test]
fn candidates_skip_tests_and_stop_at_fifty() {
    let listing = "src/a.rs\nsrc/tests/b.rs\ntests/c.rs\nsrc/my_test.rs\nsrc/d.rs\n";
    assert_eq!(candidate_files_in(listing), vec!["src/a.rs".to_string(), "src/d.rs".to_string()]);
    let many: String = (0..60).map(|i| format!("src/f{}.rs\n", i)).collect();
    let got = candidate_files(many.as_bytes());
    assert_eq!(got.len(), 50);
    assert_eq!(got[0], "src/f0.rs");
    assert_eq!(got[49], "src/f49.rs");
}

#[test]
fn invalid_utf8_output_is_replaced() {
    let bytes = b"src/a\xffb.rs\nsrc/c.rs\n";
    let got = candidate_files(bytes);
    assert_eq!(got, vec!["src/a\u{fffd}b.rs".to_string(), "src/c.rs".to_string()]);
    assert_eq!(count_listed_tests(b"t\xfe: test\n"), 1);
}
