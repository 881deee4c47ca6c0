use circom_analyzer::file_analyzer::Count;
use circom_analyzer::file_analyzer::FileSizeAnalyzer;

fn lines(texts: &[&str]) -> Vec<String> {
    texts.iter().map(|t| t.to_string()).collect()
}

fn count(texts: &[&str]) -> Count {
    FileSizeAnalyzer::count_lines(&lines(texts))
}

fn assert_invariant(c: &Count) {
    assert_eq!(
        c.total_lines,
        c.white_lines + c.comment_lines + c.long_comment_lines + c.code_lines
    );
}

#[test]
fn five_line_file_scenario() {
    let c = count(&["/**", "doc", "*/", "", "x = 1;"]);
    assert_eq!(c.total_lines, 5);
    assert_eq!(c.white_lines, 1);
    assert_eq!(c.comment_lines, 0);
    assert_eq!(c.long_comment_lines, 3);
    assert_eq!(c.code_lines, 1);
    assert_invariant(&c);
}

#[test]
fn empty_file_counts_to_zero() {
    let c = count(&[]);
    assert_eq!(c.total_lines, 0);
    assert_eq!(c.white_lines, 0);
    assert_eq!(c.comment_lines, 0);
    assert_eq!(c.long_comment_lines, 0);
    assert_eq!(c.code_lines, 0);
    assert_invariant(&c);
}

#[test]
fn total_equals_sum_of_categories() {
    let samples: Vec<Vec<String>> = vec![
        lines(&["pragma circom 2.0.0;", "", "// main", "template T() {}"]),
        lines(&["/** a */", "*/", "**/", "/**", "deep inside"]),
        lines(&["   ", "\t", "x", "// y", "/** z"]),
    ];
    for sample in &samples {
        assert_invariant(&FileSizeAnalyzer::count_lines(sample));
    }
}

#[test]
fn block_state_resets_per_call() {
    // `count_lines` always starts outside a block comment.
    let c = count(&["inside?"]);
    assert_eq!(c.code_lines, 1);
    assert_eq!(c.long_comment_lines, 0);
}

#[test]
fn merge_of_nothing_is_zero() {
    let z = Count::merge(&vec![]);
    assert_eq!(z.total_lines, 0);
    assert_eq!(z.white_lines, 0);
    assert_eq!(z.comment_lines, 0);
    assert_eq!(z.long_comment_lines, 0);
    assert_eq!(z.code_lines, 0);
}

#[test]
fn merge_sums_fields() {
    let a = count(&["/**", "doc", "*/", "", "x = 1;"]);
    let b = count(&["// one", "two();"]);
    let m = Count::merge(&vec![a, b]);
    assert_eq!(m.total_lines, 7);
    assert_eq!(m.white_lines, 1);
    assert_eq!(m.comment_lines, 1);
    assert_eq!(m.long_comment_lines, 3);
    assert_eq!(m.code_lines, 2);
}

#[test]
fn merge_is_commutative() {
    let a = count(&["/**", "doc", "*/"]);
    let b = count(&["// one", "two();", ""]);
    let c = count(&["x", "y", "   "]);
    let abc = Count::merge(&vec![a, b, c]);
    assert_eq!(abc, Count::merge(&vec![c, b, a]));
    assert_eq!(abc, Count::merge(&vec![b, a, c]));
}

#[test]
fn merge_is_associative_over_partial_aggregates() {
    let a = count(&["/**", "doc", "*/"]);
    let b = count(&["// one", "two();", ""]);
    let c = count(&["x", "y", "   "]);
    let whole = Count::merge(&vec![a, b, c]);
    let left = Count::merge(&vec![Count::merge(&vec![a, b]), c]);
    let right = Count::merge(&vec![a, Count::merge(&vec![b, c])]);
    assert_eq!(whole, left);
    assert_eq!(whole, right);
}

#[test]
fn analyze_lines_records_the_tally() {
    let mut analyzer = FileSizeAnalyzer::new("main.circom".to_string());
    assert_eq!(analyzer.count.total_lines, 0);
    analyzer.analyze_lines(&lines(&["/**", "doc", "*/", "", "x = 1;"]));
    assert_eq!(analyzer.path, "main.circom");
    assert_eq!(analyzer.count.total_lines, 5);
    assert_eq!(analyzer.count.long_comment_lines, 3);
}

#[test]
fn default_analyzer_is_empty() {
    let analyzer = FileSizeAnalyzer::default();
    assert_eq!(analyzer.path, "");
    assert_eq!(analyzer.count.total_lines, 0);
}
