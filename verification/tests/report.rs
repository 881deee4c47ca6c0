use circom_analyzer::file_analyzer::Analysis;
use circom_analyzer::file_analyzer::Count;
use circom_analyzer::file_analyzer::FileSizeAnalyzer;
use circom_analyzer::render::usize_to_string;

fn lines(texts: &[&str]) -> Vec<String> {
    texts.iter().map(|t| t.to_string()).collect()
}

fn analyzer_for(path: &str, texts: &[&str]) -> FileSizeAnalyzer {
    let mut a = FileSizeAnalyzer::new(path.to_string());
    a.analyze_lines(&lines(texts));
    a
}

fn expected_metric_table(c: &Count) -> String {
    let mut s = String::new();
    s.push_str("+--------------------+-------+\n");
    s.push_str("| Metric             | Count |\n");
    s.push_str("+--------------------+-------+\n");
    s.push_str(&format!("| Total lines        | {:>5} |\n", c.total_lines));
    s.push_str(&format!("| White lines        | {:>5} |\n", c.white_lines));
    s.push_str(&format!("| Comment lines      | {:>5} |\n", c.comment_lines));
    s.push_str(&format!(
        "| Long comment lines | {:>5} |\n",
        c.long_comment_lines
    ));
    s.push_str(&format!("| Code lines         | {:>5} |\n", c.code_lines));
    s.push_str("+--------------------+-------+\n");
    s
}

fn expected_table(paths: &[&str], counts: &[Count]) -> String {
    let longest = paths.iter().map(|p| p.len()).max().unwrap_or(0);
    let fw = 18usize.max("File".len().max(longest));
    let nw = 12usize;
    let tw = (fw + 3) + 5 * (nw + 3) + 2;
    let sep = format!("{}\n", "-".repeat(tw));
    let mut s = String::new();
    s.push_str(&sep);
    s.push_str(&format!(
        "| {:<fw$} | {:>nw$} | {:>nw$} | {:>nw$} | {:>nw$} | {:>nw$} |\n",
        "File", "Total", "White", "Comments", "Long Cmt", "Code"
    ));
    s.push_str(&sep);
    let mut total = Count {
        total_lines: 0,
        white_lines: 0,
        comment_lines: 0,
        long_comment_lines: 0,
        code_lines: 0,
    };
    for (path, c) in paths.iter().zip(counts.iter()) {
        s.push_str(&format!(
            "| {:<fw$} | {:>nw$} | {:>nw$} | {:>nw$} | {:>nw$} | {:>nw$} |\n",
            path, c.total_lines, c.white_lines, c.comment_lines, c.long_comment_lines, c.code_lines
        ));
        total.total_lines += c.total_lines;
        total.white_lines += c.white_lines;
        total.comment_lines += c.comment_lines;
        total.long_comment_lines += c.long_comment_lines;
        total.code_lines += c.code_lines;
    }
    s.push_str(&sep);
    s.push_str(&format!(
        "| {:<fw$} | {:>nw$} | {:>nw$} | {:>nw$} | {:>nw$} | {:>nw$} |\n",
        "TOTAL",
        total.total_lines,
        total.white_lines,
        total.comment_lines,
        total.long_comment_lines,
        total.code_lines
    ));
    s.push_str(&sep);
    s
}

#[test]
fn decimal_rendering_matches_std() {
    assert_eq!(usize_to_string(0), "0");
    assert_eq!(usize_to_string(7), "7");
    assert_eq!(usize_to_string(10), "10");
    assert_eq!(usize_to_string(105), "105");
    assert_eq!(usize_to_string(usize::MAX), usize::MAX.to_string());
}

#[test]
fn metric_table_for_five_line_file() {
    let c = FileSizeAnalyzer::count_lines(&lines(&["/**", "doc", "*/", "", "x = 1;"]));
    let rendered = c.print_summary();
    let expected = "+--------------------+-------+\n\
                    | Metric             | Count |\n\
                    +--------------------+-------+\n\
                    | Total lines        |     5 |\n\
                    | White lines        |     1 |\n\
                    | Comment lines      |     0 |\n\
                    | Long comment lines |     3 |\n\
                    | Code lines         |     1 |\n\
                    +--------------------+-------+\n";
    assert_eq!(rendered, expected);
}

#[test]
fn metric_table_with_wide_numbers() {
    let c = Count {
        total_lines: 123456,
        white_lines: 0,
        comment_lines: 0,
        long_comment_lines: 0,
        code_lines: 123456,
    };
    let rendered = c.print_summary();
    assert!(rendered.contains("| Total lines        | 123456 |\n"));
    assert_eq!(rendered, expected_metric_table(&c));
}

#[test]
fn single_summary_names_the_file() {
    let a = analyzer_for("main.circom", &["// top", "x = 1;"]);
    let rendered = a.print_single_summary();
    let expected = format!("File Summary for main.circom:\n{}", expected_metric_table(&a.count));
    assert_eq!(rendered, expected);
}

#[test]
fn singles_concatenate_in_order() {
    let a = analyzer_for("a.circom", &["// top", "x = 1;"]);
    let b = analyzer_for("b.circom", &["/**", "*/"]);
    let expected = format!("{}{}", a.print_single_summary(), b.print_single_summary());
    let mut analysis = Analysis::new();
    analysis.add_analyzer(a);
    analysis.add_analyzer(b);
    assert_eq!(analysis.print_summary_as_singles(), expected);
}

#[test]
fn singles_of_empty_analysis_render_nothing() {
    let analysis = Analysis::new();
    assert_eq!(analysis.print_summary_as_singles(), "");
}

#[test]
fn table_for_two_files() {
    let a = analyzer_for("a.circom", &["/**", "doc", "*/", "", "x = 1;"]);
    let b = analyzer_for("dir/longer_name.circom", &["// one", "two();"]);
    let expected = expected_table(
        &["a.circom", "dir/longer_name.circom"],
        &[a.count, b.count],
    );
    let mut analysis = Analysis::new();
    analysis.set_analyzers(vec![a, b]);
    assert_eq!(analysis.print_summary_as_table(), expected);
}

#[test]
fn table_with_no_files_has_zero_totals() {
    let analysis = Analysis::new();
    let expected = expected_table(&[], &[]);
    let rendered = analysis.print_summary_as_table();
    assert_eq!(rendered, expected);
    assert!(rendered.contains("| TOTAL"));
    assert!(rendered.contains("|            0 |            0 |            0 |            0 |            0 |"));
}
