use circom_analyzer::file_analyzer::FileSizeAnalyzer;
use circom_analyzer::file_analyzer::Line;

#[test]
fn blank_line_outside_block() {
    assert_eq!(
        FileSizeAnalyzer::line_processor("   ", false),
        (Line::WhiteSpace(), false)
    );
}

#[test]
fn block_comment_open_continue_close() {
    assert_eq!(
        FileSizeAnalyzer::line_processor("/** doc", false),
        (Line::LongComment(), true)
    );
    assert_eq!(
        FileSizeAnalyzer::line_processor("more docs", true),
        (Line::LongComment(), true)
    );
    assert_eq!(
        FileSizeAnalyzer::line_processor("*/", true),
        (Line::LongComment(), false)
    );
}

#[test]
fn line_comment() {
    assert_eq!(
        FileSizeAnalyzer::line_processor("// a comment", false),
        (Line::Comment(), false)
    );
}

#[test]
fn code_line() {
    assert_eq!(
        FileSizeAnalyzer::line_processor("signal input a;", false),
        (Line::Code(), false)
    );
}

#[test]
fn classification_is_deterministic() {
    let first = FileSizeAnalyzer::line_processor("template Foo() { // hm", true);
    let second = FileSizeAnalyzer::line_processor("template Foo() { // hm", true);
    assert_eq!(first, second);
}

#[test]
fn closing_marker_wins_over_carried_state() {
    assert_eq!(
        FileSizeAnalyzer::line_processor("*/", false),
        (Line::LongComment(), false)
    );
    assert_eq!(
        FileSizeAnalyzer::line_processor("**/ trailing", true),
        (Line::LongComment(), false)
    );
}

#[test]
fn blank_line_keeps_open_block_state() {
    assert_eq!(
        FileSizeAnalyzer::line_processor("", true),
        (Line::WhiteSpace(), true)
    );
    assert_eq!(
        FileSizeAnalyzer::line_processor("\t \t", true),
        (Line::WhiteSpace(), true)
    );
}

#[test]
fn opener_beats_line_comment_marker() {
    assert_eq!(
        FileSizeAnalyzer::line_processor("/** // not a comment", false),
        (Line::LongComment(), true)
    );
}

#[test]
fn same_line_open_and_close_stays_open() {
    assert_eq!(
        FileSizeAnalyzer::line_processor("/** note */", false),
        (Line::LongComment(), true)
    );
}

#[test]
fn leading_whitespace_is_ignored_for_markers() {
    assert_eq!(
        FileSizeAnalyzer::line_processor("   // indented comment", false),
        (Line::Comment(), false)
    );
    assert_eq!(
        FileSizeAnalyzer::line_processor("\t/** indented opener", false),
        (Line::LongComment(), true)
    );
    assert_eq!(
        FileSizeAnalyzer::line_processor("  */", true),
        (Line::LongComment(), false)
    );
}

#[test]
fn code_inside_open_block_is_block_comment() {
    assert_eq!(
        FileSizeAnalyzer::line_processor("signal input a;", true),
        (Line::LongComment(), true)
    );
    assert_eq!(
        FileSizeAnalyzer::line_processor("// still in block", true),
        (Line::LongComment(), true)
    );
}
