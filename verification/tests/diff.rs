//! Tests of the strategy workbench helpers: the line diff and the
//! bundled templates.

use fractal::views::strategy_workbench::{compute_diff, diff_lines, strategy_templates, DiffLine};

fn kinds(d: &[DiffLine]) -> String {
    d.iter().map(|l| l.kind.as_str()).collect()
}

fn side(d: &[DiffLine], drop: &str) -> Vec<String> {
    d.iter().filter(|l| l.kind != drop).map(|l| l.line.clone()).collect()
}

#[test]
fn diff_of_equal_texts_keeps_every_line() {
    let d = compute_diff("a\nb\nc", "a\nb\nc");
    assert_eq!(kinds(&d), "   ");
    assert_eq!(side(&d, "+"), vec!["a", "b", "c"]);
}

#[test]
fn diff_of_one_changed_line() {
    let d = compute_diff("a\nb\nc", "a\nx\nc");
    assert_eq!(kinds(&d), " -+ ");
    assert_eq!(d[1].line, "b");
    assert_eq!(d[2].line, "x");
}

#[test]
fn diff_restores_both_sides() {
    let original = "fn main() {\n    draw();\n}\n";
    let edited = "fn main() {\n    let n = 3;\n    draw();\n}\n";
    let d = compute_diff(original, edited);
    let orig_lines: Vec<String> = original.lines().map(|l| l.to_string()).collect();
    let edit_lines: Vec<String> = edited.lines().map(|l| l.to_string()).collect();
    assert_eq!(side(&d, "+"), orig_lines);
    assert_eq!(side(&d, "-"), edit_lines);
    // one line was inserted, so the script holds one more line than the
    // original
    assert_eq!(d.len(), orig_lines.len() + 1);
}

#[test]
fn diff_handles_line_terminators() {
    // a trailing newline adds no line, and "\r\n" folds into "\n"
    let d = compute_diff("a\r\nb\n", "a\nb");
    assert_eq!(kinds(&d), "  ");
    assert_eq!(d[0].line, "a");
    assert_eq!(d[1].line, "b");
}

#[test]
fn diff_prefers_removal_on_ties() {
    // either order of the '-' and '+' would restore both texts; the
    // walk puts the removal first
    let d = compute_diff("a\nb", "a\nc");
    assert_eq!(kinds(&d), " -+");
    assert_eq!(d[1].line, "b");
    assert_eq!(d[2].line, "c");
}

#[test]
fn diff_of_disjoint_texts_removes_and_adds_everything() {
    let d = compute_diff("a\nb", "c");
    assert_eq!(kinds(&d), "--+");
}

#[test]
fn diff_of_empty_texts() {
    assert!(compute_diff("", "").is_empty());
    let d = compute_diff("", "a");
    assert_eq!(kinds(&d), "+");
    let d = compute_diff("a", "");
    assert_eq!(kinds(&d), "-");
}

#[test]
fn diff_lines_on_vectors() {
    let orig = vec!["x".to_string(), "y".to_string()];
    let edit = vec!["y".to_string(), "z".to_string()];
    let d = diff_lines(&orig, &edit);
    assert_eq!(kinds(&d), "- +");
}

#[test]
fn templates_are_bundled() {
    let templates = strategy_templates();
    assert_eq!(templates.len(), 3);
    assert_eq!(templates[0].0, "Momentum Skeleton");
    assert_eq!(templates[1].0, "Mean Reversion Skeleton");
    assert_eq!(templates[2].0, "Pair Trading Skeleton");
    for (_name, code) in templates {
        assert!(code.contains("BaseStrategy"));
    }
}
