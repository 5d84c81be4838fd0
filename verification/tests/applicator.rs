use tex_indent::indent::{apply_indent, Config};
use tex_indent::logging::{Log, Severity};

fn lines_of(strs: &[&str]) -> Vec<String> {
    strs.iter().map(|s| s.to_string()).collect()
}

fn no_suppression(n: usize) -> Vec<bool> {
    vec![false; n]
}

fn quiet() -> Config {
    Config { verbose: false, trace: false, tab_width: 2 }
}

#[test]
fn itemize_block_indents_its_item() {
    let lines = lines_of(&["\\begin{itemize}", "\\item x", "\\end{itemize}"]);
    let mut logs: Vec<Log> = Vec::new();
    let out = apply_indent(&lines, "test.tex", &quiet(), &mut logs, None, &no_suppression(3));
    assert_eq!(out, "\\begin{itemize}\n  \\item x\n\\end{itemize}\n");
    assert!(logs.is_empty());
}

#[test]
fn unmatched_end_warns_once_and_clamps_to_zero() {
    let lines = lines_of(&["\\end{itemize}"]);
    let mut logs: Vec<Log> = Vec::new();
    let out = apply_indent(&lines, "test.tex", &quiet(), &mut logs, None, &no_suppression(1));
    assert_eq!(out, "\\end{itemize}\n");
    assert_eq!(logs.len(), 1);
    assert_eq!(logs[0].severity, Severity::Warn);
    assert_eq!(logs[0].linum, Some(0));
    assert_eq!(logs[0].line.as_deref(), Some("\\end{itemize}"));
    assert_eq!(logs[0].message, "Indent is negative.");
    assert_eq!(logs[0].filename, "test.tex");
}

#[test]
fn clamped_state_carries_forward() {
    let lines = lines_of(&["\\end{itemize}", "x"]);
    let mut logs: Vec<Log> = Vec::new();
    let out = apply_indent(&lines, "test.tex", &quiet(), &mut logs, None, &no_suppression(2));
    // after clamping the carried depth is zero, so the next line is flush left
    assert_eq!(out, "\\end{itemize}\nx\n");
    assert_eq!(logs.len(), 1);
}

#[test]
fn comment_text_is_invisible_to_nesting() {
    let lines = lines_of(&["{ % }", "x", "}"]);
    let mut logs: Vec<Log> = Vec::new();
    let out = apply_indent(&lines, "test.tex", &quiet(), &mut logs, None, &no_suppression(3));
    // the } inside the comment does not count, so the { opens one level
    assert_eq!(out, "{ % }\n  x\n}\n");
    assert!(logs.is_empty());
}

#[test]
fn suppressed_lines_pass_through_verbatim() {
    let lines = lines_of(&["{", "   keep   me", "}"]);
    let suppress = vec![false, true, false];
    let mut logs: Vec<Log> = Vec::new();
    let out = apply_indent(&lines, "test.tex", &quiet(), &mut logs, None, &suppress);
    assert_eq!(out, "{\n   keep   me\n}\n");
}

#[test]
fn suppressed_lines_do_not_advance_the_depth() {
    let lines = lines_of(&["{", "x", "y"]);
    let suppress = vec![true, false, false];
    let mut logs: Vec<Log> = Vec::new();
    let out = apply_indent(&lines, "test.tex", &quiet(), &mut logs, None, &suppress);
    // the suppressed { never raised the depth
    assert_eq!(out, "{\nx\ny\n");
}

#[test]
fn document_wrapper_gets_no_indent() {
    let lines = lines_of(&["\\begin{document}", "text", "\\end{document}"]);
    let mut logs: Vec<Log> = Vec::new();
    let out = apply_indent(&lines, "test.tex", &quiet(), &mut logs, None, &no_suppression(3));
    assert_eq!(out, "\\begin{document}\ntext\n\\end{document}\n");
}

#[test]
fn nested_environments_accumulate() {
    let lines = lines_of(&[
        "\\begin{itemize}",
        "\\item a",
        "\\begin{itemize}",
        "\\item b",
        "\\end{itemize}",
        "\\end{itemize}",
    ]);
    let mut logs: Vec<Log> = Vec::new();
    let out = apply_indent(&lines, "test.tex", &quiet(), &mut logs, None, &no_suppression(6));
    // an inner list begin sits one level inside the outer list body, its
    // items one further level in
    assert_eq!(
        out,
        "\\begin{itemize}\n  \\item a\n    \\begin{itemize}\n      \\item b\n    \\end{itemize}\n\\end{itemize}\n"
    );
}

#[test]
fn existing_leading_whitespace_is_replaced() {
    let lines = lines_of(&["{", "\t  old indent", "}"]);
    let mut logs: Vec<Log> = Vec::new();
    let out = apply_indent(&lines, "test.tex", &quiet(), &mut logs, None, &no_suppression(3));
    assert_eq!(out, "{\n  old indent\n}\n");
}

#[test]
fn blank_line_is_indented_like_any_other() {
    let lines = lines_of(&["{", "", "}"]);
    let mut logs: Vec<Log> = Vec::new();
    let out = apply_indent(&lines, "test.tex", &quiet(), &mut logs, None, &no_suppression(3));
    assert_eq!(out, "{\n  \n}\n");
}

#[test]
fn whitespace_only_line_is_rewritten_to_its_depth() {
    let lines = lines_of(&["{", "    \t ", "}"]);
    let mut logs: Vec<Log> = Vec::new();
    let out = apply_indent(&lines, "test.tex", &quiet(), &mut logs, None, &no_suppression(3));
    assert_eq!(out, "{\n  \n}\n");
}

#[test]
fn unicode_whitespace_counts_as_leading_whitespace() {
    let lines = lines_of(&["{", "\u{A0}\u{2003}x", "}"]);
    let mut logs: Vec<Log> = Vec::new();
    let out = apply_indent(&lines, "test.tex", &quiet(), &mut logs, None, &no_suppression(3));
    assert_eq!(out, "{\n  x\n}\n");
}

#[test]
fn appending_a_comment_changes_only_that_line_tail() {
    let plain = lines_of(&["(", "abc", ")"]);
    let commented = lines_of(&["(", "abc% )]}}", ")"]);
    let mut logs: Vec<Log> = Vec::new();
    let out_plain =
        apply_indent(&plain, "test.tex", &quiet(), &mut logs, None, &no_suppression(3));
    let mut logs2: Vec<Log> = Vec::new();
    let out_commented =
        apply_indent(&commented, "test.tex", &quiet(), &mut logs2, None, &no_suppression(3));
    assert_eq!(out_plain, "(\n  abc\n)\n");
    assert_eq!(out_commented, "(\n  abc% )]}}\n)\n");
}

#[test]
fn appending_a_comment_to_a_blank_line_changes_only_its_tail() {
    let plain = lines_of(&["(", "", ")"]);
    let commented = lines_of(&["(", "% )]}}", ")"]);
    let mut logs: Vec<Log> = Vec::new();
    let out_plain =
        apply_indent(&plain, "test.tex", &quiet(), &mut logs, None, &no_suppression(3));
    let mut logs2: Vec<Log> = Vec::new();
    let out_commented =
        apply_indent(&commented, "test.tex", &quiet(), &mut logs2, None, &no_suppression(3));
    assert_eq!(out_plain, "(\n  \n)\n");
    assert_eq!(out_commented, "(\n  % )]}}\n)\n");
}

#[test]
fn tab_width_scales_the_spaces() {
    let lines = lines_of(&["{", "x", "}"]);
    let cfg = Config { verbose: false, trace: false, tab_width: 4 };
    let mut logs: Vec<Log> = Vec::new();
    let out = apply_indent(&lines, "test.tex", &cfg, &mut logs, None, &no_suppression(3));
    assert_eq!(out, "{\n    x\n}\n");
}

#[test]
fn verbose_announces_the_pass() {
    let lines = lines_of(&["x"]);
    let cfg = Config { verbose: true, trace: false, tab_width: 2 };
    let mut logs: Vec<Log> = Vec::new();
    apply_indent(&lines, "test.tex", &cfg, &mut logs, Some(3), &no_suppression(1));
    assert_eq!(logs.len(), 1);
    assert_eq!(logs[0].severity, Severity::Info);
    assert_eq!(logs[0].linum, None);
    assert_eq!(logs[0].message, "Indent on pass 3.");
}

#[test]
fn verbose_without_a_pass_reports_pass_zero() {
    let lines = lines_of(&[]);
    let cfg = Config { verbose: true, trace: false, tab_width: 2 };
    let mut logs: Vec<Log> = Vec::new();
    let out = apply_indent(&lines, "test.tex", &cfg, &mut logs, None, &no_suppression(0));
    assert_eq!(out, "");
    assert_eq!(logs.len(), 1);
    assert_eq!(logs[0].message, "Indent on pass 0.");
}

#[test]
fn trace_records_both_depths_before_clamping() {
    let lines = lines_of(&["\\begin{itemize}", "\\end{equation}"]);
    let cfg = Config { verbose: false, trace: true, tab_width: 2 };
    let mut logs: Vec<Log> = Vec::new();
    apply_indent(&lines, "test.tex", &cfg, &mut logs, None, &no_suppression(2));
    assert_eq!(logs.len(), 2);
    assert_eq!(logs[0].severity, Severity::Trace);
    assert_eq!(logs[0].message, "Indent: actual = 2, visual = 0:");
    // the second line subtracts 1 and renders one dedent below depth 2
    assert_eq!(logs[1].message, "Indent: actual = 1, visual = 1:");
}

#[test]
fn trace_message_shows_negative_depths() {
    let lines = lines_of(&["}"]);
    let cfg = Config { verbose: false, trace: true, tab_width: 2 };
    let mut logs: Vec<Log> = Vec::new();
    apply_indent(&lines, "test.tex", &cfg, &mut logs, None, &no_suppression(1));
    assert_eq!(logs.len(), 2);
    assert_eq!(logs[0].severity, Severity::Trace);
    assert_eq!(logs[0].message, "Indent: actual = -1, visual = -1:");
    assert_eq!(logs[1].severity, Severity::Warn);
}

#[test]
fn rerunning_on_own_output_changes_nothing() {
    let lines = lines_of(&[
        "\\begin{document}",
        "\\begin{itemize}",
        "\\item one (two",
        "three)",
        "\\end{itemize}",
        "text % } comment",
        "\\end{document}",
    ]);
    let n = lines.len();
    let mut logs: Vec<Log> = Vec::new();
    let once = apply_indent(&lines, "test.tex", &quiet(), &mut logs, None, &no_suppression(n));
    assert!(logs.is_empty());
    let once_lines: Vec<String> = once.lines().map(|l| l.to_string()).collect();
    assert_eq!(once_lines.len(), n);
    let mut logs2: Vec<Log> = Vec::new();
    let twice =
        apply_indent(&once_lines, "test.tex", &quiet(), &mut logs2, None, &no_suppression(n));
    assert_eq!(twice, once);
}
