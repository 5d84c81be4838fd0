use tex_indent::indent::{get_back, get_diff, get_indent, Indent};

#[test]
fn open_brace_raises_depth() {
    assert_eq!(get_diff("{"), 1);
}

#[test]
fn close_brace_lowers_depth() {
    assert_eq!(get_diff("}"), -1);
}

#[test]
fn document_begin_carries_no_indent() {
    assert_eq!(get_diff("\\begin{document}"), 0);
}

#[test]
fn document_end_carries_no_indent() {
    assert_eq!(get_diff("\\end{document}"), 0);
}

#[test]
fn list_begin_counts_double() {
    assert_eq!(get_diff("\\begin{itemize}"), 2);
}

#[test]
fn list_end_counts_double() {
    assert_eq!(get_diff("\\end{itemize}"), -2);
}

#[test]
fn generic_environment_counts_single() {
    // +1 for the begin marker; its braces are balanced
    assert_eq!(get_diff("\\begin{equation}"), 1);
    assert_eq!(get_diff("\\end{equation}"), -1);
}

#[test]
fn delimiters_add_to_environment_diff() {
    assert_eq!(get_diff("\\begin{equation} ("), 2);
}

#[test]
fn all_delimiter_kinds_count() {
    assert_eq!(get_diff("([{"), 3);
    assert_eq!(get_diff(")]}"), -3);
    assert_eq!(get_diff("()"), 0);
}

#[test]
fn transient_close_before_reopen() {
    assert_eq!(get_back("} {"), 1);
}

#[test]
fn plain_line_has_no_dedent() {
    assert_eq!(get_back("plain text"), 0);
}

#[test]
fn document_end_has_no_dedent() {
    assert_eq!(get_back("\\end{document}"), 0);
}

#[test]
fn list_end_dedents_two_levels() {
    assert_eq!(get_back("\\end{itemize}"), 2);
}

#[test]
fn generic_end_dedents_one_level() {
    assert_eq!(get_back("\\end{equation}"), 1);
}

#[test]
fn item_line_dedents_one_level() {
    assert_eq!(get_back("\\item x"), 1);
}

#[test]
fn indent_new_starts_at_zero() {
    let indent = Indent::new();
    assert_eq!(indent.actual, 0);
    assert_eq!(indent.visual, 0);
}

#[test]
fn get_indent_advances_actual_and_renders_from_incoming_depth() {
    let prev = Indent { actual: 3, visual: 0 };
    let next = get_indent("}", prev);
    assert_eq!(next.actual, 2);
    assert_eq!(next.visual, 2);
}

#[test]
fn get_indent_may_go_negative_before_clamping() {
    let prev = Indent { actual: 0, visual: 0 };
    let next = get_indent("\\end{itemize}", prev);
    assert_eq!(next.actual, -2);
    assert_eq!(next.visual, -2);
}
