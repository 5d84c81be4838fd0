use tex_indent::comments::{find_comment_index, get_comment, remove_comment};

#[test]
fn empty_line_has_no_comment() {
    assert_eq!(find_comment_index(""), None);
}

#[test]
fn plain_line_has_no_comment() {
    assert_eq!(find_comment_index("plain"), None);
}

#[test]
fn marker_at_start_is_a_comment() {
    assert_eq!(find_comment_index("%x"), Some(0));
}

#[test]
fn marker_mid_line_is_a_comment() {
    assert_eq!(find_comment_index("abc%def"), Some(3));
}

#[test]
fn escaped_marker_is_no_comment() {
    assert_eq!(find_comment_index("abc\\%def"), None);
}

#[test]
fn lone_marker_is_a_comment() {
    assert_eq!(find_comment_index("%"), Some(0));
}

#[test]
fn marker_after_space_is_a_comment() {
    assert_eq!(find_comment_index("{ % }"), Some(2));
}

#[test]
fn backslash_space_marker_is_a_comment() {
    // only a backslash directly before the marker escapes it
    assert_eq!(find_comment_index("\\ %x"), Some(2));
}

#[test]
fn double_marker_second_counts_too() {
    assert_eq!(find_comment_index("a%%b"), Some(1));
}

#[test]
fn comment_positions_count_characters_not_bytes() {
    assert_eq!(find_comment_index("é%x"), Some(1));
}

#[test]
fn remove_comment_keeps_prefix() {
    let line = "abc%def";
    let idx = find_comment_index(line);
    assert_eq!(remove_comment(line, idx), "abc");
}

#[test]
fn remove_comment_without_comment_keeps_line() {
    assert_eq!(remove_comment("plain", None), "plain");
}

#[test]
fn remove_comment_splits_multibyte_line_on_char_boundary() {
    let line = "é%x";
    let idx = find_comment_index(line);
    assert_eq!(remove_comment(line, idx), "é");
}

#[test]
fn get_comment_keeps_suffix() {
    let line = "abc%def";
    let idx = find_comment_index(line);
    assert_eq!(get_comment(line, idx), "%def");
}

#[test]
fn get_comment_without_comment_is_empty() {
    assert_eq!(get_comment("plain", None), "");
}
