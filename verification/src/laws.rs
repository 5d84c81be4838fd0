//! The engine's stability law: rendering a file that the engine has already
//! rendered changes nothing.  The argument rests on leading whitespace being
//! invisible to the nesting analysis: a line's diff, dedent and comment
//! position (relative to its trimmed body) do not change when its leading
//! whitespace does.

use crate::indent::{
    actual_at, back_of, diff_of, line_back, line_diff, max0, out_line, rendered_line_of,
};
use crate::text::{
    all_blank, close_count, comment_index_from, comment_index_of, contains_seq, is_blank,
    is_comment_start, lemma_comment_index_skip, lemma_trim_at, matches_at, max_close, net_close,
    open_count, spaces, trim_start_spec, visible_part,
};
use vstd::prelude::*;

verus! {

/// The rendered form of every line of the file, in order.
pub open spec fn out_lines(lines: Seq<Seq<char>>, sup: Seq<bool>, tab: int) -> Seq<Seq<char>> {
    Seq::new(lines.len(), |i: int| out_line(lines, sup, i, tab))
}

/// No line of the run drives either depth negative, so no clamping warning
/// is ever emitted.
pub open spec fn no_negative_depths(lines: Seq<Seq<char>>, sup: Seq<bool>) -> bool {
    forall|i: int|
        0 <= i < lines.len() && !sup[i] ==> {
            let a = actual_at(lines, sup, i);
            a + line_diff(#[trigger] lines[i]) >= 0 && a - line_back(lines[i]) >= 0
        }
}

proof fn lemma_concat_counts(a: Seq<char>, b: Seq<char>)
    ensures
        open_count(a + b) == open_count(a) + open_count(b),
        close_count(a + b) == close_count(a) + close_count(b),
    decreases b.len(),
{
    if b.len() == 0 {
        assert(a + b =~= a);
    } else {
        lemma_concat_counts(a, b.drop_last());
        assert((a + b).drop_last() =~= a + b.drop_last());
        assert((a + b).last() == b.last());
    }
}

proof fn lemma_blank_counts(b: Seq<char>)
    requires
        all_blank(b),
    ensures
        open_count(b) == 0,
        close_count(b) == 0,
        max_close(b) == 0,
    decreases b.len(),
{
    if b.len() > 0 {
        assert(all_blank(b.drop_last()));
        lemma_blank_counts(b.drop_last());
        assert(is_blank(b.last()));
    }
}

proof fn lemma_max_close_blank_prefix(b: Seq<char>, t: Seq<char>)
    requires
        all_blank(b),
    ensures
        max_close(b + t) == max_close(t),
        net_close(b + t) == net_close(t),
    decreases t.len(),
{
    lemma_concat_counts(b, t);
    lemma_blank_counts(b);
    if t.len() == 0 {
        assert(b + t =~= b);
    } else {
        lemma_max_close_blank_prefix(b, t.drop_last());
        assert((b + t).drop_last() =~= b + t.drop_last());
    }
}

proof fn lemma_contains_blank_prefix(b: Seq<char>, t: Seq<char>, p: Seq<char>)
    requires
        all_blank(b),
        p.len() > 0,
        !is_blank(p[0]),
    ensures
        contains_seq(b + t, p) == contains_seq(t, p),
{
    let s = b + t;
    if contains_seq(t, p) {
        let i = choose|i: int| matches_at(t, p, i);
        assert(s.subrange(b.len() + i, b.len() + i + p.len()) =~= p);
        assert(matches_at(s, p, b.len() + i));
    }
    if contains_seq(s, p) {
        let i = choose|i: int| matches_at(s, p, i);
        assert(s.subrange(i, i + p.len())[0] == s[i]);
        assert(s[i] == p[0]);
        if i < b.len() {
            assert(is_blank(b[i]));
            assert(false);
        }
        assert(t.subrange(i - b.len(), i - b.len() + p.len()) =~= p);
        assert(matches_at(t, p, i - b.len()));
    }
}

proof fn lemma_pattern_heads()
    ensures
        "\\begin{document}"@.len() > 0 && "\\begin{document}"@[0] == '\\',
        "\\end{document}"@.len() > 0 && "\\end{document}"@[0] == '\\',
        "\\begin{"@.len() > 0 && "\\begin{"@[0] == '\\',
        "\\end{"@.len() > 0 && "\\end{"@[0] == '\\',
        "\\begin{itemize}"@.len() > 0 && "\\begin{itemize}"@[0] == '\\',
        "\\begin{enumerate}"@.len() > 0 && "\\begin{enumerate}"@[0] == '\\',
        "\\begin{description}"@.len() > 0 && "\\begin{description}"@[0] == '\\',
        "\\begin{inlineroman}"@.len() > 0 && "\\begin{inlineroman}"@[0] == '\\',
        "\\begin{inventory}"@.len() > 0 && "\\begin{inventory}"@[0] == '\\',
        "\\end{itemize}"@.len() > 0 && "\\end{itemize}"@[0] == '\\',
        "\\end{enumerate}"@.len() > 0 && "\\end{enumerate}"@[0] == '\\',
        "\\end{description}"@.len() > 0 && "\\end{description}"@[0] == '\\',
        "\\end{inlineroman}"@.len() > 0 && "\\end{inlineroman}"@[0] == '\\',
        "\\end{inventory}"@.len() > 0 && "\\end{inventory}"@[0] == '\\',
{
    reveal_strlit("\\begin{document}");
    reveal_strlit("\\end{document}");
    reveal_strlit("\\begin{");
    reveal_strlit("\\end{");
    reveal_strlit("\\begin{itemize}");
    reveal_strlit("\\begin{enumerate}");
    reveal_strlit("\\begin{description}");
    reveal_strlit("\\begin{inlineroman}");
    reveal_strlit("\\begin{inventory}");
    reveal_strlit("\\end{itemize}");
    reveal_strlit("\\end{enumerate}");
    reveal_strlit("\\end{description}");
    reveal_strlit("\\end{inlineroman}");
    reveal_strlit("\\end{inventory}");
}

proof fn lemma_analysis_of_blank_prefix(b: Seq<char>, v: Seq<char>)
    requires
        all_blank(b),
    ensures
        diff_of(b + v) == diff_of(v),
        back_of(b + v) == back_of(v),
{
    lemma_pattern_heads();
    lemma_contains_blank_prefix(b, v, "\\begin{document}"@);
    lemma_contains_blank_prefix(b, v, "\\end{document}"@);
    lemma_contains_blank_prefix(b, v, "\\begin{"@);
    lemma_contains_blank_prefix(b, v, "\\end{"@);
    lemma_contains_blank_prefix(b, v, "\\begin{itemize}"@);
    lemma_contains_blank_prefix(b, v, "\\begin{enumerate}"@);
    lemma_contains_blank_prefix(b, v, "\\begin{description}"@);
    lemma_contains_blank_prefix(b, v, "\\begin{inlineroman}"@);
    lemma_contains_blank_prefix(b, v, "\\begin{inventory}"@);
    lemma_contains_blank_prefix(b, v, "\\end{itemize}"@);
    lemma_contains_blank_prefix(b, v, "\\end{enumerate}"@);
    lemma_contains_blank_prefix(b, v, "\\end{description}"@);
    lemma_contains_blank_prefix(b, v, "\\end{inlineroman}"@);
    lemma_contains_blank_prefix(b, v, "\\end{inventory}"@);
    reveal_strlit("\\item");
    lemma_contains_blank_prefix(b, v, "\\item"@);
    lemma_concat_counts(b, v);
    lemma_blank_counts(b);
    lemma_max_close_blank_prefix(b, v);
}

proof fn lemma_comment_shift(b: Seq<char>, t: Seq<char>, j: int)
    requires
        all_blank(b),
        0 <= j <= t.len(),
    ensures
        (match comment_index_from(t, j) {
            Some(k) => comment_index_from(b + t, b.len() + j) == Some(b.len() + k),
            None => comment_index_from(b + t, b.len() + j) is None,
        }),
    decreases t.len() - j,
{
    let s = b + t;
    if j < t.len() {
        assert(s[b.len() + j] == t[j]);
        if j > 0 {
            assert(s[b.len() + j - 1] == t[j - 1]);
        } else if b.len() > 0 {
            assert(is_blank(s[b.len() - 1]));
        }
        assert(is_comment_start(s, b.len() + j) == is_comment_start(t, j));
        if !is_comment_start(t, j) {
            lemma_comment_shift(b, t, j + 1);
        }
    }
}

proof fn lemma_visible_blank_prefix(b: Seq<char>, t: Seq<char>)
    requires
        all_blank(b),
    ensures
        visible_part(b + t) == b + visible_part(t),
{
    let s = b + t;
    assert forall|i: int| 0 <= i < b.len() implies !is_comment_start(s, i) by {
        assert(is_blank(b[i]));
        assert(s[i] == b[i]);
    }
    lemma_comment_index_skip(s, b.len() as int);
    lemma_comment_shift(b, t, 0);
    crate::text::lemma_comment_index_range(t, 0);
    match comment_index_of(t) {
        Some(k) => {
            assert(s.subrange(0, b.len() + k) =~= b + t.subrange(0, k));
        },
        None => {
            assert(s =~= b + t);
        },
    }
}

/// Leading whitespace is invisible to the nesting analysis: prepending blank
/// characters to a line changes neither its diff nor its dedent.
pub proof fn lemma_line_analysis_blank_prefix(b: Seq<char>, t: Seq<char>)
    requires
        all_blank(b),
    ensures
        line_diff(b + t) == line_diff(t),
        line_back(b + t) == line_back(t),
{
    lemma_visible_blank_prefix(b, t);
    lemma_analysis_of_blank_prefix(b, visible_part(t));
}

proof fn lemma_trim_decompose(s: Seq<char>)
    ensures
        trim_start_spec(s).len() <= s.len(),
        all_blank(s.subrange(0, s.len() - trim_start_spec(s).len())),
        s == s.subrange(0, s.len() - trim_start_spec(s).len()) + trim_start_spec(s),
        trim_start_spec(s).len() > 0 ==> !is_blank(trim_start_spec(s)[0]),
    decreases s.len(),
{
    if s.len() > 0 && is_blank(s[0]) {
        let tail = s.subrange(1, s.len() as int);
        lemma_trim_decompose(tail);
        let pre = s.subrange(0, s.len() - trim_start_spec(s).len());
        assert(trim_start_spec(s) == trim_start_spec(tail));
        assert(pre =~= seq![s[0]] + tail.subrange(0, tail.len() - trim_start_spec(tail).len()));
        assert(all_blank(pre));
        assert(s =~= seq![s[0]] + tail);
        assert(seq![s[0]] + tail =~= pre + trim_start_spec(s));
    } else {
        assert(s =~= s.subrange(0, 0) + s);
    }
}

/// A line's analysis only depends on its trimmed body.
pub proof fn lemma_line_analysis_trim(s: Seq<char>)
    ensures
        line_diff(s) == line_diff(trim_start_spec(s)),
        line_back(s) == line_back(trim_start_spec(s)),
{
    lemma_trim_decompose(s);
    let b = s.subrange(0, s.len() - trim_start_spec(s).len());
    lemma_line_analysis_blank_prefix(b, trim_start_spec(s));
}

proof fn lemma_spaces_blank(n: int)
    ensures
        all_blank(spaces(n)),
{
}

/// A rendered line has the same trimmed body, diff and dedent as the line it
/// came from.
pub proof fn lemma_rendered_analysis(s: Seq<char>, a: int, tab: int)
    ensures
        trim_start_spec(rendered_line_of(s, a, tab)) == trim_start_spec(s),
        line_diff(rendered_line_of(s, a, tab)) == line_diff(s),
        line_back(rendered_line_of(s, a, tab)) == line_back(s),
{
    lemma_trim_decompose(s);
    let t = trim_start_spec(s);
    let r = rendered_line_of(s, a, tab);
    lemma_line_analysis_trim(s);
    let m = max0(a - line_back(s)) * tab;
    lemma_spaces_blank(m);
    assert(r == spaces(m) + t);
    lemma_trim_at(r, spaces(m).len() as int);
    assert(r.subrange(spaces(m).len() as int, r.len() as int) =~= t);
    lemma_line_analysis_blank_prefix(spaces(m), t);
}

proof fn lemma_states_equal(lines: Seq<Seq<char>>, sup: Seq<bool>, tab: int, i: int)
    requires
        sup.len() == lines.len(),
        0 <= i <= lines.len(),
    ensures
        actual_at(out_lines(lines, sup, tab), sup, i) == actual_at(lines, sup, i),
    decreases i,
{
    if i > 0 {
        lemma_states_equal(lines, sup, tab, i - 1);
        if !sup[i - 1] {
            lemma_rendered_analysis(lines[i - 1], actual_at(lines, sup, i - 1), tab);
        }
    }
}

/// Re-running the engine on its own output changes nothing: with the same
/// suppression verdicts, every line of the second rendering equals the first,
/// for any input whose run raises no negative-depth warning.
pub proof fn lemma_indent_idempotent(lines: Seq<Seq<char>>, sup: Seq<bool>, tab: int)
    requires
        sup.len() == lines.len(),
        tab >= 1,
        no_negative_depths(lines, sup),
    ensures
        out_lines(out_lines(lines, sup, tab), sup, tab) == out_lines(lines, sup, tab),
{
    let once = out_lines(lines, sup, tab);
    let twice = out_lines(once, sup, tab);
    assert forall|i: int| 0 <= i < lines.len() implies twice[i] == once[i] by {
        lemma_states_equal(lines, sup, tab, i);
        if !sup[i] {
            let a = actual_at(lines, sup, i);
            lemma_rendered_analysis(lines[i], a, tab);
            let t = trim_start_spec(lines[i]);
            assert(once[i] == rendered_line_of(lines[i], a, tab));
            assert(trim_start_spec(once[i]) == t);
            assert(line_back(once[i]) == line_back(lines[i]));
            assert(twice[i] == rendered_line_of(once[i], a, tab));
        }
    }
    assert(twice =~= once);
}

} // verus!
