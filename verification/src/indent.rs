//! Indent state machine and applicator.
//!
//! Per line, `get_diff` gives the net nesting change the line contributes to
//! the carried-forward depth, and `get_back` gives the transient dedent that
//! pulls the line's own rendering leftward.  `apply_indent` folds these over
//! a file, clamping negative depths to zero with a warning, and rewrites each
//! non-suppressed line's leading whitespace.

use crate::comments::{find_comment_index, remove_comment};
use crate::logging::{
    dec_int, dec_nat, log_models, push_dec_i64, push_dec_usize, record_log, Log, LogModel,
    Severity,
};
use crate::text::{
    close_count, contains_seq, contains_str, first_non_blank, max_close, net_close, open_count,
    spaces, trim_start_spec, visible_part,
};
use vstd::prelude::*;

verus! {

/// Longest line the engine accepts, in characters.
pub const MAX_LINE_LEN: usize = 0x1000_0000;

/// Most lines the engine accepts in one file.
pub const MAX_LINES: usize = 0x1000_0000;

/// Largest accepted tab width.
pub const MAX_TAB: usize = 64;

/// The two running depths of the engine.  `actual` is the cumulative nesting
/// depth carried forward across lines; `visual` is the depth used to render
/// the current line, the incoming `actual` minus the line's transient dedent.
#[derive(Clone, Copy, Debug, PartialEq, Eq, Structural)]
pub struct Indent {
    pub actual: i64,
    pub visual: i64,
}

impl Indent {
    /// The state at the start of a file: both depths zero.
    pub fn new() -> (r: Self)
        ensures
            r.actual == 0,
            r.visual == 0,
    {
        Indent { actual: 0, visual: 0 }
    }
}

/// 1 for a true condition, 0 for a false one.
pub open spec fn b2i(b: bool) -> int {
    if b {
        1
    } else {
        0
    }
}

/// How many of the recognised list environments begin on this line.
pub open spec fn list_begin_count(s: Seq<char>) -> int {
    b2i(contains_seq(s, "\\begin{itemize}"@)) + b2i(contains_seq(s, "\\begin{enumerate}"@))
        + b2i(contains_seq(s, "\\begin{description}"@)) + b2i(
        contains_seq(s, "\\begin{inlineroman}"@),
    ) + b2i(contains_seq(s, "\\begin{inventory}"@))
}

/// How many of the recognised list environments end on this line.
pub open spec fn list_end_count(s: Seq<char>) -> int {
    b2i(contains_seq(s, "\\end{itemize}"@)) + b2i(contains_seq(s, "\\end{enumerate}"@)) + b2i(
        contains_seq(s, "\\end{description}"@),
    ) + b2i(contains_seq(s, "\\end{inlineroman}"@)) + b2i(contains_seq(s, "\\end{inventory}"@))
}

/// The line ends at least one recognised list environment.
pub open spec fn has_list_end(s: Seq<char>) -> bool {
    list_end_count(s) > 0
}

/// Nesting change from environment markers alone: +1 for a begin marker and
/// +1 more for each recognised list begin, -1 for an end marker and -1 more
/// for each recognised list end.
pub open spec fn env_diff(s: Seq<char>) -> int {
    if contains_seq(s, "\\begin{"@) {
        1 + list_begin_count(s)
    } else if contains_seq(s, "\\end{"@) {
        -1 - list_end_count(s)
    } else {
        0
    }
}

/// Net nesting change of a comment-stripped line: zero for the document
/// wrapper, otherwise the environment contribution plus opening minus closing
/// delimiters.
pub open spec fn diff_of(s: Seq<char>) -> int {
    if contains_seq(s, "\\begin{document}"@) || contains_seq(s, "\\end{document}"@) {
        0
    } else {
        env_diff(s) + open_count(s) - close_count(s)
    }
}

/// Transient dedent of a comment-stripped line: zero for the document end; a
/// recognised list end dedents two whole levels; otherwise how far the line's
/// delimiters close before reopening, one more for a generic environment end,
/// and one more for an item marker.
pub open spec fn back_of(s: Seq<char>) -> int {
    if contains_seq(s, "\\end{document}"@) {
        0
    } else if contains_seq(s, "\\end{"@) {
        if has_list_end(s) {
            2
        } else {
            max_close(s) + 1 + b2i(contains_seq(s, "\\item"@))
        }
    } else {
        max_close(s) + b2i(contains_seq(s, "\\item"@))
    }
}

/// Net nesting change of a raw line: its comment is stripped first.
pub open spec fn line_diff(s: Seq<char>) -> int {
    diff_of(visible_part(s))
}

/// Transient dedent of a raw line: its comment is stripped first.
pub open spec fn line_back(s: Seq<char>) -> int {
    back_of(visible_part(s))
}

/// Net nesting change contributed by this comment-stripped line.
pub fn get_diff(line: &str) -> (r: i64)
    requires
        line@.len() <= MAX_LINE_LEN,
    ensures
        r == diff_of(line@),
{
    if contains_str(line, "\\begin{document}") || contains_str(line, "\\end{document}") {
        return 0;
    }
    let mut diff: i64 = 0;
    if contains_str(line, "\\begin{") {
        diff = 1;
        if contains_str(line, "\\begin{itemize}") {
            diff = diff + 1;
        }
        if contains_str(line, "\\begin{enumerate}") {
            diff = diff + 1;
        }
        if contains_str(line, "\\begin{description}") {
            diff = diff + 1;
        }
        if contains_str(line, "\\begin{inlineroman}") {
            diff = diff + 1;
        }
        if contains_str(line, "\\begin{inventory}") {
            diff = diff + 1;
        }
    } else if contains_str(line, "\\end{") {
        diff = -1;
        if contains_str(line, "\\end{itemize}") {
            diff = diff - 1;
        }
        if contains_str(line, "\\end{enumerate}") {
            diff = diff - 1;
        }
        if contains_str(line, "\\end{description}") {
            diff = diff - 1;
        }
        if contains_str(line, "\\end{inlineroman}") {
            diff = diff - 1;
        }
        if contains_str(line, "\\end{inventory}") {
            diff = diff - 1;
        }
    }
    let n = line.unicode_len();
    let mut j: usize = 0;
    let mut net: i64 = 0;
    while j < n
        invariant
            j <= n,
            -(j as int) <= net <= j as int,
            net == open_count(line@.subrange(0, j as int)) - close_count(
                line@.subrange(0, j as int),
            ),
        decreases n - j,
    {
        let c = line.get_char(j);
        proof {
            assert(line@.subrange(0, j + 1).drop_last() =~= line@.subrange(0, j as int));
            assert(line@.subrange(0, j + 1).last() == line@[j as int]);
        }
        if c == '(' || c == '[' || c == '{' {
            net = net + 1;
        } else if c == ')' || c == ']' || c == '}' {
            net = net - 1;
        }
        j = j + 1;
    }
    proof {
        assert(line@.subrange(0, n as int) =~= line@);
    }
    diff + net
}

/// Transient dedent of this comment-stripped line.
pub fn get_back(line: &str) -> (r: i64)
    requires
        line@.len() <= MAX_LINE_LEN,
    ensures
        r == back_of(line@),
{
    if contains_str(line, "\\end{document}") {
        return 0;
    }
    let n = line.unicode_len();
    let mut j: usize = 0;
    let mut cumul: i64 = 0;
    let mut back: i64 = 0;
    while j < n
        invariant
            j <= n,
            -(j as int) <= cumul <= j as int,
            0 <= back <= j as int,
            cumul == net_close(line@.subrange(0, j as int)),
            back == max_close(line@.subrange(0, j as int)),
        decreases n - j,
    {
        let c = line.get_char(j);
        proof {
            assert(line@.subrange(0, j + 1).drop_last() =~= line@.subrange(0, j as int));
            assert(line@.subrange(0, j + 1).last() == line@[j as int]);
        }
        if c == '(' || c == '[' || c == '{' {
            cumul = cumul - 1;
        } else if c == ')' || c == ']' || c == '}' {
            cumul = cumul + 1;
        }
        if cumul > back {
            back = cumul;
        }
        j = j + 1;
    }
    proof {
        assert(line@.subrange(0, n as int) =~= line@);
    }
    if contains_str(line, "\\end{") {
        if contains_str(line, "\\end{itemize}") || contains_str(line, "\\end{enumerate}")
            || contains_str(line, "\\end{description}") || contains_str(line, "\\end{inlineroman}")
            || contains_str(line, "\\end{inventory}") {
            return 2;
        }
        back = back + 1;
    }
    if contains_str(line, "\\item") {
        back = back + 1;
    }
    back
}

/// Advance the state over one comment-stripped line: the new carried depth is
/// the old one plus the line's diff; the rendering depth is the incoming
/// carried depth minus the line's dedent.  Neither is clamped here.
pub fn get_indent(line: &str, prev_indent: Indent) -> (r: Indent)
    requires
        line@.len() <= MAX_LINE_LEN,
        -0x4000_0000_0000_0000 <= prev_indent.actual <= 0x4000_0000_0000_0000,
    ensures
        r.actual == prev_indent.actual + diff_of(line@),
        r.visual == prev_indent.actual - back_of(line@),
{
    let diff = get_diff(line);
    let back = get_back(line);
    proof {
        lemma_diff_back_bounds(line@);
    }
    let actual = prev_indent.actual + diff;
    let visual = prev_indent.actual - back;
    Indent { actual, visual }
}

/// Engine configuration: diagnostic verbosity, per-line depth tracing, and
/// the number of spaces per indentation level.
#[derive(Clone, Copy, Debug, PartialEq, Eq, Structural)]
pub struct Config {
    pub verbose: bool,
    pub trace: bool,
    pub tab_width: usize,
}

impl Config {
    /// The default configuration: quiet, no tracing, two spaces per level.
    pub fn new() -> (r: Self)
        ensures
            !r.verbose,
            !r.trace,
            r.tab_width == 2,
    {
        Config { verbose: false, trace: false, tab_width: 2 }
    }
}

/// The nonnegative part of `n`: depth clamping.
pub open spec fn max0(n: int) -> int {
    if n < 0 {
        0
    } else {
        n
    }
}

/// The character sequences of a sequence of lines.
pub open spec fn views_of(ls: Seq<String>) -> Seq<Seq<char>> {
    ls.map_values(|l: String| l@)
}

/// Carried depth before line `i`: zero at the start of the file; a
/// suppressed line leaves it unchanged; any other line adds its diff, the
/// result clamped at zero.
pub open spec fn actual_at(lines: Seq<Seq<char>>, sup: Seq<bool>, i: int) -> int
    decreases i,
{
    if i <= 0 {
        0
    } else {
        let a = actual_at(lines, sup, i - 1);
        if sup[i - 1] {
            a
        } else {
            max0(a + line_diff(lines[i - 1]))
        }
    }
}

/// A non-suppressed line's rendering: its leading whitespace is replaced by
/// exactly `visual x tab` spaces, where `visual` is the incoming carried
/// depth minus the line's dedent, clamped at zero.
pub open spec fn rendered_line_of(s: Seq<char>, a: int, tab: int) -> Seq<char> {
    spaces(max0(a - line_back(s)) * tab) + trim_start_spec(s)
}

/// Line `i` of the output: unchanged if suppressed, rendered otherwise.
pub open spec fn out_line(lines: Seq<Seq<char>>, sup: Seq<bool>, i: int, tab: int) -> Seq<char> {
    if sup[i] {
        lines[i]
    } else {
        rendered_line_of(lines[i], actual_at(lines, sup, i), tab)
    }
}

/// The output from line `i` on: each output line followed by a terminator.
pub open spec fn flat_from(lines: Seq<Seq<char>>, sup: Seq<bool>, tab: int, i: int) -> Seq<char>
    decreases lines.len() - i,
{
    if i < 0 || i >= lines.len() {
        Seq::empty()
    } else {
        out_line(lines, sup, i, tab) + seq!['\n'] + flat_from(lines, sup, tab, i + 1)
    }
}

/// The whole output for a file, starting from depth zero.
pub open spec fn engine_output(lines: Seq<Seq<char>>, sup: Seq<bool>, tab: int) -> Seq<char> {
    flat_from(lines, sup, tab, 0)
}

/// Message of a trace record: the line's two freshly computed depths, before
/// any clamping.
pub open spec fn trace_msg(a: int, v: int) -> Seq<char> {
    "Indent: actual = "@ + dec_int(a) + ", visual = "@ + dec_int(v) + ":"@
}

/// Message of the record announcing a pass over a file.
pub open spec fn pass_msg(pass: Option<usize>) -> Seq<char> {
    let p: usize = match pass {
        Some(p) => p,
        None => 0,
    };
    "Indent on pass "@ + dec_nat(p as nat) + "."@
}

/// The warning recorded when a line's depth goes negative.
pub open spec fn warn_model(
    filename: Seq<char>,
    pass: Option<usize>,
    i: int,
    l: Seq<char>,
) -> LogModel {
    LogModel {
        severity: Severity::Warn,
        pass,
        filename,
        linum: Some(i),
        line: Some(l),
        message: "Indent is negative."@,
    }
}

/// The trace record for one line's computed depths.
pub open spec fn trace_model(
    filename: Seq<char>,
    pass: Option<usize>,
    i: int,
    l: Seq<char>,
    a: int,
    v: int,
) -> LogModel {
    LogModel {
        severity: Severity::Trace,
        pass,
        filename,
        linum: Some(i),
        line: Some(l),
        message: trace_msg(a, v),
    }
}

/// The records appended while processing line `i`: a trace record when
/// tracing is on, then a warning when either fresh depth is negative; none
/// for a suppressed line.
pub open spec fn line_logs(
    lines: Seq<Seq<char>>,
    sup: Seq<bool>,
    i: int,
    filename: Seq<char>,
    pass: Option<usize>,
    trace: bool,
) -> Seq<LogModel> {
    if sup[i] {
        Seq::empty()
    } else {
        let a = actual_at(lines, sup, i);
        let na = a + line_diff(lines[i]);
        let vis = a - line_back(lines[i]);
        (if trace {
            seq![trace_model(filename, pass, i, lines[i], na, vis)]
        } else {
            Seq::empty()
        }) + (if na < 0 || vis < 0 {
            seq![warn_model(filename, pass, i, lines[i])]
        } else {
            Seq::empty()
        })
    }
}

/// The records appended from line `i` to the end of the file.
pub open spec fn logs_from(
    lines: Seq<Seq<char>>,
    sup: Seq<bool>,
    i: int,
    filename: Seq<char>,
    pass: Option<usize>,
    trace: bool,
) -> Seq<LogModel>
    decreases lines.len() - i,
{
    if i < 0 || i >= lines.len() {
        Seq::empty()
    } else {
        line_logs(lines, sup, i, filename, pass, trace) + logs_from(
            lines,
            sup,
            i + 1,
            filename,
            pass,
            trace,
        )
    }
}

/// The record appended before the per-line loop: an announcement of the pass
/// when the configuration is verbose.
pub open spec fn start_logs(filename: Seq<char>, pass: Option<usize>, verbose: bool) -> Seq<
    LogModel,
> {
    if verbose {
        seq![
            LogModel {
                severity: Severity::Info,
                pass,
                filename,
                linum: None,
                line: None,
                message: pass_msg(pass),
            },
        ]
    } else {
        Seq::empty()
    }
}

/// Counting delimiters never exceeds the line's length, so a line's diff and
/// dedent are bounded by its length plus the environment contribution.
pub proof fn lemma_count_bounds(s: Seq<char>)
    ensures
        0 <= open_count(s) <= s.len(),
        0 <= close_count(s) <= s.len(),
        0 <= max_close(s) <= s.len(),
    decreases s.len(),
{
    if s.len() > 0 {
        lemma_count_bounds(s.drop_last());
    }
}

/// Bounds of a line's diff and dedent in terms of its length.
pub proof fn lemma_diff_back_bounds(s: Seq<char>)
    ensures
        -(s.len() + 6) <= diff_of(s) <= s.len() + 6,
        0 <= back_of(s) <= s.len() + 2,
{
    lemma_count_bounds(s);
}

/// Bounds of a raw line's diff and dedent: its visible part is a prefix.
pub proof fn lemma_line_bounds(s: Seq<char>)
    ensures
        -(s.len() + 6) <= line_diff(s) <= s.len() + 6,
        0 <= line_back(s) <= s.len() + 2,
{
    crate::text::lemma_visible_part_prefix(s);
    lemma_diff_back_bounds(visible_part(s));
}

fn trace_message(a: i64, v: i64) -> (r: String)
    requires
        a > i64::MIN,
        v > i64::MIN,
    ensures
        r@ == trace_msg(a as int, v as int),
{
    let mut s = String::new();
    s.append("Indent: actual = ");
    push_dec_i64(&mut s, a);
    s.append(", visual = ");
    push_dec_i64(&mut s, v);
    s.append(":");
    proof {
        assert(s@ =~= trace_msg(a as int, v as int));
    }
    s
}

fn pass_message(pass: Option<usize>) -> (r: String)
    ensures
        r@ == pass_msg(pass),
{
    let mut s = String::new();
    s.append("Indent on pass ");
    let p = match pass {
        Some(p) => p,
        None => 0,
    };
    push_dec_usize(&mut s, p);
    s.append(".");
    proof {
        assert(s@ =~= pass_msg(pass));
    }
    s
}

fn push_spaces(out: &mut String, count: i64, tab: usize)
    requires
        0 <= count,
        1 <= tab,
    ensures
        final(out)@ == old(out)@ + spaces(count * (tab as int)),
{
    proof {
        reveal_strlit(" ");
        assert(" "@ =~= seq![' ']);
    }
    let mut p: i64 = 0;
    while p < count
        invariant
            0 <= p <= count,
            out@ == old(out)@ + spaces(p * (tab as int)),
        decreases count - p,
    {
        let mut q: usize = 0;
        while q < tab
            invariant
                0 <= q <= tab,
                out@ == old(out)@ + spaces(p * (tab as int) + q),
            decreases tab - q,
        {
            out.append(" ");
            proof {
                assert(spaces(p * (tab as int) + q + 1) =~= spaces(p * (tab as int) + q)
                    + seq![' ']);
                assert(out@ =~= old(out)@ + spaces(p * (tab as int) + q + 1));
            }
            q = q + 1;
        }
        proof {
            assert((p + 1) * (tab as int) == p * (tab as int) + (tab as int)) by (nonlinear_arith);
        }
        p = p + 1;
    }
}

/// Rewrite the leading whitespace of every line so that it reflects the
/// nesting depth, and append a terminator after every line.
///
/// `suppress` carries, for each line, the verdict of the caller's region
/// classifiers: a suppressed line is copied verbatim.  Depths that would go
/// negative are clamped to zero — the clamped state is carried forward — and
/// each such line is reported as a warning in `logs`, together with its
/// position and raw text.  Comment text never counts toward nesting, and
/// only leading whitespace of non-suppressed lines ever changes.
pub fn apply_indent(
    lines: &Vec<String>,
    filename: &str,
    config: &Config,
    logs: &mut Vec<Log>,
    pass: Option<usize>,
    suppress: &Vec<bool>,
) -> (r: String)
    requires
        suppress@.len() == lines@.len(),
        lines@.len() <= MAX_LINES,
        forall|i: int| 0 <= i < lines@.len() ==> (#[trigger] lines@[i])@.len() <= MAX_LINE_LEN,
        1 <= config.tab_width <= MAX_TAB,
    ensures
        r@ == engine_output(views_of(lines@), suppress@, config.tab_width as int),
        log_models(final(logs)@) == log_models(old(logs)@) + start_logs(
            filename@,
            pass,
            config.verbose,
        ) + logs_from(views_of(lines@), suppress@, 0, filename@, pass, config.trace),
{
    let ghost lv = views_of(lines@);
    let ghost sup = suppress@;
    let ghost tab = config.tab_width as int;
    proof {
        reveal_strlit("\n");
        assert("\n"@ =~= seq!['\n']);
    }
    if config.verbose {
        record_log(
            logs,
            Severity::Info,
            pass,
            filename.to_owned(),
            None,
            None,
            pass_message(pass),
        );
    }
    let ghost logs_start = logs@;
    proof {
        assert(log_models(logs_start) =~= log_models(old(logs)@) + start_logs(
            filename@,
            pass,
            config.verbose,
        ));
    }
    let mut out = String::new();
    let mut actual: i64 = 0;
    let mut i: usize = 0;
    while i < lines.len()
        invariant
            i <= lines.len(),
            actual == actual_at(lv, sup, i as int),
            0 <= actual <= (i as int) * (MAX_LINE_LEN + 6),
            out@ + flat_from(lv, sup, tab, i as int) == flat_from(lv, sup, tab, 0),
            log_models(logs@) + logs_from(lv, sup, i as int, filename@, pass, config.trace)
                == log_models(logs_start) + logs_from(lv, sup, 0, filename@, pass, config.trace),
        decreases lines.len() - i,
    {
        let ghost out_pre = out@;
        let ghost logs_pre = logs@;
        let line: &str = lines[i].as_str();
        proof {
            assert(line@ == lv[i as int]);
        }
        if !suppress[i] {
            proof {
                lemma_line_bounds(line@);
            }
            let comment_index = find_comment_index(line);
            let line_strip = remove_comment(line, comment_index);
            let diff = get_diff(line_strip);
            let back = get_back(line_strip);
            proof {
                assert(diff == line_diff(line@));
                assert(back == line_back(line@));
            }
            let new_actual = actual + diff;
            let visual = actual - back;
            if config.trace {
                record_log(
                    logs,
                    Severity::Trace,
                    pass,
                    filename.to_owned(),
                    Some(i),
                    Some(line.to_owned()),
                    trace_message(new_actual, visual),
                );
            }
            if new_actual < 0 || visual < 0 {
                record_log(
                    logs,
                    Severity::Warn,
                    pass,
                    filename.to_owned(),
                    Some(i),
                    Some(line.to_owned()),
                    String::from_str("Indent is negative."),
                );
            }
            proof {
                assert(log_models(logs@) =~= log_models(logs_pre) + line_logs(
                    lv,
                    sup,
                    i as int,
                    filename@,
                    pass,
                    config.trace,
                ));
            }
            let new_actual = if new_actual < 0 {
                0
            } else {
                new_actual
            };
            let visual = if visual < 0 {
                0
            } else {
                visual
            };
            actual = new_actual;
            let k = first_non_blank(line);
            let n = line.unicode_len();
            push_spaces(&mut out, visual, config.tab_width);
            let body = line.substring_char(k, n);
            out.append(body);
            proof {
                assert(out@ =~= out_pre + out_line(lv, sup, i as int, tab));
            }
        } else {
            out.append(line);
            proof {
                assert(out@ =~= out_pre + out_line(lv, sup, i as int, tab));
            }
        }
        out.append("\n");
        proof {
            assert(out@ + flat_from(lv, sup, tab, i + 1) =~= flat_from(lv, sup, tab, 0));
            assert(log_models(logs@) + logs_from(lv, sup, i + 1, filename@, pass, config.trace)
                =~= log_models(logs_start) + logs_from(lv, sup, 0, filename@, pass, config.trace));
        }
        i = i + 1;
    }
    proof {
        assert(out@ =~= flat_from(lv, sup, tab, 0));
    }
    out
}

} // verus!
