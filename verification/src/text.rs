//! Character-level text analysis shared by the comment locator and the
//! indent state machine: delimiter counting, literal substring search,
//! unescaped comment detection, and leading-whitespace trimming, each with a
//! mathematical model over `Seq<char>`.

use vstd::prelude::*;

verus! {

/// Delimiters that open one nesting level.
pub open spec fn is_open_delim(c: char) -> bool {
    c == '(' || c == '[' || c == '{'
}

/// Delimiters that close one nesting level.
pub open spec fn is_close_delim(c: char) -> bool {
    c == ')' || c == ']' || c == '}'
}

/// Leading whitespace recognised by the engine: the Unicode white-space
/// characters, as `char::is_whitespace` classifies them.
pub open spec fn is_blank(c: char) -> bool {
    ||| c == ' '
    ||| c == '\t'
    ||| c == '\n'
    ||| c == '\u{0B}'
    ||| c == '\u{0C}'
    ||| c == '\r'
    ||| c == '\u{85}'
    ||| c == '\u{A0}'
    ||| c == '\u{1680}'
    ||| ('\u{2000}' <= c && c <= '\u{200A}')
    ||| c == '\u{2028}'
    ||| c == '\u{2029}'
    ||| c == '\u{202F}'
    ||| c == '\u{205F}'
    ||| c == '\u{3000}'
}

/// Whether `c` is leading whitespace to the engine.
pub fn is_blank_char(c: char) -> (r: bool)
    ensures
        r == is_blank(c),
{
    c == ' ' || c == '\t' || c == '\n' || c == '\u{0B}' || c == '\u{0C}' || c == '\r'
        || c == '\u{85}' || c == '\u{A0}' || c == '\u{1680}' || ('\u{2000}' <= c && c <= '\u{200A}')
        || c == '\u{2028}' || c == '\u{2029}' || c == '\u{202F}' || c == '\u{205F}'
        || c == '\u{3000}'
}

pub open spec fn all_blank(s: Seq<char>) -> bool {
    forall|i: int| 0 <= i < s.len() ==> is_blank(#[trigger] s[i])
}

/// Number of opening delimiters in `s`.
pub open spec fn open_count(s: Seq<char>) -> int
    decreases s.len(),
{
    if s.len() == 0 {
        0
    } else {
        open_count(s.drop_last()) + if is_open_delim(s.last()) {
            1int
        } else {
            0int
        }
    }
}

/// Number of closing delimiters in `s`.
pub open spec fn close_count(s: Seq<char>) -> int
    decreases s.len(),
{
    if s.len() == 0 {
        0
    } else {
        close_count(s.drop_last()) + if is_close_delim(s.last()) {
            1int
        } else {
            0int
        }
    }
}

/// Closing minus opening delimiters: how far `s` as a whole closes.
pub open spec fn net_close(s: Seq<char>) -> int {
    close_count(s) - open_count(s)
}

/// Maximum of `net_close` over all prefixes of `s` (at least 0, the empty
/// prefix): how far a line closes before it reopens.
pub open spec fn max_close(s: Seq<char>) -> int
    decreases s.len(),
{
    if s.len() == 0 {
        0
    } else {
        let rest = max_close(s.drop_last());
        if net_close(s) > rest {
            net_close(s)
        } else {
            rest
        }
    }
}

/// `p` occurs in `s` starting at position `i`.
pub open spec fn matches_at(s: Seq<char>, p: Seq<char>, i: int) -> bool {
    0 <= i && i + p.len() <= s.len() && s.subrange(i, i + p.len() as int) == p
}

/// `p` occurs somewhere in `s`.
pub open spec fn contains_seq(s: Seq<char>, p: Seq<char>) -> bool {
    exists|i: int| matches_at(s, p, i)
}

/// Position `i` starts a comment: an unescaped comment marker.  A marker
/// escapes only when the character directly before it is a backslash (a space
/// before the marker always starts a comment).
pub open spec fn is_comment_start(s: Seq<char>, i: int) -> bool {
    &&& 0 <= i < s.len()
    &&& s[i] == '%'
    &&& (i == 0 || s[i - 1] == ' ' || s[i - 1] != '\\')
}

/// First comment start at or after position `i`, if any.
pub open spec fn comment_index_from(s: Seq<char>, i: int) -> Option<int>
    decreases s.len() - i,
{
    if i < 0 || i >= s.len() {
        None
    } else if is_comment_start(s, i) {
        Some(i)
    } else {
        comment_index_from(s, i + 1)
    }
}

/// Position of the first unescaped comment marker of the line, if any.
pub open spec fn comment_index_of(s: Seq<char>) -> Option<int> {
    comment_index_from(s, 0)
}

/// The part of the line before its comment: what the nesting analysis sees.
pub open spec fn visible_part(s: Seq<char>) -> Seq<char> {
    match comment_index_of(s) {
        Some(i) => s.subrange(0, i),
        None => s,
    }
}

/// The line with its leading whitespace removed.
pub open spec fn trim_start_spec(s: Seq<char>) -> Seq<char>
    decreases s.len(),
{
    if s.len() > 0 && is_blank(s[0]) {
        trim_start_spec(s.subrange(1, s.len() as int))
    } else {
        s
    }
}

/// `n` space characters (none for a negative `n`).
pub open spec fn spaces(n: int) -> Seq<char> {
    Seq::new(if n < 0 { 0nat } else { n as nat }, |i: int| ' ')
}

/// Searching from `i` skips positions that start no comment.
pub proof fn lemma_comment_index_skip(s: Seq<char>, i: int)
    requires
        0 <= i <= s.len(),
        forall|j: int| 0 <= j < i ==> !is_comment_start(s, j),
    ensures
        comment_index_of(s) == comment_index_from(s, i),
    decreases i,
{
    if i > 0 {
        lemma_comment_index_skip(s, i - 1);
    }
}

/// A found comment index lies within the line, at or after where the search
/// began.
pub proof fn lemma_comment_index_range(s: Seq<char>, i: int)
    ensures
        comment_index_from(s, i) is Some ==> i <= comment_index_from(s, i)->0 < s.len(),
    decreases s.len() - i,
{
    if 0 <= i < s.len() && !is_comment_start(s, i) {
        lemma_comment_index_range(s, i + 1);
    }
}

/// The visible part of a line is a prefix of it.
pub proof fn lemma_visible_part_prefix(s: Seq<char>)
    ensures
        visible_part(s).len() <= s.len(),
        visible_part(s) == s.subrange(0, visible_part(s).len() as int),
{
    lemma_comment_index_range(s, 0);
    assert(s.subrange(0, s.len() as int) =~= s);
}

/// Trimming removes exactly the leading run of blank characters.
pub proof fn lemma_trim_at(s: Seq<char>, k: int)
    requires
        0 <= k <= s.len(),
        forall|j: int| 0 <= j < k ==> is_blank(s[j]),
        k < s.len() ==> !is_blank(s[k]),
    ensures
        trim_start_spec(s) == s.subrange(k, s.len() as int),
    decreases k,
{
    if k == 0 {
        assert(s.subrange(0, s.len() as int) =~= s);
    } else {
        let tail = s.subrange(1, s.len() as int);
        lemma_trim_at(tail, k - 1);
        assert(tail.subrange(k - 1, tail.len() as int) =~= s.subrange(k, s.len() as int));
    }
}

/// Index of the first non-blank character of the line (its length if the
/// whole line is blank); everything before it is the leading whitespace.
pub fn first_non_blank(line: &str) -> (k: usize)
    ensures
        k <= line@.len(),
        trim_start_spec(line@) == line@.subrange(k as int, line@.len() as int),
        forall|j: int| 0 <= j < k ==> is_blank(line@[j]),
        k < line@.len() ==> !is_blank(line@[k as int]),
{
    let n = line.unicode_len();
    let mut k: usize = 0;
    while k < n
        invariant
            k <= n,
            forall|j: int| 0 <= j < k ==> is_blank(line@[j]),
        decreases n - k,
    {
        let c = line.get_char(k);
        if !is_blank_char(c) {
            proof {
                lemma_trim_at(line@, k as int);
            }
            return k;
        }
        k = k + 1;
    }
    proof {
        lemma_trim_at(line@, n as int);
    }
    n
}

/// Literal substring search over characters.
pub fn contains_str(line: &str, pat: &str) -> (r: bool)
    ensures
        r == contains_seq(line@, pat@),
{
    let n = line.unicode_len();
    let m = pat.unicode_len();
    if m > n {
        proof {
            assert(forall|i: int| !matches_at(line@, pat@, i));
        }
        return false;
    }
    if m == 0 {
        proof {
            assert(line@.subrange(0, 0) =~= pat@);
            assert(matches_at(line@, pat@, 0));
        }
        return true;
    }
    let mut i: usize = 0;
    while i <= n - m
        invariant
            i <= n - m + 1,
            forall|k: int| 0 <= k < i ==> !matches_at(line@, pat@, k),
        decreases n - i,
    {
        let mut j: usize = 0;
        let mut same = true;
        while j < m
            invariant
                0 <= j <= m,
                !same ==> j == m,
                same <==> forall|k: int| 0 <= k < j ==> line@[i + k] == pat@[k],
            decreases m - j,
        {
            if line.get_char(i + j) != pat.get_char(j) {
                same = false;
                j = m;
            } else {
                proof {
                    assert(forall|k: int|
                        0 <= k < j + 1 ==> line@[i + k] == pat@[k]);
                }
                j = j + 1;
            }
        }
        if same {
            proof {
                assert(line@.subrange(i as int, i + pat@.len() as int) =~= pat@);
                assert(matches_at(line@, pat@, i as int));
            }
            return true;
        }
        proof {
            assert(!matches_at(line@, pat@, i as int));
        }
        i = i + 1;
    }
    proof {
        assert(forall|k: int| k > n - m ==> !matches_at(line@, pat@, k));
    }
    false
}

} // verus!
