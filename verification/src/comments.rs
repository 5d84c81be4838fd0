//! Comment locator: finds the first unescaped comment marker of a line and
//! splits the line there.  Positions are measured in characters, never bytes,
//! so multi-byte content is never split mid-character.

use crate::text::{comment_index_of, is_comment_start, lemma_comment_index_skip, visible_part};
use vstd::prelude::*;

verus! {

/// Position of the first unescaped `%` of the line, in characters.
///
/// A `%` at position 0 always starts a comment.  Later on, a `%` starts a
/// comment when the character before it is a space or is not a backslash; a
/// `%` directly after a backslash is escaped and starts none.
pub fn find_comment_index(line: &str) -> (r: Option<usize>)
    ensures
        r is Some <==> comment_index_of(line@) is Some,
        r is Some ==> comment_index_of(line@) == Some(r->0 as int),
        r is Some ==> r->0 < line@.len(),
{
    let n = line.unicode_len();
    let mut i: usize = 0;
    while i < n
        invariant
            i <= n,
            forall|j: int| 0 <= j < i ==> !is_comment_start(line@, j),
        decreases n - i,
    {
        let c = line.get_char(i);
        if c == '%' {
            if i == 0 {
                proof {
                    lemma_comment_index_skip(line@, 0);
                }
                return Some(0);
            }
            let prev = line.get_char(i - 1);
            if prev == ' ' || prev != '\\' {
                proof {
                    lemma_comment_index_skip(line@, i as int);
                }
                return Some(i);
            }
        }
        proof {
            assert(!is_comment_start(line@, i as int));
        }
        i = i + 1;
    }
    proof {
        lemma_comment_index_skip(line@, n as int);
    }
    None
}

/// The prefix of the line before the comment, or the whole line if it has
/// none.  `comment` must come from `find_comment_index` on the same line.
pub fn remove_comment<'a>(line: &'a str, comment: Option<usize>) -> (r: &'a str)
    requires
        comment is Some ==> comment->0 <= line@.len(),
    ensures
        (match comment {
            Some(c) => r@ == line@.subrange(0, c as int),
            None => r@ == line@,
        }),
        (match comment {
            Some(c) => comment_index_of(line@) == Some(c as int),
            None => comment_index_of(line@) is None,
        }) ==> r@ == visible_part(line@),
{
    match comment {
        Some(c) => line.substring_char(0, c),
        None => line,
    }
}

/// The suffix of the line from the comment to its end, or the empty string if
/// the line has no comment.
pub fn get_comment<'a>(line: &'a str, comment: Option<usize>) -> (r: &'a str)
    requires
        comment is Some ==> comment->0 <= line@.len(),
    ensures
        (match comment {
            Some(c) => r@ == line@.subrange(c as int, line@.len() as int),
            None => r@ == Seq::<char>::empty(),
        }),
{
    match comment {
        Some(c) => {
            let n = line.unicode_len();
            line.substring_char(c, n)
        },
        None => {
            proof {
                reveal_strlit("");
                assert(""@ =~= Seq::<char>::empty());
            }
            ""
        },
    }
}

} // verus!
