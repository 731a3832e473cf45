//! Finding comment lines in source text, and their canonical form.
use vstd::prelude::*;
use crate::syntax::{Span, SpannedComment};
use crate::text::{
    chars_of, is_whitespace, is_ws, lemma_trim_after_space, skip_ws_backward, skip_ws_forward, trim,
};
use vstd::string::*;

verus! {

/// Where a scan for comments stands.
pub enum ScanState {
    /// At the start of a line, possibly after whitespace.
    LineStart,
    /// After other content on the current line.
    InLine,
    /// Inside a comment that began at the given offset.
    InComment(int),
}

/// The spans `(start, end)` of the comments in `s` from offset `i` on. A
/// comment begins with `#` when only whitespace precedes it on its line, and
/// runs up to the next line feed or the end of `s`. After a comment the scan
/// is at a line start again.
pub open spec fn scan_comments(s: Seq<char>, i: int, state: ScanState) -> Seq<(int, int)>
    decreases s.len() - i,
{
    if i >= s.len() || i < 0 {
        match state {
            ScanState::InComment(st) => seq![(st, s.len() as int)],
            _ => seq![],
        }
    } else {
        let c = s[i];
        match state {
            ScanState::InComment(st) => if c == '\n' {
                seq![(st, i)] + scan_comments(s, i + 1, ScanState::LineStart)
            } else {
                scan_comments(s, i + 1, ScanState::InComment(st))
            },
            ScanState::LineStart => if is_ws(c) {
                scan_comments(s, i + 1, ScanState::LineStart)
            } else if c == '#' {
                scan_comments(s, i + 1, ScanState::InComment(i))
            } else {
                scan_comments(s, i + 1, ScanState::InLine)
            },
            ScanState::InLine => scan_comments(
                s,
                i + 1,
                if c == '\n' {
                    ScanState::LineStart
                } else {
                    ScanState::InLine
                },
            ),
        }
    }
}

/// The spans of the comments in `s`, scanned from its start.
pub open spec fn comment_spans(s: Seq<char>) -> Seq<(int, int)> {
    scan_comments(s, 0, ScanState::LineStart)
}

/// The spans `ps`, none of them empty, follow each other without overlap
/// inside `[lo, hi]`.
pub open spec fn spans_laid_out(ps: Seq<(int, int)>, lo: int, hi: int) -> bool {
    &&& forall|k: int| 0 <= k < ps.len() ==> lo <= #[trigger] ps[k].0 < ps[k].1 <= hi
    &&& forall|k: int| 0 < k < ps.len() ==> ps[k - 1].1 <= #[trigger] ps[k].0
    &&& lo <= hi
}

proof fn lemma_scan_laid_out(s: Seq<char>, i: int, state: ScanState)
    requires
        0 <= i <= s.len(),
        state matches ScanState::InComment(st) ==> 0 <= st < i,
    ensures
        spans_laid_out(
            scan_comments(s, i, state),
            match state {
                ScanState::InComment(st) => st,
                _ => i,
            },
            s.len() as int,
        ),
    decreases s.len() - i,
{
    if i < s.len() {
        let c = s[i];
        let next = match state {
            ScanState::InComment(st) => if c == '\n' {
                ScanState::LineStart
            } else {
                state
            },
            ScanState::LineStart => if is_ws(c) {
                ScanState::LineStart
            } else if c == '#' {
                ScanState::InComment(i)
            } else {
                ScanState::InLine
            },
            ScanState::InLine => if c == '\n' {
                ScanState::LineStart
            } else {
                ScanState::InLine
            },
        };
        lemma_scan_laid_out(s, i + 1, next);
        let rest = scan_comments(s, i + 1, next);
        let lo = match state {
            ScanState::InComment(st) => st,
            _ => i,
        };
        let lo2 = match next {
            ScanState::InComment(st) => st,
            _ => i + 1,
        };
        let all = scan_comments(s, i, state);
        assert(spans_laid_out(rest, lo2, s.len() as int));
        if state is InComment && c == '\n' {
            let st = state->InComment_0;
            assert(all == seq![(st, i)] + rest);
            assert forall|k: int| 0 < k < all.len() implies #[trigger] all[k] == rest[k - 1] by {}
            assert forall|k: int| 0 < k < all.len() implies all[k - 1].1 <= #[trigger] all[k].0 by {
                if k > 1 {
                    assert(all[k - 1] == rest[k - 2]);
                }
            }
        } else {
            assert(all == rest);
        }
    }
}

/// The comments found in `s` follow each other inside it, in order.
pub proof fn lemma_comment_spans_laid_out(s: Seq<char>)
    ensures
        spans_laid_out(comment_spans(s), 0, s.len() as int),
{
    lemma_scan_laid_out(s, 0, ScanState::LineStart);
}

/// `c` is the comment found at `p` in `s`, with its offsets moved by `offset`.
pub open spec fn is_found_comment(c: SpannedComment, s: Seq<char>, offset: int, p: (int, int)) -> bool {
    &&& c.span.start == offset + p.0
    &&& c.span.end == offset + p.1
    &&& c.content@ == s.subrange(p.0, p.1)
}

/// Finds the comments in `text`, whose first character lies at `offset` of
/// the source; the comments' spans are offsets of the source.
pub fn parse_comments(text: &str, offset: usize) -> (r: Vec<SpannedComment>)
    requires
        offset + text@.len() <= usize::MAX,
    ensures
        r@.len() == comment_spans(text@).len(),
        forall|k: int|
            0 <= k < r@.len() ==> is_found_comment(
                #[trigger] r@[k],
                text@,
                offset as int,
                comment_spans(text@)[k],
            ),
{
    let chars = chars_of(text);
    let n = chars.len();
    let ghost s = text@;
    let mut comments: Vec<SpannedComment> = Vec::new();
    let mut at_line_start = true;
    let mut in_comment = false;
    let mut comment_start: usize = 0;
    let mut i: usize = 0;
    let ghost mut found: Seq<(int, int)> = seq![];
    while i < n
        invariant
            s == text@,
            n == s.len(),
            chars@ == s,
            offset + n <= usize::MAX,
            0 <= i <= n,
            in_comment ==> comment_start < i,
            comment_spans(s) == found + scan_comments(
                s,
                i as int,
                if in_comment {
                    ScanState::InComment(comment_start as int)
                } else if at_line_start {
                    ScanState::LineStart
                } else {
                    ScanState::InLine
                },
            ),
            comments@.len() == found.len(),
            forall|k: int|
                0 <= k < comments@.len() ==> is_found_comment(
                    #[trigger] comments@[k],
                    s,
                    offset as int,
                    found[k],
                ),
        decreases n - i,
    {
        let c = chars[i];
        if in_comment {
            if c == '\n' {
                let content = String::from_str(text.substring_char(comment_start, i));
                let item = SpannedComment {
                    span: Span { start: offset + comment_start, end: offset + i },
                    content,
                };
                proof {
                    assert(found + scan_comments(s, i as int, ScanState::InComment(comment_start as int))
                        =~= found.push((comment_start as int, i as int)) + scan_comments(
                        s,
                        i + 1,
                        ScanState::LineStart,
                    ));
                    found = found.push((comment_start as int, i as int));
                }
                comments.push(item);
                in_comment = false;
                at_line_start = true;
            }
        } else if at_line_start && is_whitespace(c) {
        } else if at_line_start && c == '#' {
            in_comment = true;
            comment_start = i;
        } else {
            at_line_start = c == '\n';
        }
        i = i + 1;
    }
    if in_comment {
        let content = String::from_str(text.substring_char(comment_start, n));
        proof {
            assert(found + scan_comments(s, n as int, ScanState::InComment(comment_start as int))
                =~= found.push((comment_start as int, n as int)));
            found = found.push((comment_start as int, n as int));
        }
        comments.push(
            SpannedComment {
                span: Span { start: offset + comment_start, end: offset + n },
                content,
            },
        );
    } else {
        assert(found + scan_comments(s, n as int, if at_line_start {
            ScanState::LineStart
        } else {
            ScanState::InLine
        }) =~= found);
    }
    comments
}

/// `s` without its leading `#` characters.
pub open spec fn drop_hashes(s: Seq<char>) -> Seq<char>
    decreases s.len(),
{
    if s.len() > 0 && s[0] == '#' {
        drop_hashes(s.drop_first())
    } else {
        s
    }
}

/// The canonical text of a comment: `#`, then, when anything but `#` and
/// whitespace is left, one space and that rest with whitespace trimmed.
pub open spec fn normalized_comment(s: Seq<char>) -> Seq<char> {
    let rest = trim(drop_hashes(s));
    if rest.len() == 0 {
        seq!['#']
    } else {
        seq!['#', ' '] + rest
    }
}

/// A comment in canonical form stays as it is when normalized again.
pub proof fn lemma_normalized_comment_stable(s: Seq<char>)
    ensures
        normalized_comment(normalized_comment(s)) == normalized_comment(s),
{
    let rest = trim(drop_hashes(s));
    let n = normalized_comment(s);
    if rest.len() == 0 {
        assert(n.drop_first() =~= seq![]);
        assert(drop_hashes(n.drop_first()) == n.drop_first());
        assert(trim(seq![]) =~= seq![]) by {
            assert(crate::text::trim_start(seq![]) == Seq::<char>::empty());
        }
    } else {
        assert(n.drop_first() =~= seq![' '] + rest);
        assert(drop_hashes(n.drop_first()) == n.drop_first());
        assert(drop_hashes(n) == seq![' '] + rest);
        lemma_trim_after_space(drop_hashes(s));
    }
}

/// The canonical text of a comment, so that `##note`, `# note` and
/// `#   note` all read `# note`, and a bare `#` stays `#`.
pub fn gen_comment_text(text: &str) -> (r: String)
    ensures
        r@ == normalized_comment(text@),
{
    let chars = chars_of(text);
    let n = chars.len();
    let mut k: usize = 0;
    assert(text@.subrange(0, n as int) =~= text@);
    while k < n && chars[k] == '#'
        invariant
            chars@ == text@,
            n == chars@.len(),
            k <= n,
            drop_hashes(text@) == drop_hashes(text@.subrange(k as int, n as int)),
        decreases n - k,
    {
        assert(text@.subrange(k as int, n as int).drop_first() =~= text@.subrange(k + 1, n as int));
        k = k + 1;
    }
    assert(drop_hashes(text@.subrange(k as int, n as int)) == text@.subrange(k as int, n as int));
    let a = skip_ws_forward(&chars, k, n);
    let b = skip_ws_backward(&chars, a, n);
    assert(trim(drop_hashes(text@)) == text@.subrange(a as int, b as int));
    if a == b {
        let r = String::from_str("#");
        proof {
            reveal_strlit("#");
        }
        r
    } else {
        let mut r = String::from_str("# ");
        proof {
            reveal_strlit("# ");
        }
        r.append(text.substring_char(a, b));
        r
    }
}

} // verus!
