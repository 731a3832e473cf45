//! The state of one generation run, and the interleaving of comments that
//! lie between nodes.
use std::collections::HashSet;
use vstd::prelude::*;
use crate::comments::{comment_spans, lemma_comment_spans_laid_out, parse_comments};
use crate::syntax::{Node, Span};
use crate::text::chars_of;
use vstd::string::*;

verus! {

broadcast use vstd::std_specs::hash::group_hash_axioms;

/// The characters of `s` that `sp` covers.
pub open spec fn span_chars(s: Seq<char>, sp: Span) -> Seq<char> {
    s.subrange(sp.start as int, sp.end as int)
}

/// Where the node before position `k` of `ns` ends, `lo` for the first.
pub open spec fn end_before<'a>(ns: Seq<Node<'a>>, lo: int, k: int) -> int {
    if k == 0 {
        lo
    } else {
        ns[k - 1].spec_span().end as int
    }
}

/// The nodes `ns` follow each other without overlap inside `[lo, hi]`, each
/// span a range (`Span::wf`).
pub open spec fn laid_out<'a>(ns: Seq<Node<'a>>, lo: int, hi: int) -> bool {
    &&& forall|k: int|
        0 <= k < ns.len() ==> lo <= end_before(ns, lo, k) <= (#[trigger] ns[k]).spec_span().start
            <= ns[k].spec_span().end <= hi
    &&& lo <= hi
}

/// The comments found in `[a, b)` of `s`, as nodes.
pub open spec fn orphans<'a>(s: Seq<char>, a: int, b: int) -> Seq<Node<'a>> {
    let found = comment_spans(s.subrange(a, b));
    Seq::new(
        found.len(),
        |k: int| Node::Orphan(Span { start: (a + found[k].0) as usize, end: (a + found[k].1) as usize }),
    )
}

/// The nodes `ns`, which cover part of `[last, end)` of `s`, with the
/// comments found in the text around them put in their places.
pub open spec fn with_comments<'a>(s: Seq<char>, last: int, end: int, ns: Seq<Node<'a>>) -> Seq<Node<'a>>
    decreases ns.len(),
{
    if ns.len() == 0 {
        orphans(s, last, end)
    } else {
        orphans(s, last, ns[0].spec_span().start as int) + seq![ns[0]] + with_comments(
            s,
            ns[0].spec_span().end as int,
            end,
            ns.drop_first(),
        )
    }
}

proof fn lemma_laid_out_concat<'a>(x: Seq<Node<'a>>, y: Seq<Node<'a>>, lo: int, mid: int, hi: int)
    requires
        laid_out(x, lo, mid),
        laid_out(y, mid, hi),
    ensures
        laid_out(x + y, lo, hi),
{
    let z = x + y;
    assert forall|k: int| 0 <= k < z.len() implies lo <= end_before(z, lo, k) <= (#[trigger] z[k]).spec_span().start
        <= z[k].spec_span().end <= hi by {
        if k >= x.len() {
            assert(z[k] == y[k - x.len()]);
            if k > x.len() {
                assert(z[k - 1] == y[k - 1 - x.len()]);
            }
        } else if k > 0 {
            assert(z[k - 1] == x[k - 1]);
        }
    }
}

proof fn lemma_orphans_laid_out<'a>(s: Seq<char>, a: int, b: int, o: Seq<Node<'a>>)
    requires
        0 <= a <= b <= s.len(),
        b <= usize::MAX,
        o == orphans::<'a>(s, a, b),
    ensures
        laid_out(o, a, b),
{
    let g = s.subrange(a, b);
    lemma_comment_spans_laid_out(g);
    let found = comment_spans(g);
    assert forall|k: int| 0 <= k < o.len() implies a <= end_before(o, a, k) <= (#[trigger] o[k]).spec_span().start
        <= o[k].spec_span().end <= b by {
        let p = found[k];
        assert(0 <= p.0 <= p.1 <= g.len());
        if k > 0 {
            let q = found[k - 1];
            assert(0 <= q.0 <= q.1 <= p.0);
        }
    }
}

proof fn lemma_orphans_nonempty<'a>(s: Seq<char>, a: int, b: int, o: Seq<Node<'a>>)
    requires
        0 <= a <= b <= s.len(),
        b <= usize::MAX,
        o == orphans::<'a>(s, a, b),
    ensures
        forall|k: int|
            0 <= k < o.len() ==> (#[trigger] o[k]) is Orphan && o[k].spec_span().start
                < o[k].spec_span().end,
{
    let g = s.subrange(a, b);
    lemma_comment_spans_laid_out(g);
    let found = comment_spans(g);
    assert forall|k: int| 0 <= k < o.len() implies (#[trigger] o[k]) is Orphan && o[k].spec_span().start
        < o[k].spec_span().end by {
        let p = found[k];
        assert(0 <= p.0 < p.1 <= g.len());
    }
}

/// The comments found between nodes that are no comments themselves span
/// at least one character each.
pub proof fn lemma_with_comments_orphans_nonempty<'a>(s: Seq<char>, last: int, end: int, ns: Seq<Node<'a>>)
    requires
        0 <= last,
        end <= s.len(),
        end <= usize::MAX,
        laid_out(ns, last, end),
        forall|k: int| 0 <= k < ns.len() ==> !((#[trigger] ns[k]) is Orphan),
    ensures
        forall|k: int|
            0 <= k < with_comments(s, last, end, ns).len() && (#[trigger] with_comments(
                s,
                last,
                end,
                ns,
            )[k]) is Orphan ==> with_comments(s, last, end, ns)[k].spec_span().start
                < with_comments(s, last, end, ns)[k].spec_span().end,
    decreases ns.len(),
{
    if ns.len() == 0 {
        lemma_orphans_nonempty(s, last, end, orphans(s, last, end));
    } else {
        let n0 = ns[0];
        let st = n0.spec_span().start as int;
        let en = n0.spec_span().end as int;
        let rest = ns.drop_first();
        assert(laid_out(rest, en, end)) by {
            assert forall|k: int| 0 <= k < rest.len() implies en <= end_before(rest, en, k) <= (
            #[trigger] rest[k]).spec_span().start <= rest[k].spec_span().end <= end by {
                assert(rest[k] == ns[k + 1]);
                if k > 0 {
                    assert(rest[k - 1] == ns[k]);
                    lemma_end_monotone(ns, last, k);
                }
            }
        }
        assert forall|k: int| 0 <= k < rest.len() implies !((#[trigger] rest[k]) is Orphan) by {
            assert(rest[k] == ns[k + 1]);
        }
        lemma_with_comments_orphans_nonempty(s, en, end, rest);
        let o = orphans::<'a>(s, last, st);
        lemma_orphans_nonempty(s, last, st, o);
        let w = with_comments(s, en, end, rest);
        let r = with_comments(s, last, end, ns);
        assert(r == o + seq![n0] + w);
        assert forall|k: int| 0 <= k < r.len() && (#[trigger] r[k]) is Orphan implies r[k].spec_span().start
            < r[k].spec_span().end by {
            if k < o.len() {
                assert(r[k] == o[k]);
            } else if k > o.len() {
                assert(r[k] == w[k - o.len() - 1]);
            }
        }
    }
}

/// The comments found between nodes fit between them, so that the
/// interleaved sequence is in order as well.
pub proof fn lemma_with_comments_laid_out<'a>(s: Seq<char>, last: int, end: int, ns: Seq<Node<'a>>)
    requires
        0 <= last,
        end <= s.len(),
        end <= usize::MAX,
        laid_out(ns, last, end),
    ensures
        laid_out(with_comments(s, last, end, ns), last, end),
    decreases ns.len(),
{
    if ns.len() == 0 {
        lemma_orphans_laid_out(s, last, end, orphans(s, last, end));
    } else {
        let n0 = ns[0];
        let st = n0.spec_span().start as int;
        let en = n0.spec_span().end as int;
        let rest = ns.drop_first();
        assert(laid_out(rest, en, end)) by {
            assert forall|k: int| 0 <= k < rest.len() implies en <= end_before(rest, en, k) <= (
            #[trigger] rest[k]).spec_span().start <= rest[k].spec_span().end <= end by {
                assert(rest[k] == ns[k + 1]);
                if k > 0 {
                    assert(rest[k - 1] == ns[k]);
                    lemma_end_monotone(ns, last, k);
                }
            }
        }
        lemma_with_comments_laid_out(s, en, end, rest);
        lemma_orphans_laid_out(s, last, st, orphans(s, last, st));
        let single = seq![n0];
        assert(laid_out(single, st, en));
        lemma_laid_out_concat(orphans::<'a>(s, last, st), single, last, st, en);
        lemma_laid_out_concat(
            orphans::<'a>(s, last, st) + single,
            with_comments(s, en, end, rest),
            last,
            en,
            end,
        );
    }
}

proof fn lemma_end_monotone<'a>(ns: Seq<Node<'a>>, lo: int, k: int)
    requires
        forall|j: int|
            0 <= j < ns.len() ==> lo <= end_before(ns, lo, j) <= (#[trigger] ns[j]).spec_span().start
                <= ns[j].spec_span().end,
        1 <= k < ns.len(),
    ensures
        ns[0].spec_span().end <= ns[k].spec_span().end,
    decreases k,
{
    if k > 1 {
        lemma_end_monotone(ns, lo, k - 1);
        assert(end_before(ns, lo, k) <= ns[k].spec_span().start);
    } else {
        assert(end_before(ns, lo, 1) <= ns[1].spec_span().start);
    }
}

/// The state of one generation run over a source text.
pub struct Context<'a> {
    /// The source text.
    pub text: &'a str,
    /// The characters of `text`.
    pub chars: Vec<char>,
    /// The start offsets of the comments already generated.
    pub handled_comments: HashSet<usize>,
    /// The node being generated.
    pub current_node: Option<Node<'a>>,
    /// The ancestors of the current node, innermost last.
    pub parent_stack: Vec<Node<'a>>,
    /// Set while a quoted value is generated: strings then give their
    /// content as it stands.
    pub gen_string_content: bool,
}

impl<'a> Context<'a> {
    /// The context's parts agree with each other.
    pub open spec fn wf(&self) -> bool {
        &&& self.chars@ == self.text@
        &&& self.current_node is None ==> self.parent_stack@.len() == 0
    }

    /// The source text as characters.
    pub open spec fn src(&self) -> Seq<char> {
        self.text@
    }

    /// The parent of the current node.
    pub open spec fn spec_parent(&self) -> Option<Node<'a>> {
        if self.parent_stack@.len() > 0 {
            Some(self.parent_stack@.last())
        } else {
            None
        }
    }

    /// A fresh context for a run over `text`.
    pub fn new(text: &'a str) -> (r: Context<'a>)
        ensures
            r.wf(),
            r.text == text,
            r.handled_comments@ == Set::<usize>::empty(),
            r.current_node is None,
            !r.gen_string_content,
    {
        Context {
            text,
            chars: chars_of(text),
            handled_comments: HashSet::new(),
            current_node: None,
            parent_stack: Vec::new(),
            gen_string_content: false,
        }
    }

    /// The text that `span` covers.
    pub fn span_text(&self, span: &Span) -> (r: &'a str)
        requires
            self.wf(),
            span.within(self.src().len()),
        ensures
            r@ == span_chars(self.src(), *span),
    {
        self.text.substring_char(span.start, span.end)
    }

    /// Makes `node` the current node; the old current node becomes its parent.
    pub fn set_current_node(&mut self, node: Node<'a>)
        requires
            old(self).wf(),
        ensures
            final(self).wf(),
            final(self).current_node == Some(node),
            final(self).spec_parent() == old(self).current_node,
            final(self).parent_stack@ == (match old(self).current_node {
                Some(p) => old(self).parent_stack@.push(p),
                None => old(self).parent_stack@,
            }),
            final(self).text == old(self).text,
            final(self).chars == old(self).chars,
            final(self).handled_comments@ == old(self).handled_comments@,
            final(self).gen_string_content == old(self).gen_string_content,
    {
        match self.current_node.take() {
            Some(parent) => self.parent_stack.push(parent),
            None => {},
        }
        self.current_node = Some(node);
    }

    /// Makes the parent of the current node current again.
    pub fn pop_current_node(&mut self)
        requires
            old(self).wf(),
        ensures
            final(self).wf(),
            final(self).current_node == old(self).spec_parent(),
            final(self).parent_stack@ == if old(self).parent_stack@.len() > 0 {
                old(self).parent_stack@.drop_last()
            } else {
                old(self).parent_stack@
            },
            final(self).text == old(self).text,
            final(self).chars == old(self).chars,
            final(self).handled_comments@ == old(self).handled_comments@,
            final(self).gen_string_content == old(self).gen_string_content,
    {
        self.current_node = self.parent_stack.pop();
    }

    /// The parent of the current node.
    pub fn parent(&self) -> (r: Option<&Node<'a>>)
        ensures
            r == match self.spec_parent() {
                Some(p) => Some(&p),
                None => None::<&Node<'a>>,
            },
    {
        self.parent_stack.last()
    }

    /// `nodes`, which lie in `[start_pos, end_pos)` of the source in order,
    /// with the comments found in the text between them put in their places.
    pub fn parse_nodes_with_comments(&self, start_pos: usize, end_pos: usize, nodes: Vec<Node<'a>>) -> (r: Vec<Node<'a>>)
        requires
            self.wf(),
            end_pos <= self.src().len(),
            laid_out(nodes@, start_pos as int, end_pos as int),
        ensures
            r@ == with_comments(self.src(), start_pos as int, end_pos as int, nodes@),
            laid_out(r@, start_pos as int, end_pos as int),
    {
        let ghost s = self.src();
        let ghost all = nodes@;
        proof {
            lemma_with_comments_laid_out(s, start_pos as int, end_pos as int, all);
        }
        let mut result: Vec<Node<'a>> = Vec::new();
        let mut last_pos = start_pos;
        let n = nodes.len();
        let mut i: usize = 0;
        assert(all.subrange(0, n as int) =~= all);
        while i < n
            invariant
                s == self.src(),
                self.wf(),
                n == nodes@.len(),
                all == nodes@,
                i <= n,
                end_pos <= s.len(),
                laid_out(all.subrange(i as int, n as int), last_pos as int, end_pos as int),
                result@ + with_comments(s, last_pos as int, end_pos as int, all.subrange(i as int, n as int))
                    == with_comments(s, start_pos as int, end_pos as int, all),
            decreases n - i,
        {
            let ghost rest = all.subrange(i as int, n as int);
            let node = nodes[i];
            let sp = node.span();
            assert(rest[0] == node);
            assert(end_before(rest, last_pos as int, 0) <= rest[0].spec_span().start);
            self.add_orphans(&mut result, last_pos, sp.start);
            result.push(node);
            proof {
                assert(rest.drop_first() =~= all.subrange(i + 1, n as int));
                assert(laid_out(all.subrange(i + 1, n as int), sp.end as int, end_pos as int)) by {
                    let r2 = all.subrange(i + 1, n as int);
                    assert forall|k: int| 0 <= k < r2.len() implies sp.end <= end_before(r2, sp.end as int, k)
                        <= (#[trigger] r2[k]).spec_span().start <= r2[k].spec_span().end <= end_pos by {
                        assert(r2[k] == rest[k + 1]);
                        if k > 0 {
                            assert(r2[k - 1] == rest[k]);
                            lemma_end_monotone(rest, last_pos as int, k);
                        }
                    }
                }
            }
            last_pos = sp.end;
            i = i + 1;
        }
        assert(all.subrange(n as int, n as int) =~= Seq::<Node<'a>>::empty());
        self.add_orphans(&mut result, last_pos, end_pos);
        assert(result@ =~= with_comments(s, start_pos as int, end_pos as int, all));
        result
    }

    /// Appends the comments found in `[from, to)` of the source, as nodes.
    fn add_orphans(&self, result: &mut Vec<Node<'a>>, from: usize, to: usize)
        requires
            self.wf(),
            from <= to <= self.src().len(),
        ensures
            final(result)@ == old(result)@ + orphans(self.src(), from as int, to as int),
    {
        let gap = self.text.substring_char(from, to);
        let found = parse_comments(gap, from);
        let ghost spans = comment_spans(gap@);
        let ghost before = result@;
        let mut k: usize = 0;
        while k < found.len()
            invariant
                k <= found@.len(),
                found@.len() == spans.len(),
                spans == comment_spans(self.src().subrange(from as int, to as int)),
                forall|j: int|
                    0 <= j < found@.len() ==> crate::comments::is_found_comment(
                        #[trigger] found@[j],
                        gap@,
                        from as int,
                        spans[j],
                    ),
                result@ == before + orphans::<'a>(self.src(), from as int, to as int).take(k as int),
            decreases found@.len() - k,
        {
            let sp = found[k].span;
            result.push(Node::Orphan(sp));
            assert(orphans::<'a>(self.src(), from as int, to as int).take(k + 1) =~= orphans::<'a>(
                self.src(),
                from as int,
                to as int,
            ).take(k as int).push(Node::Orphan(sp)));
            k = k + 1;
        }
        assert(orphans::<'a>(self.src(), from as int, to as int).take(k as int) =~= orphans::<'a>(
            self.src(),
            from as int,
            to as int,
        ));
    }
}

} // verus!
