//! The top level: a whole file to an instruction stream, and the outcome of
//! formatting it.
use vstd::prelude::*;
use crate::context::{end_before, laid_out, span_chars, with_comments, Context};
use crate::comments::normalized_comment;
use crate::generate::{lemma_part_bound, part_ok};
use crate::instructions::{
    gen_node, instruction_ok, items_seg, lemma_instruction_bound, lemma_with_comments_members,
    node_out,
};
use crate::print_items::{push_item, push_segment, segs, toks, PrintItem, Seg, Segment, Tok};
use crate::syntax::{Dockerfile, Node};
use crate::text::{count_newlines, newlines_between};
use vstd::string::*;

verus! {

/// The instructions of `file`, as nodes.
pub open spec fn instr_nodes<'a>(file: &'a Dockerfile) -> Seq<Node<'a>> {
    Seq::new(file.instructions@.len(), |k: int| Node::of_instruction(&file.instructions@[k]))
}

/// `file` was parsed from `s`: its instructions follow each other in it,
/// and their spans lie in it.
pub open spec fn file_ok<'a>(s: Seq<char>, file: &'a Dockerfile) -> bool {
    &&& s.len() <= usize::MAX
    &&& laid_out(instr_nodes(file), 0, s.len() as int)
    &&& forall|k: int|
        0 <= k < file.instructions@.len() ==> instruction_ok(s, #[trigger] instr_nodes(file)[k])
}

/// The top-level entries of `file`: its instructions with the comments
/// between them.
pub open spec fn entries<'a>(s: Seq<char>, file: &'a Dockerfile) -> Seq<Node<'a>> {
    with_comments(s, 0, s.len() as int, instr_nodes(file))
}

/// What a top-level entry generates.
pub open spec fn entry_out<'a>(s: Seq<char>, node: Node<'a>, h: Set<usize>) -> (Seq<Seg>, Set<usize>) {
    node_out(s, node, None, false, h)
}

/// The line breaks after entry `k`: one, and a second (a blank line) when
/// the source between it and the next entry holds two or more line feeds.
pub open spec fn breaks_after<'a>(s: Seq<char>, ns: Seq<Node<'a>>, k: int) -> Seq<Seg> {
    let one = items_seg(seq![Tok::NewLine]);
    if k + 1 < ns.len() && count_newlines(
        s.subrange(ns[k].spec_span().end as int, ns[k + 1].spec_span().start as int),
    ) > 1 {
        one + one
    } else {
        one
    }
}

/// Blank lines between top-level entries: the entry at `k` is followed by
/// one line break when the source between it and the next entry held at
/// most one line feed, and by two (one blank line) when it held two or
/// more. Blank lines are never added, and runs of them collapse to one.
pub proof fn lemma_blank_line_rule<'a>(s: Seq<char>, ns: Seq<Node<'a>>, h: Set<usize>, k: int)
    requires
        0 <= k,
        k + 1 < ns.len(),
    ensures
        ({
            let prev = entries_out(s, ns, h, k);
            let gap = s.subrange(ns[k].spec_span().end as int, ns[k + 1].spec_span().start as int);
            let line_break = Seg::Items(seq![Tok::NewLine]);
            &&& entries_out(s, ns, h, k + 1).0 == prev.0 + entry_out(s, ns[k], prev.1).0
                + breaks_after(s, ns, k)
            &&& count_newlines(gap) >= 2 ==> breaks_after(s, ns, k) == seq![line_break, line_break]
            &&& count_newlines(gap) < 2 ==> breaks_after(s, ns, k) == seq![line_break]
        }),
{
    let line_break = Seg::Items(seq![Tok::NewLine]);
    assert(items_seg(seq![Tok::NewLine]) + items_seg(seq![Tok::NewLine]) =~= seq![
        line_break,
        line_break,
    ]);
}

proof fn lemma_entries_handled<'a>(s: Seq<char>, file: &'a Dockerfile, k: int)
    requires
        file_ok(s, file),
        0 <= k <= entries(s, file).len(),
    ensures
        forall|x: usize|
            #[trigger] entries_out(s, entries(s, file), Set::empty(), k).1.contains(x) ==> x
                < end_before(entries(s, file), 0, k),
    decreases k,
{
    if k > 0 {
        let ns = entries(s, file);
        lemma_entries_handled(s, file, k - 1);
        lemma_entries_generable(s, file);
        assert forall|j: int| 0 <= j < instr_nodes(file).len() implies !((#[trigger] instr_nodes(
            file,
        )[j]) is Orphan) by {
            assert(instr_nodes(file)[j] == Node::of_instruction(&file.instructions@[j]));
        }
        crate::context::lemma_with_comments_orphans_nonempty(s, 0, s.len() as int, instr_nodes(file));
        let prev = entries_out(s, ns, Set::empty(), k - 1);
        let e = ns[k - 1];
        let hi = e.spec_span().end as int;
        assert(end_before(ns, 0, k - 1) <= e.spec_span().start <= hi);
        if e.spec_is_comment() {
            lemma_part_bound(s, e, None, false, prev.1, hi);
        } else {
            lemma_instruction_bound(s, e, false, prev.1);
        }
    }
}

/// When the generator reaches a top-level entry, every comment handled so far
/// starts before that entry: so an instruction meets the condition under
/// which `lemma_list_comment_emitted` shows the comments among its pairs
/// emitted.
pub proof fn lemma_handled_before_entry<'a>(s: Seq<char>, file: &'a Dockerfile, k: int)
    requires
        file_ok(s, file),
        0 <= k < entries(s, file).len(),
    ensures
        forall|x: usize|
            #[trigger] entries_out(s, entries(s, file), Set::empty(), k).1.contains(x) ==> x
                < entries(s, file)[k].spec_span().start,
{
    lemma_entries_handled(s, file, k);
    lemma_entries_generable(s, file);
    assert(end_before(entries(s, file), 0, k) <= entries(s, file)[k].spec_span().start);
}

/// Every top-level entry of a well-formed file, instruction or comment, has a
/// span that is a range inside the text.
pub proof fn lemma_entry_spans_wf<'a>(s: Seq<char>, file: &'a Dockerfile)
    requires
        file_ok(s, file),
    ensures
        forall|k: int|
            0 <= k < entries(s, file).len() ==> (#[trigger] entries(s, file)[k]).spec_span().within(
                s.len(),
            ),
{
    lemma_entries_generable(s, file);
}

/// Every comment found between the instructions of a file is emitted at its
/// place, in canonical form: when the generator reaches it, no comment with
/// the same start has been emitted, so the guard against emitting a comment
/// twice never drops it.
pub proof fn lemma_top_level_comments_emitted<'a>(s: Seq<char>, file: &'a Dockerfile)
    requires
        file_ok(s, file),
    ensures
        forall|k: int|
            0 <= k < entries(s, file).len() && (#[trigger] entries(s, file)[k]) is Orphan ==> entry_out(
                s,
                entries(s, file)[k],
                entries_out(s, entries(s, file), Set::empty(), k).1,
            ).0 == items_seg(
                seq![
                    Tok::Text(normalized_comment(span_chars(s, entries(s, file)[k].spec_span()))),
                    Tok::ExpectNewLine,
                ],
            ),
{
    let ns = entries(s, file);
    lemma_entries_generable(s, file);
    assert forall|k: int| 0 <= k < ns.len() && (#[trigger] ns[k]) is Orphan implies entry_out(
        s,
        ns[k],
        entries_out(s, ns, Set::empty(), k).1,
    ).0 == items_seg(
        seq![Tok::Text(normalized_comment(span_chars(s, ns[k].spec_span()))), Tok::ExpectNewLine],
    ) by {
        lemma_entries_handled(s, file, k);
        let h = entries_out(s, ns, Set::empty(), k).1;
        let st = ns[k].spec_span().start;
        assert(end_before(ns, 0, k) <= st);
        assert(!h.contains(st));
    }
}

/// What the first `k` entries generate.
pub open spec fn entries_out<'a>(s: Seq<char>, ns: Seq<Node<'a>>, h: Set<usize>, k: int) -> (
    Seq<Seg>,
    Set<usize>,
)
    decreases k,
{
    if k <= 0 {
        (seq![], h)
    } else {
        let prev = entries_out(s, ns, h, k - 1);
        let cur = entry_out(s, ns[k - 1], prev.1);
        (prev.0 + cur.0 + breaks_after(s, ns, k - 1), cur.1)
    }
}

/// The instruction stream of a file parsed from `s`.
pub open spec fn document_out<'a>(s: Seq<char>, file: &'a Dockerfile) -> Seq<Seg> {
    let ns = entries(s, file);
    entries_out(s, ns, Set::empty(), ns.len() as int).0
}

proof fn lemma_entries_generable<'a>(s: Seq<char>, file: &'a Dockerfile)
    requires
        file_ok(s, file),
    ensures
        laid_out(entries(s, file), 0, s.len() as int),
        forall|k: int|
            0 <= k < entries(s, file).len() ==> {
                let n = #[trigger] entries(s, file)[k];
                if n.spec_is_comment() {
                    n is Orphan && part_ok(s, n)
                } else {
                    instruction_ok(s, n)
                }
            },
{
    let ns = instr_nodes(file);
    crate::context::lemma_with_comments_laid_out(s, 0, s.len() as int, ns);
    lemma_with_comments_members(s, 0, s.len() as int, ns);
    let r = entries(s, file);
    assert forall|k: int| 0 <= k < r.len() implies {
        let n = #[trigger] r[k];
        if n.spec_is_comment() {
            n is Orphan && part_ok(s, n)
        } else {
            instruction_ok(s, n)
        }
    } by {
        if !(r[k] is Orphan) {
            let j = choose|j: int| 0 <= j < ns.len() && ns[j] == r[k];
            assert(instruction_ok(s, ns[j]));
            assert(!ns[j].spec_is_comment());
        }
    }
}

/// Generates the instruction stream for `file`, parsed from `text`: each
/// instruction or comment in turn, each followed by a line break, with one
/// blank line kept where the source had any.
pub fn generate<'a>(file: &'a Dockerfile, text: &'a str) -> (r: Vec<Segment>)
    requires
        file_ok(text@, file),
    ensures
        segs(r@) == document_out(text@, file),
{
    let mut ctx = Context::new(text);
    let ghost s = text@;
    let len = ctx.chars.len();
    let mut nodes: Vec<Node<'a>> = Vec::new();
    let mut i: usize = 0;
    while i < file.instructions.len()
        invariant
            i <= file.instructions@.len(),
            nodes@ == instr_nodes(file).take(i as int),
        decreases file.instructions@.len() - i,
    {
        nodes.push(Node::from_instruction(&file.instructions[i]));
        assert(instr_nodes(file).take(i + 1) =~= instr_nodes(file).take(i as int).push(
            Node::of_instruction(&file.instructions@[i as int]),
        ));
        i = i + 1;
    }
    assert(instr_nodes(file).take(i as int) =~= instr_nodes(file));
    proof {
        lemma_entries_generable(s, file);
    }
    let top_level_nodes = ctx.parse_nodes_with_comments(0, len, nodes);
    let ghost ns = top_level_nodes@;
    let ghost h0 = ctx.handled_comments@;
    let mut out: Vec<Segment> = Vec::new();
    let n = top_level_nodes.len();
    let mut k: usize = 0;
    while k < n
        invariant
            s == ctx.src(),
            ctx.wf(),
            ctx.current_node is None,
            !ctx.gen_string_content,
            ns == top_level_nodes@,
            ns == entries(s, file),
            n == ns.len(),
            len == s.len(),
            laid_out(ns, 0, s.len() as int),
            forall|j: int|
                0 <= j < ns.len() ==> {
                    let e = #[trigger] ns[j];
                    if e.spec_is_comment() {
                        e is Orphan && part_ok(s, e)
                    } else {
                        instruction_ok(s, e)
                    }
                },
            k <= n,
            segs(out@) == entries_out(s, ns, h0, k as int).0,
            ctx.handled_comments@ == entries_out(s, ns, h0, k as int).1,
        decreases n - k,
    {
        let node = top_level_nodes[k];
        let ghost e = ns[k as int];
        assert(e == node);
        let ghost prev = entries_out(s, ns, h0, k as int);
        let mut generated = gen_node(node, &mut ctx);
        let ghost before = out@;
        out.append(&mut generated);
        assert(segs(out@) =~= segs(before) + entry_out(s, e, prev.1).0);
        assert(segs(out@) =~= prev.0 + entry_out(s, e, prev.1).0);
        let mut line_break: Vec<PrintItem> = Vec::new();
        push_item(&mut line_break, PrintItem::NewLine);
        assert(toks(line_break@) =~= seq![Tok::NewLine]);
        push_segment(&mut out, Segment::Items(line_break));
        let ghost mid = segs(out@);
        if k + 1 < n {
            let next = top_level_nodes[k + 1];
            assert(node.spec_span().end <= next.spec_span().start) by {
                assert(crate::context::end_before(ns, 0, k + 1) <= ns[k + 1].spec_span().start);
            }
            if newlines_between(&ctx.chars, node.span().end, next.span().start) > 1 {
                let mut blank: Vec<PrintItem> = Vec::new();
                push_item(&mut blank, PrintItem::NewLine);
                assert(toks(blank@) =~= seq![Tok::NewLine]);
                push_segment(&mut out, Segment::Items(blank));
            }
        }
        assert(segs(out@) =~= entries_out(s, ns, h0, k + 1).0);
        k = k + 1;
    }
    out
}

/// The outcome of formatting `text` into `formatted`: nothing when that
/// changed nothing, else the new text.
pub fn format_outcome(formatted: String, text: &str) -> (r: Option<String>)
    ensures
        r is None <==> formatted@ == text@,
        r matches Some(t) ==> t@ == formatted@,
{
    let unchanged = String::from_str(text);
    if formatted == unchanged {
        None
    } else {
        Some(formatted)
    }
}

} // verus!
