//! Instruction rules, and the list generator shared by the instructions that
//! hold several `key=value` pairs.
use vstd::prelude::*;
use crate::context::{laid_out, span_chars, with_comments, Context};
use crate::generate::{
    array_ok, array_out, breakable_ok, breakable_out, copy_flag_out, gen_part, handled_below,
    holds_comments_before, lemma_part_bound, node_rank, part_ok, part_out, same_frame, string_ok,
    string_out,
};
use crate::print_items::{
    append_items, push_segment, push_text, segs, toks, ItemList, ListValue, PrintItem, Seg,
    Segment, Tok, ValueV,
};
use crate::syntax::{
    ArgInstruction, CmdInstruction, CopyInstruction, EntrypointInstruction, EnvInstruction,
    FromInstruction, LabelInstruction, MiscInstruction, Node, RunInstruction, ShellOrExecExpr,
};
use crate::text::{line_index, line_of};

verus! {

// ---------------------------------------------------------------------------
// What each instruction generates.
// ---------------------------------------------------------------------------

/// The nodes of `ns` are all below the instruction level, with spans in `s`.
pub open spec fn parts_ok<'a>(s: Seq<char>, ns: Seq<Node<'a>>) -> bool {
    forall|k: int| 0 <= k < ns.len() ==> part_ok(s, #[trigger] ns[k])
}

/// The list is laid out one value per line whatever the width: its second
/// value starts on a later source line than its first.
pub open spec fn forced_multi_line<'a>(s: Seq<char>, ns: Seq<Node<'a>>) -> bool {
    ns.len() > 1 && line_of(s, ns[0].spec_span().start as int) < line_of(
        s,
        ns[1].spec_span().start as int,
    )
}

/// The first `k` values of a list of the nodes `ns`: each value is what its
/// node generates; all but the last that are no comments get a line
/// continuation when the list breaks, and all but the first are indented.
pub open spec fn list_values<'a>(
    s: Seq<char>,
    ns: Seq<Node<'a>>,
    parent: Option<Node<'a>>,
    mode: bool,
    h: Set<usize>,
    k: int,
) -> (Seq<ValueV>, Set<usize>)
    decreases k,
{
    if k <= 0 {
        (seq![], h)
    } else {
        let prev = list_values(s, ns, parent, mode, h, k - 1);
        let node = ns[k - 1];
        let out = part_out(s, node, parent, mode, prev.1);
        let value = ValueV {
            items: out.0,
            line_index: line_of(s, node.spec_span().start as int),
            continuation: k < ns.len() && !node.spec_is_comment(),
            indented: k > 1,
        };
        (prev.0.push(value), out.1)
    }
}

/// The list segment for the nodes `ns`, with values indented by `width`.
pub open spec fn list_seg<'a>(
    s: Seq<char>,
    ns: Seq<Node<'a>>,
    width: u32,
    parent: Option<Node<'a>>,
    mode: bool,
    h: Set<usize>,
) -> (Seg, Set<usize>) {
    let values = list_values(s, ns, parent, mode, h, ns.len() as int);
    (
        Seg::List {
            force_use_new_lines: forced_multi_line(s, ns),
            indent_width: width,
            values: values.0,
        },
        values.1,
    )
}

proof fn lemma_list_values_layout<'a>(
    s: Seq<char>,
    ns: Seq<Node<'a>>,
    parent: Option<Node<'a>>,
    mode: bool,
    h: Set<usize>,
    k: int,
)
    requires
        0 <= k <= ns.len(),
    ensures
        ({
            let vs = list_values(s, ns, parent, mode, h, k).0;
            &&& vs.len() == k
            &&& forall|i: int|
                0 <= i < k ==> {
                    &&& (#[trigger] vs[i]).continuation == (i + 1 < ns.len()
                        && !ns[i].spec_is_comment())
                    &&& vs[i].indented == (i > 0)
                    &&& vs[i].line_index == line_of(s, ns[i].spec_span().start as int)
                }
        }),
    decreases k,
{
    if k > 0 {
        lemma_list_values_layout(s, ns, parent, mode, h, k - 1);
        let prev = list_values(s, ns, parent, mode, h, k - 1).0;
        let vs = list_values(s, ns, parent, mode, h, k).0;
        assert forall|i: int| 0 <= i < k - 1 implies #[trigger] vs[i] == prev[i] by {}
    }
}

/// How a list is laid out. It goes one value per line whatever the width
/// when its second entry started on a later source line than its first. In
/// every list, each value but the last that is no comment carries a line
/// continuation for when the list breaks, and each value but the first is
/// indented, so that the layout engine can split a list that does not fit
/// between any two values.
pub proof fn lemma_list_layout<'a>(
    s: Seq<char>,
    ns: Seq<Node<'a>>,
    width: u32,
    parent: Option<Node<'a>>,
    mode: bool,
    h: Set<usize>,
)
    ensures
        ({
            let seg = list_seg(s, ns, width, parent, mode, h).0;
            &&& seg matches Seg::List { force_use_new_lines, indent_width, values }
            &&& force_use_new_lines == (ns.len() > 1 && line_of(s, ns[0].spec_span().start as int)
                < line_of(s, ns[1].spec_span().start as int))
            &&& indent_width == width
            &&& values.len() == ns.len()
            &&& forall|i: int|
                0 <= i < ns.len() ==> {
                    &&& (#[trigger] values[i]).continuation == (i + 1 < ns.len()
                        && !ns[i].spec_is_comment())
                    &&& values[i].indented == (i > 0)
                }
        }),
{
    lemma_list_values_layout(s, ns, parent, mode, h, ns.len() as int);
}

/// The pairs of an `ENV` instruction, as nodes.
pub open spec fn var_nodes<'a>(e: &'a EnvInstruction) -> Seq<Node<'a>> {
    Seq::new(e.vars@.len(), |k: int| Node::EnvVar(&e.vars@[k]))
}

/// The pairs of a `LABEL` instruction, as nodes.
pub open spec fn label_nodes<'a>(l: &'a LabelInstruction) -> Seq<Node<'a>> {
    Seq::new(l.labels@.len(), |k: int| Node::LabelLabel(&l.labels@[k]))
}

/// What the shell or exec form of a command generates.
pub open spec fn expr_out<'a>(
    s: Seq<char>,
    e: &'a ShellOrExecExpr,
    parent: Option<Node<'a>>,
    mode: bool,
    h: Set<usize>,
) -> (Seq<Tok>, Set<usize>) {
    match e {
        ShellOrExecExpr::Shell(b) => breakable_out(s, b, parent, h),
        ShellOrExecExpr::Exec(a) => (array_out(s, a, mode), h),
    }
}

/// Print items as a one-segment stream.
pub open spec fn items_seg(t: Seq<Tok>) -> Seq<Seg> {
    seq![Seg::Items(t)]
}

/// A keyword, then a command in the form it was written in.
pub open spec fn command_out<'a>(
    s: Seq<char>,
    keyword: Seq<char>,
    e: &'a ShellOrExecExpr,
    me: Node<'a>,
    mode: bool,
    h: Set<usize>,
) -> (Seq<Seg>, Set<usize>) {
    let body = expr_out(s, e, Some(me), mode, h);
    (items_seg(seq![Tok::Text(keyword)] + body.0), body.1)
}

/// The flags of a `COPY`, each followed by a space.
pub open spec fn copy_flags_out<'a>(s: Seq<char>, c: &'a CopyInstruction, mode: bool, k: int) -> Seq<Tok>
    decreases k,
{
    if k <= 0 {
        seq![]
    } else {
        copy_flags_out(s, c, mode, k - 1) + copy_flag_out(s, &c.flags@[k - 1], mode) + seq![
            Tok::Text(" "@),
        ]
    }
}

/// The sources of a `COPY`, each followed by a space.
pub open spec fn copy_sources_out<'a>(s: Seq<char>, c: &'a CopyInstruction, mode: bool, k: int) -> Seq<Tok>
    decreases k,
{
    if k <= 0 {
        seq![]
    } else {
        copy_sources_out(s, c, mode, k - 1) + string_out(s, c.sources@[k - 1], mode) + seq![Tok::Text(" "@)]
    }
}

/// What `ARG` generates.
pub open spec fn arg_items<'a>(s: Seq<char>, a: &'a ArgInstruction, mode: bool) -> Seq<Tok> {
    let me = Some(Node::Arg(a));
    seq![Tok::Text("ARG "@)] + string_out(s, a.name, mode) + match a.value {
        Some(v) => seq![Tok::Text("="@)] + string_out(s, v, mode),
        None => seq![],
    }
}

/// What `COPY` generates.
pub open spec fn copy_items<'a>(s: Seq<char>, c: &'a CopyInstruction, mode: bool) -> Seq<Tok> {
    seq![Tok::Text("COPY "@)] + copy_flags_out(s, c, mode, c.flags@.len() as int)
        + copy_sources_out(s, c, mode, c.sources@.len() as int) + string_out(s, c.destination, mode)
}

/// What `FROM` generates.
pub open spec fn from_items<'a>(s: Seq<char>, f: &'a FromInstruction, mode: bool) -> Seq<Tok> {
    let me = Some(Node::From(f));
    seq![Tok::Text("FROM "@)] + string_out(s, f.image, mode) + match f.alias {
        Some(v) => seq![Tok::Text(" AS "@)] + string_out(s, v, mode),
        None => seq![],
    }
}

/// What an instruction generates with the string-content flag `mode` and the
/// handled comments `h`; and the handled comments after it. Its children are
/// generated with the instruction as their parent.
pub open spec fn instruction_out<'a>(s: Seq<char>, node: Node<'a>, mode: bool, h: Set<usize>) -> (
    Seq<Seg>,
    Set<usize>,
) {
    let me = Some(node);
    match node {
        Node::Arg(a) => (items_seg(arg_items(s, a, mode)), h),
        Node::Cmd(c) => command_out(s, "CMD "@, &c.expr, node, mode, h),
        Node::Entrypoint(c) => command_out(s, "ENTRYPOINT "@, &c.expr, node, mode, h),
        Node::Run(c) => command_out(s, "RUN "@, &c.expr, node, mode, h),
        Node::Copy(c) => (items_seg(copy_items(s, c, mode)), h),
        Node::From(f) => (items_seg(from_items(s, f, mode)), h),
        Node::Misc(m) => {
            let args = breakable_out(s, &m.arguments, me, h);
            (
                items_seg(string_out(s, m.instruction, mode) + seq![Tok::Text(" "@)] + args.0),
                args.1,
            )
        },
        Node::Env(e) => {
            let entries = with_comments(s, e.span.start as int, e.span.end as int, var_nodes(e));
            let list = list_seg(s, entries, 4, me, mode, h);
            (items_seg(seq![Tok::Text("ENV "@)]).push(list.0), list.1)
        },
        Node::Label(l) => {
            let entries = with_comments(s, l.span.start as int, l.span.end as int, label_nodes(l));
            let list = list_seg(s, entries, 6, me, mode, h);
            (items_seg(seq![Tok::Text("LABEL "@)]).push(list.0), list.1)
        },
        _ => (seq![], h),
    }
}

/// The expression's spans lie in `s`, and a shell form ends by `end`.
pub open spec fn expr_ok(s: Seq<char>, e: ShellOrExecExpr, end: usize) -> bool {
    match e {
        ShellOrExecExpr::Shell(b) => breakable_ok(s, b) && b.span.end <= end,
        ShellOrExecExpr::Exec(a) => array_ok(s, a),
    }
}

/// `node` is an instruction whose spans lie in `s`, with the pairs of a
/// multi-value instruction in order inside its span, and its other
/// breakable strings inside it too.
pub open spec fn instruction_ok<'a>(s: Seq<char>, node: Node<'a>) -> bool {
    match node {
        Node::Arg(a) => string_ok(s, a.name) && (a.value matches Some(v) ==> string_ok(s, v)),
        Node::Cmd(c) => expr_ok(s, c.expr, c.span.end),
        Node::Entrypoint(c) => expr_ok(s, c.expr, c.span.end),
        Node::Run(c) => expr_ok(s, c.expr, c.span.end),
        Node::Copy(c) => {
            &&& forall|k: int|
                0 <= k < c.flags@.len() ==> string_ok(s, (#[trigger] c.flags@[k]).name)
                    && string_ok(s, c.flags@[k].value)
            &&& forall|k: int| 0 <= k < c.sources@.len() ==> string_ok(s, #[trigger] c.sources@[k])
            &&& string_ok(s, c.destination)
        },
        Node::From(f) => string_ok(s, f.image) && (f.alias matches Some(v) ==> string_ok(s, v)),
        Node::Misc(m) => {
            &&& string_ok(s, m.instruction)
            &&& breakable_ok(s, m.arguments)
            &&& m.arguments.span.end <= m.span.end
        },
        Node::Env(e) => {
            &&& e.span.end <= s.len()
            &&& laid_out(var_nodes(e), e.span.start as int, e.span.end as int)
            &&& parts_ok(s, var_nodes(e))
        },
        Node::Label(l) => {
            &&& l.span.end <= s.len()
            &&& laid_out(label_nodes(l), l.span.start as int, l.span.end as int)
            &&& parts_ok(s, label_nodes(l))
        },
        _ => false,
    }
}

// ---------------------------------------------------------------------------
// Generation.
// ---------------------------------------------------------------------------

/// Every node of the interleaved sequence is a found comment or one of the
/// given nodes.
pub proof fn lemma_with_comments_members<'a>(s: Seq<char>, last: int, end: int, ns: Seq<Node<'a>>)
    ensures
        forall|k: int|
            0 <= k < with_comments(s, last, end, ns).len() ==> (#[trigger] with_comments(
                s,
                last,
                end,
                ns,
            )[k] is Orphan || ns.contains(with_comments(s, last, end, ns)[k])),
    decreases ns.len(),
{
    if ns.len() > 0 {
        let rest = ns.drop_first();
        let en = ns[0].spec_span().end as int;
        lemma_with_comments_members(s, en, end, rest);
        let o = crate::context::orphans::<'a>(s, last, ns[0].spec_span().start as int);
        let r = with_comments(s, last, end, ns);
        let w = with_comments(s, en, end, rest);
        assert(r == o + seq![ns[0]] + w);
        assert forall|k: int| 0 <= k < r.len() implies (#[trigger] r[k] is Orphan || ns.contains(
            r[k],
        )) by {
            if k < o.len() {
                assert(r[k] == o[k]);
            } else if k == o.len() {
                assert(r[k] == ns[0]);
            } else {
                assert(r[k] == w[k - o.len() - 1]);
                if !(w[k - o.len() - 1] is Orphan) {
                    let j = choose|j: int| 0 <= j < rest.len() && rest[j] == w[k - o.len() - 1];
                    assert(ns[j + 1] == rest[j]);
                }
            }
        }
    }
}

/// The list entries of a multi-value instruction are generable parts.
proof fn lemma_entries_ok<'a>(s: Seq<char>, last: int, end: int, ns: Seq<Node<'a>>)
    requires
        0 <= last,
        end <= s.len(),
        end <= usize::MAX,
        laid_out(ns, last, end),
        parts_ok(s, ns),
    ensures
        parts_ok(s, with_comments(s, last, end, ns)),
        laid_out(with_comments(s, last, end, ns), last, end),
{
    crate::context::lemma_with_comments_laid_out(s, last, end, ns);
    lemma_with_comments_members(s, last, end, ns);
    let r = with_comments(s, last, end, ns);
    assert forall|k: int| 0 <= k < r.len() implies part_ok(s, #[trigger] r[k]) by {
        if !(r[k] is Orphan) {
            let j = choose|j: int| 0 <= j < ns.len() && ns[j] == r[k];
            assert(part_ok(s, ns[j]));
        }
    }
}

proof fn lemma_list_bound<'a>(
    s: Seq<char>,
    ns: Seq<Node<'a>>,
    parent: Option<Node<'a>>,
    mode: bool,
    h: Set<usize>,
    k: int,
    hi: int,
)
    requires
        parts_ok(s, ns),
        forall|j: int| 0 <= j < ns.len() ==> holds_comments_before(#[trigger] ns[j], hi),
        0 <= k <= ns.len(),
    ensures
        handled_below(h, list_values(s, ns, parent, mode, h, k).1, hi),
    decreases k,
{
    if k > 0 {
        lemma_list_bound(s, ns, parent, mode, h, k - 1, hi);
        let prev = list_values(s, ns, parent, mode, h, k - 1);
        assert(part_ok(s, ns[k - 1]));
        assert(holds_comments_before(ns[k - 1], hi));
        lemma_part_bound(s, ns[k - 1], parent, mode, prev.1, hi);
    }
}

proof fn lemma_pairs_bound<'a>(s: Seq<char>, lo: int, hi: int, ns: Seq<Node<'a>>)
    requires
        0 <= lo,
        hi <= s.len(),
        hi <= usize::MAX,
        laid_out(ns, lo, hi),
        parts_ok(s, ns),
        forall|k: int| 0 <= k < ns.len() ==> (#[trigger] ns[k] is EnvVar || ns[k] is LabelLabel),
    ensures
        parts_ok(s, with_comments(s, lo, hi, ns)),
        forall|j: int|
            0 <= j < with_comments(s, lo, hi, ns).len() ==> holds_comments_before(
                #[trigger] with_comments(s, lo, hi, ns)[j],
                hi,
            ),
{
    lemma_entries_ok(s, lo, hi, ns);
    crate::context::lemma_with_comments_orphans_nonempty(s, lo, hi, ns);
    lemma_with_comments_members(s, lo, hi, ns);
    let r = with_comments(s, lo, hi, ns);
    assert forall|j: int| 0 <= j < r.len() implies holds_comments_before(#[trigger] r[j], hi) by {
        assert(lo <= crate::context::end_before(r, lo, j) <= r[j].spec_span().start
            <= r[j].spec_span().end <= hi);
        if !(r[j] is Orphan) {
            let i = choose|i: int| 0 <= i < ns.len() && ns[i] == r[j];
            assert(ns[i] is EnvVar || ns[i] is LabelLabel);
        }
    }
}

proof fn lemma_list_handled<'a>(
    s: Seq<char>,
    ns: Seq<Node<'a>>,
    parent: Option<Node<'a>>,
    mode: bool,
    h: Set<usize>,
    lo: int,
    hi: int,
    k: int,
)
    requires
        parts_ok(s, ns),
        laid_out(ns, lo, hi),
        forall|j: int|
            0 <= j < ns.len() ==> holds_comments_before(
                #[trigger] ns[j],
                ns[j].spec_span().end as int,
            ),
        forall|x: usize| #[trigger] h.contains(x) ==> x < lo,
        0 <= k <= ns.len(),
    ensures
        forall|x: usize|
            #[trigger] list_values(s, ns, parent, mode, h, k).1.contains(x) ==> x
                < crate::context::end_before(ns, lo, k),
    decreases k,
{
    if k > 0 {
        lemma_list_handled(s, ns, parent, mode, h, lo, hi, k - 1);
        let prev = list_values(s, ns, parent, mode, h, k - 1);
        let e = ns[k - 1];
        let end = e.spec_span().end as int;
        assert(lo <= crate::context::end_before(ns, lo, k - 1) <= e.spec_span().start <= end);
        assert(part_ok(s, e));
        lemma_part_bound(s, e, parent, mode, prev.1, end);
    }
}

/// A comment among the values of a list is emitted at its place, in
/// canonical form, provided no comment at or after the list's start was
/// handled before the list: the guard against emitting a comment twice does
/// not drop it.
pub proof fn lemma_list_comment_emitted<'a>(
    s: Seq<char>,
    ns: Seq<Node<'a>>,
    parent: Option<Node<'a>>,
    mode: bool,
    h: Set<usize>,
    lo: int,
    hi: int,
    k: int,
)
    requires
        parts_ok(s, ns),
        laid_out(ns, lo, hi),
        forall|j: int|
            0 <= j < ns.len() ==> holds_comments_before(
                #[trigger] ns[j],
                ns[j].spec_span().end as int,
            ),
        forall|x: usize| #[trigger] h.contains(x) ==> x < lo,
        0 <= k < ns.len(),
        ns[k] is Orphan,
    ensures
        list_values(s, ns, parent, mode, h, ns.len() as int).0[k].items == seq![
            Tok::Text(crate::comments::normalized_comment(span_chars(s, ns[k].spec_span()))),
            Tok::ExpectNewLine,
        ],
{
    lemma_list_handled(s, ns, parent, mode, h, lo, hi, k);
    lemma_list_prefix(s, ns, parent, mode, h, k + 1, ns.len() as int);
    let prev = list_values(s, ns, parent, mode, h, k);
    let sp = ns[k].spec_span();
    assert(crate::context::end_before(ns, lo, k) <= sp.start);
    assert(!prev.1.contains(sp.start));
    assert(ns[k] == Node::<'a>::Orphan(sp));
    let out = part_out(s, ns[k], parent, mode, prev.1);
    assert(out == crate::generate::comment_out(span_chars(s, sp), sp.start, prev.1));
    assert(out.0 == seq![
        Tok::Text(crate::comments::normalized_comment(span_chars(s, sp))),
        Tok::ExpectNewLine,
    ]);
    let next = list_values(s, ns, parent, mode, h, k + 1);
    assert(next.0 == prev.0.push(
        ValueV {
            items: out.0,
            line_index: line_of(s, sp.start as int),
            continuation: k + 1 < ns.len() && !ns[k].spec_is_comment(),
            indented: k + 1 > 1,
        },
    ));
    lemma_list_values_layout(s, ns, parent, mode, h, k);
    assert(next.0[k].items == out.0);
}

proof fn lemma_list_prefix<'a>(
    s: Seq<char>,
    ns: Seq<Node<'a>>,
    parent: Option<Node<'a>>,
    mode: bool,
    h: Set<usize>,
    k: int,
    m: int,
)
    requires
        1 <= k <= m <= ns.len(),
    ensures
        list_values(s, ns, parent, mode, h, m).0[k - 1] == list_values(
            s,
            ns,
            parent,
            mode,
            h,
            k,
        ).0[k - 1],
        list_values(s, ns, parent, mode, h, m).0.len() == m,
    decreases m - k,
{
    lemma_list_values_layout(s, ns, parent, mode, h, m);
    lemma_list_values_layout(s, ns, parent, mode, h, k);
    if m > k {
        lemma_list_prefix(s, ns, parent, mode, h, k, m - 1);
        lemma_list_values_layout(s, ns, parent, mode, h, m - 1);
    }
}

/// Generating an instruction marks as handled only comments that start
/// before the instruction ends.
pub proof fn lemma_instruction_bound<'a>(s: Seq<char>, node: Node<'a>, mode: bool, h: Set<usize>)
    requires
        instruction_ok(s, node),
    ensures
        handled_below(h, instruction_out(s, node, mode, h).1, node.spec_span().end as int),
{
    let hi = node.spec_span().end as int;
    let me = Some(node);
    match node {
        Node::Cmd(c) => {
            if let ShellOrExecExpr::Shell(b) = &c.expr {
                lemma_part_bound(s, Node::BreakableString(b), me, mode, h, hi);
            }
        },
        Node::Entrypoint(c) => {
            if let ShellOrExecExpr::Shell(b) = &c.expr {
                lemma_part_bound(s, Node::BreakableString(b), me, mode, h, hi);
            }
        },
        Node::Run(c) => {
            if let ShellOrExecExpr::Shell(b) = &c.expr {
                lemma_part_bound(s, Node::BreakableString(b), me, mode, h, hi);
            }
        },
        Node::Misc(m) => {
            lemma_part_bound(s, Node::BreakableString(&m.arguments), me, mode, h, hi);
        },
        Node::Env(e) => {
            let ns = var_nodes(e);
            assert forall|k: int| 0 <= k < ns.len() implies (#[trigger] ns[k] is EnvVar
                || ns[k] is LabelLabel) by {}
            lemma_pairs_bound(s, e.span.start as int, hi, ns);
            let entries = with_comments(s, e.span.start as int, hi, ns);
            lemma_list_bound(s, entries, me, mode, h, entries.len() as int, hi);
        },
        Node::Label(l) => {
            let ns = label_nodes(l);
            assert forall|k: int| 0 <= k < ns.len() implies (#[trigger] ns[k] is EnvVar
                || ns[k] is LabelLabel) by {}
            lemma_pairs_bound(s, l.span.start as int, hi, ns);
            let entries = with_comments(s, l.span.start as int, hi, ns);
            lemma_list_bound(s, entries, me, mode, h, entries.len() as int, hi);
        },
        _ => {},
    }
}

/// Generates the values of a list: each node in turn, under the current
/// node as parent. The list is laid out one value per line when its first
/// two values started on different source lines.
pub fn gen_multi_line_items<'a>(nodes: Vec<Node<'a>>, indent_width: u32, ctx: &mut Context<'a>) -> (r: ItemList)
    requires
        old(ctx).wf(),
        parts_ok(old(ctx).src(), nodes@),
    ensures
        same_frame(*old(ctx), *final(ctx)),
        (Seg::List {
            force_use_new_lines: r.force_use_new_lines,
            indent_width: r.indent_width,
            values: r.values@.map_values(|v: ListValue| v@),
        }, final(ctx).handled_comments@) == list_seg(
            old(ctx).src(),
            nodes@,
            indent_width,
            old(ctx).current_node,
            old(ctx).gen_string_content,
            old(ctx).handled_comments@,
        ),
{
    let ghost s = ctx.src();
    let ghost parent = ctx.current_node;
    let ghost mode = ctx.gen_string_content;
    let ghost h0 = ctx.handled_comments@;
    let count = nodes.len();
    let force_use_new_lines = count > 1 && line_index(&ctx.chars, nodes[0].span().start)
        < line_index(&ctx.chars, nodes[1].span().start);
    let mut values: Vec<ListValue> = Vec::new();
    let mut i: usize = 0;
    while i < count
        invariant
            s == ctx.src(),
            same_frame(*old(ctx), *ctx),
            parent == ctx.current_node,
            mode == ctx.gen_string_content,
            parts_ok(s, nodes@),
            count == nodes@.len(),
            i <= count,
            values@.map_values(|v: ListValue| v@) == list_values(s, nodes@, parent, mode, h0, i as int).0,
            ctx.handled_comments@ == list_values(s, nodes@, parent, mode, h0, i as int).1,
        decreases count - i,
    {
        let node = nodes[i];
        assert(part_ok(s, nodes@[i as int]));
        let is_comment = node.is_comment();
        let line = line_index(&ctx.chars, node.span().start);
        let items = gen_part(node, ctx);
        let value = ListValue {
            items,
            line_index: line,
            continuation: i < count - 1 && !is_comment,
            indented: i > 0,
        };
        let ghost before = values@;
        values.push(value);
        assert(values@.map_values(|v: ListValue| v@) =~= before.map_values(|v: ListValue| v@).push(
            value@,
        ));
        i = i + 1;
    }
    ItemList { force_use_new_lines, indent_width, values }
}

/// Generates a top-level instruction; it becomes the current node while it
/// is generated.
pub fn gen_instruction<'a>(node: Node<'a>, ctx: &mut Context<'a>) -> (r: Vec<Segment>)
    requires
        old(ctx).wf(),
        instruction_ok(old(ctx).src(), node),
    ensures
        same_frame(*old(ctx), *final(ctx)),
        (segs(r@), final(ctx).handled_comments@) == instruction_out(
            old(ctx).src(),
            node,
            old(ctx).gen_string_content,
            old(ctx).handled_comments@,
        ),
{
    ctx.set_current_node(node);
    let segments = match node {
        Node::Arg(n) => gen_arg_instruction(n, ctx),
        Node::Cmd(n) => gen_cmd_instruction(n, ctx),
        Node::Copy(n) => gen_copy_instruction(n, ctx),
        Node::Entrypoint(n) => gen_entrypoint_instruction(n, ctx),
        Node::Env(n) => gen_env_instruction(n, ctx),
        Node::From(n) => gen_from_instruction(n, ctx),
        Node::Label(n) => gen_label_instruction(n, ctx),
        Node::Misc(n) => gen_misc_instruction(n, ctx),
        Node::Run(n) => gen_run_instruction(n, ctx),
        _ => Vec::new(),
    };
    ctx.pop_current_node();
    assert(ctx.parent_stack@ =~= old(ctx).parent_stack@);
    segments
}

/// The node is a top-level instruction.
pub open spec fn is_instruction<'a>(node: Node<'a>) -> bool {
    node_rank(node) == 3
}

/// The node's spans lie in `s`, as `part_ok` or `instruction_ok` asks.
pub open spec fn node_ok<'a>(s: Seq<char>, node: Node<'a>) -> bool {
    if is_instruction(node) {
        instruction_ok(s, node)
    } else {
        part_ok(s, node)
    }
}

/// What any node generates under `parent`: an instruction's segments, or
/// one segment holding what a smaller node generates.
pub open spec fn node_out<'a>(
    s: Seq<char>,
    node: Node<'a>,
    parent: Option<Node<'a>>,
    mode: bool,
    h: Set<usize>,
) -> (Seq<Seg>, Set<usize>) {
    if is_instruction(node) {
        instruction_out(s, node, mode, h)
    } else {
        let o = part_out(s, node, parent, mode, h);
        (items_seg(o.0), o.1)
    }
}

/// Generates any node: an instruction by its rule, any other node as one
/// segment of print items.
pub fn gen_node<'a>(node: Node<'a>, ctx: &mut Context<'a>) -> (r: Vec<Segment>)
    requires
        old(ctx).wf(),
        node_ok(old(ctx).src(), node),
    ensures
        same_frame(*old(ctx), *final(ctx)),
        (segs(r@), final(ctx).handled_comments@) == node_out(
            old(ctx).src(),
            node,
            old(ctx).current_node,
            old(ctx).gen_string_content,
            old(ctx).handled_comments@,
        ),
{
    match node {
        Node::Arg(_) | Node::Cmd(_) | Node::Copy(_) | Node::Entrypoint(_) | Node::Env(_)
        | Node::From(_) | Node::Label(_) | Node::Misc(_) | Node::Run(_) => gen_instruction(node, ctx),
        _ => single_segment(gen_part(node, ctx)),
    }
}

/// One segment holding `items`.
fn single_segment(items: Vec<PrintItem>) -> (r: Vec<Segment>)
    ensures
        segs(r@) == items_seg(toks(items@)),
{
    let mut out: Vec<Segment> = Vec::new();
    push_segment(&mut out, Segment::Items(items));
    assert(segs(out@) =~= items_seg(toks(items@)));
    out
}

/// `ARG name`, or `ARG name=value`.
fn gen_arg_instruction<'a>(node: &'a ArgInstruction, ctx: &mut Context<'a>) -> (r: Vec<Segment>)
    requires
        old(ctx).wf(),
        old(ctx).current_node == Some(Node::Arg(node)),
        instruction_ok(old(ctx).src(), Node::Arg(node)),
    ensures
        same_frame(*old(ctx), *final(ctx)),
        (segs(r@), final(ctx).handled_comments@) == instruction_out(
            old(ctx).src(),
            Node::Arg(node),
            old(ctx).gen_string_content,
            old(ctx).handled_comments@,
        ),
{
    let mut items: Vec<PrintItem> = Vec::new();
    push_text(&mut items, "ARG ");
    append_items(&mut items, gen_part(Node::String(&node.name), ctx));
    match &node.value {
        Some(value) => {
            push_text(&mut items, "=");
            append_items(&mut items, gen_part(Node::String(value), ctx));
        },
        None => {},
    }
    assert(toks(items@) =~= arg_items(old(ctx).src(), node, old(ctx).gen_string_content));
    single_segment(items)
}

/// A keyword, then the command in the form it was written in: the exec form
/// is never turned into the shell form, nor the other way round.
fn gen_command<'a>(keyword: &str, expr: &'a ShellOrExecExpr, end: Ghost<usize>, ctx: &mut Context<'a>) -> (r: Vec<Segment>)
    requires
        old(ctx).wf(),
        old(ctx).current_node is Some,
        expr_ok(old(ctx).src(), *expr, end@),
    ensures
        same_frame(*old(ctx), *final(ctx)),
        (segs(r@), final(ctx).handled_comments@) == command_out(
            old(ctx).src(),
            keyword@,
            expr,
            old(ctx).current_node->0,
            old(ctx).gen_string_content,
            old(ctx).handled_comments@,
        ),
{
    let mut items: Vec<PrintItem> = Vec::new();
    push_text(&mut items, keyword);
    let body = match expr {
        ShellOrExecExpr::Exec(a) => gen_part(Node::StringArray(a), ctx),
        ShellOrExecExpr::Shell(b) => gen_part(Node::BreakableString(b), ctx),
    };
    append_items(&mut items, body);
    assert(toks(items@) =~= seq![Tok::Text(keyword@)] + expr_out(
        old(ctx).src(),
        expr,
        old(ctx).current_node,
        old(ctx).gen_string_content,
        old(ctx).handled_comments@,
    ).0);
    single_segment(items)
}

/// `CMD` and its command.
fn gen_cmd_instruction<'a>(node: &'a CmdInstruction, ctx: &mut Context<'a>) -> (r: Vec<Segment>)
    requires
        old(ctx).wf(),
        old(ctx).current_node == Some(Node::Cmd(node)),
        instruction_ok(old(ctx).src(), Node::Cmd(node)),
    ensures
        same_frame(*old(ctx), *final(ctx)),
        (segs(r@), final(ctx).handled_comments@) == instruction_out(
            old(ctx).src(),
            Node::Cmd(node),
            old(ctx).gen_string_content,
            old(ctx).handled_comments@,
        ),
{
    gen_command("CMD ", &node.expr, Ghost(node.span.end), ctx)
}

/// `ENTRYPOINT` and its command.
fn gen_entrypoint_instruction<'a>(node: &'a EntrypointInstruction, ctx: &mut Context<'a>) -> (r: Vec<Segment>)
    requires
        old(ctx).wf(),
        old(ctx).current_node == Some(Node::Entrypoint(node)),
        instruction_ok(old(ctx).src(), Node::Entrypoint(node)),
    ensures
        same_frame(*old(ctx), *final(ctx)),
        (segs(r@), final(ctx).handled_comments@) == instruction_out(
            old(ctx).src(),
            Node::Entrypoint(node),
            old(ctx).gen_string_content,
            old(ctx).handled_comments@,
        ),
{
    gen_command("ENTRYPOINT ", &node.expr, Ghost(node.span.end), ctx)
}

/// `RUN` and its command.
fn gen_run_instruction<'a>(node: &'a RunInstruction, ctx: &mut Context<'a>) -> (r: Vec<Segment>)
    requires
        old(ctx).wf(),
        old(ctx).current_node == Some(Node::Run(node)),
        instruction_ok(old(ctx).src(), Node::Run(node)),
    ensures
        same_frame(*old(ctx), *final(ctx)),
        (segs(r@), final(ctx).handled_comments@) == instruction_out(
            old(ctx).src(),
            Node::Run(node),
            old(ctx).gen_string_content,
            old(ctx).handled_comments@,
        ),
{
    gen_command("RUN ", &node.expr, Ghost(node.span.end), ctx)
}

/// `COPY`, its flags, its sources, its destination, separated by spaces.
fn gen_copy_instruction<'a>(node: &'a CopyInstruction, ctx: &mut Context<'a>) -> (r: Vec<Segment>)
    requires
        old(ctx).wf(),
        old(ctx).current_node == Some(Node::Copy(node)),
        instruction_ok(old(ctx).src(), Node::Copy(node)),
    ensures
        same_frame(*old(ctx), *final(ctx)),
        (segs(r@), final(ctx).handled_comments@) == instruction_out(
            old(ctx).src(),
            Node::Copy(node),
            old(ctx).gen_string_content,
            old(ctx).handled_comments@,
        ),
{
    let ghost s = ctx.src();
    let ghost mode = ctx.gen_string_content;
    let mut items: Vec<PrintItem> = Vec::new();
    push_text(&mut items, "COPY ");
    let ghost start = toks(items@);
    let mut i: usize = 0;
    while i < node.flags.len()
        invariant
            s == ctx.src(),
            same_frame(*old(ctx), *ctx),
            ctx.handled_comments@ == old(ctx).handled_comments@,
            mode == ctx.gen_string_content,
            instruction_ok(s, Node::Copy(node)),
            i <= node.flags@.len(),
            toks(items@) == start + copy_flags_out(s, node, mode, i as int),
        decreases node.flags@.len() - i,
    {
        let flag = &node.flags[i];
        assert(string_ok(s, node.flags@[i as int].name));
        append_items(&mut items, gen_part(Node::CopyFlag(flag), ctx));
        push_text(&mut items, " ");
        assert(toks(items@) =~= start + copy_flags_out(s, node, mode, i + 1));
        i = i + 1;
    }
    let ghost middle = toks(items@);
    let mut j: usize = 0;
    while j < node.sources.len()
        invariant
            s == ctx.src(),
            same_frame(*old(ctx), *ctx),
            ctx.handled_comments@ == old(ctx).handled_comments@,
            mode == ctx.gen_string_content,
            instruction_ok(s, Node::Copy(node)),
            j <= node.sources@.len(),
            old(ctx).current_node == Some(Node::Copy(node)),
            toks(items@) == middle + copy_sources_out(s, node, mode, j as int),
        decreases node.sources@.len() - j,
    {
        let source = &node.sources[j];
        assert(string_ok(s, node.sources@[j as int]));
        let generated = gen_part(Node::String(source), ctx);
        assert(toks(generated@) == string_out(s, node.sources@[j as int], mode));
        append_items(&mut items, generated);
        push_text(&mut items, " ");
        assert(toks(items@) =~= middle + copy_sources_out(s, node, mode, j + 1));
        j = j + 1;
    }
    append_items(&mut items, gen_part(Node::String(&node.destination), ctx));
    assert(toks(items@) =~= copy_items(s, node, mode));
    single_segment(items)
}

/// `FROM image`, or `FROM image AS alias`.
fn gen_from_instruction<'a>(node: &'a FromInstruction, ctx: &mut Context<'a>) -> (r: Vec<Segment>)
    requires
        old(ctx).wf(),
        old(ctx).current_node == Some(Node::From(node)),
        instruction_ok(old(ctx).src(), Node::From(node)),
    ensures
        same_frame(*old(ctx), *final(ctx)),
        (segs(r@), final(ctx).handled_comments@) == instruction_out(
            old(ctx).src(),
            Node::From(node),
            old(ctx).gen_string_content,
            old(ctx).handled_comments@,
        ),
{
    let mut items: Vec<PrintItem> = Vec::new();
    push_text(&mut items, "FROM ");
    append_items(&mut items, gen_part(Node::String(&node.image), ctx));
    match &node.alias {
        Some(alias) => {
            push_text(&mut items, " AS ");
            append_items(&mut items, gen_part(Node::String(alias), ctx));
        },
        None => {},
    }
    assert(toks(items@) =~= from_items(old(ctx).src(), node, old(ctx).gen_string_content));
    single_segment(items)
}

/// Any other instruction: its keyword, a space, its arguments.
fn gen_misc_instruction<'a>(node: &'a MiscInstruction, ctx: &mut Context<'a>) -> (r: Vec<Segment>)
    requires
        old(ctx).wf(),
        old(ctx).current_node == Some(Node::Misc(node)),
        instruction_ok(old(ctx).src(), Node::Misc(node)),
    ensures
        same_frame(*old(ctx), *final(ctx)),
        (segs(r@), final(ctx).handled_comments@) == instruction_out(
            old(ctx).src(),
            Node::Misc(node),
            old(ctx).gen_string_content,
            old(ctx).handled_comments@,
        ),
{
    let mut items: Vec<PrintItem> = Vec::new();
    append_items(&mut items, gen_part(Node::String(&node.instruction), ctx));
    push_text(&mut items, " ");
    append_items(&mut items, gen_part(Node::BreakableString(&node.arguments), ctx));
    assert(toks(items@) =~= string_out(old(ctx).src(), node.instruction, old(ctx).gen_string_content)
        + seq![Tok::Text(" "@)] + breakable_out(
        old(ctx).src(),
        &node.arguments,
        Some(Node::Misc(node)),
        old(ctx).handled_comments@,
    ).0);
    single_segment(items)
}

/// A keyword, then the list of `nodes` with the comments among them.
fn gen_keyword_list<'a>(
    keyword: &str,
    indent_width: u32,
    start: usize,
    end: usize,
    nodes: Vec<Node<'a>>,
    ctx: &mut Context<'a>,
) -> (r: Vec<Segment>)
    requires
        old(ctx).wf(),
        end <= old(ctx).src().len(),
        laid_out(nodes@, start as int, end as int),
        parts_ok(old(ctx).src(), nodes@),
    ensures
        same_frame(*old(ctx), *final(ctx)),
        ({
            let list = list_seg(
                old(ctx).src(),
                with_comments(old(ctx).src(), start as int, end as int, nodes@),
                indent_width,
                old(ctx).current_node,
                old(ctx).gen_string_content,
                old(ctx).handled_comments@,
            );
            (segs(r@), final(ctx).handled_comments@) == (
                items_seg(seq![Tok::Text(keyword@)]).push(list.0),
                list.1,
            )
        }),
{
    proof {
        lemma_entries_ok(ctx.src(), start as int, end as int, nodes@);
    }
    let entries = ctx.parse_nodes_with_comments(start, end, nodes);
    let mut items: Vec<PrintItem> = Vec::new();
    push_text(&mut items, keyword);
    assert(toks(items@) =~= seq![Tok::Text(keyword@)]);
    let mut out = single_segment(items);
    let list = gen_multi_line_items(entries, indent_width, ctx);
    push_segment(&mut out, Segment::List(list));
    out
}

/// `ENV` and its pairs, as a list indented by the keyword's width.
fn gen_env_instruction<'a>(node: &'a EnvInstruction, ctx: &mut Context<'a>) -> (r: Vec<Segment>)
    requires
        old(ctx).wf(),
        old(ctx).current_node == Some(Node::Env(node)),
        instruction_ok(old(ctx).src(), Node::Env(node)),
    ensures
        same_frame(*old(ctx), *final(ctx)),
        (segs(r@), final(ctx).handled_comments@) == instruction_out(
            old(ctx).src(),
            Node::Env(node),
            old(ctx).gen_string_content,
            old(ctx).handled_comments@,
        ),
{
    let mut vars: Vec<Node<'a>> = Vec::new();
    let mut i: usize = 0;
    while i < node.vars.len()
        invariant
            i <= node.vars@.len(),
            vars@ == var_nodes(node).take(i as int),
        decreases node.vars@.len() - i,
    {
        vars.push(Node::EnvVar(&node.vars[i]));
        assert(var_nodes(node).take(i + 1) =~= var_nodes(node).take(i as int).push(
            Node::EnvVar(&node.vars@[i as int]),
        ));
        i = i + 1;
    }
    assert(var_nodes(node).take(i as int) =~= var_nodes(node));
    gen_keyword_list("ENV ", 4, node.span.start, node.span.end, vars, ctx)
}

/// `LABEL` and its pairs, as a list indented by the keyword's width.
fn gen_label_instruction<'a>(node: &'a LabelInstruction, ctx: &mut Context<'a>) -> (r: Vec<Segment>)
    requires
        old(ctx).wf(),
        old(ctx).current_node == Some(Node::Label(node)),
        instruction_ok(old(ctx).src(), Node::Label(node)),
    ensures
        same_frame(*old(ctx), *final(ctx)),
        (segs(r@), final(ctx).handled_comments@) == instruction_out(
            old(ctx).src(),
            Node::Label(node),
            old(ctx).gen_string_content,
            old(ctx).handled_comments@,
        ),
{
    let mut labels: Vec<Node<'a>> = Vec::new();
    let mut i: usize = 0;
    while i < node.labels.len()
        invariant
            i <= node.labels@.len(),
            labels@ == label_nodes(node).take(i as int),
        decreases node.labels@.len() - i,
    {
        labels.push(Node::LabelLabel(&node.labels[i]));
        assert(label_nodes(node).take(i + 1) =~= label_nodes(node).take(i as int).push(
            Node::LabelLabel(&node.labels@[i as int]),
        ));
        i = i + 1;
    }
    assert(label_nodes(node).take(i as int) =~= label_nodes(node));
    gen_keyword_list("LABEL ", 6, node.span.start, node.span.end, labels, ctx)
}

} // verus!
