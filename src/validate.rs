//! Checking that a tree fits the text it was parsed from, which `generate`
//! requires.
use vstd::prelude::*;
use crate::context::{end_before, laid_out};
use crate::document::{file_ok, instr_nodes};
use crate::generate::{array_ok, breakable_ok, part_ok, string_ok};
use crate::instructions::{expr_ok, instruction_ok, label_nodes, parts_ok, var_nodes};
use crate::syntax::{
    BreakableString, BreakableStringComponent, Dockerfile, Node, ShellOrExecExpr, Span,
    SpannedString, StringArray,
};
use vstd::string::*;

verus! {

fn span_ok(sp: Span, len: usize) -> (r: bool)
    ensures
        r == sp.within(len as nat),
{
    sp.start <= sp.end && sp.end <= len
}

fn check_string(n: &SpannedString, len: usize, s: Ghost<Seq<char>>) -> (r: bool)
    requires
        s@.len() == len,
    ensures
        r == string_ok(s@, *n),
{
    span_ok(n.span, len)
}

fn check_breakable(b: &BreakableString, len: usize, s: Ghost<Seq<char>>) -> (r: bool)
    requires
        s@.len() == len,
    ensures
        r == breakable_ok(s@, *b),
{
    if !span_ok(b.span, len) {
        return false;
    }
    let mut i: usize = 0;
    while i < b.components.len()
        invariant
            s@.len() == len,
            b.span.within(len as nat),
            i <= b.components@.len(),
            forall|k: int|
                0 <= k < i ==> match #[trigger] b.components@[k] {
                    BreakableStringComponent::String(n) => string_ok(s@, n),
                    BreakableStringComponent::Comment(c) => b.span.start <= c.span.start
                        < b.span.end,
                },
        decreases b.components@.len() - i,
    {
        let ok = match &b.components[i] {
            BreakableStringComponent::String(n) => check_string(n, len, s),
            BreakableStringComponent::Comment(c) => b.span.start <= c.span.start && c.span.start
                < b.span.end,
        };
        if !ok {
            return false;
        }
        i = i + 1;
    }
    true
}

fn check_array(a: &StringArray, len: usize, s: Ghost<Seq<char>>) -> (r: bool)
    requires
        s@.len() == len,
    ensures
        r == array_ok(s@, *a),
{
    let mut i: usize = 0;
    while i < a.elements.len()
        invariant
            s@.len() == len,
            i <= a.elements@.len(),
            forall|k: int| 0 <= k < i ==> string_ok(s@, #[trigger] a.elements@[k]),
        decreases a.elements@.len() - i,
    {
        if !check_string(&a.elements[i], len, s) {
            return false;
        }
        i = i + 1;
    }
    true
}

fn check_expr(e: &ShellOrExecExpr, end: usize, len: usize, s: Ghost<Seq<char>>) -> (r: bool)
    requires
        s@.len() == len,
    ensures
        r == expr_ok(s@, *e, end),
{
    match e {
        ShellOrExecExpr::Shell(b) => check_breakable(b, len, s) && b.span.end <= end,
        ShellOrExecExpr::Exec(a) => check_array(a, len, s),
    }
}

/// Whether `nodes` follow each other without overlap inside `[lo, hi]`.
fn check_laid_out<'a>(nodes: &Vec<Node<'a>>, lo: usize, hi: usize) -> (r: bool)
    ensures
        r == laid_out(nodes@, lo as int, hi as int),
{
    if lo > hi {
        return false;
    }
    let mut last = lo;
    let mut i: usize = 0;
    while i < nodes.len()
        invariant
            lo <= hi,
            i <= nodes@.len(),
            last == end_before(nodes@, lo as int, i as int),
            lo <= last <= hi,
            forall|k: int|
                0 <= k < i ==> lo <= end_before(nodes@, lo as int, k) <= (#[trigger] nodes@[k]).spec_span().start
                    <= nodes@[k].spec_span().end <= hi,
        decreases nodes@.len() - i,
    {
        let sp = nodes[i].span();
        if !(last <= sp.start && sp.start <= sp.end && sp.end <= hi) {
            return false;
        }
        last = sp.end;
        i = i + 1;
    }
    true
}

/// Whether the pairs `nodes` are generable parts in a text of `len`.
fn check_pairs<'a>(nodes: &Vec<Node<'a>>, len: usize, s: Ghost<Seq<char>>) -> (r: bool)
    requires
        s@.len() == len,
        forall|k: int| 0 <= k < nodes@.len() ==> (#[trigger] nodes@[k] is EnvVar || nodes@[k] is LabelLabel),
    ensures
        r == parts_ok(s@, nodes@),
{
    let mut i: usize = 0;
    while i < nodes.len()
        invariant
            s@.len() == len,
            i <= nodes@.len(),
            forall|k: int| 0 <= k < nodes@.len() ==> (#[trigger] nodes@[k] is EnvVar || nodes@[k] is LabelLabel),
            forall|k: int| 0 <= k < i ==> part_ok(s@, #[trigger] nodes@[k]),
        decreases nodes@.len() - i,
    {
        let ok = match nodes[i] {
            Node::EnvVar(v) => check_string(&v.key, len, s) && check_breakable(&v.value, len, s)
                && v.value.span.end <= v.span.end,
            Node::LabelLabel(l) => check_string(&l.name, len, s) && check_string(&l.value, len, s),
            _ => false,
        };
        if !ok {
            return false;
        }
        i = i + 1;
    }
    true
}

fn check_instruction<'a>(node: Node<'a>, len: usize, s: Ghost<Seq<char>>) -> (r: bool)
    requires
        s@.len() == len,
    ensures
        r == instruction_ok(s@, node),
{
    match node {
        Node::Arg(a) => check_string(&a.name, len, s) && match &a.value {
            Some(v) => check_string(v, len, s),
            None => true,
        },
        Node::Cmd(c) => check_expr(&c.expr, c.span.end, len, s),
        Node::Entrypoint(c) => check_expr(&c.expr, c.span.end, len, s),
        Node::Run(c) => check_expr(&c.expr, c.span.end, len, s),
        Node::Copy(c) => {
            let mut i: usize = 0;
            while i < c.flags.len()
                invariant
                    s@.len() == len,
                    node == Node::Copy(c),
                    i <= c.flags@.len(),
                    forall|k: int|
                        0 <= k < i ==> string_ok(s@, (#[trigger] c.flags@[k]).name) && string_ok(
                            s@,
                            c.flags@[k].value,
                        ),
                decreases c.flags@.len() - i,
            {
                if !(check_string(&c.flags[i].name, len, s) && check_string(&c.flags[i].value, len, s)) {
                    return false;
                }
                i = i + 1;
            }
            let mut j: usize = 0;
            while j < c.sources.len()
                invariant
                    s@.len() == len,
                    node == Node::Copy(c),
                    j <= c.sources@.len(),
                    forall|k: int| 0 <= k < j ==> string_ok(s@, #[trigger] c.sources@[k]),
                decreases c.sources@.len() - j,
            {
                if !check_string(&c.sources[j], len, s) {
                    return false;
                }
                j = j + 1;
            }
            check_string(&c.destination, len, s)
        },
        Node::From(f) => check_string(&f.image, len, s) && match &f.alias {
            Some(v) => check_string(v, len, s),
            None => true,
        },
        Node::Misc(m) => check_string(&m.instruction, len, s) && check_breakable(&m.arguments, len, s)
            && m.arguments.span.end <= m.span.end,
        Node::Env(e) => {
            let mut vars: Vec<Node<'a>> = Vec::new();
            let mut i: usize = 0;
            while i < e.vars.len()
                invariant
                    i <= e.vars@.len(),
                    vars@ == var_nodes(e).take(i as int),
                decreases e.vars@.len() - i,
            {
                vars.push(Node::EnvVar(&e.vars[i]));
                assert(var_nodes(e).take(i + 1) =~= var_nodes(e).take(i as int).push(
                    Node::EnvVar(&e.vars@[i as int]),
                ));
                i = i + 1;
            }
            assert(var_nodes(e).take(i as int) =~= var_nodes(e));
            e.span.end <= len && check_laid_out(&vars, e.span.start, e.span.end) && check_pairs(&vars, len, s)
        },
        Node::Label(l) => {
            let mut labels: Vec<Node<'a>> = Vec::new();
            let mut i: usize = 0;
            while i < l.labels.len()
                invariant
                    i <= l.labels@.len(),
                    labels@ == label_nodes(l).take(i as int),
                decreases l.labels@.len() - i,
            {
                labels.push(Node::LabelLabel(&l.labels[i]));
                assert(label_nodes(l).take(i + 1) =~= label_nodes(l).take(i as int).push(
                    Node::LabelLabel(&l.labels@[i as int]),
                ));
                i = i + 1;
            }
            assert(label_nodes(l).take(i as int) =~= label_nodes(l));
            l.span.end <= len && check_laid_out(&labels, l.span.start, l.span.end) && check_pairs(
                &labels,
                len,
                s,
            )
        },
        _ => false,
    }
}

/// Whether `file` fits `text`: its instructions follow each other in it,
/// and all its spans lie in it. This is what `generate` requires.
pub fn is_well_formed<'a>(file: &'a Dockerfile, text: &'a str) -> (r: bool)
    ensures
        r == file_ok(text@, file),
{
    let len = text.unicode_len();
    let ghost s = text@;
    let mut nodes: Vec<Node<'a>> = Vec::new();
    let mut i: usize = 0;
    while i < file.instructions.len()
        invariant
            s == text@,
            len == s.len(),
            i <= file.instructions@.len(),
            nodes@ == instr_nodes(file).take(i as int),
            forall|k: int| 0 <= k < i ==> instruction_ok(s, #[trigger] instr_nodes(file)[k]),
        decreases file.instructions@.len() - i,
    {
        let node = Node::from_instruction(&file.instructions[i]);
        assert(instr_nodes(file)[i as int] == node);
        if !check_instruction(node, len, Ghost(s)) {
            return false;
        }
        nodes.push(node);
        assert(instr_nodes(file).take(i + 1) =~= instr_nodes(file).take(i as int).push(node));
        i = i + 1;
    }
    assert(instr_nodes(file).take(i as int) =~= instr_nodes(file));
    check_laid_out(&nodes, 0, len)
}

} // verus!
