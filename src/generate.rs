//! The node generator: from syntax nodes and the source text to print items.
use vstd::prelude::*;
use crate::comments::{gen_comment_text, normalized_comment};
use crate::context::{span_chars, Context};
use crate::print_items::{append_items, push_item, push_text, toks, PrintItem, Tok};
use crate::syntax::{
    BreakableString, BreakableStringComponent, CopyFlag, EnvVar, Label, Node, SpannedString,
    StringArray,
};
use crate::text::{is_ws, lemma_trim_last, skip_ws_backward, skip_ws_forward, trim};
use vstd::string::*;

verus! {

broadcast use vstd::std_specs::hash::group_hash_axioms;

// ---------------------------------------------------------------------------
// What each node generates.
// ---------------------------------------------------------------------------

/// The text a string gives: its content as it stands inside a quoted value;
/// otherwise its source text with leading and trailing whitespace trimmed.
/// The first line of a breakable string is trimmed at both ends too: the
/// separator after it puts back the one space it needs.
pub open spec fn string_text(s: Seq<char>, n: SpannedString, mode: bool) -> Seq<char> {
    if mode {
        n.content@
    } else {
        trim(span_chars(s, n.span))
    }
}

/// What a string generates.
pub open spec fn string_out(s: Seq<char>, n: SpannedString, mode: bool) -> Seq<Tok> {
    seq![Tok::RawText(string_text(s, n, mode))]
}

/// What the comment with `text` starting at `start` generates, and the
/// handled comments after it: nothing when it was handled already.
pub open spec fn comment_out(text: Seq<char>, start: usize, h: Set<usize>) -> (Seq<Tok>, Set<usize>) {
    if h.contains(start) {
        (seq![], h)
    } else {
        (seq![Tok::Text(normalized_comment(text)), Tok::ExpectNewLine], h.insert(start))
    }
}

/// Whether a breakable string is written between double quotes: when its
/// source starts with one, or when it is the value of an `ENV` pair and
/// holds a space.
pub open spec fn uses_quotes<'a>(s: Seq<char>, b: BreakableString, parent: Option<Node<'a>>) -> bool {
    let t = span_chars(s, b.span);
    ||| t.len() > 0 && t[0] == '"'
    ||| parent is Some && parent->0 is EnvVar && t.contains(' ')
}

/// What follows a component that is not the last one: after a string, a
/// backslash, preceded by a space when the value is unquoted and the
/// string's content ends in one; then, in every case, a line break.
pub open spec fn separator_after(c: BreakableStringComponent, quoted: bool) -> Seq<Tok> {
    match c {
        BreakableStringComponent::String(t) => if !quoted && t.content@.len() > 0
            && t.content@.last() == ' ' {
            seq![Tok::Text(" \\"@), Tok::NewLine]
        } else {
            seq![Tok::Text("\\"@), Tok::NewLine]
        },
        BreakableStringComponent::Comment(_) => seq![Tok::NewLine],
    }
}

/// What one component of `b` generates.
pub open spec fn component_out<'a>(
    s: Seq<char>,
    b: &'a BreakableString,
    c: BreakableStringComponent,
    quoted: bool,
    h: Set<usize>,
) -> (Seq<Tok>, Set<usize>) {
    match c {
        BreakableStringComponent::String(n) => (
            string_out(s, n, quoted),
            h,
        ),
        BreakableStringComponent::Comment(m) => comment_out(m.content@, m.span.start, h),
    }
}

/// What the first `k` components of `b` generate, with their separators.
pub open spec fn components_out<'a>(
    s: Seq<char>,
    b: &'a BreakableString,
    quoted: bool,
    h: Set<usize>,
    k: int,
) -> (Seq<Tok>, Set<usize>)
    decreases k,
{
    if k <= 0 {
        (seq![], h)
    } else {
        let prev = components_out(s, b, quoted, h, k - 1);
        let c = b.components@[k - 1];
        let cur = component_out(s, b, c, quoted, prev.1);
        let sep = if k < b.components@.len() {
            separator_after(c, quoted)
        } else {
            seq![]
        };
        (prev.0 + cur.0 + sep, cur.1)
    }
}

/// The first line of an unquoted breakable string that goes on, when its
/// content ends in a space, comes out as its text with no whitespace at
/// either end, then ` \` (one space and a backslash), then a line break: one
/// space before the backslash however many the source had, so that
/// formatting again changes nothing there.
pub proof fn lemma_first_line_single_space<'a>(s: Seq<char>, b: &'a BreakableString, h: Set<usize>)
    requires
        b.components@.len() > 1,
        b.components@[0] matches BreakableStringComponent::String(n) && n.content@.len() > 0
            && n.content@.last() == ' ' && trim(span_chars(s, n.span)).len() > 0,
    ensures
        ({
            let t = string_text(s, b.components@[0]->String_0, false);
            &&& components_out(s, b, false, h, 1).0 == seq![
                Tok::RawText(t),
                Tok::Text(" \\"@),
                Tok::NewLine,
            ]
            &&& " \\"@ == seq![' ', '\\']
            &&& t.len() > 0
            &&& !is_ws(t[0])
            &&& !is_ws(t.last())
        }),
{
    let n = b.components@[0]->String_0;
    lemma_trim_last(span_chars(s, n.span));
    reveal_strlit(" \\");
    let c = b.components@[0];
    assert(components_out(s, b, false, h, 0) == (Seq::<Tok>::empty(), h));
    assert(component_out(s, b, c, false, h).0 == string_out(s, n, false));
    assert(separator_after(c, false) == seq![Tok::Text(" \\"@), Tok::NewLine]);
    assert(components_out(s, b, false, h, 1).0 =~= seq![
        Tok::RawText(string_text(s, n, false)),
        Tok::Text(" \\"@),
        Tok::NewLine,
    ]);
}

/// What a breakable string generates.
pub open spec fn breakable_out<'a>(
    s: Seq<char>,
    b: &'a BreakableString,
    parent: Option<Node<'a>>,
    h: Set<usize>,
) -> (Seq<Tok>, Set<usize>) {
    let q = uses_quotes(s, *b, parent);
    let body = components_out(s, b, q, h, b.components@.len() as int);
    let quote: Seq<Tok> = if q {
        seq![Tok::Text("\""@)]
    } else {
        seq![]
    };
    (quote + body.0 + quote, body.1)
}

/// What the first `k` elements of an array generate, with `, ` between them.
pub open spec fn elements_out<'a>(s: Seq<char>, a: &'a StringArray, mode: bool, k: int) -> Seq<Tok>
    decreases k,
{
    if k <= 0 {
        seq![]
    } else {
        elements_out(s, a, mode, k - 1) + string_out(s, a.elements@[k - 1], mode) + if k < a.elements@.len() {
            seq![Tok::Text(", "@)]
        } else {
            seq![]
        }
    }
}

/// What an array generates: its elements, always on one line.
pub open spec fn array_out<'a>(s: Seq<char>, a: &'a StringArray, mode: bool) -> Seq<Tok> {
    seq![Tok::Text("["@)] + elements_out(s, a, mode, a.elements@.len() as int) + seq![
        Tok::Text("]"@),
    ]
}

/// What a `--name=value` flag generates.
pub open spec fn copy_flag_out<'a>(s: Seq<char>, f: &'a CopyFlag, mode: bool) -> Seq<Tok> {
    let p = Some(Node::CopyFlag(f));
    seq![Tok::Text("--"@)] + string_out(s, f.name, mode) + seq![Tok::Text("="@)] + string_out(s, f.value, mode)
}

/// What an `ENV` pair generates.
pub open spec fn env_var_out<'a>(s: Seq<char>, v: &'a EnvVar, mode: bool, h: Set<usize>) -> (
    Seq<Tok>,
    Set<usize>,
) {
    let p = Some(Node::EnvVar(v));
    let value = breakable_out(s, &v.value, p, h);
    (string_out(s, v.key, mode) + seq![Tok::Text("="@)] + value.0, value.1)
}

/// What a `LABEL` pair generates.
pub open spec fn label_out<'a>(s: Seq<char>, l: &'a Label, mode: bool) -> Seq<Tok> {
    let p = Some(Node::LabelLabel(l));
    string_out(s, l.name, mode) + seq![Tok::Text("="@)] + string_out(s, l.value, mode)
}

/// What a node below the instruction level generates under `parent`, with
/// the string-content flag `mode` and the handled comments `h`; and the
/// handled comments after it.
pub open spec fn part_out<'a>(
    s: Seq<char>,
    node: Node<'a>,
    parent: Option<Node<'a>>,
    mode: bool,
    h: Set<usize>,
) -> (Seq<Tok>, Set<usize>) {
    match node {
        Node::String(n) => (string_out(s, *n, mode), h),
        Node::Comment(c) => comment_out(c.content@, c.span.start, h),
        Node::Orphan(sp) => comment_out(span_chars(s, sp), sp.start, h),
        Node::BreakableString(b) => breakable_out(s, b, parent, h),
        Node::StringArray(a) => (array_out(s, a, mode), h),
        Node::CopyFlag(f) => (copy_flag_out(s, f, mode), h),
        Node::EnvVar(v) => env_var_out(s, v, mode, h),
        Node::LabelLabel(l) => (label_out(s, l, mode), h),
        _ => (seq![], h),
    }
}

/// A comment is emitted at most once: after it was emitted, a comment that
/// starts at the same offset emits nothing, whatever its text.
pub proof fn lemma_comment_emitted_once(first: Seq<char>, again: Seq<char>, start: usize, h: Set<usize>)
    ensures
        comment_out(again, start, comment_out(first, start, h).1).0 == Seq::<Tok>::empty(),
        comment_out(again, start, comment_out(first, start, h).1).1 == comment_out(
            first,
            start,
            h,
        ).1,
{
}

/// Going from the handled comments `h` to `h2` added only offsets below `hi`.
pub open spec fn handled_below(h: Set<usize>, h2: Set<usize>, hi: int) -> bool {
    forall|x: usize| #[trigger] h2.contains(x) ==> h.contains(x) || x < hi
}

/// Where a node ends, for the comments it may hold: the end of a breakable
/// string or a pair, just past the start of a comment.
pub open spec fn holds_comments_before<'a>(node: Node<'a>, hi: int) -> bool {
    match node {
        Node::BreakableString(b) => b.span.end <= hi,
        Node::EnvVar(v) => v.span.end <= hi,
        Node::Orphan(sp) => sp.start < hi,
        Node::Comment(c) => c.span.start < hi,
        _ => true,
    }
}

proof fn lemma_components_bound<'a>(
    s: Seq<char>,
    b: &'a BreakableString,
    quoted: bool,
    h: Set<usize>,
    k: int,
    hi: int,
)
    requires
        breakable_ok(s, *b),
        b.span.end <= hi,
        0 <= k <= b.components@.len(),
    ensures
        handled_below(h, components_out(s, b, quoted, h, k).1, hi),
    decreases k,
{
    if k > 0 {
        lemma_components_bound(s, b, quoted, h, k - 1, hi);
        let c = b.components@[k - 1];
        assert(match c {
            BreakableStringComponent::String(n) => string_ok(s, n),
            BreakableStringComponent::Comment(m) => b.span.start <= m.span.start < b.span.end,
        });
    }
}

/// Generating a node marks as handled only comments that start before the
/// node ends.
pub proof fn lemma_part_bound<'a>(
    s: Seq<char>,
    node: Node<'a>,
    parent: Option<Node<'a>>,
    mode: bool,
    h: Set<usize>,
    hi: int,
)
    requires
        part_ok(s, node),
        holds_comments_before(node, hi),
    ensures
        handled_below(h, part_out(s, node, parent, mode, h).1, hi),
{
    match node {
        Node::BreakableString(b) => {
            lemma_components_bound(s, b, uses_quotes(s, *b, parent), h, b.components@.len() as int, hi);
        },
        Node::EnvVar(v) => {
            let p = Some(Node::EnvVar(v));
            lemma_components_bound(
                s,
                &v.value,
                uses_quotes(s, v.value, p),
                h,
                v.value.components@.len() as int,
                hi,
            );
        },
        _ => {},
    }
}

// ---------------------------------------------------------------------------
// What a node needs of the source text.
// ---------------------------------------------------------------------------

/// The string's span lies in `s`.
pub open spec fn string_ok(s: Seq<char>, n: SpannedString) -> bool {
    n.span.within(s.len())
}

/// The breakable string's span, and those of its lines, lie in `s`; its
/// comment lines start inside it.
pub open spec fn breakable_ok(s: Seq<char>, b: BreakableString) -> bool {
    &&& b.span.within(s.len())
    &&& forall|k: int|
        0 <= k < b.components@.len() ==> match #[trigger] b.components@[k] {
            BreakableStringComponent::String(n) => string_ok(s, n),
            BreakableStringComponent::Comment(c) => b.span.start <= c.span.start < b.span.end,
        }
}

/// The spans of the array's elements lie in `s`.
pub open spec fn array_ok(s: Seq<char>, a: StringArray) -> bool {
    forall|k: int| 0 <= k < a.elements@.len() ==> string_ok(s, #[trigger] a.elements@[k])
}

/// `node` is a node below the instruction level whose spans lie in `s`.
pub open spec fn part_ok<'a>(s: Seq<char>, node: Node<'a>) -> bool {
    match node {
        Node::String(n) => string_ok(s, *n),
        Node::Comment(_) => true,
        Node::Orphan(sp) => sp.within(s.len()),
        Node::BreakableString(b) => breakable_ok(s, *b),
        Node::StringArray(a) => array_ok(s, *a),
        Node::CopyFlag(f) => string_ok(s, f.name) && string_ok(s, f.value),
        Node::EnvVar(v) => string_ok(s, v.key) && breakable_ok(s, v.value) && v.value.span.end
            <= v.span.end,
        Node::LabelLabel(l) => string_ok(s, l.name) && string_ok(s, l.value),
        _ => false,
    }
}

/// How deep below it a node's descendants go.
pub open spec fn node_rank<'a>(node: Node<'a>) -> nat {
    match node {
        Node::String(_) | Node::Comment(_) | Node::Orphan(_) => 0,
        Node::BreakableString(_) | Node::StringArray(_) => 1,
        Node::CopyFlag(_) | Node::EnvVar(_) | Node::LabelLabel(_) => 2,
        _ => 3,
    }
}

/// `b` is `a` after a generation step: only the handled comments changed.
pub open spec fn same_frame<'a>(a: Context<'a>, b: Context<'a>) -> bool {
    &&& b.wf()
    &&& b.text == a.text
    &&& b.chars == a.chars
    &&& b.current_node == a.current_node
    &&& b.parent_stack@ == a.parent_stack@
    &&& b.gen_string_content == a.gen_string_content
}

// ---------------------------------------------------------------------------
// Generation.
// ---------------------------------------------------------------------------

/// Generates a node below the instruction level; the node becomes current
/// while it is generated, under the current node as its parent. `gen_node`
/// takes any node.
pub fn gen_part<'a>(node: Node<'a>, ctx: &mut Context<'a>) -> (r: Vec<PrintItem>)
    requires
        old(ctx).wf(),
        part_ok(old(ctx).src(), node),
    ensures
        same_frame(*old(ctx), *final(ctx)),
        (toks(r@), final(ctx).handled_comments@) == part_out(
            old(ctx).src(),
            node,
            old(ctx).current_node,
            old(ctx).gen_string_content,
            old(ctx).handled_comments@,
        ),
    decreases node_rank(node), 1nat,
{
    ctx.set_current_node(node);
    let items = match node {
        Node::String(n) => gen_string(n, ctx),
        Node::Comment(c) => gen_comment(c.content.as_str(), c.span.start, ctx),
        Node::Orphan(sp) => {
            let text = ctx.span_text(&sp);
            gen_comment(text, sp.start, ctx)
        },
        Node::BreakableString(b) => gen_breakable_string(b, ctx),
        Node::StringArray(a) => gen_string_array(a, ctx),
        Node::CopyFlag(f) => gen_copy_flag(f, ctx),
        Node::EnvVar(v) => gen_env_var(v, ctx),
        Node::LabelLabel(l) => gen_label(l, ctx),
        _ => Vec::new(),
    };
    ctx.pop_current_node();
    assert(ctx.parent_stack@ =~= old(ctx).parent_stack@);
    items
}

/// The string's text: see `string_text`.
fn gen_string<'a>(node: &'a SpannedString, ctx: &mut Context<'a>) -> (r: Vec<PrintItem>)
    requires
        old(ctx).wf(),
        string_ok(old(ctx).src(), *node),
    ensures
        same_frame(*old(ctx), *final(ctx)),
        final(ctx).handled_comments@ == old(ctx).handled_comments@,
        toks(r@) == string_out(old(ctx).src(), *node, old(ctx).gen_string_content),
{
    let text = if ctx.gen_string_content {
        node.content.clone()
    } else {
        let start = skip_ws_forward(&ctx.chars, node.span.start, node.span.end);
        let end = skip_ws_backward(&ctx.chars, start, node.span.end);
        String::from_str(ctx.text.substring_char(start, end))
    };
    let mut items: Vec<PrintItem> = Vec::new();
    push_item(&mut items, PrintItem::RawText(text));
    assert(toks(items@) =~= string_out(old(ctx).src(), *node, old(ctx).gen_string_content));
    items
}

/// The comment's canonical text and a new line, unless the comment starting
/// at `start` was generated already.
fn gen_comment<'a>(text: &str, start: usize, ctx: &mut Context<'a>) -> (r: Vec<PrintItem>)
    requires
        old(ctx).wf(),
    ensures
        same_frame(*old(ctx), *final(ctx)),
        (toks(r@), final(ctx).handled_comments@) == comment_out(
            text@,
            start,
            old(ctx).handled_comments@,
        ),
{
    let mut items: Vec<PrintItem> = Vec::new();
    if !ctx.handled_comments.insert(start) {
        assert(toks(items@) =~= seq![]);
        return items;
    }
    push_item(&mut items, PrintItem::Text(gen_comment_text(text)));
    push_item(&mut items, PrintItem::ExpectNewLine);
    items
}

/// Whether `c` occurs in `[from, to)` of `v`.
fn has_char(v: &Vec<char>, from: usize, to: usize, c: char) -> (r: bool)
    requires
        from <= to <= v@.len(),
    ensures
        r == v@.subrange(from as int, to as int).contains(c),
{
    let mut i = from;
    while i < to
        invariant
            from <= i <= to <= v@.len(),
            !v@.subrange(from as int, i as int).contains(c),
        decreases to - i,
    {
        if v[i] == c {
            assert(v@.subrange(from as int, to as int)[i - from] == c);
            return true;
        }
        assert(v@.subrange(from as int, i + 1) =~= v@.subrange(from as int, i as int).push(v@[i as int]));
        i = i + 1;
    }
    false
}

/// Whether `s` ends with a space.
fn ends_with_space(s: &String) -> (r: bool)
    ensures
        r == (s@.len() > 0 && s@.last() == ' '),
{
    let t = s.as_str();
    let n = t.unicode_len();
    n > 0 && t.get_char(n - 1) == ' '
}

/// A breakable string: its components, each line but the last ended with a
/// backslash, quoted where `uses_quotes` says so.
fn gen_breakable_string<'a>(node: &'a BreakableString, ctx: &mut Context<'a>) -> (r: Vec<PrintItem>)
    requires
        old(ctx).wf(),
        old(ctx).current_node == Some(Node::BreakableString(node)),
        breakable_ok(old(ctx).src(), *node),
    ensures
        same_frame(*old(ctx), *final(ctx)),
        (toks(r@), final(ctx).handled_comments@) == breakable_out(
            old(ctx).src(),
            node,
            old(ctx).spec_parent(),
            old(ctx).handled_comments@,
        ),
    decreases 1nat, 0nat,
{
    let ghost s = ctx.src();
    let ghost parent = ctx.spec_parent();
    let is_parent_env_var = match ctx.parent() {
        Some(Node::EnvVar(_)) => true,
        _ => false,
    };
    let is_quoted = node.span.start < node.span.end && ctx.chars[node.span.start] == '"';
    let use_quotes = is_quoted || is_parent_env_var && has_char(
        &ctx.chars,
        node.span.start,
        node.span.end,
        ' ',
    );
    proof {
        let t = span_chars(s, node.span);
        if t.len() > 0 {
            assert(t[0] == s[node.span.start as int]);
        }
    }
    assert(use_quotes == uses_quotes(s, *node, parent));
    let previous_gen_string_content = ctx.gen_string_content;
    ctx.gen_string_content = use_quotes;
    let mut items: Vec<PrintItem> = Vec::new();
    if use_quotes {
        push_text(&mut items, "\"");
    }
    let ghost prefix = toks(items@);
    let ghost h0 = old(ctx).handled_comments@;
    let n = node.components.len();
    let mut i: usize = 0;
    while i < n
        invariant
            s == ctx.src(),
            ctx.wf(),
            ctx.text == old(ctx).text,
            ctx.chars == old(ctx).chars,
            ctx.current_node == old(ctx).current_node,
            ctx.parent_stack@ == old(ctx).parent_stack@,
            ctx.gen_string_content == use_quotes,
            old(ctx).current_node == Some(Node::BreakableString(node)),
            breakable_ok(s, *node),
            n == node.components@.len(),
            i <= n,
            (toks(items@), ctx.handled_comments@) == (
                prefix + components_out(s, node, use_quotes, h0, i as int).0,
                components_out(s, node, use_quotes, h0, i as int).1,
            ),
        decreases n - i,
    {
        let component = &node.components[i];
        let part = Node::from_component(component);
        assert(part_ok(s, part)) by {
            assert(node.components@[i as int] == *component);
        }
        let generated = gen_part(part, ctx);
        append_items(&mut items, generated);
        if i < n - 1 {
            match component {
                BreakableStringComponent::String(text) => {
                    if !use_quotes && ends_with_space(&text.content) {
                        push_text(&mut items, " \\");
                    } else {
                        push_text(&mut items, "\\");
                    }
                },
                _ => {},
            }
            push_item(&mut items, PrintItem::NewLine);
        }
        proof {
            let prev = components_out(s, node, use_quotes, h0, i as int);
            let cur = component_out(s, node, *component, use_quotes, prev.1);
            assert(part_out(s, part, Some(Node::BreakableString(node)), use_quotes, prev.1) == cur);
            assert(toks(items@) =~= prefix + components_out(s, node, use_quotes, h0, i + 1).0);
        }
        i = i + 1;
    }
    if use_quotes {
        push_text(&mut items, "\"");
    }
    ctx.gen_string_content = previous_gen_string_content;
    assert(toks(items@) =~= breakable_out(s, node, parent, h0).0);
    items
}

/// An array: `[`, its elements separated by `, `, then `]`.
fn gen_string_array<'a>(node: &'a StringArray, ctx: &mut Context<'a>) -> (r: Vec<PrintItem>)
    requires
        old(ctx).wf(),
        old(ctx).current_node == Some(Node::StringArray(node)),
        array_ok(old(ctx).src(), *node),
    ensures
        same_frame(*old(ctx), *final(ctx)),
        final(ctx).handled_comments@ == old(ctx).handled_comments@,
        toks(r@) == array_out(old(ctx).src(), node, old(ctx).gen_string_content),
    decreases 1nat, 0nat,
{
    let ghost s = ctx.src();
    let mode = ctx.gen_string_content;
    let mut items: Vec<PrintItem> = Vec::new();
    push_text(&mut items, "[");
    let ghost prefix = toks(items@);
    let n = node.elements.len();
    let mut i: usize = 0;
    while i < n
        invariant
            s == ctx.src(),
            ctx.wf(),
            ctx.text == old(ctx).text,
            ctx.chars == old(ctx).chars,
            ctx.current_node == old(ctx).current_node,
            ctx.parent_stack@ == old(ctx).parent_stack@,
            ctx.gen_string_content == mode,
            mode == old(ctx).gen_string_content,
            ctx.handled_comments@ == old(ctx).handled_comments@,
            old(ctx).current_node == Some(Node::StringArray(node)),
            array_ok(s, *node),
            n == node.elements@.len(),
            i <= n,
            toks(items@) == prefix + elements_out(s, node, mode, i as int),
        decreases n - i,
    {
        let element = &node.elements[i];
        assert(string_ok(s, node.elements@[i as int]));
        let generated = gen_part(Node::String(element), ctx);
        append_items(&mut items, generated);
        if i < n - 1 {
            push_text(&mut items, ", ");
        }
        assert(toks(items@) =~= prefix + elements_out(s, node, mode, i + 1));
        i = i + 1;
    }
    push_text(&mut items, "]");
    assert(toks(items@) =~= array_out(s, node, mode));
    items
}

/// A `--name=value` flag, without spaces.
fn gen_copy_flag<'a>(node: &'a CopyFlag, ctx: &mut Context<'a>) -> (r: Vec<PrintItem>)
    requires
        old(ctx).wf(),
        old(ctx).current_node == Some(Node::CopyFlag(node)),
        string_ok(old(ctx).src(), node.name),
        string_ok(old(ctx).src(), node.value),
    ensures
        same_frame(*old(ctx), *final(ctx)),
        final(ctx).handled_comments@ == old(ctx).handled_comments@,
        toks(r@) == copy_flag_out(old(ctx).src(), node, old(ctx).gen_string_content),
    decreases 2nat, 0nat,
{
    let mut items: Vec<PrintItem> = Vec::new();
    push_text(&mut items, "--");
    append_items(&mut items, gen_part(Node::String(&node.name), ctx));
    push_text(&mut items, "=");
    append_items(&mut items, gen_part(Node::String(&node.value), ctx));
    assert(toks(items@) =~= copy_flag_out(old(ctx).src(), node, old(ctx).gen_string_content));
    items
}

/// An `ENV` pair: `key=value`.
fn gen_env_var<'a>(node: &'a EnvVar, ctx: &mut Context<'a>) -> (r: Vec<PrintItem>)
    requires
        old(ctx).wf(),
        old(ctx).current_node == Some(Node::EnvVar(node)),
        string_ok(old(ctx).src(), node.key),
        breakable_ok(old(ctx).src(), node.value),
    ensures
        same_frame(*old(ctx), *final(ctx)),
        (toks(r@), final(ctx).handled_comments@) == env_var_out(
            old(ctx).src(),
            node,
            old(ctx).gen_string_content,
            old(ctx).handled_comments@,
        ),
    decreases 2nat, 0nat,
{
    let mut items: Vec<PrintItem> = Vec::new();
    append_items(&mut items, gen_part(Node::String(&node.key), ctx));
    push_text(&mut items, "=");
    append_items(&mut items, gen_part(Node::BreakableString(&node.value), ctx));
    assert(toks(items@) =~= env_var_out(
        old(ctx).src(),
        node,
        old(ctx).gen_string_content,
        old(ctx).handled_comments@,
    ).0);
    items
}

/// A `LABEL` pair: `name=value`.
fn gen_label<'a>(node: &'a Label, ctx: &mut Context<'a>) -> (r: Vec<PrintItem>)
    requires
        old(ctx).wf(),
        old(ctx).current_node == Some(Node::LabelLabel(node)),
        string_ok(old(ctx).src(), node.name),
        string_ok(old(ctx).src(), node.value),
    ensures
        same_frame(*old(ctx), *final(ctx)),
        final(ctx).handled_comments@ == old(ctx).handled_comments@,
        toks(r@) == label_out(old(ctx).src(), node, old(ctx).gen_string_content),
    decreases 2nat, 0nat,
{
    let mut items: Vec<PrintItem> = Vec::new();
    append_items(&mut items, gen_part(Node::String(&node.name), ctx));
    push_text(&mut items, "=");
    append_items(&mut items, gen_part(Node::String(&node.value), ctx));
    assert(toks(items@) =~= label_out(old(ctx).src(), node, old(ctx).gen_string_content));
    items
}

} // verus!
