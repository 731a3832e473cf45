//! The instruction stream that the generator hands to a layout engine.
//!
//! The stream is a sequence of segments. A segment is either a run of print
//! items or a list of values that the layout engine puts on one line when they fit
//! and otherwise one value per line.
use vstd::prelude::*;

verus! {

/// One formatting instruction.
#[derive(Debug)]
pub enum PrintItem {
    /// Literal text on the current line.
    Text(String),
    /// Source text copied as it stands; it may hold line breaks, and the
    /// lines after the first keep their own indentation.
    RawText(String),
    /// A line break.
    NewLine,
    /// Whatever follows must start on a new line.
    ExpectNewLine,
}

/// One value of a list.
#[derive(Debug)]
pub struct ListValue {
    pub items: Vec<PrintItem>,
    /// The zero-based source line on which the value started.
    pub line_index: usize,
    /// Append ` \` to the value when the list is laid out on several lines.
    pub continuation: bool,
    /// Lay the value out one indent level further, by the list's width.
    pub indented: bool,
}

/// Values separated by a single space when they fit on one line, or laid out
/// one per line. The layout engine never puts a blank line between values
/// and starts the first one where the list starts: these rules are the same
/// for every list, so the list carries only what differs.
#[derive(Debug)]
pub struct ItemList {
    /// Lay the values out one per line even when they would fit on one.
    pub force_use_new_lines: bool,
    /// The width of one indent level for the values, in columns.
    pub indent_width: u32,
    pub values: Vec<ListValue>,
}

/// One segment of the stream.
#[derive(Debug)]
pub enum Segment {
    Items(Vec<PrintItem>),
    List(ItemList),
}

/// The mathematical value of a print item.
pub enum Tok {
    Text(Seq<char>),
    RawText(Seq<char>),
    NewLine,
    ExpectNewLine,
}

/// The mathematical value of a list value.
pub struct ValueV {
    pub items: Seq<Tok>,
    pub line_index: nat,
    pub continuation: bool,
    pub indented: bool,
}

/// The mathematical value of a segment.
pub enum Seg {
    Items(Seq<Tok>),
    List { force_use_new_lines: bool, indent_width: u32, values: Seq<ValueV> },
}

impl View for PrintItem {
    type V = Tok;

    open spec fn view(&self) -> Tok {
        match self {
            PrintItem::Text(s) => Tok::Text(s@),
            PrintItem::RawText(s) => Tok::RawText(s@),
            PrintItem::NewLine => Tok::NewLine,
            PrintItem::ExpectNewLine => Tok::ExpectNewLine,
        }
    }
}

/// The values of a sequence of print items.
pub open spec fn toks(s: Seq<PrintItem>) -> Seq<Tok> {
    s.map_values(|p: PrintItem| p@)
}

impl View for ListValue {
    type V = ValueV;

    open spec fn view(&self) -> ValueV {
        ValueV {
            items: toks(self.items@),
            line_index: self.line_index as nat,
            continuation: self.continuation,
            indented: self.indented,
        }
    }
}

impl View for Segment {
    type V = Seg;

    open spec fn view(&self) -> Seg {
        match self {
            Segment::Items(p) => Seg::Items(toks(p@)),
            Segment::List(l) => Seg::List {
                force_use_new_lines: l.force_use_new_lines,
                indent_width: l.indent_width,
                values: l.values@.map_values(|v: ListValue| v@),
            },
        }
    }
}

/// The values of a sequence of segments.
pub open spec fn segs(s: Seq<Segment>) -> Seq<Seg> {
    s.map_values(|p: Segment| p@)
}

/// Appends one print item.
pub fn push_item(items: &mut Vec<PrintItem>, item: PrintItem)
    ensures
        toks(final(items)@) == toks(old(items)@).push(item@),
{
    items.push(item);
    assert(toks(items@) =~= toks(old(items)@).push(item@));
}

/// Appends literal text.
pub fn push_text(items: &mut Vec<PrintItem>, s: &str)
    ensures
        toks(final(items)@) == toks(old(items)@).push(Tok::Text(s@)),
{
    push_item(items, PrintItem::Text(String::from_str(s)));
}

/// Appends all of `more`.
pub fn append_items(items: &mut Vec<PrintItem>, more: Vec<PrintItem>)
    ensures
        toks(final(items)@) == toks(old(items)@) + toks(more@),
{
    let mut more = more;
    let ghost m = more@;
    items.append(&mut more);
    assert(toks(items@) =~= toks(old(items)@) + toks(m));
}

/// Appends one segment.
pub fn push_segment(out: &mut Vec<Segment>, s: Segment)
    ensures
        segs(final(out)@) == segs(old(out)@).push(s@),
{
    out.push(s);
    assert(segs(out@) =~= segs(old(out)@).push(s@));
}

} // verus!
