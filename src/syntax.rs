//! The syntax tree that the generator reads.
//!
//! Every node carries a `Span`: a half-open range of character offsets into
//! the source text the tree was parsed from.
use vstd::prelude::*;

verus! {

/// A half-open range `[start, end)` of character offsets into the source.
#[derive(Clone, Copy, Debug, PartialEq, Eq, Structural)]
pub struct Span {
    pub start: usize,
    pub end: usize,
}

impl Span {
    /// The span `[start, end)`.
    pub fn new(start: usize, end: usize) -> (r: Span)
        ensures
            r.start == start,
            r.end == end,
            r.wf() == (start <= end),
    {
        Span { start, end }
    }

    /// The span is a range: it does not end before it starts.
    pub open spec fn wf(self) -> bool {
        self.start <= self.end
    }

    /// The span is a range inside a text of `len` characters.
    pub open spec fn within(self, len: nat) -> bool {
        self.wf() && self.end <= len
    }
}

/// A string value together with its span; `content` is the value without
/// quoting or surrounding layout.
#[derive(Debug)]
pub struct SpannedString {
    pub span: Span,
    pub content: String,
}

/// A line comment; `content` holds its text from the leading `#`.
#[derive(Debug)]
pub struct SpannedComment {
    pub span: Span,
    pub content: String,
}

/// One physical line of a breakable string, or a comment line inside it.
#[derive(Debug)]
pub enum BreakableStringComponent {
    String(SpannedString),
    Comment(SpannedComment),
}

/// A value that may continue over several lines with backslashes.
#[derive(Debug)]
pub struct BreakableString {
    pub span: Span,
    pub components: Vec<BreakableStringComponent>,
}

/// A JSON-style array of strings, as in the exec form of `RUN`.
#[derive(Debug)]
pub struct StringArray {
    pub span: Span,
    pub elements: Vec<SpannedString>,
}

/// The argument of a command instruction: shell form or exec form.
#[derive(Debug)]
pub enum ShellOrExecExpr {
    Shell(BreakableString),
    Exec(StringArray),
}

/// `ARG name[=value]`
#[derive(Debug)]
pub struct ArgInstruction {
    pub span: Span,
    pub name: SpannedString,
    pub value: Option<SpannedString>,
}

/// `CMD ...`
#[derive(Debug)]
pub struct CmdInstruction {
    pub span: Span,
    pub expr: ShellOrExecExpr,
}

/// A `--name=value` flag of `COPY`.
#[derive(Debug)]
pub struct CopyFlag {
    pub span: Span,
    pub name: SpannedString,
    pub value: SpannedString,
}

/// `COPY [flags] sources... destination`
#[derive(Debug)]
pub struct CopyInstruction {
    pub span: Span,
    pub flags: Vec<CopyFlag>,
    pub sources: Vec<SpannedString>,
    pub destination: SpannedString,
}

/// `ENTRYPOINT ...`
#[derive(Debug)]
pub struct EntrypointInstruction {
    pub span: Span,
    pub expr: ShellOrExecExpr,
}

/// One `key=value` pair of `ENV`.
#[derive(Debug)]
pub struct EnvVar {
    pub span: Span,
    pub key: SpannedString,
    pub value: BreakableString,
}

/// `ENV key=value ...`
#[derive(Debug)]
pub struct EnvInstruction {
    pub span: Span,
    pub vars: Vec<EnvVar>,
}

/// A `--name=value` flag of `FROM`, such as `--platform`.
#[derive(Debug)]
pub struct FromFlag {
    pub span: Span,
    pub name: SpannedString,
    pub value: SpannedString,
}

/// `FROM image [AS alias]`. Its flags are kept in the tree but not rendered:
/// how they should be laid out is an open question.
#[derive(Debug)]
pub struct FromInstruction {
    pub span: Span,
    pub flags: Vec<FromFlag>,
    pub image: SpannedString,
    pub alias: Option<SpannedString>,
}

/// One `name=value` pair of `LABEL`.
#[derive(Debug)]
pub struct Label {
    pub span: Span,
    pub name: SpannedString,
    pub value: SpannedString,
}

/// `LABEL name=value ...`
#[derive(Debug)]
pub struct LabelInstruction {
    pub span: Span,
    pub labels: Vec<Label>,
}

/// Any instruction without a rule of its own: keyword and arguments.
#[derive(Debug)]
pub struct MiscInstruction {
    pub span: Span,
    pub instruction: SpannedString,
    pub arguments: BreakableString,
}

/// `RUN ...`
#[derive(Debug)]
pub struct RunInstruction {
    pub span: Span,
    pub expr: ShellOrExecExpr,
}

/// A top-level instruction.
#[derive(Debug)]
pub enum Instruction {
    From(FromInstruction),
    Arg(ArgInstruction),
    Label(LabelInstruction),
    Run(RunInstruction),
    Entrypoint(EntrypointInstruction),
    Cmd(CmdInstruction),
    Copy(CopyInstruction),
    Env(EnvInstruction),
    Misc(MiscInstruction),
}

/// A parsed file: its instructions in source order.
#[derive(Debug)]
pub struct Dockerfile {
    pub instructions: Vec<Instruction>,
}

/// A handle on any node of the tree, or on a comment that was found in the
/// text between nodes and belongs to none of them.
#[derive(Clone, Copy)]
pub enum Node<'a> {
    Arg(&'a ArgInstruction),
    Cmd(&'a CmdInstruction),
    Copy(&'a CopyInstruction),
    CopyFlag(&'a CopyFlag),
    From(&'a FromInstruction),
    Label(&'a LabelInstruction),
    LabelLabel(&'a Label),
    Run(&'a RunInstruction),
    Entrypoint(&'a EntrypointInstruction),
    Env(&'a EnvInstruction),
    EnvVar(&'a EnvVar),
    Misc(&'a MiscInstruction),
    String(&'a SpannedString),
    BreakableString(&'a BreakableString),
    StringArray(&'a StringArray),
    Comment(&'a SpannedComment),
    /// A comment found between nodes, known by its span: its text is the
    /// source text that the span covers.
    Orphan(Span),
}

impl<'a> Node<'a> {
    /// The node's span.
    pub open spec fn spec_span(&self) -> Span {
        match self {
            Node::Arg(n) => n.span,
            Node::Cmd(n) => n.span,
            Node::Copy(n) => n.span,
            Node::CopyFlag(n) => n.span,
            Node::From(n) => n.span,
            Node::Label(n) => n.span,
            Node::LabelLabel(n) => n.span,
            Node::Run(n) => n.span,
            Node::Entrypoint(n) => n.span,
            Node::Env(n) => n.span,
            Node::EnvVar(n) => n.span,
            Node::Misc(n) => n.span,
            Node::String(n) => n.span,
            Node::BreakableString(n) => n.span,
            Node::StringArray(n) => n.span,
            Node::Comment(n) => n.span,
            Node::Orphan(n) => *n,
        }
    }

    /// The node's span. For the nodes of a tree that `is_well_formed`
    /// accepts it is a range inside the text (`Span::within`).
    #[verifier::when_used_as_spec(spec_span)]
    pub fn span(&self) -> (r: Span)
        ensures
            r == self.spec_span(),
    {
        match self {
            Node::Arg(n) => n.span,
            Node::Cmd(n) => n.span,
            Node::Copy(n) => n.span,
            Node::CopyFlag(n) => n.span,
            Node::From(n) => n.span,
            Node::Label(n) => n.span,
            Node::LabelLabel(n) => n.span,
            Node::Run(n) => n.span,
            Node::Entrypoint(n) => n.span,
            Node::Env(n) => n.span,
            Node::EnvVar(n) => n.span,
            Node::Misc(n) => n.span,
            Node::String(n) => n.span,
            Node::BreakableString(n) => n.span,
            Node::StringArray(n) => n.span,
            Node::Comment(n) => n.span,
            Node::Orphan(n) => *n,
        }
    }

    /// The node is a comment.
    pub open spec fn spec_is_comment(&self) -> bool {
        self is Comment || self is Orphan
    }

    /// Whether the node is a comment.
    #[verifier::when_used_as_spec(spec_is_comment)]
    pub fn is_comment(&self) -> (r: bool)
        ensures
            r == self.spec_is_comment(),
    {
        match self {
            Node::Comment(_) | Node::Orphan(_) => true,
            _ => false,
        }
    }

    /// The handle on a top-level instruction.
    pub fn from_instruction(instruction: &'a Instruction) -> (r: Node<'a>)
        ensures
            r == Node::of_instruction(instruction),
    {
        match instruction {
            Instruction::From(n) => Node::From(n),
            Instruction::Arg(n) => Node::Arg(n),
            Instruction::Label(n) => Node::Label(n),
            Instruction::Run(n) => Node::Run(n),
            Instruction::Entrypoint(n) => Node::Entrypoint(n),
            Instruction::Cmd(n) => Node::Cmd(n),
            Instruction::Copy(n) => Node::Copy(n),
            Instruction::Env(n) => Node::Env(n),
            Instruction::Misc(n) => Node::Misc(n),
        }
    }

    /// The handle on a top-level instruction.
    pub open spec fn of_instruction(instruction: &'a Instruction) -> Node<'a> {
        match instruction {
            Instruction::From(n) => Node::From(n),
            Instruction::Arg(n) => Node::Arg(n),
            Instruction::Label(n) => Node::Label(n),
            Instruction::Run(n) => Node::Run(n),
            Instruction::Entrypoint(n) => Node::Entrypoint(n),
            Instruction::Cmd(n) => Node::Cmd(n),
            Instruction::Copy(n) => Node::Copy(n),
            Instruction::Env(n) => Node::Env(n),
            Instruction::Misc(n) => Node::Misc(n),
        }
    }

    /// The handle on one component of a breakable string.
    pub fn from_component(component: &'a BreakableStringComponent) -> (r: Node<'a>)
        ensures
            r == Node::of_component(component),
    {
        match component {
            BreakableStringComponent::String(n) => Node::String(n),
            BreakableStringComponent::Comment(n) => Node::Comment(n),
        }
    }

    /// The handle on one component of a breakable string.
    pub open spec fn of_component(component: &'a BreakableStringComponent) -> Node<'a> {
        match component {
            BreakableStringComponent::String(n) => Node::String(n),
            BreakableStringComponent::Comment(n) => Node::Comment(n),
        }
    }
}

} // verus!
