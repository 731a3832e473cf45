//! Generation layer of a Dockerfile formatter.
//!
//! From a parsed Dockerfile and its source text, the generator produces a
//! stream of print items — literal text, line breaks, and lists that a
//! layout engine puts on one line or splits with line continuations — so
//! that the laid-out result is the canonical form of the file. Comments that
//! belong to no node are found in the text between nodes and put in their
//! places; blank lines between instructions collapse to at most one.
//!
//! Every offset in this crate counts characters of the source text.
use vstd::prelude::*;

pub mod comments;
pub mod context;
pub mod document;
pub mod generate;
pub mod instructions;
pub mod print_items;
pub mod syntax;
pub mod text;
pub mod validate;

pub use comments::{gen_comment_text, parse_comments};
pub use context::Context;
pub use document::{format_outcome, generate};
pub use print_items::{ItemList, ListValue, PrintItem, Segment};
pub use syntax::{
    ArgInstruction, BreakableString, BreakableStringComponent, CmdInstruction, CopyFlag,
    CopyInstruction, Dockerfile, EntrypointInstruction, EnvInstruction, EnvVar, FromFlag,
    FromInstruction, Instruction, Label, LabelInstruction, MiscInstruction, Node, RunInstruction,
    ShellOrExecExpr, Span, SpannedComment, SpannedString, StringArray,
};
pub use text::strip_bom;
pub use validate::is_well_formed;

verus! {

} // verus!
