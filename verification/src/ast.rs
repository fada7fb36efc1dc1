//! The expression tree that a successful parse returns.

use vstd::prelude::*;

verus! {

/// The parse tree of an EGL expression.
///
/// Every expression is rooted at `ExprStart`, whose child is either
/// `ExprEnd` (an empty expression, `HI !`) or `ExprBlock` (an expression
/// with a delimited body, `HI { ... } !`).  A block's child is either a
/// nested expression (again rooted at `ExprStart`) or `Blank` when the
/// braces hold only whitespace.
#[derive(Debug, PartialEq, Eq)]
pub enum EGLAst {
    /// Empty block content; appears only as the child of `ExprBlock`.
    Blank,
    /// The end marker; appears only as the child of `ExprStart`.
    ExprEnd,
    /// The root of every expression.
    ExprStart(Box<EGLAst>),
    /// A brace-delimited body; its child is a nested expression or `Blank`.
    ExprBlock(Box<EGLAst>),
}

/// The nesting depth of a tree: the number of blocks on its spine.
/// It equals the delimiter-nesting depth of the program the tree was
/// parsed from.
pub open spec fn depth(t: EGLAst) -> nat
    decreases t,
{
    match t {
        EGLAst::Blank => 0,
        EGLAst::ExprEnd => 0,
        EGLAst::ExprStart(c) => depth(*c),
        EGLAst::ExprBlock(c) => 1 + depth(*c),
    }
}

/// Well-formedness of a whole expression tree: the root is `ExprStart`,
/// a start's child is `ExprEnd` or `ExprBlock`, and a block's child is
/// `Blank` or again a well-formed expression.
pub open spec fn wf_expr(t: EGLAst) -> bool
    decreases t,
{
    match t {
        EGLAst::ExprStart(c) => wf_start_child(*c),
        _ => false,
    }
}

/// Well-formedness of the child of an `ExprStart` node.
pub open spec fn wf_start_child(c: EGLAst) -> bool
    decreases c,
{
    match c {
        EGLAst::ExprEnd => true,
        EGLAst::ExprBlock(b) => wf_block_child(*b),
        _ => false,
    }
}

/// Well-formedness of the child of an `ExprBlock` node.
pub open spec fn wf_block_child(b: EGLAst) -> bool
    decreases b,
{
    match b {
        EGLAst::Blank => true,
        EGLAst::ExprStart(c) => wf_start_child(*c),
        _ => false,
    }
}

} // verus!
