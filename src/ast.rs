use vstd::prelude::*;

verus! {

/// An expression sub-tree, seen from the statement level: its identity tag
/// and the verdict of the side-effect analysis on it.
#[derive(Clone, Copy, Debug, PartialEq, Eq, Structural)]
pub struct Expr {
    pub id: u64,
    pub has_side_effect: bool,
}

/// A statement node. Every node carries a stable identity tag `id`, the only
/// thing the mark store is keyed by.

pub enum Stmt {
    /// `expr;`
    Expr { id: u64, expr: Expr },
    /// `{ stmts }`
    Block { id: u64, stmts: Vec<Stmt> },
    /// `if (test) cons else alt`
    If { id: u64, test: Expr, cons: Box<Stmt>, alt: Option<Box<Stmt>> },
    /// `return arg;`
    Return { id: u64, arg: Option<Expr> },
    /// `throw arg;`
    Throw { id: u64, arg: Expr },
    /// `label: body`
    Labeled { id: u64, label: u64, body: Box<Stmt> },
    /// `switch (discriminant) { cases }`; each case is a `Case` node.
    Switch { id: u64, discriminant: Expr, cases: Vec<Stmt> },
    /// `case test: cons` of a switch, `default: cons` when `test` is absent.
    Case { id: u64, test: Option<Expr>, cons: Vec<Stmt> },
    /// `try block catch handler finally finalizer`
    Try { id: u64, block: Box<Stmt>, handler: Option<Box<Stmt>>, finalizer: Option<Box<Stmt>> },
    /// `while (test) body`
    While { id: u64, test: Expr, body: Box<Stmt> },
    /// `do body while (test)`
    DoWhile { id: u64, test: Expr, body: Box<Stmt> },
    /// `for (init; test; update) body`
    For { id: u64, init: Option<Expr>, test: Option<Expr>, update: Option<Expr>, body: Box<Stmt> },
    /// `for (left in right) body`
    ForIn { id: u64, left: Expr, right: Expr, body: Box<Stmt> },
    /// `for (left of right) body`
    ForOf { id: u64, left: Expr, right: Expr, body: Box<Stmt> },
    /// `debugger;`
    Debugger { id: u64 },
    /// `with (object) body`
    With { id: u64, object: Expr, body: Box<Stmt> },
    /// `break label;`
    Break { id: u64, label: Option<u64> },
    /// `continue label;`
    Continue { id: u64, label: Option<u64> },
}

/// The identity tag of a statement.
pub open spec fn stmt_id(s: Stmt) -> u64 {
    match s {
        Stmt::Expr { id, .. } => id,
        Stmt::Block { id, .. } => id,
        Stmt::If { id, .. } => id,
        Stmt::Return { id, .. } => id,
        Stmt::Throw { id, .. } => id,
        Stmt::Labeled { id, .. } => id,
        Stmt::Switch { id, .. } => id,
        Stmt::Case { id, .. } => id,
        Stmt::Try { id, .. } => id,
        Stmt::While { id, .. } => id,
        Stmt::DoWhile { id, .. } => id,
        Stmt::For { id, .. } => id,
        Stmt::ForIn { id, .. } => id,
        Stmt::ForOf { id, .. } => id,
        Stmt::Debugger { id } => id,
        Stmt::With { id, .. } => id,
        Stmt::Break { id, .. } => id,
        Stmt::Continue { id, .. } => id,
    }
}

/// The kinds that are retained unconditionally and whose children are not
/// visited: `debugger`, `with`, `break` and `continue`.
pub open spec fn is_terminal(s: Stmt) -> bool {
    s is Debugger || s is With || s is Break || s is Continue
}

impl Stmt {
    /// The identity tag of this statement.
    pub fn id(&self) -> (r: u64)
        ensures
            r == stmt_id(*self),
    {
        match self {
            Stmt::Expr { id, .. } => *id,
            Stmt::Block { id, .. } => *id,
            Stmt::If { id, .. } => *id,
            Stmt::Return { id, .. } => *id,
            Stmt::Throw { id, .. } => *id,
            Stmt::Labeled { id, .. } => *id,
            Stmt::Switch { id, .. } => *id,
            Stmt::Case { id, .. } => *id,
            Stmt::Try { id, .. } => *id,
            Stmt::While { id, .. } => *id,
            Stmt::DoWhile { id, .. } => *id,
            Stmt::For { id, .. } => *id,
            Stmt::ForIn { id, .. } => *id,
            Stmt::ForOf { id, .. } => *id,
            Stmt::Debugger { id } => *id,
            Stmt::With { id, .. } => *id,
            Stmt::Break { id, .. } => *id,
            Stmt::Continue { id, .. } => *id,
        }
    }
}

} // verus!
