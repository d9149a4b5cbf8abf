use crate::ast::{is_terminal, stmt_id, Expr, Stmt};
use crate::store::MarkStore;
use vstd::prelude::*;

verus! {

/// Whether an optional expression is present and marked in `m`.
pub open spec fn has_expr(m: Set<u64>, e: Option<Expr>) -> bool {
    match e {
        Some(x) => m.contains(x.id),
        None => false,
    }
}

/// Whether an optional statement is present and marked in `m`.
pub open spec fn has_stmt(m: Set<u64>, o: Option<Box<Stmt>>) -> bool {
    match o {
        Some(b) => m.contains(stmt_id(*b)),
        None => false,
    }
}

/// Whether some statement of `ss` is marked in `m`.
pub open spec fn any_marked(ss: Seq<Stmt>, m: Set<u64>) -> bool {
    exists|i: int| 0 <= i < ss.len() && m.contains(#[trigger] stmt_id(ss[i]))
}

/// The mark store after the marker visits `s`, starting from the store `m`.
///
/// Terminal kinds are marked outright. Any other node that is already marked
/// is left alone. Otherwise its children are visited first, in order; then
/// the node's own rule decides whether it is retained, and a retained node has
/// its child statements visited once more (finalization).
pub open spec fn visit(s: Stmt, m: Set<u64>) -> Set<u64>
    decreases s,
{
    if is_terminal(s) {
        m.insert(stmt_id(s))
    } else if m.contains(stmt_id(s)) {
        m
    } else {
        match s {
            Stmt::Expr { id, expr } => if expr.has_side_effect {
                m.insert(id)
            } else {
                m
            },
            Stmt::Block { id, stmts } => {
                let m1 = visit_seq(stmts@, m);
                if any_marked(stmts@, m1) {
                    m1.insert(id)
                } else {
                    m1
                }
            },
            Stmt::If { id, test, cons, alt } => {
                let m1 = visit_opt(alt, visit(*cons, m));
                if m1.contains(test.id) || m1.contains(stmt_id(*cons)) || has_stmt(m1, alt) {
                    visit_opt(alt, visit(*cons, m1.insert(id)))
                } else {
                    m1
                }
            },
            Stmt::Return { id, .. } => m.insert(id),
            Stmt::Throw { id, .. } => m.insert(id),
            Stmt::Labeled { id, body, .. } => {
                let m1 = visit(*body, m);
                if m1.contains(stmt_id(*body)) {
                    visit(*body, m1.insert(id))
                } else {
                    m1
                }
            },
            Stmt::Switch { id, discriminant, cases } => {
                let m1 = visit_seq(cases@, m);
                if m1.contains(discriminant.id) || any_marked(cases@, m1) {
                    visit_seq(cases@, m1.insert(id))
                } else {
                    m1
                }
            },
            Stmt::Case { id, test, cons } => {
                let m1 = visit_seq(cons@, m);
                if has_expr(m1, test) || any_marked(cons@, m1) {
                    visit_seq(cons@, m1.insert(id))
                } else {
                    m1
                }
            },
            Stmt::Try { id, block, handler, finalizer } => {
                let m1 = visit_opt(finalizer, visit_opt(handler, visit(*block, m)));
                if m1.contains(stmt_id(*block)) || has_stmt(m1, handler) || has_stmt(
                    m1,
                    finalizer,
                ) {
                    visit_opt(finalizer, visit_opt(handler, visit(*block, m1.insert(id))))
                } else {
                    m1
                }
            },
            Stmt::While { id, test, body } => {
                let m1 = visit(*body, m);
                if m1.contains(test.id) || m1.contains(stmt_id(*body)) {
                    visit(*body, m1.insert(id))
                } else {
                    m1
                }
            },
            Stmt::DoWhile { id, test, body } => {
                let m1 = visit(*body, m);
                if m1.contains(test.id) || m1.contains(stmt_id(*body)) {
                    visit(*body, m1.insert(id))
                } else {
                    m1
                }
            },
            Stmt::For { id, init, test, update, body } => {
                let m1 = visit(*body, m);
                if test is None || has_expr(m1, init) || has_expr(m1, test) || has_expr(m1, update)
                    || m1.contains(stmt_id(*body)) {
                    visit(*body, m1.insert(id))
                } else {
                    m1
                }
            },
            Stmt::ForIn { id, left, right, body } => {
                let m1 = visit(*body, m);
                if m1.contains(left.id) || m1.contains(right.id) || m1.contains(stmt_id(*body)) {
                    visit(*body, m1.insert(id))
                } else {
                    m1
                }
            },
            Stmt::ForOf { id, left, right, body } => {
                let m1 = visit(*body, m);
                if m1.contains(left.id) || m1.contains(right.id) || m1.contains(stmt_id(*body)) {
                    visit(*body, m1.insert(id))
                } else {
                    m1
                }
            },
            _ => m,
        }
    }
}

/// The store after visiting an optional statement.
pub open spec fn visit_opt(o: Option<Box<Stmt>>, m: Set<u64>) -> Set<u64>
    decreases o,
{
    match o {
        Some(b) => visit(*b, m),
        None => m,
    }
}

/// The store after visiting the statements of `ss` in order.
pub open spec fn visit_seq(ss: Seq<Stmt>, m: Set<u64>) -> Set<u64>
    decreases ss,
{
    if ss.len() == 0 {
        m
    } else {
        visit(ss.last(), visit_seq(ss.subrange(0, ss.len() - 1), m))
    }
}

/// Runs the marker on `s`: afterwards the store holds exactly the marks that
/// `visit` describes.
pub fn mark_stmt(store: &mut MarkStore, s: &Stmt)
    ensures
        final(store)@ == visit(*s, old(store)@),
    decreases s,
{
    match s {
        Stmt::Debugger { id } => {
            store.mark(*id);
            return ;
        },
        Stmt::With { id, .. } => {
            store.mark(*id);
            return ;
        },
        Stmt::Break { id, .. } => {
            store.mark(*id);
            return ;
        },
        Stmt::Continue { id, .. } => {
            store.mark(*id);
            return ;
        },
        _ => {},
    }
    if store.is_marked(s.id()) {
        return ;
    }
    match s {
        Stmt::Expr { id, expr } => {
            if expr.has_side_effect {
                store.mark(*id);
            }
        },
        Stmt::Block { id, stmts } => {
            mark_all(store, stmts);
            if any_is_marked(store, stmts) {
                store.mark(*id);
            }
        },
        Stmt::If { id, test, cons, alt } => {
            mark_stmt(store, cons);
            mark_opt(store, alt);
            if store.is_marked(test.id) || store.is_marked(cons.id()) || is_marked_opt(store, alt) {
                store.mark(*id);
                mark_stmt(store, cons);
                mark_opt(store, alt);
            }
        },
        Stmt::Return { id, .. } => {
            store.mark(*id);
        },
        Stmt::Throw { id, .. } => {
            store.mark(*id);
        },
        Stmt::Labeled { id, body, .. } => {
            mark_stmt(store, body);
            if store.is_marked(body.id()) {
                store.mark(*id);
                mark_stmt(store, body);
            }
        },
        Stmt::Switch { id, discriminant, cases } => {
            mark_all(store, cases);
            if store.is_marked(discriminant.id) || any_is_marked(store, cases) {
                store.mark(*id);
                mark_all(store, cases);
            }
        },
        Stmt::Case { id, test, cons } => {
            mark_all(store, cons);
            if is_marked_expr(store, test) || any_is_marked(store, cons) {
                store.mark(*id);
                mark_all(store, cons);
            }
        },
        Stmt::Try { id, block, handler, finalizer } => {
            mark_stmt(store, block);
            mark_opt(store, handler);
            mark_opt(store, finalizer);
            if store.is_marked(block.id()) || is_marked_opt(store, handler) || is_marked_opt(
                store,
                finalizer,
            ) {
                store.mark(*id);
                mark_stmt(store, block);
                mark_opt(store, handler);
                mark_opt(store, finalizer);
            }
        },
        Stmt::While { id, test, body } => {
            mark_stmt(store, body);
            if store.is_marked(test.id) || store.is_marked(body.id()) {
                store.mark(*id);
                mark_stmt(store, body);
            }
        },
        Stmt::DoWhile { id, test, body } => {
            mark_stmt(store, body);
            if store.is_marked(test.id) || store.is_marked(body.id()) {
                store.mark(*id);
                mark_stmt(store, body);
            }
        },
        Stmt::For { id, init, test, update, body } => {
            mark_stmt(store, body);
            if test.is_none() || is_marked_expr(store, init) || is_marked_expr(store, test)
                || is_marked_expr(store, update) || store.is_marked(body.id()) {
                store.mark(*id);
                mark_stmt(store, body);
            }
        },
        Stmt::ForIn { id, left, right, body } => {
            mark_stmt(store, body);
            if store.is_marked(left.id) || store.is_marked(right.id) || store.is_marked(body.id()) {
                store.mark(*id);
                mark_stmt(store, body);
            }
        },
        Stmt::ForOf { id, left, right, body } => {
            mark_stmt(store, body);
            if store.is_marked(left.id) || store.is_marked(right.id) || store.is_marked(body.id()) {
                store.mark(*id);
                mark_stmt(store, body);
            }
        },
        _ => {},
    }
}

/// Runs the marker on an optional statement.
pub fn mark_opt(store: &mut MarkStore, o: &Option<Box<Stmt>>)
    ensures
        final(store)@ == visit_opt(*o, old(store)@),
    decreases o,
{
    match o {
        Some(b) => mark_stmt(store, b),
        None => {},
    }
}

/// Runs the marker on each statement of `stmts`, in order.
pub fn mark_all(store: &mut MarkStore, stmts: &Vec<Stmt>)
    ensures
        final(store)@ == visit_seq(stmts@, old(store)@),
    decreases stmts,
{
    let ghost m0 = store@;
    let mut i: usize = 0;
    while i < stmts.len()
        invariant
            i <= stmts.len(),
            store@ == visit_seq(stmts@.subrange(0, i as int), m0),
        decreases stmts.len() - i,
    {
        mark_stmt(store, &stmts[i]);
        proof {
            let next = stmts@.subrange(0, i + 1);
            assert(next.subrange(0, next.len() - 1) =~= stmts@.subrange(0, i as int));
            assert(next.last() == stmts@[i as int]);
        }
        i = i + 1;
    }
    assert(stmts@.subrange(0, stmts.len() as int) =~= stmts@);
}

/// Whether some statement of `stmts` carries the retention mark.
pub fn any_is_marked(store: &MarkStore, stmts: &Vec<Stmt>) -> (r: bool)
    ensures
        r == any_marked(stmts@, store@),
{
    let mut i: usize = 0;
    while i < stmts.len()
        invariant
            i <= stmts.len(),
            forall|j: int| 0 <= j < i ==> !store@.contains(#[trigger] stmt_id(stmts@[j])),
        decreases stmts.len() - i,
    {
        if store.is_marked(stmts[i].id()) {
            return true;
        }
        i = i + 1;
    }
    false
}

/// Whether an optional expression is present and carries the retention mark.
pub fn is_marked_expr(store: &MarkStore, e: &Option<Expr>) -> (r: bool)
    ensures
        r == has_expr(store@, *e),
{
    match e {
        Some(x) => store.is_marked(x.id),
        None => false,
    }
}

/// Whether an optional statement is present and carries the retention mark.
pub fn is_marked_opt(store: &MarkStore, o: &Option<Box<Stmt>>) -> (r: bool)
    ensures
        r == has_stmt(store@, *o),
{
    match o {
        Some(b) => store.is_marked(b.id()),
        None => false,
    }
}

} // verus!
