use crate::ast::{is_terminal, stmt_id, Stmt};
use crate::marker::{any_marked, has_stmt, visit, visit_opt, visit_seq};
use vstd::prelude::*;

verus! {

/// Marking is monotone: a visit never takes a mark out of the store.
pub proof fn lemma_visit_grows(s: Stmt, m: Set<u64>)
    ensures
        m.subset_of(visit(s, m)),
    decreases s,
{
    if !is_terminal(s) && !m.contains(stmt_id(s)) {
        match s {
            Stmt::Block { id, stmts } => {
                lemma_visit_seq_grows(stmts@, m);
            },
            Stmt::If { id, test, cons, alt } => {
                lemma_visit_grows(*cons, m);
                let m1 = visit_opt(alt, visit(*cons, m));
                lemma_visit_opt_grows(alt, visit(*cons, m));
                lemma_visit_grows(*cons, m1.insert(id));
                lemma_visit_opt_grows(alt, visit(*cons, m1.insert(id)));
            },
            Stmt::Labeled { id, body, .. } => {
                lemma_visit_grows(*body, m);
                lemma_visit_grows(*body, visit(*body, m).insert(id));
            },
            Stmt::Switch { id, cases, .. } => {
                lemma_visit_seq_grows(cases@, m);
                lemma_visit_seq_grows(cases@, visit_seq(cases@, m).insert(id));
            },
            Stmt::Case { id, cons, .. } => {
                lemma_visit_seq_grows(cons@, m);
                lemma_visit_seq_grows(cons@, visit_seq(cons@, m).insert(id));
            },
            Stmt::Try { id, block, handler, finalizer } => {
                lemma_visit_grows(*block, m);
                lemma_visit_opt_grows(handler, visit(*block, m));
                lemma_visit_opt_grows(finalizer, visit_opt(handler, visit(*block, m)));
                let m1 = visit_opt(finalizer, visit_opt(handler, visit(*block, m))).insert(id);
                lemma_visit_grows(*block, m1);
                lemma_visit_opt_grows(handler, visit(*block, m1));
                lemma_visit_opt_grows(finalizer, visit_opt(handler, visit(*block, m1)));
            },
            Stmt::While { id, body, .. } => {
                lemma_visit_grows(*body, m);
                lemma_visit_grows(*body, visit(*body, m).insert(id));
            },
            Stmt::DoWhile { id, body, .. } => {
                lemma_visit_grows(*body, m);
                lemma_visit_grows(*body, visit(*body, m).insert(id));
            },
            Stmt::For { id, body, .. } => {
                lemma_visit_grows(*body, m);
                lemma_visit_grows(*body, visit(*body, m).insert(id));
            },
            Stmt::ForIn { id, body, .. } => {
                lemma_visit_grows(*body, m);
                lemma_visit_grows(*body, visit(*body, m).insert(id));
            },
            Stmt::ForOf { id, body, .. } => {
                lemma_visit_grows(*body, m);
                lemma_visit_grows(*body, visit(*body, m).insert(id));
            },
            _ => {},
        }
    }
}

/// Monotonicity of a visit of an optional statement.
pub proof fn lemma_visit_opt_grows(o: Option<Box<Stmt>>, m: Set<u64>)
    ensures
        m.subset_of(visit_opt(o, m)),
    decreases o,
{
    if let Some(b) = o {
        lemma_visit_grows(*b, m);
    }
}

/// Monotonicity of a visit of a statement sequence.
pub proof fn lemma_visit_seq_grows(ss: Seq<Stmt>, m: Set<u64>)
    ensures
        m.subset_of(visit_seq(ss, m)),
    decreases ss,
{
    if ss.len() > 0 {
        let p = ss.subrange(0, ss.len() - 1);
        lemma_visit_seq_grows(p, m);
        lemma_visit_grows(ss.last(), visit_seq(p, m));
    }
}

/// A visit that leaves the node itself unmarked leaves the whole store as it
/// was: every mark added below a node makes that node retained too.
pub proof fn lemma_unretained_unchanged(s: Stmt, m: Set<u64>)
    ensures
        !visit(s, m).contains(stmt_id(s)) ==> visit(s, m) == m,
    decreases s,
{
    lemma_visit_grows(s, m);
    if !is_terminal(s) && !m.contains(stmt_id(s)) && !visit(s, m).contains(stmt_id(s)) {
        match s {
            Stmt::Block { id, stmts } => {
                lemma_visit_seq_unchanged(stmts@, m);
            },
            Stmt::If { id, test, cons, alt } => {
                let m0 = visit(*cons, m);
                let m1 = visit_opt(alt, m0);
                lemma_visit_opt_grows(alt, m0);
                lemma_visit_grows(*cons, m1.insert(id));
                lemma_visit_opt_grows(alt, visit(*cons, m1.insert(id)));
                lemma_unretained_unchanged(*cons, m);
                lemma_visit_opt_unchanged(alt, m0);
            },
            Stmt::Labeled { id, body, .. } => {
                lemma_visit_grows(*body, visit(*body, m).insert(id));
                lemma_unretained_unchanged(*body, m);
            },
            Stmt::Switch { id, cases, .. } => {
                lemma_visit_seq_grows(cases@, visit_seq(cases@, m).insert(id));
                lemma_visit_seq_unchanged(cases@, m);
            },
            Stmt::Case { id, cons, .. } => {
                lemma_visit_seq_grows(cons@, visit_seq(cons@, m).insert(id));
                lemma_visit_seq_unchanged(cons@, m);
            },
            Stmt::Try { id, block, handler, finalizer } => {
                let m0 = visit(*block, m);
                let m1 = visit_opt(handler, m0);
                let m2 = visit_opt(finalizer, m1);
                lemma_visit_opt_grows(handler, m0);
                lemma_visit_opt_grows(finalizer, m1);
                let n = m2.insert(id);
                lemma_visit_grows(*block, n);
                lemma_visit_opt_grows(handler, visit(*block, n));
                lemma_visit_opt_grows(finalizer, visit_opt(handler, visit(*block, n)));
                lemma_unretained_unchanged(*block, m);
                lemma_visit_opt_unchanged(handler, m0);
                lemma_visit_opt_unchanged(finalizer, m1);
            },
            Stmt::While { id, body, .. } => {
                lemma_visit_grows(*body, visit(*body, m).insert(id));
                lemma_unretained_unchanged(*body, m);
            },
            Stmt::DoWhile { id, body, .. } => {
                lemma_visit_grows(*body, visit(*body, m).insert(id));
                lemma_unretained_unchanged(*body, m);
            },
            Stmt::For { id, body, .. } => {
                lemma_visit_grows(*body, visit(*body, m).insert(id));
                lemma_unretained_unchanged(*body, m);
            },
            Stmt::ForIn { id, body, .. } => {
                lemma_visit_grows(*body, visit(*body, m).insert(id));
                lemma_unretained_unchanged(*body, m);
            },
            Stmt::ForOf { id, body, .. } => {
                lemma_visit_grows(*body, visit(*body, m).insert(id));
                lemma_unretained_unchanged(*body, m);
            },
            _ => {},
        }
    }
}

/// An optional statement that ends unmarked left the store as it was.
pub proof fn lemma_visit_opt_unchanged(o: Option<Box<Stmt>>, m: Set<u64>)
    ensures
        !has_stmt(visit_opt(o, m), o) ==> visit_opt(o, m) == m,
    decreases o,
{
    if let Some(b) = o {
        lemma_unretained_unchanged(*b, m);
    }
}

/// A sequence none of whose statements ends marked left the store as it was.
pub proof fn lemma_visit_seq_unchanged(ss: Seq<Stmt>, m: Set<u64>)
    ensures
        !any_marked(ss, visit_seq(ss, m)) ==> visit_seq(ss, m) == m,
    decreases ss,
{
    if ss.len() > 0 && !any_marked(ss, visit_seq(ss, m)) {
        let p = ss.subrange(0, ss.len() - 1);
        let pm = visit_seq(p, m);
        assert(!visit_seq(ss, m).contains(stmt_id(ss[ss.len() - 1])));
        lemma_unretained_unchanged(ss.last(), pm);
        assert forall|i: int| 0 <= i < p.len() implies !pm.contains(#[trigger] stmt_id(p[i])) by {
            assert(p[i] == ss[i]);
        }
        lemma_visit_seq_unchanged(p, m);
    }
}

/// Idempotence: running the marker a second time on the store that the first
/// run left adds nothing.
pub proof fn lemma_idempotent(s: Stmt, m: Set<u64>)
    ensures
        visit(s, visit(s, m)) == visit(s, m),
{
    let m1 = visit(s, m);
    lemma_unretained_unchanged(s, m);
    if m1.contains(stmt_id(s)) {
        if is_terminal(s) {
            assert(m1.insert(stmt_id(s)) =~= m1);
        }
    }
}

/// `s` ends retained whatever store the marker starts from.
pub open spec fn always_retained(s: Stmt) -> bool {
    forall|m: Set<u64>| #[trigger] visit(s, m).contains(stmt_id(s))
}

/// Statements that are retained by their own rule alone: the terminal kinds,
/// `return`, `throw`, a `for` without a test clause and an expression
/// statement whose expression has a side effect.
pub open spec fn retained_by_kind(s: Stmt) -> bool {
    ||| is_terminal(s)
    ||| s is Return
    ||| s is Throw
    ||| (s is For && s->For_test is None)
    ||| (s is Expr && s->Expr_expr.has_side_effect)
}

/// Statements retained by their own rule are retained in every context; in
/// particular `debugger`, `with`, `break` and `continue` always are, and so is
/// a `for` with no test clause, however empty its other parts.
pub proof fn lemma_kind_retained(s: Stmt)
    requires
        retained_by_kind(s),
    ensures
        always_retained(s),
{
    assert forall|m: Set<u64>| #[trigger] visit(s, m).contains(stmt_id(s)) by {
        lemma_visit_grows(s, m);
        if !is_terminal(s) && !m.contains(stmt_id(s)) {
            if let Stmt::For { id, body, .. } = s {
                lemma_visit_grows(*body, visit(*body, m).insert(id));
            }
        }
    }
}

/// A statement of a sequence that is always retained is marked once the
/// sequence has been visited.
pub proof fn lemma_seq_member_retained(ss: Seq<Stmt>, m: Set<u64>, i: int)
    requires
        0 <= i < ss.len(),
        always_retained(ss[i]),
    ensures
        visit_seq(ss, m).contains(stmt_id(ss[i])),
        any_marked(ss, visit_seq(ss, m)),
    decreases ss,
{
    let p = ss.subrange(0, ss.len() - 1);
    let pm = visit_seq(p, m);
    if i == ss.len() - 1 {
        assert(visit(ss[i], pm).contains(stmt_id(ss[i])));
    } else {
        assert(p[i] == ss[i]);
        lemma_seq_member_retained(p, m, i);
        lemma_visit_grows(ss.last(), pm);
    }
}

/// Bottom-up aggregation: after a visit of a block, if one of its statements
/// carries the retention mark, so does the block.
pub proof fn lemma_block_aggregates(s: Stmt, m: Set<u64>)
    requires
        s is Block,
    ensures
        any_marked(s->Block_stmts@, visit(s, m)) ==> visit(s, m).contains(stmt_id(s)),
{
    lemma_visit_grows(s, m);
}

/// A block holding a statement that is always retained (a `debugger`, a
/// `break`, an effectful call) is itself always retained.
pub proof fn lemma_block_with_retained_member(s: Stmt, i: int)
    requires
        s is Block,
        0 <= i < s->Block_stmts@.len(),
        always_retained(s->Block_stmts@[i]),
    ensures
        always_retained(s),
{
    let ss = s->Block_stmts@;
    assert forall|m: Set<u64>| #[trigger] visit(s, m).contains(stmt_id(s)) by {
        lemma_visit_grows(s, m);
        if !m.contains(stmt_id(s)) {
            lemma_seq_member_retained(ss, m, i);
        }
    }
}

/// A switch case holding a statement that is always retained (a `break`, a
/// `continue`, an effectful call) is always retained, whether or not its
/// label can be reached.
pub proof fn lemma_case_with_retained_member(s: Stmt, i: int)
    requires
        s is Case,
        0 <= i < s->Case_cons@.len(),
        always_retained(s->Case_cons@[i]),
    ensures
        always_retained(s),
{
    let ss = s->Case_cons@;
    assert forall|m: Set<u64>| #[trigger] visit(s, m).contains(stmt_id(s)) by {
        lemma_visit_grows(s, m);
        if !m.contains(stmt_id(s)) {
            lemma_seq_member_retained(ss, m, i);
            let m1 = visit_seq(ss, m);
            lemma_visit_seq_grows(ss, m1.insert(stmt_id(s)));
        }
    }
}

/// A switch one of whose cases is always retained is always retained: no
/// case is judged on its own.
pub proof fn lemma_switch_with_retained_case(s: Stmt, i: int)
    requires
        s is Switch,
        0 <= i < s->Switch_cases@.len(),
        always_retained(s->Switch_cases@[i]),
    ensures
        always_retained(s),
{
    let ss = s->Switch_cases@;
    assert forall|m: Set<u64>| #[trigger] visit(s, m).contains(stmt_id(s)) by {
        lemma_visit_grows(s, m);
        if !m.contains(stmt_id(s)) {
            lemma_seq_member_retained(ss, m, i);
            let m1 = visit_seq(ss, m);
            lemma_visit_seq_grows(ss, m1.insert(stmt_id(s)));
        }
    }
}

/// An expression statement reached unmarked is retained exactly when its
/// expression has a side effect: a bare reference is not, a call is.
pub proof fn lemma_expr_stmt_gated(s: Stmt, m: Set<u64>)
    requires
        s is Expr,
        !m.contains(stmt_id(s)),
    ensures
        visit(s, m).contains(stmt_id(s)) <==> s->Expr_expr.has_side_effect,
{
}

} // verus!
