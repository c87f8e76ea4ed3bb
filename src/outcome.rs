//! What lowering a node does to a run, stated as a function of the node and
//! of the local names known before: whether it succeeds, the local names
//! known after, and the spans it exports, in order.
use vstd::prelude::*;
use crate::adt::field_exists;
use crate::constant::decode_scalar;
use crate::host::{
    lookup_var, Ctx, HostArm, HostBlock, HostConstant, HostExpr, HostExprKind, HostFieldExpr,
    HostFieldPat, HostPat, HostPatKind, HostStmt, HostStmtKind, LocalVar, TyShape,
};
use crate::macros::{first_foldable, invocation_argument};
use crate::scope::unrolled;
use crate::span::Span;

verus! {

broadcast use vstd::std_specs::vec::axiom_vec_decreases_to_view, vstd::seq::axiom_seq_index_decreases;

/// The effect of lowering a node: success, the local names known after,
/// and the spans exported on the way, in order. Only `ok` is meaningful
/// when lowering fails.
pub struct Outcome {
    pub ok: bool,
    pub vars: Seq<LocalVar>,
    pub spans: Seq<Span>,
}

pub open spec fn failed() -> Outcome {
    Outcome { ok: false, vars: Seq::empty(), spans: Seq::empty() }
}

pub open spec fn done(vars: Seq<LocalVar>, spans: Seq<Span>) -> Outcome {
    Outcome { ok: true, vars, spans }
}

/// `a` then `b`: fails when either does; names and spans accumulate.
pub open spec fn seq2(a: Outcome, b: Outcome) -> Outcome {
    if a.ok && b.ok {
        done(b.vars, a.spans + b.spans)
    } else {
        failed()
    }
}

/// `a` followed by the export of `s`.
pub open spec fn then_export(a: Outcome, s: Span) -> Outcome {
    if a.ok {
        done(a.vars, a.spans.push(s))
    } else {
        failed()
    }
}

/// Lowering an expression: scope markers are skipped.
pub open spec fn run_expr(cx: Ctx, v: Seq<LocalVar>, e: HostExpr) -> Outcome
    decreases e, 2int,
{
    match e.kind {
        HostExprKind::Scope { value, .. } => run_expr(cx, v, *value),
        _ => run_unrolled(cx, v, e),
    }
}

/// Lowering a node that is not a scope marker.
pub open spec fn run_unrolled(cx: Ctx, v: Seq<LocalVar>, u: HostExpr) -> Outcome
    decreases u, 1int,
{
    match first_foldable(cx, u.backtrace@) {
        Some(i) => {
            let x = u.backtrace@[i];
            if invocation_argument(cx, x) is Ok {
                done(v, seq![x.call_site, u.span])
            } else {
                failed()
            }
        },
        None => then_export(run_kind(cx, v, u), u.span),
    }
}

pub open spec fn run_opt(cx: Ctx, v: Seq<LocalVar>, e: Option<Box<HostExpr>>) -> Outcome
    decreases e, 0int,
{
    match e {
        Some(x) => run_expr(cx, v, *x),
        None => done(v, Seq::empty()),
    }
}

/// Lowering the contents of `u`, a node that is not a scope marker and that
/// no macro expansion folds; its own span is exported after.
pub open spec fn run_kind(cx: Ctx, v: Seq<LocalVar>, u: HostExpr) -> Outcome
    decreases u, 0int,
{
    match u.kind {
        HostExprKind::NonHirLiteral { lit } => if decode_scalar(cx.pointer_bytes, lit, u.ty) is Ok {
            done(v, seq![u.span])
        } else {
            failed()
        },
        HostExprKind::ZstLiteral { .. } => done(v, Seq::empty()),
        HostExprKind::Field { lhs, variant_index, name } => match lhs.shape {
            TyShape::Adt { adt, .. } => if adt < cx.adts.len() && field_exists(
                cx.adts@[adt as int],
                variant_index as int,
                name as int,
            ) {
                run_expr(cx, v, *lhs)
            } else {
                failed()
            },
            TyShape::Tuple => run_expr(cx, v, *lhs),
            _ => failed(),
        },
        HostExprKind::Literal { .. } => done(v, Seq::empty()),
        HostExprKind::VarRef { var, .. } => if lookup_var(v, var) is Some {
            done(v, Seq::empty())
        } else {
            failed()
        },
        HostExprKind::Borrow { arg, .. } => run_expr(cx, v, *arg),
        HostExprKind::Deref { arg } => run_expr(cx, v, *arg),
        HostExprKind::Unary { arg, .. } => run_expr(cx, v, *arg),
        HostExprKind::Binary { lhs, rhs, .. } => {
            let a = run_expr(cx, v, *lhs);
            seq2(a, run_expr(cx, a.vars, *rhs))
        },
        HostExprKind::LogicalOp { lhs, rhs, .. } => {
            let a = run_expr(cx, v, *lhs);
            seq2(a, run_expr(cx, a.vars, *rhs))
        },
        HostExprKind::Cast { source } => run_expr(cx, v, *source),
        HostExprKind::Use { source } => run_expr(cx, v, *source),
        HostExprKind::NeverToAny { source } => run_expr(cx, v, *source),
        HostExprKind::If { cond, then, else_opt, .. } => {
            let a = run_expr(cx, v, *cond);
            let b = run_expr(cx, a.vars, *then);
            seq2(a, seq2(b, run_opt(cx, b.vars, else_opt)))
        },
        HostExprKind::Loop { body } => run_expr(cx, v, *body),
        HostExprKind::Match { scrutinee, arms } => {
            let a = run_expr(cx, v, *scrutinee);
            seq2(a, run_arms(cx, a.vars, arms@, 0))
        },
        HostExprKind::Let { expr, pat } => {
            let a = run_expr(cx, v, *expr);
            seq2(a, run_pat(cx, a.vars, *pat))
        },
        HostExprKind::Block { block } => if block.stmts.len() == 0 && block.expr is Some
            && block.safety_mode is Safe && !block.targeted_by_break {
            run_expr(cx, v, *block.expr->0)
        } else {
            run_block(cx, v, block)
        },
        HostExprKind::Assign { lhs, rhs } => {
            let a = run_expr(cx, v, *lhs);
            seq2(a, run_expr(cx, a.vars, *rhs))
        },
        HostExprKind::AssignOp { lhs, rhs, .. } => {
            let a = run_expr(cx, v, *lhs);
            seq2(a, run_expr(cx, a.vars, *rhs))
        },
        HostExprKind::Index { lhs, index } => {
            let a = run_expr(cx, v, *lhs);
            seq2(a, run_expr(cx, a.vars, *index))
        },
        HostExprKind::Call { ty_shape, fun, args, fn_span, .. } => {
            let callee = run_callee(cx, v, ty_shape, *fun);
            then_export(seq2(callee, run_exprs(cx, callee.vars, args@, 0)), fn_span)
        },
        HostExprKind::Adt { adt, variant_index, fields, base, .. } => if adt < cx.adts.len()
            && variant_index < cx.adts@[adt as int].variants.len()
            && cx.adts@[adt as int].did.path.len() > 0 {
            let a = run_fields(cx, v, adt, variant_index, fields@, 0);
            seq2(
                a,
                match base {
                    Some(fru) => run_expr(cx, a.vars, *fru.base),
                    None => done(a.vars, Seq::empty()),
                },
            )
        } else {
            failed()
        },
        HostExprKind::Tuple { fields } => run_exprs(cx, v, fields@, 0),
        HostExprKind::Array { fields } => run_exprs(cx, v, fields@, 0),
        HostExprKind::Return { value } => run_opt(cx, v, value),
        HostExprKind::Break { value, .. } => run_opt(cx, v, value),
        HostExprKind::Continue { .. } => done(v, Seq::empty()),
        HostExprKind::Unmodeled { .. } => done(v, Seq::empty()),
        HostExprKind::Scope { .. } => failed(),
    }
}

/// Lowering a callee: a variable of function-pointer type, or a function
/// item, whose span is then exported.
pub open spec fn run_callee(cx: Ctx, v: Seq<LocalVar>, ty_shape: TyShape, fun: HostExpr) -> Outcome
    decreases fun, 3int,
{
    let f = unrolled(fun);
    match f.kind {
        HostExprKind::VarRef { .. } => if ty_shape is FnPtr {
            run_expr(cx, v, fun)
        } else {
            failed()
        },
        HostExprKind::ZstLiteral { .. } => if ty_shape is FnDef {
            done(v, seq![f.span])
        } else {
            failed()
        },
        _ => failed(),
    }
}

/// Lowering `es[i..]` in order.
pub open spec fn run_exprs(cx: Ctx, v: Seq<LocalVar>, es: Seq<HostExpr>, i: int) -> Outcome
    decreases es, es.len() - i,
{
    if i < 0 || i >= es.len() {
        done(v, Seq::empty())
    } else {
        let a = run_expr(cx, v, es[i]);
        seq2(a, run_exprs(cx, a.vars, es, i + 1))
    }
}

/// Lowering field initializers `fs[i..]` of variant `vi` of type `adt`.
pub open spec fn run_fields(
    cx: Ctx,
    v: Seq<LocalVar>,
    adt: usize,
    vi: usize,
    fs: Seq<HostFieldExpr>,
    i: int,
) -> Outcome
    decreases fs, fs.len() - i,
{
    if i < 0 || i >= fs.len() {
        done(v, Seq::empty())
    } else if !field_exists(cx.adts@[adt as int], vi as int, fs[i].field as int) {
        failed()
    } else {
        let a = run_expr(cx, v, fs[i].expr);
        seq2(a, run_fields(cx, a.vars, adt, vi, fs, i + 1))
    }
}

/// Lowering a block: its span, its statements, its trailing expression.
pub open spec fn run_block(cx: Ctx, v: Seq<LocalVar>, b: HostBlock) -> Outcome
    decreases b, 0int,
{
    let a = run_stmts(cx, v, b.stmts@, 0);
    seq2(done(v, seq![b.span]), seq2(a, run_opt(cx, a.vars, b.expr)))
}

pub open spec fn run_stmts(cx: Ctx, v: Seq<LocalVar>, ss: Seq<HostStmt>, i: int) -> Outcome
    decreases ss, ss.len() - i,
{
    if i < 0 || i >= ss.len() {
        done(v, Seq::empty())
    } else {
        let a = run_stmt(cx, v, ss[i]);
        seq2(a, run_stmts(cx, a.vars, ss, i + 1))
    }
}

pub open spec fn run_stmt(cx: Ctx, v: Seq<LocalVar>, s: HostStmt) -> Outcome
    decreases s, 0int,
{
    match s.kind {
        HostStmtKind::Expr { expr, .. } => run_expr(cx, v, expr),
        HostStmtKind::Let { pattern, initializer, else_block, .. } => {
            let a = run_pat(cx, v, pattern);
            let b = match initializer {
                Some(i) => run_expr(cx, a.vars, i),
                None => done(a.vars, Seq::empty()),
            };
            seq2(
                a,
                seq2(
                    b,
                    match else_block {
                        Some(eb) => run_block(cx, b.vars, eb),
                        None => done(b.vars, Seq::empty()),
                    },
                ),
            )
        },
    }
}

pub open spec fn run_arms(cx: Ctx, v: Seq<LocalVar>, arms: Seq<HostArm>, i: int) -> Outcome
    decreases arms, arms.len() - i,
{
    if i < 0 || i >= arms.len() {
        done(v, Seq::empty())
    } else {
        let a = run_arm(cx, v, arms[i]);
        seq2(a, run_arms(cx, a.vars, arms, i + 1))
    }
}

/// Lowering an arm: pattern, guard, body, then the arm's span.
pub open spec fn run_arm(cx: Ctx, v: Seq<LocalVar>, a: HostArm) -> Outcome
    decreases a, 0int,
{
    let p = run_pat(cx, v, a.pattern);
    let g = match a.guard {
        Some(x) => run_expr(cx, p.vars, x),
        None => done(p.vars, Seq::empty()),
    };
    then_export(seq2(p, seq2(g, run_expr(cx, g.vars, a.body))), a.span)
}

/// Lowering a pattern: a binding records its name before its subpattern;
/// the pattern's own span is exported last.
pub open spec fn run_pat(cx: Ctx, v: Seq<LocalVar>, p: HostPat) -> Outcome
    decreases p, 1int,
{
    then_export(run_pat_kind(cx, v, p), p.span)
}

pub open spec fn run_pat_kind(cx: Ctx, v: Seq<LocalVar>, p: HostPat) -> Outcome
    decreases p, 0int,
{
    match p.kind {
        HostPatKind::Wild => done(v, Seq::empty()),
        HostPatKind::Binding { name, var, subpattern, .. } => {
            let w = v.push(LocalVar { var, name });
            match subpattern {
                Some(sp) => run_pat(cx, w, *sp),
                None => done(w, Seq::empty()),
            }
        },
        HostPatKind::Variant { adt, variant_index, subpatterns, .. } => if adt < cx.adts.len()
            && variant_index < cx.adts@[adt as int].variants.len()
            && cx.adts@[adt as int].did.path.len() > 0 {
            run_field_pats(cx, v, adt, variant_index, subpatterns@, 0)
        } else {
            failed()
        },
        HostPatKind::Leaf { subpatterns } => match p.shape {
            TyShape::Adt { adt, .. } => if adt < cx.adts.len() && 0 < cx.adts@[
                adt as int
            ].variants.len() && cx.adts@[adt as int].did.path.len() > 0 {
                run_field_pats(cx, v, adt, 0, subpatterns@, 0)
            } else {
                failed()
            },
            TyShape::Tuple => run_tuple_pats(cx, v, subpatterns@, 0),
            _ => failed(),
        },
        HostPatKind::Deref { subpattern } => run_pat(cx, v, *subpattern),
        HostPatKind::Constant { value, .. } => run_constant(cx, v, value),
        HostPatKind::Or { pats } => run_pats(cx, v, pats@, 0),
    }
}

pub open spec fn run_pats(cx: Ctx, v: Seq<LocalVar>, ps: Seq<HostPat>, i: int) -> Outcome
    decreases ps, ps.len() - i,
{
    if i < 0 || i >= ps.len() {
        done(v, Seq::empty())
    } else {
        let a = run_pat(cx, v, ps[i]);
        seq2(a, run_pats(cx, a.vars, ps, i + 1))
    }
}

pub open spec fn run_field_pats(
    cx: Ctx,
    v: Seq<LocalVar>,
    adt: usize,
    vi: usize,
    fs: Seq<HostFieldPat>,
    i: int,
) -> Outcome
    decreases fs, fs.len() - i,
{
    if i < 0 || i >= fs.len() {
        done(v, Seq::empty())
    } else if !field_exists(cx.adts@[adt as int], vi as int, fs[i].field as int) {
        failed()
    } else {
        let a = run_pat(cx, v, fs[i].pattern);
        seq2(a, run_field_pats(cx, a.vars, adt, vi, fs, i + 1))
    }
}

pub open spec fn run_tuple_pats(cx: Ctx, v: Seq<LocalVar>, fs: Seq<HostFieldPat>, i: int) -> Outcome
    decreases fs, fs.len() - i,
{
    if i < 0 || i >= fs.len() {
        done(v, Seq::empty())
    } else {
        let a = run_pat(cx, v, fs[i].pattern);
        seq2(a, run_tuple_pats(cx, a.vars, fs, i + 1))
    }
}

/// Lowering a constant: only one still in expression form can fail.
pub open spec fn run_constant(cx: Ctx, v: Seq<LocalVar>, c: HostConstant) -> Outcome
    decreases c, 0int,
{
    match c {
        HostConstant::Expr(e) => run_expr(cx, v, *e),
        _ => done(v, Seq::empty()),
    }
}

/// Skipping scope markers first changes nothing.
pub proof fn lemma_run_expr_unrolled(cx: Ctx, v: Seq<LocalVar>, e: HostExpr)
    ensures
        run_expr(cx, v, e) == run_expr(cx, v, unrolled(e)),
        run_expr(cx, v, e) == run_unrolled(cx, v, unrolled(e)),
    decreases e,
{
    match e.kind {
        HostExprKind::Scope { value, .. } => {
            lemma_run_expr_unrolled(cx, v, *value);
        },
        _ => {},
    }
}

} // verus!

verus! {

/// A call that went from state `a` to state `b`, succeeding when `ok`, did
/// what `o` says.
pub open spec fn follows(o: Outcome, a: crate::host::State, b: crate::host::State, ok: bool) -> bool {
    &&& ok == o.ok
    &&& ok ==> b.locals.entries@ == o.vars && b.exported.spans@ =~= a.exported.spans@ + o.spans
}

/// Lowering a whole list amounts to the spans `acc` exported so far,
/// followed by lowering the rest from where the run stands.
pub open spec fn resumes(whole: Outcome, rest: Outcome, acc: Seq<Span>) -> bool {
    &&& whole.ok == rest.ok
    &&& rest.ok ==> whole.vars == rest.vars && whole.spans == acc + rest.spans
}

pub proof fn lemma_resume_start(whole: Outcome)
    ensures
        resumes(whole, whole, Seq::empty()),
{
    assert(Seq::<Span>::empty() + whole.spans =~= whole.spans);
}

pub proof fn lemma_resume_step(whole: Outcome, a: Outcome, rest: Outcome, acc: Seq<Span>)
    requires
        resumes(whole, seq2(a, rest), acc),
        a.ok,
    ensures
        resumes(whole, rest, acc + a.spans),
{
    if rest.ok {
        assert(acc + (a.spans + rest.spans) =~= acc + a.spans + rest.spans);
    }
}

pub proof fn lemma_resume_end(whole: Outcome, v: Seq<LocalVar>, acc: Seq<Span>)
    requires
        resumes(whole, done(v, Seq::empty()), acc),
    ensures
        whole.ok,
        whole.vars == v,
        whole.spans == acc,
{
    assert(acc + Seq::<Span>::empty() =~= acc);
}

} // verus!

verus! {

/// Lowering a parameter: its pattern, then the span of its type.
pub open spec fn run_param(cx: Ctx, v: Seq<LocalVar>, p: crate::host::HostParam) -> Outcome {
    let a = match p.pat {
        Some(pt) => run_pat(cx, v, pt),
        None => done(v, Seq::empty()),
    };
    match p.ty_span {
        Some(s) => then_export(a, s),
        None => a,
    }
}

pub open spec fn run_params(cx: Ctx, v: Seq<LocalVar>, ps: Seq<crate::host::HostParam>, i: int) -> Outcome
    decreases ps.len() - i,
{
    if i < 0 || i >= ps.len() {
        done(v, Seq::empty())
    } else {
        let a = run_param(cx, v, ps[i]);
        seq2(a, run_params(cx, a.vars, ps, i + 1))
    }
}

/// Lowering a function, with no local names known at first: parameters,
/// body, then the span of the signature.
pub open spec fn run_fn(cx: Ctx, f: crate::host::HostFn) -> Outcome {
    let p = run_params(cx, Seq::empty(), f.params@, 0);
    then_export(seq2(p, run_expr(cx, p.vars, f.body)), f.sig_span)
}

/// Lowering a declaration; its span and the span of its visibility are
/// exported last. Local names are untouched.
pub open spec fn run_item(cx: Ctx, it: crate::host::HostItem) -> Outcome
    decreases it, 0int, 0int,
{
    let k = match it.kind {
        crate::host::HostItemKind::Fn { def, .. } => run_fn(cx, def),
        crate::host::HostItemKind::Const { body, .. } => run_expr(cx, Seq::empty(), body),
        crate::host::HostItemKind::Static { body, .. } => run_expr(cx, Seq::empty(), body),
        crate::host::HostItemKind::Mod { items } => done(Seq::empty(), decls_spans(cx, items@, 0)),
        _ => done(Seq::empty(), Seq::empty()),
    };
    if k.ok {
        done(Seq::empty(), k.spans + seq![it.span, it.vis_span])
    } else {
        failed()
    }
}

/// The grouping key of a declaration: the call site of the innermost
/// expansion of its span that folds, if any.
pub open spec fn fold_key(cx: Ctx, it: crate::host::HostItem) -> Option<Span> {
    match first_foldable(cx, it.backtrace@) {
        Some(i) => Some(it.backtrace@[i].call_site),
        None => None,
    }
}

/// Two keys group together: both absent, or the same call site.
pub open spec fn same_key(a: Option<Span>, b: Option<Span>) -> bool {
    match (a, b) {
        (None, None) => true,
        (Some(x), Some(y)) => crate::span::same_span(x, y),
        _ => false,
    }
}

/// The spans that lowering declarations `its[i..]` exports: those of each
/// declaration that lowers; one that fails is given up on its own, and
/// exports nothing.
pub open spec fn decls_spans(cx: Ctx, its: Seq<crate::host::HostItem>, i: int) -> Seq<Span>
    decreases its, its.len() - i, 1int,
{
    if i < 0 || i >= its.len() {
        Seq::empty()
    } else {
        let a = item_step(cx, its, i);
        (if a.ok {
            a.spans
        } else {
            Seq::empty()
        }) + decls_spans(cx, its, i + 1)
    }
}

/// Declaration `i` does not extend the run before it: it is the first, or
/// its key differs from the key of the one before.
pub open spec fn starts_run(cx: Ctx, its: Seq<crate::host::HostItem>, i: int) -> bool {
    i == 0 || !same_key(fold_key(cx, its[i - 1]), fold_key(cx, its[i]))
}

/// Declaration `i` gives a node: it lowers, and it is not folded into the
/// invocation of the run before it.
pub open spec fn gives_node(cx: Ctx, its: Seq<crate::host::HostItem>, i: int) -> bool {
    item_step(cx, its, i).ok && (fold_key(cx, its[i]) is None || starts_run(cx, its, i))
}

/// How many nodes the first `n` declarations give.
pub open spec fn node_count(cx: Ctx, its: Seq<crate::host::HostItem>, n: int) -> nat
    decreases n,
{
    if n <= 0 {
        0
    } else {
        node_count(cx, its, n - 1) + if gives_node(cx, its, n - 1) {
            1nat
        } else {
            0nat
        }
    }
}


/// What declaration `its[i]` gives within its list.
pub open spec fn item_step(cx: Ctx, its: Seq<crate::host::HostItem>, i: int) -> Outcome
    decreases its, its.len() - i, 0int,
{
    if i < 0 || i >= its.len() {
        done(Seq::empty(), Seq::empty())
    } else {
        let it = its[i];
        match first_foldable(cx, it.backtrace@) {
            Some(b) => if i > 0 && same_key(fold_key(cx, its[i - 1]), fold_key(cx, it)) {
                done(Seq::empty(), Seq::empty())
            } else if invocation_argument(cx, it.backtrace@[b]) is Ok {
                let c = it.backtrace@[b].call_site;
                done(Seq::empty(), seq![c, c, cx.dummy_span])
            } else {
                failed()
            },
            None => run_item(cx, it),
        }
    }
}

/// A declaration that gives a node comes before every later node.
pub proof fn lemma_node_count_grows(cx: Ctx, its: Seq<crate::host::HostItem>, i: int, j: int)
    requires
        0 <= i < j,
        gives_node(cx, its, i),
    ensures
        node_count(cx, its, i) < node_count(cx, its, j),
    decreases j,
{
    if j > i + 1 {
        lemma_node_count_grows(cx, its, i, j - 1);
    }
}

/// How many errors lowering declaration `it` records: those of the
/// declarations of a module that were given up.
pub open spec fn item_fatals(cx: Ctx, it: crate::host::HostItem) -> nat
    decreases it, 0int,
{
    match it.kind {
        crate::host::HostItemKind::Mod { items } => decls_fatals(cx, items@, 0),
        _ => 0,
    }
}

/// How many errors lowering declarations `its[i..]` records: one for each
/// declaration or folded run that is given up, and those recorded inside
/// the declarations that lower.
pub open spec fn decls_fatals(cx: Ctx, its: Seq<crate::host::HostItem>, i: int) -> nat
    decreases its, its.len() - i,
{
    if i < 0 || i >= its.len() {
        0
    } else {
        (if item_step(cx, its, i).ok {
            if fold_key(cx, its[i]) is None {
                item_fatals(cx, its[i])
            } else {
                0
            }
        } else {
            1nat
        }) + decls_fatals(cx, its, i + 1)
    }
}

} // verus!
