//! Lowering of typed bodies into the portable tree: expressions, patterns,
//! blocks, statements, match arms and constants.
use vstd::prelude::*;
use crate::adt::{describes_site, field_def_id, field_id_view, get_variant_information};
use crate::ast::{
    Arm, Block, ConstantKind, Decorated, Expr, ExprKind, FieldExpr, FieldPat, FruInfo, Guard,
    LitKind, Pat, PatKind, Stmt, StmtKind, TypedConstantKind,
};
use crate::constant::{decode_scalar, scalar_int_to_literal};
use crate::host::{
    grows, lemma_grows_refl, lemma_grows_trans, lookup_var, Ctx, Fatal, FatalReason, HostArm, HostBlock, HostConstant, HostExpr,
    HostExprKind, HostFieldExpr, HostFieldPat, HostPat, HostPatKind, HostStmt, HostStmtKind, State,
    TyShape,
};
use crate::ids::LocalIdent;
use crate::macros::{first_foldable, invocation_argument, macro_invocation_of_span};
use crate::scope::{hir_id_and_attributes, unroll_scope, unrolled};
use crate::span::{Span, Spanned};
use crate::outcome::{
    follows, lemma_resume_end, lemma_resume_start, lemma_resume_step, lemma_run_expr_unrolled,
    resumes, run_arm, run_arms, run_block, run_callee, run_constant, run_expr, run_exprs,
    run_field_pats, run_fields, run_kind, run_opt, run_pat, run_pats, run_stmt, run_stmts,
    run_tuple_pats,
};

verus! {

broadcast use vstd::std_specs::vec::axiom_vec_index_decreases, crate::host::lemma_grows_refl, crate::host::lemma_grows_trans;

proof fn lemma_unrolled_smaller(e: HostExpr)
    ensures
        unrolled(e) == e || decreases_to!(e => unrolled(e)),
    decreases e,
{
    match e.kind {
        HostExprKind::Scope { value, .. } => {
            lemma_unrolled_smaller(*value);
        },
        _ => {},
    }
}

/// A block that is nothing but a safe trailing expression, and that no
/// `break` targets.
pub open spec fn is_trivial_block(b: HostBlock) -> bool {
    &&& b.stmts.len() == 0
    &&& b.expr is Some
    &&& b.safety_mode is Safe
    &&& !b.targeted_by_break
}

/// The top node of the lowering of `u`, a node under no scope marker, as far
/// as it is determined by `u` itself; `vars` are the names known before.
pub open spec fn top_matches(cx: Ctx, vars: Seq<crate::host::LocalVar>, u: HostExpr, k: ExprKind) -> bool
    decreases u, 3int,
{
    match first_foldable(cx, u.backtrace@) {
        Some(i) => {
            let e = u.backtrace@[i];
            k matches ExprKind::MacroInvokation(m) && m.macro_ident@ == e.macro_def_id->0@
                && invocation_argument(cx, e) == Ok::<Seq<char>, crate::span::ReadSpanErr>(m.argument@)
                && m.span == e.call_site
        },
        None => kind_matches(cx, vars, u.ty, u.shape, u.span, u.kind, k),
    }
}

/// The contents `k` that node shape `kind`, of type `ty` with shape `shape`
/// at `span`, lowers to when no macro expansion folds it.
pub open spec fn kind_matches(
    cx: Ctx,
    vars: Seq<crate::host::LocalVar>,
    ty: crate::ast::Ty,
    shape: TyShape,
    span: Span,
    kind: HostExprKind,
    k: ExprKind,
) -> bool
    decreases kind, 2int,
{
        match kind {
            HostExprKind::NonHirLiteral { lit } => k matches ExprKind::Literal { lit: l, neg }
                && !neg && l.span == span && decode_scalar(cx.pointer_bytes, lit, ty) == Ok::<
                LitKind,
                FatalReason,
            >(l.node),
            HostExprKind::ZstLiteral { user_ty } => match shape {
                TyShape::FnDef { def } => k == ExprKind::GlobalName { id: def },
                _ => k == ExprKind::ZstLiteral { user_ty },
            },
            HostExprKind::Field { lhs, variant_index, name } => match lhs.shape {
                TyShape::Adt { adt, .. } => k matches ExprKind::Field { field, lhs: l } && field@
                    == field_id_view(cx.adts@[adt as int], variant_index as int, name as int)
                    && lowers_to(cx, vars, *lhs, l),
                _ => k matches ExprKind::TupleField { field, lhs: l } && field == name
                    && lowers_to(cx, vars, *lhs, l),
            },
            HostExprKind::Literal { lit, neg } => k == ExprKind::Literal { lit, neg },
            HostExprKind::VarRef { var, hir_id } => k matches ExprKind::VarRef { id } && lookup_var(
                vars,
                var,
            ) == Some(id.name@) && id.id == hir_id,
            HostExprKind::Borrow { borrow_kind, arg } => k matches ExprKind::Borrow {
                borrow_kind: b,
                arg: a,
            } && b == borrow_kind && lowers_to(cx, vars, *arg, a),
            HostExprKind::Deref { arg } => k matches ExprKind::Deref { arg: a } && lowers_to(
                cx,
                vars,
                *arg,
                a,
            ),
            HostExprKind::Unary { op, arg } => k matches ExprKind::Unary { op: o, arg: a } && o == op
                && lowers_to(cx, vars, *arg, a),
            HostExprKind::Binary { op, lhs, rhs } => k matches ExprKind::Binary {
                op: o,
                lhs: l,
                rhs: r,
            } && o == op && lowers_to(cx, vars, *lhs, l) && lowers_to(
                cx,
                run_expr(cx, vars, *lhs).vars,
                *rhs,
                r,
            ),
            HostExprKind::LogicalOp { op, lhs, rhs } => k matches ExprKind::LogicalOp {
                op: o,
                lhs: l,
                rhs: r,
            } && o == op && lowers_to(cx, vars, *lhs, l) && lowers_to(
                cx,
                run_expr(cx, vars, *lhs).vars,
                *rhs,
                r,
            ),
            HostExprKind::Cast { source } => k matches ExprKind::Cast { source: a } && lowers_to(
                cx,
                vars,
                *source,
                a,
            ),
            HostExprKind::Use { source } => k matches ExprKind::Use { source: a } && lowers_to(
                cx,
                vars,
                *source,
                a,
            ),
            HostExprKind::NeverToAny { source } => k matches ExprKind::NeverToAny { source: a }
                && lowers_to(cx, vars, *source, a),
            HostExprKind::If { if_then_scope, cond, then, else_opt } => k matches ExprKind::If {
                if_then_scope: s,
                cond: c,
                then: t,
                else_opt: eo,
            } && s == if_then_scope && lowers_to(cx, vars, *cond, c) && lowers_to(
                cx,
                run_expr(cx, vars, *cond).vars,
                *then,
                t,
            ) && match (else_opt, eo) {
                (Some(h), Some(o)) => lowers_to(
                    cx,
                    run_expr(cx, run_expr(cx, vars, *cond).vars, *then).vars,
                    *h,
                    o,
                ),
                (None, None) => true,
                _ => false,
            },
            HostExprKind::Loop { body } => k matches ExprKind::Loop { body: b } && lowers_to(
                cx,
                vars,
                *body,
                b,
            ),
            HostExprKind::Match { scrutinee, arms } => k matches ExprKind::Match {
                scrutinee: sc,
                arms: a,
            } && lowers_to(cx, vars, *scrutinee, sc) && a.len() == arms.len() && forall|j: int|
                0 <= j < arms.len() ==> arm_lowers(
                    cx,
                    arms_vars(cx, run_expr(cx, vars, *scrutinee).vars, arms@, j),
                    arms@[j],
                    #[trigger] a@[j],
                ),
            HostExprKind::Let { expr, pat } => k matches ExprKind::Let { expr: x, pat: q } && lowers_to(
                cx,
                vars,
                *expr,
                x,
            ) && pat_lowers(cx, run_expr(cx, vars, *expr).vars, *pat, q),
            HostExprKind::Block { block } => if is_trivial_block(block) {
                top_matches_expr(cx, vars, *block.expr->0, k)
            } else {
                k matches ExprKind::Block { block: b } && block_lowers(cx, vars, block, b)
            },
            HostExprKind::Assign { lhs, rhs } => k matches ExprKind::Assign { lhs: l, rhs: r }
                && lowers_to(cx, vars, *lhs, l) && lowers_to(
                cx,
                run_expr(cx, vars, *lhs).vars,
                *rhs,
                r,
            ),
            HostExprKind::AssignOp { op, lhs, rhs } => k matches ExprKind::AssignOp {
                op: o,
                lhs: l,
                rhs: r,
            } && o == op && lowers_to(cx, vars, *lhs, l) && lowers_to(
                cx,
                run_expr(cx, vars, *lhs).vars,
                *rhs,
                r,
            ),
            HostExprKind::Index { lhs, index } => k matches ExprKind::Index { lhs: l, index: r }
                && lowers_to(cx, vars, *lhs, l) && lowers_to(
                cx,
                run_expr(cx, vars, *lhs).vars,
                *index,
                r,
            ),
            HostExprKind::Call { ty, ty_shape, fun, args, from_hir_call, fn_span } => k matches ExprKind::Call {
                ty: t,
                args: a,
                from_hir_call: h,
                fn_span: s,
                ..
            } && t == ty && a.len() == args.len() && h == from_hir_call && s == fn_span && forall|j: int|
                0 <= j < args.len() ==> lowers_to(
                    cx,
                    exprs_vars(cx, run_callee(cx, vars, ty_shape, *fun).vars, args@, j),
                    args@[j],
                    #[trigger] a@[j],
                ),
            HostExprKind::Adt { adt, variant_index, user_ty, fields, base } => k matches ExprKind::Adt(
                a,
            ) && describes_site(a.info, cx.adts@[adt as int], variant_index as int) && a.user_ty
                == user_ty && a.fields.len() == fields.len() && (forall|j: int|
                0 <= j < fields.len() ==> (#[trigger] a.fields@[j]).field@ == field_id_view(
                    cx.adts@[adt as int],
                    variant_index as int,
                    fields@[j].field as int,
                ) && lowers_to(cx, field_exprs_vars(cx, vars, fields@, j), fields@[j].expr, a.fields@[j].value))
                && match (base, a.base) {
                (Some(h), Some(o)) => o.field_types == h.field_types && lowers_to(
                    cx,
                    run_fields(cx, vars, adt, variant_index, fields@, 0).vars,
                    *h.base,
                    o.base,
                ),
                (None, None) => true,
                _ => false,
            },
            HostExprKind::Tuple { fields } => k matches ExprKind::Tuple { fields: f } && f.len()
                == fields.len() && forall|j: int|
                0 <= j < fields.len() ==> lowers_to(
                    cx,
                    exprs_vars(cx, vars, fields@, j),
                    fields@[j],
                    #[trigger] f@[j],
                ),
            HostExprKind::Array { fields } => k matches ExprKind::Array { fields: f } && f.len()
                == fields.len() && forall|j: int|
                0 <= j < fields.len() ==> lowers_to(
                    cx,
                    exprs_vars(cx, vars, fields@, j),
                    fields@[j],
                    #[trigger] f@[j],
                ),
            HostExprKind::Return { value } => k matches ExprKind::Return { value: v } && match (
                value,
                v,
            ) {
                (Some(h), Some(o)) => lowers_to(cx, vars, *h, o),
                (None, None) => true,
                _ => false,
            },
            HostExprKind::Break { label, value } => k matches ExprKind::Break { label: l, value: v }
                && l == label && match (value, v) {
                (Some(h), Some(o)) => lowers_to(cx, vars, *h, o),
                (None, None) => true,
                _ => false,
            },
            HostExprKind::Continue { label } => k == ExprKind::Continue { label },
            HostExprKind::Unmodeled { debug } => k == ExprKind::Todo(debug),
            HostExprKind::Scope { .. } => false,
        }
}

/// The names known before element `k` of `es` is lowered.
pub open spec fn exprs_vars(cx: Ctx, v: Seq<crate::host::LocalVar>, es: Seq<HostExpr>, k: int) -> Seq<crate::host::LocalVar>
    decreases k,
{
    if k <= 0 || k > es.len() {
        v
    } else {
        run_expr(cx, exprs_vars(cx, v, es, k - 1), es[k - 1]).vars
    }
}

/// The names known before field initializer `k` of `fs` is lowered.
pub open spec fn field_exprs_vars(cx: Ctx, v: Seq<crate::host::LocalVar>, fs: Seq<HostFieldExpr>, k: int) -> Seq<crate::host::LocalVar>
    decreases k,
{
    if k <= 0 || k > fs.len() {
        v
    } else {
        run_expr(cx, field_exprs_vars(cx, v, fs, k - 1), fs[k - 1].expr).vars
    }
}

/// The names known before statement `k` of `ss` is lowered.
pub open spec fn stmts_vars(cx: Ctx, v: Seq<crate::host::LocalVar>, ss: Seq<HostStmt>, k: int) -> Seq<crate::host::LocalVar>
    decreases k,
{
    if k <= 0 || k > ss.len() {
        v
    } else {
        run_stmt(cx, stmts_vars(cx, v, ss, k - 1), ss[k - 1]).vars
    }
}

/// The names known before arm `k` of `arms` is lowered.
pub open spec fn arms_vars(cx: Ctx, v: Seq<crate::host::LocalVar>, arms: Seq<HostArm>, k: int) -> Seq<crate::host::LocalVar>
    decreases k,
{
    if k <= 0 || k > arms.len() {
        v
    } else {
        run_arm(cx, arms_vars(cx, v, arms, k - 1), arms[k - 1]).vars
    }
}

/// A block: its span and flags, each statement the lowering of the host
/// statement, then the trailing expression.
pub open spec fn block_lowers(cx: Ctx, v: Seq<crate::host::LocalVar>, hb: HostBlock, b: Block) -> bool
    decreases hb, 3int,
{
    &&& b.span == hb.span
    &&& b.region_scope == hb.region_scope
    &&& b.opt_destruction_scope == hb.opt_destruction_scope
    &&& b.targeted_by_break == hb.targeted_by_break
    &&& b.safety_mode == hb.safety_mode
    &&& b.stmts.len() == hb.stmts.len()
    &&& forall|j: int|
        0 <= j < hb.stmts.len() ==> stmt_lowers(
            cx,
            stmts_vars(cx, v, hb.stmts@, j),
            hb.stmts@[j],
            #[trigger] b.stmts@[j],
        )
    &&& match (hb.expr, b.expr) {
        (Some(h), Some(o)) => lowers_to(cx, run_stmts(cx, v, hb.stmts@, 0).vars, *h, o),
        (None, None) => true,
        _ => false,
    }
}

/// A statement: an expression statement's expression, or a `let`'s
/// pattern, initializer and `else` block, each the lowering of its host node.
pub open spec fn stmt_lowers(cx: Ctx, v: Seq<crate::host::LocalVar>, s: HostStmt, o: Stmt) -> bool
    decreases s, 3int,
{
    &&& o.opt_destruction_scope == s.opt_destruction_scope
    &&& match s.kind {
        HostStmtKind::Expr { scope, expr } => o.kind matches StmtKind::Expr { scope: sc, expr: x }
            && sc == scope && lowers_to(cx, v, expr, x),
        HostStmtKind::Let {
            remainder_scope,
            init_scope,
            pattern,
            initializer,
            else_block,
            lint_level,
            attributes,
        } => o.kind matches StmtKind::Let {
            remainder_scope: rs,
            init_scope: is,
            pattern: p,
            initializer: i,
            else_block: eb,
            lint_level: ll,
            attributes: a,
        } && rs == remainder_scope && is == init_scope && ll == lint_level && a == attributes
            && pat_lowers(cx, v, pattern, p) && match (initializer, i) {
            (Some(h), Some(x)) => lowers_to(cx, run_pat(cx, v, pattern).vars, h, x),
            (None, None) => true,
            _ => false,
        } && match (else_block, eb) {
            (Some(h), Some(x)) => block_lowers(
                cx,
                match initializer {
                    Some(hi) => run_expr(cx, run_pat(cx, v, pattern).vars, hi).vars,
                    None => run_pat(cx, v, pattern).vars,
                },
                h,
                x,
            ),
            (None, None) => true,
            _ => false,
        },
    }
}

/// A match arm: its pattern, its guard, its body, each the lowering of its
/// host node with the names bound before it.
pub open spec fn arm_lowers(cx: Ctx, v: Seq<crate::host::LocalVar>, a: HostArm, o: Arm) -> bool
    decreases a, 3int,
{
    &&& o.scope == a.scope
    &&& o.span == a.span
    &&& o.attributes == a.attributes
    &&& o.lint_level == a.lint_level
    &&& pat_lowers(cx, v, a.pattern, o.pattern)
    &&& match (a.guard, o.guard) {
        (Some(h), Some(Guard::If(x))) => lowers_to(cx, run_pat(cx, v, a.pattern).vars, h, x),
        (None, None) => true,
        _ => false,
    }
    &&& lowers_to(
        cx,
        match a.guard {
            Some(g) => run_expr(cx, run_pat(cx, v, a.pattern).vars, g).vars,
            None => run_pat(cx, v, a.pattern).vars,
        },
        a.body,
        o.body,
    )
}

/// `top_matches` for the node under the scope markers of `x`.
pub open spec fn top_matches_expr(cx: Ctx, vars: Seq<crate::host::LocalVar>, x: HostExpr, k: ExprKind) -> bool
    decreases x, 4int,
{
    match x.kind {
        HostExprKind::Scope { value, .. } => top_matches_expr(cx, vars, *value, k),
        _ => top_matches(cx, vars, x, k),
    }
}

/// `r` carries the type, span and contents of the node under the scope
/// markers of `x`.
pub open spec fn body_lowers(cx: Ctx, vars: Seq<crate::host::LocalVar>, x: HostExpr, r: Expr) -> bool
    decreases x, 4int,
{
    match x.kind {
        HostExprKind::Scope { value, .. } => body_lowers(cx, vars, *value, r),
        _ => r.ty == x.ty && r.span == x.span && top_matches(cx, vars, x, *r.contents),
    }
}

/// The lowered node `r` stands for host node `e`: the type, span and
/// contents of the node under `e`'s scope markers, and the syntax-node id
/// and attributes of the outermost marker.
pub open spec fn lowers_to(cx: Ctx, vars: Seq<crate::host::LocalVar>, e: HostExpr, r: Expr) -> bool
    decreases e, 5int,
{
    match e.kind {
        HostExprKind::Scope { hir_id, attributes, value, .. } => r.hir_id == hir_id && r.attributes
            == attributes && body_lowers(cx, vars, *value, r),
        _ => r.hir_id is None && r.attributes@.len() == 0 && body_lowers(cx, vars, e, r),
    }
}

pub proof fn lemma_body_lowers_unrolled(cx: Ctx, v: Seq<crate::host::LocalVar>, x: HostExpr, r: Expr)
    ensures
        body_lowers(cx, v, x, r) == (r.ty == unrolled(x).ty && r.span == unrolled(x).span
            && top_matches(cx, v, unrolled(x), *r.contents)),
    decreases x,
{
    match x.kind {
        HostExprKind::Scope { value, .. } => lemma_body_lowers_unrolled(cx, v, *value, r),
        _ => {},
    }
}

/// `lowers_to` read on the node under the scope markers.
pub proof fn lemma_lowers_to_unrolled(cx: Ctx, v: Seq<crate::host::LocalVar>, e: HostExpr, r: Expr)
    ensures
        lowers_to(cx, v, e, r) == (r.ty == unrolled(e).ty && r.span == unrolled(e).span
            && match e.kind {
            HostExprKind::Scope { hir_id, attributes, .. } => r.hir_id == hir_id && r.attributes
                == attributes,
            _ => r.hir_id is None && r.attributes@.len() == 0,
        } && top_matches(cx, v, unrolled(e), *r.contents)),
{
    match e.kind {
        HostExprKind::Scope { value, .. } => lemma_body_lowers_unrolled(cx, v, *value, r),
        _ => lemma_body_lowers_unrolled(cx, v, e, r),
    }
}

pub proof fn lemma_top_matches_expr_unrolled(cx: Ctx, v: Seq<crate::host::LocalVar>, x: HostExpr, k: ExprKind)
    ensures
        top_matches_expr(cx, v, x, k) == top_matches(cx, v, unrolled(x), k),
    decreases x,
{
    match x.kind {
        HostExprKind::Scope { value, .. } => lemma_top_matches_expr_unrolled(cx, v, *value, k),
        _ => {},
    }
}

fn fatal(span: &Span, reason: FatalReason) -> (r: Fatal)
    ensures
        r.span == *span,
        r.reason == reason,
{
    Fatal { span: span.clone(), reason }
}

/// Lowers a sequence of expressions, in order.
#[verifier::loop_isolation(false)]
pub fn lower_exprs(cx: &Ctx, st: &mut State, es: Vec<HostExpr>) -> (r: Result<Vec<Expr>, Fatal>)
    ensures
        grows(*old(st), *final(st)),
        follows(run_exprs(*cx, old(st).locals.entries@, es@, 0), *old(st), *final(st), r is Ok),
        r matches Ok(v) ==> v.len() == es.len() && forall|j: int|
            0 <= j < es.len() ==> lowers_to(
                *cx,
                exprs_vars(*cx, old(st).locals.entries@, es@, j),
                es@[j],
                #[trigger] v@[j],
            ),
    decreases es, 0int,
{
    let ghost orig = es;
    let ghost st0 = *st;
    let ghost whole = run_exprs(*cx, st0.locals.entries@, orig@, 0);
    let ghost mut acc: Seq<Span> = Seq::empty();
    proof {
        lemma_grows_refl(*st);
        lemma_resume_start(whole);
    }
    let mut es = es;
    let mut out: Vec<Expr> = Vec::new();
    let n = es.len();
    assert(es@ =~= orig@.subrange(0, n as int));
    while es.len() > 0
        invariant
            n == orig.len(),
            out.len() + es.len() == n,
            es@ == orig@.subrange(out.len() as int, n as int),
            grows(st0, *st),
            st.locals.entries@ == exprs_vars(*cx, st0.locals.entries@, orig@, out.len() as int),
            forall|j: int|
                0 <= j < out.len() ==> lowers_to(
                    *cx,
                    exprs_vars(*cx, st0.locals.entries@, orig@, j),
                    orig@[j],
                    #[trigger] out@[j],
                ),
            resumes(whole, run_exprs(*cx, st.locals.entries@, orig@, out.len() as int), acc),
            st.exported.spans@ == st0.exported.spans@ + acc,
        decreases es.len(),
    {
        let ghost j = out.len();
        let x = es.remove(0);
        proof {
            assert(x == orig[j as int]);
            assert(decreases_to!(orig => orig[j as int]));
        }
        let ghost before = *st;
        match lower_expr(cx, st, x) {
            Ok(v) => {
                out.push(v);
            },
            Err(f) => {
                proof {
                    lemma_grows_trans(st0, before, *st);
                }
                return Err(f);
            },
        }
        proof {
            lemma_grows_trans(st0, before, *st);
            lemma_resume_step(whole, run_expr(*cx, before.locals.entries@, orig@[j as int]), run_exprs(*cx, run_expr(*cx, before.locals.entries@, orig@[j as int]).vars, orig@, j + 1), acc);
            assert(st0.exported.spans@ + acc + run_expr(*cx, before.locals.entries@, orig@[j as int]).spans =~= st0.exported.spans@ + (acc + run_expr(*cx, before.locals.entries@, orig@[j as int]).spans));
            acc = acc + run_expr(*cx, before.locals.entries@, orig@[j as int]).spans;
            assert(es@ =~= orig@.subrange(out.len() as int, n as int));
        }
    }
    proof {
        lemma_resume_end(whole, st.locals.entries@, acc);
    }
    Ok(out)
}

/// Lowers an optional boxed expression.
pub fn lower_opt_expr(cx: &Ctx, st: &mut State, e: Option<Box<HostExpr>>) -> (r: Result<Option<Expr>, Fatal>)
    ensures
        follows(run_opt(*cx, old(st).locals.entries@, e), *old(st), *final(st), r is Ok),
        grows(*old(st), *final(st)),
        r matches Ok(o) ==> (o is Some <==> e is Some),
        e matches Some(x) ==> (r matches Ok(Some(y)) ==> lowers_to(*cx, old(st).locals.entries@, *x, y)),
    decreases e, 0int,
{
    match e {
        Some(x) => match lower_expr(cx, st, *x) {
            Ok(y) => Ok(Some(y)),
            Err(f) => Err(f),
        },
        None => {
            proof {
                lemma_grows_refl(*st);
            }
            Ok(None)
        },
    }
}

/// Lowers the field initializers of a construction of variant
/// `variant_index` of type `adt`, resolving each field against that variant.
#[verifier::loop_isolation(false)]
fn lower_field_exprs(
    cx: &Ctx,
    st: &mut State,
    adt: usize,
    variant_index: usize,
    fields: Vec<HostFieldExpr>,
    span: &Span,
) -> (r: Result<Vec<FieldExpr>, Fatal>)
    requires
        adt < cx.adts.len(),
    ensures
        grows(*old(st), *final(st)),
        follows(run_fields(*cx, old(st).locals.entries@, adt, variant_index, fields@, 0), *old(st), *final(st), r is Ok),
        r matches Ok(v) ==> v.len() == fields.len() && forall|j: int|
            0 <= j < fields.len() ==> (#[trigger] v@[j]).field@ == field_id_view(
                cx.adts@[adt as int],
                variant_index as int,
                fields@[j].field as int,
            ) && lowers_to(
                *cx,
                field_exprs_vars(*cx, old(st).locals.entries@, fields@, j),
                fields@[j].expr,
                v@[j].value,
            ),
    decreases fields, 0int,
{
    let ghost orig = fields;
    let ghost st0 = *st;
    let ghost whole = run_fields(*cx, st0.locals.entries@, adt, variant_index, orig@, 0);
    let ghost mut acc: Seq<Span> = Seq::empty();
    proof {
        lemma_grows_refl(*st);
        lemma_resume_start(whole);
    }
    let mut fields = fields;
    let mut out: Vec<FieldExpr> = Vec::new();
    let n = fields.len();
    assert(fields@ =~= orig@.subrange(0, n as int));
    while fields.len() > 0
        invariant
            n == orig.len(),
            adt < cx.adts.len(),
            out.len() + fields.len() == n,
            fields@ == orig@.subrange(out.len() as int, n as int),
            grows(st0, *st),
            resumes(whole, run_fields(*cx, st.locals.entries@, adt, variant_index, orig@, out.len() as int), acc),
            st.exported.spans@ == st0.exported.spans@ + acc,
            st.locals.entries@ == field_exprs_vars(*cx, st0.locals.entries@, orig@, out.len() as int),
            forall|j: int|
                0 <= j < out.len() ==> (#[trigger] out@[j]).field@ == field_id_view(
                    cx.adts@[adt as int],
                    variant_index as int,
                    orig@[j].field as int,
                ) && lowers_to(
                    *cx,
                    field_exprs_vars(*cx, st0.locals.entries@, orig@, j),
                    orig@[j].expr,
                    out@[j].value,
                ),
        decreases fields.len(),
    {
        let ghost j = out.len();
        let x = fields.remove(0);
        proof {
            assert(x == orig[j as int]);
            assert(decreases_to!(orig => orig[j as int]));
        }
        let field = match field_def_id(&cx.adts[adt], variant_index, x.field) {
            Ok(d) => d,
            Err(e) => {
                return Err(fatal(span, FatalReason::Adt(e)));
            },
        };
        let ghost before = *st;
        proof {
            assert(decreases_to!(orig => x.expr));
        }
        match lower_expr(cx, st, x.expr) {
            Ok(value) => {
                out.push(FieldExpr { field, value });
            },
            Err(f) => {
                proof {
                    lemma_grows_trans(st0, before, *st);
                }
                return Err(f);
            },
        }
        proof {
            lemma_grows_trans(st0, before, *st);
            lemma_resume_step(whole, run_expr(*cx, before.locals.entries@, orig@[j as int].expr), run_fields(*cx, run_expr(*cx, before.locals.entries@, orig@[j as int].expr).vars, adt, variant_index, orig@, j + 1), acc);
            assert(st0.exported.spans@ + acc + run_expr(*cx, before.locals.entries@, orig@[j as int].expr).spans =~= st0.exported.spans@ + (acc + run_expr(*cx, before.locals.entries@, orig@[j as int].expr).spans));
            acc = acc + run_expr(*cx, before.locals.entries@, orig@[j as int].expr).spans;
            assert(fields@ =~= orig@.subrange(out.len() as int, n as int));
        }
    }
    proof {
        lemma_resume_end(whole, st.locals.entries@, acc);
    }
    Ok(out)
}

#[verifier::rlimit(100)]
/// Lowers a typed-body expression: scope markers are dropped (their
/// attributes kept), folded macro expansions become invocations, and each
/// node shape is mapped by its rule.
pub fn lower_expr(cx: &Ctx, st: &mut State, e: HostExpr) -> (r: Result<Expr, Fatal>)
    ensures
        follows(run_expr(*cx, old(st).locals.entries@, e), *old(st), *final(st), r is Ok),
        grows(*old(st), *final(st)),
        r matches Ok(x) ==> lowers_to(*cx, old(st).locals.entries@, e, x) && final(st).exported.spans@.contains(x.span),
    decreases e, 1int,
{
    let ghost e0 = e;
    proof {
        lemma_unrolled_smaller(e);
        lemma_run_expr_unrolled(*cx, st.locals.entries@, e);
    }
    let (hir_id, attributes, u) = hir_id_and_attributes(e);
    match macro_invocation_of_span(cx, st, &u.backtrace) {
        Some(Ok(m)) => {
            let span = st.export(&u.span);
            let res = Decorated {
                ty: u.ty,
                span,
                contents: Box::new(ExprKind::MacroInvokation(m)),
                hir_id,
                attributes,
            };
            proof {
                assert(st.exported.spans@[st.exported.spans@.len() - 1] == span);
                lemma_lowers_to_unrolled(*cx, old(st).locals.entries@, e0, res);
            }
            return Ok(res);
        },
        Some(Err(f)) => {
            return Err(f);
        },
        None => {},
    }
    let ghost u0 = u;
    let ghost vars0 = st.locals.entries@;
    let HostExpr { ty, shape, span, backtrace, kind } = u;
    let contents = lower_node(cx, st, &ty, shape, &span, kind, Ghost(e0))?;
    let span = st.export(&span);
    proof {
        assert(st.exported.spans@[st.exported.spans@.len() - 1] == span);
        assert(first_foldable(*cx, u0.backtrace@) is None);
        assert(kind_matches(*cx, vars0, u0.ty, u0.shape, u0.span, u0.kind, contents));
        assert(top_matches(*cx, vars0, u0, contents));
    }
    let res = Decorated { ty, span, contents: Box::new(contents), hir_id, attributes };
    proof {
        lemma_lowers_to_unrolled(*cx, old(st).locals.entries@, e0, res);
    }
    Ok(res)
}

/// Lowers the callee of a call inside `e`: a variable of function-pointer
/// type, or a function item, named by its identifier.
fn lower_callee(cx: &Ctx, st: &mut State, ty_shape: TyShape, fun: Box<HostExpr>, Ghost(e): Ghost<HostExpr>) -> (r: Result<Expr, Fatal>)
    requires
        decreases_to!(e => *fun),
    ensures
        grows(*old(st), *final(st)),
        follows(run_callee(*cx, old(st).locals.entries@, ty_shape, *fun), *old(st), *final(st), r is Ok),
    decreases *fun, 3int,
{
    proof {
        lemma_unrolled_smaller(*fun);
        lemma_run_expr_unrolled(*cx, st.locals.entries@, *fun);
    }
    let f = unroll_scope(*fun);
    let callee: u8 = match &f.kind {
        HostExprKind::VarRef { .. } => 1,
        HostExprKind::ZstLiteral { .. } => 2,
        _ => 0,
    };
    if callee == 1 {
        match ty_shape {
            TyShape::FnPtr => lower_expr(cx, st, f),
            _ => Err(fatal(&f.span, FatalReason::CallNotFnPtr)),
        }
    } else if callee == 2 {
        match ty_shape {
            TyShape::FnDef { def } => {
                let fspan = st.export(&f.span);
                proof {
                    assert(st.exported.spans@ =~= old(st).exported.spans@ + seq![f.span]);
                }
                Ok(
                    Decorated {
                        ty: f.ty,
                        span: fspan,
                        contents: Box::new(ExprKind::GlobalName { id: def }),
                        hir_id: None,
                        attributes: Vec::new(),
                    },
                )
            },
            _ => Err(fatal(&f.span, FatalReason::CallNotFnDef)),
        }
    } else {
        Err(fatal(&f.span, FatalReason::CallNotZstLiteral))
    }
}

#[verifier::rlimit(100)]
/// Lowers the contents of a node of shape `kind`, of type `ty` at `span`,
/// that sits under the scope markers of `e`.
fn lower_node(
    cx: &Ctx,
    st: &mut State,
    ty: &crate::ast::Ty,
    shape: TyShape,
    span: &Span,
    kind: HostExprKind,
    Ghost(e): Ghost<HostExpr>,
) -> (r: Result<ExprKind, Fatal>)
    requires
        unrolled(e).kind == kind,
        unrolled(e).ty == *ty,
        unrolled(e).shape == shape,
        unrolled(e).span == *span,
        unrolled(e) == e || decreases_to!(e => unrolled(e)),
    ensures
        follows(run_kind(*cx, old(st).locals.entries@, unrolled(e)), *old(st), *final(st), r is Ok),
        grows(*old(st), *final(st)),
        r matches Ok(k) ==> kind_matches(*cx, old(st).locals.entries@, *ty, shape, *span, kind, k),
    decreases e, 0int,
{
    let contents: ExprKind = match kind {
        HostExprKind::NonHirLiteral { lit } => {
            match scalar_int_to_literal(cx.pointer_bytes, lit, ty) {
                Ok(node) => {
                    let lspan = st.export(span);
                    ExprKind::Literal { lit: Spanned { node, span: lspan }, neg: false }
                },
                Err(reason) => {
                    return Err(fatal(span, reason));
                },
            }
        },
        HostExprKind::ZstLiteral { user_ty } => match shape {
            TyShape::FnDef { def } => ExprKind::GlobalName { id: def },
            _ => ExprKind::ZstLiteral { user_ty },
        },
        HostExprKind::Field { lhs, variant_index, name } => {
            match &lhs.shape {
                TyShape::Adt { adt, .. } => {
                    let adt = *adt;
                    if adt >= cx.adts.len() {
                        return Err(fatal(span, FatalReason::NoSuchType));
                    }
                    let field = match field_def_id(&cx.adts[adt], variant_index, name) {
                        Ok(d) => d,
                        Err(err) => {
                            return Err(fatal(span, FatalReason::Adt(err)));
                        },
                    };
                    let lhs = lower_expr(cx, st, *lhs)?;
                    ExprKind::Field { field, lhs }
                },
                TyShape::Tuple => {
                    let lhs = lower_expr(cx, st, *lhs)?;
                    ExprKind::TupleField { field: name, lhs }
                },
                _ => {
                    return Err(fatal(span, FatalReason::FieldOfNonAdt));
                },
            }
        },
        HostExprKind::Literal { lit, neg } => ExprKind::Literal { lit, neg },
        HostExprKind::VarRef { var, hir_id } => match st.locals.get(var) {
            Some(name) => ExprKind::VarRef { id: LocalIdent { name, id: hir_id } },
            None => {
                return Err(fatal(span, FatalReason::UnboundVariable));
            },
        },
        HostExprKind::Borrow { borrow_kind, arg } => {
            let arg = lower_expr(cx, st, *arg)?;
            ExprKind::Borrow { borrow_kind, arg }
        },
        HostExprKind::Deref { arg } => {
            let arg = lower_expr(cx, st, *arg)?;
            ExprKind::Deref { arg }
        },
        HostExprKind::Unary { op, arg } => {
            let arg = lower_expr(cx, st, *arg)?;
            ExprKind::Unary { op, arg }
        },
        HostExprKind::Binary { op, lhs, rhs } => {
            let lhs = lower_expr(cx, st, *lhs)?;
            let rhs = lower_expr(cx, st, *rhs)?;
            ExprKind::Binary { op, lhs, rhs }
        },
        HostExprKind::LogicalOp { op, lhs, rhs } => {
            let lhs = lower_expr(cx, st, *lhs)?;
            let rhs = lower_expr(cx, st, *rhs)?;
            ExprKind::LogicalOp { op, lhs, rhs }
        },
        HostExprKind::Cast { source } => {
            let source = lower_expr(cx, st, *source)?;
            ExprKind::Cast { source }
        },
        HostExprKind::Use { source } => {
            let source = lower_expr(cx, st, *source)?;
            ExprKind::Use { source }
        },
        HostExprKind::NeverToAny { source } => {
            let source = lower_expr(cx, st, *source)?;
            ExprKind::NeverToAny { source }
        },
        HostExprKind::If { if_then_scope, cond, then, else_opt } => {
            let cond = lower_expr(cx, st, *cond)?;
            let then = lower_expr(cx, st, *then)?;
            let else_opt = lower_opt_expr(cx, st, else_opt)?;
            ExprKind::If { if_then_scope, cond, then, else_opt }
        },
        HostExprKind::Loop { body } => {
            let body = lower_expr(cx, st, *body)?;
            ExprKind::Loop { body }
        },
        HostExprKind::Match { scrutinee, arms } => {
            let scrutinee = lower_expr(cx, st, *scrutinee)?;
            let arms = lower_arms(cx, st, arms)?;
            ExprKind::Match { scrutinee, arms }
        },
        HostExprKind::Let { expr, pat } => {
            let expr = lower_expr(cx, st, *expr)?;
            let pat = lower_pat(cx, st, *pat)?;
            ExprKind::Let { expr, pat }
        },
        HostExprKind::Block { block } => {
            let trivial = block.stmts.len() == 0 && block.expr.is_some() && match block.safety_mode {
                crate::ast::BlockSafety::Safe => true,
                _ => false,
            } && !block.targeted_by_break;
            if trivial {
                match block.expr {
                    Some(inner) => {
                        let ghost ih = *inner;
                        let ghost v0 = st.locals.entries@;
                        let x = lower_expr(cx, st, *inner)?;
                        proof {
                            lemma_lowers_to_unrolled(*cx, v0, ih, x);
                            lemma_top_matches_expr_unrolled(*cx, v0, ih, *x.contents);
                        }
                        *x.contents
                    },
                    None => {
                        return Err(fatal(span, FatalReason::UnexpectedShape));
                    },
                }
            } else {
                let block = lower_block(cx, st, block)?;
                ExprKind::Block { block }
            }
        },
        HostExprKind::Assign { lhs, rhs } => {
            let lhs = lower_expr(cx, st, *lhs)?;
            let rhs = lower_expr(cx, st, *rhs)?;
            ExprKind::Assign { lhs, rhs }
        },
        HostExprKind::AssignOp { op, lhs, rhs } => {
            let lhs = lower_expr(cx, st, *lhs)?;
            let rhs = lower_expr(cx, st, *rhs)?;
            ExprKind::AssignOp { op, lhs, rhs }
        },
        HostExprKind::Index { lhs, index } => {
            let lhs = lower_expr(cx, st, *lhs)?;
            let index = lower_expr(cx, st, *index)?;
            ExprKind::Index { lhs, index }
        },
        HostExprKind::Call { ty: fty, ty_shape, fun, args, from_hir_call, fn_span } => {
            proof {
                assert(decreases_to!(e => *fun));
            }
            let fun = lower_callee(cx, st, ty_shape, fun, Ghost(e))?;
            let args = lower_exprs(cx, st, args)?;
            let fn_span = st.export(&fn_span);
            ExprKind::Call { ty: fty, fun, args, from_hir_call, fn_span }
        },
        HostExprKind::Adt { adt, variant_index, user_ty, fields, base } => {
            if adt >= cx.adts.len() {
                return Err(fatal(span, FatalReason::NoSuchType));
            }
            let info = match get_variant_information(&cx.adts[adt], variant_index) {
                Ok(info) => info,
                Err(err) => {
                    return Err(fatal(span, FatalReason::Adt(err)));
                },
            };
            let fields = lower_field_exprs(cx, st, adt, variant_index, fields, span)?;
            let base = match base {
                Some(fru) => {
                    let b = lower_expr(cx, st, *fru.base)?;
                    Some(FruInfo { base: b, field_types: fru.field_types })
                },
                None => None,
            };
            ExprKind::Adt(crate::ast::AdtExpr { info, user_ty, fields, base })
        },
        HostExprKind::Tuple { fields } => {
            let fields = lower_exprs(cx, st, fields)?;
            ExprKind::Tuple { fields }
        },
        HostExprKind::Array { fields } => {
            let fields = lower_exprs(cx, st, fields)?;
            ExprKind::Array { fields }
        },
        HostExprKind::Return { value } => {
            let value = lower_opt_expr(cx, st, value)?;
            ExprKind::Return { value }
        },
        HostExprKind::Break { label, value } => {
            let value = lower_opt_expr(cx, st, value)?;
            ExprKind::Break { label, value }
        },
        HostExprKind::Continue { label } => ExprKind::Continue { label },
        HostExprKind::Unmodeled { debug } => ExprKind::Todo(debug),
        HostExprKind::Scope { .. } => {
            return Err(fatal(span, FatalReason::UnexpectedShape));
        },
    };
    Ok(contents)
}

/// Lowers a block: its statements in order, then its trailing expression.
pub fn lower_block(cx: &Ctx, st: &mut State, b: HostBlock) -> (r: Result<Block, Fatal>)
    ensures
        follows(run_block(*cx, old(st).locals.entries@, b), *old(st), *final(st), r is Ok),
        grows(*old(st), *final(st)),
        r matches Ok(x) ==> block_lowers(*cx, old(st).locals.entries@, b, x),
    decreases b, 0int,
{
    let span = st.export(&b.span);
    let stmts = lower_stmts(cx, st, b.stmts)?;
    let expr = lower_opt_expr(cx, st, b.expr)?;
    Ok(
        Block {
            targeted_by_break: b.targeted_by_break,
            region_scope: b.region_scope,
            opt_destruction_scope: b.opt_destruction_scope,
            span,
            stmts,
            expr,
            safety_mode: b.safety_mode,
        },
    )
}

/// Lowers statements in order.
#[verifier::loop_isolation(false)]
pub fn lower_stmts(cx: &Ctx, st: &mut State, ss: Vec<HostStmt>) -> (r: Result<Vec<Stmt>, Fatal>)
    ensures
        grows(*old(st), *final(st)),
        follows(run_stmts(*cx, old(st).locals.entries@, ss@, 0), *old(st), *final(st), r is Ok),
        r matches Ok(v) ==> v.len() == ss.len() && forall|j: int|
            0 <= j < ss.len() ==> stmt_lowers(
                *cx,
                stmts_vars(*cx, old(st).locals.entries@, ss@, j),
                ss@[j],
                #[trigger] v@[j],
            ),
    decreases ss, 0int,
{
    let ghost orig = ss;
    let ghost st0 = *st;
    let ghost whole = run_stmts(*cx, st0.locals.entries@, orig@, 0);
    let ghost mut acc: Seq<Span> = Seq::empty();
    proof {
        lemma_grows_refl(*st);
        lemma_resume_start(whole);
    }
    let mut ss = ss;
    let mut out: Vec<Stmt> = Vec::new();
    let n = ss.len();
    assert(ss@ =~= orig@.subrange(0, n as int));
    while ss.len() > 0
        invariant
            n == orig.len(),
            out.len() + ss.len() == n,
            ss@ == orig@.subrange(out.len() as int, n as int),
            grows(st0, *st),
            st.locals.entries@ == stmts_vars(*cx, st0.locals.entries@, orig@, out.len() as int),
            forall|j: int|
                0 <= j < out.len() ==> stmt_lowers(
                    *cx,
                    stmts_vars(*cx, st0.locals.entries@, orig@, j),
                    orig@[j],
                    #[trigger] out@[j],
                ),
            resumes(whole, run_stmts(*cx, st.locals.entries@, orig@, out.len() as int), acc),
            st.exported.spans@ == st0.exported.spans@ + acc,
        decreases ss.len(),
    {
        let ghost j = out.len();
        let x = ss.remove(0);
        proof {
            assert(x == orig[j as int]);
            assert(decreases_to!(orig => orig[j as int]));
        }
        let ghost before = *st;
        match lower_stmt(cx, st, x) {
            Ok(v) => {
                out.push(v);
            },
            Err(f) => {
                proof {
                    lemma_grows_trans(st0, before, *st);
                }
                return Err(f);
            },
        }
        proof {
            lemma_grows_trans(st0, before, *st);
            lemma_resume_step(whole, run_stmt(*cx, before.locals.entries@, orig@[j as int]), run_stmts(*cx, run_stmt(*cx, before.locals.entries@, orig@[j as int]).vars, orig@, j + 1), acc);
            assert(st0.exported.spans@ + acc + run_stmt(*cx, before.locals.entries@, orig@[j as int]).spans =~= st0.exported.spans@ + (acc + run_stmt(*cx, before.locals.entries@, orig@[j as int]).spans));
            acc = acc + run_stmt(*cx, before.locals.entries@, orig@[j as int]).spans;
            assert(ss@ =~= orig@.subrange(out.len() as int, n as int));
        }
    }
    proof {
        lemma_resume_end(whole, st.locals.entries@, acc);
    }
    Ok(out)
}

/// Lowers a statement; a `let` keeps the attributes of its initializer's region.
pub fn lower_stmt(cx: &Ctx, st: &mut State, s: HostStmt) -> (r: Result<Stmt, Fatal>)
    ensures
        follows(run_stmt(*cx, old(st).locals.entries@, s), *old(st), *final(st), r is Ok),
        grows(*old(st), *final(st)),
        r matches Ok(x) ==> stmt_lowers(*cx, old(st).locals.entries@, s, x),
    decreases s, 0int,
{
    let kind = match s.kind {
        HostStmtKind::Expr { scope, expr } => {
            let expr = lower_expr(cx, st, expr)?;
            StmtKind::Expr { scope, expr }
        },
        HostStmtKind::Let {
            remainder_scope,
            init_scope,
            pattern,
            initializer,
            else_block,
            lint_level,
            attributes,
        } => {
            let ghost st0 = *st;
            let pattern = lower_pat(cx, st, pattern)?;
            let ghost st1 = *st;
            let initializer = match initializer {
                Some(i) => Some(lower_expr(cx, st, i)?),
                None => None,
            };
            let ghost st2 = *st;
            proof {
                if st2 != st1 {
                } else {
                    lemma_grows_refl(st1);
                }
                lemma_grows_trans(st0, st1, st2);
            }
            let else_block = match else_block {
                Some(b) => Some(lower_block(cx, st, b)?),
                None => None,
            };
            proof {
                if *st != st2 {
                } else {
                    lemma_grows_refl(st2);
                }
                lemma_grows_trans(st0, st2, *st);
            }
            StmtKind::Let {
                remainder_scope,
                init_scope,
                pattern,
                initializer,
                else_block,
                lint_level,
                attributes,
            }
        },
    };
    Ok(Stmt { kind, opt_destruction_scope: s.opt_destruction_scope })
}

/// Lowers match arms in order.
#[verifier::loop_isolation(false)]
pub fn lower_arms(cx: &Ctx, st: &mut State, arms: Vec<HostArm>) -> (r: Result<Vec<Arm>, Fatal>)
    ensures
        grows(*old(st), *final(st)),
        follows(run_arms(*cx, old(st).locals.entries@, arms@, 0), *old(st), *final(st), r is Ok),
        r matches Ok(v) ==> v.len() == arms.len() && forall|j: int|
            0 <= j < arms.len() ==> arm_lowers(
                *cx,
                arms_vars(*cx, old(st).locals.entries@, arms@, j),
                arms@[j],
                #[trigger] v@[j],
            ),
    decreases arms, 0int,
{
    let ghost orig = arms;
    let ghost st0 = *st;
    let ghost whole = run_arms(*cx, st0.locals.entries@, orig@, 0);
    let ghost mut acc: Seq<Span> = Seq::empty();
    proof {
        lemma_grows_refl(*st);
        lemma_resume_start(whole);
    }
    let mut arms = arms;
    let mut out: Vec<Arm> = Vec::new();
    let n = arms.len();
    assert(arms@ =~= orig@.subrange(0, n as int));
    while arms.len() > 0
        invariant
            n == orig.len(),
            out.len() + arms.len() == n,
            arms@ == orig@.subrange(out.len() as int, n as int),
            grows(st0, *st),
            st.locals.entries@ == arms_vars(*cx, st0.locals.entries@, orig@, out.len() as int),
            forall|j: int|
                0 <= j < out.len() ==> arm_lowers(
                    *cx,
                    arms_vars(*cx, st0.locals.entries@, orig@, j),
                    orig@[j],
                    #[trigger] out@[j],
                ),
            resumes(whole, run_arms(*cx, st.locals.entries@, orig@, out.len() as int), acc),
            st.exported.spans@ == st0.exported.spans@ + acc,
        decreases arms.len(),
    {
        let ghost j = out.len();
        let x = arms.remove(0);
        proof {
            assert(x == orig[j as int]);
            assert(decreases_to!(orig => orig[j as int]));
        }
        let ghost before = *st;
        match lower_arm(cx, st, x) {
            Ok(v) => {
                out.push(v);
            },
            Err(f) => {
                proof {
                    lemma_grows_trans(st0, before, *st);
                }
                return Err(f);
            },
        }
        proof {
            lemma_grows_trans(st0, before, *st);
            lemma_resume_step(whole, run_arm(*cx, before.locals.entries@, orig@[j as int]), run_arms(*cx, run_arm(*cx, before.locals.entries@, orig@[j as int]).vars, orig@, j + 1), acc);
            assert(st0.exported.spans@ + acc + run_arm(*cx, before.locals.entries@, orig@[j as int]).spans =~= st0.exported.spans@ + (acc + run_arm(*cx, before.locals.entries@, orig@[j as int]).spans));
            acc = acc + run_arm(*cx, before.locals.entries@, orig@[j as int]).spans;
            assert(arms@ =~= orig@.subrange(out.len() as int, n as int));
        }
    }
    proof {
        lemma_resume_end(whole, st.locals.entries@, acc);
    }
    Ok(out)
}

/// Lowers a match arm; it keeps the attributes of its region.
pub fn lower_arm(cx: &Ctx, st: &mut State, a: HostArm) -> (r: Result<Arm, Fatal>)
    ensures
        follows(run_arm(*cx, old(st).locals.entries@, a), *old(st), *final(st), r is Ok),
        grows(*old(st), *final(st)),
        r matches Ok(x) ==> arm_lowers(*cx, old(st).locals.entries@, a, x),
    decreases a, 0int,
{
    let ghost st0 = *st;
    let pattern = lower_pat(cx, st, a.pattern)?;
    let ghost st1 = *st;
    let guard = match a.guard {
        Some(g) => Some(Guard::If(lower_expr(cx, st, g)?)),
        None => None,
    };
    let ghost st2 = *st;
    proof {
        if st2 == st1 {
            lemma_grows_refl(st1);
        }
        lemma_grows_trans(st0, st1, st2);
    }
    let body = lower_expr(cx, st, a.body)?;
    proof {
        lemma_grows_trans(st0, st2, *st);
    }
    let ghost st3 = *st;
    let span = st.export(&a.span);
    proof {
        assert(st.locals.entries@.subrange(0, st3.locals.entries@.len() as int) =~= st3.locals.entries@);
        assert(st.exported.spans@.subrange(0, st3.exported.spans@.len() as int) =~= st3.exported.spans@);
        lemma_grows_trans(st0, st3, *st);
    }
    Ok(
        Arm {
            pattern,
            guard,
            body,
            lint_level: a.lint_level,
            scope: a.scope,
            span,
            attributes: a.attributes,
        },
    )
}

/// The top node of the lowering of pattern `p`.
/// The lowered pattern `r` stands for host pattern `p`; `vars` are the
/// names known before.
pub open spec fn pat_lowers(cx: Ctx, vars: Seq<crate::host::LocalVar>, p: HostPat, r: Pat) -> bool
    decreases p, 2int,
{
    &&& r.ty == p.ty
    &&& r.span == p.span
    &&& r.hir_id is None
    &&& r.attributes@.len() == 0
    &&& pat_top_matches(cx, vars, p, *r.contents)
}

/// The names known before the pattern of field pattern `k` of `fs` is lowered.
pub open spec fn field_pats_vars(cx: Ctx, v: Seq<crate::host::LocalVar>, fs: Seq<HostFieldPat>, k: int) -> Seq<crate::host::LocalVar>
    decreases k,
{
    if k <= 0 || k > fs.len() {
        v
    } else {
        run_pat(cx, field_pats_vars(cx, v, fs, k - 1), fs[k - 1].pattern).vars
    }
}

/// The names known before pattern `k` of `ps` is lowered.
pub open spec fn pats_vars(cx: Ctx, v: Seq<crate::host::LocalVar>, ps: Seq<HostPat>, k: int) -> Seq<crate::host::LocalVar>
    decreases k,
{
    if k <= 0 || k > ps.len() {
        v
    } else {
        run_pat(cx, pats_vars(cx, v, ps, k - 1), ps[k - 1]).vars
    }
}

/// The contents of the lowering of pattern `p`: each sub-pattern is the
/// lowering of the host sub-pattern, with the names bound before it.
pub open spec fn pat_top_matches(cx: Ctx, vars: Seq<crate::host::LocalVar>, p: HostPat, k: PatKind) -> bool
    decreases p, 1int,
{
    match p.kind {
        HostPatKind::Wild => k is Wild,
        HostPatKind::Binding { mutability, name, mode, var, hir_id, ty, subpattern, is_primary } => k matches PatKind::Binding {
            mutability: m,
            mode: md,
            var: lv,
            ty: t,
            subpattern: sp,
            is_primary: ip,
        } && m == mutability && md == mode && lv.name@ == name@ && lv.id == hir_id && t == ty
            && ip == is_primary && match (subpattern, sp) {
            (Some(h), Some(o)) => pat_lowers(
                cx,
                vars.push(crate::host::LocalVar { var, name }),
                *h,
                o,
            ),
            (None, None) => true,
            _ => false,
        },
        HostPatKind::Variant { adt, variant_index, substs, subpatterns } => k matches PatKind::Variant {
            info,
            substs: s,
            subpatterns: f,
        } && describes_site(info, cx.adts@[adt as int], variant_index as int) && s == substs
            && f.len() == subpatterns.len() && forall|j: int|
            0 <= j < subpatterns.len() ==> (#[trigger] f@[j]).field@ == field_id_view(
                cx.adts@[adt as int],
                variant_index as int,
                subpatterns@[j].field as int,
            ) && pat_lowers(cx, field_pats_vars(cx, vars, subpatterns@, j), subpatterns@[j].pattern, f@[j].pattern),
        HostPatKind::Leaf { subpatterns } => match p.shape {
            TyShape::Adt { adt, substs } => k matches PatKind::Variant {
                info,
                substs: s,
                subpatterns: f,
            } && describes_site(info, cx.adts@[adt as int], 0) && s == substs && f.len()
                == subpatterns.len() && forall|j: int|
                0 <= j < subpatterns.len() ==> (#[trigger] f@[j]).field@ == field_id_view(
                    cx.adts@[adt as int],
                    0,
                    subpatterns@[j].field as int,
                ) && pat_lowers(cx, field_pats_vars(cx, vars, subpatterns@, j), subpatterns@[j].pattern, f@[j].pattern),
            _ => k matches PatKind::Tuple { subpatterns: f } && f.len() == subpatterns.len() && forall|j: int|
                0 <= j < subpatterns.len() ==> pat_lowers(
                    cx,
                    field_pats_vars(cx, vars, subpatterns@, j),
                    subpatterns@[j].pattern,
                    #[trigger] f@[j],
                ),
        },
        HostPatKind::Deref { subpattern } => k matches PatKind::Deref { subpattern: q } && pat_lowers(
            cx,
            vars,
            *subpattern,
            q,
        ),
        HostPatKind::Constant { ty, value } => k matches PatKind::Constant { value: tc } && tc.ty == ty
            && constant_matches(cx.pointer_bytes, value, ty, tc.constant_kind),
        HostPatKind::Or { pats } => k matches PatKind::Or { pats: q } && q.len() == pats.len() && forall|j: int|
            0 <= j < pats.len() ==> pat_lowers(cx, pats_vars(cx, vars, pats@, j), pats@[j], #[trigger] q@[j]),
    }
}

/// What a constant lowers to: a literal when it evaluated to a decodable
/// scalar, a placeholder carrying its rendering when it did not evaluate.
pub open spec fn constant_matches(pointer_bytes: u8, c: HostConstant, ty: crate::ast::Ty, k: ConstantKind) -> bool {
    match c {
        HostConstant::Scalar { lit, debug } => match decode_scalar(pointer_bytes, lit, ty) {
            Ok(l) => k == ConstantKind::Lit(l),
            Err(_) => k == ConstantKind::Todo(debug),
        },
        HostConstant::Expr(_) => k is Lit || k is Ty,
        HostConstant::Unevaluated { debug } => k == ConstantKind::Todo(debug),
    }
}

/// `r` with one borrow taken off, if it is a borrow.
pub open spec fn borrow_stripped(r: Expr) -> Expr {
    match *r.contents {
        ExprKind::Borrow { arg, .. } => arg,
        _ => r,
    }
}

/// What the lowering `r` of a constant in expression form gives: with one
/// borrow taken off, a literal gives its value, anything else the
/// expression itself.
pub open spec fn constant_of_expr(r: Expr, k: ConstantKind) -> bool {
    match *borrow_stripped(r).contents {
        ExprKind::Literal { lit, .. } => k == ConstantKind::Lit(lit.node),
        _ => k == ConstantKind::Ty(Box::new(borrow_stripped(r))),
    }
}

/// Lowers patterns in order.
#[verifier::loop_isolation(false)]
pub fn lower_pats(cx: &Ctx, st: &mut State, ps: Vec<HostPat>) -> (r: Result<Vec<Pat>, Fatal>)
    ensures
        grows(*old(st), *final(st)),
        follows(run_pats(*cx, old(st).locals.entries@, ps@, 0), *old(st), *final(st), r is Ok),
        r matches Ok(v) ==> v.len() == ps.len() && forall|j: int|
            0 <= j < ps.len() ==> pat_lowers(
                *cx,
                pats_vars(*cx, old(st).locals.entries@, ps@, j),
                ps@[j],
                #[trigger] v@[j],
            ),
    decreases ps, 0int,
{
    let ghost orig = ps;
    let ghost st0 = *st;
    let ghost whole = run_pats(*cx, st0.locals.entries@, orig@, 0);
    let ghost mut acc: Seq<Span> = Seq::empty();
    proof {
        lemma_grows_refl(*st);
        lemma_resume_start(whole);
    }
    let mut ps = ps;
    let mut out: Vec<Pat> = Vec::new();
    let n = ps.len();
    assert(ps@ =~= orig@.subrange(0, n as int));
    while ps.len() > 0
        invariant
            n == orig.len(),
            out.len() + ps.len() == n,
            ps@ == orig@.subrange(out.len() as int, n as int),
            grows(st0, *st),
            st.locals.entries@ == pats_vars(*cx, st0.locals.entries@, orig@, out.len() as int),
            forall|j: int|
                0 <= j < out.len() ==> pat_lowers(
                    *cx,
                    pats_vars(*cx, st0.locals.entries@, orig@, j),
                    orig@[j],
                    #[trigger] out@[j],
                ),
            resumes(whole, run_pats(*cx, st.locals.entries@, orig@, out.len() as int), acc),
            st.exported.spans@ == st0.exported.spans@ + acc,
        decreases ps.len(),
    {
        let ghost j = out.len();
        let x = ps.remove(0);
        proof {
            assert(x == orig[j as int]);
            assert(decreases_to!(orig => orig[j as int]));
        }
        let ghost before = *st;
        match lower_pat(cx, st, x) {
            Ok(v) => {
                out.push(v);
            },
            Err(f) => {
                proof {
                    lemma_grows_trans(st0, before, *st);
                }
                return Err(f);
            },
        }
        proof {
            lemma_grows_trans(st0, before, *st);
            lemma_resume_step(whole, run_pat(*cx, before.locals.entries@, orig@[j as int]), run_pats(*cx, run_pat(*cx, before.locals.entries@, orig@[j as int]).vars, orig@, j + 1), acc);
            assert(st0.exported.spans@ + acc + run_pat(*cx, before.locals.entries@, orig@[j as int]).spans =~= st0.exported.spans@ + (acc + run_pat(*cx, before.locals.entries@, orig@[j as int]).spans));
            acc = acc + run_pat(*cx, before.locals.entries@, orig@[j as int]).spans;
            assert(ps@ =~= orig@.subrange(out.len() as int, n as int));
        }
    }
    proof {
        lemma_resume_end(whole, st.locals.entries@, acc);
    }
    Ok(out)
}

/// Lowers the field patterns of variant `variant_index` of type `adt`,
/// resolving each field against that variant.
#[verifier::loop_isolation(false)]
fn lower_field_pats(
    cx: &Ctx,
    st: &mut State,
    adt: usize,
    variant_index: usize,
    fps: Vec<HostFieldPat>,
    span: &Span,
) -> (r: Result<Vec<FieldPat>, Fatal>)
    requires
        adt < cx.adts.len(),
    ensures
        grows(*old(st), *final(st)),
        follows(run_field_pats(*cx, old(st).locals.entries@, adt, variant_index, fps@, 0), *old(st), *final(st), r is Ok),
        r matches Ok(v) ==> v.len() == fps.len() && forall|j: int|
            0 <= j < fps.len() ==> (#[trigger] v@[j]).field@ == field_id_view(
                cx.adts@[adt as int],
                variant_index as int,
                fps@[j].field as int,
            ) && pat_lowers(
                *cx,
                field_pats_vars(*cx, old(st).locals.entries@, fps@, j),
                fps@[j].pattern,
                v@[j].pattern,
            ),
    decreases fps, 0int,
{
    let ghost orig = fps;
    let ghost st0 = *st;
    let ghost whole = run_field_pats(*cx, st0.locals.entries@, adt, variant_index, orig@, 0);
    let ghost mut acc: Seq<Span> = Seq::empty();
    proof {
        lemma_grows_refl(*st);
        lemma_resume_start(whole);
    }
    let mut fps = fps;
    let mut out: Vec<FieldPat> = Vec::new();
    let n = fps.len();
    assert(fps@ =~= orig@.subrange(0, n as int));
    while fps.len() > 0
        invariant
            n == orig.len(),
            adt < cx.adts.len(),
            out.len() + fps.len() == n,
            fps@ == orig@.subrange(out.len() as int, n as int),
            grows(st0, *st),
            resumes(whole, run_field_pats(*cx, st.locals.entries@, adt, variant_index, orig@, out.len() as int), acc),
            st.exported.spans@ == st0.exported.spans@ + acc,
            st.locals.entries@ == field_pats_vars(*cx, st0.locals.entries@, orig@, out.len() as int),
            forall|j: int|
                0 <= j < out.len() ==> (#[trigger] out@[j]).field@ == field_id_view(
                    cx.adts@[adt as int],
                    variant_index as int,
                    orig@[j].field as int,
                ) && pat_lowers(
                    *cx,
                    field_pats_vars(*cx, st0.locals.entries@, orig@, j),
                    orig@[j].pattern,
                    out@[j].pattern,
                ),
        decreases fps.len(),
    {
        let ghost j = out.len();
        let x = fps.remove(0);
        proof {
            assert(x == orig[j as int]);
            assert(decreases_to!(orig => orig[j as int]));
        }
        let field = match field_def_id(&cx.adts[adt], variant_index, x.field) {
            Ok(d) => d,
            Err(e) => {
                return Err(fatal(span, FatalReason::Adt(e)));
            },
        };
        let ghost before = *st;
        match lower_pat(cx, st, x.pattern) {
            Ok(pattern) => {
                out.push(FieldPat { field, pattern });
            },
            Err(f) => {
                proof {
                    lemma_grows_trans(st0, before, *st);
                }
                return Err(f);
            },
        }
        proof {
            lemma_grows_trans(st0, before, *st);
            lemma_resume_step(whole, run_pat(*cx, before.locals.entries@, orig@[j as int].pattern), run_field_pats(*cx, run_pat(*cx, before.locals.entries@, orig@[j as int].pattern).vars, adt, variant_index, orig@, j + 1), acc);
            assert(st0.exported.spans@ + acc + run_pat(*cx, before.locals.entries@, orig@[j as int].pattern).spans =~= st0.exported.spans@ + (acc + run_pat(*cx, before.locals.entries@, orig@[j as int].pattern).spans));
            acc = acc + run_pat(*cx, before.locals.entries@, orig@[j as int].pattern).spans;
            assert(fps@ =~= orig@.subrange(out.len() as int, n as int));
        }
    }
    proof {
        lemma_resume_end(whole, st.locals.entries@, acc);
    }
    Ok(out)
}

/// Lowers the field patterns of a tuple, in order.
#[verifier::loop_isolation(false)]
fn lower_tuple_pats(cx: &Ctx, st: &mut State, fps: Vec<HostFieldPat>) -> (r: Result<Vec<Pat>, Fatal>)
    ensures
        grows(*old(st), *final(st)),
        follows(run_tuple_pats(*cx, old(st).locals.entries@, fps@, 0), *old(st), *final(st), r is Ok),
        r matches Ok(v) ==> v.len() == fps.len() && forall|j: int|
            0 <= j < fps.len() ==> pat_lowers(
                *cx,
                field_pats_vars(*cx, old(st).locals.entries@, fps@, j),
                fps@[j].pattern,
                #[trigger] v@[j],
            ),
    decreases fps, 0int,
{
    let ghost orig = fps;
    let ghost st0 = *st;
    let ghost whole = run_tuple_pats(*cx, st0.locals.entries@, orig@, 0);
    let ghost mut acc: Seq<Span> = Seq::empty();
    proof {
        lemma_grows_refl(*st);
        lemma_resume_start(whole);
    }
    let mut fps = fps;
    let mut out: Vec<Pat> = Vec::new();
    let n = fps.len();
    assert(fps@ =~= orig@.subrange(0, n as int));
    while fps.len() > 0
        invariant
            n == orig.len(),
            out.len() + fps.len() == n,
            fps@ == orig@.subrange(out.len() as int, n as int),
            grows(st0, *st),
            st.locals.entries@ == field_pats_vars(*cx, st0.locals.entries@, orig@, out.len() as int),
            forall|j: int|
                0 <= j < out.len() ==> pat_lowers(
                    *cx,
                    field_pats_vars(*cx, st0.locals.entries@, orig@, j),
                    orig@[j].pattern,
                    #[trigger] out@[j],
                ),
            resumes(whole, run_tuple_pats(*cx, st.locals.entries@, orig@, out.len() as int), acc),
            st.exported.spans@ == st0.exported.spans@ + acc,
        decreases fps.len(),
    {
        let ghost j = out.len();
        let x = fps.remove(0);
        proof {
            assert(x == orig[j as int]);
            assert(decreases_to!(orig => orig[j as int]));
        }
        let ghost before = *st;
        match lower_pat(cx, st, x.pattern) {
            Ok(pattern) => {
                out.push(pattern);
            },
            Err(f) => {
                proof {
                    lemma_grows_trans(st0, before, *st);
                }
                return Err(f);
            },
        }
        proof {
            lemma_grows_trans(st0, before, *st);
            lemma_resume_step(whole, run_pat(*cx, before.locals.entries@, orig@[j as int].pattern), run_tuple_pats(*cx, run_pat(*cx, before.locals.entries@, orig@[j as int].pattern).vars, orig@, j + 1), acc);
            assert(st0.exported.spans@ + acc + run_pat(*cx, before.locals.entries@, orig@[j as int].pattern).spans =~= st0.exported.spans@ + (acc + run_pat(*cx, before.locals.entries@, orig@[j as int].pattern).spans));
            acc = acc + run_pat(*cx, before.locals.entries@, orig@[j as int].pattern).spans;
            assert(fps@ =~= orig@.subrange(out.len() as int, n as int));
        }
    }
    proof {
        lemma_resume_end(whole, st.locals.entries@, acc);
    }
    Ok(out)
}

/// Lowers a pattern. A binding records its variable's name; a field-list
/// pattern on a single-variant type becomes a variant pattern, and one on a
/// tuple a tuple pattern.
pub fn lower_pat(cx: &Ctx, st: &mut State, p: HostPat) -> (r: Result<Pat, Fatal>)
    ensures
        follows(run_pat(*cx, old(st).locals.entries@, p), *old(st), *final(st), r is Ok),
        grows(*old(st), *final(st)),
        r matches Ok(x) ==> pat_lowers(*cx, old(st).locals.entries@, p, x)
            && final(st).exported.spans@.contains(x.span),
        r is Ok ==> (p.kind matches HostPatKind::Binding { var, name, .. } ==> final(st).locals.entries@.len() > old(st).locals.entries@.len() && final(st).locals.entries@[old(st).locals.entries@.len() as int].var
            == var && final(st).locals.entries@[old(st).locals.entries@.len() as int].name@ == name@),
    decreases p, 0int,
{
    let ghost st0 = *st;
    let HostPat { ty, shape, span, kind } = p;
    let contents = match kind {
        HostPatKind::Wild => {
            proof {
                lemma_grows_refl(*st);
            }
            PatKind::Wild
        },
        HostPatKind::Binding { mutability, name, mode, var, hir_id, ty: bty, subpattern, is_primary } => {
            st.bind(var, name.clone());
            proof {
                assert(st.locals.entries@.subrange(0, st0.locals.entries@.len() as int) =~= st0.locals.entries@);
                assert(st.exported.spans@.subrange(0, st0.exported.spans@.len() as int) =~= st0.exported.spans@);
            }
            let ghost st1 = *st;
            let subpattern = match subpattern {
                Some(sp) => Some(lower_pat(cx, st, *sp)?),
                None => None,
            };
            proof {
                if *st == st1 {
                    lemma_grows_refl(st1);
                }
                lemma_grows_trans(st0, st1, *st);
                assert(st.locals.entries@.subrange(0, st1.locals.entries@.len() as int) == st1.locals.entries@);
                assert(st.locals.entries@[st0.locals.entries@.len() as int] == st1.locals.entries@[st0.locals.entries@.len() as int]);
            }
            PatKind::Binding {
                mutability,
                mode,
                var: LocalIdent { name, id: hir_id },
                ty: bty,
                subpattern,
                is_primary,
            }
        },
        HostPatKind::Variant { adt, variant_index, substs, subpatterns } => {
            if adt >= cx.adts.len() {
                return Err(fatal(&span, FatalReason::NoSuchType));
            }
            let info = match get_variant_information(&cx.adts[adt], variant_index) {
                Ok(info) => info,
                Err(err) => {
                    return Err(fatal(&span, FatalReason::Adt(err)));
                },
            };
            let subpatterns = lower_field_pats(cx, st, adt, variant_index, subpatterns, &span)?;
            PatKind::Variant { info, substs, subpatterns }
        },
        HostPatKind::Leaf { subpatterns } => match shape {
            TyShape::Adt { adt, substs } => {
                if adt >= cx.adts.len() {
                    return Err(fatal(&span, FatalReason::NoSuchType));
                }
                let info = match get_variant_information(&cx.adts[adt], 0) {
                    Ok(info) => info,
                    Err(err) => {
                        return Err(fatal(&span, FatalReason::Adt(err)));
                    },
                };
                let subpatterns = lower_field_pats(cx, st, adt, 0, subpatterns, &span)?;
                PatKind::Variant { info, substs, subpatterns }
            },
            TyShape::Tuple => {
                let subpatterns = lower_tuple_pats(cx, st, subpatterns)?;
                PatKind::Tuple { subpatterns }
            },
            _ => {
                return Err(fatal(&span, FatalReason::LeafOnNonAdt));
            },
        },
        HostPatKind::Deref { subpattern } => {
            let subpattern = lower_pat(cx, st, *subpattern)?;
            PatKind::Deref { subpattern }
        },
        HostPatKind::Constant { ty: cty, value } => {
            let constant_kind = lower_constant(cx, st, value, &cty)?;
            PatKind::Constant { value: TypedConstantKind { ty: cty, constant_kind } }
        },
        HostPatKind::Or { pats } => {
            let pats = lower_pats(cx, st, pats)?;
            PatKind::Or { pats }
        },
    };
    let ghost st2 = *st;
    let span = st.export(&span);
    proof {
        assert(st.locals.entries@ == st2.locals.entries@);
        assert(st.locals.entries@.subrange(0, st2.locals.entries@.len() as int) =~= st2.locals.entries@);
        assert(st.exported.spans@.subrange(0, st2.exported.spans@.len() as int) =~= st2.exported.spans@);
        lemma_grows_trans(st0, st2, *st);
        assert(st.exported.spans@.last() == span);
    }
    Ok(Decorated { ty, span, contents: Box::new(contents), hir_id: None, attributes: Vec::new() })
}

/// Lowers a constant of type `ty`. Evaluation failures degrade to a
/// placeholder, never to an error.
pub fn lower_constant(cx: &Ctx, st: &mut State, c: HostConstant, ty: &crate::ast::Ty) -> (r: Result<
    ConstantKind,
    Fatal,
>)
    ensures
        c matches HostConstant::Expr(e) ==> (r matches Ok(k) ==> exists|x: Expr|
            #[trigger] lowers_to(*cx, old(st).locals.entries@, *e, x) && constant_of_expr(x, k)),
        r matches Ok(k) ==> constant_matches(cx.pointer_bytes, c, *ty, k),
        follows(run_constant(*cx, old(st).locals.entries@, c), *old(st), *final(st), r is Ok),
        grows(*old(st), *final(st)),
        !(c is Expr) ==> r is Ok,
    decreases c, 0int,
{
    match c {
        HostConstant::Scalar { lit, debug } => {
            proof {
                lemma_grows_refl(*st);
            }
            match scalar_int_to_literal(cx.pointer_bytes, lit, ty) {
                Ok(l) => Ok(ConstantKind::Lit(l)),
                Err(_) => Ok(ConstantKind::Todo(debug)),
            }
        },
        HostConstant::Expr(e) => {
            let ghost eh = *e;
            let ghost v0 = st.locals.entries@;
            let e = lower_expr(cx, st, *e)?;
            let ghost r0 = e;
            let e = e.unwrap_borrow();
            proof {
                assert(e == borrow_stripped(r0));
            }
            match *e.contents {
                ExprKind::Literal { lit, .. } => {
                    let k = ConstantKind::Lit(lit.node);
                    proof {
                        assert(lowers_to(*cx, v0, eh, r0) && constant_of_expr(r0, k));
                    }
                    Ok(k)
                },
                contents => {
                    let x = Decorated {
                        ty: e.ty,
                        span: e.span,
                        contents: Box::new(contents),
                        hir_id: e.hir_id,
                        attributes: e.attributes,
                    };
                    let k = ConstantKind::Ty(Box::new(x));
                    proof {
                        assert(x == borrow_stripped(r0));
                        assert(lowers_to(*cx, v0, eh, r0) && constant_of_expr(r0, k));
                    }
                    Ok(k)
                },
            }
        },
        HostConstant::Unevaluated { debug } => {
            proof {
                lemma_grows_refl(*st);
            }
            Ok(ConstantKind::Todo(debug))
        },
    }
}

} // verus!
