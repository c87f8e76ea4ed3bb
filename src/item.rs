//! Materialization of declarations: function, constant and static bodies
//! lowered with a fresh table of local names, and runs of declarations
//! expanded from one allowlisted macro folded into a single invocation.
use vstd::prelude::*;
use crate::ast::{FnDef, GenericBounds, Item, ItemKind, Param, PredicateKind};
use crate::host::{
    grows, lemma_grows_refl, lemma_grows_trans, BoundsOwner, Ctx, Fatal, HostBounds, HostFn,
    HostItem, HostItemKind, HostParam, HostPredicate, State,
};
use crate::ids::{path_of_def_id, path_view};
use crate::lower::{lower_expr, lower_pat, lowers_to, pat_lowers};
use crate::macros::{
    first_foldable, invocation_argument, macro_invocation_of_raw_mac_invocation,
    raw_macro_invocation_of_span,
};
use crate::scope::unrolled;
use crate::span::{span_eq, Span};
use crate::outcome::{
    fold_key, follows, lemma_resume_end, lemma_resume_start, lemma_resume_step, resumes, run_expr,
    decls_fatals, decls_spans, gives_node, item_fatals, lemma_node_count_grows, item_step, node_count, run_fn, run_item, run_param,
    run_params, same_key, starts_run,
};

verus! {

broadcast use vstd::std_specs::vec::axiom_vec_index_decreases, vstd::seq::axiom_seq_index_decreases,
    vstd::std_specs::vec::axiom_vec_decreases_to_view, lemma_grows_refl, lemma_grows_trans;

/// Appends the spans exported by a body's own run to the enclosing run.
fn merge_exported(st: &mut State, body: State)
    ensures
        final(st).locals == old(st).locals,
        final(st).fatals == old(st).fatals,
        final(st).warnings == old(st).warnings,
        final(st).exported.spans@ == old(st).exported.spans@ + body.exported.spans@,
        grows(*old(st), *final(st)),
{
    let mut spans = body.exported.spans;
    st.exported.spans.append(&mut spans);
    proof {
        assert(st.exported.spans@.subrange(0, old(st).exported.spans@.len() as int) =~= old(st).exported.spans@);
        assert(st.locals.entries@.subrange(0, old(st).locals.entries@.len() as int) =~= old(st).locals.entries@);
    }
}

/// `x` is the lowering of parameter `p`, with names `v` known before it.
pub open spec fn param_lowered(cx: Ctx, v: Seq<crate::host::LocalVar>, p: HostParam, x: Param) -> bool {
    &&& x.ty == p.ty
    &&& x.self_kind == p.self_kind
    &&& x.hir_id == p.hir_id
    &&& x.attributes == p.attributes
    &&& x.ty_span == p.ty_span
    &&& match (p.pat, x.pat) {
        (Some(h), Some(o)) => pat_lowers(cx, v, h, o),
        (None, None) => true,
        _ => false,
    }
}

/// The names known before parameter `k` of `ps` is lowered.
pub open spec fn params_vars(cx: Ctx, v: Seq<crate::host::LocalVar>, ps: Seq<HostParam>, k: int) -> Seq<crate::host::LocalVar>
    decreases k,
{
    if k <= 0 || k > ps.len() {
        v
    } else {
        run_param(cx, params_vars(cx, v, ps, k - 1), ps[k - 1]).vars
    }
}

/// Lowers a parameter: its pattern binds names for the body that follows.
fn lower_param(cx: &Ctx, st: &mut State, p: HostParam) -> (r: Result<Param, Fatal>)
    ensures
        grows(*old(st), *final(st)),
        follows(run_param(*cx, old(st).locals.entries@, p), *old(st), *final(st), r is Ok),
        r matches Ok(x) ==> param_lowered(*cx, old(st).locals.entries@, p, x),
{
    let pat = match p.pat {
        Some(pt) => Some(lower_pat(cx, st, pt)?),
        None => None,
    };
    let ty_span = match &p.ty_span {
        Some(s) => {
            let x = st.export(s);
            proof {
                assert(st.exported.spans@ =~= old(st).exported.spans@ + run_param(*cx, old(st).locals.entries@, p).spans);
            }
            Some(x)
        },
        None => None,
    };
    Ok(
        Param {
            pat,
            ty: p.ty,
            ty_span,
            self_kind: p.self_kind,
            hir_id: p.hir_id,
            attributes: p.attributes,
        },
    )
}

/// Lowers parameters in order.
#[verifier::loop_isolation(false)]
fn lower_params(cx: &Ctx, st: &mut State, ps: Vec<HostParam>) -> (r: Result<Vec<Param>, Fatal>)
    ensures
        grows(*old(st), *final(st)),
        follows(run_params(*cx, old(st).locals.entries@, ps@, 0), *old(st), *final(st), r is Ok),
        r matches Ok(v) ==> v.len() == ps.len() && forall|j: int|
            0 <= j < ps.len() ==> param_lowered(
                *cx,
                params_vars(*cx, old(st).locals.entries@, ps@, j),
                ps@[j],
                #[trigger] v@[j],
            ),
{
    let ghost st0 = *st;
    let ghost orig = ps;
    let ghost whole = run_params(*cx, st0.locals.entries@, orig@, 0);
    let ghost mut acc: Seq<Span> = Seq::empty();
    proof {
        lemma_resume_start(whole);
    }
    let mut ps = ps;
    let mut out: Vec<Param> = Vec::new();
    let n = ps.len();
    assert(ps@ =~= orig@.subrange(0, n as int));
    while ps.len() > 0
        invariant
            n == orig.len(),
            out.len() + ps.len() == n,
            ps@ == orig@.subrange(out.len() as int, n as int),
            grows(st0, *st),
            resumes(whole, run_params(*cx, st.locals.entries@, orig@, out.len() as int), acc),
            st.locals.entries@ == params_vars(*cx, st0.locals.entries@, orig@, out.len() as int),
            forall|j: int|
                0 <= j < out.len() ==> param_lowered(
                    *cx,
                    params_vars(*cx, st0.locals.entries@, orig@, j),
                    orig@[j],
                    #[trigger] out@[j],
                ),
            st.exported.spans@ == st0.exported.spans@ + acc,
        decreases ps.len(),
    {
        let ghost j = out.len();
        let ghost before = *st;
        let x = ps.remove(0);
        proof {
            assert(x == orig@[j as int]);
        }
        let p = lower_param(cx, st, x)?;
        proof {
            let a = run_param(*cx, before.locals.entries@, orig@[j as int]);
            lemma_resume_step(whole, a, run_params(*cx, a.vars, orig@, j + 1), acc);
            assert(st0.exported.spans@ + acc + a.spans =~= st0.exported.spans@ + (acc + a.spans));
            acc = acc + a.spans;
        }
        out.push(p);
        proof {
            assert(ps@ =~= orig@.subrange(out.len() as int, n as int));
        }
    }
    proof {
        lemma_resume_end(whole, st.locals.entries@, acc);
    }
    Ok(out)
}

/// `d` is the lowering of function `f`.
pub open spec fn fn_lowered(cx: Ctx, f: HostFn, d: FnDef) -> bool {
    &&& d.header == f.header
    &&& d.ret == f.ret
    &&& d.sig_span == f.sig_span
    &&& d.params.len() == f.params.len()
    &&& forall|j: int|
        0 <= j < f.params.len() ==> param_lowered(
            cx,
            params_vars(cx, Seq::empty(), f.params@, j),
            f.params@[j],
            #[trigger] d.params@[j],
        )
    &&& lowers_to(cx, run_params(cx, Seq::empty(), f.params@, 0).vars, f.body, d.body)
}

/// Lowers a function: parameters, then body, with a table of local names
/// of its own.
pub fn make_fn_def(cx: &Ctx, st: &mut State, f: HostFn) -> (r: Result<FnDef, Fatal>)
    ensures
        final(st).warnings == old(st).warnings,
        final(st).fatals == old(st).fatals,
        final(st).locals == old(st).locals,
        grows(*old(st), *final(st)),
        (r is Ok) == run_fn(*cx, f).ok,
        r is Ok ==> final(st).exported.spans@ =~= old(st).exported.spans@ + run_fn(*cx, f).spans,
        r matches Ok(d) ==> fn_lowered(*cx, f, d),
{
    let mut body_st = State::new();
    let params = match lower_params(cx, &mut body_st, f.params) {
        Ok(p) => p,
        Err(e) => {
            merge_exported(st, body_st);
            return Err(e);
        },
    };
    let body = match lower_expr(cx, &mut body_st, f.body) {
        Ok(b) => b,
        Err(e) => {
            merge_exported(st, body_st);
            return Err(e);
        },
    };
    let sig_span = body_st.export(&f.sig_span);
    let ghost bs = body_st.exported.spans@;
    merge_exported(st, body_st);
    proof {
        let pr = run_params(*cx, Seq::empty(), f.params@, 0);
        let bo = run_expr(*cx, pr.vars, f.body);
        assert(bs =~= (pr.spans + bo.spans).push(f.sig_span));
    }
    Ok(FnDef { header: f.header, params, ret: f.ret, body, sig_span })
}

/// Lowers the body of a constant or static, with a table of local names of
/// its own.
pub fn lower_body(cx: &Ctx, st: &mut State, body: crate::host::HostExpr) -> (r: Result<crate::ast::Body, Fatal>)
    ensures
        final(st).warnings == old(st).warnings,
        final(st).fatals == old(st).fatals,
        final(st).locals == old(st).locals,
        grows(*old(st), *final(st)),
        r matches Ok(b) ==> lowers_to(*cx, Seq::empty(), body, b),
        (r is Ok) == run_expr(*cx, Seq::empty(), body).ok,
        r is Ok ==> final(st).exported.spans@ =~= old(st).exported.spans@ + run_expr(*cx, Seq::empty(), body).spans,
{
    let mut body_st = State::new();
    let r = lower_expr(cx, &mut body_st, body);
    merge_exported(st, body_st);
    r
}

/// The predicates that describe the bounds of `b`'s owner.
pub open spec fn selected_predicates(b: HostBounds) -> Vec<HostPredicate> {
    match b.owner {
        BoundsOwner::AssocType | BoundsOwner::OpaqueType => b.item_bounds,
        BoundsOwner::Other => b.predicates,
    }
}

/// The spans of the predicates that have bound variables.
pub open spec fn ambiguous_spans(ps: Seq<HostPredicate>) -> Seq<Span>
    decreases ps.len(),
{
    if ps.len() == 0 {
        Seq::empty()
    } else {
        ambiguous_spans(ps.drop_last()) + if ps.last().kind is None {
            seq![ps.last().span]
        } else {
            Seq::empty()
        }
    }
}

/// `r` lists, in order, the predicates of `b`'s owner, each with bound
/// variables replaced by `Ambiguous`.
pub open spec fn bounds_lowered(b: HostBounds, r: GenericBounds) -> bool {
    &&& r.len() == selected_predicates(b).len()
    &&& forall|i: int|
        0 <= i < r.len() ==> match #[trigger] selected_predicates(b)@[i].kind {
            Some(k) => r@[i] == k,
            None => r@[i] is Ambiguous,
        }
}

/// Lowers a list of bounds. A predicate with bound variables cannot be
/// expressed: it becomes `Ambiguous`, and a warning at its span is recorded.
#[verifier::loop_isolation(false)]
pub fn lower_generic_bounds(st: &mut State, b: HostBounds) -> (r: GenericBounds)
    ensures
        final(st).fatals == old(st).fatals,
        final(st).locals == old(st).locals,
        final(st).exported == old(st).exported,
        final(st).warnings@ == old(st).warnings@ + ambiguous_spans(selected_predicates(b)@),
        bounds_lowered(b, r),
{
    let ghost sel = selected_predicates(b);
    let ghost w0 = st.warnings@;
    let mut preds = match b.owner {
        BoundsOwner::AssocType | BoundsOwner::OpaqueType => b.item_bounds,
        BoundsOwner::Other => b.predicates,
    };
    let n = preds.len();
    let mut out: GenericBounds = Vec::new();
    assert(preds@ =~= sel@.subrange(0, n as int));
    while preds.len() > 0
        invariant
            n == sel.len(),
            out.len() + preds.len() == n,
            preds@ == sel@.subrange(out.len() as int, n as int),
            st.warnings@ == w0 + ambiguous_spans(sel@.subrange(0, out.len() as int)),
            st.locals == old(st).locals,
            st.fatals == old(st).fatals,
            st.exported == old(st).exported,
            forall|i: int|
                0 <= i < out.len() ==> match #[trigger] sel@[i].kind {
                    Some(k) => out@[i] == k,
                    None => out@[i] is Ambiguous,
                },
        decreases preds.len(),
    {
        let ghost j = out.len();
        let p = preds.remove(0);
        proof {
            assert(p == sel@[j as int]);
            let q = sel@.subrange(0, j + 1);
            assert(q.drop_last() =~= sel@.subrange(0, j as int));
            assert(q.last() == p);
        }
        match p.kind {
            Some(k) => {
                out.push(k);
                proof {
                    assert(st.warnings@ =~= w0 + ambiguous_spans(sel@.subrange(0, out.len() as int)));
                }
            },
            None => {
                st.warnings.push(p.span);
                out.push(PredicateKind::Ambiguous);
                proof {
                    assert(st.warnings@ =~= w0 + ambiguous_spans(sel@.subrange(0, out.len() as int)));
                }
            },
        }
        proof {
            assert(preds@ =~= sel@.subrange(out.len() as int, n as int));
        }
    }
    assert(sel@.subrange(0, n as int) =~= sel@);
    out
}

/// The identifier an item is referred to by: its owner's, when the owner's
/// path ends with the item's own name.
pub open spec fn names_itself(owner: crate::ids::DefId, name: Seq<char>) -> bool {
    path_view(owner.krate@, owner.path@).last() == name
}

/// `x` is the lowering of declaration `it`.
pub open spec fn item_lowered(cx: Ctx, it: HostItem, x: Item) -> bool
    decreases it, 2int,
{
    &&& x.owner_id == it.owner_id
    &&& x.span == it.span
    &&& x.vis_span == it.vis_span
    &&& x.attributes == it.attributes
    &&& x.expn_backtrace == it.backtrace
    &&& (x.def_id is Some <==> names_itself(it.owner_id, it.name@))
    &&& (x.def_id matches Some(d) ==> d@ == it.owner_id@)
    &&& match it.kind {
        HostItemKind::Fn { generics, def } => x.kind matches ItemKind::Fn(g, d) && g == generics
            && fn_lowered(cx, def, d),
        HostItemKind::Const { ty, body } => x.kind matches ItemKind::Const(t, b) && t == ty
            && lowers_to(cx, Seq::empty(), body, b),
        HostItemKind::Static { ty, mutability, body } => x.kind matches ItemKind::Static(t, m, b)
            && t == ty && m == mutability && lowers_to(cx, Seq::empty(), body, b),
        HostItemKind::Mod { items } => x.kind matches ItemKind::Mod(v) && decls_lowered(
            cx,
            items@,
            v@,
        ),
        HostItemKind::Trait { is_auto, unsafety, generics, bounds, items } => x.kind matches ItemKind::Trait(
            a,
            u,
            g,
            bs,
            ti,
        ) && a == is_auto && u == unsafety && g == generics && ti == items && bounds_lowered(
            bounds,
            bs,
        ),
        HostItemKind::TraitAlias { generics, bounds } => x.kind matches ItemKind::TraitAlias(g, bs)
            && g == generics && bounds_lowered(bounds, bs),
        HostItemKind::Portable(k) => x.kind == k,
    }
}

/// `x` is the single node that the run of declarations folded by step `b`
/// of the backtrace of `it`, its first declaration, gives.
pub open spec fn folded_item(cx: Ctx, it: HostItem, b: int, x: Item) -> bool {
    let e = it.backtrace@[b];
    &&& x.def_id is None
    &&& x.owner_id == it.owner_id
    &&& x.span == e.call_site
    &&& x.vis_span == cx.dummy_span
    &&& x.attributes@.len() == 0
    &&& x.expn_backtrace@.len() == 0
    &&& x.kind matches ItemKind::MacroInvokation(m)
    &&& m.macro_ident@ == e.macro_def_id->0@
    &&& invocation_argument(cx, e) == Ok::<Seq<char>, crate::span::ReadSpanErr>(m.argument@)
    &&& m.span == e.call_site
}

/// `x` is the node that declaration `i` of `its` gives.
pub open spec fn decl_lowered(cx: Ctx, its: Seq<HostItem>, i: int, x: Item) -> bool
    decreases its, 0int,
{
    if 0 <= i < its.len() {
        match first_foldable(cx, its[i].backtrace@) {
            Some(b) => folded_item(cx, its[i], b, x),
            None => item_lowered(cx, its[i], x),
        }
    } else {
        false
    }
}

/// `out` holds, in order, the node of each declaration of `its` that gives one.
pub open spec fn decls_lowered(cx: Ctx, its: Seq<HostItem>, out: Seq<Item>) -> bool
    decreases its, 1int,
{
    &&& out.len() == node_count(cx, its, its.len() as int)
    &&& forall|i: int|
        0 <= i < its.len() && #[trigger] gives_node(cx, its, i) ==> decl_lowered(
            cx,
            its,
            i,
            out[node_count(cx, its, i) as int],
        )
}

/// Lowers one declaration.
pub fn lower_item(cx: &Ctx, st: &mut State, it: HostItem) -> (r: Result<Item, Fatal>)
    ensures
        old(st).warnings@.len() <= final(st).warnings@.len(),
        final(st).warnings@.subrange(0, old(st).warnings@.len() as int) == old(st).warnings@,
        final(st).fatals@.len() == old(st).fatals@.len() + item_fatals(*cx, it),
        final(st).fatals@.subrange(0, old(st).fatals@.len() as int) == old(st).fatals@,
        final(st).locals == old(st).locals,
        grows(*old(st), *final(st)),
        (r is Ok) == run_item(*cx, it).ok,
        r is Ok ==> final(st).exported.spans@ =~= old(st).exported.spans@ + run_item(*cx, it).spans,
        r matches Ok(x) ==> item_lowered(*cx, it, x),
    decreases it,
{
    let path = path_of_def_id(&it.owner_id);
    let n = path.len();
    let def_id = if n > 0 && path[n - 1].eq(&it.name) {
        Some(it.owner_id.clone())
    } else {
        None
    };
    proof {
        assert(path.deep_view().len() == n);
        if n > 0 {
            assert(path.deep_view()[n - 1] == path@[n - 1]@);
        }
    }
    let kind = match it.kind {
        HostItemKind::Fn { generics, def } => ItemKind::Fn(generics, make_fn_def(cx, st, def)?),
        HostItemKind::Const { ty, body } => ItemKind::Const(ty, lower_body(cx, st, body)?),
        HostItemKind::Static { ty, mutability, body } => ItemKind::Static(
            ty,
            mutability,
            lower_body(cx, st, body)?,
        ),
        HostItemKind::Mod { items } => ItemKind::Mod(inline_macro_invocations(cx, st, items)),
        HostItemKind::Trait { is_auto, unsafety, generics, bounds, items } => {
            let bounds = lower_generic_bounds(st, bounds);
            ItemKind::Trait(is_auto, unsafety, generics, bounds, items)
        },
        HostItemKind::TraitAlias { generics, bounds } => {
            let bounds = lower_generic_bounds(st, bounds);
            ItemKind::TraitAlias(generics, bounds)
        },
        HostItemKind::Portable(k) => k,
    };
    proof {
        assert(st.warnings@.subrange(0, old(st).warnings@.len() as int) =~= old(st).warnings@);
    }
    let ghost st1 = *st;
    let span = st.export(&it.span);
    let vis_span = st.export(&it.vis_span);
    proof {
        assert(st.exported.spans@ =~= st1.exported.spans@.push(it.span).push(it.vis_span));
    }
    Ok(
        Item {
            def_id,
            owner_id: it.owner_id,
            span,
            vis_span,
            kind,
            attributes: it.attributes,
            expn_backtrace: it.backtrace,
        },
    )
}

fn key_eq(a: &Option<Span>, b: &Option<Span>) -> (r: bool)
    ensures
        r == same_key(*a, *b),
{
    match (a, b) {
        (None, None) => true,
        (Some(x), Some(y)) => span_eq(x, y),
        _ => false,
    }
}

/// Lowers a list of declarations, folding each run of consecutive
/// declarations that come from one allowlisted macro call into a single
/// invocation node; the others are lowered one by one. A declaration that
/// fails is given up on its own: its error is recorded, it exports no span,
/// and the others are lowered all the same.
#[verifier::loop_isolation(false)]
#[verifier::rlimit(100)]
pub fn inline_macro_invocations(cx: &Ctx, st: &mut State, items: Vec<HostItem>) -> (r: Vec<Item>)
    ensures
        old(st).warnings@.len() <= final(st).warnings@.len(),
        final(st).warnings@.subrange(0, old(st).warnings@.len() as int) == old(st).warnings@,
        final(st).fatals@.len() == old(st).fatals@.len() + decls_fatals(*cx, items@, 0),
        final(st).fatals@.subrange(0, old(st).fatals@.len() as int) == old(st).fatals@,
        final(st).locals == old(st).locals,
        grows(*old(st), *final(st)),
        final(st).exported.spans@ =~= old(st).exported.spans@ + decls_spans(*cx, items@,
            0,
        ),
        r.len() == node_count(*cx, items@, items.len() as int),
        forall|i: int|
            0 <= i < items.len() && #[trigger] gives_node(*cx, items@, i)
                ==> decl_lowered(
                *cx,
                items@,
                i,
                r@[node_count(*cx, items@, i) as int],
            ),
    decreases items,
{
    let ghost orig = items;
    let ghost st0 = *st;
    let ghost v0 = st0.locals.entries@;
    let ghost mut acc: Seq<Span> = Seq::empty();
    let ghost mut nf: nat = 0;
    let mut items = items;
    let mut out: Vec<Item> = Vec::new();
    let n = items.len();
    let mut prev: Option<Span> = None;
    let mut j: usize = 0;
    assert(items@ =~= orig@.subrange(0, n as int));
    assert(decls_spans(*cx, orig@, 0) =~= acc + decls_spans(*cx, orig@, 0));
    while items.len() > 0
        invariant
            n == orig.len(),
            j + items.len() == n,
            items@ == orig@.subrange(j as int, n as int),
            grows(st0, *st),
            st.locals == st0.locals,
            j > 0 ==> prev == fold_key(*cx, orig@[j - 1]),
            decls_fatals(*cx, orig@, 0) == nf + decls_fatals(*cx, orig@, j as int),
            st.fatals@.len() == st0.fatals@.len() + nf,
            st.fatals@.subrange(0, st0.fatals@.len() as int) == st0.fatals@,
            st0.warnings@.len() <= st.warnings@.len(),
            st.warnings@.subrange(0, st0.warnings@.len() as int) == st0.warnings@,
            decls_spans(*cx, orig@, 0) =~= acc + decls_spans(*cx, orig@, j as int),
            st.exported.spans@ == st0.exported.spans@ + acc,
            out.len() == node_count(*cx, orig@, j as int),
            forall|i: int|
                0 <= i < j && #[trigger] gives_node(*cx, orig@, i) ==> decl_lowered(
                    *cx,
                    orig@,
                    i,
                    out@[node_count(*cx, orig@, i) as int],
                ),
        decreases items.len(),
    {
        let ghost before = *st;
        let ghost out0 = out@;
        let it = items.remove(0);
        proof {
            assert(it == orig[j as int]);
            assert(decreases_to!(orig => orig[j as int]));
        }
        let key: Option<Span> = match raw_macro_invocation_of_span(cx, &it.backtrace) {
            Some(i) => Some(it.backtrace[i].call_site.clone()),
            None => None,
        };
        let starts = j == 0 || !key_eq(&prev, &key);
        let ghost step = item_step(*cx, orig@, j as int);
        proof {
            assert(key == fold_key(*cx, orig@[j as int]));
            assert(starts == starts_run(*cx, orig@, j as int));
        }
        match raw_macro_invocation_of_span(cx, &it.backtrace) {
            Some(i) => {
                if starts {
                    match macro_invocation_of_raw_mac_invocation(cx, st, &it.backtrace[i]) {
                        Ok(inv) => {
                            let span = st.export(&it.backtrace[i].call_site);
                            let vis_span = st.export(&cx.dummy_span);
                            out.push(
                                Item {
                                    def_id: None,
                                    owner_id: it.owner_id,
                                    span,
                                    vis_span,
                                    kind: ItemKind::MacroInvokation(inv),
                                    attributes: Vec::new(),
                                    expn_backtrace: Vec::new(),
                                },
                            );
                        },
                        Err(f) => {
                            st.fatals.push(f);
                        },
                    }
                }
            },
            None => {
                let len0 = st.exported.spans.len();
                match lower_item(cx, st, it) {
                    Ok(x) => {
                        out.push(x);
                    },
                    Err(f) => {
                        st.exported.spans.truncate(len0);
                        st.fatals.push(f);
                        proof {
                            assert(st.exported.spans@ =~= before.exported.spans@);
                            assert(st.locals.entries@.subrange(0, st0.locals.entries@.len() as int) =~= st0.locals.entries@);
                            assert(st.exported.spans@.subrange(0, st0.exported.spans@.len() as int) =~= st0.exported.spans@);
                        }
                    },
                }
            },
        }
        proof {
            let sp = if step.ok {
                step.spans
            } else {
                Seq::<Span>::empty()
            };
            assert(st.exported.spans@ =~= before.exported.spans@ + sp);
            assert(acc + decls_spans(*cx, orig@, j as int) =~= (acc + sp) + decls_spans(*cx, orig@, j + 1));
            assert(st0.exported.spans@ + acc + sp =~= st0.exported.spans@ + (acc + sp));
            acc = acc + sp;
            let nstep: nat = if step.ok {
                if fold_key(*cx, orig@[j as int]) is None {
                    item_fatals(*cx, orig@[j as int])
                } else {
                    0
                }
            } else {
                1nat
            };
            assert(st.fatals@.len() == before.fatals@.len() + nstep);
            assert(st.fatals@.subrange(0, st0.fatals@.len() as int) =~= st0.fatals@) by {
                assert(st.fatals@.subrange(0, before.fatals@.len() as int) =~= before.fatals@);
            }
            nf = nf + nstep;
            assert(st.warnings@.subrange(0, st0.warnings@.len() as int) =~= st0.warnings@) by {
                assert(st.warnings@.subrange(0, before.warnings@.len() as int) =~= before.warnings@);
            }
            assert forall|i: int|
                0 <= i < j + 1 && #[trigger] gives_node(*cx, orig@, i) implies decl_lowered(
                    *cx,
                    orig@,
                    i,
                    out@[node_count(*cx, orig@, i) as int],
                ) by {
                if i < j {
                    lemma_node_count_grows(*cx, orig@, i, j as int);
                    assert(out@[node_count(*cx, orig@, i) as int] == out0[node_count(*cx, orig@, i) as int]);
                }
            }
        }
        prev = key;
        j = j + 1;
        proof {
            assert(items@ =~= orig@.subrange(j as int, n as int));
        }
    }
    out
}

} // verus!
