//! Properties of the lowering that relate several of its functions.
use vstd::prelude::*;
use crate::adt::{
    any_variant_has_named_field, describes_site, field_id_view, has_named_field, AdtDescriptor,
};
use crate::ast::{ExprKind, PatKind, VariantInformations};
use crate::host::{Ctx, HostExpr, HostExprKind, HostPat, HostPatKind, LocalVar};
use crate::outcome::{fold_key, gives_node, node_count, same_key};
use crate::lower::{kind_matches, lowers_to, pat_top_matches, top_matches};
use crate::scope::unrolled;
use crate::outcome::{lemma_run_expr_unrolled, run_expr};

verus! {

/// Variant information is consistent: a struct has exactly one variant, and
/// for it the type is a record exactly when that variant is.
pub proof fn lemma_variant_information_consistent(
    adt: AdtDescriptor,
    v: int,
    info: VariantInformations,
)
    requires
        0 <= v < adt.variants.len(),
        describes_site(info, adt, v),
    ensures
        info.typ_is_struct ==> adt.variants.len() == 1,
        info.typ_is_struct ==> info.typ_is_record == info.variant_is_record,
{
    if info.typ_is_struct {
        assert(v == 0);
        if has_named_field(adt.variants@[0].fields@) {
            assert(any_variant_has_named_field(adt.variants@));
        }
        if any_variant_has_named_field(adt.variants@) {
            let w = choose|w: int|
                0 <= w < adt.variants@.len() && has_named_field(#[trigger] adt.variants@[w].fields@);
            assert(w == 0);
        }
    }
}

/// Folding is idempotent on its grouping key: a declaration whose key is the
/// same call site as the one before it joins that run and gives no node of
/// its own, so two adjacent runs with one key make one invocation.
pub proof fn lemma_adjacent_runs_fold_once(
    cx: Ctx,
    its: Seq<crate::host::HostItem>,
    i: int,
)
    requires
        0 < i < its.len(),
        fold_key(cx, its[i]) is Some,
        same_key(fold_key(cx, its[i - 1]), fold_key(cx, its[i])),
    ensures
        !gives_node(cx, its, i),
        node_count(cx, its, i + 1) == node_count(cx, its, i),
{
}

/// Folding is idempotent on its grouping key, for whole runs: when
/// declarations `i + 1 ..= j` each have the same call site as the one
/// before, the declarations `i ..= j` give at most the one node of `i`,
/// however many adjacent groups they were split into.
pub proof fn lemma_run_folds_once(cx: Ctx, its: Seq<crate::host::HostItem>, i: int, j: int)
    requires
        0 <= i <= j < its.len(),
        forall|k: int|
            i < k <= j ==> fold_key(cx, #[trigger] its[k]) is Some && same_key(
                fold_key(cx, its[k - 1]),
                fold_key(cx, its[k]),
            ),
    ensures
        node_count(cx, its, j + 1) == node_count(cx, its, i + 1),
    decreases j - i,
{
    if j > i {
        lemma_run_folds_once(cx, its, i, j - 1);
        assert(fold_key(cx, its[j]) is Some);
        lemma_adjacent_runs_fold_once(cx, its, j);
    }
}

/// Field resolution round trip: a field resolved while constructing a
/// variant and the same field resolved while matching that variant give
/// the same identifier, which is the field's own.
pub proof fn lemma_field_resolution_round_trip(
    cx: Ctx,
    vars: Seq<LocalVar>,
    built: HostExpr,
    k: ExprKind,
    matched: HostPat,
    pk: PatKind,
    j: int,
    m: int,
)
    requires
        built.kind matches HostExprKind::Adt { .. },
        matched.kind matches HostPatKind::Variant { .. },
        kind_matches(cx, vars, built.ty, built.shape, built.span, built.kind, k),
        pat_top_matches(cx, vars, matched, pk),
        built.kind->Adt_adt == matched.kind->Variant_adt,
        built.kind->Adt_variant_index == matched.kind->Variant_variant_index,
        0 <= j < built.kind->Adt_fields.len(),
        0 <= m < matched.kind->Variant_subpatterns.len(),
        built.kind->Adt_fields@[j].field == matched.kind->Variant_subpatterns@[m].field,
    ensures
        k->Adt_0.fields@[j].field@ == pk->Variant_subpatterns@[m].field@,
        k->Adt_0.fields@[j].field@ == field_id_view(
            cx.adts@[built.kind->Adt_adt as int],
            built.kind->Adt_variant_index as int,
            built.kind->Adt_fields@[j].field as int,
        ),
{
}

/// Scope elimination is span-preserving: lowering a scope marker exports
/// exactly the spans, in the same order, that lowering the expression it
/// wraps exports (the marker's own span is never exported), succeeds
/// exactly when that does, and gives a node with the wrapped expression's
/// type, span and contents; only the syntax-node id and attributes come
/// from the marker.
pub proof fn lemma_scope_elimination_preserves_spans(
    cx: Ctx,
    vars: Seq<LocalVar>,
    e: HostExpr,
    r: crate::ast::Expr,
)
    requires
        e.kind is Scope,
    ensures
        run_expr(cx, vars, e) == run_expr(cx, vars, *e.kind->Scope_value),
        run_expr(cx, vars, e) == run_expr(cx, vars, unrolled(e)),
        lowers_to(cx, vars, e, r) ==> {
            &&& r.span == unrolled(*e.kind->Scope_value).span
            &&& r.ty == unrolled(*e.kind->Scope_value).ty
            &&& top_matches(cx, vars, unrolled(*e.kind->Scope_value), *r.contents)
        },
{
    lemma_run_expr_unrolled(cx, vars, e);
    crate::lower::lemma_lowers_to_unrolled(cx, vars, e, r);
}

/// Two lowerings of one node agree on the envelope of the node they give:
/// type, span, syntax-node id and attributes.
pub proof fn lemma_lowered_envelope_deterministic(
    cx: Ctx,
    vars: Seq<LocalVar>,
    e: HostExpr,
    r1: crate::ast::Expr,
    r2: crate::ast::Expr,
)
    requires
        lowers_to(cx, vars, e, r1),
        lowers_to(cx, vars, e, r2),
    ensures
        r1.ty == r2.ty,
        r1.span == r2.span,
        r1.hir_id == r2.hir_id,
        r1.attributes@ == r2.attributes@,
{
    crate::lower::lemma_lowers_to_unrolled(cx, vars, e, r1);
    crate::lower::lemma_lowers_to_unrolled(cx, vars, e, r2);
    if !(e.kind is Scope) {
        assert(r1.attributes@ =~= r2.attributes@);
    }
}

} // verus!
