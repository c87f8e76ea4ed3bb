//! Elimination of lexical-scope markers, keeping the attributes of the
//! region a marker stands for.
use vstd::prelude::*;
use crate::ast::Attribute;
use crate::host::{HostExpr, HostExprKind};

verus! {

/// The first node under a chain of scope markers.
pub open spec fn unrolled(e: HostExpr) -> HostExpr
    decreases e,
{
    match e.kind {
        HostExprKind::Scope { value, .. } => unrolled(*value),
        _ => e,
    }
}

/// Whether `e` is a scope marker.
pub open spec fn is_scope(e: HostExpr) -> bool {
    e.kind is Scope
}

/// Strips every scope marker wrapping `e`.
pub fn unroll_scope(e: HostExpr) -> (r: HostExpr)
    ensures
        r == unrolled(e),
        !is_scope(r),
    decreases e,
{
    match e.kind {
        HostExprKind::Scope { value, .. } => unroll_scope(*value),
        kind => HostExpr { ty: e.ty, shape: e.shape, span: e.span, backtrace: e.backtrace, kind },
    }
}

/// The syntax-node id and attributes of the region `e` marks, when `e` is
/// a scope marker, together with the node under all its markers.
pub fn hir_id_and_attributes(e: HostExpr) -> (r: (Option<(usize, usize)>, Vec<Attribute>, HostExpr))
    ensures
        r.2 == unrolled(e),
        match e.kind {
            HostExprKind::Scope { hir_id, attributes, .. } => r.0 == hir_id && r.1 == attributes,
            _ => r.0 is None && r.1@.len() == 0,
        },
{
    match e.kind {
        HostExprKind::Scope { hir_id, attributes, value, .. } => (hir_id, attributes, unroll_scope(*value)),
        kind => (
            None,
            Vec::new(),
            HostExpr { ty: e.ty, shape: e.shape, span: e.span, backtrace: e.backtrace, kind },
        ),
    }
}

} // verus!
