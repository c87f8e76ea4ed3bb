use hax_frontend_exporter::host::{BoundsOwner, HostBounds, HostPredicate, State};
use hax_frontend_exporter::ast::{Clause, PredicateKind, TraitPredicate, TraitRef};
use hax_frontend_exporter::ids::DefId;
use hax_frontend_exporter::item::lower_generic_bounds;
use hax_frontend_exporter::options::{Backend, ForceCargoBuild, PathOrDash};
use hax_frontend_exporter::span::{FileName, Loc, Span};

#[test]
fn dash_means_stdout() {
    assert!(matches!(PathOrDash::from_arg("-"), PathOrDash::Dash));
    assert!(matches!(PathOrDash::from_arg("out.json"), PathOrDash::Path(p) if p == "out.json"));
    assert!(matches!(PathOrDash::from_arg("--"), PathOrDash::Path(p) if p == "--"));
}

#[test]
fn map_path_applies_to_paths_only() {
    let p = PathOrDash::from_arg("a.json").map_path(|s| format!("/tmp/{}", s));
    assert!(matches!(p, PathOrDash::Path(q) if q == "/tmp/a.json"));
    assert!(matches!(PathOrDash::Dash.map_path(|s| s.clone()), PathOrDash::Dash));
}

#[test]
fn cache_flag_false_forces_build() {
    assert_eq!(ForceCargoBuild::from_flag("false", 1234).data, 1234);
    assert_eq!(ForceCargoBuild::from_flag("true", 1234).data, 0);
    assert_eq!(ForceCargoBuild::from_flag("", 1234).data, 0);
}

#[test]
fn backend_names() {
    assert_eq!(Backend::Fstar.name(), "fstar");
    assert_eq!(Backend::Coq.name(), "coq");
    assert_eq!(Backend::Easycrypt.name(), "easycrypt");
}

fn sp(line: usize) -> Span {
    Span { lo: Loc { line, col: 0 }, hi: Loc { line, col: 1 }, filename: FileName::Anon(0) }
}

fn trait_pred(name: &str) -> PredicateKind {
    PredicateKind::Clause(Clause::Trait(TraitPredicate {
        trait_ref: TraitRef { def_id: DefId { krate: name.to_string(), path: vec![] }, generic_args: vec![] },
        is_const: false,
        is_positive: true,
    }))
}

#[test]
fn bound_variables_degrade_to_ambiguous_with_warning() {
    let b = HostBounds {
        owner: BoundsOwner::AssocType,
        item_bounds: vec![
            HostPredicate { kind: Some(trait_pred("Clone")), span: sp(1) },
            HostPredicate { kind: None, span: sp(2) },
        ],
        predicates: vec![HostPredicate { kind: Some(trait_pred("Other")), span: sp(3) }],
    };
    let mut st = State::new();
    let r = lower_generic_bounds(&mut st, b);
    assert_eq!(r.len(), 2);
    assert!(matches!(&r[0], PredicateKind::Clause(Clause::Trait(t)) if t.trait_ref.def_id.krate == "Clone"));
    assert!(matches!(&r[1], PredicateKind::Ambiguous));
    assert_eq!(st.warnings.len(), 1);
    assert_eq!(st.warnings[0].lo.line, 2);
}

#[test]
fn other_owners_use_their_predicates() {
    let b = HostBounds {
        owner: BoundsOwner::Other,
        item_bounds: vec![HostPredicate { kind: None, span: sp(1) }],
        predicates: vec![HostPredicate { kind: Some(trait_pred("Other")), span: sp(3) }],
    };
    let mut st = State::new();
    let r = lower_generic_bounds(&mut st, b);
    assert_eq!(r.len(), 1);
    assert!(matches!(&r[0], PredicateKind::Clause(Clause::Trait(t)) if t.trait_ref.def_id.krate == "Other"));
    assert!(st.warnings.is_empty());
}
